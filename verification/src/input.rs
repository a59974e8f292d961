//! Touches that the viewer sends to the tablet: taps on the keys of its
//! on-screen keyboard, and swipes that scroll.
//!
//! The picture lies on its side: the first coordinate of the tablet's screen
//! runs down the window, the second one runs from right to left. The keyboard
//! is placed in thousandths of the screen.
use vstd::prelude::*;

use crate::protocol::{is_message, message, messages_are_laid_out, Frames, INPUT_MAGIC};

verus! {

/// A finger comes down.
pub const INPUT_TOUCH_DOWN: u32 = 1;

/// A finger moves.
pub const INPUT_TOUCH_MOVE: u32 = 2;

/// A finger goes up.
pub const INPUT_TOUCH_UP: u32 = 3;

/// Parts of the screen in which the keyboard is placed.
pub const SOFT_SCALE: usize = 1000;

/// `qwertyuiop`
pub const TOP_ROW: [u8; 10] = [0x71, 0x77, 0x65, 0x72, 0x74, 0x79, 0x75, 0x69, 0x6f, 0x70];

/// `asdfghjkl`
pub const HOME_ROW: [u8; 9] = [0x61, 0x73, 0x64, 0x66, 0x67, 0x68, 0x6a, 0x6b, 0x6c];

/// `zxcvbnm`
pub const BOTTOM_ROW: [u8; 7] = [0x7a, 0x78, 0x63, 0x76, 0x62, 0x6e, 0x6d];

/// A touch of the tablet's screen.
#[derive(Clone, Copy, Debug, PartialEq, Eq, Structural)]
pub struct Touch {
    pub action: u32,
    pub x: u16,
    pub y: u16,
}

/// Whether a command tells the tablet of this touch.
pub open spec fn carries(command: [u8; 16], touch: Touch) -> bool {
    is_message(command@, INPUT_MAGIC, touch.action as int, touch.x as int, touch.y as int)
}

/// Whether the queue has grown by the commands for these touches, in order.
pub open spec fn sent(
    before: Seq<[u8; 16]>,
    after: Seq<[u8; 16]>,
    touches: Seq<Touch>,
) -> bool {
    &&& after.len() == before.len() + touches.len()
    &&& after.take(before.len() as int) == before
    &&& forall|i: int|
        0 <= i < touches.len() ==> carries(after[before.len() + i], #[trigger] touches[i])
}

/// Queues that grow one after the other.
proof fn sent_in_turn(
    first: Seq<[u8; 16]>,
    second: Seq<[u8; 16]>,
    third: Seq<[u8; 16]>,
    early: Seq<Touch>,
    late: Seq<Touch>,
)
    requires
        sent(first, second, early),
        sent(second, third, late),
    ensures
        sent(first, third, early + late),
{
    assert(third.take(first.len() as int) =~= second.take(first.len() as int));
    assert forall|i: int| 0 <= i < (early + late).len() implies carries(
        third[first.len() + i],
        #[trigger] (early + late)[i],
    ) by {
        if i < early.len() {
            assert(third[first.len() + i] == third.take(second.len() as int)[first.len() + i]);
            assert((early + late)[i] == early[i]);
        } else {
            assert((early + late)[i] == late[i - early.len()]);
            assert(first.len() + i == second.len() + (i - early.len()));
        }
    }
}

/// The low sixteen bits.
fn low16(value: usize) -> (res: u16)
    ensures
        res == value % 0x1_0000,
{
    let res: u16 = value as u16;
    assert(res == value % 0x1_0000) by (bit_vector)
        requires
            res == value as u16,
    ;
    res
}

/// The lesser of two numbers.
fn lesser(first: usize, second: usize) -> (res: usize)
    ensures
        res == vstd::math::min(first as int, second as int),
{
    if first <= second {
        first
    } else {
        second
    }
}

/// Queues the command for one touch.
pub fn send_input(input: &mut Vec<[u8; 16]>, action: u32, x: u16, y: u16)
    ensures
        sent(old(input)@, final(input)@, seq![Touch { action, x, y }]),
{
    let command: [u8; 16] = message(&INPUT_MAGIC, action, x, y);
    input.push(command);
    assert(input@.take(old(input)@.len() as int) =~= old(input)@);
}

/// The place on a side of `length` pixels that lies `part` thousandths along,
/// as the tablet is told.
pub open spec fn place(part: int, length: int) -> u16 {
    (vstd::math::min(part * length / SOFT_SCALE as int, length - 1) % 0x1_0000) as u16
}

/// A tap on a point of the keyboard: nothing before the first frame.
pub open spec fn tap(width: int, height: int, x: int, y: int) -> Seq<Touch> {
    if width == 0 || height == 0 {
        seq![]
    } else {
        seq![
            Touch { action: INPUT_TOUCH_DOWN, x: place(x, width), y: place(y, height) },
            Touch { action: INPUT_TOUCH_UP, x: place(x, width), y: place(y, height) },
        ]
    }
}

/// Whether the numbers with which a point of the keyboard is tapped fit in a
/// `usize`.
pub open spec fn tap_fits(width: int, height: int, x: int, y: int) -> bool {
    width > 0 && height > 0 ==> x * width <= usize::MAX && y * height <= usize::MAX
}

/// Taps a point of the keyboard.
pub fn soft_tap(input: &mut Vec<[u8; 16]>, width: usize, height: usize, x: usize, y: usize)
    requires
        tap_fits(width as int, height as int, x as int, y as int),
    ensures
        sent(
            old(input)@,
            final(input)@,
            tap(width as int, height as int, x as int, y as int),
        ),
{
    if width == 0 || height == 0 {
        assert(input@.take(old(input)@.len() as int) =~= old(input)@);
        return;
    }
    let x: u16 = low16(lesser(x * width / SOFT_SCALE, width - 1));
    let y: u16 = low16(lesser(y * height / SOFT_SCALE, height - 1));
    send_input(input, INPUT_TOUCH_DOWN, x, y);
    let ghost between = input@;
    send_input(input, INPUT_TOUCH_UP, x, y);
    proof {
        let down = seq![Touch { action: INPUT_TOUCH_DOWN, x, y }];
        let up = seq![Touch { action: INPUT_TOUCH_UP, x, y }];
        sent_in_turn(old(input)@, between, input@, down, up);
        assert(down + up =~= seq![down[0], up[0]]);
    }
}

/// A coordinate as the tablet is told it when it does not fit in 16 bits: the
/// largest that does.
pub open spec fn capped(value: int) -> u16 {
    vstd::math::min(value, 0xffff) as u16
}

/// Where a swipe along a side of `width` pixels begins.
pub open spec fn swipe_start(width: int, upward: bool) -> int {
    if upward {
        width * 3 / 4
    } else {
        width / 4
    }
}

/// A swipe over half of the picture, across its middle: nothing before the
/// first frame.
pub open spec fn swipe(width: int, height: int, upward: bool) -> Seq<Touch> {
    let first = swipe_start(width, upward);
    let y = (height / 2 % 0x1_0000) as u16;
    if width == 0 || height == 0 {
        seq![]
    } else {
        seq![
            Touch { action: INPUT_TOUCH_DOWN, x: capped(first), y },
            Touch { action: INPUT_TOUCH_MOVE, x: capped(width / 2), y },
            Touch { action: INPUT_TOUCH_UP, x: capped(width - first), y },
        ]
    }
}

/// Scrolls by a swipe.
pub fn scroll(input: &mut Vec<[u8; 16]>, width: usize, height: usize, upward: bool)
    requires
        upward && height > 0 ==> width * 3 <= usize::MAX,
    ensures
        sent(old(input)@, final(input)@, swipe(width as int, height as int, upward)),
{
    if width == 0 || height == 0 {
        assert(input@.take(old(input)@.len() as int) =~= old(input)@);
        return;
    }
    let first: usize = if upward {
        width * 3 / 4
    } else {
        width / 4
    };
    let last: usize = width - first;
    let middle: usize = (first + last) / 2;
    let y: u16 = low16(height / 2);
    let start: u16 = lesser(first, 0xffff) as u16;
    let middle: u16 = lesser(middle, 0xffff) as u16;
    let end: u16 = lesser(last, 0xffff) as u16;
    send_input(input, INPUT_TOUCH_DOWN, start, y);
    let ghost second = input@;
    send_input(input, INPUT_TOUCH_MOVE, middle, y);
    let ghost third = input@;
    send_input(input, INPUT_TOUCH_UP, end, y);
    proof {
        let down = seq![Touch { action: INPUT_TOUCH_DOWN, x: start, y }];
        let along = seq![Touch { action: INPUT_TOUCH_MOVE, x: middle, y }];
        let up = seq![Touch { action: INPUT_TOUCH_UP, x: end, y }];
        sent_in_turn(old(input)@, second, third, down, along);
        sent_in_turn(old(input)@, third, input@, down + along, up);
        assert(down + along + up =~= seq![down[0], along[0], up[0]]);
    }
}

/// Whether the pixel in column `x` of row `y` is there and nearly white.
pub open spec fn bright(frames: &Frames, x: int, y: int) -> bool {
    let pixel = (y * frames.width + x) * 4;
    let shown = frames.shown();
    &&& 0 <= pixel
    &&& pixel + 3 <= shown.len()
    &&& shown[pixel] > 180
    &&& shown[pixel + 1] > 180
    &&& shown[pixel + 2] > 180
}

/// The number of bright pixels in columns `x0` to `x1` of row `y`.
pub open spec fn bright_in_row(frames: &Frames, x0: int, x1: int, y: int) -> nat
    decreases x1 - x0,
{
    if x0 >= x1 {
        0
    } else {
        bright_in_row(frames, x0, x1 - 1, y) + if bright(frames, x1 - 1, y) {
            1nat
        } else {
            0nat
        }
    }
}

/// The number of bright pixels in columns `x0` to `x1` of rows `y0` to `y1`.
pub open spec fn bright_in_area(frames: &Frames, x0: int, x1: int, y0: int, y1: int) -> nat
    decreases y1 - y0,
{
    if y0 >= y1 {
        0
    } else {
        bright_in_area(frames, x0, x1, y0, y1 - 1) + bright_in_row(frames, x0, x1, y1 - 1)
    }
}

/// The area of the picture by which the keyboard shows its layout: columns
/// from the first to the second number, rows from the third to the fourth.
pub open spec fn probe(width: int, height: int) -> (int, int, int, int) {
    (
        width * 350 / SOFT_SCALE as int,
        width * 472 / SOFT_SCALE as int,
        height * 935 / SOFT_SCALE as int,
        height * 968 / SOFT_SCALE as int,
    )
}

/// The number of bright pixels where the keyboard shows its layout.
pub open spec fn probe_count(frames: &Frames) -> nat {
    let (x0, x1, y0, y1) = probe(frames.width as int, frames.height as int);
    bright_in_area(frames, x0, x1, y0, y1)
}

/// Whether the numbers with which the layout is found fit in a `usize`.
pub open spec fn layout_fits(frames: &Frames) -> bool {
    let (x0, x1, y0, y1) = probe(frames.width as int, frames.height as int);
    frames.width > 0 && frames.height > 0 ==> {
        &&& frames.width * 472 <= usize::MAX
        &&& frames.height * 968 <= usize::MAX
        &&& x0 < x1 && y0 < y1 ==> {
            &&& frames.front < 2
            &&& ((y1 - 1) * frames.width + (x1 - 1)) * 4 + 3 <= usize::MAX
        }
    }
}

/// The layout of the keyboard that the picture shows: numeric if more than 4
/// and fewer than 11 in a hundred pixels of the area are bright, letters if
/// there are more, and no keyboard if there are fewer.
pub open spec fn layout(frames: &Frames) -> Option<bool> {
    let (x0, x1, y0, y1) = probe(frames.width as int, frames.height as int);
    let area = (x1 - x0) * (y1 - y0);
    let count = probe_count(frames);
    if frames.width == 0 || frames.height == 0 || x0 >= x1 || y0 >= y1 {
        None
    } else if count * 100 > area * 4 {
        Some(count * 100 < area * 11)
    } else {
        None
    }
}

/// The largest pixel of an area bounds every pixel in it.
proof fn pixel_in_area(width: int, x: int, x1: int, y: int, y1: int)
    requires
        0 <= width,
        0 <= x < x1,
        0 <= y < y1,
    ensures
        0 <= y * width,
        0 <= (y * width + x) * 4,
        y * width <= (y1 - 1) * width,
        (y * width + x) * 4 <= ((y1 - 1) * width + (x1 - 1)) * 4,
{
    assert(y * width <= (y1 - 1) * width) by (nonlinear_arith)
        requires
            0 <= width,
            y <= y1 - 1,
    ;
    assert(0 <= y * width) by (nonlinear_arith)
        requires
            0 <= width,
            0 <= y,
    ;
}

/// A hundred times the area of the probe is less than the last byte in it.
proof fn probe_is_small(width: int, height: int)
    requires
        width > 0,
        height > 0,
    ensures
        ({
            let (x0, x1, y0, y1) = probe(width, height);
            x0 < x1 && y0 < y1 ==> 0 < (x1 - x0) * (y1 - y0) * 100 <= (y1 - 1) * width * 4
        }),
{
    let (x0, x1, y0, y1) = probe(width, height);
    if x0 < x1 && y0 < y1 {
        let across = x1 - x0;
        let down = y1 - y0;
        let above = y1 - 1;
        assert(width >= 5);
        assert(height >= 16);
        assert(1000 * across <= 322 * width);
        assert(2000 * down <= 191 * height);
        assert(1000 * above >= 843 * height);
        assert(0 < across * down * 100 <= above * width * 4) by (nonlinear_arith)
            requires
                0 < across,
                0 < down,
                0 < width,
                0 < height,
                1000 * across <= 322 * width,
                2000 * down <= 191 * height,
                1000 * above >= 843 * height,
        {
            assert(0 < across * down);
            assert((1000 * across) * (2000 * down) <= (322 * width) * (191 * height));
            assert((1000 * above) * width >= (843 * height) * width);
        }
    }
}

/// Counting to the end of a row does not lose pixels.
proof fn row_count_grows(frames: &Frames, x0: int, x: int, x1: int, y: int)
    requires
        x <= x1,
    ensures
        bright_in_row(frames, x0, x, y) <= bright_in_row(frames, x0, x1, y),
    decreases x1 - x,
{
    if x < x1 {
        row_count_grows(frames, x0, x, x1 - 1, y);
    }
}

/// Counting to the last row does not lose pixels.
proof fn area_count_grows(frames: &Frames, x0: int, x1: int, y0: int, y: int, y1: int)
    requires
        y <= y1,
    ensures
        bright_in_area(frames, x0, x1, y0, y) <= bright_in_area(frames, x0, x1, y0, y1),
    decreases y1 - y,
{
    if y < y1 {
        area_count_grows(frames, x0, x1, y0, y, y1 - 1);
    }
}

/// Whether the pixel that starts at `pixel` is there and nearly white.
fn bright_pixel(data: &[u8], pixel: usize) -> (res: bool)
    requires
        pixel + 3 <= usize::MAX,
    ensures
        res == (pixel + 3 <= data@.len() && data@[pixel as int] > 180 && data@[pixel + 1] > 180
            && data@[pixel + 2] > 180),
{
    pixel + 3 <= data.len() && data[pixel] > 180 && data[pixel + 1] > 180 && data[pixel + 2] > 180
}

/// Says whether the numbers with which the layout is found fit in a `usize`.
pub fn can_find_layout(frames: &Frames) -> (res: bool)
    ensures
        res == layout_fits(frames),
{
    let width: usize = frames.width;
    let height: usize = frames.height;
    if width == 0 || height == 0 {
        return true;
    }
    let right: usize = match width.checked_mul(472) {
        Some(right) => right,
        None => {
            return false;
        },
    };
    let bottom: usize = match height.checked_mul(968) {
        Some(bottom) => bottom,
        None => {
            return false;
        },
    };
    let x0: usize = width * 350 / SOFT_SCALE;
    let x1: usize = right / SOFT_SCALE;
    let y0: usize = height * 935 / SOFT_SCALE;
    let y1: usize = bottom / SOFT_SCALE;
    if x0 >= x1 || y0 >= y1 {
        return true;
    }
    if frames.front >= 2 {
        return false;
    }
    assert((y1 - 1) * width >= 0) by (nonlinear_arith)
        requires
            y1 >= 1,
    ;
    let row: usize = match (y1 - 1).checked_mul(width) {
        Some(row) => row,
        None => {
            return false;
        },
    };
    let pixel: usize = match row.checked_add(x1 - 1) {
        Some(pixel) => pixel,
        None => {
            return false;
        },
    };
    pixel <= (usize::MAX - 3) / 4
}

/// Finds the layout of the keyboard in the picture that is shown.
pub fn soft_layout(frames: &Frames) -> (res: Option<bool>)
    requires
        layout_fits(frames),
    ensures
        res == layout(frames),
{
    if frames.width == 0 || frames.height == 0 {
        return None;
    }
    let x0: usize = frames.width * 350 / SOFT_SCALE;
    let x1: usize = frames.width * 472 / SOFT_SCALE;
    let y0: usize = frames.height * 935 / SOFT_SCALE;
    let y1: usize = frames.height * 968 / SOFT_SCALE;
    if x0 >= x1 || y0 >= y1 {
        return None;
    }
    proof {
        probe_is_small(frames.width as int, frames.height as int);
        area_count_bounded(frames, x0 as int, x1 as int, y0 as int, y1 as int);
    }
    let data: &[u8] = frames.buffers[frames.front].as_slice();
    let width: usize = frames.width;
    let mut count: usize = 0;
    let mut y: usize = y0;
    while y < y1
        invariant
            y0 <= y <= y1,
            x0 < x1,
            width == frames.width,
            data@ == frames.shown(),
            ((y1 - 1) * width + (x1 - 1)) * 4 + 3 <= usize::MAX,
            count == bright_in_area(frames, x0 as int, x1 as int, y0 as int, y as int),
            bright_in_area(frames, x0 as int, x1 as int, y0 as int, y1 as int) * 100 <= usize::MAX,
        decreases y1 - y,
    {
        let ghost above = count;
        let mut x: usize = x0;
        while x < x1
            invariant
                y0 <= y < y1,
                x0 <= x <= x1,
                width == frames.width,
                data@ == frames.shown(),
                ((y1 - 1) * width + (x1 - 1)) * 4 + 3 <= usize::MAX,
                above == bright_in_area(frames, x0 as int, x1 as int, y0 as int, y as int),
                count == above + bright_in_row(frames, x0 as int, x as int, y as int),
                bright_in_area(frames, x0 as int, x1 as int, y0 as int, y1 as int) * 100
                    <= usize::MAX,
            decreases x1 - x,
        {
            proof {
                pixel_in_area(width as int, x as int, x1 as int, y as int, y1 as int);
                row_count_grows(frames, x0 as int, x as int, x1 as int, y as int);
                area_count_grows(frames, x0 as int, x1 as int, y0 as int, y + 1, y1 as int);
            }
            let pixel: usize = (y * width + x) * 4;
            if bright_pixel(data, pixel) {
                count += 1;
            }
            x += 1;
        }
        y += 1;
    }
    assert((x1 - x0) * (y1 - y0) >= 0) by (nonlinear_arith)
        requires
            x0 < x1,
            y0 < y1,
    ;
    let area: usize = (x1 - x0) * (y1 - y0);
    if count * 100 > area * 4 {
        Some(count * 100 < area * 11)
    } else {
        None
    }
}

/// What the viewer remembers of the pointer and of the tablet's keyboard:
/// whether the pointer is pressed, whether the keyboard shows numbers, and
/// whether that is known.
#[derive(Clone, Copy, Debug, PartialEq, Eq, Structural)]
pub struct InputState {
    pub touch: bool,
    pub numeric: bool,
    pub keyboard_known: bool,
}

/// Whether nothing was touched and nothing learned yet.
pub open spec fn is_untouched(state: InputState) -> bool {
    !state.touch && !state.numeric && !state.keyboard_known
}

impl InputState {
    /// The pointer is up and nothing is known of the keyboard.
    pub fn new() -> (state: Self)
        ensures
            state == (InputState { touch: false, numeric: false, keyboard_known: false }),
            is_untouched(state),
    {
        InputState { touch: false, numeric: false, keyboard_known: false }
    }
}

/// Whether a character is a letter of the English alphabet.
pub open spec fn is_letter(character: char) -> bool {
    is_capital(character) || 'a' <= character <= 'z'
}

/// Whether a character is a capital letter of the English alphabet.
pub open spec fn is_capital(character: char) -> bool {
    'A' <= character <= 'Z'
}

/// The small letter on the key of a letter.
pub open spec fn key_of(character: char) -> u8 {
    if is_capital(character) {
        (character as int + 32) as u8
    } else {
        character as u8
    }
}

/// The first place of a key in a row.
pub open spec fn place_in_row(row: Seq<u8>, key: u8) -> Option<int>
    decreases row.len(),
{
    if row.len() == 0 {
        None
    } else if row.first() == key {
        Some(0)
    } else {
        match place_in_row(row.drop_first(), key) {
            Some(index) => Some(index + 1),
            None => None,
        }
    }
}

/// Where the key of a small letter is, in thousandths of the screen.
pub open spec fn key_place(key: u8) -> Option<(int, int)> {
    if let Some(index) = place_in_row(TOP_ROW@, key) {
        Some((411, 950 - index * 88))
    } else if let Some(index) = place_in_row(HOME_ROW@, key) {
        Some((632, 875 - index * 88))
    } else if let Some(index) = place_in_row(BOTTOM_ROW@, key) {
        Some((854, 841 - index * 88))
    } else {
        None
    }
}

/// The taps that type a character while the keyboard shows numbers or letters:
/// on the mode key if it shows numbers, on the shift key for a capital, and on
/// the key itself. Characters beside letters and the space are not typed.
pub open spec fn key_taps(width: int, height: int, numeric: bool, character: char) -> Seq<Touch> {
    if is_letter(character) {
        let mode = if numeric {
            tap(width, height, 632, 63)
        } else {
            seq![]
        };
        let shift = if is_capital(character) {
            tap(width, height, 632, 958)
        } else {
            seq![]
        };
        let key = match key_place(key_of(character)) {
            Some((x, y)) => tap(width, height, x, y),
            None => seq![],
        };
        mode + shift + key
    } else if character == ' ' {
        tap(width, height, 854, 199)
    } else {
        seq![]
    }
}

/// What is known of the keyboard once the picture has been looked at.
pub open spec fn informed(state: InputState, frames: &Frames) -> InputState {
    match layout(frames) {
        Some(numeric) if !state.keyboard_known => InputState {
            numeric,
            keyboard_known: true,
            ..state
        },
        _ => state,
    }
}

/// The state after a character was typed.
pub open spec fn after_key(state: InputState, frames: &Frames, character: char) -> InputState {
    let state = informed(state, frames);
    if state.keyboard_known && is_letter(character) {
        InputState { numeric: false, ..state }
    } else {
        state
    }
}

/// The touches that type a character: none while the keyboard is not known.
pub open spec fn key_touches(state: InputState, frames: &Frames, character: char) -> Seq<Touch> {
    let state = informed(state, frames);
    if state.keyboard_known {
        key_taps(frames.width as int, frames.height as int, state.numeric, character)
    } else {
        seq![]
    }
}

/// Whether the numbers with which a character is typed fit in a `usize`.
pub open spec fn key_fits(state: InputState, frames: &Frames, character: char) -> bool {
    let state = informed(state, frames);
    let width = frames.width as int;
    let height = frames.height as int;
    state.keyboard_known ==> {
        &&& is_letter(character) ==> {
            &&& state.numeric ==> tap_fits(width, height, 632, 63)
            &&& is_capital(character) ==> tap_fits(width, height, 632, 958)
            &&& key_place(key_of(character)) matches Some((x, y)) ==> tap_fits(width, height, x, y)
        }
        &&& character == ' ' ==> tap_fits(width, height, 854, 199)
    }
}

/// Finds the first place of a key in a row.
fn key_index(row: &[u8], key: u8) -> (res: Option<usize>)
    ensures
        match res {
            Some(index) => place_in_row(row@, key) == Some(index as int) && index < row@.len(),
            None => place_in_row(row@, key) is None,
        },
{
    let mut index: usize = 0;
    assert(row@.skip(0) =~= row@);
    while index < row.len()
        invariant
            index <= row@.len(),
            place_in_row(row@, key) == match place_in_row(row@.skip(index as int), key) {
                Some(place) => Some(index + place),
                None => None,
            },
        decreases row@.len() - index,
    {
        if row[index] == key {
            return Some(index);
        }
        assert(row@.skip(index as int).drop_first() =~= row@.skip(index + 1));
        index += 1;
    }
    None
}

/// Taps the key of a small letter.
fn tap_key(input: &mut Vec<[u8; 16]>, width: usize, height: usize, key: u8)
    requires
        key_place(key) matches Some((x, y)) ==> tap_fits(width as int, height as int, x, y),
    ensures
        sent(
            old(input)@,
            final(input)@,
            match key_place(key) {
                Some((x, y)) => tap(width as int, height as int, x, y),
                None => seq![],
            },
        ),
{
    if let Some(index) = key_index(TOP_ROW.as_slice(), key) {
        soft_tap(input, width, height, 411, 950 - index * 88);
    } else if let Some(index) = key_index(HOME_ROW.as_slice(), key) {
        soft_tap(input, width, height, 632, 875 - index * 88);
    } else if let Some(index) = key_index(BOTTOM_ROW.as_slice(), key) {
        soft_tap(input, width, height, 854, 841 - index * 88);
    } else {
        assert(input@.take(old(input)@.len() as int) =~= old(input)@);
    }
}

/// Says whether the numbers with which a point is tapped fit in a `usize`.
fn can_tap(width: usize, height: usize, x: usize, y: usize) -> (res: bool)
    ensures
        res == tap_fits(width as int, height as int, x as int, y as int),
{
    width == 0 || height == 0 || (x.checked_mul(width).is_some() && y.checked_mul(
        height,
    ).is_some())
}

/// Says whether the numbers with which the key of a small letter is tapped fit in
/// a `usize`.
fn can_tap_key(width: usize, height: usize, key: u8) -> (res: bool)
    ensures
        res == (key_place(key) matches Some((x, y)) ==> tap_fits(
            width as int,
            height as int,
            x,
            y,
        )),
{
    if let Some(index) = key_index(TOP_ROW.as_slice(), key) {
        can_tap(width, height, 411, 950 - index * 88)
    } else if let Some(index) = key_index(HOME_ROW.as_slice(), key) {
        can_tap(width, height, 632, 875 - index * 88)
    } else if let Some(index) = key_index(BOTTOM_ROW.as_slice(), key) {
        can_tap(width, height, 854, 841 - index * 88)
    } else {
        true
    }
}

/// Says whether the numbers with which a character is typed fit in a `usize`.
pub fn can_type(state: &InputState, frames: &Frames, character: char) -> (res: bool)
    ensures
        res == (layout_fits(frames) && key_fits(*state, frames, character)),
{
    if !can_find_layout(frames) {
        return false;
    }
    let width: usize = frames.width;
    let height: usize = frames.height;
    let (known, numeric): (bool, bool) = if state.keyboard_known {
        (true, state.numeric)
    } else {
        match soft_layout(frames) {
            Some(numeric) => (true, numeric),
            None => (false, false),
        }
    };
    if !known {
        return true;
    }
    let capital: bool = 'A' <= character && character <= 'Z';
    if capital {
        (!numeric || can_tap(width, height, 632, 63)) && can_tap(width, height, 632, 958)
            && can_tap_key(width, height, character as u8 + 32)
    } else if 'a' <= character && character <= 'z' {
        (!numeric || can_tap(width, height, 632, 63)) && can_tap_key(
            width,
            height,
            character as u8,
        )
    } else if character == ' ' {
        can_tap(width, height, 854, 199)
    } else {
        true
    }
}

/// Types a character on the tablet's keyboard.
pub fn soft_key(
    state: &mut InputState,
    input: &mut Vec<[u8; 16]>,
    frames: &Frames,
    character: char,
)
    requires
        layout_fits(frames),
        key_fits(*old(state), frames, character),
    ensures
        *final(state) == after_key(*old(state), frames, character),
        sent(old(input)@, final(input)@, key_touches(*old(state), frames, character)),
{
    let width: usize = frames.width;
    let height: usize = frames.height;
    let layout: Option<bool> = soft_layout(frames);
    assert(input@.take(old(input)@.len() as int) =~= old(input)@);
    if !state.keyboard_known {
        match layout {
            Some(numeric) => {
                state.numeric = numeric;
                state.keyboard_known = true;
            },
            None => {
                return;
            },
        }
    }
    let capital: bool = 'A' <= character && character <= 'Z';
    if capital || ('a' <= character && character <= 'z') {
        let ghost shows_numbers = state.numeric;
        let ghost start = input@;
        if state.numeric {
            soft_tap(input, width, height, 632, 63);
            state.numeric = false;
        }
        let ghost moded = input@;
        if capital {
            soft_tap(input, width, height, 632, 958);
        }
        let ghost shifted = input@;
        assert(moded.take(moded.len() as int) =~= moded);
        let key: u8 = if capital {
            character as u8 + 32
        } else {
            character as u8
        };
        tap_key(input, width, height, key);
        proof {
            let w = width as int;
            let h = height as int;
            let mode = if shows_numbers {
                tap(w, h, 632, 63)
            } else {
                seq![]
            };
            let shift = if is_capital(character) {
                tap(w, h, 632, 958)
            } else {
                seq![]
            };
            let tapped = match key_place(key_of(character)) {
                Some((x, y)) => tap(w, h, x, y),
                None => seq![],
            };
            sent_in_turn(start, moded, shifted, mode, shift);
            sent_in_turn(start, shifted, input@, mode + shift, tapped);
        }
    } else if character == ' ' {
        soft_tap(input, width, height, 854, 199);
    }
}

/// Whether a touch of the screen hits the key that switches between letters
/// and numbers.
pub open spec fn on_mode_key(width: int, height: int, x: int, y: int) -> bool {
    &&& width > 0
    &&& height > 0
    &&& 529 <= x * SOFT_SCALE / width <= 736
    &&& y * SOFT_SCALE / height <= 118
}

/// The state after the pointer was pressed at a point.
pub open spec fn after_press(
    state: InputState,
    width: int,
    height: int,
    x: u16,
    y: u16,
) -> InputState {
    if state.keyboard_known && on_mode_key(width, height, x as int, y as int) {
        InputState { numeric: !state.numeric, ..state }
    } else {
        state
    }
}

/// Follows the keyboard when its mode key is pressed with the pointer.
pub fn soft_mode(state: &mut InputState, width: usize, height: usize, x: u16, y: u16)
    ensures
        *final(state) == after_press(*old(state), width as int, height as int, x, y),
{
    if width == 0 || height == 0 {
        return;
    }
    let x: usize = x as usize * SOFT_SCALE / width;
    let y: usize = y as usize * SOFT_SCALE / height;
    if 529 <= x && x <= 736 && y <= 118 && state.keyboard_known {
        state.numeric = !state.numeric;
    }
}

/// A command says which touch it carries, and a touch has one command.
pub proof fn command_tells_touch(first: [u8; 16], second: [u8; 16], one: Touch, other: Touch)
    requires
        carries(first, one),
        carries(second, other),
    ensures
        first@ == second@ <==> one == other,
{
    if one == other {
        messages_are_laid_out(first@, INPUT_MAGIC, one.action, one.x, one.y);
        messages_are_laid_out(second@, INPUT_MAGIC, one.action, one.x, one.y);
        assert(first@ =~= second@);
    }
}

/// A frame that was received can be searched for the keyboard, and every
/// character can be typed, if its sides can be divided into thousandths.
pub proof fn shown_frames_fit(state: InputState, frames: &Frames, character: char)
    requires
        frames.wf(),
        frames.width * SOFT_SCALE <= usize::MAX,
        frames.height * SOFT_SCALE <= usize::MAX,
    ensures
        layout_fits(frames),
        key_fits(state, frames, character),
{
    pictures_with_countable_bytes_fit(state, frames, character);
}

/// Characters can be typed over every picture whose bytes can be counted and
/// whose sides can be divided into thousandths.
pub proof fn pictures_with_countable_bytes_fit(
    state: InputState,
    frames: &Frames,
    character: char,
)
    requires
        frames.front < 2,
        4 * (frames.width * frames.height) <= usize::MAX,
        1000 * frames.width <= usize::MAX,
        1000 * frames.height <= usize::MAX,
    ensures
        layout_fits(frames),
        key_fits(state, frames, character),
        forall|x: int, y: int|
            0 <= x <= 1000 && 0 <= y <= 1000 ==> #[trigger] tap_fits(
                frames.width as int,
                frames.height as int,
                x,
                y,
            ),
{
    assert forall|x: int, y: int| 0 <= x <= 1000 && 0 <= y <= 1000 implies #[trigger] tap_fits(
        frames.width as int,
        frames.height as int,
        x,
        y,
    ) by {
        assert(x * frames.width <= 1000 * frames.width) by (nonlinear_arith)
            requires
                x <= 1000,
        ;
        assert(y * frames.height <= 1000 * frames.height) by (nonlinear_arith)
            requires
                y <= 1000,
        ;
    }
    if is_letter(character) {
        letters_have_keys(key_of(character));
    }
    let w = frames.width as int;
    let h = frames.height as int;
    let (x0, x1, y0, y1) = probe(w, h);
    if w > 0 && h > 0 && x0 < x1 && y0 < y1 {
        assert((y1 - 1) * w + w <= h * w) by (nonlinear_arith)
            requires
                y1 <= h,
                w > 0,
        ;
        assert(h * w == w * h) by (nonlinear_arith);
    }
}

/// No more pixels are bright than there are.
proof fn row_count_bounded(frames: &Frames, x0: int, x1: int, y: int)
    requires
        x0 <= x1,
    ensures
        bright_in_row(frames, x0, x1, y) <= x1 - x0,
    decreases x1 - x0,
{
    if x0 < x1 {
        row_count_bounded(frames, x0, x1 - 1, y);
    }
}

/// No more pixels are bright than there are.
proof fn area_count_bounded(frames: &Frames, x0: int, x1: int, y0: int, y1: int)
    requires
        x0 <= x1,
        y0 <= y1,
    ensures
        bright_in_area(frames, x0, x1, y0, y1) <= (x1 - x0) * (y1 - y0),
    decreases y1 - y0,
{
    if y0 < y1 {
        area_count_bounded(frames, x0, x1, y0, y1 - 1);
        row_count_bounded(frames, x0, x1, y1 - 1);
        assert((x1 - x0) * (y1 - 1 - y0) + (x1 - x0) == (x1 - x0) * (y1 - y0)) by (nonlinear_arith);
    } else {
        assert((x1 - x0) * (y1 - y0) == 0) by (nonlinear_arith)
            requires
                y1 == y0,
        ;
    }
}

/// Every small letter has a key.
proof fn letters_have_keys(key: u8)
    requires
        0x61 <= key <= 0x7a,
    ensures
        match key_place(key) {
            Some((x, y)) => {
                if x == 411 {
                    158 <= y <= 950 && (950 - y) % 88 == 0 && TOP_ROW@[(950 - y) / 88] == key
                } else if x == 632 {
                    171 <= y <= 875 && (875 - y) % 88 == 0 && HOME_ROW@[(875 - y) / 88] == key
                } else {
                    x == 854 && 313 <= y <= 841 && (841 - y) % 88 == 0 && BOTTOM_ROW@[(841 - y)
                        / 88] == key
                }
            },
            None => false,
        },
{
    row_is_searched(TOP_ROW@, key);
    row_is_searched(HOME_ROW@, key);
    row_is_searched(BOTTOM_ROW@, key);
    assert(TOP_ROW@[0] == 0x71 && TOP_ROW@[1] == 0x77 && TOP_ROW@[2] == 0x65 && TOP_ROW@[3] == 0x72
        && TOP_ROW@[4] == 0x74 && TOP_ROW@[5] == 0x79 && TOP_ROW@[6] == 0x75 && TOP_ROW@[7] == 0x69
        && TOP_ROW@[8] == 0x6f && TOP_ROW@[9] == 0x70);
    assert(HOME_ROW@[0] == 0x61 && HOME_ROW@[1] == 0x73 && HOME_ROW@[2] == 0x64 && HOME_ROW@[3]
        == 0x66 && HOME_ROW@[4] == 0x67 && HOME_ROW@[5] == 0x68 && HOME_ROW@[6] == 0x6a
        && HOME_ROW@[7] == 0x6b && HOME_ROW@[8] == 0x6c);
    assert(BOTTOM_ROW@[0] == 0x7a && BOTTOM_ROW@[1] == 0x78 && BOTTOM_ROW@[2] == 0x63
        && BOTTOM_ROW@[3] == 0x76 && BOTTOM_ROW@[4] == 0x62 && BOTTOM_ROW@[5] == 0x6e
        && BOTTOM_ROW@[6] == 0x6d);
}

/// A key is found in a row exactly if it stands there.
proof fn row_is_searched(row: Seq<u8>, key: u8)
    ensures
        match place_in_row(row, key) {
            Some(index) => 0 <= index < row.len() && row[index] == key,
            None => forall|k: int| 0 <= k < row.len() ==> #[trigger] row[k] != key,
        },
    decreases row.len(),
{
    if row.len() > 0 && row.first() != key {
        let rest = row.drop_first();
        row_is_searched(rest, key);
        if place_in_row(rest, key) is None {
            assert forall|k: int| 0 <= k < row.len() implies #[trigger] row[k] != key by {
                if k > 0 {
                    assert(rest[k - 1] == row[k]);
                }
            }
        }
    }
}

/// Every letter has a key on the keyboard, and no two letters share one.
pub proof fn letters_have_their_own_keys(first: u8, second: u8)
    requires
        0x61 <= first <= 0x7a,
        0x61 <= second <= 0x7a,
    ensures
        key_place(first) is Some,
        key_place(second) is Some,
        key_place(first) == key_place(second) <==> first == second,
{
    letters_have_keys(first);
    letters_have_keys(second);
}

/// Pressing the mode key twice leaves the keyboard as it was, and so does
/// pressing any other point twice.
pub proof fn mode_key_toggles(state: InputState, width: int, height: int, x: u16, y: u16)
    ensures
        after_press(after_press(state, width, height, x, y), width, height, x, y) == state,
{
}

/// A tap lands inside of the picture if its sides fit in 16 bits.
pub proof fn taps_stay_inside(part: int, length: int)
    requires
        0 <= part,
        0 < length <= 0x1_0000,
    ensures
        place(part, length) < length,
        part < SOFT_SCALE ==> place(part, length) == part * length / SOFT_SCALE as int,
{
    assert(part * length / 1000 >= 0) by (nonlinear_arith)
        requires
            0 <= part,
            0 < length,
    ;
    if part < 1000 {
        assert(part * length / 1000 <= length - 1) by (nonlinear_arith)
            requires
                part <= 999,
                0 < length,
        ;
    }
}

/// How far rounding takes a place from its thousandth.
proof fn place_rounds_down(part: int, length: int, slack: int)
    requires
        0 <= part < 1000,
        0 < length <= 0x1_0000,
        slack * length >= 1000,
    ensures
        part - slack <= place(part, length) * 1000 / length <= part,
{
    taps_stay_inside(part, length);
    let place = place(part, length) as int;
    let back = place * 1000 / length;
    assert(place * 1000 <= part * length < place * 1000 + 1000);
    assert(back * length <= place * 1000 < back * length + length) by (nonlinear_arith)
        requires
            back == place * 1000 / length,
            length > 0,
    ;
    assert(back <= part) by (nonlinear_arith)
        requires
            back * length <= part * length,
            length > 0,
    ;
    assert(part - slack <= back) by (nonlinear_arith)
        requires
            part * length < back * length + length + 1000,
            slack * length >= 1000,
            length > 0,
    ;
}

/// The key that is tapped to leave the numbers is the one whose presses are
/// followed, and no key that types a character is taken for it.
pub proof fn mode_key_is_watched(width: int, height: int, key: u8)
    requires
        10 <= width <= 0x1_0000,
        20 <= height <= 0x1_0000,
        0x61 <= key <= 0x7a,
    ensures
        on_mode_key(width, height, place(632, width) as int, place(63, height) as int),
        !on_mode_key(width, height, place(632, width) as int, place(958, height) as int),
        !on_mode_key(width, height, place(854, width) as int, place(199, height) as int),
        match key_place(key) {
            Some((x, y)) => !on_mode_key(
                width,
                height,
                place(x, width) as int,
                place(y, height) as int,
            ),
            None => false,
        },
{
    letters_have_keys(key);
    place_rounds_down(411, width, 100);
    place_rounds_down(632, width, 100);
    place_rounds_down(854, width, 100);
    place_rounds_down(63, height, 50);
    place_rounds_down(958, height, 50);
    if let Some((x, y)) = key_place(key) {
        place_rounds_down(y, height, 50);
    }
}

/// Whether two pictures are bright at the same pixels of columns `x0` to `x1` of
/// rows `y0` to `y1`.
spec fn alike(one: &Frames, other: &Frames, x0: int, x1: int, y0: int, y1: int) -> bool {
    forall|x: int, y: int|
        x0 <= x < x1 && y0 <= y < y1 ==> #[trigger] bright(one, x, y) == bright(other, x, y)
}

proof fn alike_rows_count_alike(one: &Frames, other: &Frames, x0: int, x1: int, y: int)
    requires
        alike(one, other, x0, x1, y, y + 1),
    ensures
        bright_in_row(one, x0, x1, y) == bright_in_row(other, x0, x1, y),
    decreases x1 - x0,
{
    if x0 < x1 {
        alike_rows_count_alike(one, other, x0, x1 - 1, y);
        assert(bright(one, x1 - 1, y) == bright(other, x1 - 1, y));
    }
}

proof fn alike_areas_count_alike(
    one: &Frames,
    other: &Frames,
    x0: int,
    x1: int,
    y0: int,
    y1: int,
)
    requires
        alike(one, other, x0, x1, y0, y1),
    ensures
        bright_in_area(one, x0, x1, y0, y1) == bright_in_area(other, x0, x1, y0, y1),
    decreases y1 - y0,
{
    if y0 < y1 {
        alike_areas_count_alike(one, other, x0, x1, y0, y1 - 1);
        alike_rows_count_alike(one, other, x0, x1, y1 - 1);
    }
}

/// Whether two pictures have the same colors in the pixel in column `x` of row
/// `y`.
pub open spec fn same_color(one: &Frames, other: &Frames, x: int, y: int) -> bool {
    forall|channel: int|
        0 <= channel < 3 ==> #[trigger] one.shown()[(y * one.width + x) * 4 + channel]
            == other.shown()[(y * one.width + x) * 4 + channel]
}

/// The layout of the keyboard is found from the colors in one area of the
/// picture: whole pictures of one size that have the same colors there show the
/// same layout, whatever their opacity, the rest of them, the other buffer, the
/// number of the buffer in front and their place in the sequence.
pub proof fn layout_depends_on_its_area(one: &Frames, other: &Frames)
    requires
        one.width == other.width,
        one.height == other.height,
        one.shown().len() == other.shown().len(),
        forall|x: int, y: int|
            350 * one.width < 1000 * (x + 1) <= 472 * one.width && 935 * one.height < 1000 * (y + 1)
                <= 968 * one.height ==> #[trigger] same_color(one, other, x, y),
    ensures
        layout(one) == layout(other),
{
    let (x0, x1, y0, y1) = probe(one.width as int, one.height as int);
    assert forall|x: int, y: int| x0 <= x < x1 && y0 <= y < y1 implies #[trigger] bright(one, x, y)
        == bright(other, x, y) by {
        assert(same_color(one, other, x, y));
        let pixel = (y * one.width + x) * 4;
        assert(one.shown()[pixel + 0] == other.shown()[pixel + 0]);
        assert(one.shown()[pixel + 1] == other.shown()[pixel + 1]);
        assert(one.shown()[pixel + 2] == other.shown()[pixel + 2]);
    }
    alike_areas_count_alike(one, other, x0, x1, y0, y1);
}

/// The bright pixels in columns `x0` to `x1` of rows `y0` to `y1`.
spec fn bright_pixels(frames: &Frames, x0: int, x1: int, y0: int, y1: int) -> Set<(int, int)> {
    Set::new(
        |pixel: (int, int)|
            x0 <= pixel.0 < x1 && y0 <= pixel.1 < y1 && bright(frames, pixel.0, pixel.1),
    )
}

proof fn row_is_counted(frames: &Frames, x0: int, x1: int, y: int)
    ensures
        bright_pixels(frames, x0, x1, y, y + 1).finite(),
        bright_pixels(frames, x0, x1, y, y + 1).len() == bright_in_row(frames, x0, x1, y),
    decreases x1 - x0,
{
    let all = bright_pixels(frames, x0, x1, y, y + 1);
    if x0 >= x1 {
        assert(all =~= Set::empty());
    } else {
        row_is_counted(frames, x0, x1 - 1, y);
        let rest = bright_pixels(frames, x0, x1 - 1, y, y + 1);
        if bright(frames, x1 - 1, y) {
            assert(all =~= rest.insert((x1 - 1, y)));
        } else {
            assert(all =~= rest);
        }
    }
}

proof fn area_is_counted(frames: &Frames, x0: int, x1: int, y0: int, y1: int)
    ensures
        bright_pixels(frames, x0, x1, y0, y1).finite(),
        bright_pixels(frames, x0, x1, y0, y1).len() == bright_in_area(frames, x0, x1, y0, y1),
    decreases y1 - y0,
{
    let all = bright_pixels(frames, x0, x1, y0, y1);
    if y0 >= y1 {
        assert(all =~= Set::empty());
    } else {
        area_is_counted(frames, x0, x1, y0, y1 - 1);
        row_is_counted(frames, x0, x1, y1 - 1);
        let above = bright_pixels(frames, x0, x1, y0, y1 - 1);
        let row = bright_pixels(frames, x0, x1, y1 - 1, y1 - 1 + 1);
        assert(all =~= above + row);
        assert(above.disjoint(row));
        vstd::set_lib::lemma_set_disjoint_lens(above, row);
    }
}

/// The layout is found by counting: in the columns from 350 to 472 thousandths
/// and the rows from 935 to 968 thousandths of the picture, the pixels whose red,
/// green and blue are all above 180. More than 4 in a hundred of them mean a
/// keyboard, and fewer than 11 in a hundred one that shows numbers.
pub proof fn layout_counts_bright_pixels(frames: &Frames, x0: int, x1: int, y0: int, y1: int)
    requires
        frames.width > 0,
        frames.height > 0,
        1000 * x0 <= 350 * frames.width < 1000 * (x0 + 1),
        1000 * x1 <= 472 * frames.width < 1000 * (x1 + 1),
        1000 * y0 <= 935 * frames.height < 1000 * (y0 + 1),
        1000 * y1 <= 968 * frames.height < 1000 * (y1 + 1),
    ensures
        ({
            let shown = frames.buffers@[frames.front as int]@;
            let found = Set::new(
                |pixel: (int, int)|
                    {
                        let place = 4 * (pixel.1 * frames.width + pixel.0);
                        &&& x0 <= pixel.0 < x1
                        &&& y0 <= pixel.1 < y1
                        &&& place + 3 <= shown.len()
                        &&& shown[place] > 180
                        &&& shown[place + 1] > 180
                        &&& shown[place + 2] > 180
                    },
            );
            let area = (x1 - x0) * (y1 - y0);
            &&& found.finite()
            &&& x0 < x1 && y0 < y1 && 100 * found.len() > 4 * area ==> layout(frames) == Some(
                100 * found.len() < 11 * area,
            )
            &&& x0 >= x1 || y0 >= y1 || 100 * found.len() <= 4 * area ==> layout(frames) is None
        }),
{
    let shown = frames.buffers@[frames.front as int]@;
    let found = Set::new(
        |pixel: (int, int)|
            {
                let place = 4 * (pixel.1 * frames.width + pixel.0);
                &&& x0 <= pixel.0 < x1
                &&& y0 <= pixel.1 < y1
                &&& place + 3 <= shown.len()
                &&& shown[place] > 180
                &&& shown[place + 1] > 180
                &&& shown[place + 2] > 180
            },
    );
    assert(probe(frames.width as int, frames.height as int) == (x0, x1, y0, y1));
    area_is_counted(frames, x0, x1, y0, y1);
    assert forall|pixel: (int, int)| found.contains(pixel) == bright_pixels(
        frames,
        x0,
        x1,
        y0,
        y1,
    ).contains(pixel) by {
        if x0 <= pixel.0 && y0 <= pixel.1 {
            assert(0 <= pixel.1 * frames.width) by (nonlinear_arith)
                requires
                    0 <= pixel.1,
            ;
        }
    }
    assert(found =~= bright_pixels(frames, x0, x1, y0, y1));
}

/// Before the first frame there is no keyboard.
pub proof fn empty_pictures_have_no_layout(frames: &Frames)
    requires
        frames.width == 0 || frames.height == 0,
    ensures
        layout(frames) is None,
{
}

/// A picture that is bright in all of the area by which the keyboard shows its
/// layout shows letters, and one that is bright nowhere in it shows no keyboard.
pub proof fn bright_areas_show_letters(frames: &Frames, x: int, y: int)
    requires
        frames.width > 0,
        frames.height > 0,
        frames.shown().len() == 4 * (frames.width * frames.height),
        350 * frames.width < 1000 * (x + 1) <= 472 * frames.width,
        935 * frames.height < 1000 * (y + 1) <= 968 * frames.height,
    ensures
        (forall|column: int, row: int|
            350 * frames.width < 1000 * (column + 1) <= 472 * frames.width && 935 * frames.height
                < 1000 * (row + 1) <= 968 * frames.height ==> #[trigger] bright(
                frames,
                column,
                row,
            )) ==> layout(frames) == Some(false),
        (forall|column: int, row: int|
            350 * frames.width < 1000 * (column + 1) <= 472 * frames.width && 935 * frames.height
                < 1000 * (row + 1) <= 968 * frames.height ==> !#[trigger] bright(
                frames,
                column,
                row,
            )) ==> layout(frames) is None,
{
    let (x0, x1, y0, y1) = probe(frames.width as int, frames.height as int);
    assert(x0 <= x < x1 && y0 <= y < y1);
    assert((x1 - x0) * (y1 - y0) > 0) by (nonlinear_arith)
        requires
            x0 < x1,
            y0 < y1,
    ;
    if forall|column: int, row: int|
        350 * frames.width < 1000 * (column + 1) <= 472 * frames.width && 935 * frames.height < 1000
            * (row + 1) <= 968 * frames.height ==> #[trigger] bright(frames, column, row) {
        full_area_is_counted(frames, x0, x1, y0, y1);
    }
    if forall|column: int, row: int|
        350 * frames.width < 1000 * (column + 1) <= 472 * frames.width && 935 * frames.height < 1000
            * (row + 1) <= 968 * frames.height ==> !#[trigger] bright(frames, column, row) {
        dark_area_is_not_counted(frames, x0, x1, y0, y1);
    }
}

proof fn full_area_is_counted(frames: &Frames, x0: int, x1: int, y0: int, y1: int)
    requires
        x0 <= x1,
        y0 <= y1,
        forall|x: int, y: int| x0 <= x < x1 && y0 <= y < y1 ==> #[trigger] bright(frames, x, y),
    ensures
        bright_in_area(frames, x0, x1, y0, y1) == (x1 - x0) * (y1 - y0),
    decreases y1 - y0, x1 - x0,
{
    if y0 < y1 {
        full_area_is_counted(frames, x0, x1, y0, y1 - 1);
        full_row_is_counted(frames, x0, x1, y1 - 1);
        assert((x1 - x0) * (y1 - 1 - y0) + (x1 - x0) == (x1 - x0) * (y1 - y0)) by (nonlinear_arith);
    } else {
        assert((x1 - x0) * (y1 - y0) == 0) by (nonlinear_arith)
            requires
                y1 == y0,
        ;
    }
}

proof fn full_row_is_counted(frames: &Frames, x0: int, x1: int, y: int)
    requires
        x0 <= x1,
        forall|x: int| x0 <= x < x1 ==> #[trigger] bright(frames, x, y),
    ensures
        bright_in_row(frames, x0, x1, y) == x1 - x0,
    decreases x1 - x0,
{
    if x0 < x1 {
        full_row_is_counted(frames, x0, x1 - 1, y);
    }
}

proof fn dark_area_is_not_counted(frames: &Frames, x0: int, x1: int, y0: int, y1: int)
    requires
        forall|x: int, y: int| x0 <= x < x1 && y0 <= y < y1 ==> !#[trigger] bright(frames, x, y),
    ensures
        bright_in_area(frames, x0, x1, y0, y1) == 0,
    decreases y1 - y0,
{
    if y0 < y1 {
        dark_area_is_not_counted(frames, x0, x1, y0, y1 - 1);
        dark_row_is_not_counted(frames, x0, x1, y1 - 1);
    }
}

proof fn dark_row_is_not_counted(frames: &Frames, x0: int, x1: int, y: int)
    requires
        forall|x: int| x0 <= x < x1 ==> !#[trigger] bright(frames, x, y),
    ensures
        bright_in_row(frames, x0, x1, y) == 0,
    decreases x1 - x0,
{
    if x0 < x1 {
        dark_row_is_not_counted(frames, x0, x1 - 1, y);
    }
}

/// A pixel is bright exactly if it is there and its red, green and blue are all
/// above 180.
pub proof fn bright_pixels_are_nearly_white(frames: &Frames, x: int, y: int, place: int)
    requires
        place == 4 * (y * frames.width + x),
    ensures
        bright(frames, x, y) <==> 0 <= place && place + 3 <= frames.shown().len() && (forall|
            channel: int,
        |
            0 <= channel < 3 ==> #[trigger] frames.shown()[place + channel] >= 181),
{
    if 0 <= place && place + 3 <= frames.shown().len() && forall|channel: int|
        0 <= channel < 3 ==> #[trigger] frames.shown()[place + channel] >= 181 {
        assert(frames.shown()[place + 0] >= 181);
        assert(frames.shown()[place + 1] >= 181);
        assert(frames.shown()[place + 2] >= 181);
    }
}

/// A command that carries a touch says so byte by byte.
pub proof fn commands_are_laid_out(command: [u8; 16], touch: Touch)
    ensures
        carries(command, touch) <==> command@ == seq![
            0x43u8,
            0x4du8,
            0x49u8,
            0x4eu8,
            0x50u8,
            0x55u8,
            0x54u8,
            0x31u8,
            (touch.action as int % 0x100) as u8,
            (touch.action as int / 0x100 % 0x100) as u8,
            (touch.action as int / 0x1_0000 % 0x100) as u8,
            (touch.action as int / 0x100_0000) as u8,
            (touch.x as int % 0x100) as u8,
            (touch.x as int / 0x100) as u8,
            (touch.y as int % 0x100) as u8,
            (touch.y as int / 0x100) as u8,
        ],
{
    let expected = seq![
        0x43u8,
        0x4du8,
        0x49u8,
        0x4eu8,
        0x50u8,
        0x55u8,
        0x54u8,
        0x31u8,
        (touch.action as int % 0x100) as u8,
        (touch.action as int / 0x100 % 0x100) as u8,
        (touch.action as int / 0x1_0000 % 0x100) as u8,
        (touch.action as int / 0x100_0000) as u8,
        (touch.x as int % 0x100) as u8,
        (touch.x as int / 0x100) as u8,
        (touch.y as int % 0x100) as u8,
        (touch.y as int / 0x100) as u8,
    ];
    messages_are_laid_out(command@, INPUT_MAGIC, touch.action, touch.x, touch.y);
    assert(INPUT_MAGIC@ =~= expected.take(8));
    if carries(command, touch) {
        assert forall|k: int| 0 <= k < 16 implies command@[k] == expected[k] by {
            if k < 8 {
                assert(command@[k] == INPUT_MAGIC@[k]);
                assert(INPUT_MAGIC@[k] == expected.take(8)[k]);
            }
        }
        assert(command@ =~= expected);
    }
    if command@ == expected {
        assert forall|k: int| 0 <= k < 8 implies #[trigger] command@[k] == INPUT_MAGIC@[k] by {
            assert(INPUT_MAGIC@[k] == expected.take(8)[k]);
        }
    }
}

/// Commands are queued behind those that are there, one for each touch and in
/// their order.
pub proof fn commands_queue_up(before: Seq<[u8; 16]>, after: Seq<[u8; 16]>, touches: Seq<Touch>)
    ensures
        sent(before, after, touches) <==> exists|commands: Seq<[u8; 16]>|
            {
                &&& after == #[trigger] (before + commands)
                &&& commands.len() == touches.len()
                &&& forall|k: int|
                    0 <= k < commands.len() ==> carries(#[trigger] commands[k], touches[k])
            },
{
    if sent(before, after, touches) {
        let commands = after.skip(before.len() as int);
        assert(after =~= before + commands);
        assert forall|k: int| 0 <= k < commands.len() implies carries(
            #[trigger] commands[k],
            touches[k],
        ) by {
            assert(commands[k] == after[before.len() + k]);
            let touch = touches[k];
        }
    }
    if exists|commands: Seq<[u8; 16]>|
        {
            &&& after == #[trigger] (before + commands)
            &&& commands.len() == touches.len()
            &&& forall|k: int|
                0 <= k < commands.len() ==> carries(#[trigger] commands[k], touches[k])
        } {
        let commands = choose|commands: Seq<[u8; 16]>|
            {
                &&& after == #[trigger] (before + commands)
                &&& commands.len() == touches.len()
                &&& forall|k: int|
                    0 <= k < commands.len() ==> carries(#[trigger] commands[k], touches[k])
            };
        assert(after.take(before.len() as int) =~= before);
        assert forall|i: int| 0 <= i < touches.len() implies carries(
            after[before.len() + i],
            #[trigger] touches[i],
        ) by {
            assert(after[before.len() + i] == commands[i]);
        }
    }
}

/// A tap comes down and goes up at one point. The point is `column` pixels along
/// the width and `row` along the height: as many whole pixels as fit into the
/// given thousandths of the side, but not beyond the last.
pub proof fn taps_hit_their_thousandth(
    width: int,
    height: int,
    x: int,
    y: int,
    column: int,
    row: int,
)
    requires
        0 < width,
        0 < height,
        0 <= x,
        0 <= y,
        1000 * column <= x * width < 1000 * (column + 1),
        1000 * row <= y * height < 1000 * (row + 1),
    ensures
        tap(width, height, x, y).len() == 2,
        tap(width, height, x, y)[0].action == 1,
        tap(width, height, x, y)[1].action == 3,
        forall|k: int|
            0 <= k < 2 ==> {
                &&& (#[trigger] tap(width, height, x, y)[k]).x == (if column < width {
                    column
                } else {
                    width - 1
                }) % 0x1_0000
                &&& tap(width, height, x, y)[k].y == (if row < height {
                    row
                } else {
                    height - 1
                }) % 0x1_0000
            },
{
    assert(x * width >= 0) by (nonlinear_arith)
        requires
            0 <= x,
            0 < width,
    ;
    assert(y * height >= 0) by (nonlinear_arith)
        requires
            0 <= y,
            0 < height,
    ;
    assert(x * width / 1000 == column);
    assert(y * height / 1000 == row);
}

/// Nothing is touched before the first frame.
pub proof fn nothing_is_touched_without_a_picture(
    width: int,
    height: int,
    x: int,
    y: int,
    upward: bool,
    numeric: bool,
    character: char,
)
    requires
        width == 0 || height == 0,
    ensures
        tap(width, height, x, y).len() == 0,
        swipe(width, height, upward).len() == 0,
        key_taps(width, height, numeric, character).len() == 0,
{
}

/// A swipe comes down, moves and goes up along the middle of the height. It goes
/// from three quarters of the width to the rest of it, or from a quarter, by way
/// of the middle of the width; what does not fit in 16 bits is the largest
/// number that does.
pub proof fn swipes_go_over_the_middle(
    width: int,
    height: int,
    upward: bool,
    first: int,
    half: int,
    middle: int,
)
    requires
        0 < width,
        0 < height,
        upward ==> 4 * first <= 3 * width < 4 * (first + 1),
        !upward ==> 4 * first <= width < 4 * (first + 1),
        2 * half <= width < 2 * (half + 1),
        2 * middle <= height < 2 * (middle + 1),
    ensures
        ({
            let touches = swipe(width, height, upward);
            &&& touches.len() == 3
            &&& touches[0].action == 1
            &&& touches[1].action == 2
            &&& touches[2].action == 3
            &&& touches[0].x == if first < 0x1_0000 {
                first
            } else {
                0xffff
            }
            &&& touches[1].x == if half < 0x1_0000 {
                half
            } else {
                0xffff
            }
            &&& touches[2].x == if width - first < 0x1_0000 {
                width - first
            } else {
                0xffff
            }
            &&& forall|k: int| 0 <= k < 3 ==> (#[trigger] touches[k]).y == middle % 0x1_0000
        }),
{
}

/// The letters stand in three rows: `qwertyuiop`, `asdfghjkl` and `zxcvbnm`, each
/// 88 thousandths after the one before it.
pub proof fn letters_stand_in_three_rows(index: int, key: u8)
    ensures
        0 <= index < 10 && key == "qwertyuiop"@[index] as u8 ==> key_place(key) == Some(
            (411int, 950 - 88 * index),
        ),
        0 <= index < 9 && key == "asdfghjkl"@[index] as u8 ==> key_place(key) == Some(
            (632int, 875 - 88 * index),
        ),
        0 <= index < 7 && key == "zxcvbnm"@[index] as u8 ==> key_place(key) == Some(
            (854int, 841 - 88 * index),
        ),
{
    reveal_strlit("qwertyuiop");
    reveal_strlit("asdfghjkl");
    reveal_strlit("zxcvbnm");
    if 0 <= index < 10 && key == "qwertyuiop"@[index] as u8 {
        assert(key == TOP_ROW@[index]);
        letters_have_keys(key);
    }
    if 0 <= index < 9 && key == "asdfghjkl"@[index] as u8 {
        assert(key == HOME_ROW@[index]);
        letters_have_keys(key);
    }
    if 0 <= index < 7 && key == "zxcvbnm"@[index] as u8 {
        assert(key == BOTTOM_ROW@[index]);
        letters_have_keys(key);
    }
}

/// A letter and its capital are on one key, which has the code of the small
/// letter; no other character is a letter.
pub proof fn capitals_share_the_key_of_the_small_letter(character: char)
    ensures
        is_capital(character) <==> 65 <= character as int <= 90,
        is_letter(character) <==> 65 <= character as int <= 90 || 97 <= character as int <= 122,
        65 <= character as int <= 90 ==> key_of(character) == character as int + 32,
        97 <= character as int <= 122 ==> key_of(character) == character as int,
{
}

/// Typing is done by taps, in this order: on the key that leaves the numbers, if
/// they are shown; on the shift key, for a capital; and on the key at the given
/// place. A space has a key of its own, and other characters are not typed.
pub proof fn characters_are_typed_by_taps(
    width: int,
    height: int,
    numeric: bool,
    character: char,
    x: int,
    y: int,
)
    requires
        key_place(key_of(character)) == Some((x, y)),
    ensures
        is_letter(character) && !numeric && !is_capital(character) ==> key_taps(
            width,
            height,
            numeric,
            character,
        ) == tap(width, height, x, y),
        is_letter(character) && !numeric && is_capital(character) ==> key_taps(
            width,
            height,
            numeric,
            character,
        ) == tap(width, height, 632, 958) + tap(width, height, x, y),
        is_letter(character) && numeric ==> key_taps(width, height, numeric, character) == tap(
            width,
            height,
            632,
            63,
        ) + key_taps(width, height, false, character),
{
    let key = tap(width, height, x, y);
    let shift = tap(width, height, 632, 958);
    let mode = tap(width, height, 632, 63);
    assert(Seq::<Touch>::empty() + Seq::<Touch>::empty() + key =~= key);
    assert(Seq::<Touch>::empty() + shift + key =~= shift + key);
    assert(mode + Seq::<Touch>::empty() + key =~= mode + (Seq::<Touch>::empty() + Seq::<
        Touch,
    >::empty() + key));
    assert(mode + shift + key =~= mode + (Seq::<Touch>::empty() + shift + key));
}

/// The space bar is tapped for a space, whatever the keyboard shows, and nothing
/// is tapped for a character that is neither a letter nor a space.
pub proof fn spaces_are_typed_and_signs_are_not(
    width: int,
    height: int,
    numeric: bool,
    character: char,
)
    ensures
        character as int == 32 ==> key_taps(width, height, numeric, character) == tap(
            width,
            height,
            854,
            199,
        ),
        character as int != 32 && !(65 <= character as int <= 90) && !(97 <= character as int
            <= 122) ==> key_taps(width, height, numeric, character).len() == 0,
{
}

/// A keyboard that is known is typed on as it is remembered, and the picture is
/// not looked at. One that is not known is typed on as the picture shows it, if
/// it does, and is known from then on; otherwise nothing happens.
pub proof fn keyboards_are_looked_for_once(state: InputState, frames: &Frames, character: char)
    ensures
        state.keyboard_known ==> {
            &&& key_touches(state, frames, character) == key_taps(
                frames.width as int,
                frames.height as int,
                state.numeric,
                character,
            )
            &&& after_key(state, frames, character).keyboard_known
            &&& after_key(state, frames, character).numeric == (state.numeric && !is_letter(
                character,
            ))
        },
        !state.keyboard_known && layout(frames) is None ==> {
            &&& key_touches(state, frames, character).len() == 0
            &&& after_key(state, frames, character) == state
        },
        !state.keyboard_known && layout(frames) is Some ==> {
            let found = InputState {
                touch: state.touch,
                numeric: layout(frames)->0,
                keyboard_known: true,
            };
            &&& key_touches(state, frames, character) == key_touches(found, frames, character)
            &&& after_key(state, frames, character) == after_key(found, frames, character)
        },
        after_key(state, frames, character).touch == state.touch,
{
}

/// A press switches the keyboard exactly if it is known and the press lies from
/// 529 to 736 thousandths of the width and up to 118 thousandths of the height,
/// and it changes nothing else.
pub proof fn presses_of_the_mode_key_switch(
    state: InputState,
    width: int,
    height: int,
    x: u16,
    y: u16,
)
    requires
        0 <= width,
        0 <= height,
    ensures
        ({
            let after = after_press(state, width, height, x, y);
            let hit = 0 < width && 0 < height && 529 * width <= 1000 * x < 737 * width && 1000 * y
                < 119 * height;
            &&& after.touch == state.touch
            &&& after.keyboard_known == state.keyboard_known
            &&& after.numeric == if state.keyboard_known && hit {
                !state.numeric
            } else {
                state.numeric
            }
        }),
{
    if width > 0 && height > 0 {
        let across = x * 1000 / width;
        let down = y * 1000 / height;
        assert(across * width <= x * 1000 < across * width + width) by (nonlinear_arith)
            requires
                width > 0,
                across == x * 1000 / width,
        ;
        assert(down * height <= y * 1000 < down * height + height) by (nonlinear_arith)
            requires
                height > 0,
                down == y * 1000 / height,
        ;
        assert(across >= 529 <==> 529 * width <= 1000 * x) by (nonlinear_arith)
            requires
                width > 0,
                across * width <= x * 1000 < across * width + width,
        ;
        assert(across <= 736 <==> 1000 * x < 737 * width) by (nonlinear_arith)
            requires
                width > 0,
                across * width <= x * 1000 < across * width + width,
        ;
        assert(down <= 118 <==> 1000 * y < 119 * height) by (nonlinear_arith)
            requires
                height > 0,
                down * height <= y * 1000 < down * height + height,
        ;
    }
}

/// At first the pointer is up and the keyboard has to be looked for: nothing is
/// typed until a picture shows it, and then in the layout that it shows.
pub proof fn keyboards_are_unknown_at_first(state: InputState, frames: &Frames, character: char)
    requires
        is_untouched(state),
    ensures
        !state.touch,
        layout(frames) is None ==> key_touches(state, frames, character).len() == 0 && after_key(
            state,
            frames,
            character,
        ) == state,
        layout(frames) matches Some(numeric) ==> key_touches(state, frames, character)
            == key_touches(
            InputState { touch: false, numeric, keyboard_known: true },
            frames,
            character,
        ),
{
}

} // verus!
