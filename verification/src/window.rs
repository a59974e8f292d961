//! How the window answers its messages.
use vstd::arithmetic::div_mod::lemma_fundamental_div_mod_converse;
use vstd::prelude::*;

use crate::input::{
    after_key, after_press, can_type, carries, key_fits, key_touches, layout_fits,
    pictures_with_countable_bytes_fit, presses_of_the_mode_key_switch, scroll, send_input, sent,
    soft_key, soft_mode, swipe, InputState, Touch, INPUT_TOUCH_DOWN, INPUT_TOUCH_MOVE,
    INPUT_TOUCH_UP, SOFT_SCALE,
};
use crate::protocol::{Config, Frames};

verus! {

/// Specifies `char::from_u32`: the character with the given code, if the code
/// is one of a character.
pub assume_specification[ char::from_u32 ](code: u32) -> (res: Option<char>)
    ensures
        match res {
            Some(character) => is_character(code) && character == code as char,
            None => !is_character(code),
        },
;

/// Whether a number is the code of a character.
pub open spec fn is_character(code: u32) -> bool {
    code <= 0xd7ff || 0xe000 <= code <= 0x10_ffff
}

/// A rectangle of the screen.
#[derive(Clone, Copy, Debug, PartialEq, Eq, Structural)]
pub struct Rect {
    pub left: i32,
    pub top: i32,
    pub right: i32,
    pub bottom: i32,
}

impl Rect {
    /// The distance from the left to the right side.
    pub open spec fn across(&self) -> int {
        self.right - self.left
    }

    /// The distance from the top to the bottom.
    pub open spec fn down(&self) -> int {
        self.bottom - self.top
    }

    /// Whether both distances fit in an `i32`.
    pub open spec fn measurable(&self) -> bool {
        &&& i32::MIN <= self.across() <= i32::MAX
        &&& i32::MIN <= self.down() <= i32::MAX
    }
}

/// The virtual key of the escape key.
pub const ESCAPE: usize = 0x1b;

/// A message to the window.
#[derive(Clone, Copy, Debug, PartialEq, Eq, Structural)]
pub enum Message {
    /// The window was painted, or painting it failed.
    Paint { failed: bool },
    /// There is a new frame.
    Frame,
    /// The background is to be erased.
    EraseBackground,
    /// A key went down.
    KeyDown { key: usize },
    /// A key went up, or a system key went up or down.
    OtherKey,
    /// A character was typed.
    Char { code: u32 },
    /// The left button of the pointer went down.
    ButtonDown,
    /// The pointer moved.
    Move,
    /// The left button went up.
    ButtonUp,
    /// The window lost the pointer.
    CaptureChanged,
    /// The wheel turned; the upper half of the word says how far.
    Wheel { word: usize },
    /// The window is to be closed.
    Close,
    /// The window is going away.
    Destroy,
    /// Any other message.
    Other,
}

/// What the program does for a message, after it has sent the commands.
#[derive(Clone, Copy, Debug, PartialEq, Eq, Structural)]
pub enum Action {
    /// Give up the renderer.
    DropRenderer,
    /// Destroy the window.
    DestroyWindow,
    /// Note that no frame is announced.
    ClearPending,
    /// Have the window painted.
    Invalidate,
    /// Take the pointer.
    Capture,
    /// Let go of the pointer.
    ReleaseCapture,
    /// Tell the stream to end.
    StopRunning,
    /// Abort transfers of the connection.
    AbortConnection,
    /// End the program.
    Quit,
}

/// The answer to a message.
#[derive(Clone, Copy, Debug, PartialEq, Eq, Structural)]
pub enum Reply {
    /// Zero.
    Zero,
    /// One.
    One,
    /// Whatever the system answers by default.
    Default,
}

/// Commands to send, then actions to take, then the answer.
pub struct Response {
    pub commands: Vec<[u8; 16]>,
    pub actions: Vec<Action>,
    pub reply: Reply,
}

/// How far the wheel turned: the upper half of a word of 32 bits, with a sign.
pub open spec fn wheel_delta(word: usize) -> int {
    signed16(word as int / 0x1_0000 % 0x1_0000)
}

/// A number of 16 bits, read with a sign.
pub open spec fn signed16(value: int) -> int {
    if value < 0x8000 {
        value
    } else {
        value - 0x1_0000
    }
}

/// Whether a press in column `x` leaves the keyboard alone: outside of these
/// columns the keyboard may go away.
pub open spec fn near_keyboard(width: int, x: int) -> bool {
    &&& width > 0
    &&& 286 * width / SOFT_SCALE as int <= x <= 964 * width / SOFT_SCALE as int
}

/// Whether the numbers that a message needs fit in a `usize`.
pub open spec fn message_fits(
    state: InputState,
    message: Message,
    point: Option<(u16, u16)>,
    frames: &Frames,
) -> bool {
    match message {
        Message::Char { code } => is_character(code) ==> layout_fits(frames) && key_fits(
            state,
            frames,
            code as char,
        ),
        Message::ButtonDown => point is Some ==> frames.width * 964 <= usize::MAX,
        Message::Wheel { word } => wheel_delta(word) > 0 && frames.height > 0 ==> frames.width * 3
            <= usize::MAX,
        _ => true,
    }
}

/// The state after a message.
pub open spec fn next_state(
    state: InputState,
    message: Message,
    point: Option<(u16, u16)>,
    frames: &Frames,
) -> InputState {
    match message {
        Message::Char { code } if is_character(code) => after_key(state, frames, code as char),
        Message::ButtonDown => match point {
            Some((x, y)) => {
                let known = state.keyboard_known && near_keyboard(frames.width as int, x as int);
                after_press(
                    InputState { touch: true, keyboard_known: known, ..state },
                    frames.width as int,
                    frames.height as int,
                    x,
                    y,
                )
            },
            None => state,
        },
        Message::ButtonUp | Message::CaptureChanged => InputState { touch: false, ..state },
        _ => state,
    }
}

/// The touches that a message sends to the tablet.
pub open spec fn touches(
    state: InputState,
    message: Message,
    point: Option<(u16, u16)>,
    frames: &Frames,
) -> Seq<Touch> {
    match message {
        Message::Char { code } if is_character(code) => key_touches(state, frames, code as char),
        Message::ButtonDown => match point {
            Some((x, y)) => seq![Touch { action: INPUT_TOUCH_DOWN, x, y }],
            None => seq![],
        },
        Message::Move if state.touch => match point {
            Some((x, y)) => seq![Touch { action: INPUT_TOUCH_MOVE, x, y }],
            None => seq![],
        },
        Message::ButtonUp | Message::CaptureChanged => match point {
            _ if !state.touch => seq![],
            Some((x, y)) => seq![Touch { action: INPUT_TOUCH_UP, x, y }],
            None => seq![Touch { action: INPUT_TOUCH_UP, x: 0, y: 0 }],
        },
        Message::Wheel { word } if wheel_delta(word) != 0 => swipe(
            frames.width as int,
            frames.height as int,
            wheel_delta(word) > 0,
        ),
        _ => seq![],
    }
}

/// The actions that a message asks for.
pub open spec fn actions(message: Message, point: Option<(u16, u16)>) -> Seq<Action> {
    match message {
        Message::Paint { failed: true } | Message::Close => seq![
            Action::DropRenderer,
            Action::DestroyWindow,
        ],
        Message::KeyDown { key } if key == ESCAPE => seq![
            Action::DropRenderer,
            Action::DestroyWindow,
        ],
        Message::Frame => seq![Action::ClearPending, Action::Invalidate],
        Message::ButtonDown if point is Some => seq![Action::Capture],
        Message::ButtonUp | Message::CaptureChanged => seq![Action::ReleaseCapture],
        Message::Destroy => seq![
            Action::DropRenderer,
            Action::StopRunning,
            Action::AbortConnection,
            Action::Quit,
        ],
        _ => seq![],
    }
}

/// The answer to a message.
pub open spec fn reply(state: InputState, message: Message) -> Reply {
    match message {
        Message::EraseBackground => Reply::One,
        Message::Move if !state.touch => Reply::Default,
        Message::Other => Reply::Default,
        _ => Reply::Zero,
    }
}

/// Whether the answer to a message depends on where the pointer is.
pub open spec fn needs_point(state: InputState, message: Message) -> bool {
    match message {
        Message::ButtonDown => true,
        Message::Move | Message::ButtonUp | Message::CaptureChanged => state.touch,
        _ => false,
    }
}

/// Says whether the point under the pointer is needed to answer a message.
pub fn wants_point(state: &InputState, message: &Message) -> (res: bool)
    ensures
        res == needs_point(*state, *message),
{
    match message {
        Message::ButtonDown => true,
        Message::Move | Message::ButtonUp | Message::CaptureChanged => state.touch,
        _ => false,
    }
}

/// Says whether the numbers that a message needs fit in a `usize`.
pub fn fits(
    state: &InputState,
    message: &Message,
    point: Option<(u16, u16)>,
    frames: &Frames,
) -> (res: bool)
    ensures
        res == message_fits(*state, *message, point, frames),
{
    match *message {
        Message::Char { code } => match char::from_u32(code) {
            Some(character) => can_type(state, frames, character),
            None => true,
        },
        Message::ButtonDown => point.is_none() || frames.width.checked_mul(964).is_some(),
        Message::Wheel { word } => upper_half(word) <= 0 || frames.height == 0
            || frames.width.checked_mul(3).is_some(),
        _ => true,
    }
}

/// Whether this is the answer to a message, and the state after it.
pub open spec fn is_response(
    before: InputState,
    message: Message,
    point: Option<(u16, u16)>,
    frames: &Frames,
    after: InputState,
    response: Response,
) -> bool {
    &&& after == next_state(before, message, point, frames)
    &&& sent(seq![], response.commands@, touches(before, message, point, frames))
    &&& response.actions@ == actions(message, point)
    &&& response.reply == reply(before, message)
}

/// Answers a message. `point` is the point of the tablet's screen under the
/// pointer, if it is over the picture.
pub fn handle(
    state: &mut InputState,
    message: Message,
    point: Option<(u16, u16)>,
    frames: &Frames,
) -> (res: Response)
    requires
        message_fits(*old(state), message, point, frames),
    ensures
        *final(state) == next_state(*old(state), message, point, frames),
        sent(seq![], res.commands@, touches(*old(state), message, point, frames)),
        res.actions@ == actions(message, point),
        res.reply == reply(*old(state), message),
        is_response(*old(state), message, point, frames, *final(state), res),
{
    let reply: Reply = reply_to(state, &message);
    let commands: Vec<[u8; 16]> = commands_for(state, message, point, frames);
    Response { commands, actions: actions_for(message, point), reply }
}

/// Follows a message and lists the commands that it sends.
fn commands_for(
    state: &mut InputState,
    message: Message,
    point: Option<(u16, u16)>,
    frames: &Frames,
) -> (res: Vec<[u8; 16]>)
    requires
        message_fits(*old(state), message, point, frames),
    ensures
        *final(state) == next_state(*old(state), message, point, frames),
        sent(seq![], res@, touches(*old(state), message, point, frames)),
{
    let mut commands: Vec<[u8; 16]> = Vec::new();
    assert(commands@ =~= seq![]);
    assert(commands@.take(0) =~= seq![]);
    match message {
        Message::Char { code } => {
            if let Some(character) = char::from_u32(code) {
                soft_key(state, &mut commands, frames, character);
            }
        },
        Message::ButtonDown => {
            if let Some((x, y)) = point {
                let width: usize = frames.width;
                state.touch = true;
                if width == 0 || (x as usize) < 286 * width / SOFT_SCALE || x as usize > 964 * width
                    / SOFT_SCALE {
                    state.keyboard_known = false;
                }
                soft_mode(state, width, frames.height, x, y);
                send_input(&mut commands, INPUT_TOUCH_DOWN, x, y);
            }
        },
        Message::Move => {
            if state.touch {
                if let Some((x, y)) = point {
                    send_input(&mut commands, INPUT_TOUCH_MOVE, x, y);
                }
            }
        },
        Message::ButtonUp | Message::CaptureChanged => {
            if state.touch {
                let (x, y): (u16, u16) = match point {
                    Some((x, y)) => (x, y),
                    None => (0, 0),
                };
                send_input(&mut commands, INPUT_TOUCH_UP, x, y);
                state.touch = false;
            }
        },
        Message::Wheel { word } => {
            let delta: i16 = upper_half(word);
            if delta != 0 {
                scroll(&mut commands, frames.width, frames.height, delta > 0);
            }
        },
        _ => {},
    }
    commands
}

/// Lists the actions that a message asks for.
fn actions_for(message: Message, point: Option<(u16, u16)>) -> (res: Vec<Action>)
    ensures
        res@ == actions(message, point),
{
    let mut res: Vec<Action> = Vec::new();
    match message {
        Message::Paint { failed } => {
            if failed {
                res.push(Action::DropRenderer);
                res.push(Action::DestroyWindow);
            }
        },
        Message::Frame => {
            res.push(Action::ClearPending);
            res.push(Action::Invalidate);
        },
        Message::KeyDown { key } => {
            if key == ESCAPE {
                res.push(Action::DropRenderer);
                res.push(Action::DestroyWindow);
            }
        },
        Message::ButtonDown => {
            if point.is_some() {
                res.push(Action::Capture);
            }
        },
        Message::ButtonUp | Message::CaptureChanged => {
            res.push(Action::ReleaseCapture);
        },
        Message::Close => {
            res.push(Action::DropRenderer);
            res.push(Action::DestroyWindow);
        },
        Message::Destroy => {
            res.push(Action::DropRenderer);
            res.push(Action::StopRunning);
            res.push(Action::AbortConnection);
            res.push(Action::Quit);
        },
        _ => {},
    }
    assert(res@ =~= actions(message, point));
    res
}

/// Finds the answer to a message.
fn reply_to(state: &InputState, message: &Message) -> (res: Reply)
    ensures
        res == reply(*state, *message),
{
    match message {
        Message::EraseBackground => Reply::One,
        Message::Move => if state.touch {
            Reply::Zero
        } else {
            Reply::Default
        },
        Message::Other => Reply::Default,
        _ => Reply::Zero,
    }
}

/// The upper half of a word of 32 bits, with a sign.
fn upper_half(word: usize) -> (res: i16)
    ensures
        res == wheel_delta(word),
{
    let half: u16 = (word >> 16) as u16;
    assert(half == (word / 0x1_0000) % 0x1_0000) by (bit_vector)
        requires
            half == (word >> 16) as u16,
    ;
    with_sign(half)
}

/// Reads a number of 16 bits with a sign.
fn with_sign(value: u16) -> (res: i16)
    ensures
        res == signed16(value as int),
{
    let res: i16 = value as i16;
    assert(res == if value < 0x8000 {
        value as int
    } else {
        value - 0x1_0000
    }) by (bit_vector)
        requires
            res == value as i16,
    ;
    res
}

/// The point that a mouse message names.
pub open spec fn cursor_of(lparam: int) -> (int, int) {
    (signed16(lparam % 0x1_0000), signed16(lparam / 0x1_0000 % 0x1_0000))
}

/// The point that a mouse message names: the column in the lower sixteen bits,
/// the row in the sixteen above.
pub fn cursor(lparam: isize) -> (res: (i32, i32))
    ensures
        (res.0 as int, res.1 as int) == cursor_of(lparam as int),
        res.0 == signed16(lparam as int % 0x1_0000),
        res.1 == signed16(lparam as int / 0x1_0000 % 0x1_0000),
{
    let value: u32 = lparam as u32;
    let low: u16 = value as u16;
    let high: u16 = (value >> 16) as u16;
    assert(low == lparam % 0x1_0000) by (bit_vector)
        requires
            low == lparam as u32 as u16,
    ;
    assert(high == (lparam / 0x1_0000) % 0x1_0000) by (bit_vector)
        requires
            high == ((lparam as u32) >> 16) as u16,
    ;
    (with_sign(low) as i32, with_sign(high) as i32)
}

/// A point of the window that may lie over the picture: the point, the size of
/// the picture and the size of the window.
#[derive(Clone, Copy, Debug, PartialEq, Eq, Structural)]
pub struct Hover {
    pub x: i32,
    pub y: i32,
    pub width: i32,
    pub height: i32,
    pub client_width: i32,
    pub client_height: i32,
}

/// Whether there is a picture and a window in which it is shown.
pub open spec fn has_area(width: usize, height: usize, client: Option<Rect>) -> bool {
    &&& width as i32 > 0
    &&& height as i32 > 0
    &&& client matches Some(client) && client.across() > 0 && client.down() > 0
}

/// Whether the point under the pointer is found from these numbers.
pub open spec fn is_hover(
    lparam: int,
    width: usize,
    height: usize,
    client: Option<Rect>,
    hover: Option<Hover>,
) -> bool {
    match hover {
        Some(hover) => {
            &&& has_area(width, height, client)
            &&& (hover.x as int, hover.y as int) == cursor_of(lparam)
            &&& hover.width == width as i32
            &&& hover.height == height as i32
            &&& hover.client_width == client->0.right - client->0.left
            &&& hover.client_height == client->0.bottom - client->0.top
        },
        None => !has_area(width, height, client),
    }
}

/// What the point under the pointer is found from: the message, the size of
/// the picture, and the inside of the window, if it is known.
pub fn point(lparam: isize, width: usize, height: usize, client: Option<Rect>) -> (res: Option<
    Hover,
>)
    requires
        client matches Some(client) ==> client.measurable(),
    ensures
        match res {
            Some(hover) => {
                &&& has_area(width, height, client)
                &&& hover.x == signed16(lparam as int % 0x1_0000)
                &&& hover.y == signed16(lparam as int / 0x1_0000 % 0x1_0000)
                &&& hover.width == width as i32
                &&& hover.height == height as i32
                &&& client matches Some(client) && hover.client_width == client.across()
                    && hover.client_height == client.down()
            },
            None => !has_area(width, height, client),
        },
        is_hover(lparam as int, width, height, client, res),
{
    let (x, y) = cursor(lparam);
    let width: i32 = width as i32;
    let height: i32 = height as i32;
    if width <= 0 || height <= 0 {
        return None;
    }
    match client {
        Some(client) => {
            let client_width: i32 = client.right - client.left;
            let client_height: i32 = client.bottom - client.top;
            if client_width <= 0 || client_height <= 0 {
                return None;
            }
            Some(Hover { x, y, width, height, client_width, client_height })
        },
        None => None,
    }
}

/// The size of a window that shows the picture pixel by pixel: its sides,
/// exchanged, and the frame of the window.
pub open spec fn window_size(config: Config, outer: Rect, client: Rect) -> (int, int) {
    (
        config.height as i32 + outer.across() - client.across(),
        config.width as i32 + outer.down() - client.down(),
    )
}

/// Whether the size of the window is found without leaving the `i32`.
pub open spec fn size_fits(config: Config, outer: Rect, client: Rect) -> bool {
    &&& outer.measurable()
    &&& client.measurable()
    &&& i32::MIN <= config.height as i32 + outer.across() <= i32::MAX
    &&& i32::MIN <= config.width as i32 + outer.down() <= i32::MAX
    &&& i32::MIN <= window_size(config, outer, client).0 <= i32::MAX
    &&& i32::MIN <= window_size(config, outer, client).1 <= i32::MAX
}

/// Finds the size of a window that shows the picture pixel by pixel.
pub fn native_size(config: &Config, outer: Rect, client: Rect) -> (res: (i32, i32))
    requires
        size_fits(*config, outer, client),
    ensures
        res.0 == window_size(*config, outer, client).0,
        res.1 == window_size(*config, outer, client).1,
{
    let width: i32 = config.height as i32 + (outer.right - outer.left) - (client.right
        - client.left);
    let height: i32 = config.width as i32 + (outer.bottom - outer.top) - (client.bottom
        - client.top);
    (width, height)
}

/// Once the pointer was let go, the tablet is told neither that it moves nor
/// that it goes up, until it is pressed again.
pub proof fn released_pointer_is_silent(
    state: InputState,
    release: Message,
    message: Message,
    point: Option<(u16, u16)>,
    later: Option<(u16, u16)>,
    frames: &Frames,
    later_frames: &Frames,
)
    requires
        release is ButtonUp || release is CaptureChanged,
        message is Move || message is ButtonUp || message is CaptureChanged,
    ensures
        touches(
            next_state(state, release, point, frames),
            message,
            later,
            later_frames,
        ).len() == 0,
{
}

/// The pointer is held from the press that the tablet was told of to the
/// release that it was told of: no other message changes that.
pub proof fn pointer_is_held_between_press_and_release(
    state: InputState,
    message: Message,
    point: Option<(u16, u16)>,
    frames: &Frames,
)
    ensures
        ({
            let next = next_state(state, message, point, frames);
            let told = touches(state, message, point, frames);
            &&& !state.touch && next.touch ==> message is ButtonDown && told.len() == 1
                && told[0].action == INPUT_TOUCH_DOWN
            &&& state.touch && !next.touch ==> (message is ButtonUp || message is CaptureChanged)
                && told.len() == 1 && told[0].action == INPUT_TOUCH_UP
        }),
{
}

/// A window made as wide and high as [`native_size`] says has an inside of the
/// size of the picture, as long as its frame keeps its size.
pub proof fn native_size_shows_every_pixel(config: Config, outer: Rect, client: Rect)
    requires
        config.wf(),
    ensures
        window_size(config, outer, client).0 - (outer.across() - client.across())
            == config.height,
        window_size(config, outer, client).1 - (outer.down() - client.down()) == config.width,
{
    assert(config.width <= config.width * config.height) by (nonlinear_arith)
        requires
            config.height > 0,
    ;
    assert(config.height <= config.width * config.height) by (nonlinear_arith)
        requires
            config.width > 0,
    ;
}

/// Every message can be answered while a frame is shown that was received and
/// whose sides can be divided into thousandths.
pub proof fn messages_fit(
    state: InputState,
    message: Message,
    point: Option<(u16, u16)>,
    frames: &Frames,
)
    requires
        frames.wf(),
        frames.width * SOFT_SCALE <= usize::MAX,
        frames.height * SOFT_SCALE <= usize::MAX,
    ensures
        message_fits(state, message, point, frames),
{
    messages_over_countable_pictures_fit(state, message, point, frames);
}

/// Every message can be answered over every picture whose bytes can be counted
/// and whose sides can be divided into thousandths.
pub proof fn messages_over_countable_pictures_fit(
    state: InputState,
    message: Message,
    point: Option<(u16, u16)>,
    frames: &Frames,
)
    requires
        frames.front < 2,
        4 * (frames.width * frames.height) <= usize::MAX,
        1000 * frames.width <= usize::MAX,
        1000 * frames.height <= usize::MAX,
    ensures
        message_fits(state, message, point, frames),
{
    if let Message::Char { code } = message {
        pictures_with_countable_bytes_fit(state, frames, code as char);
    }
}

/// The window is as much larger than the picture on its side as its outside is
/// larger than its inside, for every picture whose sides fit in an `i32`.
pub proof fn windows_are_larger_by_their_frame(config: Config, outer: Rect, client: Rect)
    requires
        config.width <= 0x7fff_ffff,
        config.height <= 0x7fff_ffff,
    ensures
        window_size(config, outer, client).0 + (client.right - client.left) == config.height + (
        outer.right - outer.left),
        window_size(config, outer, client).1 + (client.bottom - client.top) == config.width + (
        outer.bottom - outer.top),
{
}

/// The size of the window can be found for every picture that can be received, if
/// the inside of the window lies in its outside and there is room for both.
pub proof fn sizes_of_windows_fit(config: Config, outer: Rect, client: Rect)
    requires
        config.wf(),
        outer.left <= client.left <= client.right <= outer.right,
        outer.top <= client.top <= client.bottom <= outer.bottom,
        outer.right - outer.left <= 0x7eff_ffff,
        outer.bottom - outer.top <= 0x7eff_ffff,
    ensures
        size_fits(config, outer, client),
{
    assert(config.width <= config.width * config.height) by (nonlinear_arith)
        requires
            config.height > 0,
    ;
    assert(config.height <= config.width * config.height) by (nonlinear_arith)
        requires
            config.width > 0,
    ;
}

/// A press, a move of a held pointer and its release are told as one touch at the
/// very point under the pointer. A press or a move beside the picture is not
/// told, and a release there is told at the corner. A pointer that is not held
/// tells of nothing but a press.
pub proof fn pointer_is_told_where_it_is(
    state: InputState,
    x: u16,
    y: u16,
    frames: &Frames,
    release: Message,
)
    requires
        release is ButtonUp || release is CaptureChanged,
    ensures
        touches(state, Message::ButtonDown, Some((x, y)), frames) == seq![
            Touch { action: 1, x, y },
        ],
        touches(state, Message::ButtonDown, None, frames).len() == 0,
        state.touch ==> touches(state, Message::Move, Some((x, y)), frames) == seq![
            Touch { action: 2, x, y },
        ],
        state.touch ==> touches(state, release, Some((x, y)), frames) == seq![
            Touch { action: 3, x, y },
        ],
        touches(state, Message::Move, None, frames).len() == 0,
        state.touch ==> touches(state, release, None, frames) == seq![
            Touch { action: 3, x: 0, y: 0 },
        ],
        !state.touch ==> touches(state, Message::Move, Some((x, y)), frames).len() == 0,
        !state.touch ==> touches(state, release, Some((x, y)), frames).len() == 0,
        !state.touch ==> touches(state, release, None, frames).len() == 0,
{
}

/// A press holds the pointer. The keyboard stays known only if the press lies
/// from 286 to 964 thousandths of the width, and it switches if the press lies on
/// its mode key.
pub proof fn presses_may_forget_the_keyboard(
    state: InputState,
    x: u16,
    y: u16,
    frames: &Frames,
)
    ensures
        ({
            let width = frames.width;
            let next = next_state(state, Message::ButtonDown, Some((x, y)), frames);
            let near = 0 < width && 286 * width < 1000 * (x + 1) && 1000 * x <= 964 * width;
            let hit = 0 < frames.height && 529 * width <= 1000 * x < 737 * width && 1000 * y < 119
                * frames.height;
            &&& next.touch
            &&& next.keyboard_known == (state.keyboard_known && near)
            &&& next.numeric == if state.keyboard_known && near && hit {
                !state.numeric
            } else {
                state.numeric
            }
        }),
        next_state(state, Message::ButtonDown, None, frames) == state,
{
    let known = state.keyboard_known && near_keyboard(frames.width as int, x as int);
    presses_of_the_mode_key_switch(
        InputState { touch: true, keyboard_known: known, ..state },
        frames.width as int,
        frames.height as int,
        x,
        y,
    );
}

/// A release lets go of the pointer and changes nothing else. Typing changes what
/// the typed character does. No message but a press, a release and typing changes
/// anything.
pub proof fn other_messages_change_nothing(
    state: InputState,
    message: Message,
    point: Option<(u16, u16)>,
    frames: &Frames,
)
    ensures
        message is ButtonUp || message is CaptureChanged ==> next_state(
            state,
            message,
            point,
            frames,
        ) == (InputState {
            touch: false,
            numeric: state.numeric,
            keyboard_known: state.keyboard_known,
        }),
        !(message is ButtonUp || message is CaptureChanged || message is ButtonDown
            || message is Char) ==> next_state(state, message, point, frames) == state,
        !(message is ButtonUp || message is CaptureChanged || message is ButtonDown
            || message is Move || message is Char || message is Wheel) ==> touches(
            state,
            message,
            point,
            frames,
        ).len() == 0,
{
}

/// A code that is one of a character types that character; a surrogate or a
/// number beyond the last character does nothing.
pub proof fn codes_type_their_characters(
    state: InputState,
    code: u32,
    point: Option<(u16, u16)>,
    frames: &Frames,
)
    ensures
        code < 0xd800 || 0xdfff < code <= 0x10_ffff ==> {
            &&& touches(state, Message::Char { code }, point, frames) == key_touches(
                state,
                frames,
                code as char,
            )
            &&& next_state(state, Message::Char { code }, point, frames) == after_key(
                state,
                frames,
                code as char,
            )
        },
        0xd800 <= code <= 0xdfff || 0x10_ffff < code ==> {
            &&& touches(state, Message::Char { code }, point, frames).len() == 0
            &&& next_state(state, Message::Char { code }, point, frames) == state
        },
{
}

/// The wheel scrolls up if it turned forward and down if it turned back. How far
/// it turned does not matter, nor does the lower half of its word.
pub proof fn wheel_scrolls_by_its_sign(
    state: InputState,
    word: usize,
    delta: i16,
    high: int,
    low: int,
    point: Option<(u16, u16)>,
    frames: &Frames,
)
    requires
        0 <= low < 0x1_0000,
        0 <= high,
        word == 0x1_0000_0000 * high + 0x1_0000 * (if delta < 0 {
            delta + 0x1_0000
        } else {
            delta as int
        }) + low,
    ensures
        delta > 0 ==> touches(state, Message::Wheel { word }, point, frames) == swipe(
            frames.width as int,
            frames.height as int,
            true,
        ),
        delta < 0 ==> touches(state, Message::Wheel { word }, point, frames) == swipe(
            frames.width as int,
            frames.height as int,
            false,
        ),
        delta == 0 ==> touches(state, Message::Wheel { word }, point, frames).len() == 0,
{
    let half = if delta < 0 {
        delta + 0x1_0000
    } else {
        delta as int
    };
    let above = 0x1_0000 * high + half;
    lemma_fundamental_div_mod_converse(word as int, 0x1_0000, above, low);
    lemma_fundamental_div_mod_converse(above, 0x1_0000, high, half);
}

/// What is done for each message. The window goes away when it is closed, when
/// painting fails and for the escape key, and for nothing else; the program ends
/// when its window is gone, after it has stopped the stream and its transfers.
pub proof fn messages_have_their_actions(message: Message, point: Option<(u16, u16)>)
    ensures
        actions(message, point).contains(Action::DestroyWindow) <==> message is Close || message
            == (Message::Paint { failed: true }) || message == (Message::KeyDown { key: 27 }),
        actions(message, point).contains(Action::DestroyWindow) ==> actions(message, point)
            == seq![Action::DropRenderer, Action::DestroyWindow],
        message is Destroy ==> actions(message, point) == seq![
            Action::DropRenderer,
            Action::StopRunning,
            Action::AbortConnection,
            Action::Quit,
        ],
        message is Frame ==> actions(message, point) == seq![
            Action::ClearPending,
            Action::Invalidate,
        ],
        message is ButtonDown && point is Some ==> actions(message, point) == seq![Action::Capture],
        message is ButtonUp || message is CaptureChanged ==> actions(message, point) == seq![
            Action::ReleaseCapture,
        ],
        message is ButtonDown && point is None || message is EraseBackground || message is OtherKey
            || message is Char || message is Move || message is Wheel || message is Other
            ==> actions(message, point).len() == 0,
        message matches Message::KeyDown { key } ==> key != 27 ==> actions(message, point).len()
            == 0,
        message matches Message::Paint { failed } ==> !failed ==> actions(message, point).len()
            == 0,
{
    let closing = seq![Action::DropRenderer, Action::DestroyWindow];
    assert(closing[1] == Action::DestroyWindow);
    let list = actions(message, point);
    if list.contains(Action::DestroyWindow) {
        let k = choose|k: int| 0 <= k < list.len() && list[k] == Action::DestroyWindow;
    }
    if message is Close || message == (Message::Paint { failed: true }) || message
        == (Message::KeyDown { key: 27 }) {
        assert(list[1] == Action::DestroyWindow);
    }
}

/// The system answers messages that the window does not know and moves of a
/// pointer that is not held; the window answers all others, that its background
/// is erased with one and the rest with zero.
pub proof fn messages_have_their_replies(state: InputState, message: Message)
    ensures
        reply(state, message) == Reply::Default <==> message is Other || (message is Move
            && !state.touch),
        reply(state, message) == Reply::One <==> message is EraseBackground,
        needs_point(state, message) <==> message is ButtonDown || (state.touch && (message is Move
            || message is ButtonUp || message is CaptureChanged)),
{
}

/// A message that does not need the point under the pointer is answered in the
/// same way wherever the pointer is.
pub proof fn points_matter_only_where_they_are_asked_for(
    state: InputState,
    message: Message,
    point: Option<(u16, u16)>,
    frames: &Frames,
)
    requires
        !needs_point(state, message),
    ensures
        next_state(state, message, point, frames) == next_state(state, message, None, frames),
        touches(state, message, point, frames) == touches(state, message, None, frames),
        actions(message, point) == actions(message, None),
{
}

/// A mouse message names the column in the lower and the row in the upper sixteen
/// bits of 32, each with its sign.
pub proof fn cursors_have_signs(lparam: int, x: i16, y: i16, high: int)
    requires
        lparam == 0x1_0000_0000 * high + 0x1_0000 * (if y < 0 {
            y + 0x1_0000
        } else {
            y as int
        }) + (if x < 0 {
            x + 0x1_0000
        } else {
            x as int
        }),
    ensures
        cursor_of(lparam) == (x as int, y as int),
{
    let row = if y < 0 {
        y + 0x1_0000
    } else {
        y as int
    };
    let column = if x < 0 {
        x + 0x1_0000
    } else {
        x as int
    };
    let above = 0x1_0000 * high + row;
    lemma_fundamental_div_mod_converse(lparam, 0x1_0000, above, column);
    lemma_fundamental_div_mod_converse(above, 0x1_0000, high, row);
}

/// The point under the pointer is looked for exactly if there is a picture and an
/// inside of the window, and with their sides and the point of the message.
pub proof fn points_are_looked_for_over_the_picture(
    lparam: int,
    width: usize,
    height: usize,
    client: Rect,
    hover: Option<Hover>,
)
    requires
        width <= 0x7fff_ffff,
        height <= 0x7fff_ffff,
        is_hover(lparam, width, height, Some(client), hover),
    ensures
        hover is Some <==> 0 < width && 0 < height && client.left < client.right && client.top
            < client.bottom,
        hover is Some ==> {
            &&& (hover->0.x as int, hover->0.y as int) == cursor_of(lparam)
            &&& (hover->0.width as int, hover->0.height as int) == (width as int, height as int)
            &&& hover->0.client_width == client.right - client.left
            &&& hover->0.client_height == client.bottom - client.top
        },
{
}

/// Without the inside of the window no point is looked for.
pub proof fn no_point_without_a_window(
    lparam: int,
    width: usize,
    height: usize,
    hover: Option<Hover>,
)
    requires
        is_hover(lparam, width, height, None, hover),
    ensures
        hover is None,
{
}

/// The sides of a rectangle are as long as its corners are apart.
pub proof fn rectangles_are_measured_between_corners(rect: Rect)
    ensures
        rect.left + rect.across() == rect.right,
        rect.top + rect.down() == rect.bottom,
{
}

/// A side that does not fit in an `i32` is taken by its lower 32 bits, with a
/// sign, both for the point under the pointer and for the size of the window.
pub proof fn long_sides_are_taken_by_their_lower_bits(
    lparam: int,
    config: Config,
    outer: Rect,
    client: Rect,
    hover: Option<Hover>,
)
    requires
        is_hover(lparam, config.width, config.height, Some(client), hover),
    ensures
        (window_size(config, outer, client).0 - (outer.right - outer.left) + (client.right
            - client.left) - config.height) % 0x1_0000_0000 == 0,
        (window_size(config, outer, client).1 - (outer.bottom - outer.top) + (client.bottom
            - client.top) - config.width) % 0x1_0000_0000 == 0,
        hover matches Some(hover) ==> {
            &&& 0 < hover.width && (hover.width - config.width) % 0x1_0000_0000 == 0
            &&& 0 < hover.height && (hover.height - config.height) % 0x1_0000_0000 == 0
        },
        hover is None && client.left < client.right && client.top < client.bottom ==> {
            ||| config.width as int % 0x1_0000_0000 == 0
            ||| config.width as int % 0x1_0000_0000 >= 0x8000_0000
            ||| config.height as int % 0x1_0000_0000 == 0
            ||| config.height as int % 0x1_0000_0000 >= 0x8000_0000
        },
{
    lower_bits(config.width);
    lower_bits(config.height);
}

proof fn lower_bits(side: usize)
    ensures
        (side as i32 - side) % 0x1_0000_0000 == 0,
        side as i32 > 0 <==> 0 < side as int % 0x1_0000_0000 < 0x8000_0000,
{
    let low = (side as u64 % 0x1_0000_0000u64) as int;
    assert(side as i32 as int == if side as u64 % 0x1_0000_0000u64 < 0x8000_0000u64 {
        (side as u64 % 0x1_0000_0000u64) as int
    } else {
        side as u64 % 0x1_0000_0000u64 - 0x1_0000_0000
    }) by (bit_vector);
}

/// A press over the picture, a move of a held pointer and its release are each
/// answered with one command that tells the tablet the very point, or the corner
/// for a release beside the picture. The window takes the pointer when it is
/// pressed and lets go of it when it is released.
pub proof fn pointers_are_answered_with_one_command(
    before: InputState,
    message: Message,
    point: Option<(u16, u16)>,
    frames: &Frames,
    after: InputState,
    response: Response,
    x: u16,
    y: u16,
)
    requires
        is_response(before, message, point, frames, after, response),
        point == Some((x, y)) || (point is None && x == 0 && y == 0),
    ensures
        message is ButtonDown && point is Some ==> {
            &&& after.touch
            &&& response.commands@.len() == 1
            &&& carries(response.commands@[0], Touch { action: 1, x, y })
            &&& response.actions@ == seq![Action::Capture]
            &&& response.reply is Zero
        },
        message is Move && before.touch && point is Some ==> {
            &&& after == before
            &&& response.commands@.len() == 1
            &&& carries(response.commands@[0], Touch { action: 2, x, y })
            &&& response.actions@.len() == 0
            &&& response.reply is Zero
        },
        (message is ButtonUp || message is CaptureChanged) && before.touch ==> {
            &&& !after.touch
            &&& response.commands@.len() == 1
            &&& carries(response.commands@[0], Touch { action: 3, x, y })
            &&& response.actions@ == seq![Action::ReleaseCapture]
            &&& response.reply is Zero
        },
        (message is ButtonDown || message is Move) && point is None ==> after == before
            && response.commands@.len() == 0,
        !before.touch && (message is Move || message is ButtonUp || message is CaptureChanged)
            ==> !after.touch && response.commands@.len() == 0,
{
    let told = touches(before, message, point, frames);
    if told.len() == 1 {
        assert(carries(response.commands@[0], told[0]));
    }
}

/// Every message is answered with commands for its touches, with its actions and
/// with its reply.
pub proof fn answers_hold_touches_actions_and_reply(
    before: InputState,
    message: Message,
    point: Option<(u16, u16)>,
    frames: &Frames,
    after: InputState,
    response: Response,
)
    requires
        is_response(before, message, point, frames, after, response),
    ensures
        after == next_state(before, message, point, frames),
        response.commands@.len() == touches(before, message, point, frames).len(),
        forall|k: int|
            0 <= k < response.commands@.len() ==> carries(
                #[trigger] response.commands@[k],
                touches(before, message, point, frames)[k],
            ),
        response.actions@ == actions(message, point),
        response.reply == reply(before, message),
{
    let told = touches(before, message, point, frames);
    assert forall|k: int| 0 <= k < response.commands@.len() implies carries(
        #[trigger] response.commands@[k],
        told[k],
    ) by {
        assert(carries(response.commands@[0 + k], told[k]));
    }
}

} // verus!
