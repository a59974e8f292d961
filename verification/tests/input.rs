use pencast::input::{
    can_find_layout, can_type, scroll, send_input, soft_key, soft_layout, soft_mode, soft_tap, InputState, INPUT_TOUCH_DOWN,
    INPUT_TOUCH_MOVE, INPUT_TOUCH_UP,
};
use pencast::protocol::{publish, Config, Frames};

fn touches(commands: &[[u8; 16]]) -> Vec<(u32, u16, u16)> {
    commands
        .iter()
        .map(|command| {
            assert_eq!(&command[..8], b"CMINPUT1");
            (
                u32::from_le_bytes([command[8], command[9], command[10], command[11]]),
                u16::from_le_bytes([command[12], command[13]]),
                u16::from_le_bytes([command[14], command[15]]),
            )
        })
        .collect()
}

fn tap_at(x: u16, y: u16) -> [(u32, u16, u16); 2] {
    [(INPUT_TOUCH_DOWN, x, y), (INPUT_TOUCH_UP, x, y)]
}

/// A picture of 100 by 100 pixels with bright pixels where the keyboard shows
/// its layout.
fn frames_with(bright: usize) -> Frames {
    let mut raw = vec![0u8; 100 * 100 * 4];
    for index in 0..bright {
        let pixel = ((93 + index / 12) * 100 + 35 + index % 12) * 4;
        raw[pixel..pixel + 3].copy_from_slice(&[181, 255, 200]);
    }
    let mut frames = Frames::new();
    publish(&mut frames, &Config { width: 100, height: 100, payload: 40_000 }, &raw);
    frames
}

fn typed(state: &mut InputState, frames: &Frames, character: char) -> Vec<(u32, u16, u16)> {
    let mut input = Vec::new();
    soft_key(state, &mut input, frames, character);
    touches(&input)
}

#[test]
fn touch_is_sent_as_a_command() {
    let mut input = vec![[1u8; 16]];
    send_input(&mut input, INPUT_TOUCH_MOVE, 0x1234, 0xfedc);
    assert_eq!(input.len(), 2);
    assert_eq!(input[0], [1; 16]);
    assert_eq!(&input[1], b"CMINPUT1\x02\0\0\0\x34\x12\xdc\xfe");
}

#[test]
fn different_touches_have_different_commands() {
    let mut input = Vec::new();
    send_input(&mut input, INPUT_TOUCH_DOWN, 1, 2);
    send_input(&mut input, INPUT_TOUCH_DOWN, 2, 1);
    send_input(&mut input, INPUT_TOUCH_UP, 1, 2);
    assert_ne!(input[0], input[1]);
    assert_ne!(input[0], input[2]);
}

#[test]
fn tap_goes_down_and_up() {
    let mut input = Vec::new();
    soft_tap(&mut input, 960, 2160, 632, 63);
    assert_eq!(touches(&input), tap_at(606, 136));
}

#[test]
fn tap_stays_inside_the_picture() {
    let mut input = Vec::new();
    soft_tap(&mut input, 10, 20, 1000, 5000);
    assert_eq!(touches(&input), tap_at(9, 19));
}

#[test]
fn nothing_is_tapped_before_the_first_frame() {
    let mut input = Vec::new();
    soft_tap(&mut input, 0, 20, 500, 500);
    soft_tap(&mut input, 20, 0, 500, 500);
    assert!(input.is_empty());
}

#[test]
fn scrolling_swipes_over_half_of_the_picture() {
    let mut input = Vec::new();
    scroll(&mut input, 960, 2160, true);
    assert_eq!(
        touches(&input),
        [
            (INPUT_TOUCH_DOWN, 720, 1080),
            (INPUT_TOUCH_MOVE, 480, 1080),
            (INPUT_TOUCH_UP, 240, 1080),
        ]
    );
    input.clear();
    scroll(&mut input, 961, 3, false);
    assert_eq!(
        touches(&input),
        [(INPUT_TOUCH_DOWN, 240, 1), (INPUT_TOUCH_MOVE, 480, 1), (INPUT_TOUCH_UP, 721, 1)]
    );
    input.clear();
    scroll(&mut input, 0, 3, true);
    scroll(&mut input, 3, 0, false);
    assert!(input.is_empty());
}

#[test]
fn large_coordinates_are_capped_or_cut() {
    let mut input = Vec::new();
    scroll(&mut input, 400_000, 131_074, true);
    assert_eq!(
        touches(&input),
        [
            (INPUT_TOUCH_DOWN, 65_535, 1),
            (INPUT_TOUCH_MOVE, 65_535, 1),
            (INPUT_TOUCH_UP, 65_535, 1),
        ]
    );
}

#[test]
fn layout_is_found_in_the_picture() {
    assert_eq!(soft_layout(&frames_with(0)), None);
    assert_eq!(soft_layout(&frames_with(1)), None);
    assert_eq!(soft_layout(&frames_with(2)), Some(true));
    assert_eq!(soft_layout(&frames_with(3)), Some(true));
    assert_eq!(soft_layout(&frames_with(4)), Some(false));
    assert_eq!(soft_layout(&frames_with(36)), Some(false));
}

#[test]
fn pixel_is_bright_only_if_all_its_colors_are() {
    let mut frames = frames_with(2);
    let pixel = (93 * 100 + 35) * 4;
    frames.buffers[1][pixel] = 180;
    assert_eq!(soft_layout(&frames), None);
}

#[test]
fn layout_is_found_in_one_area_only() {
    for bright in [0, 2, 36] {
        let frames = frames_with(bright);
        let mut noisy = frames_with(bright);
        for y in 0..100 {
            for x in 0..100 {
                if !((35..47).contains(&x) && (93..96).contains(&y)) {
                    let pixel = (y * 100 + x) * 4;
                    noisy.buffers[1][pixel..pixel + 4].copy_from_slice(&[255; 4]);
                }
                noisy.buffers[1][(y * 100 + x) * 4 + 3] = 9;
            }
        }
        assert_eq!(soft_layout(&noisy), soft_layout(&frames));
    }
}

#[test]
fn layout_needs_a_picture_of_some_size() {
    assert_eq!(soft_layout(&Frames::new()), None);
    let mut frames = Frames::new();
    publish(&mut frames, &Config { width: 2, height: 2, payload: 16 }, &[255; 16]);
    assert_eq!(soft_layout(&frames), None);
}

#[test]
fn pixels_that_are_missing_are_not_bright() {
    let mut frames = frames_with(36);
    frames.buffers[1].truncate((93 * 100 + 36) * 4);
    assert_eq!(soft_layout(&frames), None);
}

#[test]
fn letters_are_typed() {
    let frames = frames_with(36);
    let mut state = InputState::new();
    assert_eq!(typed(&mut state, &frames, 'q'), tap_at(41, 95));
    assert_eq!(state, InputState { touch: false, numeric: false, keyboard_known: true });
    assert_eq!(typed(&mut state, &frames, 'p'), tap_at(41, 15));
    assert_eq!(typed(&mut state, &frames, 'a'), tap_at(63, 87));
    assert_eq!(typed(&mut state, &frames, 'l'), tap_at(63, 17));
    assert_eq!(typed(&mut state, &frames, 'z'), tap_at(85, 84));
    assert_eq!(typed(&mut state, &frames, 'm'), tap_at(85, 31));
    assert_eq!(typed(&mut state, &frames, ' '), tap_at(85, 19));
    assert!(typed(&mut state, &frames, '1').is_empty());
    assert!(typed(&mut state, &frames, '\u{e9}').is_empty());
}

#[test]
fn capitals_are_typed_with_the_shift_key() {
    let frames = frames_with(36);
    let mut state = InputState::new();
    assert_eq!(
        typed(&mut state, &frames, 'Q'),
        [tap_at(63, 95), tap_at(41, 95)].concat()
    );
}

#[test]
fn letters_leave_the_numbers() {
    let frames = frames_with(3);
    let mut state = InputState::new();
    assert_eq!(typed(&mut state, &frames, ' '), tap_at(85, 19));
    assert_eq!(state, InputState { touch: false, numeric: true, keyboard_known: true });
    assert_eq!(
        typed(&mut state, &frames, 'Z'),
        [tap_at(63, 6), tap_at(63, 95), tap_at(85, 84)].concat()
    );
    assert!(!state.numeric);
    assert_eq!(typed(&mut state, &frames, 'z'), tap_at(85, 84));
}

#[test]
fn nothing_is_typed_without_a_keyboard() {
    let frames = frames_with(0);
    let mut state = InputState::new();
    assert!(typed(&mut state, &frames, 'q').is_empty());
    assert_eq!(state, InputState::new());
    state.keyboard_known = true;
    assert_eq!(typed(&mut state, &frames, 'q'), tap_at(41, 95));
}

#[test]
fn every_letter_has_its_own_key() {
    let frames = frames_with(36);
    let mut state = InputState::new();
    let mut places = Vec::new();
    for letter in 'a'..='z' {
        let place = typed(&mut state, &frames, letter);
        assert_eq!(place.len(), 2);
        assert!(!places.contains(&place));
        places.push(place);
    }
}

#[test]
fn characters_can_be_typed_where_their_keys_can_be_reached() {
    let known = InputState { touch: false, numeric: true, keyboard_known: true };
    assert!(can_find_layout(&frames_with(3)));
    assert!(can_type(&known, &frames_with(3), 'Q'));
    let mut wide = Frames::new();
    wide.height = 1;
    wide.width = usize::MAX / 632;
    assert!(can_find_layout(&wide));
    assert!(can_type(&known, &wide, 'a'));
    assert!(!can_type(&known, &wide, 'z'));
    assert!(!can_type(&known, &wide, ' '));
    assert!(can_type(&known, &wide, '1'));
    assert!(can_type(&InputState::new(), &wide, 'z'));
    wide.width = usize::MAX / 472 + 1;
    assert!(!can_find_layout(&wide));
    assert!(!can_type(&known, &wide, '1'));
}

#[test]
fn mode_key_is_followed() {
    let mut state = InputState { touch: false, numeric: false, keyboard_known: true };
    soft_mode(&mut state, 1000, 1000, 632, 63);
    assert!(state.numeric);
    soft_mode(&mut state, 1000, 1000, 529, 118);
    assert!(!state.numeric);
    soft_mode(&mut state, 1000, 1000, 736, 0);
    assert!(state.numeric);
    for (x, y) in [(528, 63), (737, 63), (632, 119)] {
        soft_mode(&mut state, 1000, 1000, x, y);
        assert!(state.numeric);
    }
    soft_mode(&mut state, 0, 1000, 632, 63);
    soft_mode(&mut state, 1000, 0, 632, 63);
    assert!(state.numeric);
    state.keyboard_known = false;
    soft_mode(&mut state, 1000, 1000, 632, 63);
    assert!(state.numeric);
}
