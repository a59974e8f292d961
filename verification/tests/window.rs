use pencast::input::{InputState, INPUT_TOUCH_DOWN, INPUT_TOUCH_MOVE, INPUT_TOUCH_UP};
use pencast::protocol::{publish, Config, Frames};
use pencast::window::{
    cursor, fits, handle, native_size, point, wants_point, Action, Hover, Message, Rect, Reply,
};

fn frames() -> Frames {
    let mut frames = Frames::new();
    let config = Config { width: 100, height: 200, payload: 80_000 };
    publish(&mut frames, &config, &vec![255u8; 80_000]);
    frames
}

fn told(commands: &[[u8; 16]]) -> Vec<(u32, u16, u16)> {
    commands
        .iter()
        .map(|command| {
            assert_eq!(&command[..8], b"CMINPUT1");
            (
                u32::from_le_bytes([command[8], command[9], command[10], command[11]]),
                u16::from_le_bytes([command[12], command[13]]),
                u16::from_le_bytes([command[14], command[15]]),
            )
        })
        .collect()
}

fn held() -> InputState {
    InputState { touch: true, numeric: false, keyboard_known: false }
}

fn answer(
    state: &mut InputState,
    message: Message,
    point: Option<(u16, u16)>,
) -> (Vec<(u32, u16, u16)>, Vec<Action>, Reply) {
    let response = handle(state, message, point, &frames());
    (told(&response.commands), response.actions, response.reply)
}

#[test]
fn window_closes() {
    let closing = vec![Action::DropRenderer, Action::DestroyWindow];
    for message in [
        Message::Close,
        Message::Paint { failed: true },
        Message::KeyDown { key: 0x1b },
    ] {
        let mut state = InputState::new();
        assert_eq!(answer(&mut state, message, None), (vec![], closing.clone(), Reply::Zero));
        assert_eq!(state, InputState::new());
    }
}

#[test]
fn plain_messages_are_answered() {
    let mut state = InputState::new();
    assert_eq!(
        answer(&mut state, Message::Paint { failed: false }, None),
        (vec![], vec![], Reply::Zero)
    );
    assert_eq!(
        answer(&mut state, Message::Frame, None),
        (vec![], vec![Action::ClearPending, Action::Invalidate], Reply::Zero)
    );
    assert_eq!(answer(&mut state, Message::EraseBackground, None), (vec![], vec![], Reply::One));
    assert_eq!(
        answer(&mut state, Message::KeyDown { key: 0x41 }, None),
        (vec![], vec![], Reply::Zero)
    );
    assert_eq!(answer(&mut state, Message::OtherKey, None), (vec![], vec![], Reply::Zero));
    assert_eq!(answer(&mut state, Message::Other, None), (vec![], vec![], Reply::Default));
    assert_eq!(
        answer(&mut state, Message::Destroy, None),
        (
            vec![],
            vec![
                Action::DropRenderer,
                Action::StopRunning,
                Action::AbortConnection,
                Action::Quit,
            ],
            Reply::Zero
        )
    );
}

#[test]
fn press_is_told_and_takes_the_pointer() {
    let mut state = InputState::new();
    assert_eq!(
        answer(&mut state, Message::ButtonDown, Some((5, 7))),
        (vec![(INPUT_TOUCH_DOWN, 5, 7)], vec![Action::Capture], Reply::Zero)
    );
    assert!(state.touch);
}

#[test]
fn press_beside_the_picture_does_nothing() {
    let mut state = InputState::new();
    assert_eq!(answer(&mut state, Message::ButtonDown, None), (vec![], vec![], Reply::Zero));
    assert_eq!(state, InputState::new());
}

#[test]
fn press_beside_the_keyboard_forgets_it() {
    for (x, known) in [(27, false), (28, true), (96, true), (97, false)] {
        let mut state = InputState { touch: false, numeric: true, keyboard_known: true };
        answer(&mut state, Message::ButtonDown, Some((x, 190)));
        assert_eq!(state, InputState { touch: true, numeric: true, keyboard_known: known });
    }
}

#[test]
fn press_of_the_mode_key_switches_the_keyboard() {
    let mut state = InputState { touch: false, numeric: true, keyboard_known: true };
    answer(&mut state, Message::ButtonDown, Some((63, 12)));
    assert_eq!(state, InputState { touch: true, numeric: false, keyboard_known: true });
}

#[test]
fn held_pointer_moves() {
    let mut state = held();
    assert_eq!(
        answer(&mut state, Message::Move, Some((1, 2))),
        (vec![(INPUT_TOUCH_MOVE, 1, 2)], vec![], Reply::Zero)
    );
    assert_eq!(answer(&mut state, Message::Move, None), (vec![], vec![], Reply::Zero));
    assert_eq!(state, held());
    state.touch = false;
    assert_eq!(
        answer(&mut state, Message::Move, Some((1, 2))),
        (vec![], vec![], Reply::Default)
    );
}

#[test]
fn release_is_told_once() {
    for message in [Message::ButtonUp, Message::CaptureChanged] {
        let mut state = held();
        assert_eq!(
            answer(&mut state, message, Some((3, 4))),
            (vec![(INPUT_TOUCH_UP, 3, 4)], vec![Action::ReleaseCapture], Reply::Zero)
        );
        assert!(!state.touch);
        assert_eq!(
            answer(&mut state, message, Some((3, 4))),
            (vec![], vec![Action::ReleaseCapture], Reply::Zero)
        );
    }
}

#[test]
fn release_beside_the_picture_is_told_at_the_corner() {
    let mut state = held();
    assert_eq!(
        answer(&mut state, Message::ButtonUp, None).0,
        vec![(INPUT_TOUCH_UP, 0, 0)]
    );
}

#[test]
fn wheel_scrolls() {
    let mut state = InputState::new();
    let up = vec![
        (INPUT_TOUCH_DOWN, 75, 100),
        (INPUT_TOUCH_MOVE, 50, 100),
        (INPUT_TOUCH_UP, 25, 100),
    ];
    let down = vec![
        (INPUT_TOUCH_DOWN, 25, 100),
        (INPUT_TOUCH_MOVE, 50, 100),
        (INPUT_TOUCH_UP, 75, 100),
    ];
    assert_eq!(answer(&mut state, Message::Wheel { word: 120 << 16 }, None).0, up);
    assert_eq!(answer(&mut state, Message::Wheel { word: 0x7fff_1234 }, None).0, up);
    assert_eq!(answer(&mut state, Message::Wheel { word: 0xff88_0000 }, None).0, down);
    assert_eq!(answer(&mut state, Message::Wheel { word: 0x8000_0000 }, None).0, down);
    assert_eq!(
        answer(&mut state, Message::Wheel { word: 0xffff }, None),
        (vec![], vec![], Reply::Zero)
    );
}

#[test]
fn characters_are_typed() {
    let mut state = InputState::new();
    assert_eq!(
        answer(&mut state, Message::Char { code: 0x71 }, None),
        (vec![(INPUT_TOUCH_DOWN, 41, 190), (INPUT_TOUCH_UP, 41, 190)], vec![], Reply::Zero)
    );
    assert!(state.keyboard_known);
}

#[test]
fn codes_that_are_no_characters_are_ignored() {
    for code in [0xd800, 0xdfff, 0x11_0000, u32::MAX] {
        let mut state = InputState::new();
        assert_eq!(
            answer(&mut state, Message::Char { code }, None),
            (vec![], vec![], Reply::Zero)
        );
        assert_eq!(state, InputState::new());
    }
}

#[test]
fn point_is_wanted_where_it_matters() {
    let up = InputState::new();
    assert!(wants_point(&up, &Message::ButtonDown));
    for message in [Message::Move, Message::ButtonUp, Message::CaptureChanged] {
        assert!(wants_point(&held(), &message));
        assert!(!wants_point(&up, &message));
    }
    assert!(!wants_point(&held(), &Message::Frame));
}

#[test]
fn cursor_has_a_sign() {
    assert_eq!(cursor(0x0002_0001), (1, 2));
    assert_eq!(cursor(0xfffe_ffffu32 as isize), (-1, -2));
    assert_eq!(cursor(-1), (-1, -1));
    assert_eq!(cursor(0x8000_7fffu32 as isize), (32_767, -32_768));
}

#[test]
fn point_needs_a_picture_and_a_window() {
    let client = Rect { left: 10, top: 20, right: 110, bottom: 70 };
    assert_eq!(
        point(0x0005_0003, 960, 2160, Some(client)),
        Some(Hover {
            x: 3,
            y: 5,
            width: 960,
            height: 2160,
            client_width: 100,
            client_height: 50,
        })
    );
    assert_eq!(point(0, 0, 2160, Some(client)), None);
    assert_eq!(point(0, 960, 0, Some(client)), None);
    assert_eq!(point(0, 960, 2160, None), None);
    let flat = Rect { bottom: 20, ..client };
    assert_eq!(point(0, 960, 2160, Some(flat)), None);
    let thin = Rect { right: 10, ..client };
    assert_eq!(point(0, 960, 2160, Some(thin)), None);
}

#[test]
fn window_gets_the_size_of_the_picture() {
    let config = Config { width: 960, height: 2160, payload: 960 * 2160 * 4 };
    let outer = Rect { left: 100, top: 100, right: 1116, bottom: 639 };
    let client = Rect { left: 0, top: 0, right: 1000, bottom: 500 };
    assert_eq!(native_size(&config, outer, client), (2176, 999));
}

#[test]
fn numbers_fit_where_a_message_needs_them() {
    let state = InputState::new();
    for message in [
        Message::Char { code: 0x51 },
        Message::ButtonDown,
        Message::Wheel { word: 120 << 16 },
        Message::Destroy,
    ] {
        assert!(fits(&state, &message, Some((1, 2)), &frames()));
    }
    let mut wide = Frames::new();
    wide.width = usize::MAX / 3;
    wide.height = 1;
    assert!(fits(&state, &Message::Wheel { word: 120 << 16 }, None, &wide));
    wide.width += 1;
    assert!(!fits(&state, &Message::Wheel { word: 120 << 16 }, None, &wide));
    assert!(fits(&state, &Message::Wheel { word: 0xff88_0000 }, None, &wide));
    assert!(!fits(&state, &Message::ButtonDown, Some((1, 2)), &wide));
    assert!(fits(&state, &Message::ButtonDown, None, &wide));
    assert!(!fits(&state, &Message::Char { code: 0x51 }, None, &wide));
    assert!(fits(&state, &Message::Char { code: 0xd800 }, None, &wide));
}
