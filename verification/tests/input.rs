use bevy_iced::input::{
    interpret_input, ui_button, ButtonInput, InputFrame, KeyInput, MouseButton, UiButton, UiEvent,
};

type Pos = (i32, i32);

fn empty_frame() -> InputFrame<Pos, u32> {
    InputFrame {
        cursor_moves: vec![],
        cursor_entries: 0,
        cursor_exits: 0,
        buttons: vec![],
        keys: vec![],
        characters: vec![],
    }
}

#[test]
fn ui_button_maps_left_right_middle() {
    assert_eq!(ui_button(MouseButton::Left), Some(UiButton::Left));
    assert_eq!(ui_button(MouseButton::Right), Some(UiButton::Right));
    assert_eq!(ui_button(MouseButton::Middle), Some(UiButton::Middle));
}

#[test]
fn ui_button_drops_other_buttons() {
    assert_eq!(ui_button(MouseButton::Other(4)), None);
    assert_eq!(ui_button(MouseButton::Other(0)), None);
}

#[test]
fn empty_frame_gives_no_events_and_keeps_cursor() {
    let (events, cursor) = interpret_input((7, 9), &empty_frame());
    assert!(events.is_empty());
    assert_eq!(cursor, (7, 9));
}

#[test]
fn cursor_follows_the_last_move() {
    let mut frame = empty_frame();
    frame.cursor_moves = vec![(1, 2), (3, 4), (5, 6)];
    let (events, cursor) = interpret_input((0, 0), &frame);
    assert_eq!(
        events,
        vec![
            UiEvent::CursorMoved((1, 2)),
            UiEvent::CursorMoved((3, 4)),
            UiEvent::CursorMoved((5, 6)),
        ]
    );
    assert_eq!(cursor, (5, 6));
}

#[test]
fn cursor_tracking_over_two_frames_matches_one() {
    let mut first = empty_frame();
    first.cursor_moves = vec![(1, 1), (2, 2)];
    let mut second = empty_frame();
    second.cursor_moves = vec![(3, 3)];
    let (_, after_first) = interpret_input((0, 0), &first);
    let (_, after_second) = interpret_input(after_first, &second);
    let mut both = empty_frame();
    both.cursor_moves = vec![(1, 1), (2, 2), (3, 3)];
    let (_, at_once) = interpret_input((0, 0), &both);
    assert_eq!(after_second, at_once);

    let (_, unchanged) = interpret_input(after_second, &empty_frame());
    assert_eq!(unchanged, (3, 3));
}

#[test]
fn entries_and_exits_are_counted() {
    let mut frame = empty_frame();
    frame.cursor_entries = 2;
    frame.cursor_exits = 1;
    let (events, _) = interpret_input((0, 0), &frame);
    assert_eq!(
        events,
        vec![UiEvent::CursorEntered, UiEvent::CursorEntered, UiEvent::CursorLeft]
    );
}

#[test]
fn button_changes_become_presses_and_releases() {
    let mut frame = empty_frame();
    frame.buttons = vec![
        ButtonInput { button: MouseButton::Left, pressed: true },
        ButtonInput { button: MouseButton::Other(8), pressed: true },
        ButtonInput { button: MouseButton::Left, pressed: false },
        ButtonInput { button: MouseButton::Middle, pressed: true },
        ButtonInput { button: MouseButton::Right, pressed: false },
    ];
    let (events, _) = interpret_input((0, 0), &frame);
    assert_eq!(
        events,
        vec![
            UiEvent::ButtonPressed(UiButton::Left),
            UiEvent::ButtonReleased(UiButton::Left),
            UiEvent::ButtonPressed(UiButton::Middle),
            UiEvent::ButtonReleased(UiButton::Right),
        ]
    );
}

#[test]
fn keys_without_code_are_dropped() {
    let mut frame = empty_frame();
    frame.keys = vec![
        KeyInput { key_code: Some(10), pressed: true },
        KeyInput { key_code: None, pressed: true },
        KeyInput { key_code: Some(10), pressed: false },
        KeyInput { key_code: None, pressed: false },
    ];
    let (events, _) = interpret_input((0, 0), &frame);
    assert_eq!(events, vec![UiEvent::KeyPressed(10), UiEvent::KeyReleased(10)]);
}

#[test]
fn characters_are_forwarded_in_order() {
    let mut frame = empty_frame();
    frame.characters = vec!['h', 'i', '!'];
    let (events, _) = interpret_input((0, 0), &frame);
    assert_eq!(
        events,
        vec![
            UiEvent::CharacterReceived('h'),
            UiEvent::CharacterReceived('i'),
            UiEvent::CharacterReceived('!'),
        ]
    );
}

#[test]
fn streams_are_grouped_in_a_fixed_order() {
    let frame = InputFrame {
        cursor_moves: vec![(4, 4)],
        cursor_entries: 1,
        cursor_exits: 1,
        buttons: vec![ButtonInput { button: MouseButton::Right, pressed: true }],
        keys: vec![KeyInput { key_code: Some(3u32), pressed: true }],
        characters: vec!['x'],
    };
    let (events, cursor) = interpret_input((0, 0), &frame);
    assert_eq!(
        events,
        vec![
            UiEvent::CursorMoved((4, 4)),
            UiEvent::CursorEntered,
            UiEvent::CursorLeft,
            UiEvent::ButtonPressed(UiButton::Right),
            UiEvent::KeyPressed(3),
            UiEvent::CharacterReceived('x'),
        ]
    );
    assert_eq!(cursor, (4, 4));
}

#[test]
fn one_event_per_recognised_input() {
    let frame = InputFrame {
        cursor_moves: vec![(1, 1), (2, 2)],
        cursor_entries: 3,
        cursor_exits: 0,
        buttons: vec![
            ButtonInput { button: MouseButton::Other(1), pressed: true },
            ButtonInput { button: MouseButton::Left, pressed: true },
        ],
        keys: vec![KeyInput { key_code: None::<u32>, pressed: true }],
        characters: vec!['a', 'b'],
    };
    let (events, _) = interpret_input((0, 0), &frame);
    assert_eq!(events.len(), 2 + 3 + 0 + 1 + 0 + 2);
}
