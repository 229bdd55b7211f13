use minesweeper::mouse_state::{MouseButton, MouseState};
use minesweeper::settings::ChordSetting;

const ALL: [MouseState; 5] = [
    MouseState::Neither,
    MouseState::Left,
    MouseState::Right,
    MouseState::Both,
    MouseState::AfterBoth,
];

#[test]
fn button_codes() {
    assert_eq!(MouseButton::from_code(0), MouseButton::Left);
    assert_eq!(MouseButton::from_code(1), MouseButton::Middle);
    assert_eq!(MouseButton::from_code(2), MouseButton::Right);
    assert_eq!(MouseButton::from_code(3), MouseButton::Other);
    assert_eq!(MouseButton::from_code(-1), MouseButton::Other);
}

#[test]
fn press_transitions() {
    let left: Vec<MouseState> = ALL.iter().map(|s| s.mouse_down(MouseButton::Left)).collect();
    assert_eq!(
        left,
        vec![MouseState::Left, MouseState::Left, MouseState::Both, MouseState::Both, MouseState::Both]
    );
    let right: Vec<MouseState> = ALL.iter().map(|s| s.mouse_down(MouseButton::Right)).collect();
    assert_eq!(
        right,
        vec![MouseState::Right, MouseState::Both, MouseState::Right, MouseState::Both, MouseState::Both]
    );
}

#[test]
fn release_transitions() {
    let left: Vec<MouseState> = ALL.iter().map(|s| s.mouse_up(MouseButton::Left)).collect();
    assert_eq!(
        left,
        vec![
            MouseState::Neither,
            MouseState::Neither,
            MouseState::Right,
            MouseState::AfterBoth,
            MouseState::Neither
        ]
    );
    let right: Vec<MouseState> = ALL.iter().map(|s| s.mouse_up(MouseButton::Right)).collect();
    assert_eq!(
        right,
        vec![
            MouseState::Neither,
            MouseState::Left,
            MouseState::Neither,
            MouseState::AfterBoth,
            MouseState::Neither
        ]
    );
}

#[test]
fn other_buttons_are_ignored() {
    for s in ALL {
        assert_eq!(s.mouse_down(MouseButton::Middle), s);
        assert_eq!(s.mouse_up(MouseButton::Other), s);
    }
}

#[test]
fn chording_detection() {
    assert!(MouseState::Both.is_chording(ChordSetting::Disabled, false));
    assert!(MouseState::Left.is_chording(ChordSetting::LeftClick, true));
    assert!(!MouseState::Left.is_chording(ChordSetting::LeftClick, false));
    assert!(!MouseState::Left.is_chording(ChordSetting::LeftAndRightClick, true));
    assert!(!MouseState::Right.is_chording(ChordSetting::LeftClick, true));
    assert!(!MouseState::AfterBoth.is_chording(ChordSetting::LeftClick, true));
}

#[test]
fn state_predicates() {
    assert!(MouseState::Neither.is_neither());
    assert!(!MouseState::Neither.is_some());
    assert!(MouseState::AfterBoth.is_some());
    assert!(MouseState::Left.is_left());
    assert!(MouseState::Right.is_right());
    assert!(MouseState::Both.is_both());
    assert!(!MouseState::Both.is_left());
}
