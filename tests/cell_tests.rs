use minesweeper::cell::{Cell, DisplayState, Value};
use minesweeper::face::Face;

#[test]
fn cell_new_computes_value_from_neighboring_mines() {
    assert_eq!(Cell::new(None).value, Value::Mine);
    assert_eq!(Cell::new(Some(0)).value, Value::Zero);
    assert_eq!(Cell::new(Some(3)).value, Value::Three);
    assert_eq!(Cell::new(Some(8)).value, Value::Eight);
    assert_eq!(Cell::new(Some(5)).display, DisplayState::Default);
    assert_eq!(Cell::new_empty(), Cell { value: Value::Zero, display: DisplayState::Default });
}

#[test]
fn cell_click_uncovers_covered_cells_only() {
    let mut c = Cell::new(Some(2));
    c.handle_click();
    assert_eq!(c.display, DisplayState::Shown(Value::Two));
    assert!(c.is_shown());
    c.handle_click();
    assert_eq!(c.display, DisplayState::Shown(Value::Two));

    let mut f = Cell { value: Value::One, display: DisplayState::Flagged };
    f.handle_click();
    assert_eq!(f.display, DisplayState::Flagged);

    let mut q = Cell { value: Value::Mine, display: DisplayState::Unknown };
    q.handle_click();
    assert_eq!(q.display, DisplayState::Shown(Value::Mine));
}

#[test]
fn cell_cycle_with_and_without_question_marks() {
    let mut c = Cell::new(Some(1));
    c.cycle_display(true);
    assert_eq!(c.display, DisplayState::Flagged);
    c.cycle_display(true);
    assert_eq!(c.display, DisplayState::Unknown);
    c.cycle_display(true);
    assert_eq!(c.display, DisplayState::Default);

    c.cycle_display(false);
    assert_eq!(c.display, DisplayState::Flagged);
    c.cycle_display(false);
    assert_eq!(c.display, DisplayState::Default);

    let mut shown = Cell { value: Value::Four, display: DisplayState::Shown(Value::Four) };
    shown.cycle_display(true);
    assert_eq!(shown.display, DisplayState::Shown(Value::Four));
}

#[test]
fn cell_reset_and_predicates() {
    let mut c = Cell { value: Value::Mine, display: DisplayState::Flagged };
    assert!(c.is_mine());
    assert!(c.is_flagged());
    assert!(!c.is_zero());
    c.reset();
    assert_eq!(c, Cell::new_empty());
    assert!(c.is_zero());
    c.set_display_to_flagged();
    assert_eq!(c.display, DisplayState::Flagged);
}

#[test]
fn cell_display_strings() {
    assert_eq!(DisplayState::Default.get_display_string(), " ");
    assert_eq!(DisplayState::Unknown.get_display_string(), "?");
    assert_eq!(DisplayState::Flagged.get_display_string(), "🚩");
    assert_eq!(DisplayState::Shown(Value::Mine).get_display_string(), "*");
    assert_eq!(DisplayState::Shown(Value::Zero).get_display_string(), " ");
    assert_eq!(DisplayState::Shown(Value::Seven).get_display_string(), "7");
    let c = Cell { value: Value::Six, display: DisplayState::Shown(Value::Six) };
    assert_eq!(c.get_value_display_string(), "6");
}

#[test]
fn value_names() {
    assert_eq!(Value::Mine.get_name_string(), "");
    assert_eq!(Value::Zero.get_name_string(), "");
    assert_eq!(Value::One.get_name_string(), "one");
    assert_eq!(Value::Eight.get_name_string(), "eight");
}

#[test]
fn face_strings() {
    assert_eq!(Face::Happy.as_str(), "🙂");
    assert_eq!(Face::Nervous.as_str(), "😬");
    assert_eq!(Face::Dead.as_str(), "😵");
    assert_eq!(Face::Cool.as_str(), "😎");
}
