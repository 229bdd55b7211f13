use minesweeper::type_traits::{Max, Min};
use minesweeper::settings::{
    ChordSetting, Difficulty, DifficultySetting, Dimensions, FirstClickSetting, Settings, MAX_HEIGHT,
    MAX_MINES, MAX_WIDTH,
};

#[test]
fn dimensions_keep_values_within_bounds() {
    let d = Dimensions::new(9, 8, 10);
    assert_eq!(d.width(), 9);
    assert_eq!(d.height(), 8);
    assert_eq!(d.mines(), 10);
    assert_eq!(d.cells(), 72);
}

#[test]
fn dimensions_clamp_oversized_values_to_maxima() {
    let d = Dimensions::new(100, 33, 10_000);
    assert_eq!(d.width(), MAX_WIDTH);
    assert_eq!(d.height(), MAX_HEIGHT);
    assert_eq!(d.mines(), MAX_MINES);
    let e = Dimensions::new(usize::MAX, usize::MAX, usize::MAX);
    assert_eq!((e.width(), e.height(), e.mines()), (32, 32, 512));
}

#[test]
fn dimensions_at_the_maxima_stay() {
    let d = Dimensions::new(32, 32, 512);
    assert_eq!((d.width(), d.height(), d.mines()), (32, 32, 512));
}

#[test]
fn dimensions_default_is_sixteen_square_with_ten_mines() {
    let d = Dimensions::default();
    assert_eq!((d.width(), d.height(), d.mines()), (16, 16, 10));
}

#[test]
fn dimensions_playable_needs_cells_and_a_safe_one() {
    assert!(Dimensions::new(9, 9, 10).playable());
    assert!(!Dimensions::new(0, 9, 0).playable());
    assert!(!Dimensions::new(2, 2, 4).playable());
    assert!(Dimensions::new(2, 2, 3).playable());
}

#[test]
fn difficulty_presets_have_their_dimensions() {
    let b = Difficulty::Beginner.dimensions();
    assert_eq!((b.width(), b.height(), b.mines()), (9, 9, 10));
    let i = Difficulty::Intermediate.dimensions();
    assert_eq!((i.width(), i.height(), i.mines()), (16, 16, 40));
    let e = Difficulty::Expert.dimensions();
    assert_eq!((e.width(), e.height(), e.mines()), (30, 16, 99));
    let c = Difficulty::Custom(Dimensions::new(5, 6, 7)).dimensions();
    assert_eq!((c.width(), c.height(), c.mines()), (5, 6, 7));
}

#[test]
fn difficulty_titles() {
    assert_eq!(Difficulty::Beginner.title(), "Beginner");
    assert_eq!(Difficulty::Intermediate.title(), "Intermediate");
    assert_eq!(Difficulty::Expert.title(), "Expert");
    assert_eq!(Difficulty::Custom(Dimensions::new(1, 1, 0)).title(), "Custom");
    assert_eq!(Difficulty::default(), Difficulty::Beginner);
}

#[test]
fn difficulty_setting_follows_its_difficulty() {
    let mut s = DifficultySetting::new(Difficulty::Expert);
    assert_eq!(s.difficulty(), Difficulty::Expert);
    assert_eq!(s.dimensions(), Dimensions::new(30, 16, 99));
    s.set_difficulty(Difficulty::Intermediate);
    assert_eq!(s.difficulty(), Difficulty::Intermediate);
    assert_eq!(s.dimensions(), Dimensions::new(16, 16, 40));
    assert_eq!(DifficultySetting::default().difficulty(), Difficulty::Beginner);
}

#[test]
fn settings_default_and_getters() {
    let s = Settings::default();
    assert_eq!(s.difficulty(), Difficulty::Beginner);
    assert_eq!(s.dimensions(), Dimensions::new(9, 9, 10));
    assert_eq!(s.chord_setting(), ChordSetting::LeftClick);
    assert_eq!(s.first_click_setting(), FirstClickSetting::Zero);
    assert!(s.first_click_setting_is_zero());
    assert!(!s.first_click_setting_is_any());
    assert!(!s.allow_mark_cell_as_unknown());
    assert_eq!(ChordSetting::default(), ChordSetting::LeftClick);
    assert_eq!(FirstClickSetting::default(), FirstClickSetting::Zero);
}

#[test]
fn settings_set_difficulty_keeps_other_settings() {
    let mut s = Settings::new(
        DifficultySetting::new(Difficulty::Beginner),
        ChordSetting::Disabled,
        FirstClickSetting::Any,
        true,
    );
    assert!(s.first_click_setting_is_any());
    s.set_difficulty(Difficulty::Expert);
    assert_eq!(s.difficulty(), Difficulty::Expert);
    assert_eq!(s.dimensions(), Dimensions::new(30, 16, 99));
    assert_eq!(s.chord_setting(), ChordSetting::Disabled);
    assert_eq!(s.first_click_setting(), FirstClickSetting::Any);
    assert!(s.allow_mark_cell_as_unknown());
}

#[test]
fn difficulty_kinds_ignore_custom_dimensions() {
    let a = Difficulty::Custom(Dimensions::new(32, 32, 250));
    let b = Difficulty::Custom(Dimensions::new(0, 0, 0));
    assert!(a.same_kind(&b));
    assert!(Difficulty::Expert.same_kind(&Difficulty::Expert));
    assert!(!Difficulty::Expert.same_kind(&Difficulty::Beginner));
    assert!(!a.same_kind(&Difficulty::Intermediate));
}

#[test]
fn integer_bounds_traits() {
    assert_eq!(<u8 as Min>::min(), 0);
    assert_eq!(<u8 as Max>::max(), 255);
    assert_eq!(<i8 as Min>::min(), -128);
    assert_eq!(<i8 as Max>::max(), 127);
}
