use minesweeper::cell::Value;
use minesweeper::face::Face;
use minesweeper::game::{GameStatus, Session};
use minesweeper::mouse_state::{MouseButton, MouseState};
use minesweeper::settings::{ChordSetting, Difficulty, DifficultySetting, Dimensions, FirstClickSetting, Settings};

fn settings(difficulty: Difficulty, chord: ChordSetting, first: FirstClickSetting, unknown: bool) -> Settings {
    Settings::new(DifficultySetting::new(difficulty), chord, first, unknown)
}

fn custom(width: usize, height: usize, mines: usize) -> Difficulty {
    Difficulty::Custom(Dimensions::new(width, height, mines))
}

fn mines_of(s: &Session) -> Vec<usize> {
    (0..s.cells().len()).filter(|&i| s.cells()[i].is_mine()).collect()
}

fn neighbors(s: &Session, i: usize) -> Vec<usize> {
    s.board().neighbors_of(i).clone()
}

#[test]
fn new_session_is_not_started() {
    let s = Session::new(Settings::default(), 1);
    assert_eq!(s.status(), GameStatus::NotStarted);
    assert_eq!(s.cells().len(), 81);
    assert_eq!(s.shown_cells_count(), 0);
    assert_eq!(s.seconds_played(), 0);
    assert_eq!(s.mines_remaining(), 10);
    assert_eq!(s.face(), Face::Happy);
    assert_eq!(s.mouse_state(), MouseState::Neither);
    assert_eq!(s.selected_cell_index(), None);
}

#[test]
fn dimensions_fit_checks_room() {
    assert!(Session::dimensions_fit(&Dimensions::new(9, 9, 10), FirstClickSetting::Zero));
    assert!(!Session::dimensions_fit(&Dimensions::new(3, 3, 1), FirstClickSetting::Zero));
    assert!(Session::dimensions_fit(&Dimensions::new(3, 3, 8), FirstClickSetting::Safe));
    assert!(!Session::dimensions_fit(&Dimensions::new(3, 3, 9), FirstClickSetting::Any));
    assert!(!Session::dimensions_fit(&Dimensions::new(0, 3, 0), FirstClickSetting::Any));
}

#[test]
fn first_click_under_zero_opens_a_zero_cell() {
    for seed in 0..20u64 {
        let mut s = Session::new(Settings::default(), seed);
        assert!(s.handle_click(40));
        assert_ne!(s.status(), GameStatus::Lost);
        assert_eq!(s.cells()[40].value, Value::Zero);
        assert!(s.cells()[40].is_shown());
        assert!(neighbors(&s, 40).iter().all(|&k| !s.cells()[k].is_mine() && s.cells()[k].is_shown()));
        assert_eq!(mines_of(&s).len(), 10);
    }
}

#[test]
fn single_mine_first_click_win_follows_the_count() {
    let st = settings(custom(4, 4, 1), ChordSetting::LeftClick, FirstClickSetting::Zero, false);
    let mut won = 0;
    for seed in 0..20u64 {
        let mut s = Session::new(st, seed);
        s.handle_click(0);
        let mine = mines_of(&s)[0];
        assert!(![0, 1, 4, 5].contains(&mine));
        assert_eq!(s.status() == GameStatus::Won, s.shown_cells_count() + 1 == 16);
        if s.status() == GameStatus::Won {
            won += 1;
            assert!(s.cells()[mine].is_flagged());
            assert_eq!(s.face(), Face::Cool);
        } else {
            assert_eq!(s.status(), GameStatus::Active);
        }
    }
    assert!(won > 0);
}

#[test]
fn three_by_three_safe_first_click_avoids_only_the_cell() {
    let st = settings(custom(3, 3, 8), ChordSetting::LeftClick, FirstClickSetting::Safe, false);
    let mut s = Session::new(st, 5);
    s.handle_click(0);
    assert_eq!(mines_of(&s), vec![1, 2, 3, 4, 5, 6, 7, 8]);
    assert_eq!(s.status(), GameStatus::Won);
    assert!(s.cells()[0].is_shown());
}

#[test]
fn any_first_click_can_lose_at_once() {
    let st = settings(custom(2, 1, 1), ChordSetting::LeftClick, FirstClickSetting::Any, false);
    let mut lost = false;
    for seed in 0..40u64 {
        let mut s = Session::new(st, seed);
        s.handle_click(0);
        if s.status() == GameStatus::Lost {
            lost = true;
            assert_eq!(s.first_clicked_mine_index(), Some(0));
            assert_eq!(s.face(), Face::Dead);
        } else {
            assert_eq!(s.status(), GameStatus::Won);
        }
    }
    assert!(lost);
}

#[test]
fn clicking_a_shown_cell_twice_changes_nothing() {
    let mut s = Session::new(Settings::default(), 11);
    s.handle_click(40);
    let cells = s.cells().clone();
    let count = s.shown_cells_count();
    let status = s.status();
    assert!(s.handle_click(40));
    assert_eq!(s.cells(), &cells);
    assert_eq!(s.shown_cells_count(), count);
    assert_eq!(s.status(), status);
}

#[test]
fn revealed_count_matches_shown_safe_cells() {
    let mut s = Session::new(Settings::default(), 2);
    s.handle_click(0);
    let shown = s.cells().iter().filter(|c| c.is_shown() && !c.is_mine()).count();
    assert_eq!(s.shown_cells_count(), shown);
}

fn play_until_mine_clicked(seed: u64) -> Session {
    let mut s = Session::new(Settings::default(), seed);
    s.handle_click(40);
    let mine = mines_of(&s)[0];
    s.handle_click(mine);
    s
}

#[test]
fn clicking_a_mine_loses_and_freezes_the_game() {
    let mut s = play_until_mine_clicked(4);
    let mine = mines_of(&s)[0];
    assert_eq!(s.status(), GameStatus::Lost);
    assert_eq!(s.first_clicked_mine_index(), Some(mine));
    assert!(mines_of(&s).iter().all(|&m| s.cells()[m].is_shown()));
    let cells = s.cells().clone();
    let safe = (0..81).find(|&i| !s.cells()[i].is_shown()).unwrap();
    assert!(!s.handle_click(safe));
    assert!(!s.handle_right_click(safe));
    assert!(!s.handle_chord(40));
    assert!(!s.handle_mouse_down(safe, MouseButton::Left));
    assert!(!s.handle_mouse_up(safe, MouseButton::Left));
    assert!(!s.handle_tick());
    assert_eq!(s.cells(), &cells);
    assert_eq!(s.status(), GameStatus::Lost);
    assert!(s.handle_reset());
    assert_eq!(s.status(), GameStatus::NotStarted);
    assert!(s.cells().iter().all(|c| !c.is_shown() && !c.is_mine()));
}

#[test]
fn flagged_mines_stay_flagged_on_loss() {
    let mut s = Session::new(Settings::default(), 6);
    s.handle_click(40);
    let mines = mines_of(&s);
    s.handle_right_click(mines[1]);
    s.handle_click(mines[0]);
    assert_eq!(s.status(), GameStatus::Lost);
    assert!(s.cells()[mines[1]].is_flagged());
    assert!(s.cells()[mines[0]].is_shown());
}

#[test]
fn uncovering_every_safe_cell_wins() {
    let mut s = Session::new(Settings::default(), 9);
    s.handle_click(40);
    let mines = mines_of(&s);
    for i in 0..81 {
        if !mines.contains(&i) {
            s.handle_click(i);
        }
    }
    assert_eq!(s.status(), GameStatus::Won);
    assert_eq!(s.shown_cells_count() + 10, 81);
    assert!(mines.iter().all(|&m| s.cells()[m].is_flagged()));
    assert_eq!(s.mines_remaining(), 0);
    assert!(!s.handle_tick());
}

/// A shown cell with value one, its mine neighbor, and a covered safe neighbor.
fn find_one_cell(s: &Session) -> Option<(usize, usize, usize)> {
    for i in 0..s.cells().len() {
        let c = s.cells()[i];
        if c.is_shown() && c.value == Value::One {
            let nb = neighbors(s, i);
            let mine = *nb.iter().find(|&&k| s.cells()[k].is_mine())?;
            if let Some(&safe) = nb.iter().find(|&&k| !s.cells()[k].is_mine() && !s.cells()[k].is_shown()) {
                return Some((i, mine, safe));
            }
        }
    }
    None
}

fn session_with_one_cell() -> (Session, usize, usize, usize) {
    for seed in 0..200u64 {
        let mut s = Session::new(Settings::default(), seed);
        s.handle_click(40);
        if s.status() != GameStatus::Active {
            continue;
        }
        if let Some((i, mine, safe)) = find_one_cell(&s) {
            return (s, i, mine, safe);
        }
    }
    panic!("no board with a suitable cell");
}

#[test]
fn chord_with_the_right_flag_uncovers_the_other_neighbors() {
    let (mut s, i, mine, _) = session_with_one_cell();
    s.handle_right_click(mine);
    assert!(s.handle_chord(i));
    assert_ne!(s.status(), GameStatus::Lost);
    for k in neighbors(&s, i) {
        if k == mine {
            assert!(s.cells()[k].is_flagged());
        } else {
            assert!(s.cells()[k].is_shown());
            assert!(!s.cells()[k].is_mine());
        }
    }
}

#[test]
fn chord_with_a_wrong_flag_loses() {
    let (mut s, i, mine, safe) = session_with_one_cell();
    s.handle_right_click(safe);
    assert!(s.handle_chord(i));
    assert_eq!(s.status(), GameStatus::Lost);
    assert_eq!(s.first_clicked_mine_index(), Some(mine));
    assert!(s.cells()[mine].is_shown());
}

#[test]
fn chord_without_matching_flags_does_nothing() {
    let (mut s, i, _, _) = session_with_one_cell();
    let cells = s.cells().clone();
    assert!(!s.handle_chord(i));
    assert_eq!(s.cells(), &cells);
    let covered = (0..81).find(|&k| !s.cells()[k].is_shown()).unwrap();
    assert!(!s.handle_chord(covered));
}

#[test]
fn right_click_cycles_marks_but_not_shown_cells() {
    let st = settings(Difficulty::Beginner, ChordSetting::LeftClick, FirstClickSetting::Zero, true);
    let mut s = Session::new(st, 3);
    assert!(s.handle_right_click(5));
    assert!(s.cells()[5].is_flagged());
    assert_eq!(s.count_flagged_mines(), 1);
    assert_eq!(s.mines_remaining(), 9);
    s.handle_right_click(5);
    assert_eq!(s.cells()[5].get_value_display_string(), "?");
    s.handle_right_click(5);
    assert_eq!(s.cells()[5].get_value_display_string(), " ");
    s.handle_click(40);
    let before = s.cells()[40];
    s.handle_right_click(40);
    assert_eq!(s.cells()[40], before);
}

#[test]
fn mines_remaining_has_a_floor() {
    let st = settings(custom(32, 32, 1), ChordSetting::LeftClick, FirstClickSetting::Zero, false);
    let mut s = Session::new(st, 0);
    for i in 0..200 {
        s.handle_right_click(i);
    }
    assert_eq!(s.count_flagged_mines(), 200);
    assert_eq!(s.mines_remaining(), -99);
}

#[test]
fn tick_counts_only_while_active_and_caps() {
    let mut s = Session::new(Settings::default(), 8);
    assert!(!s.handle_tick());
    assert_eq!(s.seconds_played(), 0);
    s.handle_click(40);
    assert_eq!(s.status(), GameStatus::Active);
    for _ in 0..1005 {
        s.handle_tick();
    }
    assert_eq!(s.seconds_played(), 999);
    s.handle_reset();
    assert_eq!(s.seconds_played(), 0);
}

#[test]
fn left_press_and_release_on_the_same_cell_clicks() {
    let mut s = Session::new(Settings::default(), 12);
    assert!(s.handle_mouse_down(40, MouseButton::Left));
    assert_eq!(s.selected_cell_index(), Some(40));
    assert_eq!(s.face(), Face::Nervous);
    assert!(s.cell_looks_pressed(40));
    assert!(s.handle_mouse_up(40, MouseButton::Left));
    assert_eq!(s.status(), GameStatus::Active);
    assert!(s.cells()[40].is_shown());
    assert_eq!(s.selected_cell_index(), None);
    assert_eq!(s.mouse_state(), MouseState::Neither);
    assert_eq!(s.face(), Face::Happy);
}

#[test]
fn release_over_another_cell_is_abandoned() {
    let mut s = Session::new(Settings::default(), 12);
    s.handle_mouse_down(40, MouseButton::Left);
    s.handle_mouse_up(41, MouseButton::Left);
    assert_eq!(s.status(), GameStatus::NotStarted);
    assert_eq!(s.mouse_state(), MouseState::Neither);
    assert!(s.cells().iter().all(|c| !c.is_shown()));
}

#[test]
fn right_press_flags() {
    let mut s = Session::new(Settings::default(), 12);
    assert!(s.handle_mouse_down(7, MouseButton::Right));
    assert!(s.cells()[7].is_flagged());
    s.handle_mouse_up(7, MouseButton::Right);
    assert!(s.cells()[7].is_flagged());
    assert_eq!(s.mouse_state(), MouseState::Neither);
}

#[test]
fn both_buttons_chord_on_release() {
    let (mut s, i, mine, _) = session_with_one_cell();
    s.handle_right_click(mine);
    s.handle_mouse_down(i, MouseButton::Left);
    s.handle_mouse_down(i, MouseButton::Right);
    assert_eq!(s.mouse_state(), MouseState::Both);
    assert!(s.neighbors_selected_cell(neighbors(&s, i)[0]));
    s.handle_mouse_up(i, MouseButton::Right);
    assert_eq!(s.mouse_state(), MouseState::AfterBoth);
    for k in neighbors(&s, i) {
        assert!(s.cells()[k].is_shown() || k == mine);
    }
    s.handle_mouse_up(i, MouseButton::Left);
    assert_eq!(s.mouse_state(), MouseState::Neither);
}

#[test]
fn left_click_on_a_shown_number_chords() {
    let (mut s, i, mine, _) = session_with_one_cell();
    s.handle_right_click(mine);
    s.handle_mouse_down(i, MouseButton::Left);
    s.handle_mouse_up(i, MouseButton::Left);
    for k in neighbors(&s, i) {
        assert!(s.cells()[k].is_shown() || k == mine);
    }
}

#[test]
fn cancel_press_abandons_the_selection() {
    let mut s = Session::new(Settings::default(), 12);
    assert!(!s.cancel_press());
    s.handle_mouse_down(3, MouseButton::Left);
    assert!(s.cancel_press());
    assert_eq!(s.selected_cell_index(), None);
    assert_eq!(s.mouse_state(), MouseState::Neither);
    s.handle_mouse_up(3, MouseButton::Left);
    assert_eq!(s.status(), GameStatus::NotStarted);
}

#[test]
fn change_size_resets_to_the_new_board() {
    let mut s = Session::new(Settings::default(), 12);
    s.handle_click(40);
    assert!(s.handle_change_size(Difficulty::Expert));
    assert_eq!(s.status(), GameStatus::NotStarted);
    assert_eq!(s.cells().len(), 480);
    assert_eq!(s.settings().difficulty(), Difficulty::Expert);
    assert_eq!(s.mines_remaining(), 99);
    s.handle_click(479);
    assert_eq!(mines_of(&s).len(), 99);
}

#[test]
fn only_the_detonated_mine_is_marked() {
    let s = play_until_mine_clicked(4);
    let mines = mines_of(&s);
    assert!(s.cell_marks_detonation(mines[0]));
    assert!(!s.cell_marks_detonation(mines[1]));
    assert!(!s.cell_marks_detonation(40));
}
