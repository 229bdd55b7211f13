use minesweeper::board::{has_room_for_mines, index_can_be_mine, list_contains, Board};
use minesweeper::cell::{Cell, DisplayState, Value};
use minesweeper::geometry::{calculate_neighbors, get_index_from_row_col, get_row_col_from_index};
use minesweeper::settings::FirstClickSetting;
use rand::rngs::StdRng;
use rand::SeedableRng;

fn mask(n: usize, mines: &[usize]) -> Vec<bool> {
    let mut m = vec![false; n];
    for &i in mines {
        m[i] = true;
    }
    m
}

fn neighbor_mine_count(board: &Board, index: usize) -> usize {
    board.neighbors_of(index).iter().filter(|&&k| board.cells()[k].is_mine()).count()
}

#[test]
fn neighbors_of_corner_edge_and_middle() {
    assert_eq!(calculate_neighbors(3, 3, 0), vec![1, 3, 4]);
    assert_eq!(calculate_neighbors(3, 3, 4), vec![0, 1, 2, 3, 5, 6, 7, 8]);
    assert_eq!(calculate_neighbors(3, 3, 7), vec![3, 4, 5, 6, 8]);
    assert_eq!(calculate_neighbors(1, 1, 0), Vec::<usize>::new());
    assert_eq!(calculate_neighbors(4, 2, 3), vec![2, 6, 7]);
}

#[test]
fn row_and_column_conversion() {
    assert_eq!(get_row_col_from_index(4, 6), (1, 2));
    assert_eq!(get_index_from_row_col(4, 3, 1, 2), Some(6));
    assert_eq!(get_index_from_row_col(4, 3, -1, 2), None);
    assert_eq!(get_index_from_row_col(4, 3, 3, 0), None);
    assert_eq!(get_index_from_row_col(4, 3, 0, 4), None);
}

#[test]
fn board_from_mines_counts_neighbors() {
    let b = Board::from_mines(3, 3, &mask(9, &[8]));
    let values: Vec<Value> = b.cells().iter().map(|c| c.value).collect();
    assert_eq!(
        values,
        vec![
            Value::Zero,
            Value::Zero,
            Value::Zero,
            Value::Zero,
            Value::One,
            Value::One,
            Value::Zero,
            Value::One,
            Value::Mine
        ]
    );
    assert_eq!(b.mine_indices(), &vec![8]);
    assert!(b.cells().iter().all(|c| c.display == DisplayState::Default));
}

#[test]
fn board_new_empty_has_no_mines() {
    let b = Board::new_empty(4, 3);
    assert_eq!(b.cells().len(), 12);
    assert!(b.mine_indices().is_empty());
    assert!(b.cells().iter().all(|c| *c == Cell::new_empty()));
}

#[test]
fn first_click_eligibility() {
    let nb = calculate_neighbors(3, 3, 0);
    let none = vec![false; 9];
    assert!(index_can_be_mine(3, 3, FirstClickSetting::Any, 0, 0, &none, &nb));
    assert!(!index_can_be_mine(3, 3, FirstClickSetting::Safe, 0, 0, &none, &nb));
    assert!(index_can_be_mine(3, 3, FirstClickSetting::Safe, 0, 4, &none, &nb));
    assert!(!index_can_be_mine(3, 3, FirstClickSetting::Zero, 0, 4, &none, &nb));
    assert!(index_can_be_mine(3, 3, FirstClickSetting::Zero, 0, 8, &none, &nb));
    assert!(!index_can_be_mine(3, 3, FirstClickSetting::Any, 0, 8, &mask(9, &[8]), &nb));
    assert!(list_contains(&nb, 3));
    assert!(!list_contains(&nb, 2));
}

#[test]
fn room_for_mines_under_each_setting() {
    assert!(has_room_for_mines(3, 3, 8, FirstClickSetting::Safe));
    assert!(!has_room_for_mines(3, 3, 9, FirstClickSetting::Safe));
    assert!(has_room_for_mines(3, 3, 9, FirstClickSetting::Any));
    assert!(!has_room_for_mines(3, 3, 1, FirstClickSetting::Zero));
    assert!(has_room_for_mines(4, 4, 7, FirstClickSetting::Zero));
    assert!(!has_room_for_mines(4, 4, 8, FirstClickSetting::Zero));
}

#[test]
fn generated_boards_have_the_configured_distinct_mines() {
    for seed in 0..20u64 {
        let mut rng = StdRng::seed_from_u64(seed);
        let b = Board::generate(9, 9, 10, FirstClickSetting::Safe, 40, &mut rng);
        let mines = b.mine_indices().clone();
        assert_eq!(mines.len(), 10);
        assert!(mines.windows(2).all(|w| w[0] < w[1]));
        assert!(mines.iter().all(|&m| m < 81 && m != 40));
        for i in 0..81 {
            let c = b.cells()[i];
            assert_eq!(c.is_mine(), mines.contains(&i));
            if !c.is_mine() {
                assert_eq!(c, Cell::new(Some(neighbor_mine_count(&b, i))));
            }
        }
    }
}

#[test]
fn generation_depends_on_the_seed_alone() {
    let mut a = StdRng::seed_from_u64(7);
    let mut b = StdRng::seed_from_u64(7);
    let x = Board::generate(16, 16, 40, FirstClickSetting::Zero, 0, &mut a);
    let y = Board::generate(16, 16, 40, FirstClickSetting::Zero, 0, &mut b);
    assert_eq!(x.mine_indices(), y.mine_indices());
}

#[test]
fn zero_first_click_leaves_first_region_clear() {
    for seed in 0..30u64 {
        let mut rng = StdRng::seed_from_u64(seed);
        let b = Board::generate(3, 3, 1, FirstClickSetting::Zero, 0, &mut rng);
        let mine = b.mine_indices()[0];
        assert!(![0, 1, 3, 4].contains(&mine));
        assert_eq!(b.cells()[0].value, Value::Zero);
    }
    for seed in 0..10u64 {
        let mut rng = StdRng::seed_from_u64(seed);
        let b = Board::generate(9, 9, 10, FirstClickSetting::Zero, 40, &mut rng);
        assert_eq!(b.cells()[40].value, Value::Zero);
        assert!(b.neighbors_of(40).iter().all(|&k| !b.cells()[k].is_mine()));
    }
}

#[test]
fn any_first_click_may_fill_every_cell() {
    let mut rng = StdRng::seed_from_u64(3);
    let b = Board::generate(2, 2, 4, FirstClickSetting::Any, 0, &mut rng);
    assert_eq!(b.mine_indices(), &vec![0, 1, 2, 3]);
}

#[test]
fn flood_reveal_opens_the_connected_region() {
    // Mines down the middle column split a 5x3 board in two.
    let mut b = Board::from_mines(5, 3, &mask(15, &[2, 7, 12]));
    let newly = b.flood_reveal(0);
    assert_eq!(newly, 6);
    let shown: Vec<usize> = (0..15).filter(|&i| b.cells()[i].is_shown()).collect();
    assert_eq!(shown, vec![0, 1, 5, 6, 10, 11]);
    assert!(b.cells().iter().all(|c| !(c.is_mine() && c.is_shown())));
    assert_eq!(b.flood_reveal(0), 0);
}

#[test]
fn flood_reveal_stops_at_flags_and_numbers() {
    let mut b = Board::from_mines(3, 3, &mask(9, &[8]));
    b.cycle_cell(2, false);
    assert!(b.cells()[2].is_flagged());
    let newly = b.flood_reveal(0);
    assert_eq!(newly, 7);
    assert!(b.cells()[2].is_flagged());
    assert!(!b.cells()[8].is_shown());
    let mut c = Board::from_mines(3, 3, &mask(9, &[8]));
    assert_eq!(c.flood_reveal(4), 1);
    assert!(c.cells()[4].is_shown());
    assert!(!c.cells()[0].is_shown());
}

#[test]
fn mines_shown_and_flagged() {
    let mut b = Board::from_mines(3, 3, &mask(9, &[0, 8]));
    b.cycle_cell(0, false);
    b.reveal_mines();
    assert!(b.cells()[0].is_flagged());
    assert!(b.cells()[8].is_shown());
    assert_eq!(b.count_flagged(), 1);
    let mut c = Board::from_mines(3, 3, &mask(9, &[0, 8]));
    c.flag_all_mines();
    assert_eq!(c.count_flagged(), 2);
    assert!(c.cells()[0].is_flagged() && c.cells()[8].is_flagged());
}

#[test]
fn neighbor_counts_of_mines_and_flags() {
    let mut b = Board::from_mines(3, 3, &mask(9, &[0, 8]));
    b.cycle_cell(1, true);
    b.cycle_cell(0, true);
    assert_eq!(b.neighbor_counts(4), (2, 2));
    b.cycle_cell(1, true);
    assert_eq!(b.neighbor_counts(4), (2, 1));
}

#[test]
fn three_by_three_first_click_in_corner_under_zero() {
    for seed in 0..50u64 {
        let mut rng = StdRng::seed_from_u64(seed);
        let b = Board::generate(3, 3, 1, FirstClickSetting::Zero, 0, &mut rng);
        assert_eq!(b.mine_indices().len(), 1);
        assert!([2, 5, 6, 7, 8].contains(&b.mine_indices()[0]));
    }
}
