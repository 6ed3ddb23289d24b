use minesweeper::board::{BoardState, SECONDARY_BUTTON};
use minesweeper::cell::{Cell, CellStatus, GameStatus};
use minesweeper::params::{BoardError, BoardParams};
use minesweeper::timer::Timer;

/// Deals the board drawn in `rows`, where `*` is a mine.
fn board(rows: &[&str]) -> BoardState {
    let height = rows.len();
    let width = rows[0].len();
    let layout: Vec<bool> = rows.iter().flat_map(|r| r.chars().map(|c| c == '*')).collect();
    let mines = layout.iter().filter(|m| **m).count();
    let keys: Vec<u128> = (0..(height * width) as u128).collect();
    BoardState::assemble(BoardParams { height, width, mines }, layout, keys).unwrap()
}

/// The board as the player sees it: `#` covered, `F` flagged, `*` a
/// revealed mine, a digit for a revealed hint.
fn seen(board: &BoardState) -> Vec<String> {
    let width = board.params().width;
    board
        .cells()
        .chunks(width)
        .map(|row| {
            row.iter()
                .map(|cell| match cell {
                    Cell::Mine { cell_status: CellStatus::Revealed, .. } => '*',
                    Cell::Empty { cell_status: CellStatus::Revealed, mines, .. } => {
                        char::from_digit(*mines, 10).unwrap()
                    }
                    c if c.get_status() == CellStatus::Flagged => 'F',
                    _ => '#',
                })
                .collect()
        })
        .collect()
}

#[test]
fn revealing_a_mine_loses_the_game() {
    let mut b = board(&["*..", "...", "..*"]);
    assert_eq!(b.cell_click(0), Ok(()));
    assert_eq!(b.game_status(), GameStatus::Lost);
    assert_eq!(seen(&b), vec!["*##", "###", "###"]);
    let after = b.cells().clone();
    for index in 0..9 {
        assert_eq!(b.cell_click(index), Ok(()));
        assert_eq!(b.cells(), &after);
        assert_eq!(b.game_status(), GameStatus::Lost);
    }
}

#[test]
fn revealing_a_numbered_cell_reveals_it_alone() {
    let mut b = board(&["*..", "...", "..*"]);
    b.cell_click(1).unwrap();
    assert_eq!(seen(&b), vec!["#1#", "###", "###"]);
    assert_eq!(b.game_status(), GameStatus::InProgress);
    b.cell_click(4).unwrap();
    assert_eq!(seen(&b), vec!["#1#", "#2#", "###"]);
    assert_eq!(b.game_status(), GameStatus::InProgress);
}

#[test]
fn revealing_a_blank_cell_cascades() {
    let mut b = board(&["*....", ".....", ".....", "....*"]);
    b.cell_click(4).unwrap();
    assert_eq!(seen(&b), vec!["#1000", "11000", "00011", "0001#"]);
    assert_eq!(b.game_status(), GameStatus::Won);
}

#[test]
fn a_cascade_stops_at_the_numbered_border() {
    let mut b = board(&[".....", ".....", "*****", ".....", "....."]);
    b.cell_click(0).unwrap();
    assert_eq!(seen(&b), vec!["00000", "23332", "#####", "#####", "#####"]);
    assert_eq!(b.game_status(), GameStatus::InProgress);
    b.cell_click(24).unwrap();
    assert_eq!(seen(&b), vec!["00000", "23332", "#####", "23332", "00000"]);
    assert_eq!(b.game_status(), GameStatus::Won);
    assert!(b.cells().iter().filter(|c| c.is_mine()).all(|c| c.get_status() == CellStatus::Hidden));
}

#[test]
fn a_cascade_passes_diagonally_and_not_across_numbers() {
    let mut b = board(&["..*..", ".....", "*...."]);
    b.cell_click(0).unwrap();
    assert_eq!(seen(&b), vec!["01###", "12###", "#####"]);
    b.cell_click(14).unwrap();
    assert_eq!(seen(&b), vec!["01#10", "12110", "#1000"]);
    assert_eq!(b.game_status(), GameStatus::Won);
}

#[test]
fn a_cascade_goes_around_flags() {
    let mut b = board(&["......", "......", "......", ".....*"]);
    for index in [2, 8, 14, 20] {
        b.cell_aux_click(index, SECONDARY_BUTTON).unwrap();
    }
    b.cell_click(0).unwrap();
    assert_eq!(seen(&b), vec!["00F###", "00F###", "00F###", "00F###"]);
    assert_eq!(b.flag_count(), 4);
    // every safe cell that is left is covered by a flag or still hidden
    assert_eq!(b.game_status(), GameStatus::InProgress);
    b.cell_aux_click(8, SECONDARY_BUTTON).unwrap();
    b.cell_click(8).unwrap();
    assert_eq!(seen(&b), vec!["00F000", "000000", "00F011", "00F01#"]);
    assert_eq!(b.game_status(), GameStatus::Won);
}

#[test]
fn a_board_without_mines_is_cleared_by_one_reveal() {
    let mut b = board(&["....", "....", "...."]);
    b.cell_click(5).unwrap();
    assert_eq!(seen(&b), vec!["0000", "0000", "0000"]);
    assert_eq!(b.game_status(), GameStatus::Won);
    let mut single = board(&["."]);
    single.cell_click(0).unwrap();
    assert_eq!(seen(&single), vec!["0"]);
    assert_eq!(single.game_status(), GameStatus::Won);
}

#[test]
fn a_large_blank_board_is_cleared() {
    let p = BoardParams { height: 300, width: 300, mines: 0 };
    let mut b = BoardState::new(p).unwrap();
    b.cell_click(45_150).unwrap();
    assert!(b.cells().iter().all(|c| c.get_status() == CellStatus::Revealed));
    assert_eq!(b.game_status(), GameStatus::Won);
}

#[test]
fn a_flag_protects_a_cell_from_a_reveal() {
    let mut b = board(&["*.", ".."]);
    b.cell_aux_click(0, SECONDARY_BUTTON).unwrap();
    b.cell_aux_click(1, SECONDARY_BUTTON).unwrap();
    b.cell_click(0).unwrap();
    b.cell_click(1).unwrap();
    assert_eq!(seen(&b), vec!["FF", "##"]);
    assert_eq!(b.game_status(), GameStatus::InProgress);
}

#[test]
fn a_revealed_cell_stays_as_it_is() {
    let mut b = board(&["*..", "...", "..."]);
    b.cell_click(1).unwrap();
    let cells = b.cells().clone();
    b.cell_click(1).unwrap();
    assert_eq!(b.cells(), &cells);
    assert_eq!(b.cell_aux_click(1, SECONDARY_BUTTON), Ok(()));
    assert_eq!(b.cells(), &cells);
    assert_eq!(b.flag_count(), 0);
}

#[test]
fn the_game_is_won_when_the_last_safe_cell_is_revealed() {
    let mut b = board(&["*.", ".*"]);
    assert!(!b.game_won());
    b.cell_click(1).unwrap();
    assert!(!b.game_won());
    assert_eq!(b.game_status(), GameStatus::InProgress);
    b.cell_click(2).unwrap();
    assert!(b.game_won());
    assert_eq!(b.game_status(), GameStatus::Won);
    assert_eq!(seen(&b), vec!["#2", "2#"]);
    let cells = b.cells().clone();
    b.cell_click(0).unwrap();
    assert_eq!(b.cells(), &cells);
    assert_eq!(b.game_status(), GameStatus::Won);
}

#[test]
fn mines_may_be_flagged_at_a_win() {
    let mut b = board(&["*.", ".."]);
    b.cell_aux_click(0, SECONDARY_BUTTON).unwrap();
    b.cell_click(1).unwrap();
    b.cell_click(2).unwrap();
    assert_eq!(b.game_status(), GameStatus::InProgress);
    b.cell_click(3).unwrap();
    assert_eq!(b.game_status(), GameStatus::Won);
    assert_eq!(seen(&b), vec!["F1", "11"]);
}

#[test]
fn a_loss_is_not_turned_into_a_win() {
    // the only safe cell is under a flag, so no safe cell is covered
    let mut b = board(&["*."]);
    b.cell_aux_click(1, SECONDARY_BUTTON).unwrap();
    assert!(b.game_won());
    b.cell_click(0).unwrap();
    assert_eq!(b.game_status(), GameStatus::Lost);
    b.cell_click(1).unwrap();
    assert_eq!(b.game_status(), GameStatus::Lost);
    assert_eq!(seen(&b), vec!["*F"]);
}

#[test]
fn a_flag_on_the_last_safe_cell_counts_at_the_next_reveal() {
    let mut b = board(&["*.."]);
    b.cell_click(1).unwrap();
    assert_eq!(b.game_status(), GameStatus::InProgress);
    b.cell_aux_click(2, SECONDARY_BUTTON).unwrap();
    assert_eq!(b.game_status(), GameStatus::InProgress);
    b.cell_click(1).unwrap();
    assert_eq!(b.game_status(), GameStatus::Won);
    assert_eq!(seen(&b), vec!["#1F"]);
}

#[test]
fn an_index_outside_the_grid_is_turned_down() {
    let mut b = board(&["*..", "..."]);
    b.cell_click(1).unwrap();
    b.cell_aux_click(0, SECONDARY_BUTTON).unwrap();
    let cells = b.cells().clone();
    assert_eq!(b.cell_click(6), Err(BoardError::OutOfBounds));
    assert_eq!(b.cell_click(usize::MAX), Err(BoardError::OutOfBounds));
    assert_eq!(b.cell_aux_click(6, SECONDARY_BUTTON), Err(BoardError::OutOfBounds));
    assert_eq!(b.cell_aux_click(7, 0), Err(BoardError::OutOfBounds));
    assert_eq!(b.cells(), &cells);
    assert_eq!(b.flag_count(), 1);
    assert_eq!(b.game_status(), GameStatus::InProgress);
    assert_eq!(b.cell(6), None);
    assert_eq!(b.cell(5), Some(cells[5]));
}

#[test]
fn toggling_a_flag_twice_gives_the_cell_back() {
    let mut b = board(&["*..", "...", "..."]);
    let before = b.cells().clone();
    b.cell_aux_click(4, SECONDARY_BUTTON).unwrap();
    assert_eq!(b.cells()[4].get_status(), CellStatus::Flagged);
    assert_eq!(b.flag_count(), 1);
    b.cell_aux_click(4, SECONDARY_BUTTON).unwrap();
    assert_eq!(b.cells(), &before);
    assert_eq!(b.flag_count(), 0);
    b.cell_aux_click(0, SECONDARY_BUTTON).unwrap();
    b.cell_aux_click(0, SECONDARY_BUTTON).unwrap();
    b.cell_aux_click(0, SECONDARY_BUTTON).unwrap();
    assert_eq!(b.cells()[0].get_status(), CellStatus::Flagged);
    assert_eq!(b.flag_count(), 1);
}

#[test]
fn only_the_secondary_button_sets_flags() {
    let mut b = board(&["*..", "...", "..."]);
    let before = b.cells().clone();
    for button in [0, 1, 3, 4, -1, i16::MAX, i16::MIN] {
        assert_eq!(b.cell_aux_click(3, button), Ok(()));
        assert_eq!(b.cells(), &before);
        assert_eq!(b.flag_count(), 0);
    }
    assert_eq!(SECONDARY_BUTTON, 2);
    assert_eq!(b.cell_aux_click(3, 2), Ok(()));
    assert_eq!(b.cells()[3].get_status(), CellStatus::Flagged);
}

#[test]
fn flags_can_be_moved_after_the_game_is_over() {
    let mut b = board(&["*..", "...", "..."]);
    b.cell_click(0).unwrap();
    assert_eq!(b.game_status(), GameStatus::Lost);
    b.cell_aux_click(5, SECONDARY_BUTTON).unwrap();
    assert_eq!(b.cells()[5].get_status(), CellStatus::Flagged);
    assert_eq!(b.flag_count(), 1);
    assert_eq!(b.game_status(), GameStatus::Lost);
}

#[test]
fn mines_remaining_is_mines_less_flags() {
    let mut b = board(&["*.", ".*"]);
    assert_eq!(b.mines_remaining(), 2);
    b.cell_aux_click(0, SECONDARY_BUTTON).unwrap();
    assert_eq!(b.mines_remaining(), 1);
    b.cell_aux_click(1, SECONDARY_BUTTON).unwrap();
    b.cell_aux_click(2, SECONDARY_BUTTON).unwrap();
    assert_eq!(b.flag_count(), 3);
    assert_eq!(b.mines_remaining(), -1);
    b.cell_aux_click(1, SECONDARY_BUTTON).unwrap();
    assert_eq!(b.mines_remaining(), 0);
}

#[test]
fn play_changes_only_the_status_of_a_cell() {
    let mut b = board(&["*....", ".....", "....*"]);
    let before = b.cells().clone();
    b.cell_aux_click(0, SECONDARY_BUTTON).unwrap();
    b.cell_click(2).unwrap();
    b.cell_click(14).unwrap();
    for (old, new) in before.iter().zip(b.cells().iter()) {
        assert_eq!(old.new_status(CellStatus::Hidden), new.new_status(CellStatus::Hidden));
        assert_eq!(old.get_id(), new.get_id());
        assert_eq!(old.is_mine(), new.is_mine());
    }
    assert_eq!(b.params(), BoardParams { height: 3, width: 5, mines: 2 });
}

#[test]
fn new_status_keeps_the_rest_of_the_cell() {
    let mine = Cell::Mine { cell_status: CellStatus::Hidden, id: 3, uuid: 9 };
    assert_eq!(
        mine.new_status(CellStatus::Flagged),
        Cell::Mine { cell_status: CellStatus::Flagged, id: 3, uuid: 9 }
    );
    let safe = Cell::Empty { cell_status: CellStatus::Flagged, mines: 5, id: 8, uuid: 1 };
    assert_eq!(
        safe.new_status(CellStatus::Revealed),
        Cell::Empty { cell_status: CellStatus::Revealed, mines: 5, id: 8, uuid: 1 }
    );
    assert_eq!(safe.get_id(), 8);
    assert_eq!(mine.get_id(), 3);
    assert_eq!(safe.get_status(), CellStatus::Flagged);
    assert!(mine.is_mine());
    assert!(!safe.is_mine());
}

#[test]
fn the_timer_counts_while_the_game_is_in_progress() {
    let mut timer = Timer::new();
    assert_eq!(timer.elapsed(), 0);
    timer.tick(GameStatus::InProgress);
    timer.tick(GameStatus::InProgress);
    assert_eq!(timer.elapsed(), 2);
    timer.tick(GameStatus::Won);
    timer.tick(GameStatus::Lost);
    assert_eq!(timer.elapsed(), 2);
    timer.tick(GameStatus::InProgress);
    assert_eq!(timer.elapsed(), 3);
    timer.restart();
    assert_eq!(timer.elapsed(), 0);
}
