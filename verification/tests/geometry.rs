use minesweeper::board::BoardState;
use minesweeper::grid::Coordinate;
use minesweeper::params::BoardParams;

fn empty_board(height: usize, width: usize) -> BoardState {
    let p = BoardParams { height, width, mines: 0 };
    BoardState::assemble(p, vec![false; height * width], vec![0; height * width]).unwrap()
}

#[test]
fn index_is_row_times_width_plus_column() {
    let board = empty_board(2, 5);
    assert_eq!(board.get_coord_index(&Coordinate(0, 0)), 0);
    assert_eq!(board.get_coord_index(&Coordinate(4, 0)), 4);
    assert_eq!(board.get_coord_index(&Coordinate(0, 1)), 5);
    assert_eq!(board.get_coord_index(&Coordinate(3, 1)), 8);
    assert_eq!(board.get_coord_index(&Coordinate(4, 1)), 9);
    let tall = empty_board(5, 2);
    assert_eq!(tall.get_coord_index(&Coordinate(1, 0)), 1);
    assert_eq!(tall.get_coord_index(&Coordinate(0, 1)), 2);
    assert_eq!(tall.get_coord_index(&Coordinate(1, 4)), 9);
}

#[test]
fn coordinate_is_remainder_and_quotient_by_width() {
    let board = empty_board(2, 5);
    assert_eq!(board.get_coord_from_index(0), Coordinate(0, 0));
    assert_eq!(board.get_coord_from_index(4), Coordinate(4, 0));
    assert_eq!(board.get_coord_from_index(5), Coordinate(0, 1));
    assert_eq!(board.get_coord_from_index(8), Coordinate(3, 1));
    let tall = empty_board(5, 2);
    assert_eq!(tall.get_coord_from_index(9), Coordinate(1, 4));
    assert_eq!(tall.get_coord_from_index(3), Coordinate(1, 1));
}

#[test]
fn coordinates_and_indices_correspond_one_to_one() {
    for (height, width) in [(1, 1), (1, 6), (6, 1), (3, 7), (7, 3), (5, 5)] {
        let board = empty_board(height, width);
        let mut seen = vec![false; height * width];
        for y in 0..height {
            for x in 0..width {
                let index = board.get_coord_index(&Coordinate(x, y));
                assert!(index < height * width);
                assert!(!seen[index]);
                seen[index] = true;
                assert_eq!(board.get_coord_from_index(index), Coordinate(x, y));
            }
        }
        assert!(seen.iter().all(|s| *s));
        for index in 0..height * width {
            let c = board.get_coord_from_index(index);
            assert!(c.0 < width && c.1 < height);
            assert_eq!(board.get_coord_index(&c), index);
        }
    }
}

#[test]
fn a_corner_has_three_neighbours() {
    let board = empty_board(3, 4);
    assert_eq!(board.get_adjacent(0), vec![(1, 0), (0, 1), (1, 1)]);
    assert_eq!(board.get_adjacent(3), vec![(2, 0), (2, 1), (3, 1)]);
    assert_eq!(board.get_adjacent(8), vec![(0, 1), (1, 1), (1, 2)]);
    assert_eq!(board.get_adjacent(11), vec![(2, 1), (3, 1), (2, 2)]);
}

#[test]
fn an_edge_cell_has_five_neighbours() {
    let board = empty_board(3, 4);
    assert_eq!(board.get_adjacent(1), vec![(0, 0), (2, 0), (0, 1), (1, 1), (2, 1)]);
    assert_eq!(board.get_adjacent(4), vec![(0, 0), (1, 0), (1, 1), (0, 2), (1, 2)]);
    assert_eq!(board.get_adjacent(7), vec![(2, 0), (3, 0), (2, 1), (2, 2), (3, 2)]);
    assert_eq!(board.get_adjacent(10), vec![(1, 1), (2, 1), (3, 1), (1, 2), (3, 2)]);
}

#[test]
fn an_inner_cell_has_eight_neighbours() {
    let board = empty_board(3, 4);
    assert_eq!(
        board.get_adjacent(5),
        vec![(0, 0), (1, 0), (2, 0), (0, 1), (2, 1), (0, 2), (1, 2), (2, 2)]
    );
    assert_eq!(
        board.get_adjacent(6),
        vec![(1, 0), (2, 0), (3, 0), (1, 1), (3, 1), (1, 2), (2, 2), (3, 2)]
    );
}

#[test]
fn narrow_grids_have_few_neighbours() {
    let single = empty_board(1, 1);
    assert_eq!(single.get_adjacent(0), Vec::<(usize, usize)>::new());
    let row = empty_board(1, 3);
    assert_eq!(row.get_adjacent(0), vec![(1, 0)]);
    assert_eq!(row.get_adjacent(1), vec![(0, 0), (2, 0)]);
    let column = empty_board(3, 1);
    assert_eq!(column.get_adjacent(1), vec![(0, 0), (0, 2)]);
    assert_eq!(column.get_adjacent(2), vec![(0, 1)]);
}

#[test]
fn no_cell_is_its_own_neighbour() {
    let board = empty_board(4, 4);
    for index in 0..16 {
        let Coordinate(x, y) = board.get_coord_from_index(index);
        let around = board.get_adjacent(index);
        assert!(!around.contains(&(x, y)));
        for (nx, ny) in around {
            assert!(nx < 4 && ny < 4);
            assert!(nx.abs_diff(x) <= 1 && ny.abs_diff(y) <= 1);
        }
    }
}

#[test]
fn adjacent_bombs_counts_the_mines_around() {
    // * * .
    // . . .
    // . . *
    let layout = vec![true, true, false, false, false, false, false, false, true];
    let p = BoardParams { height: 3, width: 3, mines: 3 };
    let board = BoardState::assemble(p, layout, vec![0; 9]).unwrap();
    let counts: Vec<u32> = (0..9).map(|i| board.get_adjacent_bombs(i)).collect();
    assert_eq!(counts, vec![1, 1, 1, 2, 3, 2, 0, 1, 0]);
}
