use tetris::blockcolor::BlockColor;
use tetris::board::{Board, Cell, CellStatus, HEIGHT, WIDTH};

fn frozen() -> Cell {
    Cell { color: None, status: CellStatus::Frozen }
}

fn no_row_complete(board: &Board) -> bool {
    (0..HEIGHT).all(|y| (0..WIDTH).any(|x| board.data[y][x].status == CellStatus::Empty))
}

#[test]
fn test_update() {
    let mut board = Board::new();

    let test_cell: Cell = Cell { color: None, status: CellStatus::Frozen };

    // fills the bottom row
    for x in 0..WIDTH {
        board.data[HEIGHT - 1][x] = test_cell.clone();
    }

    // block above the completed line to fall into place
    board.data[HEIGHT - 2][1] = test_cell.clone();

    let mut score = 0;
    board.update(&mut score);

    for x in 0..WIDTH {
        if x == 1 {
            assert_eq!(board.data[HEIGHT - 1][x].status, CellStatus::Frozen);
        } else {
            assert_eq!(board.data[HEIGHT - 1][x].status, CellStatus::Empty);
        }
    }
    // check if the block fell down and was removed from the original place
    assert_eq!(board.data[HEIGHT - 2][1].status, CellStatus::Empty);

    // check that the score increased when 1 row was completed
    assert_eq!(score, 1);
}

#[test]
fn test_update_multiple_rows() {
    let mut board = Board::new();

    let test_cell: Cell = Cell { color: None, status: CellStatus::Frozen };

    // fills the bottom rows
    for x in 0..WIDTH {
        board.data[HEIGHT - 1][x] = test_cell.clone();
    }
    for x in 0..WIDTH {
        board.data[HEIGHT - 2][x] = test_cell.clone();
    }

    // block above the completed line to fall into place
    board.data[HEIGHT - 3][1] = test_cell.clone();
    board.data[HEIGHT - 4][1] = test_cell.clone();

    let mut score = 0;
    board.update(&mut score);

    for x in 0..WIDTH {
        if x == 1 {
            assert_eq!(board.data[HEIGHT - 1][x].status, CellStatus::Frozen);
        } else {
            assert_eq!(board.data[HEIGHT - 1][x].status, CellStatus::Empty);
        }
    }

    // check if the 2nd row is empty
    for x in 0..WIDTH {
        if x == 1 {
            assert_eq!(board.data[HEIGHT - 1][x].status, CellStatus::Frozen);
        } else {
            assert_eq!(board.data[HEIGHT - 1][x].status, CellStatus::Empty);
        }
    }
    // check if the block fell down and was removed from the original place
    assert_eq!(board.data[HEIGHT - 3][1].status, CellStatus::Empty);
    assert_eq!(board.data[HEIGHT - 4][1].status, CellStatus::Empty);

    // check that the score increased by 2 when 2 row was completed
    assert_eq!(score, 2);
}

#[test]
fn new_board_is_empty() {
    let board = Board::new();
    assert_eq!(board.data.len(), HEIGHT);
    for row in &board.data {
        assert_eq!(row.len(), WIDTH);
        for cell in row {
            assert_eq!(*cell, Cell { color: None, status: CellStatus::Empty });
        }
    }
    assert!(board.filled_cells().is_empty());
}

#[test]
fn update_without_complete_row_changes_nothing() {
    let mut board = Board::new();
    for x in 0..WIDTH {
        if x != 3 {
            board.data[HEIGHT - 1][x] = frozen();
        }
    }
    board.data[HEIGHT - 2][3] = frozen();
    let before = board.data.clone();
    let mut score = 7;
    board.update(&mut score);
    assert_eq!(board.data, before);
    assert_eq!(score, 7);
}

#[test]
fn single_cell_above_full_row_falls_into_it() {
    let mut board = Board::new();
    for x in 0..WIDTH {
        board.data[HEIGHT - 1][x] = frozen();
    }
    board.data[HEIGHT - 2][3] = frozen();
    let mut score = 0;
    board.update(&mut score);
    for x in 0..WIDTH {
        let expected = if x == 3 { CellStatus::Frozen } else { CellStatus::Empty };
        assert_eq!(board.data[HEIGHT - 1][x].status, expected);
        assert_eq!(board.data[HEIGHT - 2][x].status, CellStatus::Empty);
    }
    assert_eq!(score, 1);
}

#[test]
fn two_separate_full_rows_score_two() {
    let mut board = Board::new();
    for x in 0..WIDTH {
        board.data[HEIGHT - 1][x] = frozen();
        board.data[HEIGHT - 3][x] = frozen();
    }
    board.data[HEIGHT - 2][0] = frozen();
    board.data[HEIGHT - 4][9] = frozen();
    let mut score = 10;
    board.update(&mut score);
    assert_eq!(score, 12);
    // What was between and above the full rows fell by one row per removal.
    assert_eq!(board.data[HEIGHT - 1][0].status, CellStatus::Frozen);
    assert_eq!(board.data[HEIGHT - 2][9].status, CellStatus::Frozen);
    let occupied: usize =
        board.data.iter().map(|r| r.iter().filter(|c| c.status != CellStatus::Empty).count()).sum();
    assert_eq!(occupied, 2);
    assert!(no_row_complete(&board));
}

#[test]
fn frozen_cells_shift_down_one_row() {
    let mut board = Board::new();
    for x in 0..WIDTH {
        board.data[10][x] = frozen();
    }
    board.data[9][0] = Cell { color: Some(BlockColor::Red), status: CellStatus::Frozen };
    board.data[9][5] = Cell { color: Some(BlockColor::Blue), status: CellStatus::Frozen };
    board.data[7][5] = Cell { color: Some(BlockColor::Green), status: CellStatus::Frozen };
    let mut score = 0;
    board.update(&mut score);
    assert_eq!(score, 1);
    assert_eq!(board.data[10][0], Cell { color: Some(BlockColor::Red), status: CellStatus::Frozen });
    assert_eq!(board.data[10][5], Cell { color: Some(BlockColor::Blue), status: CellStatus::Frozen });
    assert_eq!(board.data[9][0].status, CellStatus::Empty);
    assert_eq!(board.data[9][5].status, CellStatus::Empty);
    assert_eq!(board.data[8][5], Cell { color: Some(BlockColor::Green), status: CellStatus::Frozen });
    assert_eq!(board.data[7][5].status, CellStatus::Empty);
    // Rows below the cleared one are untouched.
    for y in 11..HEIGHT {
        for x in 0..WIDTH {
            assert_eq!(board.data[y][x].status, CellStatus::Empty);
        }
    }
}

#[test]
fn cascade_of_full_rows_leaves_none() {
    let mut board = Board::new();
    for y in (HEIGHT - 5)..HEIGHT {
        for x in 0..WIDTH {
            board.data[y][x] = frozen();
        }
    }
    let mut score = 0;
    board.update(&mut score);
    assert_eq!(score, 5);
    assert!(no_row_complete(&board));
    assert!(board.filled_cells().is_empty());
}

#[test]
fn full_board_clears_entirely() {
    let mut board = Board::new();
    for y in 0..HEIGHT {
        for x in 0..WIDTH {
            board.data[y][x] = frozen();
        }
    }
    let mut score = 0;
    board.update(&mut score);
    assert_eq!(score, HEIGHT as u32);
    assert!(no_row_complete(&board));
}

#[test]
fn score_saturates_at_max() {
    let mut board = Board::new();
    for x in 0..WIDTH {
        board.data[HEIGHT - 1][x] = frozen();
        board.data[HEIGHT - 2][x] = frozen();
    }
    let mut score = u32::MAX - 1;
    board.update(&mut score);
    assert_eq!(score, u32::MAX);
}

#[test]
fn filled_cells_lists_occupied_cells_in_row_order() {
    let mut board = Board::new();
    board.data[2][7] = Cell { color: Some(BlockColor::Cyan), status: CellStatus::Moving };
    board.data[0][1] = frozen();
    board.data[2][3] = Cell { color: Some(BlockColor::Pink), status: CellStatus::Frozen };
    board.data[5][5] = Cell { color: Some(BlockColor::Pink), status: CellStatus::Empty };
    assert_eq!(
        board.filled_cells(),
        vec![(1, 0, None), (3, 2, Some(BlockColor::Pink)), (7, 2, Some(BlockColor::Cyan))]
    );
}

#[test]
fn set_and_read_a_cell() {
    let mut board = Board::new();
    let cell = Cell { color: Some(BlockColor::Orange), status: CellStatus::Moving };
    board.set_cell(4, 9, cell);
    assert_eq!(board.cell_at(4, 9), cell);
    assert_eq!(board.cell_at(9, 4).status, CellStatus::Empty);
}
