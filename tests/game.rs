use tetris::audio::SoundEffect;
use tetris::block::BlockStatus;
use tetris::board::{Cell, CellStatus, HEIGHT, WIDTH};
use tetris::game::{Command, Game, MOVING_PERIOD, SPAWN_COLUMN, SPAWN_ROW};
use tetris::gamestate::GameStatus;

fn moving_cells(game: &Game) -> usize {
    game.board.data.iter().map(|r| r.iter().filter(|c| c.status == CellStatus::Moving).count()).sum()
}

#[test]
fn new_game_waits_to_start() {
    let game = Game::new();
    assert_eq!(game.status(), GameStatus::Startup);
    assert_eq!(game.score(), 0);
    assert_eq!(game.block.position, (SPAWN_ROW, SPAWN_COLUMN));
    assert_eq!(game.block.status, BlockStatus::Moving);
    assert_eq!(moving_cells(&game), 4);
}

#[test]
fn start_pause_resume() {
    let mut game = Game::new();
    assert_eq!(game.input(Command::Left), None);
    assert_eq!(game.block.position, (SPAWN_ROW, SPAWN_COLUMN));
    assert_eq!(game.input(Command::Start), Some(SoundEffect::Menu));
    assert_eq!(game.status(), GameStatus::Playing);
    assert_eq!(game.input(Command::Start), None);
    assert_eq!(game.input(Command::Pause), Some(SoundEffect::Menu));
    assert_eq!(game.status(), GameStatus::Paused);
    assert_eq!(game.input(Command::Down), None);
    assert_eq!(game.input(Command::Pause), Some(SoundEffect::Menu));
    assert_eq!(game.status(), GameStatus::Playing);
}

#[test]
fn movement_commands_move_the_piece() {
    let mut game = Game::new();
    game.input(Command::Start);
    assert_eq!(game.input(Command::Left), Some(SoundEffect::Move));
    assert_eq!(game.block.position, (SPAWN_ROW, SPAWN_COLUMN - 1));
    assert_eq!(game.input(Command::Right), Some(SoundEffect::Move));
    assert_eq!(game.block.position, (SPAWN_ROW, SPAWN_COLUMN));
    assert_eq!(game.input(Command::Down), Some(SoundEffect::Move));
    assert_eq!(game.block.position, (SPAWN_ROW + 1, SPAWN_COLUMN));
    assert_eq!(game.input(Command::Rotate), Some(SoundEffect::Rotate));
    assert_eq!(moving_cells(&game), 4);
}

#[test]
fn time_makes_the_piece_fall() {
    let mut game = Game::new();
    // Nothing falls before the game starts.
    assert_eq!(game.update(MOVING_PERIOD + 1), None);
    assert_eq!(game.block.position, (SPAWN_ROW, SPAWN_COLUMN));
    game.input(Command::Start);
    // The wait accumulated meanwhile counts once the game plays.
    assert_eq!(game.update(0), None);
    assert_eq!(game.block.position, (SPAWN_ROW + 1, SPAWN_COLUMN));
    assert_eq!(game.waiting_time, 0);
    assert_eq!(game.update(MOVING_PERIOD - 1), None);
    assert_eq!(game.block.position, (SPAWN_ROW + 1, SPAWN_COLUMN));
    assert_eq!(game.update(1), None);
    assert_eq!(game.block.position, (SPAWN_ROW + 2, SPAWN_COLUMN));
    assert_eq!(game.update(MOVING_PERIOD), None);
    assert_eq!(game.block.position, (SPAWN_ROW + 3, SPAWN_COLUMN));
}

#[test]
fn frozen_piece_is_replaced_and_rows_scored() {
    let mut game = Game::new();
    game.input(Command::Start);
    // Drop the piece to the floor.
    while game.block.status == BlockStatus::Moving {
        game.update(MOVING_PERIOD + 1);
    }
    let frozen_shape = game.block.shape;
    let frozen_color = game.block.color;
    // Complete every row the piece's cells sit on.
    for y in 0..HEIGHT {
        if game.board.data[y].iter().any(|c| c.status == CellStatus::Frozen) {
            for x in 0..WIDTH {
                if game.board.data[y][x].status == CellStatus::Empty {
                    game.board.data[y][x] = Cell { color: None, status: CellStatus::Frozen };
                }
            }
        }
    }
    assert_eq!(game.update(MOVING_PERIOD + 1), None);
    assert!(game.score() >= 1);
    assert_eq!(game.status(), GameStatus::Playing);
    assert_eq!(game.block.status, BlockStatus::Moving);
    assert_ne!(game.block.shape, frozen_shape);
    assert_eq!(game.block.color, tetris::blockcolor::BlockColor::next_color(frozen_color));
    let frozen_cells: usize =
        game.board.data.iter().map(|r| r.iter().filter(|c| c.status == CellStatus::Frozen).count()).sum();
    assert_eq!(frozen_cells, 0);
    assert_eq!(moving_cells(&game), 4);
}

#[test]
fn blocked_spawn_ends_the_game_and_restart_begins_anew() {
    let mut game = Game::new();
    game.input(Command::Start);
    game.block.status = BlockStatus::Frozen;
    // Fill the rows where new pieces appear, leaving one gap per row so that
    // nothing is cleared.
    for y in 0..2 {
        for x in 1..WIDTH {
            game.board.data[y][x] = Cell { color: None, status: CellStatus::Frozen };
        }
    }
    assert_eq!(game.update(MOVING_PERIOD + 1), Some(SoundEffect::Lose));
    assert_eq!(game.status(), GameStatus::GameOver);
    assert_eq!(game.update(MOVING_PERIOD + 1), None);
    assert_eq!(game.input(Command::Left), None);
    assert_eq!(game.input(Command::Start), Some(SoundEffect::Menu));
    assert_eq!(game.status(), GameStatus::Playing);
    assert_eq!(game.score(), 0);
    assert_eq!(moving_cells(&game), 4);
    assert_eq!(game.board.filled_cells().len(), 4);
}
