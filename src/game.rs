use vstd::prelude::*;

use crate::audio::SoundEffect;
use crate::block::{
    at, lemma_move_keeps_moving_cells, lemma_spawn_owns_moving_cells, lemma_turn_keeps_moving_cells,
    moved_to, moving_cells_match, painted, spawn_result, turned_to, Block, BlockStatus,
};
use crate::blockcolor::color_after;
use crate::blockshape::{shape_cells, BlockShape};
use crate::board::{
    cleared_after, empty_grid, lemma_clearing_adds_no_moving, no_moving_cells, raised_score,
    settles_after, Board,
};
use crate::gamestate::{next_status, GameEvent, GameStatus};

verus! {

/// How long, in microseconds, the active piece waits before it falls one row.
pub const MOVING_PERIOD: u64 = 500000;

/// The row at which every new piece appears.
pub const SPAWN_ROW: isize = 0;

/// The column at which every new piece appears: the matrix of a new piece
/// starts one column left of the board's middle.
pub const SPAWN_COLUMN: isize = 4;

/// To go left, go one column down the x-axis.
pub const LEFT_X: i16 = -1;

/// To go right, go one column up the x-axis.
pub const RIGHT_X: i16 = 1;

/// What the player asks for.
#[derive(Clone, Copy, Debug, PartialEq, Eq, Structural)]
pub enum Command {
    Left,
    Right,
    Down,
    Rotate,
    Pause,
    Start,
}

/// The commands that act on the active piece.
enum InputType {
    Left,
    Right,
    Down,
    Rotate,
}

/// One game: the board, the active piece, the time it has waited since it
/// last fell (in microseconds), the score and the status.
pub struct Game {
    pub board: Board,
    pub block: Block,
    pub waiting_time: u64,
    pub score: u32,
    pub status: GameStatus,
}

/// The anchor of every new piece.
pub open spec fn spawn_position() -> (isize, isize) {
    (SPAWN_ROW, SPAWN_COLUMN)
}

/// `wait + dt`, held at `u64::MAX`.
pub open spec fn waited(wait: u64, dt: u64) -> u64 {
    if wait + dt > u64::MAX {
        u64::MAX
    } else {
        (wait + dt) as u64
    }
}

/// After the Frozen piece of `g`, `n` row removals and a spawn of kind
/// `shape` (not the frozen piece's kind) in the color after its color leave
/// the game `g2`: playing on with the new piece, or over, with the losing
/// sound, where the new piece's footprint was not clear.
pub open spec fn refilled(g: Game, g2: Game, r: Option<SoundEffect>, n: nat, shape: BlockShape) -> bool {
    &&& settles_after(g.board@, n)
    &&& g2.score == raised_score(g.score, n)
    &&& shape != g.block.shape
    &&& if g2.status == GameStatus::GameOver {
        &&& spawn_result(
            cleared_after(g.board@, n),
            g2.board@,
            spawn_position(),
            shape,
            color_after(g.block.color),
            None,
        )
        &&& g2.block == g.block
        &&& r == Some(SoundEffect::Lose)
    } else {
        &&& g2.status == GameStatus::Playing
        &&& spawn_result(
            cleared_after(g.board@, n),
            g2.board@,
            spawn_position(),
            shape,
            color_after(g.block.color),
            Some(g2.block),
        )
        &&& r is None
    }
}

/// What one update by `dt` microseconds leaves of game `g`: the game `g2`,
/// and the sound `r` to play. Time accumulates; once `MOVING_PERIOD` or
/// more has passed while the game is Playing, the period is
/// handled and the wait starts again. A Frozen piece then has the completed
/// rows cleared (each raising the score by one), and the next piece (another
/// kind, the next color) is spawned; where its footprint is not clear the
/// game is over and the losing sound plays. A Moving piece instead tries to
/// fall one row.
pub open spec fn advanced(g: Game, dt: u64, g2: Game, r: Option<SoundEffect>) -> bool {
    let w = waited(g.waiting_time, dt);
    let due = w >= MOVING_PERIOD && g.status == GameStatus::Playing;
    if !due {
        &&& g2 == Game { waiting_time: w, ..g }
        &&& r is None
    } else if g.block.status == BlockStatus::Frozen {
        &&& g2.waiting_time == 0
        &&& exists|n: nat, shape: BlockShape| #[trigger] refilled(g, g2, r, n, shape)
    } else {
        &&& g2.waiting_time == 0
        &&& g2.score == g.score
        &&& g2.status == g.status
        &&& r is None
        &&& exists|fell: bool| moved_to(g.block, g.board@, 1, 0, g2.block, g2.board@, fell)
    }
}

/// The piece of `g` moved by `(dy, dx)` in `g2`, score, status and wait kept.
pub open spec fn piece_moved(g: Game, dy: int, dx: int, g2: Game) -> bool {
    &&& exists|moved: bool| moved_to(g.block, g.board@, dy, dx, g2.block, g2.board@, moved)
    &&& g2.score == g.score
    &&& g2.status == g.status
    &&& g2.waiting_time == g.waiting_time
}

/// What command `c` leaves of game `g`: the game `g2`, and the sound `r` to
/// play. While Playing, the movement commands act on the piece, with the
/// sound of a move or a turn, and `Pause` pauses. Otherwise `Pause` resumes
/// a paused game, and `Start` starts the game, a new one where it was over,
/// with the menu sound. Other commands do nothing.
pub open spec fn commanded(g: Game, c: Command, g2: Game, r: Option<SoundEffect>) -> bool {
    if g.status == GameStatus::Playing {
        match c {
            Command::Left => piece_moved(g, 0, LEFT_X as int, g2) && r == Some(SoundEffect::Move),
            Command::Right => piece_moved(g, 0, RIGHT_X as int, g2) && r == Some(SoundEffect::Move),
            Command::Down => piece_moved(g, 1, 0, g2) && r == Some(SoundEffect::Move),
            Command::Rotate => {
                &&& exists|turned: bool| turned_to(g.block, g.board@, g2.block, g2.board@, turned)
                &&& g2.score == g.score
                &&& g2.status == g.status
                &&& g2.waiting_time == g.waiting_time
                &&& r == Some(SoundEffect::Rotate)
            },
            Command::Pause => g2 == Game { status: GameStatus::Paused, ..g } && r == Some(
                SoundEffect::Menu,
            ),
            Command::Start => g2 == g && r is None,
        }
    } else {
        match c {
            Command::Pause => g2 == Game { status: next_status(g.status, GameEvent::Pause), ..g }
                && r == Some(SoundEffect::Menu),
            Command::Start => {
                &&& r == Some(SoundEffect::Menu)
                &&& if g.status == GameStatus::GameOver {
                    g2.is_fresh() && g2.status == GameStatus::Playing
                } else {
                    g2 == Game { status: next_status(g.status, GameEvent::Start), ..g }
                }
            },
            _ => g2 == g && r is None,
        }
    }
}

impl Game {
    /// The board has its dimensions, the piece lies on it, and the board's
    /// Moving cells are exactly the piece's cells while it moves (none once
    /// it is Frozen).
    pub open spec fn wf(&self) -> bool {
        &&& self.board.wf()
        &&& self.block.placed()
        &&& moving_cells_match(self.board@, self.block)
    }

    /// A game as it begins: an empty board but for a new piece at the spawn
    /// anchor, no wait and no score.
    pub open spec fn is_fresh(&self) -> bool {
        &&& self.wf()
        &&& self.block.is_spawned(spawn_position(), self.block.shape, self.block.color)
        &&& self.board@ == painted(
            empty_grid(),
            shape_cells(self.block.shape),
            at(spawn_position()),
            self.block.color,
        )
        &&& self.waiting_time == 0
        &&& self.score == 0
    }

    /// A new game, waiting to start.
    pub fn new() -> (r: Game)
        ensures
            r.is_fresh(),
            r.status == GameStatus::Startup,
    {
        let mut board = Board::new();
        let block = Block::new(&mut board, (SPAWN_ROW, SPAWN_COLUMN));
        proof {
            lemma_spawn_owns_moving_cells(
                empty_grid(),
                board@,
                spawn_position(),
                block.shape,
                block.color,
                block,
            );
        }
        Game { board, block, waiting_time: 0, score: 0, status: GameStatus::Startup }
    }

    /// The score: the number of rows cleared.
    pub fn score(&self) -> (r: u32)
        ensures
            r == self.score,
    {
        self.score
    }

    /// The game's status.
    pub fn status(&self) -> (r: GameStatus)
        ensures
            r == self.status,
    {
        self.status
    }

    /// Handles a command from the player; returns the sound to play, if any.
    pub fn input(&mut self, command: Command) -> (r: Option<SoundEffect>)
        requires
            old(self).wf(),
        ensures
            final(self).wf(),
            commanded(*old(self), command, *final(self), r),
    {
        if self.status == GameStatus::Playing {
            match command {
                Command::Left => Some(self.handle_movement_input(InputType::Left)),
                Command::Right => Some(self.handle_movement_input(InputType::Right)),
                Command::Down => Some(self.handle_movement_input(InputType::Down)),
                Command::Rotate => Some(self.handle_movement_input(InputType::Rotate)),
                Command::Pause => {
                    self.status.update(GameEvent::Pause);
                    Some(SoundEffect::Menu)
                },
                Command::Start => None,
            }
        } else {
            match command {
                Command::Pause => {
                    self.status.update(GameEvent::Pause);
                    Some(SoundEffect::Menu)
                },
                Command::Start => {
                    if self.status == GameStatus::GameOver {
                        *self = Game::new();
                    }
                    self.status.update(GameEvent::Start);
                    Some(SoundEffect::Menu)
                },
                _ => None,
            }
        }
    }

    /// Moves or turns the piece; returns the sound that goes with it.
    fn handle_movement_input(&mut self, input_type: InputType) -> (r: SoundEffect)
        requires
            old(self).wf(),
        ensures
            final(self).wf(),
            match input_type {
                InputType::Left => piece_moved(*old(self), 0, LEFT_X as int, *final(self)) && r
                    == SoundEffect::Move,
                InputType::Right => piece_moved(*old(self), 0, RIGHT_X as int, *final(self)) && r
                    == SoundEffect::Move,
                InputType::Down => piece_moved(*old(self), 1, 0, *final(self)) && r
                    == SoundEffect::Move,
                InputType::Rotate => {
                    &&& exists|turned: bool|
                        turned_to(
                            old(self).block,
                            old(self).board@,
                            final(self).block,
                            final(self).board@,
                            turned,
                        )
                    &&& final(self).score == old(self).score
                    &&& final(self).status == old(self).status
                    &&& final(self).waiting_time == old(self).waiting_time
                    &&& r == SoundEffect::Rotate
                },
            },
    {
        match input_type {
            InputType::Left => {
                let moved = self.block.move_sideways(&mut self.board, LEFT_X);
                proof {
                    lemma_move_keeps_moving_cells(
                        old(self).block,
                        old(self).board@,
                        0,
                        LEFT_X as int,
                        self.block,
                        self.board@,
                        moved,
                    );
                }
                SoundEffect::Move
            },
            InputType::Right => {
                let moved = self.block.move_sideways(&mut self.board, RIGHT_X);
                proof {
                    lemma_move_keeps_moving_cells(
                        old(self).block,
                        old(self).board@,
                        0,
                        RIGHT_X as int,
                        self.block,
                        self.board@,
                        moved,
                    );
                }
                SoundEffect::Move
            },
            InputType::Down => {
                let moved = self.block.move_down(&mut self.board);
                proof {
                    lemma_move_keeps_moving_cells(
                        old(self).block,
                        old(self).board@,
                        1,
                        0,
                        self.block,
                        self.board@,
                        moved,
                    );
                }
                SoundEffect::Move
            },
            InputType::Rotate => {
                let turned = self.block.rotate(&mut self.board);
                proof {
                    lemma_turn_keeps_moving_cells(
                        old(self).block,
                        old(self).board@,
                        self.block,
                        self.board@,
                        turned,
                    );
                }
                SoundEffect::Rotate
            },
        }
    }

    /// Lets `dt` microseconds pass; returns the sound to play, if any.
    pub fn update(&mut self, dt: u64) -> (r: Option<SoundEffect>)
        requires
            old(self).wf(),
        ensures
            final(self).wf(),
            advanced(*old(self), dt, *final(self), r),
    {
        self.waiting_time = self.waiting_time.saturating_add(dt);
        let mut sound: Option<SoundEffect> = None;
        if self.waiting_time >= MOVING_PERIOD && self.status == GameStatus::Playing {
            self.waiting_time = 0;
            if self.block.status == BlockStatus::Frozen {
                let ghost g0 = self.board@;
                let ghost s0 = self.score;
                self.board.update(&mut self.score);
                let ghost n = choose|n: nat|
                    {
                        &&& settles_after(g0, n)
                        &&& self.board@ == cleared_after(g0, n)
                        &&& self.score == raised_score(s0, n)
                    };
                let ghost g1 = self.board@;
                let ghost old_block = self.block;
                let next = Block::next(&mut self.board, (SPAWN_ROW, SPAWN_COLUMN), &self.block);
                let ghost shape = choose|shape: BlockShape|
                    shape != old_block.shape && spawn_result(
                        g1,
                        self.board@,
                        spawn_position(),
                        shape,
                        color_after(old_block.color),
                        next,
                    );
                proof {
                    assert(no_moving_cells(g0));
                    lemma_clearing_adds_no_moving(g0, n);
                }
                match next {
                    Some(block) => {
                        proof {
                            lemma_spawn_owns_moving_cells(
                                g1,
                                self.board@,
                                spawn_position(),
                                shape,
                                color_after(old_block.color),
                                block,
                            );
                        }
                        self.block = block;
                    },
                    None => {
                        sound = Some(SoundEffect::Lose);
                        self.status.update(GameEvent::End);
                    },
                }
                assert(refilled(*old(self), *self, sound, n, shape));
            } else {
                let fell = self.block.move_down(&mut self.board);
                proof {
                    lemma_move_keeps_moving_cells(
                        old(self).block,
                        old(self).board@,
                        1,
                        0,
                        self.block,
                        self.board@,
                        fell,
                    );
                }
            }
        }
        sound
    }
}

} // verus!
