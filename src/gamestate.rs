use vstd::prelude::*;

verus! {

/// The possible states of a game.
#[derive(Clone, Copy, Debug, PartialEq, Eq, Structural)]
pub enum GameStatus {
    Startup,
    Playing,
    Paused,
    GameOver,
}

/// The events that drive the game's status.
#[derive(Clone, Copy, Debug, PartialEq, Eq, Structural)]
pub enum GameEvent {
    Start,
    Pause,
    End,
}

/// The transition table; pairs that it does not list leave the status as it is.
pub open spec fn next_status(status: GameStatus, event: GameEvent) -> GameStatus {
    match (status, event) {
        (GameStatus::Startup, GameEvent::Start) => GameStatus::Playing,
        (GameStatus::Playing, GameEvent::Pause) => GameStatus::Paused,
        (GameStatus::Playing, GameEvent::End) => GameStatus::GameOver,
        (GameStatus::Paused, GameEvent::Pause) => GameStatus::Playing,
        (GameStatus::Paused, GameEvent::End) => GameStatus::GameOver,
        (GameStatus::GameOver, GameEvent::Start) => GameStatus::Playing,
        _ => status,
    }
}

impl GameStatus {
    /// Updates the status according to the given event.
    pub fn update(&mut self, event: GameEvent)
        ensures
            *final(self) == next_status(*old(self), event),
    {
        match self {
            GameStatus::Startup => {
                match event {
                    GameEvent::Start => {
                        *self = GameStatus::Playing;
                    },
                    _ => {},
                }
            },
            GameStatus::Playing => {
                match event {
                    GameEvent::Pause => {
                        *self = GameStatus::Paused;
                    },
                    GameEvent::End => {
                        *self = GameStatus::GameOver;
                    },
                    _ => {},
                }
            },
            GameStatus::Paused => {
                match event {
                    GameEvent::Pause => {
                        *self = GameStatus::Playing;
                    },
                    GameEvent::End => {
                        *self = GameStatus::GameOver;
                    },
                    _ => {},
                }
            },
            GameStatus::GameOver => {
                match event {
                    GameEvent::Start => {
                        *self = GameStatus::Playing;
                    },
                    _ => {},
                }
            },
        }
    }
}

} // verus!
