use tetris::audio::SoundEffect;
use tetris::blockcolor::BlockColor;
use tetris::blockshape::BlockShape;
use tetris::gamestate::{GameEvent, GameStatus};

const SHAPES: [BlockShape; 7] = [
    BlockShape::I,
    BlockShape::J,
    BlockShape::L,
    BlockShape::O,
    BlockShape::S,
    BlockShape::T,
    BlockShape::Z,
];

#[test]
fn four_rotations_return_the_matrix() {
    for shape in SHAPES {
        let original = shape.get_shape();
        let mut m = original;
        for turn in 1..=4 {
            BlockShape::rotate_matrix(&mut m);
            if turn < 4 && shape != BlockShape::O {
                assert_ne!(m, original);
            }
        }
        assert_eq!(m, original);
    }
}

#[test]
fn rotation_is_clockwise() {
    let mut m = BlockShape::J.get_shape();
    BlockShape::rotate_matrix(&mut m);
    assert_eq!(m, [[0, 0, 1, 1], [0, 0, 1, 0], [0, 0, 1, 0], [0, 0, 0, 0]]);
    let mut counting = [[0, 1, 2, 3], [4, 5, 6, 7], [8, 9, 10, 11], [12, 13, 14, 15]];
    BlockShape::rotate_matrix(&mut counting);
    assert_eq!(counting, [[12, 8, 4, 0], [13, 9, 5, 1], [14, 10, 6, 2], [15, 11, 7, 3]]);
}

#[test]
fn shape_matrices() {
    assert_eq!(BlockShape::I.get_shape(), [[0, 0, 0, 0], [1, 1, 1, 1], [0, 0, 0, 0], [0, 0, 0, 0]]);
    assert_eq!(BlockShape::O.get_shape(), [[0, 1, 1, 0], [0, 1, 1, 0], [0, 0, 0, 0], [0, 0, 0, 0]]);
    assert_eq!(BlockShape::Z.get_shape(), [[1, 1, 0, 0], [0, 1, 1, 0], [0, 0, 0, 0], [0, 0, 0, 0]]);
    for shape in SHAPES {
        let filled: i32 = shape.get_shape().iter().map(|r| r.iter().sum::<i32>()).sum();
        assert_eq!(filled, 4);
    }
}

#[test]
fn skipping_leaves_out_the_excluded_kind() {
    for excluded in SHAPES {
        let picked: Vec<BlockShape> = (0..6).map(|i| BlockShape::skipping(excluded, i)).collect();
        assert!(!picked.contains(&excluded));
        for shape in SHAPES {
            if shape != excluded {
                assert!(picked.contains(&shape));
            }
        }
    }
    assert_eq!(BlockShape::skipping(BlockShape::L, 2), BlockShape::O);
    assert_eq!(BlockShape::skipping(BlockShape::L, 1), BlockShape::J);
}

#[test]
fn random_except_never_returns_excluded() {
    for excluded in SHAPES {
        for _ in 0..200 {
            assert_ne!(BlockShape::random_except(excluded), excluded);
        }
    }
}

#[test]
fn random_draws_vary() {
    let shapes: Vec<BlockShape> = (0..300).map(|_| BlockShape::random()).collect();
    assert!(shapes.iter().any(|s| *s != shapes[0]));
    let colors: Vec<BlockColor> = (0..300).map(|_| BlockColor::random()).collect();
    assert!(colors.iter().any(|c| *c != colors[0]));
}

#[test]
fn shape_indices_round_trip() {
    for (i, shape) in SHAPES.iter().enumerate() {
        assert_eq!(shape.index(), i);
        assert_eq!(BlockShape::from_index(i), *shape);
    }
}

#[test]
fn colors_cycle() {
    let mut c = BlockColor::Red;
    let order = [
        BlockColor::Blue,
        BlockColor::Green,
        BlockColor::Yellow,
        BlockColor::Purple,
        BlockColor::Orange,
        BlockColor::Cyan,
        BlockColor::Pink,
        BlockColor::Red,
    ];
    for expected in order {
        c = BlockColor::next_color(c);
        assert_eq!(c, expected);
    }
    assert_eq!(BlockColor::from_index(4), BlockColor::Purple);
}

#[test]
fn status_transitions() {
    let table = [
        (GameStatus::Startup, GameEvent::Start, GameStatus::Playing),
        (GameStatus::Startup, GameEvent::Pause, GameStatus::Startup),
        (GameStatus::Startup, GameEvent::End, GameStatus::Startup),
        (GameStatus::Playing, GameEvent::Start, GameStatus::Playing),
        (GameStatus::Playing, GameEvent::Pause, GameStatus::Paused),
        (GameStatus::Playing, GameEvent::End, GameStatus::GameOver),
        (GameStatus::Paused, GameEvent::Start, GameStatus::Paused),
        (GameStatus::Paused, GameEvent::Pause, GameStatus::Playing),
        (GameStatus::Paused, GameEvent::End, GameStatus::GameOver),
        (GameStatus::GameOver, GameEvent::Start, GameStatus::Playing),
        (GameStatus::GameOver, GameEvent::Pause, GameStatus::GameOver),
        (GameStatus::GameOver, GameEvent::End, GameStatus::GameOver),
    ];
    for (from, event, to) in table {
        let mut s = from;
        s.update(event);
        assert_eq!(s, to);
    }
}

#[test]
fn sound_file_names() {
    assert_eq!(SoundEffect::Lose.to_filename(), "assets/lose.mp3");
    assert_eq!(SoundEffect::Move.to_filename(), "assets/move.mp3");
    assert_eq!(SoundEffect::Rotate.to_filename(), "assets/rotate.mp3");
    assert_eq!(SoundEffect::Menu.to_filename(), "assets/menu.mp3");
    assert_eq!(SoundEffect::RowCompleted.to_filename(), "assets/row_completed.mp3");
}
