use vstd::prelude::*;

use crate::random::random_below;

verus! {

/// The colors a piece can have.
#[derive(Clone, Copy, Debug, PartialEq, Eq, Structural)]
pub enum BlockColor {
    Red,
    Blue,
    Green,
    Yellow,
    Purple,
    Orange,
    Cyan,
    Pink,
}

/// How many colors there are.
pub const COLOR_COUNT: usize = 8;

/// The colors in their cycle order.
pub open spec fn color_at(i: int) -> BlockColor {
    if i == 0 {
        BlockColor::Red
    } else if i == 1 {
        BlockColor::Blue
    } else if i == 2 {
        BlockColor::Green
    } else if i == 3 {
        BlockColor::Yellow
    } else if i == 4 {
        BlockColor::Purple
    } else if i == 5 {
        BlockColor::Orange
    } else if i == 6 {
        BlockColor::Cyan
    } else {
        BlockColor::Pink
    }
}

/// The position of a color in the cycle.
pub open spec fn color_index(c: BlockColor) -> int {
    match c {
        BlockColor::Red => 0,
        BlockColor::Blue => 1,
        BlockColor::Green => 2,
        BlockColor::Yellow => 3,
        BlockColor::Purple => 4,
        BlockColor::Orange => 5,
        BlockColor::Cyan => 6,
        BlockColor::Pink => 7,
    }
}

/// The color that follows `c` in the cycle, `Pink` wrapping round to `Red`.
pub open spec fn color_after(c: BlockColor) -> BlockColor {
    color_at((color_index(c) + 1) % (COLOR_COUNT as int))
}

impl BlockColor {
    /// The color at position `i` of the cycle.
    pub fn from_index(i: usize) -> (r: BlockColor)
        requires
            i < COLOR_COUNT,
        ensures
            r == color_at(i as int),
            color_index(r) == i,
    {
        if i == 0 {
            BlockColor::Red
        } else if i == 1 {
            BlockColor::Blue
        } else if i == 2 {
            BlockColor::Green
        } else if i == 3 {
            BlockColor::Yellow
        } else if i == 4 {
            BlockColor::Purple
        } else if i == 5 {
            BlockColor::Orange
        } else if i == 6 {
            BlockColor::Cyan
        } else {
            BlockColor::Pink
        }
    }

    /// A color drawn uniformly at random.
    pub fn random() -> (r: BlockColor) {
        BlockColor::from_index(random_below(COLOR_COUNT))
    }

    /// The next color in the cycle.
    pub fn next_color(current_color: BlockColor) -> (r: BlockColor)
        ensures
            r == color_after(current_color),
    {
        match current_color {
            BlockColor::Red => BlockColor::Blue,
            BlockColor::Blue => BlockColor::Green,
            BlockColor::Green => BlockColor::Yellow,
            BlockColor::Yellow => BlockColor::Purple,
            BlockColor::Purple => BlockColor::Orange,
            BlockColor::Orange => BlockColor::Cyan,
            BlockColor::Cyan => BlockColor::Pink,
            BlockColor::Pink => BlockColor::Red,
        }
    }
}

} // verus!
