use vstd::prelude::*;

use crate::random::random_below;

verus! {

/// A 4x4 occupancy matrix: 1 marks a filled cell, 0 an empty one.
pub type Matrix = [[i32; 4]; 4];

/// The seven kinds of piece.
#[derive(Clone, Copy, Debug, PartialEq, Eq, Structural)]
pub enum BlockShape {
    I,
    J,
    L,
    O,
    S,
    T,
    Z,
}

/// The entries of a matrix, row by row.
pub open spec fn cells_of(m: Matrix) -> Seq<Seq<i32>> {
    Seq::new(4, |y: int| Seq::new(4, |x: int| m[y][x]))
}

/// A quarter turn clockwise: the entry at `(y, x)` comes from `(3 - x, y)`.
pub open spec fn rotated(c: Seq<Seq<i32>>) -> Seq<Seq<i32>> {
    Seq::new(4, |y: int| Seq::new(4, |x: int| c[3 - x][y]))
}

/// How many kinds of piece there are.
pub const SHAPE_COUNT: usize = 7;

/// The kinds in their catalog order.
pub open spec fn shape_at(i: int) -> BlockShape {
    if i == 0 {
        BlockShape::I
    } else if i == 1 {
        BlockShape::J
    } else if i == 2 {
        BlockShape::L
    } else if i == 3 {
        BlockShape::O
    } else if i == 4 {
        BlockShape::S
    } else if i == 5 {
        BlockShape::T
    } else {
        BlockShape::Z
    }
}

/// The position of a kind in the catalog.
pub open spec fn shape_index(s: BlockShape) -> int {
    match s {
        BlockShape::I => 0,
        BlockShape::J => 1,
        BlockShape::L => 2,
        BlockShape::O => 3,
        BlockShape::S => 4,
        BlockShape::T => 5,
        BlockShape::Z => 6,
    }
}

/// Whether the spawn orientation of `s` fills the cell at row `y`, column `x`
/// of its 4x4 matrix.
pub open spec fn shape_fills(s: BlockShape, y: int, x: int) -> bool {
    match s {
        BlockShape::I => y == 1,
        BlockShape::J => (y == 0 && x == 0) || (y == 1 && x <= 2),
        BlockShape::L => (y == 0 && x == 2) || (y == 1 && x <= 2),
        BlockShape::O => (y == 0 || y == 1) && (x == 1 || x == 2),
        BlockShape::S => (y == 0 && (x == 1 || x == 2)) || (y == 1 && x <= 1),
        BlockShape::T => (y == 0 && x == 1) || (y == 1 && x <= 2),
        BlockShape::Z => (y == 0 && x <= 1) || (y == 1 && (x == 1 || x == 2)),
    }
}

/// The spawn-orientation matrix of `s`, row by row.
pub open spec fn shape_cells(s: BlockShape) -> Seq<Seq<i32>> {
    Seq::new(4, |y: int| Seq::new(4, |x: int| if shape_fills(s, y, x) { 1i32 } else { 0i32 }))
}

/// The kind that a draw of `i` from `0..SHAPE_COUNT - 1` gives when
/// `excluded` is left out: the catalog with `excluded` taken away, in order.
pub open spec fn shape_skipping(excluded: BlockShape, i: int) -> BlockShape {
    if i < shape_index(excluded) {
        shape_at(i)
    } else {
        shape_at(i + 1)
    }
}

/// Four quarter turns bring any matrix back to itself.
pub proof fn lemma_rotate_four_times(m: Matrix)
    ensures
        rotated(rotated(rotated(rotated(cells_of(m))))) == cells_of(m),
{
    let c = cells_of(m);
    assert(rotated(rotated(rotated(rotated(c)))) =~~= c);
}

impl BlockShape {
    /// The kind at position `i` of the catalog.
    pub fn from_index(i: usize) -> (r: BlockShape)
        requires
            i < SHAPE_COUNT,
        ensures
            r == shape_at(i as int),
            shape_index(r) == i,
    {
        if i == 0 {
            BlockShape::I
        } else if i == 1 {
            BlockShape::J
        } else if i == 2 {
            BlockShape::L
        } else if i == 3 {
            BlockShape::O
        } else if i == 4 {
            BlockShape::S
        } else if i == 5 {
            BlockShape::T
        } else {
            BlockShape::Z
        }
    }

    /// The position of this kind in the catalog.
    pub fn index(&self) -> (r: usize)
        ensures
            r == shape_index(*self),
    {
        match self {
            BlockShape::I => 0,
            BlockShape::J => 1,
            BlockShape::L => 2,
            BlockShape::O => 3,
            BlockShape::S => 4,
            BlockShape::T => 5,
            BlockShape::Z => 6,
        }
    }

    /// A kind drawn uniformly at random.
    pub fn random() -> (r: BlockShape) {
        BlockShape::from_index(random_below(SHAPE_COUNT))
    }

    /// The kind that draw `i` of `0..SHAPE_COUNT - 1` selects among the kinds
    /// other than `excluded`.
    pub fn skipping(excluded: BlockShape, i: usize) -> (r: BlockShape)
        requires
            i < SHAPE_COUNT - 1,
        ensures
            r == shape_skipping(excluded, i as int),
            r != excluded,
    {
        if i < excluded.index() {
            BlockShape::from_index(i)
        } else {
            BlockShape::from_index(i + 1)
        }
    }

    /// A kind drawn uniformly at random among those other than
    /// `excluded_shape`. One draw over the six remaining kinds gives the same
    /// distribution as drawing over all seven until the excluded one is missed.
    pub fn random_except(excluded_shape: BlockShape) -> (r: BlockShape)
        ensures
            r != excluded_shape,
    {
        BlockShape::skipping(excluded_shape, random_below(SHAPE_COUNT - 1))
    }

    /// The matrix of this kind in its spawn orientation.
    pub fn get_shape(&self) -> (r: Matrix)
        ensures
            cells_of(r) == shape_cells(*self),
    {
        let m: Matrix = match *self {
            BlockShape::I => [
                [0, 0, 0, 0],
                [1, 1, 1, 1],
                [0, 0, 0, 0],
                [0, 0, 0, 0],
            ],
            BlockShape::J => [
                [1, 0, 0, 0],
                [1, 1, 1, 0],
                [0, 0, 0, 0],
                [0, 0, 0, 0],
            ],
            BlockShape::L => [
                [0, 0, 1, 0],
                [1, 1, 1, 0],
                [0, 0, 0, 0],
                [0, 0, 0, 0],
            ],
            BlockShape::O => [
                [0, 1, 1, 0],
                [0, 1, 1, 0],
                [0, 0, 0, 0],
                [0, 0, 0, 0],
            ],
            BlockShape::S => [
                [0, 1, 1, 0],
                [1, 1, 0, 0],
                [0, 0, 0, 0],
                [0, 0, 0, 0],
            ],
            BlockShape::T => [
                [0, 1, 0, 0],
                [1, 1, 1, 0],
                [0, 0, 0, 0],
                [0, 0, 0, 0],
            ],
            BlockShape::Z => [
                [1, 1, 0, 0],
                [0, 1, 1, 0],
                [0, 0, 0, 0],
                [0, 0, 0, 0],
            ],
        };
        assert(cells_of(m) =~~= shape_cells(*self));
        m
    }

    /// Rotates the matrix a quarter turn clockwise about its center (its
    /// transpose with each row reversed).
    pub fn rotate_matrix(matrix: &mut Matrix)
        ensures
            cells_of(*final(matrix)) == rotated(cells_of(*old(matrix))),
    {
        let src: Matrix = *matrix;
        let mut i: usize = 0;
        while i < 4
            invariant
                i <= 4,
                forall|y: int, x: int| 0 <= y < i && 0 <= x < 4 ==> matrix[y][x] == src[3 - x][y],
            decreases 4 - i,
        {
            let mut j: usize = 0;
            while j < 4
                invariant
                    i < 4,
                    j <= 4,
                    forall|y: int, x: int| 0 <= y < i && 0 <= x < 4 ==> matrix[y][x] == src[3 - x][y],
                    forall|x: int| 0 <= x < j ==> matrix[i as int][x] == src[3 - x][i as int],
                decreases 4 - j,
            {
                matrix[i][j] = src[3 - j][i];
                j = j + 1;
            }
            i = i + 1;
        }
        assert(cells_of(*matrix) =~~= rotated(cells_of(src)));
    }
}

} // verus!
