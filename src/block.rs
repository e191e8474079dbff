use vstd::prelude::*;

use crate::blockcolor::{color_after, BlockColor};
use crate::blockshape::{cells_of, rotated, shape_cells, BlockShape, Matrix};
use crate::board::{grid_wf, no_moving_cells, occupied, Board, Cell, CellStatus, HEIGHT, WIDTH};

verus! {

/// The active piece: its kind, its matrix in the current rotation, its color,
/// whether it still moves, and the board position of its matrix's top-left
/// cell (row, column).
pub struct Block {
    pub shape: BlockShape,
    pub matrix: Matrix,
    pub color: BlockColor,
    pub status: BlockStatus,
    pub position: (isize, isize),
}

/// Whether a piece still moves; `Frozen` is final.
#[derive(Clone, Copy, Debug, PartialEq, Eq, Structural)]
pub enum BlockStatus {
    Moving,
    Frozen,
}

/// The board position `(y, x)` as integers.
pub open spec fn at(p: (isize, isize)) -> (int, int) {
    (p.0 as int, p.1 as int)
}

/// Row `y`, column `x` lies on the board.
pub open spec fn in_board(y: int, x: int) -> bool {
    0 <= y < HEIGHT && 0 <= x < WIDTH
}

/// The matrix `cells`, placed at `pos`, fills board cell `(y, x)`.
pub open spec fn covers(cells: Seq<Seq<i32>>, pos: (int, int), y: int, x: int) -> bool {
    &&& 0 <= y - pos.0 < 4
    &&& 0 <= x - pos.1 < 4
    &&& cells[y - pos.0][x - pos.1] == 1
}

/// Every filled cell of `cells`, placed at `pos`, lies on the board.
pub open spec fn fits(cells: Seq<Seq<i32>>, pos: (int, int)) -> bool {
    forall|y: int, x: int|
        0 <= y < 4 && 0 <= x < 4 && cells[y][x] == 1 ==> in_board(pos.0 + y, pos.1 + x)
}

/// The matrix fills at least one cell.
pub open spec fn has_filled(cells: Seq<Seq<i32>>) -> bool {
    exists|y: int, x: int| 0 <= y < 4 && 0 <= x < 4 && cells[y][x] == 1
}

/// No filled cell of `cells`, placed at `pos`, lands on an occupied cell.
pub open spec fn footprint_clear(cells: Seq<Seq<i32>>, pos: (int, int), g: Seq<Seq<Cell>>) -> bool {
    forall|y: int, x: int|
        0 <= y < 4 && 0 <= x < 4 && cells[y][x] == 1 ==> !occupied(g[pos.0 + y][pos.1 + x])
}

/// The filled cell `(y, x)` of `cells`, moving by `(dy, dx)` to the matrix
/// position `next`, is stopped: its target is off the board, or the target is
/// occupied by something other than the piece's own cell `(y + dy, x + dx)`,
/// which the move vacates.
pub open spec fn move_blocked_at(
    cells: Seq<Seq<i32>>,
    next: (int, int),
    g: Seq<Seq<Cell>>,
    dy: int,
    dx: int,
    y: int,
    x: int,
) -> bool {
    &&& cells[y][x] == 1
    &&& {
        ||| !in_board(next.0 + y, next.1 + x)
        ||| {
            &&& occupied(g[next.0 + y][next.1 + x])
            &&& !(0 <= y + dy < 4 && 0 <= x + dx < 4 && cells[y + dy][x + dx] != 0)
        }
    }
}

/// No filled cell is stopped by the move to `next`.
pub open spec fn move_allowed(
    cells: Seq<Seq<i32>>,
    next: (int, int),
    g: Seq<Seq<Cell>>,
    dy: int,
    dx: int,
) -> bool {
    forall|y: int, x: int| 0 <= y < 4 && 0 <= x < 4 ==> !move_blocked_at(cells, next, g, dy, dx, y, x)
}

/// The rotated matrix `rot` fits in place at `pos`: each of its filled cells is
/// on the board, and is Empty or already filled by the current matrix `cur`.
pub open spec fn rotate_allowed(
    cur: Seq<Seq<i32>>,
    rot: Seq<Seq<i32>>,
    pos: (int, int),
    g: Seq<Seq<Cell>>,
) -> bool {
    forall|y: int, x: int|
        0 <= y < 4 && 0 <= x < 4 && rot[y][x] == 1 ==> {
            &&& in_board(pos.0 + y, pos.1 + x)
            &&& (occupied(g[pos.0 + y][pos.1 + x]) ==> cur[y][x] != 0)
        }
}

/// The grid with the cells that `cells` covers at `pos` set to Empty, colors
/// kept.
pub open spec fn erased(g: Seq<Seq<Cell>>, cells: Seq<Seq<i32>>, pos: (int, int)) -> Seq<
    Seq<Cell>,
> {
    Seq::new(
        g.len(),
        |y: int|
            Seq::new(
                g[y].len(),
                |x: int|
                    if covers(cells, pos, y, x) {
                        Cell { color: g[y][x].color, status: CellStatus::Empty }
                    } else {
                        g[y][x]
                    },
            ),
    )
}

/// The grid with the cells that `cells` covers at `pos` painted Moving in
/// `color`.
pub open spec fn painted(
    g: Seq<Seq<Cell>>,
    cells: Seq<Seq<i32>>,
    pos: (int, int),
    color: BlockColor,
) -> Seq<Seq<Cell>> {
    Seq::new(
        g.len(),
        |y: int|
            Seq::new(
                g[y].len(),
                |x: int|
                    if covers(cells, pos, y, x) {
                        Cell { color: Some(color), status: CellStatus::Moving }
                    } else {
                        g[y][x]
                    },
            ),
    )
}

/// The grid with the cells that `cells` covers at `pos` set to Frozen, colors
/// kept.
pub open spec fn frozen(g: Seq<Seq<Cell>>, cells: Seq<Seq<i32>>, pos: (int, int)) -> Seq<
    Seq<Cell>,
> {
    Seq::new(
        g.len(),
        |y: int|
            Seq::new(
                g[y].len(),
                |x: int|
                    if covers(cells, pos, y, x) {
                        Cell { color: g[y][x].color, status: CellStatus::Frozen }
                    } else {
                        g[y][x]
                    },
            ),
    )
}

/// An anchor at which every kind fits in its spawn orientation.
pub open spec fn spawn_area(pos: (int, int)) -> bool {
    0 <= pos.0 <= HEIGHT - 2 && 0 <= pos.1 <= WIDTH - 4
}

/// Each kind fills rows 0 and 1 of its matrix only, columns 0 to 3, and fills
/// cell `(1, 1)`.
proof fn lemma_shape_fits(s: BlockShape, pos: (int, int))
    requires
        spawn_area(pos),
    ensures
        fits(shape_cells(s), pos),
        has_filled(shape_cells(s)),
{
    assert(shape_cells(s)[1][1] == 1);
}

/// A quarter turn keeps some cell filled.
proof fn lemma_rotated_has_filled(cells: Seq<Seq<i32>>)
    requires
        cells.len() == 4,
        forall|y: int| 0 <= y < 4 ==> #[trigger] cells[y].len() == 4,
        has_filled(cells),
    ensures
        has_filled(rotated(cells)),
{
    let (y, x) = choose|y: int, x: int| 0 <= y < 4 && 0 <= x < 4 && cells[y][x] == 1;
    assert(rotated(cells)[x][3 - y] == 1);
}

/// What a spawn leaves: `None` with the board untouched where the footprint
/// of `shape` at `pos` is not clear, else a Moving piece of that kind and
/// color at `pos`, painted on the board.
pub open spec fn spawn_result(
    g: Seq<Seq<Cell>>,
    g2: Seq<Seq<Cell>>,
    pos: (isize, isize),
    shape: BlockShape,
    color: BlockColor,
    r: Option<Block>,
) -> bool {
    match r {
        None => !footprint_clear(shape_cells(shape), at(pos), g) && g2 == g,
        Some(b) => {
            &&& footprint_clear(shape_cells(shape), at(pos), g)
            &&& b.is_spawned(pos, shape, color)
            &&& g2 == painted(g, shape_cells(shape), at(pos), color)
        },
    }
}

/// The board's Moving cells are exactly the cells that piece `b` covers, and
/// only while it is Moving; a Frozen piece leaves no Moving cell.
pub open spec fn moving_cells_match(g: Seq<Seq<Cell>>, b: Block) -> bool {
    forall|y: int, x: int|
        0 <= y < HEIGHT && 0 <= x < WIDTH ==> ((#[trigger] g[y][x]).status == CellStatus::Moving <==> (
        b.status == BlockStatus::Moving && covers(b.cells(), at(b.position), y, x)))
}

/// A move keeps the board's Moving cells on the piece.
pub proof fn lemma_move_keeps_moving_cells(
    b: Block,
    g: Seq<Seq<Cell>>,
    dy: int,
    dx: int,
    b2: Block,
    g2: Seq<Seq<Cell>>,
    r: bool,
)
    requires
        grid_wf(g),
        moving_cells_match(g, b),
        moved_to(b, g, dy, dx, b2, g2, r),
    ensures
        grid_wf(g2),
        moving_cells_match(g2, b2),
{
    let cells = b.cells();
    let pos = at(b.position);
    let next = (pos.0 + dy, pos.1 + dx);
    assert forall|y: int, x: int| 0 <= y < HEIGHT && 0 <= x < WIDTH implies ((#[trigger] g2[y][x]).status
        == CellStatus::Moving <==> (b2.status == BlockStatus::Moving && covers(
        b2.cells(),
        at(b2.position),
        y,
        x,
    ))) by {
        assert(g[y].len() == WIDTH);
    }
}

/// A turn keeps the board's Moving cells on the piece.
pub proof fn lemma_turn_keeps_moving_cells(b: Block, g: Seq<Seq<Cell>>, b2: Block, g2: Seq<Seq<Cell>>, r: bool)
    requires
        grid_wf(g),
        moving_cells_match(g, b),
        turned_to(b, g, b2, g2, r),
    ensures
        grid_wf(g2),
        moving_cells_match(g2, b2),
{
    assert forall|y: int, x: int| 0 <= y < HEIGHT && 0 <= x < WIDTH implies ((#[trigger] g2[y][x]).status
        == CellStatus::Moving <==> (b2.status == BlockStatus::Moving && covers(
        b2.cells(),
        at(b2.position),
        y,
        x,
    ))) by {
        assert(g[y].len() == WIDTH);
    }
}

/// A piece spawned on a board without Moving cells owns all the Moving cells
/// afterwards.
pub proof fn lemma_spawn_owns_moving_cells(
    g: Seq<Seq<Cell>>,
    g2: Seq<Seq<Cell>>,
    pos: (isize, isize),
    shape: BlockShape,
    color: BlockColor,
    b: Block,
)
    requires
        grid_wf(g),
        no_moving_cells(g),
        g2 == painted(g, shape_cells(shape), at(pos), color),
        b.is_spawned(pos, shape, color),
    ensures
        grid_wf(g2),
        moving_cells_match(g2, b),
{
    assert forall|y: int, x: int| 0 <= y < HEIGHT && 0 <= x < WIDTH implies ((#[trigger] g2[y][x]).status
        == CellStatus::Moving <==> (b.status == BlockStatus::Moving && covers(
        b.cells(),
        at(b.position),
        y,
        x,
    ))) by {
        assert(g[y].len() == WIDTH);
    }
}

/// What a move by `(dy, dx)` leaves of piece `b` on grid `g`: the piece `b2`
/// on grid `g2`, with `r` telling whether it moved. A Moving piece whose
/// every filled cell can go is erased and painted at its new position.
/// Otherwise it stays; a blocked move downwards freezes it, and its cells on
/// the board turn Frozen. A piece that is not Moving changes nothing.
pub open spec fn moved_to(
    b: Block,
    g: Seq<Seq<Cell>>,
    dy: int,
    dx: int,
    b2: Block,
    g2: Seq<Seq<Cell>>,
    r: bool,
) -> bool {
    let cells = b.cells();
    let pos = at(b.position);
    let next = (pos.0 + dy, pos.1 + dx);
    let moved = b.status == BlockStatus::Moving && move_allowed(cells, next, g, dy, dx);
    let froze = b.status == BlockStatus::Moving && !moved && dy >= 1;
    &&& r == moved
    &&& b2.same_piece(&b)
    &&& b2.placed()
    &&& at(b2.position) == if moved {
        next
    } else {
        pos
    }
    &&& b2.status == if froze {
        BlockStatus::Frozen
    } else {
        b.status
    }
    &&& g2 == if moved {
        painted(erased(g, cells, pos), cells, next, b.color)
    } else if froze {
        frozen(g, cells, pos)
    } else {
        g
    }
}

/// What a quarter turn leaves of piece `b` on grid `g`: the piece `b2` on
/// grid `g2`, with `r` telling whether it turned. A Moving piece other than
/// the square kind turns where its turned matrix fits in place, and is erased
/// and painted again; otherwise nothing changes.
pub open spec fn turned_to(b: Block, g: Seq<Seq<Cell>>, b2: Block, g2: Seq<Seq<Cell>>, r: bool) -> bool {
    let cells = b.cells();
    let pos = at(b.position);
    let turned = b.shape != BlockShape::O && b.status == BlockStatus::Moving && rotate_allowed(
        cells,
        rotated(cells),
        pos,
        g,
    );
    &&& r == turned
    &&& b2.placed()
    &&& b2.shape == b.shape
    &&& b2.color == b.color
    &&& b2.status == b.status
    &&& b2.position == b.position
    &&& b2.cells() == if turned {
        rotated(cells)
    } else {
        cells
    }
    &&& g2 == if turned {
        painted(erased(g, cells, pos), rotated(cells), pos, b.color)
    } else {
        g
    }
}

/// A piece with a filled cell on the board's last column does not move right,
/// and its anchor stays where it was.
pub proof fn lemma_rightmost_cannot_move_right(
    b: Block,
    g: Seq<Seq<Cell>>,
    b2: Block,
    g2: Seq<Seq<Cell>>,
    r: bool,
    y: int,
    x: int,
)
    requires
        moved_to(b, g, 0, 1, b2, g2, r),
        0 <= y < 4,
        0 <= x < 4,
        b.cells()[y][x] == 1,
        b.position.1 + x == WIDTH - 1,
    ensures
        !r,
        b2.position == b.position,
{
    let pos = at(b.position);
    assert(move_blocked_at(b.cells(), (pos.0, pos.1 + 1), g, 0, 1, y, x));
}

/// A Moving piece with a filled cell on the bottom row does not move down:
/// it freezes where it is.
pub proof fn lemma_floor_freezes(
    b: Block,
    g: Seq<Seq<Cell>>,
    b2: Block,
    g2: Seq<Seq<Cell>>,
    r: bool,
    y: int,
    x: int,
)
    requires
        moved_to(b, g, 1, 0, b2, g2, r),
        b.status == BlockStatus::Moving,
        0 <= y < 4,
        0 <= x < 4,
        b.cells()[y][x] == 1,
        b.position.0 + y == HEIGHT - 1,
    ensures
        !r,
        b2.status == BlockStatus::Frozen,
        b2.position == b.position,
        g2 == frozen(g, b.cells(), at(b.position)),
{
    let pos = at(b.position);
    assert(move_blocked_at(b.cells(), (pos.0 + 1, pos.1), g, 1, 0, y, x));
}

/// A Moving piece each of whose filled cells has, on the row below it, a
/// board cell that is Empty or filled by the piece itself moves down one row
/// and keeps moving.
pub proof fn lemma_free_below_descends(
    b: Block,
    g: Seq<Seq<Cell>>,
    b2: Block,
    g2: Seq<Seq<Cell>>,
    r: bool,
)
    requires
        moved_to(b, g, 1, 0, b2, g2, r),
        b.status == BlockStatus::Moving,
        grid_wf(g),
        forall|y: int, x: int|
            0 <= y < 4 && 0 <= x < 4 && b.cells()[y][x] == 1 ==> {
                &&& in_board(b.position.0 + y + 1, b.position.1 + x)
                &&& (!occupied(g[b.position.0 + y + 1][b.position.1 + x]) || covers(
                    b.cells(),
                    at(b.position),
                    b.position.0 + y + 1,
                    b.position.1 + x,
                ))
            },
    ensures
        r,
        b2.status == BlockStatus::Moving,
        at(b2.position) == (b.position.0 + 1, b.position.1 as int),
{
    let cells = b.cells();
    let pos = at(b.position);
    assert forall|y: int, x: int| 0 <= y < 4 && 0 <= x < 4 implies !#[trigger] move_blocked_at(
        cells,
        (pos.0 + 1, pos.1),
        g,
        1,
        0,
        y,
        x,
    ) by {
        if cells[y][x] == 1 {
            assert(in_board(pos.0 + y + 1, pos.1 + x));
        }
    }
}

/// The square kind never turns: the turn fails, and neither the matrix nor
/// the board changes, whatever the board holds.
pub proof fn lemma_square_never_turns(b: Block, g: Seq<Seq<Cell>>, b2: Block, g2: Seq<Seq<Cell>>, r: bool)
    requires
        turned_to(b, g, b2, g2, r),
        b.shape == BlockShape::O,
    ensures
        !r,
        b2.cells() == b.cells(),
        g2 == g,
{
}

/// A spawn whose footprint meets an occupied cell gives no piece and leaves
/// the board as it was.
pub proof fn lemma_blocked_spawn_changes_nothing(
    g: Seq<Seq<Cell>>,
    g2: Seq<Seq<Cell>>,
    pos: (isize, isize),
    shape: BlockShape,
    color: BlockColor,
    r: Option<Block>,
    y: int,
    x: int,
)
    requires
        spawn_result(g, g2, pos, shape, color, r),
        0 <= y < 4,
        0 <= x < 4,
        shape_cells(shape)[y][x] == 1,
        occupied(g[pos.0 + y][pos.1 + x]),
    ensures
        r is None,
        g2 == g,
{
}

/// How a write changes a cell.
enum Paint {
    Erase,
    Color(BlockColor),
    Freeze,
}

spec fn painted_cell(p: Paint, c: Cell) -> Cell {
    match p {
        Paint::Erase => Cell { color: c.color, status: CellStatus::Empty },
        Paint::Color(color) => Cell { color: Some(color), status: CellStatus::Moving },
        Paint::Freeze => Cell { color: c.color, status: CellStatus::Frozen },
    }
}

spec fn repainted(g: Seq<Seq<Cell>>, cells: Seq<Seq<i32>>, pos: (int, int), p: Paint) -> Seq<
    Seq<Cell>,
> {
    match p {
        Paint::Erase => erased(g, cells, pos),
        Paint::Color(color) => painted(g, cells, pos, color),
        Paint::Freeze => frozen(g, cells, pos),
    }
}

fn paint_cell(p: &Paint, c: Cell) -> (r: Cell)
    ensures
        r == painted_cell(*p, c),
{
    match p {
        Paint::Erase => Cell { color: c.color, status: CellStatus::Empty },
        Paint::Color(color) => Cell { color: Some(*color), status: CellStatus::Moving },
        Paint::Freeze => Cell { color: c.color, status: CellStatus::Frozen },
    }
}

/// Rewrites every board cell that `matrix`, placed at `position`, fills.
fn repaint(board: &mut Board, matrix: &Matrix, position: (isize, isize), p: Paint)
    requires
        old(board).wf(),
        fits(cells_of(*matrix), at(position)),
    ensures
        final(board).wf(),
        final(board)@ == repainted(old(board)@, cells_of(*matrix), at(position), p),
{
    let ghost g0 = board@;
    let ghost cells = cells_of(*matrix);
    let ghost pos = at(position);
    let mut y: usize = 0;
    while y < 4
        invariant
            board.wf(),
            grid_wf(g0),
            cells == cells_of(*matrix),
            pos == at(position),
            fits(cells, pos),
            y <= 4,
            forall|r: int, c: int|
                0 <= r < HEIGHT && 0 <= c < WIDTH ==> #[trigger] board@[r][c] == if covers(
                    cells,
                    pos,
                    r,
                    c,
                ) && r - pos.0 < y {
                    painted_cell(p, g0[r][c])
                } else {
                    g0[r][c]
                },
        decreases 4 - y,
    {
        let mut x: usize = 0;
        while x < 4
            invariant
                board.wf(),
                grid_wf(g0),
                cells == cells_of(*matrix),
                pos == at(position),
                fits(cells, pos),
                y < 4,
                x <= 4,
                forall|r: int, c: int|
                    0 <= r < HEIGHT && 0 <= c < WIDTH ==> #[trigger] board@[r][c] == if covers(
                        cells,
                        pos,
                        r,
                        c,
                    ) && (r - pos.0 < y || (r - pos.0 == y && c - pos.1 < x)) {
                        painted_cell(p, g0[r][c])
                    } else {
                        g0[r][c]
                    },
            decreases 4 - x,
        {
            if matrix[y][x] == 1 {
                assert(cells[y as int][x as int] == 1);
                let row = (position.0 + y as isize) as usize;
                let col = (position.1 + x as isize) as usize;
                let c = board.cell_at(row, col);
                let n = paint_cell(&p, c);
                board.set_cell(row, col, n);
            }
            x = x + 1;
        }
        y = y + 1;
    }
    match p {
        Paint::Erase => {
            assert(board@ =~~= erased(g0, cells, pos));
        },
        Paint::Color(color) => {
            assert(board@ =~~= painted(g0, cells, pos, color));
        },
        Paint::Freeze => {
            assert(board@ =~~= frozen(g0, cells, pos));
        },
    }
}

impl Block {
    /// The piece's matrix in its current rotation, row by row.
    pub open spec fn cells(&self) -> Seq<Seq<i32>> {
        cells_of(self.matrix)
    }

    /// The piece's matrix fills some cell, and all its filled cells lie on the
    /// board.
    pub open spec fn placed(&self) -> bool {
        &&& has_filled(self.cells())
        &&& fits(self.cells(), at(self.position))
    }

    /// `other` is the same piece as this one in kind, rotation and color.
    pub open spec fn same_piece(&self, other: &Block) -> bool {
        &&& self.shape == other.shape
        &&& self.cells() == other.cells()
        &&& self.color == other.color
    }

    /// A freshly spawned piece of kind `shape` and color `color` at `pos`.
    pub open spec fn is_spawned(&self, pos: (isize, isize), shape: BlockShape, color: BlockColor) -> bool {
        &&& self.shape == shape
        &&& self.cells() == shape_cells(shape)
        &&& self.color == color
        &&& self.status == BlockStatus::Moving
        &&& self.position == pos
        &&& self.placed()
    }

    /// A piece of kind `shape` and color `color` at `position`, painted on the
    /// board whatever the cells there held.
    pub fn with_shape(board: &mut Board, position: (isize, isize), shape: BlockShape, color: BlockColor) -> (r: Block)
        requires
            old(board).wf(),
            spawn_area(at(position)),
        ensures
            final(board).wf(),
            r.is_spawned(position, shape, color),
            final(board)@ == painted(old(board)@, shape_cells(shape), at(position), color),
    {
        let matrix = shape.get_shape();
        proof {
            lemma_shape_fits(shape, at(position));
        }
        let mut block = Block { shape, matrix, color, status: BlockStatus::Moving, position };
        block.add_to_board(board, position);
        block
    }

    /// A piece of random kind and color at `position`, painted on the board
    /// whatever the cells there held.
    pub fn new(board: &mut Board, position: (isize, isize)) -> (r: Block)
        requires
            old(board).wf(),
            spawn_area(at(position)),
        ensures
            final(board).wf(),
            r.is_spawned(position, r.shape, r.color),
            final(board)@ == painted(old(board)@, shape_cells(r.shape), at(position), r.color),
    {
        let shape = BlockShape::random();
        let color = BlockColor::random();
        Block::with_shape(board, position, shape, color)
    }

    /// Spawns a piece of kind `shape` and color `color` at `position` where
    /// its footprint is clear; where any cell of it is occupied, returns
    /// `None` and leaves the board as it was (the game is over).
    pub fn spawn_or_game_over(board: &mut Board, position: (isize, isize), shape: BlockShape, color: BlockColor) -> (r: Option<Block>)
        requires
            old(board).wf(),
            spawn_area(at(position)),
        ensures
            final(board).wf(),
            spawn_result(old(board)@, final(board)@, position, shape, color, r),
    {
        let matrix = shape.get_shape();
        proof {
            lemma_shape_fits(shape, at(position));
        }
        let mut block = Block { shape, matrix, color, status: BlockStatus::Moving, position };
        if !block.check_if_space_filled(board) {
            block.add_to_board(board, position);
            Some(block)
        } else {
            None
        }
    }

    /// Spawns the piece that follows `old_block`: a random kind other than
    /// its kind, and the color after its color in the cycle. Returns `None`,
    /// with the board as it was, where that piece's footprint is not clear.
    pub fn next(board: &mut Board, position: (isize, isize), old_block: &Block) -> (r: Option<Block>)
        requires
            old(board).wf(),
            spawn_area(at(position)),
        ensures
            final(board).wf(),
            exists|shape: BlockShape|
                shape != old_block.shape && spawn_result(
                    old(board)@,
                    final(board)@,
                    position,
                    shape,
                    color_after(old_block.color),
                    r,
                ),
    {
        let shape = BlockShape::random_except(old_block.shape);
        let color = BlockColor::next_color(old_block.color);
        Block::spawn_or_game_over(board, position, shape, color)
    }

    /// Sets the cells of the piece's footprint to Empty.
    pub fn erase_from_board(&mut self, board: &mut Board)
        requires
            old(board).wf(),
            fits(old(self).cells(), at(old(self).position)),
        ensures
            *final(self) == *old(self),
            final(board).wf(),
            final(board)@ == erased(old(board)@, old(self).cells(), at(old(self).position)),
    {
        repaint(board, &self.matrix, self.position, Paint::Erase);
    }

    /// Paints the piece's matrix, placed at `position`, as Moving cells in the
    /// piece's color.
    pub fn add_to_board(&mut self, board: &mut Board, position: (isize, isize))
        requires
            old(board).wf(),
            fits(old(self).cells(), at(position)),
        ensures
            *final(self) == *old(self),
            final(board).wf(),
            final(board)@ == painted(old(board)@, old(self).cells(), at(position), old(self).color),
    {
        repaint(board, &self.matrix, position, Paint::Color(self.color));
    }

    /// Tries to move the piece by `y_change` rows and `x_change` columns.
    /// Where every filled cell can go, the piece is erased, painted at its new
    /// position, and `true` comes back. Otherwise the piece stays; a blocked
    /// move downwards freezes it, and its cells on the board turn Frozen. A
    /// piece that is already Frozen returns `false` at once.
    pub fn update(&mut self, board: &mut Board, y_change: i16, x_change: i16) -> (r: bool)
        requires
            old(board).wf(),
            old(self).placed(),
        ensures
            final(board).wf(),
            moved_to(
                *old(self),
                old(board)@,
                y_change as int,
                x_change as int,
                *final(self),
                final(board)@,
                r,
            ),
    {
        if self.status != BlockStatus::Moving {
            return false;
        }
        let next_position = (
            self.position.0 + y_change as isize,
            self.position.1 + x_change as isize,
        );
        if self.can_move(board, next_position, y_change, x_change) {
            proof {
                let cells = self.cells();
                assert forall|y: int, x: int|
                    0 <= y < 4 && 0 <= x < 4 && cells[y][x] == 1 implies in_board(
                    next_position.0 + y,
                    next_position.1 + x,
                ) by {
                    assert(!move_blocked_at(
                        cells,
                        at(next_position),
                        board@,
                        y_change as int,
                        x_change as int,
                        y,
                        x,
                    ));
                }
            }
            self.erase_from_board(board);
            self.add_to_board(board, next_position);
            self.position = next_position;
            true
        } else {
            if self.status == BlockStatus::Frozen {
                repaint(board, &self.matrix, self.position, Paint::Freeze);
            }
            false
        }
    }

    /// Whether every filled cell of the piece can move to `next_position`,
    /// its current position shifted by `(y_change, x_change)`. The piece must
    /// be Moving. A blocked move downwards freezes it.
    fn can_move(&mut self, board: &mut Board, next_position: (isize, isize), y_change: i16, x_change: i16) -> (r: bool)
        requires
            old(board).wf(),
            old(self).placed(),
            next_position.0 == old(self).position.0 + y_change,
            next_position.1 == old(self).position.1 + x_change,
        ensures
            *final(board) == *old(board),
            r == (old(self).status == BlockStatus::Moving && move_allowed(
                old(self).cells(),
                at(next_position),
                old(board)@,
                y_change as int,
                x_change as int,
            )),
            final(self).shape == old(self).shape,
            final(self).matrix == old(self).matrix,
            final(self).color == old(self).color,
            final(self).position == old(self).position,
            final(self).status == if !r && old(self).status == BlockStatus::Moving && y_change >= 1 {
                BlockStatus::Frozen
            } else {
                old(self).status
            },
    {
        if self.status != BlockStatus::Moving {
            return false;
        }
        let ghost cells = self.cells();
        let ghost next = at(next_position);
        let ghost g = board@;
        let mut y: usize = 0;
        while y < 4
            invariant
                board.wf(),
                g == board@,
                *board == *old(board),
                *self == *old(self),
                self.status == BlockStatus::Moving,
                cells == self.cells(),
                next == at(next_position),
                y <= 4,
                forall|ly: int, lx: int|
                    0 <= ly < y && 0 <= lx < 4 ==> !move_blocked_at(
                        cells,
                        next,
                        g,
                        y_change as int,
                        x_change as int,
                        ly,
                        lx,
                    ),
            decreases 4 - y,
        {
            let mut x: usize = 0;
            while x < 4
                invariant
                    board.wf(),
                    g == board@,
                    *board == *old(board),
                    *self == *old(self),
                    self.status == BlockStatus::Moving,
                    cells == self.cells(),
                    next == at(next_position),
                    y < 4,
                    x <= 4,
                    forall|ly: int, lx: int|
                        (0 <= ly < y && 0 <= lx < 4) || (ly == y && 0 <= lx < x) ==> !move_blocked_at(
                            cells,
                            next,
                            g,
                            y_change as int,
                            x_change as int,
                            ly,
                            lx,
                        ),
                decreases 4 - x,
            {
                if self.matrix[y][x] == 1 {
                    if Block::is_out_of_bounds(next_position, y, x) {
                        assert(move_blocked_at(cells, next, g, y_change as int, x_change as int, y as int, x as int));
                        return self.freeze_if(y_change);
                    } else if board.cell_at(
                        (next_position.0 + y as isize) as usize,
                        (next_position.1 + x as isize) as usize,
                    ).status != CellStatus::Empty {
                        match Self::coord_add_i16_to_usize((y, x), (y_change, x_change)) {
                            Some(local_pos) => {
                                if local_pos.0 < 4 && local_pos.1 < 4 {
                                    if self.matrix[local_pos.0][local_pos.1] == 0 {
                                        assert(move_blocked_at(cells, next, g, y_change as int, x_change as int, y as int, x as int));
                                        return self.freeze_if(y_change);
                                    }
                                } else {
                                    assert(move_blocked_at(cells, next, g, y_change as int, x_change as int, y as int, x as int));
                                    return self.freeze_if(y_change);
                                }
                            },
                            None => {
                                assert(move_blocked_at(cells, next, g, y_change as int, x_change as int, y as int, x as int));
                                return self.freeze_if(y_change);
                            },
                        }
                    }
                }
                x = x + 1;
            }
            y = y + 1;
        }
        true
    }

    /// Freezes the piece where the blocked move went downwards; `false` in
    /// any case.
    fn freeze_if(&mut self, y_change: i16) -> (r: bool)
        ensures
            !r,
            final(self).shape == old(self).shape,
            final(self).matrix == old(self).matrix,
            final(self).color == old(self).color,
            final(self).position == old(self).position,
            final(self).status == if y_change >= 1 {
                BlockStatus::Frozen
            } else {
                old(self).status
            },
    {
        if y_change >= 1 {
            self.status = BlockStatus::Frozen;
        }
        false
    }

    /// Whether the matrix cell `(y, x)`, placed at `position`, falls off the
    /// board.
    fn is_out_of_bounds(position: (isize, isize), y: usize, x: usize) -> (r: bool)
        requires
            y < 4,
            x < 4,
        ensures
            r == !in_board(position.0 + y, position.1 + x),
    {
        let row = position.0 as i128 + y as i128;
        let col = position.1 as i128 + x as i128;
        row >= HEIGHT as i128 || position.1 as i128 >= WIDTH as i128 || col >= WIDTH as i128
            || row < 0 || col < 0
    }

    /// The local coordinate `u` moved by the offset `i`, or `None` where a
    /// component falls below zero.
    fn coord_add_i16_to_usize(u: (usize, usize), i: (i16, i16)) -> (r: Option<(usize, usize)>)
        requires
            u.0 < 4,
            u.1 < 4,
        ensures
            match r {
                Some(p) => p.0 == u.0 + i.0 && p.1 == u.1 + i.1,
                None => u.0 + i.0 < 0 || u.1 + i.1 < 0,
            },
    {
        let a = u.0 as i64 + i.0 as i64;
        let b = u.1 as i64 + i.1 as i64;
        if a < 0 || b < 0 {
            None
        } else {
            Some((a as usize, b as usize))
        }
    }

    /// The board cell under the matrix cell `(y, x)` of the piece.
    pub fn get_cell_at_current_position<'a>(&mut self, board: &'a mut Board, y: usize, x: usize) -> (r: &'a mut Cell)
        requires
            old(board).wf(),
            y < 4,
            x < 4,
            in_board(old(self).position.0 + y, old(self).position.1 + x),
        ensures
            *final(self) == *old(self),
            *r == old(board)@[old(self).position.0 + y][old(self).position.1 + x],
            final(board)@ == old(board)@.update(
                old(self).position.0 + y,
                old(board)@[old(self).position.0 + y].update(old(self).position.1 + x, *final(r)),
            ),
    {
        let row = (self.position.0 + y as isize) as usize;
        let col = (self.position.1 + x as isize) as usize;
        assert(board.data@[row as int]@ == board@[row as int]);
        &mut board.data[row][col]
    }

    /// The board cell under the matrix cell `(y, x)` of a matrix placed at
    /// `position`.
    pub fn get_cell_at_specific_position<'a>(
        &mut self,
        board: &'a mut Board,
        position: (isize, isize),
        y: usize,
        x: usize,
    ) -> (r: &'a mut Cell)
        requires
            old(board).wf(),
            y < 4,
            x < 4,
            in_board(position.0 + y, position.1 + x),
        ensures
            *final(self) == *old(self),
            *r == old(board)@[position.0 + y][position.1 + x],
            final(board)@ == old(board)@.update(
                position.0 + y,
                old(board)@[position.0 + y].update(position.1 + x, *final(r)),
            ),
    {
        let row = (position.0 + y as isize) as usize;
        let col = (position.1 + x as isize) as usize;
        assert(board.data@[row as int]@ == board@[row as int]);
        &mut board.data[row][col]
    }

    /// Whether the rotated matrix `matrix` fits in place: the piece is
    /// Moving, and each filled cell of `matrix` is on the board and Empty or
    /// filled by the current matrix.
    pub fn can_rotate(&mut self, board: &mut Board, matrix: &Matrix) -> (r: bool)
        requires
            old(board).wf(),
        ensures
            *final(self) == *old(self),
            *final(board) == *old(board),
            r == (old(self).status == BlockStatus::Moving && rotate_allowed(
                old(self).cells(),
                cells_of(*matrix),
                at(old(self).position),
                old(board)@,
            )),
    {
        if self.status != BlockStatus::Moving {
            return false;
        }
        let ghost cur = self.cells();
        let ghost rot = cells_of(*matrix);
        let ghost pos = at(self.position);
        let ghost g = board@;
        let mut y: usize = 0;
        while y < 4
            invariant
                board.wf(),
                g == board@,
                *board == *old(board),
                *self == *old(self),
                cur == self.cells(),
                rot == cells_of(*matrix),
                pos == at(self.position),
                y <= 4,
                forall|ly: int, lx: int|
                    0 <= ly < y && 0 <= lx < 4 && rot[ly][lx] == 1 ==> {
                        &&& in_board(pos.0 + ly, pos.1 + lx)
                        &&& (occupied(g[pos.0 + ly][pos.1 + lx]) ==> cur[ly][lx] != 0)
                    },
            decreases 4 - y,
        {
            let mut x: usize = 0;
            while x < 4
                invariant
                    board.wf(),
                    g == board@,
                    *board == *old(board),
                    *self == *old(self),
                    cur == self.cells(),
                    rot == cells_of(*matrix),
                    pos == at(self.position),
                    y < 4,
                    x <= 4,
                    forall|ly: int, lx: int|
                        ((0 <= ly < y && 0 <= lx < 4) || (ly == y && 0 <= lx < x)) && rot[ly][lx]
                            == 1 ==> {
                            &&& in_board(pos.0 + ly, pos.1 + lx)
                            &&& (occupied(g[pos.0 + ly][pos.1 + lx]) ==> cur[ly][lx] != 0)
                        },
                decreases 4 - x,
            {
                if matrix[y][x] == 1 {
                    assert(rot[y as int][x as int] == 1);
                    if Block::is_out_of_bounds(self.position, y, x) {
                        assert(!rotate_allowed(cur, rot, pos, g));
                        return false;
                    } else if board.cell_at(
                        (self.position.0 + y as isize) as usize,
                        (self.position.1 + x as isize) as usize,
                    ).status != CellStatus::Empty && self.matrix[y][x] == 0 {
                        assert(cur[y as int][x as int] == 0);
                        assert(!rotate_allowed(cur, rot, pos, g));
                        return false;
                    }
                }
                x = x + 1;
            }
            y = y + 1;
        }
        true
    }

    /// Whether some cell of the piece's footprint is already occupied.
    fn check_if_space_filled(&mut self, board: &mut Board) -> (r: bool)
        requires
            old(board).wf(),
            fits(old(self).cells(), at(old(self).position)),
        ensures
            *final(self) == *old(self),
            *final(board) == *old(board),
            r == !footprint_clear(old(self).cells(), at(old(self).position), old(board)@),
    {
        let ghost cells = self.cells();
        let ghost pos = at(self.position);
        let ghost g = board@;
        let mut y: usize = 0;
        while y < 4
            invariant
                board.wf(),
                g == board@,
                *board == *old(board),
                *self == *old(self),
                cells == self.cells(),
                pos == at(self.position),
                fits(cells, pos),
                y <= 4,
                forall|ly: int, lx: int|
                    0 <= ly < y && 0 <= lx < 4 && cells[ly][lx] == 1 ==> !occupied(
                        g[pos.0 + ly][pos.1 + lx],
                    ),
            decreases 4 - y,
        {
            let mut x: usize = 0;
            while x < 4
                invariant
                    board.wf(),
                    g == board@,
                    *board == *old(board),
                    *self == *old(self),
                    cells == self.cells(),
                    pos == at(self.position),
                    fits(cells, pos),
                    y < 4,
                    x <= 4,
                    forall|ly: int, lx: int|
                        ((0 <= ly < y && 0 <= lx < 4) || (ly == y && 0 <= lx < x)) && cells[ly][lx]
                            == 1 ==> !occupied(g[pos.0 + ly][pos.1 + lx]),
                decreases 4 - x,
            {
                if self.matrix[y][x] == 1 {
                    assert(cells[y as int][x as int] == 1);
                    if board.cell_at(
                        (self.position.0 + y as isize) as usize,
                        (self.position.1 + x as isize) as usize,
                    ).status != CellStatus::Empty {
                        return true;
                    }
                }
                x = x + 1;
            }
            y = y + 1;
        }
        false
    }

    /// Tries to move the piece sideways by `x_change` columns.
    pub fn move_sideways(&mut self, board: &mut Board, x_change: i16) -> (r: bool)
        requires
            old(board).wf(),
            old(self).placed(),
        ensures
            final(board).wf(),
            moved_to(*old(self), old(board)@, 0, x_change as int, *final(self), final(board)@, r),
    {
        self.update(board, 0, x_change)
    }

    /// Tries to move the piece down one row; where it cannot go, it freezes.
    pub fn move_down(&mut self, board: &mut Board) -> (r: bool)
        requires
            old(board).wf(),
            old(self).placed(),
        ensures
            final(board).wf(),
            moved_to(*old(self), old(board)@, 1, 0, *final(self), final(board)@, r),
    {
        self.update(board, 1, 0)
    }

    /// Tries to turn the piece a quarter turn clockwise in place. The square
    /// kind never turns. Where the turned matrix fits, the piece is erased,
    /// takes the turned matrix, is painted again and `true` comes back;
    /// otherwise nothing changes.
    pub fn rotate(&mut self, board: &mut Board) -> (r: bool)
        requires
            old(board).wf(),
            old(self).placed(),
        ensures
            final(board).wf(),
            turned_to(*old(self), old(board)@, *final(self), final(board)@, r),
    {
        if self.shape == BlockShape::O {
            return false;
        }
        let mut rotated_matrix: Matrix = self.matrix;
        BlockShape::rotate_matrix(&mut rotated_matrix);
        if self.can_rotate(board, &rotated_matrix) {
            proof {
                lemma_rotated_has_filled(self.cells());
            }
            self.erase_from_board(board);
            self.matrix = rotated_matrix;
            self.add_to_board(board, self.position);
            true
        } else {
            false
        }
    }
}

} // verus!
