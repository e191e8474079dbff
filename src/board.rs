use vstd::prelude::*;

use crate::blockcolor::BlockColor;

verus! {

/// The width of the playing board.
pub const WIDTH: usize = 10;

/// The height of the playing board.
pub const HEIGHT: usize = 16;

/// What occupies a cell.
#[derive(Clone, Copy, Debug, PartialEq, Eq, Structural)]
pub enum CellStatus {
    Empty,
    Moving,
    Frozen,
}

/// One cell of the board: its status, and the color last painted on it
/// (`None` is the board's background, which no piece has painted yet).
#[derive(Clone, Copy, Debug, PartialEq, Eq, Structural)]
pub struct Cell {
    pub color: Option<BlockColor>,
    pub status: CellStatus,
}

/// The board: `HEIGHT` rows of `WIDTH` cells, row 0 at the top.
pub struct Board {
    pub data: Vec<Vec<Cell>>,
}

/// A grid of the board's dimensions.
pub open spec fn grid_wf(g: Seq<Seq<Cell>>) -> bool {
    &&& g.len() == HEIGHT
    &&& forall|y: int| 0 <= y < HEIGHT ==> #[trigger] g[y].len() == WIDTH
}

/// The occupied cells among the first `k` cells in row-major order, each as
/// `(x, y, color)`.
pub open spec fn filled_upto(g: Seq<Seq<Cell>>, k: int) -> Seq<(usize, usize, Option<BlockColor>)>
    decreases k,
{
    if k <= 0 {
        Seq::empty()
    } else {
        let y = (k - 1) / (WIDTH as int);
        let x = (k - 1) % (WIDTH as int);
        let before = filled_upto(g, k - 1);
        if occupied(g[y][x]) {
            before.push((x as usize, y as usize, g[y][x].color))
        } else {
            before
        }
    }
}

/// Every occupied cell of the grid as `(x, y, color)`, row by row from the
/// top, left to right within a row.
pub open spec fn filled_cells_of(g: Seq<Seq<Cell>>) -> Seq<(usize, usize, Option<BlockColor>)> {
    filled_upto(g, (HEIGHT * WIDTH) as int)
}

/// A grid of the board's dimensions whose cells are all Empty and unpainted.
pub open spec fn empty_grid() -> Seq<Seq<Cell>> {
    Seq::new(
        HEIGHT as nat,
        |y: int| Seq::new(WIDTH as nat, |x: int| Cell { color: None, status: CellStatus::Empty }),
    )
}

/// No cell of the grid is Moving.
pub open spec fn no_moving_cells(g: Seq<Seq<Cell>>) -> bool {
    forall|y: int, x: int|
        0 <= y < HEIGHT && 0 <= x < WIDTH ==> (#[trigger] g[y][x]).status != CellStatus::Moving
}

proof fn lemma_first_unfrozen_range(g: Seq<Seq<Cell>>, r: int, x: int, k: int)
    requires
        k <= r,
    ensures
        k <= first_unfrozen(g, r, x, k) <= r,
    decreases r - k,
{
    if k < r && g[k][x].status == CellStatus::Frozen {
        lemma_first_unfrozen_range(g, r, x, k + 1);
    }
}

/// Removing rows creates no Moving cell: a removed row turns Empty, and the
/// fall only moves cells about.
pub proof fn lemma_clearing_adds_no_moving(g: Seq<Seq<Cell>>, n: nat)
    requires
        grid_wf(g),
        no_moving_cells(g),
        forall|i: nat| i < n ==> #[trigger] has_complete_row(cleared_after(g, i)),
    ensures
        grid_wf(cleared_after(g, n)),
        no_moving_cells(cleared_after(g, n)),
    decreases n,
{
    if n > 0 {
        let m = (n - 1) as nat;
        lemma_clearing_adds_no_moving(g, m);
        let h = cleared_after(g, m);
        assert(has_complete_row(h));
        let r = bottom_complete_row(h);
        let yc = choose|y: int| 0 <= y < HEIGHT && row_complete(h, y);
        assert(is_bottom_complete_row(h, r)) by {
            lemma_bottom_complete_row_exists(h, yc);
        }
        let c = cleared_row(h, r);
        assert(grid_wf(c));
        assert(no_moving_cells(c)) by {
            assert forall|y: int, x: int| 0 <= y < HEIGHT && 0 <= x < WIDTH implies (#[trigger] c[y][x]).status
                != CellStatus::Moving by {
                assert(h[y].len() == WIDTH);
            }
        }
        assert forall|y: int, x: int| 0 <= y < HEIGHT && 0 <= x < WIDTH implies (#[trigger] collapsed(
            c,
            r,
        )[y][x]).status != CellStatus::Moving by {
            assert(c[y].len() == WIDTH);
            if y <= r {
                lemma_first_unfrozen_range(c, r, x, y);
            }
        }
        assert(cleared_after(g, n) == collapsed(c, r));
    }
}

/// A grid with a complete row has a bottom complete row.
proof fn lemma_bottom_complete_row_exists(g: Seq<Seq<Cell>>, y: int)
    requires
        0 <= y < HEIGHT,
        row_complete(g, y),
    ensures
        is_bottom_complete_row(g, bottom_complete_row(g)),
    decreases HEIGHT - y,
{
    if is_bottom_complete_row(g, y) {
    } else {
        let y2 = choose|y2: int| y < y2 < HEIGHT && row_complete(g, y2);
        lemma_bottom_complete_row_exists(g, y2);
    }
}

/// Whether a cell is taken, by a moving piece or by frozen content.
pub open spec fn occupied(c: Cell) -> bool {
    c.status != CellStatus::Empty
}

/// Row `y` has no Empty cell.
pub open spec fn row_complete(g: Seq<Seq<Cell>>, y: int) -> bool {
    forall|x: int| 0 <= x < WIDTH ==> occupied(#[trigger] g[y][x])
}

/// Some row of the grid is complete.
pub open spec fn has_complete_row(g: Seq<Seq<Cell>>) -> bool {
    exists|y: int| 0 <= y < HEIGHT && row_complete(g, y)
}

/// `r` is the complete row nearest the bottom.
pub open spec fn is_bottom_complete_row(g: Seq<Seq<Cell>>, r: int) -> bool {
    &&& 0 <= r < HEIGHT
    &&& row_complete(g, r)
    &&& forall|y: int| r < y < HEIGHT ==> !row_complete(g, y)
}

/// The complete row nearest the bottom, where there is one.
pub open spec fn bottom_complete_row(g: Seq<Seq<Cell>>) -> int {
    choose|r: int| is_bottom_complete_row(g, r)
}

/// The grid with every cell of row `r` set to Empty, colors kept.
pub open spec fn cleared_row(g: Seq<Seq<Cell>>, r: int) -> Seq<Seq<Cell>> {
    g.update(r, Seq::new(WIDTH as nat, |x: int| Cell { color: g[r][x].color, status: CellStatus::Empty }))
}

/// The first row at or below `k`, and above `r` or at `r`, whose cell in
/// column `x` is not Frozen (row `r` itself if there is none above it).
pub open spec fn first_unfrozen(g: Seq<Seq<Cell>>, r: int, x: int, k: int) -> int
    decreases r - k,
{
    if k >= r || g[k][x].status != CellStatus::Frozen {
        k
    } else {
        first_unfrozen(g, r, x, k + 1)
    }
}

/// The cell at `(y, x)` once every Frozen cell above row `r` has swapped with
/// the cell below it, rows taken from `r - 1` up to 0. A Frozen cell lands one
/// row lower; any other cell at or above `r` is the one that the swaps
/// carried up to it, from the first non-Frozen cell at or below it.
pub open spec fn collapsed_cell(g: Seq<Seq<Cell>>, r: int, y: int, x: int) -> Cell {
    if y > r {
        g[y][x]
    } else if y >= 1 && g[y - 1][x].status == CellStatus::Frozen {
        g[y - 1][x]
    } else {
        g[first_unfrozen(g, r, x, y)][x]
    }
}

/// The grid after the content above row `r` has fallen by one row.
pub open spec fn collapsed(g: Seq<Seq<Cell>>, r: int) -> Seq<Seq<Cell>> {
    Seq::new(g.len(), |y: int| Seq::new(g[y].len(), |x: int| collapsed_cell(g, r, y, x)))
}

/// One removal: the bottom complete row is emptied and what lies above it
/// falls by one row.
pub open spec fn clear_step(g: Seq<Seq<Cell>>) -> Seq<Seq<Cell>> {
    let r = bottom_complete_row(g);
    collapsed(cleared_row(g, r), r)
}

/// The grid after `n` removals.
pub open spec fn cleared_after(g: Seq<Seq<Cell>>, n: nat) -> Seq<Seq<Cell>>
    decreases n,
{
    if n == 0 {
        g
    } else {
        clear_step(cleared_after(g, (n - 1) as nat))
    }
}

/// Exactly `n` removals leave the grid with no complete row: each grid before
/// the last has one, and the last has none.
pub open spec fn settles_after(g: Seq<Seq<Cell>>, n: nat) -> bool {
    &&& forall|i: nat| i < n ==> #[trigger] has_complete_row(cleared_after(g, i))
    &&& !has_complete_row(cleared_after(g, n))
}

/// A score raised by `n`, held at `u32::MAX`.
pub open spec fn raised_score(score: u32, n: nat) -> u32 {
    if score + n > u32::MAX {
        u32::MAX
    } else {
        (score + n) as u32
    }
}

/// 1 for an occupied cell, 0 for an Empty one.
pub open spec fn occupied_weight(c: Cell) -> nat {
    if occupied(c) {
        1
    } else {
        0
    }
}

/// The number of occupied cells of a row.
pub open spec fn row_count(row: Seq<Cell>) -> nat
    decreases row.len(),
{
    if row.len() == 0 {
        0
    } else {
        row_count(row.drop_last()) + occupied_weight(row.last())
    }
}

/// The number of occupied cells of a grid.
pub open spec fn grid_count(g: Seq<Seq<Cell>>) -> nat
    decreases g.len(),
{
    if g.len() == 0 {
        0
    } else {
        grid_count(g.drop_last()) + row_count(g.last())
    }
}

proof fn lemma_row_count_update(row: Seq<Cell>, i: int, c: Cell)
    requires
        0 <= i < row.len(),
    ensures
        row_count(row.update(i, c)) + occupied_weight(row[i]) == row_count(row)
            + occupied_weight(c),
    decreases row.len(),
{
    let u = row.update(i, c);
    if i == row.len() - 1 {
        assert(u.drop_last() =~= row.drop_last());
    } else {
        assert(u.drop_last() =~= row.drop_last().update(i, c));
        lemma_row_count_update(row.drop_last(), i, c);
    }
}

proof fn lemma_grid_count_update(g: Seq<Seq<Cell>>, y: int, row: Seq<Cell>)
    requires
        0 <= y < g.len(),
    ensures
        grid_count(g.update(y, row)) + row_count(g[y]) == grid_count(g) + row_count(row),
    decreases g.len(),
{
    let u = g.update(y, row);
    if y == g.len() - 1 {
        assert(u.drop_last() =~= g.drop_last());
    } else {
        assert(u.drop_last() =~= g.drop_last().update(y, row));
        lemma_grid_count_update(g.drop_last(), y, row);
    }
}

/// Writing one cell changes the count by the difference of the two weights.
proof fn lemma_grid_count_set(g: Seq<Seq<Cell>>, y: int, x: int, c: Cell)
    requires
        0 <= y < g.len(),
        0 <= x < g[y].len(),
    ensures
        grid_count(g.update(y, g[y].update(x, c))) + occupied_weight(g[y][x]) == grid_count(g)
            + occupied_weight(c),
{
    lemma_row_count_update(g[y], x, c);
    lemma_grid_count_update(g, y, g[y].update(x, c));
}

/// There is at most one bottom complete row.
proof fn lemma_bottom_complete_row(g: Seq<Seq<Cell>>, r: int)
    requires
        is_bottom_complete_row(g, r),
    ensures
        bottom_complete_row(g) == r,
{
    let s = bottom_complete_row(g);
    assert(is_bottom_complete_row(g, s));
    if s < r {
        assert(!row_complete(g, r));
    } else if s > r {
        assert(!row_complete(g, s));
    }
}

/// Clearing is deterministic: a grid settles after one number of removals.
pub proof fn lemma_settles_after_unique(g: Seq<Seq<Cell>>, n: nat, m: nat)
    requires
        settles_after(g, n),
        settles_after(g, m),
    ensures
        n == m,
{
    if n < m {
        assert(has_complete_row(cleared_after(g, n)));
    } else if m < n {
        assert(has_complete_row(cleared_after(g, m)));
    }
}

/// A grid with a complete row whose removal leaves no complete row settles
/// after exactly one removal: `update` raises its score by exactly one.
pub proof fn lemma_single_removal_scores_one(g: Seq<Seq<Cell>>, n: nat)
    requires
        has_complete_row(g),
        !has_complete_row(clear_step(g)),
        settles_after(g, n),
    ensures
        n == 1,
{
    assert(cleared_after(g, 0) == g);
    assert(cleared_after(g, 1) == clear_step(g));
    assert(settles_after(g, 1));
    lemma_settles_after_unique(g, n, 1);
}

/// A grid where two removals, one after the other, leave no complete row
/// settles after exactly two: `update` raises its score by exactly two.
pub proof fn lemma_two_removals_score_two(g: Seq<Seq<Cell>>, n: nat)
    requires
        has_complete_row(g),
        has_complete_row(clear_step(g)),
        !has_complete_row(clear_step(clear_step(g))),
        settles_after(g, n),
    ensures
        n == 2,
{
    assert(cleared_after(g, 0) == g);
    assert(cleared_after(g, 1) == clear_step(g));
    assert(cleared_after(g, 2) == clear_step(clear_step(g)));
    assert forall|i: nat| i < 2 implies #[trigger] has_complete_row(cleared_after(g, i)) by {
        if i == 1 {
            assert(cleared_after(g, i) == clear_step(g));
        }
    }
    assert(settles_after(g, 2));
    lemma_settles_after_unique(g, n, 2);
}

/// When the bottom complete row `r` is cleared, in every column a Frozen cell
/// of row `r - 1` is found at row `r` afterwards, and the cell it left is
/// Empty unless a Frozen cell stood at row `r - 2` above it (that one falls
/// into it).
pub proof fn lemma_clear_shifts_down(g: Seq<Seq<Cell>>, r: int)
    requires
        grid_wf(g),
        is_bottom_complete_row(g, r),
        r >= 1,
    ensures
        forall|x: int|
            0 <= x < WIDTH && (#[trigger] g[r - 1][x]).status == CellStatus::Frozen ==> {
                &&& clear_step(g)[r][x] == g[r - 1][x]
                &&& (r == 1 || g[r - 2][x].status != CellStatus::Frozen) ==> clear_step(
                    g,
                )[r - 1][x].status == CellStatus::Empty
            },
{
    lemma_bottom_complete_row(g, r);
    let c = cleared_row(g, r);
    assert forall|x: int|
        0 <= x < WIDTH && (#[trigger] g[r - 1][x]).status == CellStatus::Frozen implies {
            &&& clear_step(g)[r][x] == g[r - 1][x]
            &&& (r == 1 || g[r - 2][x].status != CellStatus::Frozen) ==> clear_step(
                g,
            )[r - 1][x].status == CellStatus::Empty
        } by {
        assert(c[r - 1][x] == g[r - 1][x]);
        assert(first_unfrozen(c, r, x, r - 1) == first_unfrozen(c, r, x, r));
        assert(c[r][x].status == CellStatus::Empty);
    }
}

impl View for Board {
    type V = Seq<Seq<Cell>>;

    open spec fn view(&self) -> Seq<Seq<Cell>> {
        self.data@.map_values(|row: Vec<Cell>| row@)
    }
}

impl Board {
    /// The board has its fixed dimensions.
    pub open spec fn wf(&self) -> bool {
        grid_wf(self@)
    }

    /// A board whose cells are all Empty.
    pub fn new() -> (r: Board)
        ensures
            r.wf(),
            r@ == empty_grid(),
    {
        let blank = Cell { color: None, status: CellStatus::Empty };
        let mut data: Vec<Vec<Cell>> = Vec::new();
        let mut y: usize = 0;
        while y < HEIGHT
            invariant
                y <= HEIGHT,
                data@.len() == y,
                forall|j: int| 0 <= j < y ==> (#[trigger] data@[j])@.len() == WIDTH,
                forall|j: int, x: int| 0 <= j < y && 0 <= x < WIDTH ==> data@[j]@[x] == blank,
            decreases HEIGHT - y,
        {
            let mut row: Vec<Cell> = Vec::new();
            let mut x: usize = 0;
            while x < WIDTH
                invariant
                    x <= WIDTH,
                    row@.len() == x,
                    forall|i: int| 0 <= i < x ==> row@[i] == blank,
                decreases WIDTH - x,
            {
                row.push(blank);
                x = x + 1;
            }
            data.push(row);
            y = y + 1;
        }
        let board = Board { data };
        assert(board@ =~~= empty_grid());
        board
    }

    /// The cell at row `y`, column `x`.
    pub fn cell_at(&self, y: usize, x: usize) -> (r: Cell)
        requires
            self.wf(),
            y < HEIGHT,
            x < WIDTH,
        ensures
            r == self@[y as int][x as int],
    {
        self.data[y][x]
    }

    /// Writes the cell at row `y`, column `x`.
    pub fn set_cell(&mut self, y: usize, x: usize, c: Cell)
        requires
            old(self).wf(),
            y < HEIGHT,
            x < WIDTH,
        ensures
            final(self).wf(),
            final(self)@ == old(self)@.update(y as int, old(self)@[y as int].update(x as int, c)),
    {
        assert(self.data@[y as int]@ == self@[y as int]);
        self.data[y][x] = c;
        assert(self@ =~= old(self)@.update(y as int, old(self)@[y as int].update(x as int, c)));
    }

    /// Every occupied cell as `(x, y, color)`, row by row from the top, left
    /// to right within a row: what a renderer draws.
    pub fn filled_cells(&self) -> (r: Vec<(usize, usize, Option<BlockColor>)>)
        requires
            self.wf(),
        ensures
            r@ == filled_cells_of(self@),
    {
        let mut out: Vec<(usize, usize, Option<BlockColor>)> = Vec::new();
        let mut y: usize = 0;
        while y < HEIGHT
            invariant
                self.wf(),
                y <= HEIGHT,
                out@ == filled_upto(self@, y * WIDTH),
            decreases HEIGHT - y,
        {
            let mut x: usize = 0;
            while x < WIDTH
                invariant
                    self.wf(),
                    y < HEIGHT,
                    x <= WIDTH,
                    out@ == filled_upto(self@, y * WIDTH + x),
                decreases WIDTH - x,
            {
                proof {
                    let k: int = y * WIDTH + x;
                    assert(k / (WIDTH as int) == y && k % (WIDTH as int) == x) by (nonlinear_arith)
                        requires
                            k == y * WIDTH + x,
                            0 <= x < WIDTH,
                            WIDTH == 10,
                    ;
                }
                let c = self.cell_at(y, x);
                if c.status != CellStatus::Empty {
                    out.push((x, y, c.color));
                }
                x = x + 1;
            }
            y = y + 1;
        }
        out
    }

    /// Whether row `y` has no Empty cell.
    fn row_is_complete(&self, y: usize) -> (r: bool)
        requires
            self.wf(),
            y < HEIGHT,
        ensures
            r == row_complete(self@, y as int),
    {
        let mut cell_count: usize = 0;
        let mut x: usize = 0;
        while x < WIDTH
            invariant
                self.wf(),
                y < HEIGHT,
                x <= WIDTH,
                cell_count <= x,
                cell_count == x <==> forall|i: int| 0 <= i < x ==> occupied(#[trigger] self@[y as int][i]),
            decreases WIDTH - x,
        {
            if self.cell_at(y, x).status != CellStatus::Empty {
                cell_count = cell_count + 1;
            }
            x = x + 1;
        }
        cell_count == WIDTH
    }

    /// The complete row nearest the bottom, or `None` where no row is complete.
    fn bottom_complete(&self) -> (r: Option<usize>)
        requires
            self.wf(),
        ensures
            match r {
                None => !has_complete_row(self@),
                Some(y) => is_bottom_complete_row(self@, y as int),
            },
    {
        let mut i: usize = HEIGHT;
        while i > 0
            invariant
                self.wf(),
                i <= HEIGHT,
                forall|y: int| i <= y < HEIGHT ==> !row_complete(self@, y),
            decreases i,
        {
            let y = i - 1;
            if self.row_is_complete(y) {
                return Some(y);
            }
            i = y;
        }
        None
    }

    /// Empties every cell of row `r`, which is complete.
    fn clear_row(&mut self, r: usize)
        requires
            old(self).wf(),
            r < HEIGHT,
            row_complete(old(self)@, r as int),
        ensures
            final(self).wf(),
            final(self)@ == cleared_row(old(self)@, r as int),
            grid_count(final(self)@) + WIDTH == grid_count(old(self)@),
    {
        let ghost g0 = self@;
        let mut x: usize = 0;
        while x < WIDTH
            invariant
                self.wf(),
                grid_wf(g0),
                r < HEIGHT,
                x <= WIDTH,
                row_complete(g0, r as int),
                grid_count(self@) + x == grid_count(g0),
                forall|y: int| 0 <= y < HEIGHT && y != r ==> self@[y] == g0[y],
                forall|i: int|
                    0 <= i < x ==> self@[r as int][i] == (Cell {
                        color: g0[r as int][i].color,
                        status: CellStatus::Empty,
                    }),
                forall|i: int| x <= i < WIDTH ==> self@[r as int][i] == g0[r as int][i],
            decreases WIDTH - x,
        {
            let c = self.cell_at(r, x);
            let blank = Cell { color: c.color, status: CellStatus::Empty };
            proof {
                lemma_grid_count_set(self@, r as int, x as int, blank);
            }
            self.set_cell(r, x, blank);
            x = x + 1;
        }
        assert(self@ =~~= cleared_row(g0, r as int));
    }

    /// Moves the content above row `r` down by one row: from row `r - 1` up
    /// to row 0, each Frozen cell swaps with the cell below it.
    fn move_down(&mut self, r: usize)
        requires
            old(self).wf(),
            r < HEIGHT,
        ensures
            final(self).wf(),
            final(self)@ == collapsed(old(self)@, r as int),
            grid_count(final(self)@) == grid_count(old(self)@),
    {
        let ghost g0 = self@;
        let ghost rr = r as int;
        let mut i: usize = r;
        while i > 0
            invariant
                self.wf(),
                grid_wf(g0),
                rr == r,
                i <= r < HEIGHT,
                grid_count(self@) == grid_count(g0),
                forall|y: int, x: int|
                    i < y < HEIGHT && 0 <= x < WIDTH ==> self@[y][x] == collapsed_cell(
                        g0,
                        rr,
                        y,
                        x,
                    ),
                forall|x: int|
                    0 <= x < WIDTH ==> self@[i as int][x] == g0[first_unfrozen(
                        g0,
                        rr,
                        x,
                        i as int,
                    )][x],
                forall|y: int, x: int| 0 <= y < i && 0 <= x < WIDTH ==> self@[y][x] == g0[y][x],
            decreases i,
        {
            let y = i - 1;
            let ghost yy = y as int;
            let ghost ii = i as int;
            let mut x: usize = 0;
            while x < WIDTH
                invariant
                    self.wf(),
                    grid_wf(g0),
                    rr == r,
                    yy == y,
                    ii == i,
                    y + 1 == i,
                    i <= r < HEIGHT,
                    x <= WIDTH,
                    grid_count(self@) == grid_count(g0),
                    forall|y2: int, x2: int|
                        i < y2 < HEIGHT && 0 <= x2 < WIDTH ==> self@[y2][x2] == collapsed_cell(
                            g0,
                            rr,
                            y2,
                            x2,
                        ),
                    forall|x2: int|
                        0 <= x2 < x ==> self@[ii][x2] == collapsed_cell(g0, rr, ii, x2),
                    forall|x2: int|
                        0 <= x2 < x ==> self@[yy][x2] == g0[first_unfrozen(g0, rr, x2, yy)][x2],
                    forall|x2: int|
                        x <= x2 < WIDTH ==> self@[ii][x2] == g0[first_unfrozen(
                            g0,
                            rr,
                            x2,
                            ii,
                        )][x2],
                    forall|x2: int| x <= x2 < WIDTH ==> self@[yy][x2] == g0[yy][x2],
                    forall|y2: int, x2: int|
                        0 <= y2 < y && 0 <= x2 < WIDTH ==> self@[y2][x2] == g0[y2][x2],
                decreases WIDTH - x,
            {
                let c = self.cell_at(y, x);
                if c.status == CellStatus::Frozen {
                    let below = self.cell_at(i, x);
                    proof {
                        lemma_grid_count_set(self@, yy, x as int, below);
                    }
                    self.set_cell(y, x, below);
                    proof {
                        lemma_grid_count_set(self@, ii, x as int, c);
                    }
                    self.set_cell(i, x, c);
                }
                x = x + 1;
            }
            i = y;
        }
        assert(self@ =~~= collapsed(g0, rr));
    }

    /// Removes completed rows until none is left. Rows are taken one at a
    /// time, the one nearest the bottom first; each removal empties that row,
    /// lets the Frozen content above it fall by one row and raises the score by
    /// one (held at `u32::MAX`), and the scan then starts again from the bottom.
    pub fn update(&mut self, score: &mut u32)
        requires
            old(self).wf(),
        ensures
            final(self).wf(),
            !has_complete_row(final(self)@),
            exists|n: nat|
                {
                    &&& settles_after(old(self)@, n)
                    &&& final(self)@ == cleared_after(old(self)@, n)
                    &&& *final(score) == raised_score(*old(score), n)
                },
    {
        let ghost g0 = self@;
        let ghost s0: u32 = *score;
        let ghost mut n: nat = 0;
        loop
            invariant
                self.wf(),
                self@ == cleared_after(g0, n),
                forall|i: nat| i < n ==> #[trigger] has_complete_row(cleared_after(g0, i)),
                *score == raised_score(s0, n),
            ensures
                self.wf(),
                settles_after(g0, n),
                self@ == cleared_after(g0, n),
                *score == raised_score(s0, n),
            decreases grid_count(self@),
        {
            match self.bottom_complete() {
                None => {
                    break;
                },
                Some(r) => {
                    let ghost before = self@;
                    proof {
                        lemma_bottom_complete_row(before, r as int);
                        assert(has_complete_row(before));
                    }
                    self.clear_row(r);
                    self.move_down(r);
                    *score = score.saturating_add(1);
                    proof {
                        assert(cleared_after(g0, n + 1) == clear_step(cleared_after(g0, n)));
                        n = n + 1;
                    }
                },
            }
        }
        assert(settles_after(g0, n));
    }
}

} // verus!
