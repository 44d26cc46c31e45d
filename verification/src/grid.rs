//! The grid: a flat buffer of cells on a torus, and the step from one
//! generation to the next.

use vstd::prelude::*;
use crate::cell::{
    count_alive,
    count_live,
    lemma_all_alive_iff_full,
    lemma_all_dead_iff_empty,
    lemma_count_alive_of_permutation,
    lemma_count_alive_uniform,
    Cell,
};
use crate::shuffle::shuffle_cells;
use crate::topology::{
    col_of,
    lemma_index_of,
    lemma_neighbors_in_grid,
    lemma_row_col,
    lemma_shifted_in_grid,
    lemma_single_cell_neighbors,
    lemma_wrap_step,
    neighbor_indices,
    row_of,
    wrap,
};

verus! {

/// Why a grid could not be made.
#[derive(Debug, Clone, Copy, PartialEq, Eq, Structural)]
pub enum GridError {
    /// A dimension is zero, or the cells asked for do not fit the grid.
    InvalidConfig,
}

/// How many cells of `cells` are alive at `percent` per cent, rounded down.
pub open spec fn live_quota(cells: nat, percent: nat) -> nat {
    cells * percent / 100
}

/// A generation of the automaton as a mathematical value.
pub struct GridView {
    pub width: nat,
    pub height: nat,
    pub cells: Seq<Cell>,
}

impl GridView {
    /// Both dimensions are positive and there is one cell per position.
    pub open spec fn wf(self) -> bool {
        &&& self.width > 0
        &&& self.height > 0
        &&& self.cells.len() == self.width * self.height
    }

    /// Indices of the eight neighbours of the cell at `idx`.
    pub open spec fn neighbor_indices(self, idx: int) -> Seq<int> {
        neighbor_indices(self.width as int, self.height as int, idx)
    }

    /// States of the eight neighbours of the cell at `idx`, in the order
    /// of `neighbor_indices`.
    pub open spec fn neighbors(self, idx: int) -> Seq<Cell> {
        Seq::new(8, |k: int| self.cells[self.neighbor_indices(idx)[k]])
    }

    /// How many of the eight neighbours of the cell at `idx` are alive.
    pub open spec fn live_neighbors(self, idx: int) -> nat {
        count_alive(self.neighbors(idx))
    }

    /// The generation that follows this one: every cell takes the state
    /// that the rule gives it for its neighbours in this generation.
    pub open spec fn next(self) -> GridView {
        GridView {
            width: self.width,
            height: self.height,
            cells: Seq::new(
                self.cells.len(),
                |i: int| self.cells[i].next(self.live_neighbors(i)),
            ),
        }
    }
}

/// A toroidal grid of cells, stored row by row.
#[derive(Debug, Clone)]
pub struct Grid {
    width: usize,
    height: usize,
    buf: Vec<Cell>,
}

impl View for Grid {
    type V = GridView;

    closed spec fn view(&self) -> GridView {
        GridView { width: self.width as nat, height: self.height as nat, cells: self.buf@ }
    }
}

impl Grid {
    /// The invariant of every grid that this library hands out.
    pub open spec fn wf(&self) -> bool {
        self@.wf()
    }

    /// Makes a grid of `width` by `height` cells of which `percent` per
    /// cent, rounded down, are alive, at places chosen at random. Fails
    /// when a dimension is zero or `percent` is above 100. The number of
    /// cells has to fit in a `usize`.
    pub fn new(width: usize, height: usize, percent: u8) -> (res: Result<Grid, GridError>)
        requires
            width * height <= usize::MAX,
        ensures
            res is Err <==> width == 0 || height == 0 || percent > 100,
            res matches Err(e) ==> e == GridError::InvalidConfig,
            res matches Ok(g) ==> {
                &&& g.wf()
                &&& g@.width == width
                &&& g@.height == height
                &&& count_alive(g@.cells) == live_quota((width * height) as nat, percent as nat)
                &&& percent == 100 ==> forall|i: int|
                    0 <= i < g@.cells.len() ==> g@.cells[i] == Cell::Alive
                &&& percent == 0 ==> forall|i: int|
                    0 <= i < g@.cells.len() ==> g@.cells[i] == Cell::Dead
            },
    {
        if percent > 100 {
            return Err(GridError::InvalidConfig);
        }
        let size = width * height;
        assert(size * percent <= size * 100) by (nonlinear_arith)
            requires
                percent <= 100,
        ;
        let scaled = (size as u128) * (percent as u128);
        let live = (scaled / 100) as usize;
        let res = Grid::with_live_count(width, height, live);
        proof {
            if res is Ok {
                let cells = res->Ok_0@.cells;
                lemma_all_alive_iff_full(cells);
                lemma_all_dead_iff_empty(cells);
                assert(size * 100 / 100 == size);
                assert(size * 0 / 100 == 0);
            }
        }
        res
    }

    /// Makes a grid of `width` by `height` cells of which exactly `live`
    /// are alive, at places chosen at random. Fails when a dimension is
    /// zero or `live` is more than the grid holds. The number of cells
    /// has to fit in a `usize`.
    pub fn with_live_count(width: usize, height: usize, live: usize) -> (res: Result<
        Grid,
        GridError,
    >)
        requires
            width * height <= usize::MAX,
        ensures
            res is Err <==> width == 0 || height == 0 || live > width * height,
            res matches Err(e) ==> e == GridError::InvalidConfig,
            res matches Ok(g) ==> {
                &&& g.wf()
                &&& g@.width == width
                &&& g@.height == height
                &&& count_alive(g@.cells) == live
            },
    {
        if width == 0 || height == 0 {
            return Err(GridError::InvalidConfig);
        }
        let size = width * height;
        if live > size {
            return Err(GridError::InvalidConfig);
        }
        let mut buf: Vec<Cell> = Vec::new();
        let mut i: usize = 0;
        while i < live
            invariant
                i <= live,
                buf@.len() == i,
                count_alive(buf@) == i,
            decreases live - i,
        {
            assert(buf@.push(Cell::Alive).drop_last() =~= buf@);
            buf.push(Cell::Alive);
            i += 1;
        }
        while i < size
            invariant
                live <= i <= size,
                buf@.len() == i,
                count_alive(buf@) == live,
            decreases size - i,
        {
            assert(buf@.push(Cell::Dead).drop_last() =~= buf@);
            buf.push(Cell::Dead);
            i += 1;
        }
        let ghost ordered = buf@;
        let mut rng = rand::thread_rng();
        shuffle_cells(&mut rng, &mut buf);
        proof {
            lemma_count_alive_of_permutation(buf@, ordered);
        }
        Ok(Grid { width, height, buf })
    }

    /// Makes a grid of `width` by `height` cells from the cells given row
    /// by row. Fails when a dimension is zero or the number of cells is
    /// not `width * height`.
    pub fn from_cells(width: usize, height: usize, cells: Vec<Cell>) -> (res: Result<
        Grid,
        GridError,
    >)
        ensures
            res is Err <==> width == 0 || height == 0 || cells@.len() != width * height,
            res matches Ok(g) ==> g.wf() && g@ == (GridView {
                width: width as nat,
                height: height as nat,
                cells: cells@,
            }),
            res matches Err(e) ==> e == GridError::InvalidConfig,
    {
        if width == 0 || height == 0 {
            return Err(GridError::InvalidConfig);
        }
        let n = cells.len();
        if n % width != 0 || n / width != height {
            proof {
                if n == width * height {
                    lemma_index_of(width as int, height as int + 1, height as int, 0);
                }
            }
            return Err(GridError::InvalidConfig);
        }
        proof {
            vstd::arithmetic::div_mod::lemma_fundamental_div_mod(n as int, width as int);
            assert(width * height == height * width) by (nonlinear_arith);
        }
        Ok(Grid { width, height, buf: cells })
    }

    /// The grid as a renderer reads it: the number of columns, the number
    /// of rows, and the cells row by row.
    pub fn snapshot(&self) -> (shot: (usize, usize, &[Cell]))
        ensures
            shot.0 == self@.width,
            shot.1 == self@.height,
            shot.2@ == self@.cells,
    {
        (self.width, self.height, self.buf.as_slice())
    }

    /// Number of columns.
    pub fn width(&self) -> (w: usize)
        ensures
            w == self@.width,
    {
        self.width
    }

    /// Number of rows.
    pub fn height(&self) -> (h: usize)
        ensures
            h == self@.height,
    {
        self.height
    }

    /// The cells, row by row.
    pub fn cells(&self) -> (cells: &Vec<Cell>)
        ensures
            cells@ == self@.cells,
    {
        &self.buf
    }

    /// Indices of the eight neighbours of the cell at `idx`, in the order
    /// left, right, up, down, right-up, right-down, left-up, left-down.
    pub fn neighbor_indices(&self, idx: usize) -> (res: [usize; 8])
        requires
            self.wf(),
            idx < self@.cells.len(),
        ensures
            forall|k: int|
                0 <= k < 8 ==> #[trigger] res@[k] == self@.neighbor_indices(idx as int)[k],
            forall|k: int| 0 <= k < 8 ==> #[trigger] res@[k] < self@.cells.len(),
    {
        let w = self.width;
        let h = self.height;
        let n = self.buf.len();
        proof {
            let (wi, hi, x) = (w as int, h as int, idx as int);
            assert(wi * hi == n);
            lemma_row_col(wi, hi, x);
            lemma_wrap_step(col_of(wi, x), -1, wi);
            lemma_wrap_step(col_of(wi, x), 0, wi);
            lemma_wrap_step(col_of(wi, x), 1, wi);
            lemma_wrap_step(row_of(wi, x), -1, hi);
            lemma_wrap_step(row_of(wi, x), 0, hi);
            lemma_wrap_step(row_of(wi, x), 1, hi);
            lemma_shifted_in_grid(wi, hi, x, -1, 0);
            lemma_shifted_in_grid(wi, hi, x, 1, 0);
            lemma_shifted_in_grid(wi, hi, x, 0, -1);
            lemma_shifted_in_grid(wi, hi, x, 0, 1);
            lemma_shifted_in_grid(wi, hi, x, 1, -1);
            lemma_shifted_in_grid(wi, hi, x, 1, 1);
            lemma_shifted_in_grid(wi, hi, x, -1, -1);
            lemma_shifted_in_grid(wi, hi, x, -1, 1);
            assert(wi * (hi - 1) == wi * hi - wi) by (nonlinear_arith);
            assert(0 <= wi * (hi - 1)) by (nonlinear_arith)
                requires
                    0 < wi,
                    0 < hi,
            ;
        }
        let ghost row = row_of(w as int, idx as int);
        let ghost col = col_of(w as int, idx as int);
        let ghost base = row * w;
        let ghost top = (h - 1) * w;
        proof {
            assert((row - 1) * w == base - w) by (nonlinear_arith)
                requires
                    base == row * w,
            ;
            assert((row + 1) * w == base + w) by (nonlinear_arith)
                requires
                    base == row * w,
            ;
            assert(top == w * (h - 1)) by (nonlinear_arith)
                requires
                    top == (h - 1) * w,
            ;
            let below = wrap(row, 1, h as int);
            assert(below == 0 ==> below * w == 0) by (nonlinear_arith);
            assert(row == 0 ==> base == 0) by (nonlinear_arith)
                requires
                    base == row * w,
            ;
            assert(base <= top) by (nonlinear_arith)
                requires
                    base == row * w,
                    top == (h - 1) * w,
                    row <= h - 1,
                    0 < w,
            ;
        }

        let l_edge = idx % w == 0;
        let r_edge = idx % w == w - 1;
        let t_edge = idx / w == 0;
        let b_edge = idx / w == h - 1;
        let span = w * (h - 1);

        let l = if !l_edge {
            idx - 1
        } else {
            idx + w - 1
        };
        let r = if !r_edge {
            idx + 1
        } else {
            idx + 1 - w
        };
        assert(l == base + wrap(col, -1, w as int));
        assert(r == base + wrap(col, 1, w as int));
        proof {
            lemma_index_of(w as int, h as int, row, wrap(col, -1, w as int));
            lemma_index_of(w as int, h as int, row, wrap(col, 1, w as int));
        }
        let u = if !t_edge {
            idx - w
        } else {
            idx + span
        };
        let d = if !b_edge {
            idx + w
        } else {
            idx % w
        };
        let ru = if !t_edge {
            r - w
        } else {
            r + span
        };
        let rd = if !b_edge {
            r + w
        } else {
            r % w
        };
        let lu = if !t_edge {
            l - w
        } else {
            l + span
        };
        let ld = if !b_edge {
            l + w
        } else {
            l % w
        };
        let res = [l, r, u, d, ru, rd, lu, ld];
        res
    }

    /// States of the eight neighbours of the cell at `idx`, in the order
    /// left, right, up, down, right-up, right-down, left-up, left-down.
    /// The grid is only read.
    pub fn get_neigh(&self, idx: usize) -> (res: [Cell; 8])
        requires
            self.wf(),
            idx < self@.cells.len(),
        ensures
            res@ == self@.neighbors(idx as int),
    {
        let at = self.neighbor_indices(idx);
        let res = [
            self.buf[at[0]],
            self.buf[at[1]],
            self.buf[at[2]],
            self.buf[at[3]],
            self.buf[at[4]],
            self.buf[at[5]],
            self.buf[at[6]],
            self.buf[at[7]],
        ];
        assert(res@ =~= self@.neighbors(idx as int));
        res
    }

    /// Advances the grid by one generation. Every cell is replaced by what
    /// the rule gives for its state and its live neighbours in the
    /// generation before the call; the dimensions stay as they are.
    pub fn step(&mut self)
        requires
            old(self).wf(),
        ensures
            final(self).wf(),
            final(self)@ == old(self)@.next(),
    {
        let n = self.buf.len();
        let mut counts: Vec<usize> = Vec::new();
        let mut i: usize = 0;
        while i < n
            invariant
                self.wf(),
                *self == *old(self),
                n == self.buf@.len(),
                i <= n,
                counts@.len() == i,
                forall|j: int| 0 <= j < i ==> #[trigger] counts@[j] == self@.live_neighbors(j),
            decreases n - i,
        {
            let around = self.get_neigh(i);
            counts.push(count_live(&around));
            i += 1;
        }
        let mut i: usize = 0;
        while i < n
            invariant
                self.width == old(self).width,
                self.height == old(self).height,
                n == self.buf@.len(),
                n == old(self).buf@.len(),
                i <= n,
                counts@.len() == n,
                forall|j: int|
                    0 <= j < n ==> #[trigger] counts@[j] == old(self)@.live_neighbors(j),
                forall|j: int|
                    0 <= j < i ==> #[trigger] self.buf@[j] == old(self).buf@[j].next(
                        old(self)@.live_neighbors(j),
                    ),
                forall|j: int| i <= j < n ==> #[trigger] self.buf@[j] == old(self).buf@[j],
            decreases n - i,
        {
            let cell = self.buf[i];
            self.buf[i] = cell.next_state(counts[i]);
            i += 1;
        }
        assert(self@.cells =~= old(self)@.next().cells);
    }
}

/// A step keeps the dimensions and the number of cells.
pub proof fn lemma_next_keeps_shape(grid: GridView)
    requires
        grid.wf(),
    ensures
        grid.next().wf(),
        grid.next().width == grid.width,
        grid.next().height == grid.height,
        grid.next().cells.len() == grid.cells.len(),
{
}

/// Looking up the neighbours of a cell is a function of the generation
/// alone: two lookups with no step in between give the same eight states.
pub proof fn lemma_neighbors_stable(
    grid: GridView,
    again: GridView,
    idx: int,
    first: [Cell; 8],
    second: [Cell; 8],
)
    requires
        grid.wf(),
        0 <= idx < grid.cells.len(),
        again == grid,
        first@ == grid.neighbors(idx),
        second@ == again.neighbors(idx),
    ensures
        first == second,
{
    vstd::array::axiom_array_ext_equal(first, second);
    assert(first@ =~= second@);
}

/// On a grid of a single cell the neighbours are eight times that cell,
/// so the count of live neighbours is eight if it is alive and zero if it
/// is dead, and the cell is dead after a step either way.
pub proof fn lemma_single_cell_step(grid: GridView)
    requires
        grid.wf(),
        grid.width == 1,
        grid.height == 1,
    ensures
        forall|k: int| 0 <= k < 8 ==> #[trigger] grid.neighbors(0)[k] == grid.cells[0],
        grid.live_neighbors(0) == if grid.cells[0] == Cell::Alive {
            8nat
        } else {
            0nat
        },
        grid.next().cells =~= seq![Cell::Dead],
{
    lemma_single_cell_neighbors();
    lemma_count_alive_uniform(grid.neighbors(0), grid.cells[0]);
}

/// A grid without a live cell stays as it is: no cell is born without
/// three live neighbours.
pub proof fn lemma_dead_grid_stays_dead(grid: GridView)
    requires
        grid.wf(),
        forall|i: int| 0 <= i < grid.cells.len() ==> grid.cells[i] == Cell::Dead,
    ensures
        grid.next() == grid,
{
    assert forall|i: int| 0 <= i < grid.cells.len() implies grid.next().cells[i]
        == Cell::Dead by {
        lemma_neighbors_in_grid(grid.width as int, grid.height as int, i);
        lemma_count_alive_uniform(grid.neighbors(i), Cell::Dead);
    }
    assert(grid.next().cells =~= grid.cells);
}

} // verus!
