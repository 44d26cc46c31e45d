//! A single cell, the rule that decides its next state, and counting of
//! live cells in a sequence.

use vstd::prelude::*;

verus! {

/// The state of one position of the grid.
#[derive(Debug, Clone, Copy, PartialEq, Eq, Structural)]
pub enum Cell {
    Dead,
    Alive,
}

/// Number of `Alive` cells in `cells`.
pub open spec fn count_alive(cells: Seq<Cell>) -> nat
    decreases cells.len(),
{
    if cells.len() == 0 {
        0
    } else {
        count_alive(cells.drop_last()) + if cells.last() == Cell::Alive {
            1nat
        } else {
            0nat
        }
    }
}

/// No more cells are alive than there are cells.
pub proof fn lemma_count_alive_bound(cells: Seq<Cell>)
    ensures
        count_alive(cells) <= cells.len(),
    decreases cells.len(),
{
    if cells.len() > 0 {
        lemma_count_alive_bound(cells.drop_last());
    }
}

/// The number of live cells is the number of times that `Alive` occurs in
/// the sequence taken as a multiset, so it does not depend on the order of
/// the cells.
pub proof fn lemma_count_alive_is_multiplicity(cells: Seq<Cell>)
    ensures
        count_alive(cells) == cells.to_multiset().count(Cell::Alive),
    decreases cells.len(),
{
    broadcast use vstd::multiset::group_multiset_axioms;

    if cells.len() == 0 {
        cells.to_multiset_ensures();
        assert(cells.to_multiset().len() == 0);
    } else {
        let init = cells.drop_last();
        lemma_count_alive_is_multiplicity(init);
        vstd::seq_lib::to_multiset_build(init, cells.last());
        assert(init.push(cells.last()) =~= cells);
    }
}

/// Two sequences that hold the same cells equally often have the same
/// number of live cells and the same length.
pub proof fn lemma_count_alive_of_permutation(a: Seq<Cell>, b: Seq<Cell>)
    requires
        a.to_multiset() == b.to_multiset(),
    ensures
        count_alive(a) == count_alive(b),
        a.len() == b.len(),
{
    lemma_count_alive_is_multiplicity(a);
    lemma_count_alive_is_multiplicity(b);
    vstd::seq_lib::to_multiset_len(a);
    vstd::seq_lib::to_multiset_len(b);
}

/// Every cell is alive exactly when the number of live cells is the
/// number of cells.
pub proof fn lemma_all_alive_iff_full(cells: Seq<Cell>)
    ensures
        count_alive(cells) == cells.len() <==> forall|i: int|
            0 <= i < cells.len() ==> cells[i] == Cell::Alive,
    decreases cells.len(),
{
    if cells.len() > 0 {
        let init = cells.drop_last();
        lemma_all_alive_iff_full(init);
        lemma_count_alive_bound(init);
        if count_alive(cells) == cells.len() {
            assert forall|i: int| 0 <= i < cells.len() implies cells[i] == Cell::Alive by {
                if i < init.len() {
                    assert(init[i] == cells[i]);
                }
            }
        }
        if forall|i: int| 0 <= i < cells.len() ==> cells[i] == Cell::Alive {
            assert forall|i: int| 0 <= i < init.len() implies init[i] == Cell::Alive by {
                assert(init[i] == cells[i]);
            }
        }
    }
}

/// Every cell is dead exactly when no cell is counted as alive.
pub proof fn lemma_all_dead_iff_empty(cells: Seq<Cell>)
    ensures
        count_alive(cells) == 0 <==> forall|i: int|
            0 <= i < cells.len() ==> cells[i] == Cell::Dead,
    decreases cells.len(),
{
    if cells.len() > 0 {
        let init = cells.drop_last();
        lemma_all_dead_iff_empty(init);
        if count_alive(cells) == 0 {
            assert forall|i: int| 0 <= i < cells.len() implies cells[i] == Cell::Dead by {
                if i < init.len() {
                    assert(init[i] == cells[i]);
                }
            }
        }
        if forall|i: int| 0 <= i < cells.len() ==> cells[i] == Cell::Dead {
            assert forall|i: int| 0 <= i < init.len() implies init[i] == Cell::Dead by {
                assert(init[i] == cells[i]);
            }
        }
    }
}

/// The rule is that of Conway's Game of Life: a cell is alive in the next
/// generation exactly when it has three live neighbours, or is alive and
/// has two.
pub proof fn lemma_rule_is_conway(cell: Cell, live: nat)
    ensures
        cell.next(live) == Cell::Alive <==> live == 3 || (cell == Cell::Alive && live == 2),
{
}

/// Among cells that are all in one state, all are counted as alive or
/// none is.
pub proof fn lemma_count_alive_uniform(cells: Seq<Cell>, state: Cell)
    requires
        forall|i: int| 0 <= i < cells.len() ==> cells[i] == state,
    ensures
        count_alive(cells) == if state == Cell::Alive {
            cells.len()
        } else {
            0
        },
{
    lemma_all_alive_iff_full(cells);
    lemma_all_dead_iff_empty(cells);
}

/// Counts the `Alive` cells of a slice.
pub fn count_live(cells: &[Cell]) -> (n: usize)
    ensures
        n == count_alive(cells@),
{
    let mut n: usize = 0;
    let mut i: usize = 0;
    while i < cells.len()
        invariant
            i <= cells@.len(),
            n <= i,
            n == count_alive(cells@.take(i as int)),
        decreases cells@.len() - i,
    {
        assert(cells@.take(i + 1).drop_last() =~= cells@.take(i as int));
        if cells[i] == Cell::Alive {
            n += 1;
        }
        i += 1;
    }
    assert(cells@.take(i as int) =~= cells@);
    n
}

impl Cell {
    /// The character a cell is drawn with: a full block when alive, a
    /// blank when dead.
    pub open spec fn glyph_of(self) -> char {
        match self {
            Cell::Dead => ' ',
            Cell::Alive => '\u{2588}',
        }
    }

    /// The state that follows `self` when `live` of the eight neighbours
    /// are alive: a live cell survives with two or three live neighbours,
    /// a dead cell comes alive with exactly three, and every other cell is
    /// dead.
    pub open spec fn next(self, live: nat) -> Cell {
        match self {
            Cell::Alive => if 2 <= live < 4 {
                Cell::Alive
            } else {
                Cell::Dead
            },
            Cell::Dead => if live == 3 {
                Cell::Alive
            } else {
                Cell::Dead
            },
        }
    }

    /// Returns the character this cell is drawn with.
    pub fn glyph(self) -> (c: char)
        ensures
            c == self.glyph_of(),
    {
        match self {
            Cell::Dead => ' ',
            Cell::Alive => '\u{2588}',
        }
    }

    /// Applies the transition rule to one cell, given how many of its
    /// neighbours are alive.
    pub fn next_state(self, live: usize) -> (next: Cell)
        ensures
            next == self.next(live as nat),
    {
        match self {
            Cell::Alive => {
                if live < 2 {
                    Cell::Dead
                } else if live < 4 {
                    Cell::Alive
                } else {
                    Cell::Dead
                }
            },
            Cell::Dead => {
                if live == 3 {
                    Cell::Alive
                } else {
                    Cell::Dead
                }
            },
        }
    }
}

} // verus!
