//! Drawing a grid as text: a rule of dashes, one line per row, and a rule
//! of dashes again.

use vstd::prelude::*;
use vstd::string::StringExecFns;
use crate::cell::Cell;
use crate::grid::{Grid, GridView};

verus! {

/// A line of `width` dashes.
pub open spec fn rule_line(width: nat) -> Seq<char> {
    Seq::new(width, |i: int| '-').push('\n')
}

/// The line for row `r`: the glyph of each of its cells, left to right.
pub open spec fn row_line(grid: GridView, r: int) -> Seq<char> {
    Seq::new(grid.width, |c: int| grid.cells[r * grid.width + c].glyph_of()).push('\n')
}

/// The lines of the first `rows` rows, top to bottom.
pub open spec fn rows_text(grid: GridView, rows: nat) -> Seq<char>
    decreases rows,
{
    if rows == 0 {
        Seq::empty()
    } else {
        rows_text(grid, (rows - 1) as nat) + row_line(grid, rows - 1)
    }
}

/// The whole picture of a grid.
pub open spec fn rendered(grid: GridView) -> Seq<char> {
    rule_line(grid.width) + rows_text(grid, grid.height) + rule_line(grid.width)
}

/// Appends a line of `width` dashes to `out`.
fn push_rule(out: &mut String, width: usize)
    ensures
        final(out)@ == old(out)@ + rule_line(width as nat),
{
    let mut c: usize = 0;
    while c < width
        invariant
            c <= width,
            out@ == old(out)@ + Seq::new(c as nat, |i: int| '-'),
        decreases width - c,
    {
        proof {
            reveal_strlit("-");
            assert("-"@ =~= seq!['-']);
            assert(Seq::new((c + 1) as nat, |i: int| '-') =~= Seq::new(c as nat, |i: int| '-')
                + seq!['-']);
        }
        out.append("-");
        c += 1;
    }
    proof {
        reveal_strlit("\n");
        assert("\n"@ =~= seq!['\n']);
        assert(old(out)@ + Seq::new(width as nat, |i: int| '-') + seq!['\n'] =~= old(out)@
            + rule_line(width as nat));
    }
    out.append("\n");
}

impl Grid {
    /// Draws the grid: a rule of dashes as wide as the grid, then each row
    /// on a line of its own, a full block for a live cell and a blank for
    /// a dead one, then the rule again. Every line ends in a newline.
    pub fn render(&self) -> (text: String)
        requires
            self.wf(),
        ensures
            text@ == rendered(self@),
    {
        let width = self.width();
        let height = self.height();
        let cells = self.cells();
        let size = cells.len();
        let mut out = String::new();
        push_rule(&mut out, width);
        let mut r: usize = 0;
        while r < height
            invariant
                self.wf(),
                width == self@.width,
                height == self@.height,
                cells@ == self@.cells,
                size == cells@.len(),
                r <= height,
                out@ == rule_line(width as nat) + rows_text(self@, r as nat),
            decreases height - r,
        {
            let ghost before = out@;
            proof {
                crate::topology::lemma_index_of(width as int, height as int, r as int, 0);
            }
            let start = r * width;
            let mut c: usize = 0;
            while c < width
                invariant
                    self.wf(),
                    width == self@.width,
                    height == self@.height,
                    cells@ == self@.cells,
                    size == cells@.len(),
                    r < height,
                    c <= width,
                    start == r * width,
                    out@ == before + Seq::new(
                        c as nat,
                        |k: int| self@.cells[r * self@.width + k].glyph_of(),
                    ),
                decreases width - c,
            {
                proof {
                    crate::topology::lemma_index_of(
                        width as int,
                        height as int,
                        r as int,
                        c as int,
                    );
                    reveal_strlit(" ");
                    reveal_strlit("\u{2588}");
                    assert(" "@ =~= seq![' ']);
                    assert("\u{2588}"@ =~= seq!['\u{2588}']);
                    assert(Seq::new(
                        (c + 1) as nat,
                        |k: int| self@.cells[r * self@.width + k].glyph_of(),
                    ) =~= Seq::new(
                        c as nat,
                        |k: int| self@.cells[r * self@.width + k].glyph_of(),
                    ) + seq![self@.cells[r * self@.width + c].glyph_of()]);
                }
                match cells[start + c] {
                    Cell::Dead => out.append(" "),
                    Cell::Alive => out.append("\u{2588}"),
                }
                c += 1;
            }
            proof {
                reveal_strlit("\n");
                assert("\n"@ =~= seq!['\n']);
                assert(before + Seq::new(
                    width as nat,
                    |k: int| self@.cells[r * self@.width + k].glyph_of(),
                ) + seq!['\n'] =~= before + row_line(self@, r as int));
                assert(rule_line(width as nat) + rows_text(self@, r as nat) + row_line(
                    self@,
                    r as int,
                ) =~= rule_line(width as nat) + rows_text(self@, (r + 1) as nat));
            }
            out.append("\n");
            r += 1;
        }
        push_rule(&mut out, width);
        out
    }
}

} // verus!
