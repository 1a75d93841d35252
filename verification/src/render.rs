//! Textual snapshots of the grid: one line of glyphs per row, rows separated
//! by a blank line. A diagnostic convenience, not part of the simulation's
//! semantics.

use vstd::prelude::*;

use crate::cell::Cell;
use crate::grid::Universe;

verus! {

/// Glyph used for one cell in the textual snapshot.
pub open spec fn glyph(c: Cell) -> char {
    match c {
        Cell::Dead => '◻',
        Cell::Alive => '◼',
    }
}

/// The glyphs of one rendered row, left to right.
pub open spec fn row_chars(u: Universe, row: int) -> Seq<char> {
    Seq::new(u.spec_width() as nat, |c: int| glyph(u.spec_cell(row, c)))
}

/// The rendered rows from `row` to the bottom of the grid, each row's glyphs
/// followed by a newline and a blank line.
pub open spec fn rendered_from(u: Universe, row: int) -> Seq<char>
    decreases u.spec_height() - row,
{
    if row < 0 || row >= u.spec_height() {
        Seq::empty()
    } else {
        row_chars(u, row) + seq!['\n', '\n'] + rendered_from(u, row + 1)
    }
}

/// The full textual snapshot of a universe.
pub open spec fn rendered(u: Universe) -> Seq<char> {
    rendered_from(u, 0)
}

impl Universe {
    /// Produce a line-per-row textual snapshot of the grid, using distinct
    /// glyphs for dead and alive cells and a blank line after every row.
    pub fn render(&self) -> (s: String)
        requires
            self.wf(),
        ensures
            s@ == rendered(*self),
    {
        let mut s = String::new();
        let mut row: u32 = 0;
        proof {
            assert(s@ + rendered_from(*self, 0) =~= rendered(*self));
        }
        while row < self.height()
            invariant
                self.wf(),
                row <= self.spec_height(),
                s@ + rendered_from(*self, row as int) == rendered(*self),
            decreases self.spec_height() - row,
        {
            let ghost s_row_start = s@;
            let mut col: u32 = 0;
            while col < self.width()
                invariant
                    self.wf(),
                    row < self.spec_height(),
                    col <= self.spec_width(),
                    s@ == s_row_start + row_chars(*self, row as int).take(col as int),
                decreases self.spec_width() - col,
            {
                let idx = self.get_index(row, col);
                if self.cells()[idx] == Cell::Alive {
                    s.append("◼");
                } else {
                    s.append("◻");
                }
                proof {
                    reveal_strlit("◼");
                    reveal_strlit("◻");
                    assert(s@ =~= s_row_start + row_chars(*self, row as int).take(col as int + 1));
                }
                col = col + 1;
            }
            s.append("\n\n");
            proof {
                reveal_strlit("\n\n");
                assert(row_chars(*self, row as int).take(self.spec_width()) =~= row_chars(
                    *self,
                    row as int,
                ));
                assert(s@ + rendered_from(*self, row as int + 1) =~= s_row_start + rendered_from(
                    *self,
                    row as int,
                ));
            }
            row = row + 1;
        }
        proof {
            assert(s@ =~= rendered(*self));
        }
        s
    }
}

} // verus!
