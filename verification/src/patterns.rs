//! Named seed patterns: fixed `(column, row)` offset sets placed centered
//! onto the grid.

use vstd::prelude::*;

use crate::grid::{placed, Universe};

verus! {

/// Offsets of the lightweight spaceship pattern.
pub open spec fn spaceship_offsets() -> Seq<(u32, u32)> {
    seq![
        (0u32, 0u32),
        (1u32, 0u32),
        (2u32, 0u32),
        (3u32, 0u32),
        (0u32, 1u32),
        (4u32, 1u32),
        (0u32, 2u32),
        (1u32, 3u32),
        (4u32, 3u32),
    ]
}

/// Offsets of the R-pentomino pattern.
pub open spec fn rpentomino_offsets() -> Seq<(u32, u32)> {
    seq![(0u32, 0u32), (0u32, 1u32), (1u32, 1u32), (2u32, 1u32), (1u32, 2u32)]
}

/// Offsets of the pi-heptomino pattern.
pub open spec fn piheptomino_offsets() -> Seq<(u32, u32)> {
    seq![
        (0u32, 0u32),
        (1u32, 0u32),
        (2u32, 0u32),
        (0u32, 1u32),
        (2u32, 1u32),
        (0u32, 2u32),
        (2u32, 2u32),
    ]
}

/// Offsets of the glider pattern.
pub open spec fn glider_offsets() -> Seq<(u32, u32)> {
    seq![(1u32, 2u32), (2u32, 3u32), (3u32, 1u32), (3u32, 2u32), (3u32, 3u32)]
}

impl Universe {
    /// Replace the grid content with the spaceship pattern, centered.
    pub fn make_spaceship(&mut self)
        requires
            old(self).wf(),
        ensures
            final(self).wf(),
            final(self).spec_width() == old(self).spec_width(),
            final(self).spec_height() == old(self).spec_height(),
            placed(*final(self), spaceship_offsets()),
    {
        let mut offsets: Vec<(u32, u32)> = Vec::new();
        offsets.push((0, 0));
        offsets.push((1, 0));
        offsets.push((2, 0));
        offsets.push((3, 0));
        offsets.push((0, 1));
        offsets.push((4, 1));
        offsets.push((0, 2));
        offsets.push((1, 3));
        offsets.push((4, 3));
        proof {
            assert(offsets@ =~= spaceship_offsets());
        }
        self.set_cells(offsets.as_slice());
    }

    /// Replace the grid content with the R-pentomino pattern, centered.
    pub fn make_rpentamino(&mut self)
        requires
            old(self).wf(),
        ensures
            final(self).wf(),
            final(self).spec_width() == old(self).spec_width(),
            final(self).spec_height() == old(self).spec_height(),
            placed(*final(self), rpentomino_offsets()),
    {
        let mut offsets: Vec<(u32, u32)> = Vec::new();
        offsets.push((0, 0));
        offsets.push((0, 1));
        offsets.push((1, 1));
        offsets.push((2, 1));
        offsets.push((1, 2));
        proof {
            assert(offsets@ =~= rpentomino_offsets());
        }
        self.set_cells(offsets.as_slice());
    }

    /// Replace the grid content with the pi-heptomino pattern, centered.
    pub fn make_piheptomino(&mut self)
        requires
            old(self).wf(),
        ensures
            final(self).wf(),
            final(self).spec_width() == old(self).spec_width(),
            final(self).spec_height() == old(self).spec_height(),
            placed(*final(self), piheptomino_offsets()),
    {
        let mut offsets: Vec<(u32, u32)> = Vec::new();
        offsets.push((0, 0));
        offsets.push((1, 0));
        offsets.push((2, 0));
        offsets.push((0, 1));
        offsets.push((2, 1));
        offsets.push((0, 2));
        offsets.push((2, 2));
        proof {
            assert(offsets@ =~= piheptomino_offsets());
        }
        self.set_cells(offsets.as_slice());
    }

    /// Replace the grid content with the glider pattern, centered.
    pub fn make_glider(&mut self)
        requires
            old(self).wf(),
        ensures
            final(self).wf(),
            final(self).spec_width() == old(self).spec_width(),
            final(self).spec_height() == old(self).spec_height(),
            placed(*final(self), glider_offsets()),
    {
        let mut offsets: Vec<(u32, u32)> = Vec::new();
        offsets.push((1, 2));
        offsets.push((2, 3));
        offsets.push((3, 1));
        offsets.push((3, 2));
        offsets.push((3, 3));
        proof {
            assert(offsets@ =~= glider_offsets());
        }
        self.set_cells(offsets.as_slice());
    }
}

} // verus!
