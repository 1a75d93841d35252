//! The grid engine: a toroidal cell buffer with neighbor counting, the
//! synchronous generation step, resizing, and cell placement.

use vstd::prelude::*;

use crate::cell::{next_state, Cell};

verus! {

/// Error returned when a caller passes a coordinate outside the grid.
#[derive(Clone, Copy, Debug, PartialEq, Eq, Structural)]
pub enum GridError {
    OutOfRange,
}

/// A Game of Life universe: `width * height` cells stored in row-major order
/// (index = `row * width + column`), with toroidal wraparound at the edges.
pub struct Universe {
    width: u32,
    height: u32,
    cells: Vec<Cell>,
}

/// The coordinate one step backwards along an axis of modulus `m`, wrapping
/// from 0 to `m - 1`. For `0 <= x < m` this equals `(x + m - 1) % m`.
pub open spec fn wrap_dec(x: int, m: int) -> int
    recommends
        0 <= x < m,
{
    if x == 0 {
        m - 1
    } else {
        x - 1
    }
}

/// The coordinate one step forwards along an axis of modulus `m`, wrapping
/// from `m - 1` to 0. For `0 <= x < m` this equals `(x + 1) % m`.
pub open spec fn wrap_inc(x: int, m: int) -> int
    recommends
        0 <= x < m,
{
    if x == m - 1 {
        0
    } else {
        x + 1
    }
}

impl Universe {
    /// Number of columns.
    pub closed spec fn spec_width(&self) -> int {
        self.width as int
    }

    /// Number of rows.
    pub closed spec fn spec_height(&self) -> int {
        self.height as int
    }

    /// The cell buffer, row-major.
    pub closed spec fn spec_cells(&self) -> Seq<Cell> {
        self.cells@
    }

    /// Well-formed: the buffer length matches the dimensions, and the cell
    /// count fits in `u32` so that row-major indices never overflow.
    pub open spec fn wf(&self) -> bool {
        &&& 0 <= self.spec_width() <= u32::MAX
        &&& 0 <= self.spec_height() <= u32::MAX
        &&& self.spec_cells().len() == self.spec_width() * self.spec_height()
        &&& self.spec_width() * self.spec_height() <= u32::MAX
    }

    /// The cell at `(row, col)`.
    pub open spec fn spec_cell(&self, row: int, col: int) -> Cell
        recommends
            self.wf(),
            0 <= row < self.spec_height(),
            0 <= col < self.spec_width(),
    {
        self.spec_cells()[row * self.spec_width() + col]
    }

    /// 1 if the cell at `(row, col)` is alive, else 0.
    pub open spec fn live_at(&self, row: int, col: int) -> int {
        if self.spec_cell(row, col) is Alive {
            1
        } else {
            0
        }
    }

    /// Number of live cells among the eight toroidal neighbors of
    /// `(row, col)`: the wrapped coordinates one step away in each direction.
    /// A grid with a zero dimension has no cells and no neighbors.
    pub open spec fn spec_live_neighbor_count(&self, row: int, col: int) -> int {
        let h = self.spec_height();
        let w = self.spec_width();
        if h == 0 || w == 0 {
            0
        } else {
            let rm = wrap_dec(row, h);
            let rp = wrap_inc(row, h);
            let cm = wrap_dec(col, w);
            let cp = wrap_inc(col, w);
            self.live_at(rm, cm) + self.live_at(rm, col) + self.live_at(rm, cp) + self.live_at(
                row,
                cm,
            ) + self.live_at(row, cp) + self.live_at(rp, cm) + self.live_at(rp, col) + self.live_at(
                rp,
                cp,
            )
        }
    }

    /// The state the cell at `(row, col)` takes in the next generation:
    /// the transition rule applied to its current state and neighbor count.
    pub open spec fn spec_next_cell(&self, row: int, col: int) -> Cell {
        next_state(self.spec_cell(row, col), self.spec_live_neighbor_count(row, col))
    }
}

/// One synchronous generation: `post` is `pre` advanced by the transition
/// rule, every cell evaluated against `pre`'s state and neighbor counts.
pub open spec fn step_rel(pre: Universe, post: Universe) -> bool {
    &&& post.wf()
    &&& post.spec_width() == pre.spec_width()
    &&& post.spec_height() == pre.spec_height()
    &&& forall|r: int, c: int|
        0 <= r < pre.spec_height() && 0 <= c < pre.spec_width() ==> post.spec_cell(r, c)
            == #[trigger] pre.spec_next_cell(r, c)
}

/// A row-major index of an in-range coordinate lies inside the buffer.
pub proof fn lemma_row_major_index_bound(row: int, col: int, w: int, h: int)
    requires
        0 <= row < h,
        0 <= col < w,
    ensures
        0 <= row * w + col < h * w,
{
    assert(0 <= row * w + col < h * w) by (nonlinear_arith)
        requires
            0 <= row < h,
            0 <= col < w,
    ;
}

/// Row-major indices grow strictly along the row-by-row sweep order.
pub proof fn lemma_row_major_lex(r0: int, c0: int, r1: int, c1: int, w: int)
    requires
        0 <= r0,
        0 <= c0 < w,
        0 <= c1,
        r0 < r1 || (r0 == r1 && c0 < c1),
    ensures
        r0 * w + c0 < r1 * w + c1,
{
    assert(r0 * w + c0 < r1 * w + c1) by (nonlinear_arith)
        requires
            0 <= r0,
            0 <= c0 < w,
            0 <= c1,
            r0 < r1 || (r0 == r1 && c0 < c1),
    ;
}

/// One step backwards with toroidal wraparound.
fn prev_wrapped(x: u32, m: u32) -> (r: u32)
    requires
        x < m,
    ensures
        r == wrap_dec(x as int, m as int),
        r < m,
{
    if x == 0 {
        m - 1
    } else {
        x - 1
    }
}

/// One step forwards with toroidal wraparound.
fn next_wrapped(x: u32, m: u32) -> (r: u32)
    requires
        x < m,
    ensures
        r == wrap_inc(x as int, m as int),
        r < m,
{
    if x == m - 1 {
        0
    } else {
        x + 1
    }
}

impl Universe {
    /// Build a universe from its dimensions and a host-supplied initial cell
    /// buffer (for example randomly populated, or all dead). The buffer must
    /// have exactly `width * height` entries in row-major order, and the cell
    /// count must fit in `u32`.
    pub fn new(width: u32, height: u32, cells: Vec<Cell>) -> (u: Universe)
        requires
            width * height <= u32::MAX,
            cells@.len() == width * height,
        ensures
            u.wf(),
            u.spec_width() == width,
            u.spec_height() == height,
            u.spec_cells() == cells@,
    {
        Universe { width, height, cells }
    }

    /// Number of columns.
    pub fn width(&self) -> (w: u32)
        ensures
            w == self.spec_width(),
    {
        self.width
    }

    /// Number of rows.
    pub fn height(&self) -> (h: u32)
        ensures
            h == self.spec_height(),
    {
        self.height
    }

    /// Read-only view of the full cell buffer, for external rendering.
    pub fn cells(&self) -> (r: &Vec<Cell>)
        ensures
            r@ == self.spec_cells(),
    {
        &self.cells
    }

    /// The dead and alive values of the entire universe, as a slice.
    pub fn get_cells(&self) -> (r: &[Cell])
        ensures
            r@ == self.spec_cells(),
    {
        self.cells.as_slice()
    }

    /// Flat row-major index of `(row, column)`. Defined only for in-range
    /// coordinates; the engine itself always wraps coordinates before
    /// indexing, so it never violates this precondition internally.
    pub fn get_index(&self, row: u32, column: u32) -> (idx: usize)
        requires
            self.wf(),
            row < self.spec_height(),
            column < self.spec_width(),
        ensures
            idx == row * self.spec_width() + column,
            idx < self.spec_cells().len(),
    {
        proof {
            lemma_row_major_index_bound(
                row as int,
                column as int,
                self.spec_width(),
                self.spec_height(),
            );
        }
        (row * self.width + column) as usize
    }

    /// 1 if the cell at the in-range coordinate `(row, column)` is alive,
    /// else 0.
    fn live_value(&self, row: u32, column: u32) -> (b: u8)
        requires
            self.wf(),
            row < self.spec_height(),
            column < self.spec_width(),
        ensures
            b == self.live_at(row as int, column as int),
    {
        let idx = self.get_index(row, column);
        if self.cells[idx] == Cell::Alive {
            1
        } else {
            0
        }
    }

    /// Count the live cells among the eight toroidal neighbors of
    /// `(row, column)`: for each offset in (-1, 0, 1) x (-1, 0, 1) except
    /// (0, 0), wrap the neighbor coordinate around the grid edge and test it.
    /// The count is always at most 8.
    pub fn live_neighbor_count(&self, row: u32, column: u32) -> (count: u8)
        requires
            self.wf(),
            row < self.spec_height(),
            column < self.spec_width(),
        ensures
            count == self.spec_live_neighbor_count(row as int, column as int),
            count <= 8,
    {
        let rm = prev_wrapped(row, self.height);
        let rp = next_wrapped(row, self.height);
        let cm = prev_wrapped(column, self.width);
        let cp = next_wrapped(column, self.width);
        let mut count: u8 = 0;
        count = count + self.live_value(rm, cm);
        count = count + self.live_value(rm, column);
        count = count + self.live_value(rm, cp);
        count = count + self.live_value(row, cm);
        count = count + self.live_value(row, cp);
        count = count + self.live_value(rp, cm);
        count = count + self.live_value(rp, column);
        count = count + self.live_value(rp, cp);
        count
    }

    /// Compute the next generation into a fresh buffer, reading only the
    /// current state, in row-major sweep order.
    fn next_generation(&self) -> (next: Vec<Cell>)
        requires
            self.wf(),
        ensures
            next@.len() == self.spec_cells().len(),
            forall|r: int, c: int|
                0 <= r < self.spec_height() && 0 <= c < self.spec_width() ==> next@[r
                    * self.spec_width() + c] == #[trigger] self.spec_next_cell(r, c),
    {
        let mut next: Vec<Cell> = Vec::new();
        let mut row: u32 = 0;
        while row < self.height
            invariant
                self.wf(),
                row <= self.spec_height(),
                next@.len() == row * self.spec_width(),
                forall|r: int, c: int|
                    0 <= r < row && 0 <= c < self.spec_width() ==> next@[r * self.spec_width() + c]
                        == #[trigger] self.spec_next_cell(r, c),
            decreases self.spec_height() - row,
        {
            let mut col: u32 = 0;
            while col < self.width
                invariant
                    self.wf(),
                    row < self.spec_height(),
                    col <= self.spec_width(),
                    next@.len() == row * self.spec_width() + col,
                    forall|r: int, c: int|
                        0 <= c < self.spec_width() && (0 <= r < row || (r == row && 0 <= c < col))
                            ==> next@[r * self.spec_width() + c] == #[trigger] self.spec_next_cell(
                            r,
                            c,
                        ),
                decreases self.spec_width() - col,
            {
                let idx = self.get_index(row, col);
                let cur = self.cells[idx];
                let live = self.live_neighbor_count(row, col);
                let new_cell = if cur == Cell::Alive {
                    if live < 2 {
                        Cell::Dead
                    } else if live <= 3 {
                        Cell::Alive
                    } else {
                        Cell::Dead
                    }
                } else if live == 3 {
                    Cell::Alive
                } else {
                    Cell::Dead
                };
                let ghost next0 = next@;
                next.push(new_cell);
                proof {
                    assert(new_cell == self.spec_next_cell(row as int, col as int));
                    assert forall|r: int, c: int|
                        0 <= c < self.spec_width() && (0 <= r < row || (r == row && 0 <= c < col
                            + 1)) implies next@[r * self.spec_width() + c]
                        == #[trigger] self.spec_next_cell(r, c) by {
                        if r == row && c == col {
                            assert(next@[r * self.spec_width() + c] == new_cell);
                        } else {
                            lemma_row_major_lex(r, c, row as int, col as int, self.spec_width());
                            assert(next@[r * self.spec_width() + c] == next0[r * self.spec_width()
                                + c]);
                        }
                    }
                }
                col = col + 1;
            }
            proof {
                assert((row + 1) * self.spec_width() == row * self.spec_width()
                    + self.spec_width()) by (nonlinear_arith);
            }
            row = row + 1;
        }
        proof {
            assert(self.spec_height() * self.spec_width() == self.spec_width()
                * self.spec_height()) by (nonlinear_arith);
        }
        next
    }

    /// Advance the whole grid one generation. Every cell is evaluated against
    /// the pre-tick state, and the new buffer replaces the old one only after
    /// the full sweep, so the update is simultaneous.
    pub fn tick(&mut self)
        requires
            old(self).wf(),
        ensures
            step_rel(*old(self), *final(self)),
    {
        let next = self.next_generation();
        self.cells = next;
    }

    /// A buffer of `n` dead cells.
    fn dead_cells(n: usize) -> (v: Vec<Cell>)
        ensures
            v@.len() == n,
            forall|i: int| 0 <= i < n ==> (#[trigger] v@[i]) is Dead,
    {
        let mut v: Vec<Cell> = Vec::new();
        let mut i: usize = 0;
        while i < n
            invariant
                i <= n,
                v@.len() == i,
                forall|j: int| 0 <= j < i ==> (#[trigger] v@[j]) is Dead,
            decreases n - i,
        {
            v.push(Cell::Dead);
            i = i + 1;
        }
        v
    }

    /// Set every existing cell to dead without changing the dimensions.
    pub fn clear(&mut self)
        requires
            old(self).wf(),
        ensures
            final(self).wf(),
            final(self).spec_width() == old(self).spec_width(),
            final(self).spec_height() == old(self).spec_height(),
            final(self).spec_cells().len() == old(self).spec_cells().len(),
            forall|i: int|
                0 <= i < final(self).spec_cells().len() ==> (#[trigger] final(self).spec_cells()[i]) is Dead,
    {
        let n = self.cells.len();
        let mut i: usize = 0;
        while i < n
            invariant
                i <= n,
                n == self.spec_cells().len(),
                self.spec_width() == old(self).spec_width(),
                self.spec_height() == old(self).spec_height(),
                self.spec_cells().len() == old(self).spec_cells().len(),
                old(self).wf(),
                forall|j: int| 0 <= j < i ==> (#[trigger] self.spec_cells()[j]) is Dead,
            decreases n - i,
        {
            self.cells.set(i, Cell::Dead);
            i = i + 1;
        }
    }

    /// Set the width of the universe, resetting all cells to the dead state.
    /// The new cell count must fit in `u32`.
    pub fn set_width(&mut self, width: u32)
        requires
            old(self).wf(),
            width * old(self).spec_height() <= u32::MAX,
        ensures
            final(self).wf(),
            final(self).spec_width() == width,
            final(self).spec_height() == old(self).spec_height(),
            final(self).spec_cells().len() == width * old(self).spec_height(),
            forall|i: int|
                0 <= i < final(self).spec_cells().len() ==> (#[trigger] final(self).spec_cells()[i]) is Dead,
    {
        self.width = width;
        let n = width * self.height;
        self.cells = Self::dead_cells(n as usize);
    }

    /// Set the height of the universe, resetting all cells to the dead state.
    /// The new cell count must fit in `u32`.
    pub fn set_height(&mut self, height: u32)
        requires
            old(self).wf(),
            old(self).spec_width() * height <= u32::MAX,
        ensures
            final(self).wf(),
            final(self).spec_width() == old(self).spec_width(),
            final(self).spec_height() == height,
            final(self).spec_cells().len() == old(self).spec_width() * height,
            forall|i: int|
                0 <= i < final(self).spec_cells().len() ==> (#[trigger] final(self).spec_cells()[i]) is Dead,
    {
        self.height = height;
        let n = self.width * height;
        self.cells = Self::dead_cells(n as usize);
    }

    /// Set both dimensions of the universe, resetting all cells to the dead
    /// state. The new cell count must fit in `u32`.
    pub fn set_dimensions(&mut self, width: u32, height: u32)
        requires
            old(self).wf(),
            width * height <= u32::MAX,
        ensures
            final(self).wf(),
            final(self).spec_width() == width,
            final(self).spec_height() == height,
            final(self).spec_cells().len() == width * height,
            forall|i: int|
                0 <= i < final(self).spec_cells().len() ==> (#[trigger] final(self).spec_cells()[i]) is Dead,
    {
        self.width = width;
        self.height = height;
        let n = width * height;
        self.cells = Self::dead_cells(n as usize);
    }

    /// Flip exactly one cell between dead and alive. An out-of-range
    /// coordinate is rejected with `GridError::OutOfRange` and leaves the
    /// grid unchanged.
    pub fn toggle_cell(&mut self, row: u32, column: u32) -> (result: Result<(), GridError>)
        requires
            old(self).wf(),
        ensures
            final(self).wf(),
            final(self).spec_width() == old(self).spec_width(),
            final(self).spec_height() == old(self).spec_height(),
            row < old(self).spec_height() && column < old(self).spec_width() ==> result is Ok
                && final(self).spec_cells() == old(self).spec_cells().update(
                row * old(self).spec_width() + column,
                old(self).spec_cell(row as int, column as int).flipped(),
            ),
            !(row < old(self).spec_height() && column < old(self).spec_width()) ==> result == Err::<
                (),
                GridError,
            >(GridError::OutOfRange) && *final(self) == *old(self),
    {
        if row < self.height && column < self.width {
            let idx = self.get_index(row, column);
            let mut cur = self.cells[idx];
            cur.toggle();
            self.cells.set(idx, cur);
            Ok(())
        } else {
            Err(GridError::OutOfRange)
        }
    }

    /// Clear the grid, then set the cell at each given `(column, row)` offset
    /// alive, with the pattern translated so that it is centered on the grid
    /// midpoint. An offset whose translated index falls outside the buffer is
    /// skipped rather than wrapped, so an oversized pattern is placed only
    /// partially instead of indexing past the buffer end.
    pub fn set_cells(&mut self, cells: &[(u32, u32)])
        requires
            old(self).wf(),
        ensures
            final(self).wf(),
            final(self).spec_width() == old(self).spec_width(),
            final(self).spec_height() == old(self).spec_height(),
            placed(*final(self), cells@),
    {
        self.clear();
        let w64 = self.width as u64;
        let h64 = self.height as u64;
        proof {
            assert(w64 * (h64 / 2) <= w64 * h64) by (nonlinear_arith)
                requires
                    h64 / 2 <= h64,
                    0 <= w64,
            ;
            assert(w64 * h64 == self.spec_width() * self.spec_height());
        }
        let middle: u64 = w64 * (h64 / 2) + w64 / 2;
        let len = self.cells.len();
        let mut k: usize = 0;
        while k < cells.len()
            invariant
                self.wf(),
                self.spec_width() == old(self).spec_width(),
                self.spec_height() == old(self).spec_height(),
                w64 == self.spec_width(),
                h64 == self.spec_height(),
                middle == self.spec_width() * (self.spec_height() / 2) + self.spec_width() / 2,
                len == self.spec_cells().len(),
                k <= cells@.len(),
                forall|i: int|
                    0 <= i < len ==> ((#[trigger] self.spec_cells()[i]) is Alive <==> exists|k0: int|
                        0 <= k0 < k && target_index(
                            self.spec_width(),
                            self.spec_height(),
                            (#[trigger] cells@[k0]).0 as int,
                            cells@[k0].1 as int,
                        ) == i),
            decreases cells@.len() - k,
        {
            let (pc, pr) = cells[k];
            proof {
                assert((pr as u128) * (w64 as u128) <= 0xffff_ffffu128 * 0xffff_ffffu128)
                    by (nonlinear_arith)
                    requires
                        pr as u128 <= 0xffff_ffffu128,
                        w64 as u128 <= 0xffff_ffffu128,
                ;
                lemma_target_flat(self.spec_width(), self.spec_height(), pc as int, pr as int);
            }
            let t: u128 = (pr as u128) * (w64 as u128) + (pc as u128) + (middle as u128);
            let ghost ti = target_index(
                self.spec_width(),
                self.spec_height(),
                pc as int,
                pr as int,
            );
            let ghost cells_before = self.spec_cells();
            if t < len as u128 {
                self.cells.set(t as usize, Cell::Alive);
            }
            proof {
                assert forall|i: int| 0 <= i < len implies ((#[trigger] self.spec_cells()[i])
                    is Alive <==> exists|k0: int|
                    0 <= k0 < k + 1 && target_index(
                        self.spec_width(),
                        self.spec_height(),
                        (#[trigger] cells@[k0]).0 as int,
                        cells@[k0].1 as int,
                    ) == i) by {
                    if i == ti {
                        assert(self.spec_cells()[i] is Alive);
                        assert(0 <= k < k + 1 && target_index(
                            self.spec_width(),
                            self.spec_height(),
                            (cells@[k as int]).0 as int,
                            cells@[k as int].1 as int,
                        ) == i);
                    } else {
                        assert(self.spec_cells()[i] == cells_before[i]);
                        assert forall|k0: int|
                            0 <= k0 < k + 1 && target_index(
                                self.spec_width(),
                                self.spec_height(),
                                (#[trigger] cells@[k0]).0 as int,
                                cells@[k0].1 as int,
                            ) == i implies 0 <= k0 < k by {
                            if k0 == k {
                                assert(ti == i);
                            }
                        }
                    }
                }
            }
            k = k + 1;
        }
    }
}

/// The flat row-major index at which a pattern offset `(col, row)` lands when
/// the pattern is translated to the grid midpoint: the index of the cell at
/// `(row + height / 2, col + width / 2)`, using integer division for the
/// midpoint.
pub open spec fn target_index(w: int, h: int, col: int, row: int) -> int {
    (row + h / 2) * w + (col + w / 2)
}

/// The centered form of `target_index` equals the flat sum the sweep
/// computes: the raw row-major index of the offset plus the midpoint index.
pub proof fn lemma_target_flat(w: int, h: int, col: int, row: int)
    ensures
        target_index(w, h, col, row) == row * w + col + (w * (h / 2) + w / 2),
{
    assert((row + h / 2) * w == row * w + w * (h / 2)) by (nonlinear_arith);
}

/// The grid holds exactly the centered pattern: a cell is alive if and only
/// if some pattern offset lands on its index.
pub open spec fn placed(u: Universe, pattern: Seq<(u32, u32)>) -> bool {
    forall|i: int|
        0 <= i < u.spec_cells().len() ==> ((#[trigger] u.spec_cells()[i]) is Alive <==> exists|
            k: int,
        |
            0 <= k < pattern.len() && target_index(
                u.spec_width(),
                u.spec_height(),
                (#[trigger] pattern[k]).0 as int,
                pattern[k].1 as int,
            ) == i)
}

} // verus!
