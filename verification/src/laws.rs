//! Proved properties of the engine: wraparound behavior, neighbor-count
//! bounds, placement determinism, toggle involution, and the classic still
//! life and oscillator behaviors of the transition rule.

use vstd::prelude::*;

use vstd::arithmetic::div_mod::{
    lemma_div_pos_is_pos, lemma_fundamental_div_mod, lemma_mod_bound, lemma_mod_multiples_vanish,
    lemma_mod_self_0, lemma_small_mod,
};
use vstd::arithmetic::mul::lemma_mul_inequality;

use crate::cell::Cell;
use crate::grid::{placed, step_rel, wrap_dec, wrap_inc, Universe};
use crate::patterns::glider_offsets;

verus! {

/// The seam-case wraparound steps agree with the modular formulas
/// `(x + m - 1) % m` and `(x + 1) % m` on every in-range coordinate.
pub proof fn lemma_wrap_matches_mod(x: int, m: int)
    requires
        0 <= x < m,
    ensures
        wrap_dec(x, m) == (x + m - 1) % m,
        wrap_inc(x, m) == (x + 1) % m,
{
    if x == 0 {
        lemma_small_mod((m - 1) as nat, m as nat);
    } else {
        lemma_mod_multiples_vanish(1, x - 1, m);
        lemma_small_mod((x - 1) as nat, m as nat);
    }
    if x == m - 1 {
        lemma_mod_self_0(m);
    } else {
        lemma_small_mod((x + 1) as nat, m as nat);
    }
}

/// Every cell has between 0 and 8 live neighbors.
pub proof fn lemma_live_neighbor_count_bound(u: Universe, row: int, col: int)
    ensures
        0 <= u.spec_live_neighbor_count(row, col) <= 8,
{
}

/// Toroidal wraparound: a live cell at `(0, 0)` is a neighbor of the cells
/// in the opposite corner, the last row of its column, and the last column
/// of its row, so each of their neighbor counts is at least 1.
pub proof fn lemma_corner_wraparound(u: Universe)
    requires
        u.wf(),
        1 <= u.spec_width(),
        1 <= u.spec_height(),
        u.spec_cell(0, 0) is Alive,
    ensures
        u.spec_live_neighbor_count(u.spec_height() - 1, u.spec_width() - 1) >= 1,
        u.spec_live_neighbor_count(u.spec_height() - 1, 0) >= 1,
        u.spec_live_neighbor_count(0, u.spec_width() - 1) >= 1,
{
    let h = u.spec_height();
    let w = u.spec_width();
    assert(wrap_inc(h - 1, h) == 0);
    assert(wrap_inc(w - 1, w) == 0);
    assert(u.live_at(0, 0) == 1);
}

/// Two well-formed grids of equal dimensions whose cells agree at every
/// coordinate have equal buffers.
pub proof fn lemma_cellwise_equal(a: Universe, b: Universe)
    requires
        a.wf(),
        b.wf(),
        a.spec_width() == b.spec_width(),
        a.spec_height() == b.spec_height(),
        forall|r: int, c: int|
            0 <= r < a.spec_height() && 0 <= c < a.spec_width() ==> #[trigger] a.spec_cell(r, c)
                == b.spec_cell(r, c),
    ensures
        a.spec_cells() =~= b.spec_cells(),
{
    let w = a.spec_width();
    let h = a.spec_height();
    assert forall|i: int| 0 <= i < a.spec_cells().len() implies a.spec_cells()[i]
        == b.spec_cells()[i] by {
        assert(0 < w && 0 < h) by (nonlinear_arith)
            requires
                0 <= w,
                0 <= h,
                0 < w * h,
        ;
        lemma_fundamental_div_mod(i, w);
        lemma_mod_bound(i, w);
        lemma_div_pos_is_pos(i, w);
        let r = i / w;
        let c = i % w;
        assert(w * r == r * w) by (nonlinear_arith);
        if r >= h {
            lemma_mul_inequality(h, r, w);
            assert(w * h == h * w) by (nonlinear_arith);
        }
        assert(a.spec_cell(r, c) == a.spec_cells()[i]);
        assert(b.spec_cell(r, c) == b.spec_cells()[i]);
    };
}

/// Placement is deterministic: on grids of equal dimensions, the same
/// centered pattern produces the same cell buffer, whatever the grids held
/// before. Placing a pattern twice therefore equals placing it once.
pub proof fn lemma_placement_determined(a: Universe, b: Universe, pattern: Seq<(u32, u32)>)
    requires
        a.wf(),
        b.wf(),
        a.spec_width() == b.spec_width(),
        a.spec_height() == b.spec_height(),
        placed(a, pattern),
        placed(b, pattern),
    ensures
        a.spec_cells() =~= b.spec_cells(),
{
    assert forall|i: int| 0 <= i < a.spec_cells().len() implies a.spec_cells()[i]
        == b.spec_cells()[i] by {
        if a.spec_cells()[i] is Alive {
            assert(b.spec_cells()[i] is Alive);
        } else {
            assert(!(b.spec_cells()[i] is Alive));
            assert(a.spec_cells()[i] is Dead);
            assert(b.spec_cells()[i] is Dead);
        }
    };
}

/// Centering the glider is idempotent: a grid that already holds the
/// centered glider is unchanged by placing the glider again.
pub proof fn lemma_make_glider_idempotent(once: Universe, twice: Universe)
    requires
        once.wf(),
        twice.wf(),
        once.spec_width() == twice.spec_width(),
        once.spec_height() == twice.spec_height(),
        placed(once, glider_offsets()),
        placed(twice, glider_offsets()),
    ensures
        once.spec_cells() =~= twice.spec_cells(),
{
    lemma_placement_determined(once, twice, glider_offsets());
}

/// Toggling a cell is self-inverse: flipping the same index of a buffer
/// twice restores the original buffer.
pub proof fn lemma_toggle_twice_restores(s: Seq<Cell>, t: Seq<Cell>, i: int)
    requires
        0 <= i < s.len(),
        t == s.update(i, s[i].flipped()),
    ensures
        t.update(i, t[i].flipped()) =~= s,
{
    assert(t[i] == s[i].flipped());
    assert(s[i].flipped().flipped() == s[i]);
}

/// Whether the grid holds exactly a 2x2 block of live cells with its upper
/// left corner at `(1, 1)`, every other cell dead.
pub open spec fn block_of_four(u: Universe) -> bool {
    forall|r: int, c: int|
        0 <= r < u.spec_height() && 0 <= c < u.spec_width() ==> ((#[trigger] u.spec_cell(r, c))
            is Alive <==> (1 <= r <= 2 && 1 <= c <= 2))
}

/// Still-life stability: on a grid at least 4x4, a lone 2x2 block of live
/// cells is unchanged by one generation step.
pub proof fn lemma_block_still_life(pre: Universe, post: Universe)
    requires
        pre.wf(),
        4 <= pre.spec_width(),
        4 <= pre.spec_height(),
        block_of_four(pre),
        step_rel(pre, post),
    ensures
        post.spec_cells() =~= pre.spec_cells(),
{
    let h = pre.spec_height();
    let w = pre.spec_width();
    assert forall|r: int, c: int| 0 <= r < h && 0 <= c < w implies #[trigger] post.spec_cell(r, c)
        == pre.spec_cell(r, c) by {
        assert(post.spec_cell(r, c) == pre.spec_next_cell(r, c));
        assert(0 <= wrap_dec(r, h) < h && 0 <= wrap_inc(r, h) < h);
        assert(0 <= wrap_dec(c, w) < w && 0 <= wrap_inc(c, w) < w);
    };
    lemma_cellwise_equal(post, pre);
}

/// Whether the grid holds exactly a horizontal blinker: three live cells in
/// row 2 at columns 1 through 3, every other cell dead.
pub open spec fn horizontal_blinker(u: Universe) -> bool {
    forall|r: int, c: int|
        0 <= r < u.spec_height() && 0 <= c < u.spec_width() ==> ((#[trigger] u.spec_cell(r, c))
            is Alive <==> (r == 2 && 1 <= c <= 3))
}

/// Whether the grid holds exactly a vertical blinker: three live cells in
/// column 2 at rows 1 through 3, every other cell dead.
pub open spec fn vertical_blinker(u: Universe) -> bool {
    forall|r: int, c: int|
        0 <= r < u.spec_height() && 0 <= c < u.spec_width() ==> ((#[trigger] u.spec_cell(r, c))
            is Alive <==> (c == 2 && 1 <= r <= 3))
}

proof fn lemma_horizontal_blinker_steps(pre: Universe, post: Universe)
    requires
        pre.wf(),
        5 <= pre.spec_width(),
        5 <= pre.spec_height(),
        horizontal_blinker(pre),
        step_rel(pre, post),
    ensures
        vertical_blinker(post),
{
    let h = pre.spec_height();
    let w = pre.spec_width();
    assert forall|r: int, c: int| 0 <= r < h && 0 <= c < w implies ((#[trigger] post.spec_cell(
        r,
        c,
    )) is Alive <==> (c == 2 && 1 <= r <= 3)) by {
        assert(post.spec_cell(r, c) == pre.spec_next_cell(r, c));
        assert(0 <= wrap_dec(r, h) < h && 0 <= wrap_inc(r, h) < h);
        assert(0 <= wrap_dec(c, w) < w && 0 <= wrap_inc(c, w) < w);
    };
}

proof fn lemma_vertical_blinker_steps(pre: Universe, post: Universe)
    requires
        pre.wf(),
        5 <= pre.spec_width(),
        5 <= pre.spec_height(),
        vertical_blinker(pre),
        step_rel(pre, post),
    ensures
        horizontal_blinker(post),
{
    let h = pre.spec_height();
    let w = pre.spec_width();
    assert forall|r: int, c: int| 0 <= r < h && 0 <= c < w implies ((#[trigger] post.spec_cell(
        r,
        c,
    )) is Alive <==> (r == 2 && 1 <= c <= 3)) by {
        assert(post.spec_cell(r, c) == pre.spec_next_cell(r, c));
        assert(0 <= wrap_dec(r, h) < h && 0 <= wrap_inc(r, h) < h);
        assert(0 <= wrap_dec(c, w) < w && 0 <= wrap_inc(c, w) < w);
    };
}

/// Oscillator period: on a grid at least 5x5, a blinker turns from
/// horizontal to vertical in one step and returns to its original state
/// after exactly two.
pub proof fn lemma_blinker_period_two(a: Universe, mid: Universe, back: Universe)
    requires
        a.wf(),
        5 <= a.spec_width(),
        5 <= a.spec_height(),
        horizontal_blinker(a),
        step_rel(a, mid),
        step_rel(mid, back),
    ensures
        vertical_blinker(mid),
        mid.spec_cells() != a.spec_cells(),
        back.spec_cells() =~= a.spec_cells(),
{
    lemma_horizontal_blinker_steps(a, mid);
    lemma_vertical_blinker_steps(mid, back);
    assert forall|r: int, c: int| 0 <= r < a.spec_height() && 0 <= c < a.spec_width() implies (
    #[trigger] back.spec_cell(r, c)) == a.spec_cell(r, c) by {
        if back.spec_cell(r, c) is Alive {
            assert(a.spec_cell(r, c) is Alive);
        } else {
            assert(!(a.spec_cell(r, c) is Alive));
        }
    };
    lemma_cellwise_equal(back, a);
    assert(!(mid.spec_cell(2, 1) is Alive));
    assert(a.spec_cell(2, 1) is Alive);
    assert(mid.spec_cell(2, 1) != a.spec_cell(2, 1));
}

} // verus!
