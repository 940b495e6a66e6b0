//! Where in an animation a point in time falls. An animation of frames
//! with durations `d` plays frame `i` over the times `(s, s + d[i]]`, where
//! `s` is the sum of the durations before it; the first frame also shows at
//! time zero. A looping animation repeats this every `sum_all(d)`.
use vstd::prelude::*;
use vstd::arithmetic::div_mod::{lemma_fundamental_div_mod, lemma_fundamental_div_mod_converse};

use crate::sprite::{sum_first, sum_all, lemma_sum_first_monotone, lemma_sum_first_strict};

verus! {

/// The length of one pass.
pub open spec fn period(d: Seq<nat>) -> int {
    sum_all(d) as int
}

/// Every frame lasts some time.
pub open spec fn all_positive(d: Seq<nat>) -> bool {
    forall|i: int| 0 <= i < d.len() ==> #[trigger] d[i] > 0
}

/// The frame that shows at time `r` of one pass, for `0 < r <= sum_all(d)`.
pub open spec fn frame_at(d: Seq<nat>, r: int) -> int {
    choose|i: int| 0 <= i < d.len() && #[trigger] sum_first(d, i) < r <= sum_first(d, i + 1)
}

/// The pass (counting from zero) in which time `t` of a looping animation
/// falls.
pub open spec fn cycle_at(d: Seq<nat>, t: int) -> int {
    if t <= 0 {
        0
    } else {
        (t - 1) / period(d)
    }
}

/// The frame that shows at time `t` of a looping animation, and the time
/// at which that showing began.
pub open spec fn position(d: Seq<nat>, t: int) -> (int, int) {
    if t <= 0 {
        (0, 0)
    } else {
        let c = cycle_at(d, t);
        let i = frame_at(d, t - c * period(d));
        (i, c * period(d) + sum_first(d, i))
    }
}

/// `start` is a time at which frame `idx` begins to show, in some pass.
pub open spec fn aligned(d: Seq<nat>, idx: int, start: int) -> bool {
    &&& 0 <= idx < d.len()
    &&& 0 <= start
    &&& start % period(d) == sum_first(d, idx)
}

/// Frame `idx`, begun at `start`, shows at time `t`.
pub open spec fn covers(d: Seq<nat>, idx: int, start: int, t: int) -> bool {
    start < t <= start + d[idx] || (t == 0 && start == 0)
}

/// Bounds on the partial sums of positive durations.
pub proof fn lemma_prefix_bounds(d: Seq<nat>, idx: int)
    requires
        all_positive(d),
        0 <= idx < d.len(),
    ensures
        sum_first(d, idx) < sum_first(d, idx + 1) <= sum_all(d),
        sum_first(d, idx) < sum_all(d),
        d[idx] <= sum_all(d),
        sum_all(d) > 0,
{
    lemma_sum_first_strict(d, idx, idx + 1);
    lemma_sum_first_monotone(d, idx + 1, d.len() as int);
    lemma_sum_first_monotone(d, 0, idx);
}

/// At most one frame shows at each time of a pass.
pub proof fn lemma_frame_at_unique(d: Seq<nat>, i: int, r: int)
    requires
        all_positive(d),
        0 <= i < d.len(),
        sum_first(d, i) < r <= sum_first(d, i + 1),
    ensures
        frame_at(d, r) == i,
{
    let j = frame_at(d, r);
    assert(0 <= j < d.len() && sum_first(d, j) < r <= sum_first(d, j + 1));
    if j < i {
        lemma_sum_first_monotone(d, j + 1, i);
    } else if i < j {
        lemma_sum_first_monotone(d, i + 1, j);
    }
}

/// Some frame at or before `k` shows at time `r`, where `r` comes no later
/// than the end of frame `k`.
proof fn lemma_frame_at_or_before(d: Seq<nat>, r: int, k: int)
    requires
        all_positive(d),
        0 <= k < d.len(),
        0 < r <= sum_first(d, k + 1),
    ensures
        0 <= frame_at(d, r) <= k,
        sum_first(d, frame_at(d, r)) < r <= sum_first(d, frame_at(d, r) + 1),
    decreases k,
{
    if k > 0 && r <= sum_first(d, k) {
        lemma_frame_at_or_before(d, r, k - 1);
    } else {
        lemma_frame_at_unique(d, k, r);
    }
}

/// Some frame shows at each time of a pass.
pub proof fn lemma_frame_at_exists(d: Seq<nat>, r: int)
    requires
        all_positive(d),
        d.len() > 0,
        0 < r <= sum_all(d),
    ensures
        0 <= frame_at(d, r) < d.len(),
        sum_first(d, frame_at(d, r)) < r <= sum_first(d, frame_at(d, r) + 1),
{
    lemma_frame_at_or_before(d, r, d.len() - 1);
}

/// A frame that begins at an aligned time and shows at `t` is the frame at
/// the position of `t`.
pub proof fn lemma_position_of_cover(d: Seq<nat>, idx: int, start: int, t: int)
    requires
        all_positive(d),
        aligned(d, idx, start),
        covers(d, idx, start, t),
    ensures
        position(d, t) == (idx, start),
        cycle_at(d, t) == start / period(d),
{
    let total = sum_all(d) as int;
    lemma_prefix_bounds(d, idx);
    lemma_fundamental_div_mod(start, total);
    let c = start / total;
    if t == 0 {
        assert(start == 0);
        assert(idx == 0) by {
            if idx > 0 {
                lemma_sum_first_strict(d, 0, idx);
            }
        }
        assert(0int / total == 0);
    } else {
        assert(start == c * total + sum_first(d, idx));
        assert(sum_first(d, idx + 1) == sum_first(d, idx) + d[idx]);
        lemma_fundamental_div_mod_converse(t - 1, total, c, t - 1 - c * total);
        assert(cycle_at(d, t) == c);
        lemma_frame_at_unique(d, idx, t - c * total);
    }
}

/// Moving from frame `idx` to the next one keeps the start aligned; passing
/// the last frame starts a new pass at the first.
pub proof fn lemma_step(d: Seq<nat>, idx: int, start: int)
    requires
        all_positive(d),
        aligned(d, idx, start),
    ensures
        idx + 1 < d.len() ==> aligned(d, idx + 1, start + d[idx]) && (start + d[idx]) / period(d)
            == start / period(d),
        idx + 1 == d.len() ==> aligned(d, 0, start + d[idx]) && (start + d[idx]) / period(d)
            == start / period(d) + 1,
{
    let total = sum_all(d) as int;
    lemma_prefix_bounds(d, idx);
    lemma_fundamental_div_mod(start, total);
    let c = start / total;
    let next = start + d[idx];
    assert(sum_first(d, idx + 1) == sum_first(d, idx) + d[idx]);
    assert(next == c * total + sum_first(d, idx + 1)) by (nonlinear_arith)
        requires
            start == total * c + sum_first(d, idx),
            next == start + d[idx],
            sum_first(d, idx + 1) == sum_first(d, idx) + d[idx],
    ;
    if idx + 1 < d.len() {
        lemma_prefix_bounds(d, idx + 1);
        lemma_fundamental_div_mod_converse(next, total, c, sum_first(d, idx + 1) as int);
    } else {
        assert(next == (c + 1) * total + 0) by (nonlinear_arith)
            requires
                next == c * total + total,
        ;
        lemma_fundamental_div_mod_converse(next, total, c + 1, 0);
    }
}

/// The start of pass `c` is where the first frame begins.
pub proof fn lemma_pass_start_aligned(d: Seq<nat>, c: int)
    requires
        all_positive(d),
        d.len() > 0,
        c >= 0,
    ensures
        aligned(d, 0, c * period(d)),
        c * period(d) >= 0,
{
    lemma_prefix_bounds(d, 0);
    let total = sum_all(d) as int;
    assert(c * total >= 0) by (nonlinear_arith)
        requires
            c >= 0,
            total > 0,
    ;
    lemma_fundamental_div_mod_converse(c * total, total, c, 0);
}

/// The last frame begins where the last frame's duration before the end
/// of the first pass.
pub proof fn lemma_last_frame_aligned(d: Seq<nat>)
    requires
        all_positive(d),
        d.len() > 0,
    ensures
        aligned(d, d.len() - 1, sum_all(d) - d[d.len() - 1]),
        covers(d, d.len() - 1, sum_all(d) - d[d.len() - 1], sum_all(d) as int),
{
    let n = d.len() as int;
    lemma_prefix_bounds(d, n - 1);
    lemma_fundamental_div_mod_converse(
        sum_all(d) - d[n - 1],
        sum_all(d) as int,
        0,
        sum_first(d, n - 1) as int,
    );
}

} // verus!
