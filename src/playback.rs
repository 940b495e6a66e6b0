//! Facts about playback that follow from the animator's contract: how a
//! looping animation comes round again, what an ended animation does on
//! later calls, where seeks land, and when the end of an animation is
//! reported.
use vstd::prelude::*;
use vstd::arithmetic::div_mod::{lemma_fundamental_div_mod, lemma_fundamental_div_mod_converse};

use crate::animator::{
    animate_spec, clamp_time, fits, scaled_advance, seek_state, seek_time, AnimFinishEvent, AnimTimestamp, AnimatorState, ResolvedFrame,
    NORMALIZED_ONE,
};
use crate::sprite::{
    durations_of, sum_all, sum_first, lemma_sum_first_strict, AnimEndAction, Spritesheet,
    MAX_TIME, NORMAL_SPEED,
};
use crate::timeline::{
    aligned, all_positive, covers, cycle_at, frame_at, lemma_frame_at_exists,
    lemma_last_frame_aligned, lemma_position_of_cover, lemma_prefix_bounds,
    period, position,
};

verus! {

/// The durations of the animation at `k` of a well-formed sheet are
/// positive and sum to its stored length.
proof fn lemma_sheet_anim(sheet: Spritesheet, k: int)
    requires
        sheet.wf(),
        0 <= k < sheet.anims_seq().len(),
    ensures
        all_positive(sheet.anim_durations(k)),
        sheet.anim_durations(k).len() == sheet.anims_seq()[k].indices().len(),
        sheet.anim_durations(k).len() > 0,
        period(sheet.anim_durations(k)) == sheet.anims_seq()[k].total(),
        period(sheet.anim_durations(k)) <= MAX_TIME,
{
    let a = sheet.anims_seq()[k];
    assert(a.wf_in(sheet.frames_seq()));
    let d = sheet.anim_durations(k);
    assert forall|i: int| 0 <= i < d.len() implies #[trigger] d[i] > 0 by {
        assert(a.indices()[i] < sheet.frames_seq().len());
    }
}

/// The length of every animation of a well-formed sheet is the sum of the
/// durations of its frames. Every change to a sheet keeps it well-formed,
/// so this holds however the frames of an animation change.
pub proof fn lemma_total_time_is_sum(sheet: Spritesheet, k: int)
    requires
        sheet.wf(),
        0 <= k < sheet.anims_seq().len(),
    ensures
        sheet.anims_seq()[k].total() == sum_all(
            durations_of(sheet.frames_seq(), sheet.anims_seq()[k].indices()),
        ),
{
    assert(sheet.anims_seq()[k].wf_in(sheet.frames_seq()));
}

/// The position of any time is an aligned frame start that shows at that
/// time.
pub proof fn lemma_position_covers(d: Seq<nat>, t: int)
    requires
        all_positive(d),
        d.len() > 0,
        t >= 0,
    ensures
        aligned(d, position(d, t).0, position(d, t).1),
        covers(d, position(d, t).0, position(d, t).1, t),
        cycle_at(d, t) == position(d, t).1 / period(d),
{
    let total = period(d);
    lemma_prefix_bounds(d, 0);
    if t == 0 {
        lemma_fundamental_div_mod_converse(0, total, 0, 0);
    } else {
        let c = (t - 1) / total;
        lemma_fundamental_div_mod(t - 1, total);
        assert(c >= 0) by {
            vstd::arithmetic::div_mod::lemma_div_pos_is_pos(t - 1, total);
        }
        let r = t - c * total;
        assert(0 < r <= total);
        lemma_frame_at_exists(d, r);
        let i = frame_at(d, r);
        lemma_prefix_bounds(d, i);
        assert(sum_first(d, i + 1) == sum_first(d, i) + d[i]);
        lemma_fundamental_div_mod_converse(c * total + sum_first(d, i), total, c, sum_first(d, i) as int);
    }
}

/// Right after `k` whole passes of a looping animation, the first frame
/// shows again, begun exactly at the end of those passes: for every time
/// up to the first frame's duration past `k * period(d)`.
pub proof fn lemma_loop_restarts(d: Seq<nat>, k: int, delta: int)
    requires
        all_positive(d),
        d.len() > 0,
        k >= 0,
        0 < delta <= d[0],
    ensures
        position(d, k * period(d) + delta) == (0int, k * period(d)),
{
    let total = period(d);
    lemma_prefix_bounds(d, 0);
    assert(k * total >= 0) by (nonlinear_arith)
        requires
            k >= 0,
            total > 0,
    ;
    lemma_fundamental_div_mod_converse(k * total, total, k, 0);
    assert(aligned(d, 0, k * total));
    lemma_position_of_cover(d, 0, k * total, k * total + delta);
}

/// At the very end of `k >= 1` whole passes, the last frame still shows,
/// begun its duration before that end: a frame shows up to and including
/// the moment it ends.
pub proof fn lemma_loop_end_of_pass(d: Seq<nat>, k: int)
    requires
        all_positive(d),
        d.len() > 0,
        k >= 1,
    ensures
        position(d, k * period(d)) == (d.len() - 1, k * period(d) - d[d.len() - 1]),
{
    let total = period(d);
    let n = d.len() as int;
    lemma_prefix_bounds(d, n - 1);
    assert(sum_first(d, n) == sum_first(d, n - 1) + d[n - 1]);
    assert((k - 1) * total >= 0 && k * total == (k - 1) * total + total) by (nonlinear_arith)
        requires
            k >= 1,
            total > 0,
    ;
    let start = (k - 1) * total + sum_first(d, n - 1);
    lemma_fundamental_div_mod_converse(start, total, k - 1, sum_first(d, n - 1) as int);
    lemma_position_of_cover(d, n - 1, start, k * total);
}

/// Positions repeat with the period of a looping animation.
pub proof fn lemma_loop_periodic(d: Seq<nat>, t: int)
    requires
        all_positive(d),
        d.len() > 0,
        t > 0,
    ensures
        position(d, t + period(d)) == (position(d, t).0, position(d, t).1 + period(d)),
{
    let total = period(d);
    lemma_position_covers(d, t);
    let (i, s) = position(d, t);
    lemma_prefix_bounds(d, i);
    lemma_fundamental_div_mod(s, total);
    assert(s + total == (s / total + 1) * total + s % total) by (nonlinear_arith)
        requires
            s == total * (s / total) + s % total,
    ;
    lemma_fundamental_div_mod_converse(s + total, total, s / total + 1, s % total);
    assert(aligned(d, i, s + total));
    lemma_position_of_cover(d, i, s + total, t + total);
}

/// Playing a looping animation at normal rates for `a` and then for `b`
/// microseconds leaves the animator where playing `a + b` at once does: the
/// state after repeated calls depends only on the time played in all.
pub proof fn lemma_loop_cumulative(
    s: AnimatorState,
    sheet: Spritesheet,
    a: int,
    b: int,
    entity: u64,
    flip_x: bool,
    flip_y: bool,
)
    requires
        sheet.wf(),
        s.cur_anim matches Some(h) && sheet.lookup(h) is Some,
        ({
            let k = sheet.lookup(s.cur_anim->0)->0;
            &&& fits(sheet.anim_durations(k), s.index, s.frame_start, s.cur_time)
            &&& sheet.anims_seq()[k].view_end_action() == AnimEndAction::Loop
            &&& sheet.anims_seq()[k].view_time_scale() == NORMAL_SPEED
        }),
        s.time_scale == NORMAL_SPEED,
        s.target is None,
        a >= 0,
        b >= 0,
        s.cur_time + a + b <= MAX_TIME,
    ensures
        animate_spec(
            animate_spec(s, sheet, a, entity, flip_x, flip_y).0,
            sheet,
            b,
            entity,
            flip_x,
            flip_y,
        ).0 == animate_spec(s, sheet, a + b, entity, flip_x, flip_y).0,
{
    let k = sheet.lookup(s.cur_anim->0)->0;
    let d = sheet.anim_durations(k);
    lemma_sheet_anim(sheet, k);
    assert(a * 1000 * 1000 / 1000000 == a) by (nonlinear_arith);
    assert(b * 1000 * 1000 / 1000000 == b) by (nonlinear_arith);
    assert((a + b) * 1000 * 1000 / 1000000 == a + b) by (nonlinear_arith);
    lemma_position_covers(d, s.cur_time + a);
    lemma_position_covers(d, s.cur_time + a + b);
}

/// A looping animation played at normal rates from its start for `k`
/// whole passes and then `delta` more microseconds, up to the first
/// frame's duration, is back on its first frame, begun at the end of those
/// passes. With no extra time it is still on the last frame of the last
/// pass, which shows up to and including the moment the pass ends.
pub proof fn lemma_loop_whole_passes(
    s: AnimatorState,
    sheet: Spritesheet,
    k: int,
    delta: int,
    entity: u64,
    flip_x: bool,
    flip_y: bool,
)
    requires
        sheet.wf(),
        s.cur_anim matches Some(h) && sheet.lookup(h) is Some,
        ({
            let j = sheet.lookup(s.cur_anim->0)->0;
            &&& sheet.anims_seq()[j].view_end_action() == AnimEndAction::Loop
            &&& sheet.anims_seq()[j].view_time_scale() == NORMAL_SPEED
            &&& 0 <= delta <= sheet.anim_durations(j)[0]
            &&& k * sheet.anims_seq()[j].total() + delta <= MAX_TIME
        }),
        s.cur_time == 0 && s.frame_start == 0 && s.index == 0,
        s.time_scale == NORMAL_SPEED,
        s.target is None,
        k >= 1,
    ensures
        ({
            let j = sheet.lookup(s.cur_anim->0)->0;
            let total = sheet.anims_seq()[j].total() as int;
            let n = sheet.anims_seq()[j].indices().len() as int;
            let s1 = animate_spec(s, sheet, k * total + delta, entity, flip_x, flip_y).0;
            &&& s1.cur_time == k * total + delta
            &&& delta > 0 ==> s1.index == 0 && s1.frame_start == k * total
            &&& delta == 0 ==> s1.index == n - 1 && s1.frame_start == k * total
                - sheet.anim_durations(j)[n - 1]
        }),
{
    let j = sheet.lookup(s.cur_anim->0)->0;
    let d = sheet.anim_durations(j);
    let total = period(d);
    lemma_sheet_anim(sheet, j);
    lemma_prefix_bounds(d, 0);
    lemma_fundamental_div_mod_converse(0, total, 0, 0);
    assert(k * total >= total) by (nonlinear_arith)
        requires
            k >= 1,
            total > 0,
    ;
    let t = k * total + delta;
    assert(t * 1000 * 1000 / 1000000 == t) by (nonlinear_arith);
    if delta > 0 {
        lemma_loop_restarts(d, k, delta);
    } else {
        lemma_loop_end_of_pass(d, k);
    }
}

/// Once an animation that pauses at its end has ended, later calls show
/// the same frame and change nothing, whatever time passes.
pub proof fn lemma_pause_holds(
    s: AnimatorState,
    sheet: Spritesheet,
    first: int,
    later: int,
    entity: u64,
    flip_x: bool,
    flip_y: bool,
)
    requires
        sheet.wf(),
        s.cur_anim matches Some(h) && sheet.lookup(h) matches Some(k)
            && sheet.anims_seq()[k].view_end_action() == AnimEndAction::Pause,
        animate_spec(s, sheet, first, entity, flip_x, flip_y).1.finished is Some,
        later >= 0,
    ensures
        ({
            let (s1, r1) = animate_spec(s, sheet, first, entity, flip_x, flip_y);
            let (s2, r2) = animate_spec(s1, sheet, later, entity, flip_x, flip_y);
            &&& s2 == s1
            &&& r2.frame == r1.frame
            &&& r2.finished is None
            &&& r2.error is None
        }),
{
    let k = sheet.lookup(s.cur_anim->0)->0;
    let d = sheet.anim_durations(k);
    lemma_sheet_anim(sheet, k);
    lemma_last_frame_aligned(d);
    let total = period(d);
    let n = d.len() as int;
    lemma_prefix_bounds(d, n - 1);
    lemma_position_of_cover(d, n - 1, total - d[n - 1], total);
    lemma_fundamental_div_mod_converse(total - d[n - 1], total, 0, total - d[n - 1]);
    assert(later * sheet.anims_seq()[k].view_time_scale() * 0 / 1000000 == 0) by (nonlinear_arith);
}

/// Once an animation that stops at its end has ended, the animator is idle
/// and later calls show nothing.
pub proof fn lemma_stop_idles(
    s: AnimatorState,
    sheet: Spritesheet,
    first: int,
    later: int,
    entity: u64,
    flip_x: bool,
    flip_y: bool,
)
    requires
        sheet.wf(),
        s.cur_anim matches Some(h) && sheet.lookup(h) matches Some(k)
            && sheet.anims_seq()[k].view_end_action() == AnimEndAction::Stop,
        animate_spec(s, sheet, first, entity, flip_x, flip_y).1.finished is Some,
    ensures
        ({
            let (s1, r1) = animate_spec(s, sheet, first, entity, flip_x, flip_y);
            let (s2, r2) = animate_spec(s1, sheet, later, entity, flip_x, flip_y);
            &&& s1.cur_anim is None
            &&& s2 == s1
            &&& r2.frame is None
            &&& r2.finished is None
        }),
{
}

/// Once an animation that chains to a valid `next` has ended, the animator
/// plays `next` from its start: the next call shows one of `next`'s frames,
/// and its first frame where no time passes.
pub proof fn lemma_next_chains(
    s: AnimatorState,
    sheet: Spritesheet,
    first: int,
    later: int,
    entity: u64,
    flip_x: bool,
    flip_y: bool,
)
    requires
        sheet.wf(),
        s.cur_anim matches Some(h) && sheet.lookup(h) matches Some(k)
            && sheet.anims_seq()[k].view_end_action() matches AnimEndAction::Next(nh)
            && sheet.lookup(nh) is Some,
        animate_spec(s, sheet, first, entity, flip_x, flip_y).1.finished is Some,
        s.valid(),
        later >= 0,
    ensures
        ({
            let k = sheet.lookup(s.cur_anim->0)->0;
            let nh = sheet.anims_seq()[k].view_end_action()->Next_0;
            let j = sheet.lookup(nh)->0;
            let next_anim = sheet.anims_seq()[j];
            let s1 = animate_spec(s, sheet, first, entity, flip_x, flip_y).0;
            let r2 = animate_spec(s1, sheet, later, entity, flip_x, flip_y).1;
            let r0 = animate_spec(s1, sheet, 0, entity, flip_x, flip_y).1;
            let f0 = sheet.frames_seq()[next_anim.indices()[0] as int];
            &&& s1.cur_anim == Some(nh)
            &&& s1.cur_time == 0 && s1.index == 0 && s1.frame_start == 0
            &&& r2.frame matches Some(f) && exists|i: int|
                0 <= i < next_anim.indices().len() && f == (ResolvedFrame {
                    atlas_index: sheet.frames_seq()[next_anim.indices()[i] as int].atlas_index,
                    anchor: sheet.frames_seq()[next_anim.indices()[i] as int].anchor.mirrored(
                        flip_x,
                        flip_y,
                    ),
                })
            &&& r0.frame == Some(
                ResolvedFrame { atlas_index: f0.atlas_index, anchor: f0.anchor.mirrored(flip_x, flip_y) },
            )
        }),
{
    let k = sheet.lookup(s.cur_anim->0)->0;
    let nh = sheet.anims_seq()[k].view_end_action()->Next_0;
    let j = sheet.lookup(nh)->0;
    let d = sheet.anim_durations(j);
    lemma_sheet_anim(sheet, j);
    lemma_prefix_bounds(d, 0);
    lemma_fundamental_div_mod_converse(0, period(d), 0, 0);
    let s1 = animate_spec(s, sheet, first, entity, flip_x, flip_y).0;
    assert(fits(d, 0, 0, 0));
    let t = if s1.cur_time + later * sheet.anims_seq()[j].view_time_scale() * s1.time_scale / 1000000
        > MAX_TIME {
        MAX_TIME as int
    } else {
        s1.cur_time + later * sheet.anims_seq()[j].view_time_scale() * s1.time_scale / 1000000
    };
    assert(later * sheet.anims_seq()[j].view_time_scale() * s1.time_scale >= 0) by (nonlinear_arith)
        requires
            later >= 0,
            sheet.anims_seq()[j].view_time_scale() >= 0,
            s1.time_scale >= 0,
    ;
    assert(0 * sheet.anims_seq()[j].view_time_scale() * s1.time_scale / 1000000 == 0) by (nonlinear_arith);
    lemma_position_covers(d, t);
    lemma_position_covers(d, 0);
    lemma_last_frame_aligned(d);
}

/// Seeking to the normalized time 0 and playing no time shows the first
/// frame at time zero, without an end. The state must fit the animation,
/// as every state that `set_anim` and `animate` leave does
/// ([`lemma_start_fits`], [`lemma_animate_keeps_fit`]).
pub proof fn lemma_seek_to_start(s: AnimatorState, sheet: Spritesheet, entity: u64, flip_x: bool, flip_y: bool)
    requires
        sheet.wf(),
        s.cur_anim matches Some(h) && sheet.lookup(h) is Some,
        fits(sheet.anim_durations(sheet.lookup(s.cur_anim->0)->0), s.index, s.frame_start, s.cur_time),
        s.target == Some(AnimTimestamp::Normalized(0)),
    ensures
        ({
            let k = sheet.lookup(s.cur_anim->0)->0;
            let f = sheet.frames_seq()[sheet.anims_seq()[k].indices()[0] as int];
            let (s1, r) = animate_spec(s, sheet, 0, entity, flip_x, flip_y);
            &&& s1.index == 0 && s1.cur_time == 0
            &&& r.frame == Some(ResolvedFrame { atlas_index: f.atlas_index, anchor: f.anchor.mirrored(flip_x, flip_y) })
            &&& r.finished is None
        }),
{
    let k = sheet.lookup(s.cur_anim->0)->0;
    let d = sheet.anim_durations(k);
    lemma_sheet_anim(sheet, k);
    lemma_prefix_bounds(d, 0);
    assert(period(d) * 0 / 1000000 == 0) by (nonlinear_arith);
    if s.cur_time == 0 {
        assert(s.index == 0) by {
            if s.index > 0 {
                lemma_sum_first_strict(d, 0, s.index);
                lemma_fundamental_div_mod_converse(0, period(d), 0, 0);
            }
        }
    }
    lemma_fundamental_div_mod_converse(0, period(d), 0, 0);
    lemma_position_covers(d, 0);
}

/// Seeking to the normalized time 1 and playing no time shows the last
/// frame with the clock at the animation's length, without an end, for
/// every end action, from any state that fits the animation.
pub proof fn lemma_seek_to_end(s: AnimatorState, sheet: Spritesheet, entity: u64, flip_x: bool, flip_y: bool)
    requires
        sheet.wf(),
        s.cur_anim matches Some(h) && sheet.lookup(h) is Some,
        fits(sheet.anim_durations(sheet.lookup(s.cur_anim->0)->0), s.index, s.frame_start, s.cur_time),
        s.target == Some(AnimTimestamp::Normalized(NORMALIZED_ONE)),
    ensures
        ({
            let k = sheet.lookup(s.cur_anim->0)->0;
            let a = sheet.anims_seq()[k];
            let f = sheet.frames_seq()[a.indices()[a.indices().len() - 1] as int];
            let (s1, r) = animate_spec(s, sheet, 0, entity, flip_x, flip_y);
            &&& s1.index == a.indices().len() - 1
            &&& s1.cur_time == a.total()
            &&& r.frame == Some(ResolvedFrame { atlas_index: f.atlas_index, anchor: f.anchor.mirrored(flip_x, flip_y) })
            &&& r.finished is None
        }),
{
    let k = sheet.lookup(s.cur_anim->0)->0;
    let d = sheet.anim_durations(k);
    let total = period(d);
    let n = d.len() as int;
    lemma_sheet_anim(sheet, k);
    assert(total * 1000000 / 1000000 == total) by (nonlinear_arith);
    assert(seek_time(AnimTimestamp::Normalized(NORMALIZED_ONE), total) == total);
    lemma_last_frame_aligned(d);
    lemma_prefix_bounds(d, n - 1);
    lemma_position_of_cover(d, n - 1, total - d[n - 1], total);
    lemma_fundamental_div_mod_converse(total - d[n - 1], total, 0, total - d[n - 1]);
    lemma_fundamental_div_mod_converse(0, total, 0, 0);
    if s.frame_start < total {
        lemma_fundamental_div_mod_converse(s.frame_start, total, 0, s.frame_start);
    }
    lemma_fundamental_div_mod_converse(total - 1, total, 0, total - 1);
}

/// A call reports the end of the animation exactly when the clock moves
/// into a later pass, and then reports it once, however many passes the
/// clock moves over: at any rates, with the clock moving to
/// `clamp_time(cur_time + scaled_advance(..))`.
pub proof fn lemma_one_completion_per_crossing(
    s: AnimatorState,
    sheet: Spritesheet,
    delta: int,
    entity: u64,
    flip_x: bool,
    flip_y: bool,
)
    requires
        sheet.wf(),
        s.cur_anim matches Some(h) && sheet.lookup(h) is Some,
        ({
            let d = sheet.anim_durations(sheet.lookup(s.cur_anim->0)->0);
            &&& fits(d, s.index, s.frame_start, s.cur_time)
            &&& covers(d, s.index, s.frame_start, s.cur_time)
        }),
        s.target is None,
        delta >= 0,
    ensures
        ({
            let k = sheet.lookup(s.cur_anim->0)->0;
            let d = sheet.anim_durations(k);
            let t = clamp_time(
                s.cur_time + scaled_advance(delta, sheet.anims_seq()[k].view_time_scale() as int, s.time_scale),
            );
            let r = animate_spec(s, sheet, delta, entity, flip_x, flip_y).1;
            r.finished == if cycle_at(d, t) > cycle_at(d, s.cur_time) {
                Some(AnimFinishEvent { entity, anim: s.cur_anim->0 })
            } else {
                None
            }
        }),
{
    let k = sheet.lookup(s.cur_anim->0)->0;
    let d = sheet.anim_durations(k);
    lemma_sheet_anim(sheet, k);
    lemma_position_of_cover(d, s.index, s.frame_start, s.cur_time);
}

/// At normal rates and within `MAX_TIME` the clock moves by `delta`
/// exactly, so the end is reported exactly when `cur_time + delta` lies in a
/// later pass.
pub proof fn lemma_one_completion_per_crossing_at_normal_rates(
    s: AnimatorState,
    sheet: Spritesheet,
    delta: int,
    entity: u64,
    flip_x: bool,
    flip_y: bool,
)
    requires
        sheet.wf(),
        s.cur_anim matches Some(h) && sheet.lookup(h) is Some,
        ({
            let d = sheet.anim_durations(sheet.lookup(s.cur_anim->0)->0);
            &&& fits(d, s.index, s.frame_start, s.cur_time)
            &&& covers(d, s.index, s.frame_start, s.cur_time)
        }),
        s.target is None,
        s.time_scale == NORMAL_SPEED,
        sheet.anims_seq()[sheet.lookup(s.cur_anim->0)->0].view_time_scale() == NORMAL_SPEED,
        delta >= 0,
        s.cur_time + delta <= MAX_TIME,
    ensures
        ({
            let d = sheet.anim_durations(sheet.lookup(s.cur_anim->0)->0);
            let r = animate_spec(s, sheet, delta, entity, flip_x, flip_y).1;
            r.finished == if cycle_at(d, s.cur_time + delta) > cycle_at(d, s.cur_time) {
                Some(AnimFinishEvent { entity, anim: s.cur_anim->0 })
            } else {
                None
            }
        }),
{
    assert(delta * 1000 * 1000 / 1000000 == delta) by (nonlinear_arith);
    lemma_one_completion_per_crossing(s, sheet, delta, entity, flip_x, flip_y);
}

/// An animator just started on an animation is at a state that fits it
/// and shows its first frame.
pub proof fn lemma_start_fits(sheet: Spritesheet, k: int)
    requires
        sheet.wf(),
        0 <= k < sheet.anims_seq().len(),
    ensures
        fits(sheet.anim_durations(k), 0, 0, 0),
        covers(sheet.anim_durations(k), 0, 0, 0),
{
    let d = sheet.anim_durations(k);
    lemma_sheet_anim(sheet, k);
    lemma_prefix_bounds(d, 0);
    lemma_fundamental_div_mod_converse(0, period(d), 0, 0);
}

/// Whatever animation an animator plays after a call of `animate`, its
/// state fits that animation and shows at its clock; so the states that
/// the laws above ask for are the ones that playing on one sheet reaches.
pub proof fn lemma_animate_keeps_fit(
    s: AnimatorState,
    sheet: Spritesheet,
    delta: int,
    entity: u64,
    flip_x: bool,
    flip_y: bool,
)
    requires
        sheet.wf(),
        s.valid(),
        delta >= 0,
    ensures
        ({
            let s1 = animate_spec(s, sheet, delta, entity, flip_x, flip_y).0;
            s1.cur_anim is Some && sheet.lookup(s1.cur_anim->0) is Some ==> {
                let d1 = sheet.anim_durations(sheet.lookup(s1.cur_anim->0)->0);
                &&& fits(d1, s1.index, s1.frame_start, s1.cur_time)
                &&& covers(d1, s1.index, s1.frame_start, s1.cur_time)
                &&& s1.target is None
            }
        }),
{
    let s1 = animate_spec(s, sheet, delta, entity, flip_x, flip_y).0;
    if s.cur_anim is Some && sheet.lookup(s.cur_anim->0) is Some {
        let k = sheet.lookup(s.cur_anim->0)->0;
        let d = sheet.anim_durations(k);
        lemma_sheet_anim(sheet, k);
        let total = period(d);
        let n = d.len() as int;
        lemma_last_frame_aligned(d);
        lemma_prefix_bounds(d, n - 1);
        assert(delta * sheet.anims_seq()[k].view_time_scale() * s.time_scale >= 0) by (nonlinear_arith)
            requires
                delta >= 0,
                sheet.anims_seq()[k].view_time_scale() >= 0,
                s.time_scale >= 0,
        ;
        if fits(d, s.index, s.frame_start, s.cur_time) {
            let looping = sheet.anims_seq()[k].view_end_action() == AnimEndAction::Loop;
            let moved_time = match s.target {
                Some(ts) => seek_state(d, looping, s.index, s.frame_start, s.cur_time, seek_time(ts, total)).2,
                None => clamp_time(
                    s.cur_time + scaled_advance(delta, sheet.anims_seq()[k].view_time_scale() as int, s.time_scale),
                ),
            };
            match s.target {
                Some(ts) => {
                    assert(seek_time(ts, total) >= 0) by {
                        match ts {
                            AnimTimestamp::Normalized(m) => {
                                assert(total * m >= 0) by (nonlinear_arith)
                                    requires
                                        total > 0,
                                        m >= 0,
                                ;
                            },
                            _ => {},
                        }
                    }
                },
                None => {},
            }
            assert(0 <= moved_time <= MAX_TIME);
            lemma_position_covers(d, moved_time);
        }
        match sheet.anims_seq()[k].view_end_action() {
            AnimEndAction::Next(nh) => {
                if sheet.lookup(nh) is Some {
                    lemma_start_fits(sheet, sheet.lookup(nh)->0);
                }
            },
            _ => {},
        }
    }
}

} // verus!
