//! The per-sprite playback state machine. An animator follows one
//! animation of a sheet at a time: each call of [`SpriteAnimator::animate`]
//! advances its clock, finds the frame that shows, reports the end of the
//! animation and applies its end action.
use vstd::prelude::*;
use vstd::arithmetic::div_mod::{lemma_div_is_ordered, lemma_fundamental_div_mod};

use crate::anchor::{cloned_flipped_anchor, Anchor};
use crate::sprite::{
    durations_of, frames_wf, lemma_sum_first_monotone, sum_first, Anim, AnimEndAction,
    AnimHandle, Frame, Spritesheet, MAX_TIME, NORMAL_SPEED,
};
use crate::timeline::{
    aligned, all_positive, covers, cycle_at, lemma_last_frame_aligned, lemma_pass_start_aligned,
    lemma_position_of_cover, lemma_prefix_bounds, lemma_step, period, position,
};

verus! {

/// The denominator of a normalized time: a normalized time of 1000000 is
/// the end of the animation's first pass.
pub const NORMALIZED_ONE: u32 = 1000000;

/// A point in an animation to seek to.
#[derive(Clone, Copy, Debug, PartialEq, Eq, Structural)]
pub enum AnimTimestamp {
    /// This many microseconds after the start.
    Micros(u64),
    /// This fraction, in millionths, of one pass of the animation: 0 is the
    /// start, 1000000 the end of the first pass.
    Normalized(u32),
}

/// The frame that an animator shows: where it lies in the atlas, and its
/// anchor mirrored for the sprite's flips.
#[derive(Clone, Copy, Debug, PartialEq, Eq, Structural)]
pub struct ResolvedFrame {
    pub atlas_index: usize,
    pub anchor: Anchor,
}

/// Notice that the animation `anim` of the sprite `entity` has ended.
#[derive(Clone, Copy, Debug, PartialEq, Eq, Structural)]
pub struct AnimFinishEvent {
    pub entity: u64,
    pub anim: AnimHandle,
}

/// What went wrong in an animator.
#[derive(Clone, Copy, Debug, PartialEq, Eq, Structural)]
pub enum AnimError {
    /// The sheet has no animation behind the handle.
    UnknownAnim,
    /// The current animation no longer fits the sheet: the animator has no
    /// animation any more. Where the sheet lacks the handle the clock is
    /// kept; where the sheet's animation does not fit the clock, the clock
    /// is reset.
    StaleAnim,
    /// An ended animation chains to a handle the sheet lacks; the animator
    /// went idle.
    BadNextAnim(AnimHandle),
}

/// The outcome of one call of [`SpriteAnimator::animate`].
#[derive(Clone, Copy, Debug, PartialEq, Eq, Structural)]
pub struct AnimStep {
    /// The frame to show, where an animation played.
    pub frame: Option<ResolvedFrame>,
    /// The end of the animation, where it ended in this call.
    pub finished: Option<AnimFinishEvent>,
    /// What went wrong, if anything.
    pub error: Option<AnimError>,
}

/// The playback state of one sprite.
#[derive(Clone, Copy, Debug)]
pub struct SpriteAnimator {
    time_scale: u32,
    cur_time: u64,
    cur_anim: Option<AnimHandle>,
    last_frame_start: u64,
    last_anim_index: usize,
    target_time: Option<AnimTimestamp>,
}

/// The state of an animator, in mathematical terms.
pub struct AnimatorState {
    /// Play rate in thousandths.
    pub time_scale: int,
    /// Microseconds played of the current animation.
    pub cur_time: int,
    /// The animation that plays, if any.
    pub cur_anim: Option<AnimHandle>,
    /// When the frame that shows began.
    pub frame_start: int,
    /// Which frame of the animation shows.
    pub index: int,
    /// Where the next call of `animate` seeks to, if anywhere.
    pub target: Option<AnimTimestamp>,
}

impl AnimatorState {
    /// The state is one that an animator can hold.
    pub open spec fn valid(self) -> bool {
        &&& 0 <= self.time_scale <= u32::MAX
        &&& 0 <= self.cur_time <= u64::MAX
        &&& 0 <= self.frame_start <= u64::MAX
        &&& 0 <= self.index <= usize::MAX
    }
}

impl View for SpriteAnimator {
    type V = AnimatorState;

    closed spec fn view(&self) -> AnimatorState {
        AnimatorState {
            time_scale: self.time_scale as int,
            cur_time: self.cur_time as int,
            cur_anim: self.cur_anim,
            frame_start: self.last_frame_start as int,
            index: self.last_anim_index as int,
            target: self.target_time,
        }
    }
}

impl SpriteAnimator {
    /// Every animator holds a valid state.
    pub proof fn lemma_view_valid(&self)
        ensures
            self@.valid(),
    {
    }
}

/// How far the clock moves for `delta` microseconds at the two rates, in
/// thousandths, rounded down.
pub open spec fn scaled_advance(delta: int, anim_scale: int, animator_scale: int) -> int {
    delta * anim_scale * animator_scale / 1000000
}

/// `t`, but no later than `MAX_TIME`.
pub open spec fn clamp_time(t: int) -> int {
    if t > MAX_TIME {
        MAX_TIME as int
    } else {
        t
    }
}

/// The time that a seek to `ts` goes to, in an animation whose pass lasts
/// `total`.
pub open spec fn seek_time(ts: AnimTimestamp, total: int) -> int {
    match ts {
        AnimTimestamp::Micros(t) => clamp_time(t as int),
        AnimTimestamp::Normalized(n) => clamp_time(total * n / 1000000),
    }
}

/// The state `(index, start, time)` fits an animation with durations `d`:
/// the frame begins at an aligned time no later than the clock, and only
/// at time zero exactly at it.
pub open spec fn fits(d: Seq<nat>, idx: int, start: int, cur: int) -> bool {
    &&& aligned(d, idx, start)
    &&& start <= cur <= MAX_TIME
    &&& (start < cur || cur == 0)
}

/// The state right after seeking to time `t`. A non-looping animation
/// stops at its last frame; a seek backwards starts over from the start of
/// the pass that holds `t`; a seek forwards only moves the clock.
pub open spec fn seek_state(d: Seq<nat>, looping: bool, idx: int, start: int, cur: int, t: int) -> (
    int,
    int,
    int,
) {
    if !looping && t >= period(d) {
        (d.len() - 1, period(d) - d[d.len() - 1], period(d))
    } else if t < cur {
        (0, if t == 0 {
            0
        } else {
            ((t - 1) / period(d)) * period(d)
        }, t)
    } else {
        (idx, start, t)
    }
}

/// The frame that shows once the clock reads `cur`, as `(index, start,
/// time, ended)`, from a frame that began at `start`. The animation ends
/// when `cur` lies in a later pass than `start`; a looping animation goes
/// on, another stays on its last frame at the end of its first pass.
pub open spec fn settle_state(d: Seq<nat>, looping: bool, start: int, cur: int) -> (
    int,
    int,
    int,
    bool,
) {
    let ended = cycle_at(d, cur) > start / period(d);
    if ended && !looping {
        (d.len() - 1, period(d) - d[d.len() - 1], period(d), true)
    } else {
        (position(d, cur).0, position(d, cur).1, cur, ended)
    }
}

/// The animator with no animation and no pending seek, its clock, frame
/// and rate as they were.
pub open spec fn detached_state(s: AnimatorState) -> AnimatorState {
    AnimatorState { cur_anim: None, target: None, ..s }
}

/// The animator with no animation and its clock reset.
pub open spec fn idle_state(s: AnimatorState) -> AnimatorState {
    AnimatorState { cur_time: 0, cur_anim: None, frame_start: 0, index: 0, target: None, ..s }
}

/// The animator at the start of the animation `h`.
pub open spec fn started_state(s: AnimatorState, h: AnimHandle) -> AnimatorState {
    AnimatorState { cur_time: 0, cur_anim: Some(h), frame_start: 0, index: 0, ..s }
}

/// The outcome of `animate` for the state `s`, the sheet, `delta`
/// microseconds, the sprite `entity` and its flips: the new state and what
/// the call reports.
pub open spec fn animate_spec(
    s: AnimatorState,
    sheet: Spritesheet,
    delta: int,
    entity: u64,
    flip_x: bool,
    flip_y: bool,
) -> (AnimatorState, AnimStep) {
    let nothing = AnimStep { frame: None, finished: None, error: None };
    let stale = AnimStep { frame: None, finished: None, error: Some(AnimError::StaleAnim) };
    match s.cur_anim {
        None => (s, nothing),
        Some(h) => match sheet.lookup(h) {
            None => (detached_state(s), stale),
            Some(k) => {
                let d = sheet.anim_durations(k);
                let a = sheet.anims_seq()[k];
                if !fits(d, s.index, s.frame_start, s.cur_time) {
                    (idle_state(s), stale)
                } else {
                    let looping = a.view_end_action() == AnimEndAction::Loop;
                    let moved = match s.target {
                        Some(ts) => seek_state(
                            d,
                            looping,
                            s.index,
                            s.frame_start,
                            s.cur_time,
                            seek_time(ts, period(d)),
                        ),
                        None => (
                            s.index,
                            s.frame_start,
                            clamp_time(
                                s.cur_time + scaled_advance(
                                    delta,
                                    a.view_time_scale() as int,
                                    s.time_scale,
                                ),
                            ),
                        ),
                    };
                    let settled = settle_state(d, looping, moved.1, moved.2);
                    let f = sheet.frames_seq()[a.indices()[settled.0] as int];
                    let shown = Some(
                        ResolvedFrame { atlas_index: f.atlas_index, anchor: f.anchor.mirrored(flip_x, flip_y) },
                    );
                    let played = AnimatorState {
                        cur_time: settled.2,
                        frame_start: settled.1,
                        index: settled.0,
                        target: None,
                        ..s
                    };
                    if !settled.3 {
                        (played, AnimStep { frame: shown, finished: None, error: None })
                    } else {
                        let ended = AnimStep {
                            frame: shown,
                            finished: Some(AnimFinishEvent { entity, anim: h }),
                            error: None,
                        };
                        match a.view_end_action() {
                            AnimEndAction::Loop => (played, ended),
                            AnimEndAction::Pause => (AnimatorState { time_scale: 0, ..played }, ended),
                            AnimEndAction::Stop => (idle_state(played), ended),
                            AnimEndAction::Next(nh) => if sheet.lookup(nh) is Some {
                                (started_state(played, nh), ended)
                            } else {
                                (
                                    idle_state(played),
                                    AnimStep { error: Some(AnimError::BadNextAnim(nh)), ..ended },
                                )
                            },
                        }
                    }
                }
            },
        },
    }
}

/// The durations of an animation that fits its sheet's frames are
/// positive, and sum to its length.
proof fn lemma_anim_durations(frames: Seq<Frame>, anim: Anim)
    requires
        frames_wf(frames),
        anim.wf_in(frames),
    ensures
        all_positive(durations_of(frames, anim.indices())),
        durations_of(frames, anim.indices()).len() == anim.indices().len(),
        period(durations_of(frames, anim.indices())) == anim.total(),
        forall|i: int|
            0 <= i < anim.indices().len() ==> #[trigger] durations_of(frames, anim.indices())[i]
                == frames[anim.indices()[i] as int].duration,
{
    let d = durations_of(frames, anim.indices());
    assert forall|i: int| 0 <= i < d.len() implies #[trigger] d[i] > 0 by {
        assert(anim.indices()[i] < frames.len());
    }
}

/// The sum of the first `k` durations of `anim`.
fn prefix_time(frames: &Vec<Frame>, anim: &Anim, k: usize) -> (r: u64)
    requires
        frames_wf(frames@),
        anim.wf_in(frames@),
        k <= anim.indices().len(),
    ensures
        r == sum_first(durations_of(frames@, anim.indices()), k as int),
{
    let ghost d = durations_of(frames@, anim.indices());
    proof {
        lemma_anim_durations(frames@, *anim);
    }
    let indices = anim.frame_indices();
    let mut time: u64 = 0;
    let mut i: usize = 0;
    while i < k
        invariant
            0 <= i <= k <= d.len(),
            indices@ == anim.indices(),
            d == durations_of(frames@, anim.indices()),
            d.len() == indices@.len(),
            anim.wf_in(frames@),
            forall|j: int| 0 <= j < d.len() ==> #[trigger] d[j] == frames@[indices@[j] as int].duration,
            time == sum_first(d, i as int),
        decreases k - i,
    {
        proof {
            lemma_sum_first_monotone(d, i as int + 1, d.len() as int);
        }
        time = time + frames[indices[i]].duration;
        i = i + 1;
    }
    time
}

/// Whether the state `(idx, start, cur)` fits `anim`.
fn state_fits(frames: &Vec<Frame>, anim: &Anim, idx: usize, start: u64, cur: u64) -> (r: bool)
    requires
        frames_wf(frames@),
        anim.wf_in(frames@),
    ensures
        r == fits(durations_of(frames@, anim.indices()), idx as int, start as int, cur as int),
{
    proof {
        lemma_anim_durations(frames@, *anim);
    }
    if idx >= anim.frame_indices().len() {
        return false;
    }
    if start > cur || cur > MAX_TIME {
        return false;
    }
    if start == cur && cur != 0 {
        return false;
    }
    let p = prefix_time(frames, anim, idx);
    start % anim.total_time() == p
}

/// `cur` moved on by `delta` microseconds at the rates `anim_scale` and
/// `animator_scale`, in thousandths, and kept within `MAX_TIME`.
fn advance_time(cur: u64, delta: u64, anim_scale: u32, animator_scale: u32) -> (r: u64)
    ensures
        r == clamp_time(cur + scaled_advance(delta as int, anim_scale as int, animator_scale as int)),
{
    let a = delta as u128;
    let b = anim_scale as u128;
    let c = animator_scale as u128;
    assert(a * b < 0x1_0000_0000_0000_0000_0000_0000int) by (nonlinear_arith)
        requires
            a < 0x1_0000_0000_0000_0000int,
            b < 0x1_0000_0000int,
    ;
    assert(a * b * c < 0x1_0000_0000_0000_0000_0000_0000_0000_0000int) by (nonlinear_arith)
        requires
            a < 0x1_0000_0000_0000_0000int,
            b < 0x1_0000_0000int,
            c < 0x1_0000_0000int,
    ;
    let step = a * b * c / 1000000;
    let sum = cur as u128 + step;
    if sum > MAX_TIME as u128 {
        MAX_TIME
    } else {
        sum as u64
    }
}

/// Where a seek to `target` goes, from the state `(idx, start, cur)`.
fn seek(
    frames: &Vec<Frame>,
    anim: &Anim,
    looping: bool,
    idx: usize,
    start: u64,
    cur: u64,
    target: AnimTimestamp,
) -> (r: (usize, u64, u64))
    requires
        frames_wf(frames@),
        anim.wf_in(frames@),
        fits(durations_of(frames@, anim.indices()), idx as int, start as int, cur as int),
    ensures
        (r.0 as int, r.1 as int, r.2 as int) == seek_state(
            durations_of(frames@, anim.indices()),
            looping,
            idx as int,
            start as int,
            cur as int,
            seek_time(target, anim.total() as int),
        ),
        fits(durations_of(frames@, anim.indices()), r.0 as int, r.1 as int, r.2 as int),
{
    let ghost d = durations_of(frames@, anim.indices());
    proof {
        lemma_anim_durations(frames@, *anim);
    }
    let total = anim.total_time();
    let t: u64 = match target {
        AnimTimestamp::Micros(t) => if t > MAX_TIME {
            MAX_TIME
        } else {
            t
        },
        AnimTimestamp::Normalized(n) => {
            assert((total as u128) * (n as u128) < 0x1_0000_0000_0000_0000_0000_0000int)
                by (nonlinear_arith)
                requires
                    total < 0x1_0000_0000_0000_0000int,
                    n < 0x1_0000_0000int,
            ;
            let x = (total as u128) * (n as u128) / 1000000;
            if x > MAX_TIME as u128 {
                MAX_TIME
            } else {
                x as u64
            }
        },
    };
    let n = anim.frame_indices().len();
    if !looping && t >= total {
        let last = n - 1;
        proof {
            lemma_last_frame_aligned(d);
            lemma_prefix_bounds(d, last as int);
        }
        (last, total - frames[anim.frame_indices()[last]].duration, total)
    } else if t < cur {
        if t == 0 {
            proof {
                lemma_pass_start_aligned(d, 0);
            }
            (0, 0, 0)
        } else {
            let c = (t - 1) / total;
            proof {
                lemma_pass_start_aligned(d, c as int);
                lemma_fundamental_div_mod((t - 1) as int, total as int);
                assert(c * total <= t - 1) by (nonlinear_arith)
                    requires
                        (t - 1) as int == total * c + (t - 1) as int % total as int,
                        (t - 1) as int % total as int >= 0,
                ;
            }
            (0, c * total, t)
        }
    } else {
        (idx, start, t)
    }
}

/// The frame that shows once the clock reads `cur`, from the frame `idx`
/// that began at `start`, stepping over the frames in between; see
/// [`settle_state`].
fn settle(frames: &Vec<Frame>, anim: &Anim, looping: bool, idx: usize, start: u64, cur: u64) -> (r: (
    usize,
    u64,
    u64,
    bool,
))
    requires
        frames_wf(frames@),
        anim.wf_in(frames@),
        fits(durations_of(frames@, anim.indices()), idx as int, start as int, cur as int),
    ensures
        (r.0 as int, r.1 as int, r.2 as int, r.3) == settle_state(
            durations_of(frames@, anim.indices()),
            looping,
            start as int,
            cur as int,
        ),
        fits(durations_of(frames@, anim.indices()), r.0 as int, r.1 as int, r.2 as int),
        covers(durations_of(frames@, anim.indices()), r.0 as int, r.1 as int, r.2 as int),
{
    let ghost d = durations_of(frames@, anim.indices());
    proof {
        lemma_anim_durations(frames@, *anim);
        lemma_prefix_bounds(d, idx as int);
    }
    let ghost total = period(d);
    let indices = anim.frame_indices();
    let n = indices.len();
    let mut idx = idx;
    let mut frame_start = start;
    let mut next = start + frames[indices[idx]].duration;
    let mut ended = false;
    while cur > next
        invariant
            d == durations_of(frames@, anim.indices()),
            indices@ == anim.indices(),
            n == d.len(),
            all_positive(d),
            total == period(d),
            total == anim.total(),
            anim.total() <= MAX_TIME,
            forall|j: int| 0 <= j < d.len() ==> #[trigger] d[j] == frames@[indices@[j] as int].duration,
            forall|j: int| 0 <= j < indices@.len() ==> (#[trigger] indices@[j]) < frames@.len(),
            aligned(d, idx as int, frame_start as int),
            frame_start <= cur <= MAX_TIME,
            frame_start < cur || cur == 0,
            next == frame_start + d[idx as int],
            ended == (frame_start as int / total > start as int / total),
            start as int / total <= frame_start as int / total,
            !looping ==> !ended,
        decreases cur - frame_start,
    {
        proof {
            lemma_step(d, idx as int, frame_start as int);
        }
        frame_start = next;
        idx = idx + 1;
        if idx >= n {
            ended = true;
            if looping {
                idx = 0;
            } else {
                let last = n - 1;
                proof {
                    lemma_last_frame_aligned(d);
                    lemma_prefix_bounds(d, last as int);
                    lemma_div_is_ordered(frame_start as int, cur - 1, total);
                }
                return (last, anim.total_time() - frames[indices[last]].duration, anim.total_time(), true);
            }
        }
        proof {
            lemma_prefix_bounds(d, idx as int);
        }
        next = frame_start + frames[indices[idx]].duration;
    }
    proof {
        lemma_position_of_cover(d, idx as int, frame_start as int, cur as int);
    }
    (idx, frame_start, cur, ended)
}

impl Default for SpriteAnimator {
    /// An idle animator at normal speed.
    fn default() -> (r: SpriteAnimator)
        ensures
            r@ == (AnimatorState {
                time_scale: NORMAL_SPEED as int,
                cur_time: 0,
                cur_anim: None,
                frame_start: 0,
                index: 0,
                target: None,
            }),
    {
        SpriteAnimator::new(NORMAL_SPEED)
    }
}

impl SpriteAnimator {
    /// An idle animator that plays at `time_scale` thousandths of the
    /// normal rate.
    pub fn new(time_scale: u32) -> (r: SpriteAnimator)
        ensures
            r@ == (AnimatorState {
                time_scale: time_scale as int,
                cur_time: 0,
                cur_anim: None,
                frame_start: 0,
                index: 0,
                target: None,
            }),
    {
        SpriteAnimator {
            time_scale,
            cur_time: 0,
            cur_anim: None,
            last_frame_start: 0,
            last_anim_index: 0,
            target_time: None,
        }
    }

    /// An animator at normal speed at the start of `anim_handle`; the
    /// handle is checked against a sheet on the first `animate`.
    pub fn from_anim(anim_handle: AnimHandle) -> (r: SpriteAnimator)
        ensures
            r@ == (AnimatorState {
                time_scale: NORMAL_SPEED as int,
                cur_time: 0,
                cur_anim: Some(anim_handle),
                frame_start: 0,
                index: 0,
                target: None,
            }),
    {
        SpriteAnimator {
            time_scale: NORMAL_SPEED,
            cur_time: 0,
            cur_anim: Some(anim_handle),
            last_frame_start: 0,
            last_anim_index: 0,
            target_time: None,
        }
    }

    /// The animator's play rate, in thousandths.
    pub fn time_scale(&self) -> (r: u32)
        ensures
            r == self@.time_scale,
    {
        self.time_scale
    }

    /// Sets the animator's play rate, in thousandths.
    pub fn set_time_scale(&mut self, time_scale: u32)
        ensures
            final(self)@ == (AnimatorState { time_scale: time_scale as int, ..old(self)@ }),
    {
        self.time_scale = time_scale;
    }

    /// Microseconds played of the current animation.
    pub fn cur_time(&self) -> (r: u64)
        ensures
            r == self@.cur_time,
    {
        self.cur_time
    }

    /// Which frame of the current animation shows, as a position in its
    /// frames.
    pub fn last_anim_index(&self) -> (r: usize)
        ensures
            r == self@.index,
    {
        self.last_anim_index
    }

    /// When the frame that shows began, in microseconds.
    pub fn last_frame_start(&self) -> (r: u64)
        ensures
            r == self@.frame_start,
    {
        self.last_frame_start
    }

    /// The time played of the current animation in millionths of one pass;
    /// 0 where no animation of `sheet` plays.
    pub fn get_cur_time_normalized(&self, sheet: &Spritesheet) -> (r: u128)
        ensures
            r == match self@.cur_anim {
                Some(h) => match sheet.lookup(h) {
                    Some(k) => self@.cur_time * 1000000 / sheet.anims_seq()[k].total() as int,
                    None => 0,
                },
                None => 0,
            },
    {
        proof {
            use_type_invariant(sheet);
        }
        match self.cur_anim {
            Some(h) => match sheet.get_anim(&h) {
                Ok(anim) => {
                    proof {
                        lemma_anim_durations(sheet.frames_seq(), *anim);
                        lemma_prefix_bounds(durations_of(sheet.frames_seq(), anim.indices()), 0);
                    }
                    (self.cur_time as u128) * 1000000 / (anim.total_time() as u128)
                },
                Err(_) => 0,
            },
            None => 0,
        }
    }

    /// Asks the next `animate` to seek to `time`; a later request replaces
    /// an earlier one. Without an animation this does nothing.
    pub fn set_cur_time(&mut self, time: AnimTimestamp)
        ensures
            old(self)@.cur_anim is Some ==> final(self)@ == (AnimatorState {
                target: Some(time),
                ..old(self)@
            }),
            old(self)@.cur_anim is None ==> final(self)@ == old(self)@,
    {
        if self.cur_anim.is_some() {
            self.target_time = Some(time);
        }
    }

    /// The animation that plays, if any.
    pub fn cur_anim(&self) -> (r: Option<AnimHandle>)
        ensures
            r == self@.cur_anim,
    {
        self.cur_anim
    }

    /// Whether `handle` is the animation that plays.
    pub fn is_cur_anim(&self, handle: AnimHandle) -> (r: bool)
        ensures
            r == (self@.cur_anim == Some(handle)),
    {
        match self.cur_anim {
            Some(cur) => cur == handle,
            None => false,
        }
    }

    /// Plays `anim` of `sheet` from its start, unless it already plays, in
    /// which case nothing changes. Fails with `UnknownAnim`, changing
    /// nothing, where the sheet has no such animation.
    pub fn set_anim(&mut self, anim: AnimHandle, sheet: &Spritesheet) -> (r: Result<(), AnimError>)
        ensures
            sheet.lookup(anim) is None ==> r == Err::<(), AnimError>(AnimError::UnknownAnim)
                && final(self)@ == old(self)@,
            sheet.lookup(anim) is Some ==> r is Ok,
            sheet.lookup(anim) is Some && old(self)@.cur_anim == Some(anim) ==> final(self)@
                == old(self)@,
            sheet.lookup(anim) is Some && old(self)@.cur_anim != Some(anim) ==> final(self)@
                == started_state(old(self)@, anim),
    {
        if sheet.get_anim(&anim).is_err() {
            return Err(AnimError::UnknownAnim);
        }
        if !self.is_cur_anim(anim) {
            self.restart_anim();
            self.cur_anim = Some(anim);
        }
        Ok(())
    }

    /// Plays the animation at `anim_index` of `sheet`, as
    /// [`SpriteAnimator::set_anim`] does.
    pub fn set_anim_index(&mut self, anim_index: usize, sheet: &Spritesheet) -> (r: Result<
        (),
        AnimError,
    >)
        ensures
            sheet.lookup(AnimHandle::from_index_spec(anim_index)) is None ==> r == Err::<(), AnimError>(
                AnimError::UnknownAnim,
            ) && final(self)@ == old(self)@,
            sheet.lookup(AnimHandle::from_index_spec(anim_index)) is Some ==> r is Ok,
            sheet.lookup(AnimHandle::from_index_spec(anim_index)) is Some && old(self)@.cur_anim
                == Some(AnimHandle::from_index_spec(anim_index)) ==> final(self)@ == old(self)@,
            sheet.lookup(AnimHandle::from_index_spec(anim_index)) is Some && old(self)@.cur_anim
                != Some(AnimHandle::from_index_spec(anim_index)) ==> final(self)@ == started_state(
                old(self)@,
                AnimHandle::from_index_spec(anim_index),
            ),
    {
        self.set_anim(AnimHandle::from_index(anim_index), sheet)
    }

    /// Leaves the current animation: the animator goes idle, its clock
    /// reset and any pending seek dropped.
    pub fn stop_anim(&mut self)
        ensures
            final(self)@ == idle_state(old(self)@),
    {
        self.restart_anim();
        self.cur_anim = None;
        self.target_time = None;
    }

    /// Starts the current animation over from its first frame.
    pub fn restart_anim(&mut self)
        ensures
            final(self)@ == (AnimatorState { cur_time: 0, frame_start: 0, index: 0, ..old(self)@ }),
    {
        self.last_anim_index = 0;
        self.last_frame_start = 0;
        self.cur_time = 0;
    }

    /// Plays `delta` microseconds of the current animation of `sheet`, or
    /// seeks where a seek is pending, for the sprite `entity` drawn with the
    /// flips `flip_x` and `flip_y`. Reports the frame that then shows, the
    /// end of the animation where it ended, and applies its end action; see
    /// [`animate_spec`].
    pub fn animate(
        &mut self,
        delta: u64,
        entity: u64,
        sheet: &Spritesheet,
        flip_x: bool,
        flip_y: bool,
    ) -> (r: AnimStep)
        ensures
            (final(self)@, r) == animate_spec(old(self)@, *sheet, delta as int, entity, flip_x, flip_y),
    {
        proof {
            use_type_invariant(sheet);
        }
        let handle = match self.cur_anim {
            Some(h) => h,
            None => {
                return AnimStep { frame: None, finished: None, error: None };
            },
        };
        let anim = match sheet.get_anim(&handle) {
            Ok(a) => a,
            Err(_) => {
                self.cur_anim = None;
                self.target_time = None;
                return AnimStep { frame: None, finished: None, error: Some(AnimError::StaleAnim) };
            },
        };
        let frames = sheet.frames();
        proof {
            lemma_anim_durations(frames@, *anim);
        }
        if !state_fits(frames, anim, self.last_anim_index, self.last_frame_start, self.cur_time) {
            self.stop_anim();
            return AnimStep { frame: None, finished: None, error: Some(AnimError::StaleAnim) };
        }
        let end_action = anim.end_action();
        let looping = match end_action {
            AnimEndAction::Loop => true,
            _ => false,
        };
        let (idx, start, time) = match self.target_time {
            Some(target) => seek(
                frames,
                anim,
                looping,
                self.last_anim_index,
                self.last_frame_start,
                self.cur_time,
                target,
            ),
            None => (
                self.last_anim_index,
                self.last_frame_start,
                advance_time(self.cur_time, delta, anim.time_scale(), self.time_scale),
            ),
        };
        let (idx, start, time, ended) = settle(frames, anim, looping, idx, start, time);
        self.last_anim_index = idx;
        self.last_frame_start = start;
        self.cur_time = time;
        self.target_time = None;
        let frame = &frames[anim.frame_indices()[idx]];
        let shown = Some(
            ResolvedFrame {
                atlas_index: frame.atlas_index,
                anchor: cloned_flipped_anchor(frame.anchor, flip_x, flip_y),
            },
        );
        if !ended {
            return AnimStep { frame: shown, finished: None, error: None };
        }
        let finished = Some(AnimFinishEvent { entity, anim: handle });
        match end_action {
            AnimEndAction::Loop => {},
            AnimEndAction::Pause => {
                self.time_scale = 0;
            },
            AnimEndAction::Stop => {
                self.stop_anim();
            },
            AnimEndAction::Next(next) => {
                if sheet.get_anim(&next).is_ok() {
                    self.restart_anim();
                    self.cur_anim = Some(next);
                } else {
                    self.stop_anim();
                    return AnimStep {
                        frame: shown,
                        finished,
                        error: Some(AnimError::BadNextAnim(next)),
                    };
                }
            },
        }
        AnimStep { frame: shown, finished, error: None }
    }
}

} // verus!
