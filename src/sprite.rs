//! The spritesheet data model: frames, animations over them, and handles
//! that name an animation by its position in a sheet.
use vstd::prelude::*;

use crate::anchor::{anchor_is_small, trimmed_anchor, trimmed_anchor_spec, Anchor};
use crate::aseprite_data::{FrameData, FrameTagData, RectData, SizeData, SpritesheetData};

verus! {

/// The longest time, in microseconds, that an animation may last, and the
/// furthest that an animator's clock runs.
pub const MAX_TIME: u64 = 4611686018427387904;

/// The time scale that plays an animation at its normal rate, in
/// thousandths.
pub const NORMAL_SPEED: u32 = 1000;

/// The sum of the first `k` durations of `d`.
pub open spec fn sum_first(d: Seq<nat>, k: int) -> nat
    decreases k,
{
    if k <= 0 {
        0
    } else {
        sum_first(d, k - 1) + d[k - 1]
    }
}

/// The sum of all durations of `d`.
pub open spec fn sum_all(d: Seq<nat>) -> nat {
    sum_first(d, d.len() as int)
}

/// The durations of the frames that `indices` picks out of `frames`.
pub open spec fn durations_of(frames: Seq<Frame>, indices: Seq<usize>) -> Seq<nat> {
    indices.map_values(|i: usize| frames[i as int].duration as nat)
}

/// Sums over a longer prefix are no smaller.
pub proof fn lemma_sum_first_monotone(d: Seq<nat>, j: int, k: int)
    requires
        0 <= j <= k,
    ensures
        sum_first(d, j) <= sum_first(d, k),
    decreases k - j,
{
    if j < k {
        lemma_sum_first_monotone(d, j, k - 1);
    }
}

/// Where all durations are positive, a longer prefix has a strictly
/// larger sum.
pub proof fn lemma_sum_first_strict(d: Seq<nat>, j: int, k: int)
    requires
        0 <= j < k <= d.len(),
        forall|i: int| 0 <= i < d.len() ==> d[i] > 0,
    ensures
        sum_first(d, j) < sum_first(d, k),
    decreases k - j,
{
    if j < k - 1 {
        lemma_sum_first_strict(d, j, k - 1);
    }
}

/// An atomic image region of the sheet, shown for a while.
#[derive(Clone, Copy, Debug, PartialEq, Eq, Structural)]
pub struct Frame {
    /// The position of the frame's rectangle in the texture atlas.
    pub atlas_index: usize,
    /// How long the frame shows, in microseconds.
    pub duration: u64,
    /// The frame's pivot.
    pub anchor: Anchor,
    /// The frame's rectangle in the image.
    pub rect: RectData,
}

/// What an animator does when its animation runs out of frames.
#[derive(Clone, Copy, Debug, PartialEq, Eq, Structural)]
pub enum AnimEndAction {
    /// Leave the animation: the animator goes idle.
    Stop,
    /// Stay on the last frame: the animator's time scale drops to zero.
    Pause,
    /// Start over from the first frame.
    Loop,
    /// Go on with the given animation, from its start.
    Next(AnimHandle),
}

/// Names an animation by its position in a sheet's list of animations.
/// The invalid handle names none.
#[derive(Clone, Copy, Debug, PartialEq, Eq, Structural)]
pub struct AnimHandle {
    index: Option<usize>,
}

impl AnimHandle {
    /// The position that the handle names, if any.
    pub closed spec fn slot(self) -> Option<usize> {
        self.index
    }

    /// The handle of the animation at `index`.
    pub open spec fn from_index_spec(index: usize) -> AnimHandle {
        choose|h: AnimHandle| h.slot() == Some(index)
    }

    /// The handle of the animation at `index`, in whichever sheet.
    pub fn from_index(index: usize) -> (r: AnimHandle)
        ensures
            r.slot() == Some(index),
            r == AnimHandle::from_index_spec(index),
    {
        AnimHandle { index: Some(index) }
    }

    /// The handle that names no animation.
    pub fn invalid() -> (r: AnimHandle)
        ensures
            r.slot() is None,
    {
        AnimHandle { index: None }
    }

    /// Whether the handle names a position at all; the sheet it is used
    /// with may still lack an animation there.
    pub fn is_valid(&self) -> (r: bool)
        ensures
            r == self.slot() is Some,
    {
        self.index.is_some()
    }

    /// The position that the handle names, if any.
    pub fn index(&self) -> (r: Option<usize>)
        ensures
            r == self.slot(),
    {
        self.index
    }

    /// Two handles are equal exactly when they name the same position.
    pub proof fn lemma_eq_iff_same_slot(a: AnimHandle, b: AnimHandle)
        ensures
            (a == b) <==> (a.slot() == b.slot()),
    {
    }
}

/// A named sequence of frames of a sheet, with its rate and end action.
#[derive(Debug)]
pub struct Anim {
    name: String,
    time_scale: u32,
    end_action: AnimEndAction,
    frame_indices: Vec<usize>,
    total_time: u64,
}

impl Anim {
    /// The name that [`Spritesheet::get_anim_handle`] finds it by.
    pub closed spec fn view_name(&self) -> Seq<char> {
        self.name@
    }

    /// Play rate in thousandths: 1000 is normal, 0 stands still, 2000 is
    /// twice as fast.
    pub closed spec fn view_time_scale(&self) -> u32 {
        self.time_scale
    }

    /// What happens when the last frame has shown.
    pub closed spec fn view_end_action(&self) -> AnimEndAction {
        self.end_action
    }

    /// The frames of the animation, as positions in the sheet's frames.
    pub closed spec fn indices(&self) -> Seq<usize> {
        self.frame_indices@
    }

    /// The stored length of the animation, in microseconds.
    pub closed spec fn total(&self) -> nat {
        self.total_time as nat
    }

    /// The animation fits `frames`: it has frames, each of them exists,
    /// and its length is the sum of their durations, within `MAX_TIME`.
    pub open spec fn wf_in(&self, frames: Seq<Frame>) -> bool {
        &&& self.indices().len() > 0
        &&& forall|i: int|
            0 <= i < self.indices().len() ==> (#[trigger] self.indices()[i]) < frames.len()
        &&& self.total() == sum_all(durations_of(frames, self.indices()))
        &&& self.total() <= MAX_TIME
    }

    /// The name of the animation.
    pub fn name(&self) -> (r: &String)
        ensures
            r@ == self.view_name(),
    {
        &self.name
    }

    /// The play rate of the animation, in thousandths.
    pub fn time_scale(&self) -> (r: u32)
        ensures
            r == self.view_time_scale(),
    {
        self.time_scale
    }

    /// What happens when the last frame has shown.
    pub fn end_action(&self) -> (r: AnimEndAction)
        ensures
            r == self.view_end_action(),
    {
        self.end_action
    }

    /// The frames of the animation, as positions in the sheet's frames.
    pub fn frame_indices(&self) -> (r: &Vec<usize>)
        ensures
            r@ == self.indices(),
    {
        &self.frame_indices
    }

    /// How long one pass of the animation lasts, in microseconds, at its
    /// normal rate.
    pub fn total_time(&self) -> (r: u64)
        ensures
            r == self.total(),
    {
        self.total_time
    }
}

impl Anim {
    /// The two animations agree in every part.
    pub open spec fn same_as(&self, other: &Anim) -> bool {
        &&& self.view_name() == other.view_name()
        &&& self.view_time_scale() == other.view_time_scale()
        &&& self.view_end_action() == other.view_end_action()
        &&& self.indices() == other.indices()
        &&& self.total() == other.total()
    }
}

impl Clone for Anim {
    fn clone(&self) -> (r: Anim)
        ensures
            r.same_as(self),
    {
        Anim {
            name: self.name.clone(),
            time_scale: self.time_scale,
            end_action: self.end_action,
            frame_indices: self.frame_indices.clone(),
            total_time: self.total_time,
        }
    }
}

/// Why a sheet refused some data.
#[derive(Clone, Copy, Debug, PartialEq, Eq, Structural)]
pub enum SheetError {
    /// A frame that would show for no time at all.
    ZeroDuration,
    /// A custom anchor with a denominator that is not positive, or a
    /// numerator of `i64::MIN`.
    BadAnchor,
    /// An animation without frames.
    EmptyAnim,
    /// An animation that names a frame the sheet lacks.
    FrameOutOfRange,
    /// An animation that would last longer than `MAX_TIME`.
    AnimTooLong,
    /// A frame trimmed to nothing.
    EmptyFrame,
    /// No animation behind the handle.
    NotFound,
}

/// A sheet's frames and animations, with the path and size of the image
/// that holds the frames.
#[derive(Debug)]
pub struct Spritesheet {
    frames: Vec<Frame>,
    anims: Vec<Anim>,
    image: String,
    img_size: SizeData,
}

impl Clone for Spritesheet {
    fn clone(&self) -> (r: Spritesheet)
        ensures
            r.frames_seq() == self.frames_seq(),
            r.anims_seq().len() == self.anims_seq().len(),
            forall|i: int| 0 <= i < r.anims_seq().len() ==> (#[trigger] r.anims_seq()[i]).same_as(
                &self.anims_seq()[i],
            ),
            r.image_path() == self.image_path(),
            r.size() == self.size(),
    {
        proof {
            use_type_invariant(self);
        }
        let mut anims: Vec<Anim> = Vec::new();
        let mut i: usize = 0;
        while i < self.anims.len()
            invariant
                0 <= i <= self.anims@.len(),
                anims@.len() == i,
                self.wf(),
                forall|j: int| 0 <= j < i ==> (#[trigger] anims@[j]).same_as(&self.anims@[j]),
                forall|j: int| 0 <= j < i ==> (#[trigger] anims@[j]).wf_in(self.frames@),
            decreases self.anims@.len() - i,
        {
            let a = self.anims[i].clone();
            assert(self.anims_seq()[i as int].wf_in(self.frames@));
            anims.push(a);
            i = i + 1;
        }
        let mut frames: Vec<Frame> = Vec::new();
        let mut k: usize = 0;
        while k < self.frames.len()
            invariant
                0 <= k <= self.frames@.len(),
                frames@ == self.frames@.take(k as int),
            decreases self.frames@.len() - k,
        {
            frames.push(self.frames[k]);
            k = k + 1;
            assert(frames@ =~= self.frames@.take(k as int));
        }
        assert(frames@ =~= self.frames@);
        Spritesheet { frames, anims, image: self.image.clone(), img_size: self.img_size }
    }
}

/// Each frame shows for some time and has a usable anchor.
pub open spec fn frames_wf(frames: Seq<Frame>) -> bool {
    forall|i: int|
        0 <= i < frames.len() ==> (#[trigger] frames[i]).duration > 0 && frames[i].anchor.wf()
}

impl Spritesheet {
    pub closed spec fn frames_seq(&self) -> Seq<Frame> {
        self.frames@
    }

    pub closed spec fn anims_seq(&self) -> Seq<Anim> {
        self.anims@
    }

    pub closed spec fn image_path(&self) -> Seq<char> {
        self.image@
    }

    pub closed spec fn size(&self) -> SizeData {
        self.img_size
    }

    /// Every frame is usable and every animation fits the frames; every
    /// sheet is.
    #[verifier::type_invariant]
    pub open spec fn wf(&self) -> bool {
        &&& frames_wf(self.frames_seq())
        &&& forall|i: int|
            0 <= i < self.anims_seq().len() ==> (#[trigger] self.anims_seq()[i]).wf_in(
                self.frames_seq(),
            )
    }

    /// The position of the animation that `h` names in this sheet, if the
    /// sheet has one there.
    pub open spec fn lookup(&self, h: AnimHandle) -> Option<int> {
        match h.slot() {
            Some(i) => if (i as int) < self.anims_seq().len() {
                Some(i as int)
            } else {
                None
            },
            None => None,
        }
    }

    /// The durations of the frames of the animation at `i`.
    pub open spec fn anim_durations(&self, i: int) -> Seq<nat> {
        durations_of(self.frames_seq(), self.anims_seq()[i].indices())
    }

    /// A sheet of `frames` without animations. Fails with `ZeroDuration`
    /// where a frame has no duration, else with `BadAnchor` where a
    /// frame's anchor is unusable.
    pub fn new(frames: Vec<Frame>, image: String, img_size: SizeData) -> (r: Result<
        Spritesheet,
        SheetError,
    >)
        ensures
            r is Ok <==> frames_wf(frames@),
            (exists|i: int| 0 <= i < frames@.len() && frames@[i].duration == 0) ==> r == Err::<
                Spritesheet,
                SheetError,
            >(SheetError::ZeroDuration),
            (forall|i: int| 0 <= i < frames@.len() ==> frames@[i].duration > 0) && r is Err ==> r
                == Err::<Spritesheet, SheetError>(SheetError::BadAnchor),
            r matches Ok(s) ==> {
                &&& s.wf()
                &&& s.frames_seq() == frames@
                &&& s.anims_seq().len() == 0
                &&& s.image_path() == image@
                &&& s.size() == img_size
            },
    {
        let mut i: usize = 0;
        while i < frames.len()
            invariant
                0 <= i <= frames@.len(),
                forall|j: int| 0 <= j < i ==> frames@[j].duration > 0,
            decreases frames@.len() - i,
        {
            if frames[i].duration == 0 {
                return Err(SheetError::ZeroDuration);
            }
            i = i + 1;
        }
        let mut k: usize = 0;
        while k < frames.len()
            invariant
                0 <= k <= frames@.len(),
                forall|j: int| 0 <= j < frames@.len() ==> frames@[j].duration > 0,
                forall|j: int| 0 <= j < k ==> frames@[j].anchor.wf(),
            decreases frames@.len() - k,
        {
            if !anchor_ok(&frames[k].anchor) {
                return Err(SheetError::BadAnchor);
            }
            k = k + 1;
        }
        Ok(Spritesheet { frames, anims: Vec::new(), image, img_size })
    }

    /// All frames of the sheet, in order.
    pub fn frames(&self) -> (r: &Vec<Frame>)
        ensures
            r@ == self.frames_seq(),
    {
        &self.frames
    }

    /// The path of the image that holds the frames.
    pub fn img_handle(&self) -> (r: &String)
        ensures
            r@ == self.image_path(),
    {
        &self.image
    }

    /// The size of the image, in pixels.
    pub fn img_size(&self) -> (r: SizeData)
        ensures
            r == self.size(),
    {
        self.img_size
    }

    /// How many animations the sheet has.
    pub fn anim_count(&self) -> (r: usize)
        ensures
            r == self.anims_seq().len(),
    {
        self.anims.len()
    }

    /// The rectangles of all frames, in order: what a texture atlas of the
    /// sheet is built from.
    pub fn atlas_rects(&self) -> (r: Vec<RectData>)
        ensures
            r@.len() == self.frames_seq().len(),
            forall|i: int| 0 <= i < r@.len() ==> r@[i] == self.frames_seq()[i].rect,
    {
        let mut rects: Vec<RectData> = Vec::new();
        let mut i: usize = 0;
        while i < self.frames.len()
            invariant
                0 <= i <= self.frames@.len(),
                rects@.len() == i,
                forall|j: int| 0 <= j < i ==> rects@[j] == self.frames@[j].rect,
            decreases self.frames@.len() - i,
        {
            rects.push(self.frames[i].rect);
            i = i + 1;
        }
        rects
    }

    /// The handle of the first animation named `name`, or the invalid
    /// handle where none is.
    pub fn get_anim_handle(&self, name: &str) -> (r: AnimHandle)
        ensures
            (exists|i: int| 0 <= i < self.anims_seq().len() && self.anims_seq()[i].view_name() == name@)
                ==> {
                &&& r.slot() matches Some(k)
                &&& (k as int) < self.anims_seq().len()
                &&& self.anims_seq()[k as int].view_name() == name@
                &&& forall|j: int| 0 <= j < k ==> self.anims_seq()[j].view_name() != name@
            },
            !(exists|i: int| 0 <= i < self.anims_seq().len() && self.anims_seq()[i].view_name() == name@)
                ==> r.slot() is None,
    {
        let wanted = name.to_owned();
        let mut i: usize = 0;
        while i < self.anims.len()
            invariant
                0 <= i <= self.anims@.len(),
                wanted@ == name@,
                forall|j: int| 0 <= j < i ==> self.anims@[j].view_name() != name@,
            decreases self.anims@.len() - i,
        {
            if self.anims[i].name == wanted {
                assert(self.anims_seq()[i as int].view_name() == name@);
                return AnimHandle::from_index(i);
            }
            i = i + 1;
        }
        AnimHandle::invalid()
    }

    /// The animation that `handle` names, or `Err` where the handle is
    /// invalid or the sheet has no animation there.
    pub fn get_anim(&self, handle: &AnimHandle) -> (r: Result<&Anim, ()>)
        ensures
            r is Ok <==> self.lookup(*handle) is Some,
            r matches Ok(a) ==> *a == self.anims_seq()[self.lookup(*handle)->0],
    {
        match handle.index() {
            Some(i) => {
                if i < self.anims.len() {
                    Ok(&self.anims[i])
                } else {
                    Err(())
                }
            },
            None => Err(()),
        }
    }

    /// Appends an animation named `name` over the frames `frame_indices`,
    /// playing at normal speed and looping, and returns its handle. Fails
    /// with `EmptyAnim` where there are no frames, else with
    /// `FrameOutOfRange` where one is missing from the sheet, else with
    /// `AnimTooLong` where the frames last longer than `MAX_TIME`.
    pub fn add_anim(&mut self, name: String, frame_indices: Vec<usize>) -> (r: Result<
        AnimHandle,
        SheetError,
    >)
        requires
            old(self).anims_seq().len() < usize::MAX,
        ensures
            final(self).wf(),
            final(self).frames_seq() == old(self).frames_seq(),
            final(self).image_path() == old(self).image_path(),
            final(self).size() == old(self).size(),
            frame_indices@.len() == 0 ==> r == Err::<AnimHandle, SheetError>(SheetError::EmptyAnim),
            frame_indices@.len() > 0 && (exists|i: int|
                0 <= i < frame_indices@.len() && frame_indices@[i] >= old(self).frames_seq().len())
                ==> r == Err::<AnimHandle, SheetError>(SheetError::FrameOutOfRange),
            frame_indices@.len() > 0 && (forall|i: int|
                0 <= i < frame_indices@.len() ==> frame_indices@[i] < old(self).frames_seq().len())
                ==> (r is Err <==> sum_all(durations_of(old(self).frames_seq(), frame_indices@))
                > MAX_TIME),
            r is Err ==> final(self).anims_seq() == old(self).anims_seq(),
            r == Err::<AnimHandle, SheetError>(SheetError::EmptyAnim) ==> frame_indices@.len() == 0,
            r == Err::<AnimHandle, SheetError>(SheetError::FrameOutOfRange) ==> frame_indices@.len()
                > 0 && exists|i: int|
                0 <= i < frame_indices@.len() && frame_indices@[i] >= old(self).frames_seq().len(),
            r == Err::<AnimHandle, SheetError>(SheetError::AnimTooLong) ==> (forall|i: int|
                0 <= i < frame_indices@.len() ==> frame_indices@[i] < old(self).frames_seq().len())
                && sum_all(durations_of(old(self).frames_seq(), frame_indices@)) > MAX_TIME,
            r is Err ==> r == Err::<AnimHandle, SheetError>(SheetError::EmptyAnim) || r == Err::<
                AnimHandle,
                SheetError,
            >(SheetError::FrameOutOfRange) || r == Err::<AnimHandle, SheetError>(
                SheetError::AnimTooLong,
            ),
            r matches Ok(h) ==> {
                &&& h.slot() == Some(old(self).anims_seq().len() as usize)
                &&& final(self).anims_seq().len() == old(self).anims_seq().len() + 1
                &&& final(self).anims_seq().drop_last() == old(self).anims_seq()
                &&& final(self).anims_seq().last().view_name() == name@
                &&& final(self).anims_seq().last().indices() == frame_indices@
                &&& final(self).anims_seq().last().view_time_scale() == NORMAL_SPEED
                &&& final(self).anims_seq().last().view_end_action() == AnimEndAction::Loop
            },
    {
        proof {
            use_type_invariant(&*self);
        }
        if frame_indices.len() == 0 {
            return Err(SheetError::EmptyAnim);
        }
        if !indices_in_range(&frame_indices, self.frames.len()) {
            return Err(SheetError::FrameOutOfRange);
        }
        match calculate_total_time(&self.frames, &frame_indices) {
            Some(total_time) => {
                let handle = AnimHandle::from_index(self.anims.len());
                let anim = Anim {
                    name,
                    time_scale: NORMAL_SPEED,
                    end_action: AnimEndAction::Loop,
                    frame_indices,
                    total_time,
                };
                let mut anims: Vec<Anim> = Vec::new();
                std::mem::swap(&mut anims, &mut self.anims);
                anims.push(anim);
                assert forall|i: int| 0 <= i < anims@.len() implies (
                #[trigger] anims@[i]).wf_in(self.frames@) by {
                    if i < anims@.len() - 1 {
                        assert(anims@[i] == old(self).anims@[i]);
                    }
                }
                assert(anims@.drop_last() =~= old(self).anims@);
                self.anims = anims;
                Ok(handle)
            },
            None => Err(SheetError::AnimTooLong),
        }
    }

    /// Replaces the frames of the animation that `handle` names, with its
    /// length recomputed. Fails, changing nothing, with `NotFound` where
    /// there is no such animation, else as [`Spritesheet::add_anim`] does.
    pub fn set_anim_frames(&mut self, handle: &AnimHandle, frame_indices: Vec<usize>) -> (r: Result<
        (),
        SheetError,
    >)
        ensures
            final(self).wf(),
            final(self).frames_seq() == old(self).frames_seq(),
            final(self).image_path() == old(self).image_path(),
            final(self).size() == old(self).size(),
            final(self).anims_seq().len() == old(self).anims_seq().len(),
            old(self).lookup(*handle) is None ==> r == Err::<(), SheetError>(SheetError::NotFound),
            old(self).lookup(*handle) is Some && frame_indices@.len() == 0 ==> r == Err::<
                (),
                SheetError,
            >(SheetError::EmptyAnim),
            old(self).lookup(*handle) is Some && frame_indices@.len() > 0 && (exists|i: int|
                0 <= i < frame_indices@.len() && frame_indices@[i] >= old(self).frames_seq().len())
                ==> r == Err::<(), SheetError>(SheetError::FrameOutOfRange),
            old(self).lookup(*handle) is Some && frame_indices@.len() > 0 && (forall|i: int|
                0 <= i < frame_indices@.len() ==> frame_indices@[i] < old(self).frames_seq().len())
                ==> (r is Err <==> sum_all(durations_of(old(self).frames_seq(), frame_indices@))
                > MAX_TIME),
            r is Err ==> final(self).anims_seq() == old(self).anims_seq(),
            r is Ok ==> {
                let k = old(self).lookup(*handle)->0;
                &&& final(self).anims_seq() == old(self).anims_seq().update(
                    k,
                    final(self).anims_seq()[k],
                )
                &&& final(self).anims_seq()[k].view_name() == old(self).anims_seq()[k].view_name()
                &&& final(self).anims_seq()[k].view_time_scale() == old(self).anims_seq()[k].view_time_scale()
                &&& final(self).anims_seq()[k].view_end_action() == old(self).anims_seq()[k].view_end_action()
                &&& final(self).anims_seq()[k].indices() == frame_indices@
            },
    {
        proof {
            use_type_invariant(&*self);
        }
        let k = match handle.index() {
            Some(i) => {
                if i < self.anims.len() {
                    i
                } else {
                    return Err(SheetError::NotFound);
                }
            },
            None => {
                return Err(SheetError::NotFound);
            },
        };
        if frame_indices.len() == 0 {
            return Err(SheetError::EmptyAnim);
        }
        if !indices_in_range(&frame_indices, self.frames.len()) {
            return Err(SheetError::FrameOutOfRange);
        }
        match calculate_total_time(&self.frames, &frame_indices) {
            Some(total_time) => {
                let old_anim = &self.anims[k];
                let anim = Anim {
                    name: old_anim.name.clone(),
                    time_scale: old_anim.time_scale,
                    end_action: old_anim.end_action,
                    frame_indices,
                    total_time,
                };
                let mut anims: Vec<Anim> = Vec::new();
                std::mem::swap(&mut anims, &mut self.anims);
                anims.set(k, anim);
                assert forall|i: int| 0 <= i < anims@.len() implies (
                #[trigger] anims@[i]).wf_in(self.frames@) by {
                    if i != k {
                        assert(anims@[i] == old(self).anims@[i]);
                    }
                }
                self.anims = anims;
                Ok(())
            },
            None => Err(SheetError::AnimTooLong),
        }
    }

    /// Sets what the animation that `handle` names does at its end. Fails,
    /// changing nothing, where there is no such animation.
    pub fn set_end_action(&mut self, handle: &AnimHandle, end_action: AnimEndAction) -> (r: Result<
        (),
        (),
    >)
        ensures
            final(self).wf(),
            final(self).frames_seq() == old(self).frames_seq(),
            final(self).image_path() == old(self).image_path(),
            final(self).size() == old(self).size(),
            final(self).anims_seq().len() == old(self).anims_seq().len(),
            r is Ok <==> old(self).lookup(*handle) is Some,
            r is Err ==> final(self).anims_seq() == old(self).anims_seq(),
            r is Ok ==> {
                let k = old(self).lookup(*handle)->0;
                &&& final(self).anims_seq() == old(self).anims_seq().update(
                    k,
                    final(self).anims_seq()[k],
                )
                &&& final(self).anims_seq()[k].view_name() == old(self).anims_seq()[k].view_name()
                &&& final(self).anims_seq()[k].view_time_scale() == old(self).anims_seq()[k].view_time_scale()
                &&& final(self).anims_seq()[k].view_end_action() == end_action
                &&& final(self).anims_seq()[k].indices() == old(self).anims_seq()[k].indices()
                &&& final(self).anims_seq()[k].total() == old(self).anims_seq()[k].total()
            },
    {
        proof {
            use_type_invariant(&*self);
        }
        match handle.index() {
            Some(k) => {
                if k < self.anims.len() {
                    let old_anim = &self.anims[k];
                    let anim = Anim {
                        name: old_anim.name.clone(),
                        time_scale: old_anim.time_scale,
                        end_action,
                        frame_indices: old_anim.frame_indices.clone(),
                        total_time: old_anim.total_time,
                    };
                    let mut anims: Vec<Anim> = Vec::new();
                    std::mem::swap(&mut anims, &mut self.anims);
                    anims.set(k, anim);
                    assert forall|i: int| 0 <= i < anims@.len() implies (
                    #[trigger] anims@[i]).wf_in(self.frames@) by {
                        if i != k {
                            assert(anims@[i] == old(self).anims@[i]);
                        }
                    }
                    self.anims = anims;
                    Ok(())
                } else {
                    Err(())
                }
            },
            None => Err(()),
        }
    }

    /// Sets the play rate, in thousandths, of the animation that `handle`
    /// names. Fails, changing nothing, where there is no such animation.
    pub fn set_anim_time_scale(&mut self, handle: &AnimHandle, time_scale: u32) -> (r: Result<
        (),
        (),
    >)
        ensures
            final(self).wf(),
            final(self).frames_seq() == old(self).frames_seq(),
            final(self).image_path() == old(self).image_path(),
            final(self).size() == old(self).size(),
            final(self).anims_seq().len() == old(self).anims_seq().len(),
            r is Ok <==> old(self).lookup(*handle) is Some,
            r is Err ==> final(self).anims_seq() == old(self).anims_seq(),
            r is Ok ==> {
                let k = old(self).lookup(*handle)->0;
                &&& final(self).anims_seq() == old(self).anims_seq().update(
                    k,
                    final(self).anims_seq()[k],
                )
                &&& final(self).anims_seq()[k].view_name() == old(self).anims_seq()[k].view_name()
                &&& final(self).anims_seq()[k].view_time_scale() == time_scale
                &&& final(self).anims_seq()[k].view_end_action() == old(self).anims_seq()[k].view_end_action()
                &&& final(self).anims_seq()[k].indices() == old(self).anims_seq()[k].indices()
                &&& final(self).anims_seq()[k].total() == old(self).anims_seq()[k].total()
            },
    {
        proof {
            use_type_invariant(&*self);
        }
        match handle.index() {
            Some(k) => {
                if k < self.anims.len() {
                    let old_anim = &self.anims[k];
                    let anim = Anim {
                        name: old_anim.name.clone(),
                        time_scale,
                        end_action: old_anim.end_action,
                        frame_indices: old_anim.frame_indices.clone(),
                        total_time: old_anim.total_time,
                    };
                    let mut anims: Vec<Anim> = Vec::new();
                    std::mem::swap(&mut anims, &mut self.anims);
                    anims.set(k, anim);
                    assert forall|i: int| 0 <= i < anims@.len() implies (
                    #[trigger] anims@[i]).wf_in(self.frames@) by {
                        if i != k {
                            assert(anims@[i] == old(self).anims@[i]);
                        }
                    }
                    self.anims = anims;
                    Ok(())
                } else {
                    Err(())
                }
            },
            None => Err(()),
        }
    }
}

/// Whether `anchor` is usable in a frame.
fn anchor_ok(anchor: &Anchor) -> (r: bool)
    ensures
        r == anchor.wf(),
{
    match anchor {
        Anchor::Custom(x, y) => x.den > 0 && x.num > i64::MIN && y.den > 0 && y.num > i64::MIN,
        _ => true,
    }
}

/// Whether every index is below `len`.
fn indices_in_range(indices: &Vec<usize>, len: usize) -> (r: bool)
    ensures
        r == (forall|i: int| 0 <= i < indices@.len() ==> indices@[i] < len),
{
    let mut i: usize = 0;
    while i < indices.len()
        invariant
            0 <= i <= indices@.len(),
            forall|j: int| 0 <= j < i ==> indices@[j] < len,
        decreases indices@.len() - i,
    {
        if indices[i] >= len {
            return false;
        }
        i = i + 1;
    }
    true
}

/// The summed duration of the frames that `indices` picks out of `frames`,
/// or `None` where it exceeds `MAX_TIME`.
pub fn calculate_total_time(frames: &Vec<Frame>, indices: &Vec<usize>) -> (r: Option<u64>)
    requires
        forall|i: int| 0 <= i < indices@.len() ==> indices@[i] < frames@.len(),
    ensures
        r is Some <==> sum_all(durations_of(frames@, indices@)) <= MAX_TIME,
        r matches Some(t) ==> t == sum_all(durations_of(frames@, indices@)),
{
    let ghost d = durations_of(frames@, indices@);
    let mut time: u64 = 0;
    let mut i: usize = 0;
    while i < indices.len()
        invariant
            0 <= i <= indices@.len(),
            d == durations_of(frames@, indices@),
            forall|j: int| 0 <= j < indices@.len() ==> indices@[j] < frames@.len(),
            time == sum_first(d, i as int),
            time <= MAX_TIME,
        decreases indices@.len() - i,
    {
        let duration = frames[indices[i]].duration;
        if duration > MAX_TIME - time {
            proof {
                lemma_sum_first_monotone(d, i as int + 1, d.len() as int);
            }
            return None;
        }
        time = time + duration;
        i = i + 1;
    }
    Some(time)
}

/// The frame that the exported record `f`, at position `i`, becomes with
/// the anchor `anchor`: its duration turned from milliseconds into
/// microseconds and its anchor moved onto the trimmed frame.
pub open spec fn imported_frame(f: FrameData, i: int, anchor: Anchor) -> Frame {
    Frame {
        atlas_index: i as usize,
        duration: (f.duration as int * 1000) as u64,
        anchor: trimmed_anchor_spec(anchor, f.source_size, f.sprite_source_size, f.frame),
        rect: f.frame,
    }
}

/// The frames of the export `data` with the anchor `anchor`.
pub open spec fn imported_frames(data: SpritesheetData, anchor: Anchor) -> Seq<Frame> {
    Seq::new(data.frames@.len(), |i: int| imported_frame(data.frames@[i], i, anchor))
}

/// The frames that the tag `t` covers: `from` to `to`, both included.
pub open spec fn tag_range(t: FrameTagData) -> Seq<usize> {
    Seq::new((t.to - t.from + 1) as nat, |i: int| (t.from + i) as usize)
}

/// The exported frame shows for some time and keeps some pixels.
pub open spec fn frame_importable(f: FrameData) -> bool {
    f.duration > 0 && f.frame.w > 0 && f.frame.h > 0
}

/// The tag covers frames that exist, and they last no longer than
/// `MAX_TIME`.
pub open spec fn tag_importable(t: FrameTagData, frames: Seq<Frame>) -> bool {
    &&& t.from <= t.to < frames.len()
    &&& sum_all(durations_of(frames, tag_range(t))) <= MAX_TIME
}

/// The export `data` makes a sheet with the anchor `anchor`.
pub open spec fn importable(data: SpritesheetData, anchor: Anchor) -> bool {
    &&& anchor.small()
    &&& forall|i: int| 0 <= i < data.frames@.len() ==> frame_importable(#[trigger] data.frames@[i])
    &&& forall|j: int|
        0 <= j < data.meta.frame_tags@.len() ==> tag_importable(
            #[trigger] data.meta.frame_tags@[j],
            imported_frames(data, anchor),
        )
}

/// The sheet `s` holds what the export `data` describes, with the anchor
/// `anchor`: one frame per exported frame, and one looping animation at
/// normal speed per tag.
pub open spec fn imported_sheet(s: Spritesheet, data: SpritesheetData, anchor: Anchor) -> bool {
    &&& s.wf()
    &&& s.frames_seq() == imported_frames(data, anchor)
    &&& s.anims_seq().len() == data.meta.frame_tags@.len()
    &&& forall|j: int|
        0 <= j < s.anims_seq().len() ==> {
            let a = #[trigger] s.anims_seq()[j];
            let t = data.meta.frame_tags@[j];
            &&& a.view_name() == t.name@
            &&& a.indices() == tag_range(t)
            &&& a.view_time_scale() == NORMAL_SPEED
            &&& a.view_end_action() == AnimEndAction::Loop
        }
    &&& s.image_path() == data.meta.image@
    &&& s.size() == data.meta.size
}

/// The error `e` has a cause in the export `data` with the anchor
/// `anchor`.
pub open spec fn import_error_cause(e: SheetError, data: SpritesheetData, anchor: Anchor) -> bool {
    match e {
        SheetError::BadAnchor => !anchor.small(),
        SheetError::ZeroDuration => exists|i: int|
            0 <= i < data.frames@.len() && (#[trigger] data.frames@[i]).duration == 0,
        SheetError::EmptyFrame => exists|i: int|
            0 <= i < data.frames@.len() && ((#[trigger] data.frames@[i]).frame.w == 0
                || data.frames@[i].frame.h == 0),
        SheetError::EmptyAnim => exists|j: int|
            0 <= j < data.meta.frame_tags@.len() && (#[trigger] data.meta.frame_tags@[j]).from
                > data.meta.frame_tags@[j].to,
        SheetError::FrameOutOfRange => exists|j: int|
            0 <= j < data.meta.frame_tags@.len() && (#[trigger] data.meta.frame_tags@[j]).to
                >= data.frames@.len(),
        SheetError::AnimTooLong => exists|j: int|
            0 <= j < data.meta.frame_tags@.len() && sum_all(
                durations_of(imported_frames(data, anchor), tag_range(#[trigger] data.meta.frame_tags@[j])),
            ) > MAX_TIME,
        _ => false,
    }
}

/// The positions `from` to `to`, both included.
fn range_inclusive(from: usize, to: usize) -> (r: Vec<usize>)
    requires
        from <= to < usize::MAX,
    ensures
        r@ == Seq::new((to - from + 1) as nat, |i: int| (from + i) as usize),
{
    let mut v: Vec<usize> = Vec::new();
    let mut i: usize = from;
    while i <= to
        invariant
            from <= i <= to + 1,
            to < usize::MAX,
            v@ == Seq::new((i - from) as nat, |k: int| (from + k) as usize),
        decreases to + 1 - i,
    {
        v.push(i);
        i = i + 1;
        assert(v@ =~= Seq::new((i - from) as nat, |k: int| (from + k) as usize));
    }
    v
}

impl Spritesheet {
    /// A sheet built from the editor's export `data`, with every frame's
    /// anchor at `frame_anchor` before trimming. Fails where `data` is not
    /// [`importable`], with an error that has a cause in it.
    pub fn from_data(data: &SpritesheetData, frame_anchor: &Anchor) -> (r: Result<
        Spritesheet,
        SheetError,
    >)
        ensures
            r is Ok <==> importable(*data, *frame_anchor),
            r matches Ok(s) ==> imported_sheet(s, *data, *frame_anchor),
            r matches Err(e) ==> import_error_cause(e, *data, *frame_anchor),
            !frame_anchor.small() ==> r == Err::<Spritesheet, SheetError>(SheetError::BadAnchor),
    {
        if !anchor_is_small(frame_anchor) {
            return Err(SheetError::BadAnchor);
        }
        let ghost wanted = imported_frames(*data, *frame_anchor);
        let mut frames: Vec<Frame> = Vec::new();
        let mut i: usize = 0;
        while i < data.frames.len()
            invariant
                0 <= i <= data.frames@.len(),
                frame_anchor.small(),
                wanted == imported_frames(*data, *frame_anchor),
                frames@ == wanted.take(i as int),
                forall|k: int| 0 <= k < i ==> frame_importable(#[trigger] data.frames@[k]),
                forall|k: int| 0 <= k < i ==> (#[trigger] frames@[k]).anchor.wf(),
            decreases data.frames@.len() - i,
        {
            let f = &data.frames[i];
            if f.duration == 0 {
                return Err(SheetError::ZeroDuration);
            }
            if f.frame.w == 0 || f.frame.h == 0 {
                return Err(SheetError::EmptyFrame);
            }
            let anchor = trimmed_anchor(frame_anchor, f.source_size, f.sprite_source_size, f.frame);
            frames.push(
                Frame {
                    atlas_index: i,
                    duration: f.duration as u64 * 1000,
                    anchor,
                    rect: f.frame,
                },
            );
            i = i + 1;
            assert(frames@ =~= wanted.take(i as int));
        }
        assert(frames@ =~= wanted);
        let mut sheet = match Spritesheet::new(frames, data.meta.image.clone(), data.meta.size) {
            Ok(s) => s,
            Err(e) => {
                return Err(e);
            },
        };
        let tags = &data.meta.frame_tags;
        let mut j: usize = 0;
        while j < tags.len()
            invariant
                0 <= j <= tags@.len(),
                tags@ == data.meta.frame_tags@,
                importable_frames_so_far(*data, *frame_anchor),
                sheet.wf(),
                sheet.frames_seq() == wanted,
                wanted == imported_frames(*data, *frame_anchor),
                sheet.image_path() == data.meta.image@,
                sheet.size() == data.meta.size,
                sheet.anims_seq().len() == j,
                forall|k: int| 0 <= k < j ==> tag_importable(#[trigger] tags@[k], wanted),
                forall|k: int|
                    0 <= k < j ==> {
                        let a = #[trigger] sheet.anims_seq()[k];
                        let t = data.meta.frame_tags@[k];
                        &&& a.view_name() == t.name@
                        &&& a.indices() == tag_range(t)
                        &&& a.view_time_scale() == NORMAL_SPEED
                        &&& a.view_end_action() == AnimEndAction::Loop
                    },
            decreases tags@.len() - j,
        {
            let tag = &tags[j];
            if tag.from > tag.to {
                return Err(SheetError::EmptyAnim);
            }
            if tag.to >= sheet.frames().len() {
                return Err(SheetError::FrameOutOfRange);
            }
            let indices = range_inclusive(tag.from, tag.to);
            assert(indices@ =~= tag_range(*tag));
            let ghost before = sheet.anims_seq();
            match sheet.add_anim(tag.name.clone(), indices) {
                Ok(_) => {},
                Err(e) => {
                    assert(tags@[j as int] == data.meta.frame_tags@[j as int]);
                    return Err(e);
                },
            }
            assert forall|k: int| 0 <= k < j + 1 implies {
                let a = #[trigger] sheet.anims_seq()[k];
                let t = data.meta.frame_tags@[k];
                &&& a.view_name() == t.name@
                &&& a.indices() == tag_range(t)
                &&& a.view_time_scale() == NORMAL_SPEED
                &&& a.view_end_action() == AnimEndAction::Loop
            } by {
                if k < j {
                    assert(sheet.anims_seq()[k] == sheet.anims_seq().drop_last()[k]);
                }
            }
            j = j + 1;
        }
        Ok(sheet)
    }

    /// Replaces the sheet's contents with what [`Spritesheet::from_data`]
    /// builds from `data` and `frame_anchor`. Fails as it does, changing
    /// nothing.
    pub fn copy_from(&mut self, data: &SpritesheetData, frame_anchor: &Anchor) -> (r: Result<
        (),
        SheetError,
    >)
        ensures
            r is Ok <==> importable(*data, *frame_anchor),
            r is Ok ==> imported_sheet(*final(self), *data, *frame_anchor),
            r matches Err(e) ==> import_error_cause(e, *data, *frame_anchor) && *final(self)
                == *old(self),
    {
        match Spritesheet::from_data(data, frame_anchor) {
            Ok(sheet) => {
                *self = sheet;
                Ok(())
            },
            Err(e) => Err(e),
        }
    }
}

/// The anchor is small and every exported frame is importable.
pub open spec fn importable_frames_so_far(data: SpritesheetData, anchor: Anchor) -> bool {
    &&& anchor.small()
    &&& forall|i: int| 0 <= i < data.frames@.len() ==> frame_importable(#[trigger] data.frames@[i])
}

} // verus!
