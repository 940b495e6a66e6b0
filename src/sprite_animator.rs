//! An animator that owns its spritesheet, for sprites that do not share
//! one: the same playback as [`crate::animator::SpriteAnimator`], with the
//! sheet held alongside the playback state.
use vstd::prelude::*;

use crate::animator::{
    animate_spec, AnimError, AnimStep, AnimTimestamp, AnimatorState, SpriteAnimator as Playback,
};
use crate::sprite::{AnimHandle, Spritesheet, NORMAL_SPEED};

verus! {

/// Playback state together with the sheet it plays from, if any.
pub struct SpriteAnimator {
    playback: Playback,
    spritesheet: Option<Spritesheet>,
}

impl SpriteAnimator {
    /// The playback state.
    pub closed spec fn state(&self) -> AnimatorState {
        self.playback@
    }

    /// The sheet, if any.
    pub closed spec fn sheet(&self) -> Option<Spritesheet> {
        self.spritesheet
    }

    /// An idle animator without a sheet, at `time_scale` thousandths of the
    /// normal rate.
    pub fn new(time_scale: u32) -> (r: SpriteAnimator)
        ensures
            r.sheet() is None,
            r.state() == (AnimatorState {
                time_scale: time_scale as int,
                cur_time: 0,
                cur_anim: None,
                frame_start: 0,
                index: 0,
                target: None,
            }),
    {
        SpriteAnimator { playback: Playback::new(time_scale), spritesheet: None }
    }

    /// An idle animator at normal speed that plays from `sheet`.
    pub fn from_sheet(sheet: Spritesheet) -> (r: SpriteAnimator)
        ensures
            r.sheet() == Some(sheet),
            r.state() == (AnimatorState {
                time_scale: NORMAL_SPEED as int,
                cur_time: 0,
                cur_anim: None,
                frame_start: 0,
                index: 0,
                target: None,
            }),
    {
        SpriteAnimator { playback: Playback::new(NORMAL_SPEED), spritesheet: Some(sheet) }
    }

    /// The sheet the animator plays from, if any.
    pub fn spritesheet(&self) -> (r: Option<&Spritesheet>)
        ensures
            r == match self.sheet() {
                Some(s) => Some(&s),
                None => None::<&Spritesheet>,
            },
    {
        match &self.spritesheet {
            Some(sheet) => Some(sheet),
            None => None,
        }
    }

    /// The sheet the animator plays from, for changes, if any.
    pub fn spritesheet_mut(&mut self) -> (r: Option<&mut Spritesheet>)
        ensures
            final(self).state() == old(self).state(),
            old(self).sheet() is None ==> r is None && final(self).sheet() is None,
            old(self).sheet() matches Some(s) ==> r matches Some(m) && *m == s && final(self).sheet()
                == Some(*final(m)),
    {
        match &mut self.spritesheet {
            Some(sheet) => Some(sheet),
            None => None,
        }
    }

    /// Microseconds played of the current animation.
    pub fn cur_time(&self) -> (r: u64)
        ensures
            r == self.state().cur_time,
    {
        self.playback.cur_time()
    }

    /// The time played of the current animation in millionths of one pass;
    /// 0 without a sheet or an animation of it.
    pub fn cur_time_normalized(&self) -> (r: u128)
        ensures
            r == match self.sheet() {
                Some(sheet) => match self.state().cur_anim {
                    Some(h) => match sheet.lookup(h) {
                        Some(k) => self.state().cur_time * 1000000 / sheet.anims_seq()[k].total() as int,
                        None => 0,
                    },
                    None => 0,
                },
                None => 0,
            },
    {
        match &self.spritesheet {
            Some(sheet) => self.playback.get_cur_time_normalized(sheet),
            None => 0,
        }
    }

    /// Asks the next `animate` to seek to `micros` microseconds; without a
    /// sheet or an animation this does nothing.
    pub fn set_cur_time(&mut self, micros: u64)
        ensures
            final(self).sheet() == old(self).sheet(),
            old(self).sheet() is Some && old(self).state().cur_anim is Some ==> final(self).state()
                == (AnimatorState { target: Some(AnimTimestamp::Micros(micros)), ..old(self).state() }),
            !(old(self).sheet() is Some && old(self).state().cur_anim is Some) ==> final(self).state()
                == old(self).state(),
    {
        if self.spritesheet.is_some() {
            self.playback.set_cur_time(AnimTimestamp::Micros(micros));
        }
    }

    /// Asks the next `animate` to seek to `time_normalized` millionths of
    /// one pass; without a sheet or an animation this does nothing.
    pub fn set_cur_time_normalized(&mut self, time_normalized: u32)
        ensures
            final(self).sheet() == old(self).sheet(),
            old(self).sheet() is Some && old(self).state().cur_anim is Some ==> final(self).state()
                == (AnimatorState {
                target: Some(AnimTimestamp::Normalized(time_normalized)),
                ..old(self).state()
            }),
            !(old(self).sheet() is Some && old(self).state().cur_anim is Some) ==> final(self).state()
                == old(self).state(),
    {
        if self.spritesheet.is_some() {
            self.playback.set_cur_time(AnimTimestamp::Normalized(time_normalized));
        }
    }

    /// The animation that plays, if any.
    pub fn cur_anim(&self) -> (r: Option<AnimHandle>)
        ensures
            r == self.state().cur_anim,
    {
        self.playback.cur_anim()
    }

    /// Plays `anim` of the sheet; see
    /// [`crate::animator::SpriteAnimator::set_anim`]. Fails with
    /// `UnknownAnim`, changing nothing, without a sheet.
    pub fn set_anim(&mut self, anim: AnimHandle) -> (r: Result<(), AnimError>)
        ensures
            final(self).sheet() == old(self).sheet(),
            old(self).sheet() is None ==> r == Err::<(), AnimError>(AnimError::UnknownAnim)
                && final(self).state() == old(self).state(),
            old(self).sheet() matches Some(sheet) ==> {
                &&& (r is Ok <==> sheet.lookup(anim) is Some)
                &&& r is Err ==> r == Err::<(), AnimError>(AnimError::UnknownAnim)
                    && final(self).state() == old(self).state()
                &&& r is Ok && old(self).state().cur_anim == Some(anim) ==> final(self).state()
                    == old(self).state()
                &&& r is Ok && old(self).state().cur_anim != Some(anim) ==> final(self).state()
                    == (AnimatorState {
                    cur_time: 0,
                    cur_anim: Some(anim),
                    frame_start: 0,
                    index: 0,
                    ..old(self).state()
                })
            },
    {
        match &self.spritesheet {
            Some(sheet) => self.playback.set_anim(anim, sheet),
            None => Err(AnimError::UnknownAnim),
        }
    }

    /// Plays the animation at `anim_index` of the sheet, as
    /// [`SpriteAnimator::set_anim`] does.
    pub fn set_anim_index(&mut self, anim_index: usize) -> (r: Result<(), AnimError>)
        ensures
            final(self).sheet() == old(self).sheet(),
            old(self).sheet() is None ==> r == Err::<(), AnimError>(AnimError::UnknownAnim)
                && final(self).state() == old(self).state(),
            old(self).sheet() matches Some(sheet) ==> {
                let h = AnimHandle::from_index_spec(anim_index);
                &&& (r is Ok <==> sheet.lookup(h) is Some)
                &&& r is Err ==> r == Err::<(), AnimError>(AnimError::UnknownAnim)
                    && final(self).state() == old(self).state()
                &&& r is Ok && old(self).state().cur_anim == Some(h) ==> final(self).state()
                    == old(self).state()
                &&& r is Ok && old(self).state().cur_anim != Some(h) ==> final(self).state()
                    == (AnimatorState {
                    cur_time: 0,
                    cur_anim: Some(h),
                    frame_start: 0,
                    index: 0,
                    ..old(self).state()
                })
            },
    {
        self.set_anim(AnimHandle::from_index(anim_index))
    }

    /// Leaves the current animation; the animator goes idle.
    pub fn stop_anim(&mut self)
        ensures
            final(self).sheet() == old(self).sheet(),
            final(self).state() == (AnimatorState {
                cur_time: 0,
                cur_anim: None,
                frame_start: 0,
                index: 0,
                target: None,
                ..old(self).state()
            }),
    {
        self.playback.stop_anim();
    }

    /// Plays `delta` microseconds from the held sheet for the sprite
    /// `entity`, as [`crate::animator::SpriteAnimator::animate`] does.
    /// Without a sheet nothing happens.
    pub fn animate(&mut self, entity: u64, flip_x: bool, flip_y: bool, delta: u64) -> (r: AnimStep)
        ensures
            final(self).sheet() == old(self).sheet(),
            old(self).sheet() is None ==> final(self).state() == old(self).state() && r == (AnimStep {
                frame: None,
                finished: None,
                error: None,
            }),
            old(self).sheet() matches Some(sheet) ==> (final(self).state(), r) == animate_spec(
                old(self).state(),
                sheet,
                delta as int,
                entity,
                flip_x,
                flip_y,
            ),
    {
        match &self.spritesheet {
            Some(sheet) => self.playback.animate(delta, entity, sheet, flip_x, flip_y),
            None => AnimStep { frame: None, finished: None, error: None },
        }
    }
}

} // verus!
