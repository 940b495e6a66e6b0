use asepritesheet::anchor::{Anchor, Ratio};
use asepritesheet::animator::{AnimError, AnimFinishEvent, AnimTimestamp, SpriteAnimator, NORMALIZED_ONE};
use asepritesheet::aseprite_data::{RectData, SizeData};
use asepritesheet::sprite::{AnimEndAction, AnimHandle, Frame, Spritesheet};

const MS: u64 = 1000;

fn frame(i: usize, duration_ms: u64) -> Frame {
    Frame {
        atlas_index: 10 + i,
        duration: duration_ms * MS,
        anchor: Anchor::Custom(Ratio { num: i as i64, den: 4 }, Ratio { num: 1, den: 2 }),
        rect: RectData { x: (i * 8) as u16, y: 0, w: 8, h: 8 },
    }
}

/// Frames 0-2 last 100 ms each ("idle"); frames 3 and 4 last 200 and 300 ms ("attack").
fn sheet() -> (Spritesheet, AnimHandle, AnimHandle) {
    let frames = vec![frame(0, 100), frame(1, 100), frame(2, 100), frame(3, 200), frame(4, 300)];
    let mut sheet = Spritesheet::new(frames, "hero.png".to_string(), SizeData { w: 40, h: 8 }).unwrap();
    let idle = sheet.add_anim("idle".to_string(), vec![0, 1, 2]).unwrap();
    let attack = sheet.add_anim("attack".to_string(), vec![3, 4]).unwrap();
    (sheet, idle, attack)
}

fn playing(sheet: &Spritesheet, anim: AnimHandle) -> SpriteAnimator {
    let mut animator = SpriteAnimator::default();
    animator.set_anim(anim, sheet).unwrap();
    animator
}

#[test]
fn idle_loop_scenario() {
    let (sheet, idle, _) = sheet();
    let mut animator = playing(&sheet, idle);
    let step = animator.animate(250 * MS, 7, &sheet, false, false);
    assert_eq!(step.frame.unwrap().atlas_index, 12);
    assert_eq!(animator.last_anim_index(), 2);
    assert_eq!(step.finished, None);
    assert_eq!(step.error, None);
    let step = animator.animate(100 * MS, 7, &sheet, false, false);
    assert_eq!(animator.last_anim_index(), 0);
    assert_eq!(step.frame.unwrap().atlas_index, 10);
    assert_eq!(step.finished, Some(AnimFinishEvent { entity: 7, anim: idle }));
    assert_eq!(animator.cur_time(), 350 * MS);
    assert_eq!(animator.last_frame_start(), 300 * MS);
}

#[test]
fn attack_chains_to_idle_scenario() {
    let (mut sheet, idle, attack) = sheet();
    sheet.set_end_action(&attack, AnimEndAction::Next(idle)).unwrap();
    let mut animator = playing(&sheet, attack);
    let step = animator.animate(600 * MS, 3, &sheet, false, false);
    assert_eq!(step.finished, Some(AnimFinishEvent { entity: 3, anim: attack }));
    assert_eq!(step.frame.unwrap().atlas_index, 14);
    assert_eq!(step.error, None);
    assert_eq!(animator.cur_anim(), Some(idle));
    assert_eq!(animator.cur_time(), 0);
    assert_eq!(animator.last_anim_index(), 0);
    let step = animator.animate(0, 3, &sheet, false, false);
    assert_eq!(step.frame.unwrap().atlas_index, 10);
    assert_eq!(step.finished, None);
}

#[test]
fn loop_back_at_first_frame_after_whole_passes() {
    let (sheet, idle, _) = sheet();
    let mut animator = playing(&sheet, idle);
    for _ in 0..6 {
        animator.animate(100 * MS, 0, &sheet, false, false);
    }
    // exactly two passes: the last frame shows up to the end of the pass
    assert_eq!(animator.last_anim_index(), 2);
    assert_eq!(animator.last_frame_start(), 500 * MS);
    animator.animate(1, 0, &sheet, false, false);
    assert_eq!(animator.last_anim_index(), 0);
    assert_eq!(animator.last_frame_start(), 600 * MS);
    assert_eq!(animator.last_frame_start() % 300_000, 0);
}

#[test]
fn repeated_calls_match_one_call() {
    let (sheet, idle, _) = sheet();
    let mut a = playing(&sheet, idle);
    let mut b = playing(&sheet, idle);
    for _ in 0..7 {
        a.animate(130 * MS, 0, &sheet, false, false);
    }
    b.animate(910 * MS, 0, &sheet, false, false);
    assert_eq!(a.cur_time(), b.cur_time());
    assert_eq!(a.last_anim_index(), b.last_anim_index());
    assert_eq!(a.last_frame_start(), b.last_frame_start());
}

#[test]
fn pause_freezes_on_last_frame() {
    let (mut sheet, _, attack) = sheet();
    sheet.set_end_action(&attack, AnimEndAction::Pause).unwrap();
    let mut animator = playing(&sheet, attack);
    let step = animator.animate(700 * MS, 1, &sheet, false, false);
    assert_eq!(step.finished, Some(AnimFinishEvent { entity: 1, anim: attack }));
    assert_eq!(step.frame.unwrap().atlas_index, 14);
    assert_eq!(animator.time_scale(), 0);
    assert_eq!(animator.cur_time(), 500 * MS);
    for _ in 0..3 {
        let later = animator.animate(1000 * MS, 1, &sheet, false, false);
        assert_eq!(later.frame, step.frame);
        assert_eq!(later.finished, None);
        assert_eq!(animator.cur_time(), 500 * MS);
    }
}

#[test]
fn stop_leaves_animator_idle() {
    let (mut sheet, _, attack) = sheet();
    sheet.set_end_action(&attack, AnimEndAction::Stop).unwrap();
    let mut animator = playing(&sheet, attack);
    let step = animator.animate(501 * MS, 1, &sheet, false, false);
    assert_eq!(step.finished, Some(AnimFinishEvent { entity: 1, anim: attack }));
    assert_eq!(step.frame.unwrap().atlas_index, 14);
    assert_eq!(animator.cur_anim(), None);
    assert_eq!(animator.cur_time(), 0);
    let later = animator.animate(100 * MS, 1, &sheet, false, false);
    assert_eq!(later.frame, None);
    assert_eq!(later.finished, None);
}

#[test]
fn end_reached_exactly_is_not_an_end() {
    let (mut sheet, _, attack) = sheet();
    sheet.set_end_action(&attack, AnimEndAction::Stop).unwrap();
    let mut animator = playing(&sheet, attack);
    let step = animator.animate(500 * MS, 1, &sheet, false, false);
    assert_eq!(step.finished, None);
    assert_eq!(step.frame.unwrap().atlas_index, 14);
    assert_eq!(animator.cur_anim(), Some(attack));
}

#[test]
fn one_event_for_many_passes() {
    let (sheet, idle, _) = sheet();
    let mut animator = playing(&sheet, idle);
    let step = animator.animate(1050 * MS, 9, &sheet, false, false);
    assert_eq!(step.finished, Some(AnimFinishEvent { entity: 9, anim: idle }));
    assert_eq!(animator.last_anim_index(), 1);
    assert_eq!(animator.last_frame_start(), 1000 * MS);
    let step = animator.animate(10 * MS, 9, &sheet, false, false);
    assert_eq!(step.finished, None);
}

#[test]
fn seek_to_normalized_start_and_end() {
    let (sheet, idle, attack) = sheet();
    let mut animator = playing(&sheet, idle);
    animator.animate(170 * MS, 0, &sheet, false, false);
    animator.set_cur_time(AnimTimestamp::Normalized(0));
    let step = animator.animate(0, 0, &sheet, false, false);
    assert_eq!(step.frame.unwrap().atlas_index, 10);
    assert_eq!(animator.cur_time(), 0);

    animator.set_cur_time(AnimTimestamp::Normalized(NORMALIZED_ONE));
    let step = animator.animate(0, 0, &sheet, false, false);
    assert_eq!(step.frame.unwrap().atlas_index, 12);
    assert_eq!(animator.cur_time(), 300 * MS);
    assert_eq!(step.finished, None);

    let mut other = playing(&sheet, attack);
    other.set_cur_time(AnimTimestamp::Normalized(NORMALIZED_ONE));
    let step = other.animate(0, 0, &sheet, false, false);
    assert_eq!(step.frame.unwrap().atlas_index, 14);
    assert_eq!(other.cur_time(), 500 * MS);
    assert_eq!(step.finished, None);
}

#[test]
fn seek_backwards_in_loop_keeps_pass() {
    let (sheet, idle, _) = sheet();
    let mut animator = playing(&sheet, idle);
    animator.animate(1000 * MS, 0, &sheet, false, false);
    animator.set_cur_time(AnimTimestamp::Micros(750 * MS));
    let step = animator.animate(0, 0, &sheet, false, false);
    assert_eq!(step.frame.unwrap().atlas_index, 11);
    assert_eq!(animator.last_frame_start(), 700 * MS);
    assert_eq!(step.finished, None);
    // the seek is used up: the next call plays on
    animator.animate(100 * MS, 0, &sheet, false, false);
    assert_eq!(animator.cur_time(), 850 * MS);
}

#[test]
fn seek_past_end_of_non_looping_clamps() {
    let (mut sheet, _, attack) = sheet();
    sheet.set_end_action(&attack, AnimEndAction::Pause).unwrap();
    let mut animator = playing(&sheet, attack);
    animator.set_cur_time(AnimTimestamp::Micros(5000 * MS));
    let step = animator.animate(0, 0, &sheet, false, false);
    assert_eq!(animator.cur_time(), 500 * MS);
    assert_eq!(animator.last_anim_index(), 1);
    assert_eq!(animator.last_frame_start(), 200 * MS);
    assert_eq!(step.frame.unwrap().atlas_index, 14);
}

#[test]
fn seek_without_animation_does_nothing() {
    let (sheet, _, _) = sheet();
    let mut animator = SpriteAnimator::new(1000);
    animator.set_cur_time(AnimTimestamp::Micros(100));
    let step = animator.animate(0, 0, &sheet, false, false);
    assert_eq!(step.frame, None);
    assert_eq!(animator.cur_time(), 0);
}

#[test]
fn time_scales_multiply() {
    let (mut sheet, idle, _) = sheet();
    sheet.set_anim_time_scale(&idle, 500).unwrap();
    let mut animator = playing(&sheet, idle);
    animator.set_time_scale(3000);
    animator.animate(100 * MS, 0, &sheet, false, false);
    assert_eq!(animator.cur_time(), 150 * MS);
    assert_eq!(animator.last_anim_index(), 1);
}

#[test]
fn resolved_anchor_is_mirrored() {
    let (sheet, idle, _) = sheet();
    let mut animator = playing(&sheet, idle);
    let step = animator.animate(150 * MS, 0, &sheet, true, false);
    assert_eq!(
        step.frame.unwrap().anchor,
        Anchor::Custom(Ratio { num: -1, den: 4 }, Ratio { num: 1, den: 2 })
    );
}

#[test]
fn set_anim_same_handle_keeps_progress() {
    let (sheet, idle, attack) = sheet();
    let mut animator = playing(&sheet, idle);
    animator.animate(120 * MS, 0, &sheet, false, false);
    animator.set_anim(idle, &sheet).unwrap();
    assert_eq!(animator.cur_time(), 120 * MS);
    animator.set_anim(attack, &sheet).unwrap();
    assert_eq!(animator.cur_time(), 0);
    assert_eq!(animator.last_anim_index(), 0);
    assert!(animator.is_cur_anim(attack));
    assert!(!animator.is_cur_anim(idle));
}

#[test]
fn set_anim_unknown_fails() {
    let (sheet, idle, _) = sheet();
    let mut animator = playing(&sheet, idle);
    assert_eq!(animator.set_anim(AnimHandle::from_index(5), &sheet), Err(AnimError::UnknownAnim));
    assert_eq!(animator.set_anim(AnimHandle::invalid(), &sheet), Err(AnimError::UnknownAnim));
    assert_eq!(animator.set_anim_index(9, &sheet), Err(AnimError::UnknownAnim));
    assert_eq!(animator.cur_anim(), Some(idle));
    assert_eq!(animator.set_anim_index(1, &sheet), Ok(()));
    assert_eq!(animator.cur_anim(), Some(AnimHandle::from_index(1)));
}

#[test]
fn stale_handle_goes_idle() {
    let (sheet, _, attack) = sheet();
    let frames = vec![frame(0, 100)];
    let mut small = Spritesheet::new(frames, "other.png".to_string(), SizeData { w: 8, h: 8 }).unwrap();
    small.add_anim("only".to_string(), vec![0]).unwrap();
    let mut animator = playing(&sheet, attack);
    animator.animate(250 * MS, 0, &sheet, false, false);
    animator.set_cur_time(AnimTimestamp::Micros(0));
    let step = animator.animate(10 * MS, 0, &small, false, false);
    assert_eq!(step.error, Some(AnimError::StaleAnim));
    assert_eq!(step.frame, None);
    assert_eq!(step.finished, None);
    assert_eq!(animator.cur_anim(), None);
    assert_eq!(animator.cur_time(), 250 * MS);
    assert_eq!(animator.last_anim_index(), 1);
    assert_eq!(animator.last_frame_start(), 200 * MS);
    assert_eq!(animator.time_scale(), 1000);
}

#[test]
fn state_that_does_not_fit_goes_idle() {
    let (sheet, idle, _) = sheet();
    let frames = vec![frame(0, 50)];
    let mut other = Spritesheet::new(frames, "other.png".to_string(), SizeData { w: 8, h: 8 }).unwrap();
    other.add_anim("only".to_string(), vec![0]).unwrap();
    let mut animator = playing(&sheet, idle);
    animator.animate(250 * MS, 0, &sheet, false, false);
    let step = animator.animate(0, 0, &other, false, false);
    assert_eq!(step.error, Some(AnimError::StaleAnim));
    assert_eq!(animator.cur_anim(), None);
}

#[test]
fn bad_next_is_reported() {
    let (mut sheet, _, attack) = sheet();
    let missing = AnimHandle::from_index(42);
    sheet.set_end_action(&attack, AnimEndAction::Next(missing)).unwrap();
    let mut animator = playing(&sheet, attack);
    let step = animator.animate(600 * MS, 2, &sheet, false, false);
    assert_eq!(step.error, Some(AnimError::BadNextAnim(missing)));
    assert_eq!(step.finished, Some(AnimFinishEvent { entity: 2, anim: attack }));
    assert_eq!(animator.cur_anim(), None);
}

#[test]
fn idle_animator_does_nothing() {
    let (sheet, _, _) = sheet();
    let mut animator = SpriteAnimator::new(2000);
    let step = animator.animate(100 * MS, 0, &sheet, false, false);
    assert_eq!(step.frame, None);
    assert_eq!(step.finished, None);
    assert_eq!(step.error, None);
    assert_eq!(animator.time_scale(), 2000);
}

#[test]
fn from_anim_starts_at_start() {
    let (sheet, _, attack) = sheet();
    let mut animator = SpriteAnimator::from_anim(attack);
    assert_eq!(animator.cur_anim(), Some(attack));
    let step = animator.animate(250 * MS, 0, &sheet, false, false);
    assert_eq!(step.frame.unwrap().atlas_index, 14);
}

#[test]
fn stop_and_restart() {
    let (sheet, idle, _) = sheet();
    let mut animator = playing(&sheet, idle);
    animator.animate(150 * MS, 0, &sheet, false, false);
    animator.restart_anim();
    assert_eq!(animator.cur_time(), 0);
    assert_eq!(animator.cur_anim(), Some(idle));
    animator.stop_anim();
    assert_eq!(animator.cur_anim(), None);
}

#[test]
fn normalized_time() {
    let (sheet, idle, _) = sheet();
    let mut animator = playing(&sheet, idle);
    assert_eq!(animator.get_cur_time_normalized(&sheet), 0);
    animator.animate(150 * MS, 0, &sheet, false, false);
    assert_eq!(animator.get_cur_time_normalized(&sheet), 500_000);
    animator.animate(600 * MS, 0, &sheet, false, false);
    assert_eq!(animator.get_cur_time_normalized(&sheet), 2_500_000);
    assert_eq!(SpriteAnimator::new(1000).get_cur_time_normalized(&sheet), 0);
}
