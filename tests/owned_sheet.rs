use asepritesheet::anchor::Anchor;
use asepritesheet::animator::{AnimError, AnimFinishEvent};
use asepritesheet::aseprite_data::{RectData, SizeData};
use asepritesheet::sprite::{AnimHandle, Frame, Spritesheet};
use asepritesheet::sprite_animator::SpriteAnimator;

fn sheet() -> Spritesheet {
    let frames: Vec<Frame> = (0..4)
        .map(|i| Frame {
            atlas_index: i,
            duration: 100_000,
            anchor: Anchor::Center,
            rect: RectData { x: 0, y: 0, w: 4, h: 4 },
        })
        .collect();
    let mut sheet = Spritesheet::new(frames, "s.png".to_string(), SizeData { w: 16, h: 4 }).unwrap();
    sheet.add_anim("walk".to_string(), vec![0, 1]).unwrap();
    sheet.add_anim("jump".to_string(), vec![2, 3]).unwrap();
    sheet
}

#[test]
fn owned_sheet_plays() {
    let mut animator = SpriteAnimator::from_sheet(sheet());
    assert_eq!(animator.spritesheet().unwrap().anim_count(), 2);
    animator.set_anim_index(1).unwrap();
    let step = animator.animate(5, false, false, 150_000);
    assert_eq!(step.frame.unwrap().atlas_index, 3);
    assert_eq!(animator.cur_time(), 150_000);
    assert_eq!(animator.cur_time_normalized(), 750_000);
    let step = animator.animate(5, false, false, 100_000);
    assert_eq!(step.finished, Some(AnimFinishEvent { entity: 5, anim: AnimHandle::from_index(1) }));
    assert_eq!(step.frame.unwrap().atlas_index, 2);
}

#[test]
fn owned_sheet_seeks() {
    let mut animator = SpriteAnimator::from_sheet(sheet());
    animator.set_anim(AnimHandle::from_index(0)).unwrap();
    animator.set_cur_time_normalized(600_000);
    let step = animator.animate(0, false, false, 0);
    assert_eq!(step.frame.unwrap().atlas_index, 1);
    assert_eq!(animator.cur_time(), 120_000);
    animator.set_cur_time(50_000);
    animator.animate(0, false, false, 0);
    assert_eq!(animator.cur_time(), 50_000);
    animator.stop_anim();
    assert_eq!(animator.cur_anim(), None);
}

#[test]
fn owned_sheet_missing() {
    let mut animator = SpriteAnimator::new(1000);
    assert!(animator.spritesheet().is_none());
    assert_eq!(animator.set_anim_index(0), Err(AnimError::UnknownAnim));
    let step = animator.animate(0, false, false, 1000);
    assert_eq!(step.frame, None);
    assert_eq!(animator.cur_time_normalized(), 0);
    let mut with_sheet = SpriteAnimator::from_sheet(sheet());
    assert_eq!(with_sheet.set_anim_index(2), Err(AnimError::UnknownAnim));
}

#[test]
fn owned_sheet_can_be_changed() {
    let mut animator = SpriteAnimator::from_sheet(sheet());
    let walk = AnimHandle::from_index(0);
    animator.spritesheet_mut().unwrap().set_anim_frames(&walk, vec![3]).unwrap();
    assert_eq!(animator.spritesheet().unwrap().get_anim(&walk).unwrap().frame_indices(), &vec![3]);
    animator.set_anim(walk).unwrap();
    let step = animator.animate(0, false, false, 10);
    assert_eq!(step.frame.unwrap().atlas_index, 3);
    assert!(SpriteAnimator::new(1000).spritesheet_mut().is_none());
}
