use asepritesheet::anchor::{Anchor, Ratio};
use asepritesheet::aseprite_data::{FrameData, FrameTagData, MetaData, RectData, SizeData, SpritesheetData};
use asepritesheet::sprite::{AnimEndAction, AnimHandle, Frame, SheetError, Spritesheet, MAX_TIME, NORMAL_SPEED};

fn frame_data(i: u16, duration: u32) -> FrameData {
    FrameData {
        filename: format!("hero {}.aseprite", i),
        frame: RectData { x: i * 16, y: 0, w: 16, h: 8 },
        rotated: false,
        trimmed: true,
        sprite_source_size: RectData { x: 4, y: 20, w: 16, h: 8 },
        source_size: SizeData { w: 32, h: 32 },
        duration,
    }
}

fn tag(name: &str, from: usize, to: usize) -> FrameTagData {
    FrameTagData { name: name.to_string(), from, to, direction: "forward".to_string() }
}

fn export(frames: Vec<FrameData>, tags: Vec<FrameTagData>) -> SpritesheetData {
    SpritesheetData {
        frames,
        meta: MetaData {
            app: "editor".to_string(),
            version: "1.3".to_string(),
            image: "hero.png".to_string(),
            format: "RGBA8888".to_string(),
            size: SizeData { w: 64, h: 8 },
            scale: "1".to_string(),
            frame_tags: tags,
        },
    }
}

fn plain_frame(duration: u64) -> Frame {
    Frame { atlas_index: 0, duration, anchor: Anchor::Center, rect: RectData { x: 0, y: 0, w: 1, h: 1 } }
}

#[test]
fn import_builds_frames_and_anims() {
    let data = export(
        vec![frame_data(0, 100), frame_data(1, 150), frame_data(2, 250), frame_data(3, 50)],
        vec![tag("idle", 0, 1), tag("run", 1, 3)],
    );
    let sheet = Spritesheet::from_data(&data, &Anchor::Center).unwrap();
    assert_eq!(sheet.frames().len(), 4);
    let f = sheet.frames()[2];
    assert_eq!(f.atlas_index, 2);
    assert_eq!(f.duration, 250_000);
    assert_eq!(f.rect, RectData { x: 32, y: 0, w: 16, h: 8 });
    assert_eq!(f.anchor, Anchor::Custom(Ratio { num: 16, den: 64 }, Ratio { num: 32, den: 32 }));
    assert_eq!(sheet.anim_count(), 2);
    assert_eq!(sheet.img_handle(), "hero.png");
    assert_eq!(sheet.img_size(), SizeData { w: 64, h: 8 });

    let run = sheet.get_anim_handle("run");
    assert_eq!(run, AnimHandle::from_index(1));
    let anim = sheet.get_anim(&run).unwrap();
    assert_eq!(anim.frame_indices(), &vec![1, 2, 3]);
    assert_eq!(anim.total_time(), 450_000);
    assert_eq!(anim.name(), "run");
    assert_eq!(anim.time_scale(), NORMAL_SPEED);
    assert_eq!(anim.end_action(), AnimEndAction::Loop);
    assert_eq!(sheet.get_anim(&sheet.get_anim_handle("idle")).unwrap().total_time(), 250_000);
}

#[test]
fn import_single_frame_tag() {
    let data = export(vec![frame_data(0, 80)], vec![tag("still", 0, 0)]);
    let sheet = Spritesheet::from_data(&data, &Anchor::BottomCenter).unwrap();
    let anim = sheet.get_anim(&AnimHandle::from_index(0)).unwrap();
    assert_eq!(anim.frame_indices(), &vec![0]);
    assert_eq!(anim.total_time(), 80_000);
}

#[test]
fn import_errors() {
    let zero = export(vec![frame_data(0, 100), frame_data(1, 0)], vec![]);
    assert_eq!(Spritesheet::from_data(&zero, &Anchor::Center).err(), Some(SheetError::ZeroDuration));

    let mut empty_frame = frame_data(0, 100);
    empty_frame.frame.w = 0;
    let empty = export(vec![empty_frame], vec![]);
    assert_eq!(Spritesheet::from_data(&empty, &Anchor::Center).err(), Some(SheetError::EmptyFrame));

    let backwards = export(vec![frame_data(0, 100), frame_data(1, 100)], vec![tag("x", 1, 0)]);
    assert_eq!(Spritesheet::from_data(&backwards, &Anchor::Center).err(), Some(SheetError::EmptyAnim));

    let outside = export(vec![frame_data(0, 100)], vec![tag("x", 0, 1)]);
    assert_eq!(Spritesheet::from_data(&outside, &Anchor::Center).err(), Some(SheetError::FrameOutOfRange));

    let wide = Anchor::Custom(Ratio { num: 1 << 40, den: 2 }, Ratio { num: 0, den: 1 });
    let ok = export(vec![frame_data(0, 100)], vec![]);
    assert_eq!(Spritesheet::from_data(&ok, &wide).err(), Some(SheetError::BadAnchor));
}

#[test]
fn import_too_long_anim() {
    let n = 1_100_000usize;
    let frames: Vec<FrameData> = (0..n).map(|_| frame_data(0, u32::MAX)).collect();
    let data = export(frames, vec![tag("forever", 0, n - 1)]);
    assert_eq!(Spritesheet::from_data(&data, &Anchor::Center).err(), Some(SheetError::AnimTooLong));
}

#[test]
fn copy_from_replaces_contents() {
    let mut sheet = Spritesheet::new(vec![plain_frame(5)], "old.png".to_string(), SizeData { w: 1, h: 1 }).unwrap();
    let data = export(vec![frame_data(0, 100), frame_data(1, 100)], vec![tag("a", 0, 1)]);
    sheet.copy_from(&data, &Anchor::Center).unwrap();
    assert_eq!(sheet.frames().len(), 2);
    assert_eq!(sheet.img_handle(), "hero.png");
    let bad = export(vec![frame_data(0, 0)], vec![]);
    assert_eq!(sheet.copy_from(&bad, &Anchor::Center), Err(SheetError::ZeroDuration));
    assert_eq!(sheet.frames().len(), 2);
}

#[test]
fn new_rejects_bad_frames() {
    let r = Spritesheet::new(vec![plain_frame(1), plain_frame(0)], String::new(), SizeData { w: 1, h: 1 });
    assert_eq!(r.err(), Some(SheetError::ZeroDuration));
    let mut f = plain_frame(1);
    f.anchor = Anchor::Custom(Ratio { num: 1, den: 0 }, Ratio { num: 0, den: 1 });
    let r = Spritesheet::new(vec![f], String::new(), SizeData { w: 1, h: 1 });
    assert_eq!(r.err(), Some(SheetError::BadAnchor));
    let mut g = plain_frame(1);
    g.anchor = Anchor::Custom(Ratio { num: i64::MIN, den: 1 }, Ratio { num: 0, den: 1 });
    let r = Spritesheet::new(vec![g], String::new(), SizeData { w: 1, h: 1 });
    assert_eq!(r.err(), Some(SheetError::BadAnchor));
}

#[test]
fn add_anim_errors() {
    let mut sheet = Spritesheet::new(vec![plain_frame(MAX_TIME), plain_frame(1)], String::new(), SizeData { w: 1, h: 1 }).unwrap();
    assert_eq!(sheet.add_anim("e".to_string(), vec![]), Err(SheetError::EmptyAnim));
    assert_eq!(sheet.add_anim("o".to_string(), vec![0, 2]), Err(SheetError::FrameOutOfRange));
    assert_eq!(sheet.add_anim("l".to_string(), vec![0, 1]), Err(SheetError::AnimTooLong));
    assert_eq!(sheet.anim_count(), 0);
    assert_eq!(sheet.add_anim("m".to_string(), vec![0]), Ok(AnimHandle::from_index(0)));
    assert_eq!(sheet.get_anim(&AnimHandle::from_index(0)).unwrap().total_time(), MAX_TIME);
}

#[test]
fn total_time_follows_frame_changes() {
    let frames = vec![plain_frame(10), plain_frame(20), plain_frame(30)];
    let mut sheet = Spritesheet::new(frames, String::new(), SizeData { w: 1, h: 1 }).unwrap();
    let h = sheet.add_anim("a".to_string(), vec![0, 1]).unwrap();
    assert_eq!(sheet.get_anim(&h).unwrap().total_time(), 30);
    sheet.set_anim_frames(&h, vec![2, 2, 1]).unwrap();
    assert_eq!(sheet.get_anim(&h).unwrap().total_time(), 80);
    assert_eq!(sheet.get_anim(&h).unwrap().frame_indices(), &vec![2, 2, 1]);
    assert_eq!(sheet.set_anim_frames(&h, vec![]), Err(SheetError::EmptyAnim));
    assert_eq!(sheet.set_anim_frames(&h, vec![3]), Err(SheetError::FrameOutOfRange));
    assert_eq!(sheet.set_anim_frames(&AnimHandle::invalid(), vec![0]), Err(SheetError::NotFound));
    assert_eq!(sheet.get_anim(&h).unwrap().total_time(), 80);
}

#[test]
fn handles_and_lookup() {
    let mut sheet = Spritesheet::new(vec![plain_frame(1)], String::new(), SizeData { w: 1, h: 1 }).unwrap();
    sheet.add_anim("a".to_string(), vec![0]).unwrap();
    sheet.add_anim("b".to_string(), vec![0]).unwrap();
    sheet.add_anim("a".to_string(), vec![0, 0]).unwrap();
    assert_eq!(sheet.get_anim_handle("a"), AnimHandle::from_index(0));
    assert_eq!(sheet.get_anim_handle("b"), AnimHandle::from_index(1));
    let missing = sheet.get_anim_handle("c");
    assert_eq!(missing, AnimHandle::invalid());
    assert!(!missing.is_valid());
    assert!(sheet.get_anim(&missing).is_err());
    assert!(sheet.get_anim(&AnimHandle::from_index(3)).is_err());
    assert!(AnimHandle::from_index(3).is_valid());
    assert_eq!(AnimHandle::from_index(3).index(), Some(3));
    assert_ne!(AnimHandle::from_index(3), AnimHandle::from_index(2));
}

#[test]
fn setters_change_one_anim() {
    let mut sheet = Spritesheet::new(vec![plain_frame(1)], String::new(), SizeData { w: 1, h: 1 }).unwrap();
    let a = sheet.add_anim("a".to_string(), vec![0]).unwrap();
    let b = sheet.add_anim("b".to_string(), vec![0]).unwrap();
    sheet.set_end_action(&a, AnimEndAction::Next(b)).unwrap();
    sheet.set_anim_time_scale(&b, 250).unwrap();
    assert_eq!(sheet.get_anim(&a).unwrap().end_action(), AnimEndAction::Next(b));
    assert_eq!(sheet.get_anim(&a).unwrap().time_scale(), NORMAL_SPEED);
    assert_eq!(sheet.get_anim(&b).unwrap().time_scale(), 250);
    assert_eq!(sheet.get_anim(&b).unwrap().end_action(), AnimEndAction::Loop);
    assert_eq!(sheet.set_end_action(&AnimHandle::from_index(2), AnimEndAction::Stop), Err(()));
    assert_eq!(sheet.set_anim_time_scale(&AnimHandle::invalid(), 1), Err(()));
}

#[test]
fn atlas_rects_in_frame_order() {
    let data = export(vec![frame_data(0, 100), frame_data(1, 100), frame_data(2, 100)], vec![]);
    let sheet = Spritesheet::from_data(&data, &Anchor::Center).unwrap();
    let rects = sheet.atlas_rects();
    assert_eq!(rects.len(), 3);
    assert_eq!(rects[1], RectData { x: 16, y: 0, w: 16, h: 8 });
}
