use asepritesheet::anchor::{cloned_flipped_anchor, trimmed_anchor, Anchor, Ratio};
use asepritesheet::aseprite_data::{RectData, SizeData};

const NAMED: [Anchor; 9] = [
    Anchor::Center,
    Anchor::BottomLeft,
    Anchor::BottomCenter,
    Anchor::BottomRight,
    Anchor::CenterLeft,
    Anchor::CenterRight,
    Anchor::TopLeft,
    Anchor::TopCenter,
    Anchor::TopRight,
];

#[test]
fn top_left_flipped_both_ways_is_bottom_right() {
    assert_eq!(cloned_flipped_anchor(Anchor::TopLeft, true, true), Anchor::BottomRight);
}

#[test]
fn corners_flip_to_their_mirrors() {
    assert_eq!(cloned_flipped_anchor(Anchor::TopLeft, true, false), Anchor::TopRight);
    assert_eq!(cloned_flipped_anchor(Anchor::TopLeft, false, true), Anchor::BottomLeft);
    assert_eq!(cloned_flipped_anchor(Anchor::BottomLeft, false, true), Anchor::TopLeft);
    assert_eq!(cloned_flipped_anchor(Anchor::BottomLeft, true, true), Anchor::TopRight);
    assert_eq!(cloned_flipped_anchor(Anchor::TopCenter, true, true), Anchor::BottomCenter);
    assert_eq!(cloned_flipped_anchor(Anchor::CenterLeft, true, true), Anchor::CenterRight);
    assert_eq!(cloned_flipped_anchor(Anchor::Center, true, true), Anchor::Center);
}

#[test]
fn flipping_twice_returns_the_anchor() {
    let custom = Anchor::Custom(Ratio { num: 3, den: 8 }, Ratio { num: -1, den: 4 });
    for a in NAMED.iter().copied().chain(std::iter::once(custom)) {
        for (fx, fy) in [(true, false), (false, true), (true, true), (false, false)] {
            let once = cloned_flipped_anchor(a, fx, fy);
            assert_eq!(cloned_flipped_anchor(once, fx, fy), a);
        }
    }
}

#[test]
fn custom_anchor_flips_by_sign() {
    let a = Anchor::Custom(Ratio { num: 3, den: 8 }, Ratio { num: -1, den: 4 });
    assert_eq!(
        cloned_flipped_anchor(a, true, false),
        Anchor::Custom(Ratio { num: -3, den: 8 }, Ratio { num: -1, den: 4 })
    );
    assert_eq!(
        cloned_flipped_anchor(a, false, true),
        Anchor::Custom(Ratio { num: 3, den: 8 }, Ratio { num: 1, den: 4 })
    );
}

#[test]
fn centered_anchor_on_trimmed_frame() {
    // 32x32 frame trimmed to 16x8 at (4, 20): ((1/2 * 32 - 4) / 16 - 1/2, -((1/2 * 32 - 20) / 8 - 1/2))
    let r = trimmed_anchor(
        &Anchor::Center,
        SizeData { w: 32, h: 32 },
        RectData { x: 4, y: 20, w: 16, h: 8 },
        RectData { x: 0, y: 0, w: 16, h: 8 },
    );
    assert_eq!(r, Anchor::Custom(Ratio { num: 16, den: 64 }, Ratio { num: 32, den: 32 }));
}

#[test]
fn untrimmed_frame_keeps_anchor_value() {
    let r = trimmed_anchor(
        &Anchor::TopLeft,
        SizeData { w: 10, h: 6 },
        RectData { x: 0, y: 0, w: 10, h: 6 },
        RectData { x: 0, y: 0, w: 10, h: 6 },
    );
    // x stays -1/2; y, given top-down as 1/2, comes out as -1/2 after the axis turns
    match r {
        Anchor::Custom(x, y) => {
            assert_eq!(x.num * 2, -x.den);
            assert_eq!(y.num * 2, -y.den);
        }
        _ => panic!("trimmed anchor is custom"),
    }
}

#[test]
fn point_of_named_anchor() {
    assert_eq!(
        Anchor::BottomRight.as_point(),
        (Ratio { num: 1, den: 2 }, Ratio { num: -1, den: 2 })
    );
    assert_eq!(Anchor::Center.as_point(), (Ratio { num: 0, den: 2 }, Ratio { num: 0, den: 2 }));
}
