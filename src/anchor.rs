//! Sprite anchors: the pivot point of a frame, with exact rational
//! coordinates, and their mirroring under horizontal and vertical flips.
use vstd::prelude::*;

use crate::aseprite_data::{RectData, SizeData};

verus! {

/// An exact rational number `num / den`.
#[derive(Clone, Copy, Debug, PartialEq, Eq, Structural)]
pub struct Ratio {
    pub num: i64,
    pub den: i64,
}

impl Ratio {
    /// A usable ratio: a positive denominator, and a numerator whose
    /// negation is representable.
    pub open spec fn wf(self) -> bool {
        self.den > 0 && self.num > i64::MIN
    }

    /// The same ratio with its sign flipped; `i64::MIN` is left as it is,
    /// which no well-formed ratio holds.
    pub open spec fn negated(self) -> Ratio {
        Ratio { num: (-self.num) as i64, den: self.den }
    }

    /// Whether `self` and `other` denote the same rational number.
    pub open spec fn same_value(self, other: Ratio) -> bool {
        self.num * other.den == other.num * self.den
    }

    /// Small enough for the arithmetic of a trim correction.
    pub open spec fn small(self) -> bool {
        -0x8000_0000 < self.num < 0x8000_0000 && 0 < self.den < 0x8000_0000
    }

    /// The ratio `-self`.
    pub fn neg(&self) -> (r: Ratio)
        requires
            self.wf(),
        ensures
            r == self.negated(),
            r.wf(),
    {
        Ratio { num: -self.num, den: self.den }
    }
}

/// Where the pivot of a sprite lies. Coordinates run from -1/2 (left,
/// bottom) to 1/2 (right, top) with the origin at the centre; a `Custom`
/// anchor may lie anywhere.
#[derive(Clone, Copy, Debug, PartialEq, Eq, Structural)]
pub enum Anchor {
    Center,
    BottomLeft,
    BottomCenter,
    BottomRight,
    CenterLeft,
    CenterRight,
    TopLeft,
    TopCenter,
    TopRight,
    /// An arbitrary point `(x, y)`.
    Custom(Ratio, Ratio),
}

/// The named anchor at `(hx / 2, hy / 2)`, for `hx, hy` in `{-1, 0, 1}`.
pub open spec fn named_at(hx: int, hy: int) -> Anchor {
    if hy < 0 {
        if hx < 0 {
            Anchor::BottomLeft
        } else if hx == 0 {
            Anchor::BottomCenter
        } else {
            Anchor::BottomRight
        }
    } else if hy == 0 {
        if hx < 0 {
            Anchor::CenterLeft
        } else if hx == 0 {
            Anchor::Center
        } else {
            Anchor::CenterRight
        }
    } else {
        if hx < 0 {
            Anchor::TopLeft
        } else if hx == 0 {
            Anchor::TopCenter
        } else {
            Anchor::TopRight
        }
    }
}

impl Anchor {
    /// Every coordinate of a custom anchor is a well-formed ratio.
    pub open spec fn wf(self) -> bool {
        match self {
            Anchor::Custom(x, y) => x.wf() && y.wf(),
            _ => true,
        }
    }

    /// The position of a named anchor in half units, as `(hx, hy)`.
    pub open spec fn halves(self) -> (int, int) {
        match self {
            Anchor::Center => (0, 0),
            Anchor::BottomLeft => (-1, -1),
            Anchor::BottomCenter => (0, -1),
            Anchor::BottomRight => (1, -1),
            Anchor::CenterLeft => (-1, 0),
            Anchor::CenterRight => (1, 0),
            Anchor::TopLeft => (-1, 1),
            Anchor::TopCenter => (0, 1),
            Anchor::TopRight => (1, 1),
            Anchor::Custom(_, _) => (0, 0),
        }
    }

    /// The anchor's point as a pair of ratios.
    pub open spec fn point(self) -> (Ratio, Ratio) {
        match self {
            Anchor::Custom(x, y) => (x, y),
            _ => (Ratio { num: self.halves().0 as i64, den: 2 }, Ratio { num: self.halves().1 as i64, den: 2 }),
        }
    }

    /// The anchor reflected across the vertical axis when `flip_x` holds and
    /// across the horizontal axis when `flip_y` holds. A named anchor stays
    /// named.
    pub open spec fn mirrored(self, flip_x: bool, flip_y: bool) -> Anchor {
        match self {
            Anchor::Custom(x, y) => Anchor::Custom(
                if flip_x { x.negated() } else { x },
                if flip_y { y.negated() } else { y },
            ),
            _ => named_at(
                if flip_x { -self.halves().0 } else { self.halves().0 },
                if flip_y { -self.halves().1 } else { self.halves().1 },
            ),
        }
    }

    /// Both coordinates are small enough for a trim correction.
    pub open spec fn small(self) -> bool {
        self.point().0.small() && self.point().1.small()
    }

    /// The position of the anchor in half units, for a named anchor.
    pub fn as_halves(&self) -> (r: (i8, i8))
        ensures
            r.0 as int == self.halves().0,
            r.1 as int == self.halves().1,
    {
        match self {
            Anchor::Center => (0, 0),
            Anchor::BottomLeft => (-1, -1),
            Anchor::BottomCenter => (0, -1),
            Anchor::BottomRight => (1, -1),
            Anchor::CenterLeft => (-1, 0),
            Anchor::CenterRight => (1, 0),
            Anchor::TopLeft => (-1, 1),
            Anchor::TopCenter => (0, 1),
            Anchor::TopRight => (1, 1),
            Anchor::Custom(_, _) => (0, 0),
        }
    }

    /// The anchor's point as a pair of ratios `(x, y)`.
    pub fn as_point(&self) -> (r: (Ratio, Ratio))
        ensures
            r == self.point(),
    {
        match self {
            Anchor::Custom(x, y) => (*x, *y),
            _ => {
                let (hx, hy) = self.as_halves();
                (Ratio { num: hx as i64, den: 2 }, Ratio { num: hy as i64, den: 2 })
            },
        }
    }
}

/// The named anchor at `(hx / 2, hy / 2)`.
fn anchor_at(hx: i8, hy: i8) -> (r: Anchor)
    requires
        -1 <= hx <= 1,
        -1 <= hy <= 1,
    ensures
        r == named_at(hx as int, hy as int),
{
    if hy < 0 {
        if hx < 0 {
            Anchor::BottomLeft
        } else if hx == 0 {
            Anchor::BottomCenter
        } else {
            Anchor::BottomRight
        }
    } else if hy == 0 {
        if hx < 0 {
            Anchor::CenterLeft
        } else if hx == 0 {
            Anchor::Center
        } else {
            Anchor::CenterRight
        }
    } else {
        if hx < 0 {
            Anchor::TopLeft
        } else if hx == 0 {
            Anchor::TopCenter
        } else {
            Anchor::TopRight
        }
    }
}

/// A copy of `anchor` mirrored for a sprite drawn flipped horizontally
/// (`flip_x`) and/or vertically (`flip_y`).
pub fn cloned_flipped_anchor(anchor: Anchor, flip_x: bool, flip_y: bool) -> (r: Anchor)
    requires
        anchor.wf(),
    ensures
        r == anchor.mirrored(flip_x, flip_y),
        r.wf(),
{
    match anchor {
        Anchor::Custom(x, y) => {
            let nx = if flip_x { x.neg() } else { x };
            let ny = if flip_y { y.neg() } else { y };
            Anchor::Custom(nx, ny)
        },
        _ => {
            let (hx, hy) = anchor.as_halves();
            let mx: i8 = if flip_x { -hx } else { hx };
            let my: i8 = if flip_y { -hy } else { hy };
            anchor_at(mx, my)
        },
    }
}

/// The coordinate `r`, given over a full frame `full` pixels wide, moved to
/// a trimmed frame `trimmed` pixels wide that begins `offset` pixels into
/// the full one: `((r + 1/2) * full - offset) / trimmed - 1/2`.
pub open spec fn retrimmed(r: Ratio, full: int, offset: int, trimmed: int) -> Ratio {
    Ratio {
        num: ((2 * r.num + r.den) * full - 2 * offset * r.den - trimmed * r.den) as i64,
        den: (2 * trimmed * r.den) as i64,
    }
}

/// The anchor `a` of an untrimmed frame of size `source`, moved to the
/// trimmed frame `trimmed` that lies at `offset` within it, with the
/// vertical axis turned to point up.
pub open spec fn trimmed_anchor_spec(a: Anchor, source: SizeData, offset: RectData, trimmed: RectData) -> Anchor {
    Anchor::Custom(
        retrimmed(a.point().0, source.w as int, offset.x as int, trimmed.w as int),
        retrimmed(a.point().1, source.h as int, offset.y as int, trimmed.h as int).negated(),
    )
}

/// One coordinate of a trim correction; see [`retrimmed`].
fn retrim(r: Ratio, full: u16, offset: u16, trimmed: u16) -> (q: Ratio)
    requires
        r.small(),
        trimmed > 0,
    ensures
        q == retrimmed(r, full as int, offset as int, trimmed as int),
        q.wf(),
        -0x4_0000_0000_0000 < q.num < 0x4_0000_0000_0000,
{
    let n = r.num;
    let d = r.den;
    let f = full as i64;
    let o = offset as i64;
    let t = trimmed as i64;
    assert(-0x2_0000_0000_0000 < (2 * n + d) * f < 0x2_0000_0000_0000) by (nonlinear_arith)
        requires
            -0x8000_0000 < n < 0x8000_0000,
            0 < d < 0x8000_0000,
            0 <= f < 0x1_0000,
    ;
    assert(0 <= 2 * o * d < 0x1_0000_0000_0000) by (nonlinear_arith)
        requires
            0 < d < 0x8000_0000,
            0 <= o < 0x1_0000,
    ;
    assert(0 < t * d < 0x1_0000_0000_0000) by (nonlinear_arith)
        requires
            0 < d < 0x8000_0000,
            0 < t < 0x1_0000,
    ;
    assert(0 < 2 * t * d < 0x1_0000_0000_0000) by (nonlinear_arith)
        requires
            0 < d < 0x8000_0000,
            0 < t < 0x1_0000,
    ;
    Ratio { num: (2 * n + d) * f - 2 * o * d - t * d, den: 2 * t * d }
}

/// The anchor `anchor`, chosen for untrimmed frames, moved onto the frame
/// `frame` as the editor trimmed it, so that the sprite does not shift from
/// frame to frame.
pub fn trimmed_anchor(anchor: &Anchor, source: SizeData, offset: RectData, trimmed: RectData) -> (r: Anchor)
    requires
        anchor.small(),
        trimmed.w > 0,
        trimmed.h > 0,
    ensures
        r == trimmed_anchor_spec(*anchor, source, offset, trimmed),
        r.wf(),
{
    let (x, y) = anchor.as_point();
    let nx = retrim(x, source.w, offset.x, trimmed.w);
    let ny = retrim(y, source.h, offset.y, trimmed.h);
    Anchor::Custom(nx, ny.neg())
}

/// Whether `anchor` is small enough for a trim correction.
pub fn anchor_is_small(anchor: &Anchor) -> (r: bool)
    ensures
        r == anchor.small(),
{
    let (x, y) = anchor.as_point();
    -0x8000_0000 < x.num && x.num < 0x8000_0000 && 0 < x.den && x.den < 0x8000_0000
        && -0x8000_0000 < y.num && y.num < 0x8000_0000 && 0 < y.den && y.den < 0x8000_0000
}

/// On a frame that was not trimmed the correction keeps the coordinate's
/// value: only its representation changes.
pub proof fn lemma_untrimmed_keeps_coordinate(r: Ratio, full: int)
    requires
        r.small(),
        0 < full < 0x1_0000,
    ensures
        retrimmed(r, full, 0, full).same_value(r),
{
    let n = r.num as int;
    let d = r.den as int;
    assert((2 * n + d) * full - 2 * 0 * d - full * d == 2 * n * full) by (nonlinear_arith);
    assert(-0x2_0000_0000_0000 < 2 * n * full < 0x2_0000_0000_0000) by (nonlinear_arith)
        requires
            -0x8000_0000 < n < 0x8000_0000,
            0 < full < 0x1_0000,
    ;
    assert(0 < 2 * full * d < 0x1_0000_0000_0000) by (nonlinear_arith)
        requires
            0 < d < 0x8000_0000,
            0 < full < 0x1_0000,
    ;
    assert((2 * n * full) * d == n * (2 * full * d)) by (nonlinear_arith);
}

/// Mirroring an anchor twice the same way gives the anchor back; in
/// particular, flipping horizontally twice returns the original anchor.
pub proof fn lemma_mirror_twice(a: Anchor, flip_x: bool, flip_y: bool)
    requires
        a.wf(),
    ensures
        a.mirrored(flip_x, flip_y).mirrored(flip_x, flip_y) == a,
{
}

/// Mirroring moves the anchor's point to the mirror image of its point:
/// each flipped coordinate changes sign, the others stay.
pub proof fn lemma_mirror_point(a: Anchor, flip_x: bool, flip_y: bool)
    requires
        a.wf(),
    ensures
        a.mirrored(flip_x, flip_y).point().0 == (if flip_x { a.point().0.negated() } else { a.point().0 }),
        a.mirrored(flip_x, flip_y).point().1 == (if flip_y { a.point().1.negated() } else { a.point().1 }),
{
}

/// Flipping both ways turns each corner into the opposite corner.
pub proof fn lemma_corners_flip_both()
    ensures
        Anchor::TopLeft.mirrored(true, true) == Anchor::BottomRight,
        Anchor::BottomRight.mirrored(true, true) == Anchor::TopLeft,
        Anchor::TopRight.mirrored(true, true) == Anchor::BottomLeft,
        Anchor::BottomLeft.mirrored(true, true) == Anchor::TopRight,
{
}

} // verus!
