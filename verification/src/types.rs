//! The overlay's shared vocabulary: hit zones of annotation rectangles,
//! capture engines and modes, interaction modes and drawing tools.
use vstd::prelude::*;
use crate::geometry::{Rect, dist, half_toward_zero, abs_diff_i64, within_ten};

verus! {

/// The part of a rectangle (selection or annotation) that a point touches.
#[derive(Clone, Copy, Debug, PartialEq, Eq, Structural)]
pub enum HitZone {
    NoZone,
    Body,
    Stroke,
    TopLeft,
    Top,
    TopRight,
    Right,
    BottomRight,
    Bottom,
    BottomLeft,
    Left,
    // Special handles for Arrow/Line
    Tail,
    Tip,
    WingLeft,
    WingRight,
    // Arrow neck handles
    NeckLeft,
    NeckRight,
}

/// Hit tolerance in pixels.
pub open spec fn hit_tolerance() -> int {
    10
}

pub open spec fn near(a: int, b: int) -> bool {
    dist(a, b) <= hit_tolerance()
}

/// The zone of `rect` that the point `(x, y)` falls in: the four corner
/// handles first, then the four edge-midpoint handles, then the outline
/// (within the tolerance band), then the strict interior.
pub open spec fn detect_zone(rect: Rect, x: int, y: int) -> HitZone {
    let l = rect.left as int;
    let r = rect.right as int;
    let t = rect.top as int;
    let b = rect.bottom as int;
    let mid_x = half_toward_zero(l + r);
    let mid_y = half_toward_zero(t + b);
    let tol = hit_tolerance();
    if near(x, l) && near(y, t) {
        HitZone::TopLeft
    } else if near(x, r) && near(y, t) {
        HitZone::TopRight
    } else if near(x, l) && near(y, b) {
        HitZone::BottomLeft
    } else if near(x, r) && near(y, b) {
        HitZone::BottomRight
    } else if near(x, mid_x) && near(y, t) {
        HitZone::Top
    } else if near(x, mid_x) && near(y, b) {
        HitZone::Bottom
    } else if near(x, l) && near(y, mid_y) {
        HitZone::Left
    } else if near(x, r) && near(y, mid_y) {
        HitZone::Right
    } else if (near(x, l) && t - tol <= y <= b + tol) || (near(x, r) && t - tol <= y <= b + tol)
        || (near(y, t) && l - tol <= x <= r + tol) || (near(y, b) && l - tol <= x <= r + tol) {
        HitZone::Stroke
    } else if l < x < r && t < y < b {
        HitZone::Body
    } else {
        HitZone::NoZone
    }
}

/// Each zone the classification reports lies where its name says: a
/// corner handle within 10 pixels of both edges it names, an edge handle
/// within 10 pixels of its edge and of that edge's midpoint (rounded toward
/// zero), the outline within 10 pixels of an edge and inside the band
/// along it, the body strictly inside; no arrow handle is ever reported.
pub proof fn lemma_detect_zone_sound(rect: Rect, x: int, y: int)
    ensures
        ({
            let z = detect_zone(rect, x, y);
            let l = rect.left as int;
            let r = rect.right as int;
            let t = rect.top as int;
            let b = rect.bottom as int;
            let mx = if l + r >= 0 { (l + r) / 2 } else { -((-(l + r)) / 2) };
            let my = if t + b >= 0 { (t + b) / 2 } else { -((-(t + b)) / 2) };
            &&& z == HitZone::TopLeft ==> within_ten(x, l) && within_ten(y, t)
            &&& z == HitZone::TopRight ==> within_ten(x, r) && within_ten(y, t)
            &&& z == HitZone::BottomLeft ==> within_ten(x, l) && within_ten(y, b)
            &&& z == HitZone::BottomRight ==> within_ten(x, r) && within_ten(y, b)
            &&& z == HitZone::Top ==> within_ten(x, mx) && within_ten(y, t)
            &&& z == HitZone::Bottom ==> within_ten(x, mx) && within_ten(y, b)
            &&& z == HitZone::Left ==> within_ten(x, l) && within_ten(y, my)
            &&& z == HitZone::Right ==> within_ten(x, r) && within_ten(y, my)
            &&& z == HitZone::Stroke ==> ((within_ten(x, l) || within_ten(x, r)) && t - 10 <= y <= b + 10)
                || ((within_ten(y, t) || within_ten(y, b)) && l - 10 <= x <= r + 10)
            &&& z == HitZone::Body ==> l < x < r && t < y < b
            &&& z != HitZone::Tail && z != HitZone::Tip && z != HitZone::WingLeft && z != HitZone::WingRight
                && z != HitZone::NeckLeft && z != HitZone::NeckRight
        }),
{
}

/// Every handle is found where it is the only candidate: corners first
/// (top-left over the others), then the top and bottom midpoints, then the
/// left and right midpoints.
pub proof fn lemma_detect_zone_finds_handles(rect: Rect, x: int, y: int)
    ensures
        ({
            let z = detect_zone(rect, x, y);
            let l = rect.left as int;
            let r = rect.right as int;
            let t = rect.top as int;
            let b = rect.bottom as int;
            let mx = if l + r >= 0 { (l + r) / 2 } else { -((-(l + r)) / 2) };
            let my = if t + b >= 0 { (t + b) / 2 } else { -((-(t + b)) / 2) };
            let nl = within_ten(x, l);
            let nr = within_ten(x, r);
            let nt = within_ten(y, t);
            let nb = within_ten(y, b);
            &&& nl && nt ==> z == HitZone::TopLeft
            &&& nr && nt && !nl ==> z == HitZone::TopRight
            &&& nl && nb && !nt ==> z == HitZone::BottomLeft
            &&& nr && nb && !nl && !nt ==> z == HitZone::BottomRight
            &&& within_ten(x, mx) && nt && !nl && !nr ==> z == HitZone::Top
            &&& within_ten(x, mx) && nb && !nl && !nr && !nt ==> z == HitZone::Bottom
            &&& nl && within_ten(y, my) && !nt && !nb && !within_ten(x, mx) ==> z == HitZone::Left
            &&& nr && within_ten(y, my) && !nt && !nb && !nl && !within_ten(x, mx) ==> z == HitZone::Right
        }),
{
}

/// Whether a zone is one of the eight resize handles of a rectangle.
pub open spec fn is_resize_handle(z: HitZone) -> bool {
    match z {
        HitZone::TopLeft | HitZone::Top | HitZone::TopRight | HitZone::Right
        | HitZone::BottomRight | HitZone::Bottom | HitZone::BottomLeft | HitZone::Left => true,
        _ => false,
    }
}

impl HitZone {
    /// Classifies the point `(x, y)` against `rect` with a 10 px tolerance.
    pub fn detect(rect: &Rect, x: i32, y: i32) -> (z: HitZone)
        ensures
            z == detect_zone(*rect, x as int, y as int),
            // corner handles take priority over everything else
            near(x as int, rect.left as int) && near(y as int, rect.top as int) ==> z
                == HitZone::TopLeft,
            // a point more than the tolerance inside every edge is in the body
            rect.left + hit_tolerance() < x < rect.right - hit_tolerance() && rect.top
                + hit_tolerance() < y < rect.bottom - hit_tolerance() ==> z == HitZone::Body,
            // a point beyond the tolerance band outside a normalized rectangle hits nothing
            rect.left <= rect.right && rect.top <= rect.bottom && (x < rect.left - hit_tolerance() || x > rect.right + hit_tolerance() || y < rect.top
                - hit_tolerance() || y > rect.bottom + hit_tolerance()) ==> z == HitZone::NoZone,
            // only rectangle zones are ever reported
            z != HitZone::Tail && z != HitZone::Tip && z != HitZone::WingLeft && z
                != HitZone::WingRight && z != HitZone::NeckLeft && z != HitZone::NeckRight,
    {
        let t: i64 = 10;
        let x64 = x as i64;
        let y64 = y as i64;
        let left64 = rect.left as i64;
        let right64 = rect.right as i64;
        let top64 = rect.top as i64;
        let bottom64 = rect.bottom as i64;

        // 1. Handles (priority): corners, then edge midpoints
        if abs_diff_i64(x64, left64) <= t && abs_diff_i64(y64, top64) <= t {
            return HitZone::TopLeft;
        }
        if abs_diff_i64(x64, right64) <= t && abs_diff_i64(y64, top64) <= t {
            return HitZone::TopRight;
        }
        if abs_diff_i64(x64, left64) <= t && abs_diff_i64(y64, bottom64) <= t {
            return HitZone::BottomLeft;
        }
        if abs_diff_i64(x64, right64) <= t && abs_diff_i64(y64, bottom64) <= t {
            return HitZone::BottomRight;
        }

        let mid_x = (left64 + right64) / 2;
        let mid_y = (top64 + bottom64) / 2;
        assert(mid_x == half_toward_zero(left64 + right64));
        assert(mid_y == half_toward_zero(top64 + bottom64));

        if abs_diff_i64(x64, mid_x) <= t && abs_diff_i64(y64, top64) <= t {
            return HitZone::Top;
        }
        if abs_diff_i64(x64, mid_x) <= t && abs_diff_i64(y64, bottom64) <= t {
            return HitZone::Bottom;
        }
        if abs_diff_i64(x64, left64) <= t && abs_diff_i64(y64, mid_y) <= t {
            return HitZone::Left;
        }
        if abs_diff_i64(x64, right64) <= t && abs_diff_i64(y64, mid_y) <= t {
            return HitZone::Right;
        }

        // 2. Edges (stroke -> move)
        let on_left = abs_diff_i64(x64, left64) <= t && y64 >= top64 - t && y64 <= bottom64 + t;
        let on_right = abs_diff_i64(x64, right64) <= t && y64 >= top64 - t && y64 <= bottom64 + t;
        let on_top = abs_diff_i64(y64, top64) <= t && x64 >= left64 - t && x64 <= right64 + t;
        let on_bottom = abs_diff_i64(y64, bottom64) <= t && x64 >= left64 - t && x64 <= right64
            + t;

        if on_left || on_right || on_top || on_bottom {
            return HitZone::Stroke;
        }

        // 3. Body
        if x > rect.left && x < rect.right && y > rect.top && y < rect.bottom {
            return HitZone::Body;
        }

        HitZone::NoZone
    }
}

/// Which capture backend produced the overlay's background.
#[derive(Clone, Copy, Debug, PartialEq, Eq, Structural)]
pub enum CaptureEngine {
    Gdi,
    Wgc,
}

/// How the capture was started.
#[derive(Clone, Copy, Debug, PartialEq, Eq, Structural)]
pub enum CaptureMode {
    Standard,
}

/// What a mouse drag on the overlay is currently doing.
#[derive(Clone, Copy, Debug, PartialEq, Eq, Structural)]
pub enum InteractionMode {
    Idle,
    Selecting,
    Moving,
    Resizing(HitZone),
    Drawing,
    TransformingObject(HitZone),
}

/// The annotation tool selected in the overlay.
#[derive(Clone, Copy, Debug, PartialEq, Eq, Structural)]
pub enum DrawingTool {
    NoTool,
    Rect,
    Ellipse,
    Arrow,
    Line,
    Brush,
    Mosaic,
    Text,
    Number,
}

} // verus!
