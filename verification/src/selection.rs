//! Hit zones of the capture selection rectangle (the simpler, ten-zone
//! classification used while a selection is being adjusted).
use vstd::prelude::*;
use crate::geometry::{Rect, dist, within_ten};

verus! {

/// The part of the selection rectangle under the cursor.
#[derive(Clone, Copy, Debug, PartialEq, Eq, Structural)]
pub enum HitZone {
    NoZone,
    Body,
    TopLeft,
    Top,
    TopRight,
    Right,
    BottomRight,
    Bottom,
    BottomLeft,
    Left,
}

/// What a mouse drag on the selection is currently doing.
#[derive(Clone, Copy, Debug, PartialEq, Eq, Structural)]
pub enum InteractionMode {
    Idle,
    Selecting,
    Moving,
    Resizing(HitZone),
}

pub open spec fn within(a: int, b: int) -> bool {
    dist(a, b) <= 10
}

/// Coordinates for which the selection classification stays inside 32-bit
/// arithmetic.
pub open spec fn selection_detect_in_range(rect: Rect, x: int, y: int) -> bool {
    &&& i32::MIN < x - rect.left <= i32::MAX
    &&& i32::MIN < x - rect.right <= i32::MAX
    &&& i32::MIN < y - rect.top <= i32::MAX
    &&& i32::MIN < y - rect.bottom <= i32::MAX
    &&& rect.top - 10 >= i32::MIN && rect.left - 10 >= i32::MIN
    &&& rect.bottom + 10 <= i32::MAX && rect.right + 10 <= i32::MAX
}

/// Corners first, then edges (within the tolerance band along the edge),
/// then the strict interior.
pub open spec fn selection_zone(rect: Rect, x: int, y: int) -> HitZone {
    let l = within(x, rect.left as int);
    let r = within(x, rect.right as int);
    let top = within(y, rect.top as int);
    let b = within(y, rect.bottom as int);
    let in_y_band = rect.top - 10 <= y <= rect.bottom + 10;
    let in_x_band = rect.left - 10 <= x <= rect.right + 10;
    if l && top {
        HitZone::TopLeft
    } else if r && top {
        HitZone::TopRight
    } else if l && b {
        HitZone::BottomLeft
    } else if r && b {
        HitZone::BottomRight
    } else if l && in_y_band {
        HitZone::Left
    } else if r && in_y_band {
        HitZone::Right
    } else if top && in_x_band {
        HitZone::Top
    } else if b && in_x_band {
        HitZone::Bottom
    } else if rect.left < x < rect.right && rect.top < y < rect.bottom {
        HitZone::Body
    } else {
        HitZone::NoZone
    }
}

/// Each zone the selection classification reports lies where its name
/// says: a corner within 10 pixels of both edges it names, an edge within
/// 10 pixels of that edge and inside the band along it, the body strictly
/// inside.
pub proof fn lemma_selection_zone_sound(rect: Rect, x: int, y: int)
    ensures
        ({
            let z = selection_zone(rect, x, y);
            let l = rect.left as int;
            let r = rect.right as int;
            let t = rect.top as int;
            let b = rect.bottom as int;
            &&& z == HitZone::TopLeft ==> within_ten(x, l) && within_ten(y, t)
            &&& z == HitZone::TopRight ==> within_ten(x, r) && within_ten(y, t)
            &&& z == HitZone::BottomLeft ==> within_ten(x, l) && within_ten(y, b)
            &&& z == HitZone::BottomRight ==> within_ten(x, r) && within_ten(y, b)
            &&& z == HitZone::Left ==> within_ten(x, l) && t - 10 <= y <= b + 10
            &&& z == HitZone::Right ==> within_ten(x, r) && t - 10 <= y <= b + 10
            &&& z == HitZone::Top ==> within_ten(y, t) && l - 10 <= x <= r + 10
            &&& z == HitZone::Bottom ==> within_ten(y, b) && l - 10 <= x <= r + 10
            &&& z == HitZone::Body ==> l < x < r && t < y < b
        }),
{
}

/// Every zone is found where it is the only candidate: the corners in the
/// order top-left, top-right, bottom-left, bottom-right, then the left,
/// right, top and bottom edges, then the body.
pub proof fn lemma_selection_zone_complete(rect: Rect, x: int, y: int)
    ensures
        ({
            let z = selection_zone(rect, x, y);
            let l = rect.left as int;
            let r = rect.right as int;
            let t = rect.top as int;
            let b = rect.bottom as int;
            let nl = within_ten(x, l);
            let nr = within_ten(x, r);
            let nt = within_ten(y, t);
            let nb = within_ten(y, b);
            let in_y = t - 10 <= y <= b + 10;
            let in_x = l - 10 <= x <= r + 10;
            &&& nl && nt ==> z == HitZone::TopLeft
            &&& nr && nt && !nl ==> z == HitZone::TopRight
            &&& nl && nb && !nt ==> z == HitZone::BottomLeft
            &&& nr && nb && !nl && !nt ==> z == HitZone::BottomRight
            &&& nl && in_y && !nt && !nb ==> z == HitZone::Left
            &&& nr && in_y && !nl && !nt && !nb ==> z == HitZone::Right
            &&& nt && in_x && !nl && !nr ==> z == HitZone::Top
            &&& nb && in_x && !nl && !nr && !nt ==> z == HitZone::Bottom
            &&& l < x < r && t < y < b && !nl && !nr && !nt && !nb ==> z == HitZone::Body
            &&& !nl && !nr && !(nt && in_x) && !(nb && in_x) && !(l < x < r && t < y < b) ==> z
                == HitZone::NoZone
        }),
{
}

fn abs_i32(v: i32) -> (r: i32)
    requires
        v > i32::MIN,
    ensures
        r == (if v >= 0 { v as int } else { -v }),
{
    if v >= 0 { v } else { -v }
}

impl HitZone {
    /// Classifies the point `(x, y)` against the selection rectangle.
    pub fn detect(rect: &Rect, x: i32, y: i32) -> (z: HitZone)
        requires
            selection_detect_in_range(*rect, x as int, y as int),
        ensures
            z == selection_zone(*rect, x as int, y as int),
            rect.left + 10 < x < rect.right - 10 && rect.top + 10 < y < rect.bottom - 10 ==> z
                == HitZone::Body,
            rect.left <= rect.right && rect.top <= rect.bottom && (x < rect.left - 10 || x
                > rect.right + 10 || y < rect.top - 10 || y > rect.bottom + 10) ==> z
                == HitZone::NoZone,
    {
        let t: i32 = 10;
        let l = abs_i32(x - rect.left) <= t;
        let r = abs_i32(x - rect.right) <= t;
        let top = abs_i32(y - rect.top) <= t;
        let b = abs_i32(y - rect.bottom) <= t;

        if l && top {
            return HitZone::TopLeft;
        }
        if r && top {
            return HitZone::TopRight;
        }
        if l && b {
            return HitZone::BottomLeft;
        }
        if r && b {
            return HitZone::BottomRight;
        }

        if l && y >= rect.top - t && y <= rect.bottom + t {
            return HitZone::Left;
        }
        if r && y >= rect.top - t && y <= rect.bottom + t {
            return HitZone::Right;
        }
        if top && x >= rect.left - t && x <= rect.right + t {
            return HitZone::Top;
        }
        if b && x >= rect.left - t && x <= rect.right + t {
            return HitZone::Bottom;
        }

        if x > rect.left && x < rect.right && y > rect.top && y < rect.bottom {
            return HitZone::Body;
        }

        HitZone::NoZone
    }
}

} // verus!
