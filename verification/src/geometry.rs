//! Integer rectangles and the distance helpers used by hit testing.
use vstd::prelude::*;

verus! {

/// An axis-aligned rectangle in integer pixel coordinates
/// (`left`/`top` inclusive corner, `right`/`bottom` the opposite corner).
#[derive(Clone, Copy, Debug, PartialEq, Eq, Structural)]
pub struct Rect {
    pub left: i32,
    pub top: i32,
    pub right: i32,
    pub bottom: i32,
}

impl Default for Rect {
    /// The all-zero rectangle.
    fn default() -> (r: Rect)
        ensures
            r == (Rect { left: 0, top: 0, right: 0, bottom: 0 }),
    {
        Rect { left: 0, top: 0, right: 0, bottom: 0 }
    }
}

impl Rect {
    /// Builds a rectangle from its four edges.
    pub fn new(left: i32, top: i32, right: i32, bottom: i32) -> (r: Rect)
        ensures
            r == (Rect { left, top, right, bottom }),
    {
        Rect { left, top, right, bottom }
    }

    /// Whether the point lies in the closed rectangle (edges included).
    pub open spec fn contains_closed(self, x: int, y: int) -> bool {
        self.left <= x <= self.right && self.top <= y <= self.bottom
    }
}

/// Distance between two integers.
pub open spec fn dist(a: int, b: int) -> int {
    if a >= b { a - b } else { b - a }
}

/// `a` lies within 10 of `b` (the hit tolerance of handles and edges).
pub open spec fn within_ten(a: int, b: int) -> bool {
    -10 <= a - b <= 10
}

/// `a / 2` rounded toward zero, as integer division does in executable code.
pub open spec fn half_toward_zero(a: int) -> int {
    if a >= 0 { a / 2 } else { -((-a) / 2) }
}

/// `|a - b|` for values that come from 32-bit coordinates.
pub fn abs_diff_i64(a: i64, b: i64) -> (r: i64)
    requires
        i32::MIN <= a <= i32::MAX,
        i32::MIN <= b <= i32::MAX,
    ensures
        r == dist(a as int, b as int),
{
    if a >= b { a - b } else { b - a }
}

} // verus!
