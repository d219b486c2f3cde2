//! Geometry of annotation objects: their bounding boxes and which part of
//! an object a pointer position touches. The measurements that come from
//! an object's floating-point styling (text extent, stroke width) and the
//! outline tests of arrows, segments, ellipses and brush strokes are handed
//! in as integers and booleans; everything else is decided here.
use vstd::prelude::*;
use crate::geometry::{Rect, dist};
use crate::types::{DrawingTool, HitZone, detect_zone, is_resize_handle};
use crate::overlay::DrawingObject;

verus! {

/// The x coordinates of a list of points.
pub open spec fn xs(pts: Seq<(i32, i32)>) -> Seq<int> {
    pts.map_values(|p: (i32, i32)| p.0 as int)
}

/// The y coordinates of a list of points.
pub open spec fn ys(pts: Seq<(i32, i32)>) -> Seq<int> {
    pts.map_values(|p: (i32, i32)| p.1 as int)
}

/// The least element of a non-empty sequence.
pub open spec fn seq_min(s: Seq<int>) -> int
    decreases s.len(),
{
    if s.len() <= 1 {
        s[0]
    } else {
        let m = seq_min(s.drop_last());
        if s.last() < m {
            s.last()
        } else {
            m
        }
    }
}

/// The greatest element of a non-empty sequence.
pub open spec fn seq_max(s: Seq<int>) -> int
    decreases s.len(),
{
    if s.len() <= 1 {
        s[0]
    } else {
        let m = seq_max(s.drop_last());
        if s.last() > m {
            s.last()
        } else {
            m
        }
    }
}

/// The least and greatest element bound every element.
pub proof fn lemma_seq_min_max_bound(s: Seq<int>, k: int)
    requires
        0 <= k < s.len(),
    ensures
        seq_min(s) <= s[k] <= seq_max(s),
    decreases s.len(),
{
    if s.len() > 1 && k < s.len() - 1 {
        lemma_seq_min_max_bound(s.drop_last(), k);
    }
}

/// The bounding box of the points: the least and greatest x and y.
pub open spec fn points_box(pts: Seq<(i32, i32)>) -> (int, int, int, int) {
    (seq_min(xs(pts)), seq_min(ys(pts)), seq_max(xs(pts)), seq_max(ys(pts)))
}

/// Least and greatest coordinates of a non-empty list of points.
fn min_max_points(pts: &Vec<(i32, i32)>) -> (r: (i32, i32, i32, i32))
    requires
        pts@.len() > 0,
    ensures
        (r.0 as int, r.1 as int, r.2 as int, r.3 as int) == points_box(pts@),
{
    let mut min_x = pts[0].0;
    let mut min_y = pts[0].1;
    let mut max_x = pts[0].0;
    let mut max_y = pts[0].1;
    let mut i: usize = 1;
    while i < pts.len()
        invariant
            1 <= i <= pts@.len(),
            min_x == seq_min(xs(pts@).subrange(0, i as int)),
            min_y == seq_min(ys(pts@).subrange(0, i as int)),
            max_x == seq_max(xs(pts@).subrange(0, i as int)),
            max_y == seq_max(ys(pts@).subrange(0, i as int)),
        decreases pts@.len() - i,
    {
        proof {
            assert(xs(pts@).subrange(0, i + 1).drop_last() =~= xs(pts@).subrange(0, i as int));
            assert(ys(pts@).subrange(0, i + 1).drop_last() =~= ys(pts@).subrange(0, i as int));
        }
        let p = pts[i];
        if p.0 < min_x {
            min_x = p.0;
        }
        if p.1 < min_y {
            min_y = p.1;
        }
        if p.0 > max_x {
            max_x = p.0;
        }
        if p.1 > max_y {
            max_y = p.1;
        }
        i = i + 1;
    }
    assert(xs(pts@).subrange(0, pts@.len() as int) =~= xs(pts@));
    assert(ys(pts@).subrange(0, pts@.len() as int) =~= ys(pts@));
    (min_x, min_y, max_x, max_y)
}

/// The rectangle of a 4-tuple of coordinates that fit in 32 bits.
pub open spec fn to_rect(b: (int, int, int, int)) -> Rect {
    Rect { left: b.0 as i32, top: b.1 as i32, right: b.2 as i32, bottom: b.3 as i32 }
}

/// Each coordinate fits in 32 bits.
pub open spec fn fits_i32(b: (int, int, int, int)) -> bool {
    &&& i32::MIN <= b.0 <= i32::MAX
    &&& i32::MIN <= b.1 <= i32::MAX
    &&& i32::MIN <= b.2 <= i32::MAX
    &&& i32::MIN <= b.3 <= i32::MAX
}

/// The integer measurements of an object that come from its floating-point
/// styling.
#[derive(Clone, Copy, Debug, PartialEq, Eq, Structural)]
pub struct ObjectMetrics {
    /// Estimated width of a text object's box (characters × 0.6 × font size).
    pub text_width: i32,
    /// Height of a text object's box (the font size).
    pub text_height: i32,
    /// The stroke width, truncated to whole pixels.
    pub stroke_px: i32,
    /// Half the stroke width (at least one), truncated to whole pixels.
    pub half_stroke_px: i32,
}

/// Side of a mosaic block for a stroke width in whole pixels.
pub open spec fn mosaic_block_size(stroke_px: int) -> int {
    if 0 <= stroke_px <= 3 {
        6
    } else if 4 <= stroke_px <= 7 {
        10
    } else {
        16
    }
}

/// The side of a mosaic block drawn with the given stroke width.
pub fn block_size_for(stroke_px: i32) -> (r: i32)
    ensures
        r == mosaic_block_size(stroke_px as int),
{
    if 0 <= stroke_px && stroke_px <= 3 {
        6
    } else if 4 <= stroke_px && stroke_px <= 7 {
        10
    } else {
        16
    }
}

/// Radius of the hit area of a number badge.
pub open spec fn number_radius() -> int {
    18
}

/// The bounding box of an object: nothing for an object without points;
/// the text box at the anchor for text; the covered blocks for a mosaic;
/// a square of radius 18 around a number badge; otherwise the box of the
/// points widened by 2 pixels (a brush by half its stroke more).
pub open spec fn object_bounds(
    tool: DrawingTool,
    pts: Seq<(i32, i32)>,
    m: ObjectMetrics,
    blocks: Seq<(i32, i32)>,
) -> (int, int, int, int) {
    if pts.len() == 0 {
        (0, 0, 0, 0)
    } else if tool == DrawingTool::Text {
        (pts[0].0 as int, pts[0].1 as int, pts[0].0 + m.text_width, pts[0].1 + m.text_height)
    } else if tool == DrawingTool::Mosaic && blocks.len() > 0 {
        let bs = mosaic_block_size(m.stroke_px as int);
        let b = points_box(blocks);
        (b.0 * bs, b.1 * bs, (b.2 + 1) * bs, (b.3 + 1) * bs)
    } else if tool == DrawingTool::Number {
        let r = number_radius();
        (pts[0].0 - r, pts[0].1 - r, pts[0].0 + r, pts[0].1 + r)
    } else {
        let margin = if tool == DrawingTool::Brush {
            m.half_stroke_px + 2
        } else {
            2
        };
        let b = points_box(pts);
        (b.0 - margin, b.1 - margin, b.2 + margin, b.3 + margin)
    }
}

/// The bounding box of an object can be computed without overflow.
pub open spec fn bounds_computable(
    tool: DrawingTool,
    pts: Seq<(i32, i32)>,
    m: ObjectMetrics,
    blocks: Seq<(i32, i32)>,
) -> bool {
    &&& fits_i32(object_bounds(tool, pts, m, blocks))
    &&& (tool == DrawingTool::Brush ==> m.half_stroke_px + 2 <= i32::MAX)
}

/// A mosaic is never hit, whatever its points, fill or blocks: it cannot
/// be selected.
pub proof fn lemma_mosaic_never_hit(
    pts: Seq<(i32, i32)>,
    filled: bool,
    b: Rect,
    probe: HitProbe,
    x: int,
    y: int,
)
    ensures
        hit_zone(DrawingTool::Mosaic, pts, filled, b, probe, x, y) == HitZone::NoZone,
{
}

/// An object without points has the zero rectangle as bounds, whatever its
/// tool, measurements or mosaic blocks.
pub proof fn lemma_no_points_zero_bounds(tool: DrawingTool, m: ObjectMetrics, blocks: Seq<(i32, i32)>)
    ensures
        to_rect(object_bounds(tool, Seq::empty(), m, blocks)) == (Rect { left: 0, top: 0, right: 0, bottom: 0 }),
{
}

/// Whether the hit test of an object with `n` points looks at its
/// bounding box: not for a two-point arrow, a placed number, a mosaic or a
/// brush stroke, which are tested by their own shapes.
pub open spec fn hit_reads_bounds(tool: DrawingTool, n: int) -> bool {
    if tool == DrawingTool::Arrow && n == 2 {
        false
    } else if (tool == DrawingTool::Rect || tool == DrawingTool::Ellipse || tool == DrawingTool::Line)
        && n == 2 {
        true
    } else if tool == DrawingTool::Number && n > 0 {
        false
    } else {
        tool != DrawingTool::Mosaic && tool != DrawingTool::Brush
    }
}

impl<X> DrawingObject<X> {
    /// The box spanned by the object's points (all zero without points).
    pub fn get_raw_bounds(&self) -> (r: Rect)
        ensures
            self.points@.len() == 0 ==> r == (Rect { left: 0, top: 0, right: 0, bottom: 0 }),
            self.points@.len() > 0 ==> r == to_rect(points_box(self.points@)),
            forall|k: int|
                0 <= k < self.points@.len() ==> r.contains_closed(
                    #[trigger] self.points@[k].0 as int,
                    self.points@[k].1 as int,
                ),
    {
        if self.points.len() == 0 {
            return Rect { left: 0, top: 0, right: 0, bottom: 0 };
        }
        let (min_x, min_y, max_x, max_y) = min_max_points(&self.points);
        let r = Rect { left: min_x, top: min_y, right: max_x, bottom: max_y };
        proof {
            assert forall|k: int| 0 <= k < self.points@.len() implies r.contains_closed(
                #[trigger] self.points@[k].0 as int,
                self.points@[k].1 as int,
            ) by {
                lemma_seq_min_max_bound(xs(self.points@), k);
                lemma_seq_min_max_bound(ys(self.points@), k);
            }
        }
        r
    }

    /// The object's bounding box, given its measurements and, for a mosaic,
    /// the grid cells it covers.
    pub fn get_bounds(&self, m: &ObjectMetrics, blocks: &Vec<(i32, i32)>) -> (r: Rect)
        requires
            self.points@.len() > 0 ==> bounds_computable(self.tool, self.points@, *m, blocks@),
        ensures
            r == to_rect(object_bounds(self.tool, self.points@, *m, blocks@)),
    {
        if self.points.len() == 0 {
            return Rect { left: 0, top: 0, right: 0, bottom: 0 };
        }
        let p0 = self.points[0];
        if self.tool == DrawingTool::Text {
            let right = p0.0 as i64 + m.text_width as i64;
            let bottom = p0.1 as i64 + m.text_height as i64;
            return Rect { left: p0.0, top: p0.1, right: right as i32, bottom: bottom as i32 };
        }
        if self.tool == DrawingTool::Mosaic && blocks.len() > 0 {
            let bs = block_size_for(m.stroke_px) as i64;
            let (gx0, gy0, gx1, gy1) = min_max_points(blocks);
            let left = gx0 as i64 * bs;
            let top = gy0 as i64 * bs;
            let right = (gx1 as i64 + 1) * bs;
            let bottom = (gy1 as i64 + 1) * bs;
            return Rect {
                left: left as i32,
                top: top as i32,
                right: right as i32,
                bottom: bottom as i32,
            };
        }
        if self.tool == DrawingTool::Number {
            let left = p0.0 as i64 - 18;
            let top = p0.1 as i64 - 18;
            let right = p0.0 as i64 + 18;
            let bottom = p0.1 as i64 + 18;
            return Rect {
                left: left as i32,
                top: top as i32,
                right: right as i32,
                bottom: bottom as i32,
            };
        }
        let margin: i64 = if self.tool == DrawingTool::Brush {
            m.half_stroke_px as i64 + 2
        } else {
            2
        };
        let (min_x, min_y, max_x, max_y) = min_max_points(&self.points);
        let left = min_x as i64 - margin;
        let top = min_y as i64 - margin;
        let right = max_x as i64 + margin;
        let bottom = max_y as i64 + margin;
        Rect { left: left as i32, top: top as i32, right: right as i32, bottom: bottom as i32 }
    }
}

/// The results of the floating-point outline tests of an object at the
/// pointer position, computed by the renderer's geometry.
#[derive(Clone, Copy, Debug, PartialEq, Eq, Structural)]
pub struct HitProbe {
    /// For an arrow: the wing or neck handle, the body of the arrow shape,
    /// or no zone, at the pointer.
    pub arrow_outline: HitZone,
    /// For a line: the pointer is within the tolerance of the segment.
    pub near_segment: bool,
    /// For an ellipse: the pointer is within the tolerance of the outline.
    pub near_ellipse: bool,
    /// For an ellipse: the pointer is inside it.
    pub inside_ellipse: bool,
    /// For a brush: the pointer is within the stroke radius of the path.
    pub on_brush_stroke: bool,
}

/// Squared distance from a point to `(x, y)`.
pub open spec fn dist2(p: (i32, i32), x: int, y: int) -> int {
    (x - p.0) * (x - p.0) + (y - p.1) * (y - p.1)
}

/// Squared hit tolerance.
pub open spec fn tolerance2() -> int {
    100
}

/// What the outline of a rectangle annotation answers: its edges within
/// the tolerance band, then its inside when it is filled.
pub open spec fn rect_outline_zone(b: Rect, x: int, y: int, filled: bool) -> HitZone {
    let near_left = dist(x, b.left as int) < 10;
    let near_right = dist(x, b.right as int) < 10;
    let near_top = dist(y, b.top as int) < 10;
    let near_bottom = dist(y, b.bottom as int) < 10;
    let in_x = b.left - 10 <= x <= b.right + 10;
    let in_y = b.top - 10 <= y <= b.bottom + 10;
    if ((near_left || near_right) && in_y) || ((near_top || near_bottom) && in_x) {
        HitZone::Stroke
    } else if filled && b.left <= x <= b.right && b.top <= y <= b.bottom {
        HitZone::Body
    } else {
        HitZone::NoZone
    }
}

/// The part of an object that the pointer at `(x, y)` touches, given its
/// bounding box `b` and the outline tests `probe`:
/// - an arrow: its tail or tip within the tolerance, else its outline;
/// - a rectangle or ellipse: its resize handles first, then its outline
///   (and its inside when filled); a line: its end points, then the segment;
/// - a number badge: inside its circle; text: the zones of its box;
/// - a mosaic: never; a brush: its stroke;
/// - anything else: the zones of its box.
pub open spec fn hit_zone(
    tool: DrawingTool,
    pts: Seq<(i32, i32)>,
    filled: bool,
    b: Rect,
    probe: HitProbe,
    x: int,
    y: int,
) -> HitZone {
    if tool == DrawingTool::Arrow && pts.len() == 2 {
        if pts[0] == pts[1] {
            HitZone::NoZone
        } else if dist2(pts[0], x, y) < tolerance2() {
            HitZone::Tail
        } else if dist2(pts[1], x, y) < tolerance2() {
            HitZone::Tip
        } else {
            probe.arrow_outline
        }
    } else if (tool == DrawingTool::Rect || tool == DrawingTool::Ellipse || tool
        == DrawingTool::Line) && pts.len() == 2 {
        let zone = detect_zone(b, x, y);
        if tool == DrawingTool::Line {
            if dist2(pts[0], x, y) < tolerance2() {
                HitZone::Tail
            } else if dist2(pts[1], x, y) < tolerance2() {
                HitZone::Tip
            } else if pts[0] != pts[1] && probe.near_segment {
                HitZone::Stroke
            } else {
                HitZone::NoZone
            }
        } else if is_resize_handle(zone) {
            zone
        } else if tool == DrawingTool::Rect {
            rect_outline_zone(b, x, y, filled)
        } else if b.right > b.left && b.bottom > b.top {
            if probe.near_ellipse {
                HitZone::Stroke
            } else if filled && probe.inside_ellipse {
                HitZone::Body
            } else {
                HitZone::NoZone
            }
        } else {
            HitZone::NoZone
        }
    } else if tool == DrawingTool::Number && pts.len() > 0 {
        if dist2(pts[0], x, y) <= number_radius() * number_radius() {
            HitZone::Body
        } else {
            HitZone::NoZone
        }
    } else if tool == DrawingTool::Mosaic {
        HitZone::NoZone
    } else if tool == DrawingTool::Brush {
        if probe.on_brush_stroke {
            HitZone::Body
        } else {
            HitZone::NoZone
        }
    } else {
        detect_zone(b, x, y)
    }
}

/// Squared distance from `p` to `(x, y)`, exactly.
fn distance_squared(p: (i32, i32), x: i32, y: i32) -> (r: i128)
    ensures
        r == dist2(p, x as int, y as int),
{
    let dx = x as i128 - p.0 as i128;
    let dy = y as i128 - p.1 as i128;
    assert(dx * dx <= 0x1_0000_0000 * 0x1_0000_0000) by (nonlinear_arith)
        requires
            -0x1_0000_0000 <= dx <= 0x1_0000_0000,
    ;
    assert(dy * dy <= 0x1_0000_0000 * 0x1_0000_0000) by (nonlinear_arith)
        requires
            -0x1_0000_0000 <= dy <= 0x1_0000_0000,
    ;
    assert(dx * dx >= 0 && dy * dy >= 0) by (nonlinear_arith);
    dx * dx + dy * dy
}

/// The outline zone of a rectangle annotation.
fn rect_outline(b: &Rect, x: i32, y: i32, filled: bool) -> (z: HitZone)
    ensures
        z == rect_outline_zone(*b, x as int, y as int, filled),
{
    let x64 = x as i64;
    let y64 = y as i64;
    let l = b.left as i64;
    let r = b.right as i64;
    let t = b.top as i64;
    let bt = b.bottom as i64;
    let near_left = (if x64 >= l { x64 - l } else { l - x64 }) < 10;
    let near_right = (if x64 >= r { x64 - r } else { r - x64 }) < 10;
    let near_top = (if y64 >= t { y64 - t } else { t - y64 }) < 10;
    let near_bottom = (if y64 >= bt { y64 - bt } else { bt - y64 }) < 10;
    let in_x = x64 >= l - 10 && x64 <= r + 10;
    let in_y = y64 >= t - 10 && y64 <= bt + 10;
    if ((near_left || near_right) && in_y) || ((near_top || near_bottom) && in_x) {
        HitZone::Stroke
    } else if filled && x >= b.left && x <= b.right && y >= b.top && y <= b.bottom {
        HitZone::Body
    } else {
        HitZone::NoZone
    }
}

impl<X> DrawingObject<X> {
    /// The part of this object that the pointer at `(x, y)` touches.
    pub fn hit_test(
        &self,
        x: i32,
        y: i32,
        m: &ObjectMetrics,
        blocks: &Vec<(i32, i32)>,
        probe: &HitProbe,
    ) -> (z: HitZone)
        requires
            self.points@.len() > 0 && hit_reads_bounds(self.tool, self.points@.len() as int)
                ==> bounds_computable(self.tool, self.points@, *m, blocks@),
        ensures
            z == hit_zone(
                self.tool,
                self.points@,
                self.is_filled,
                to_rect(object_bounds(self.tool, self.points@, *m, blocks@)),
                *probe,
                x as int,
                y as int,
            ),
    {
        let tool = self.tool;
        let n = self.points.len();
        if tool == DrawingTool::Arrow && n == 2 {
            let p1 = self.points[0];
            let p2 = self.points[1];
            if p1.0 == p2.0 && p1.1 == p2.1 {
                return HitZone::NoZone;
            }
            if distance_squared(p1, x, y) < 100 {
                return HitZone::Tail;
            }
            if distance_squared(p2, x, y) < 100 {
                return HitZone::Tip;
            }
            return probe.arrow_outline;
        }
        if (tool == DrawingTool::Rect || tool == DrawingTool::Ellipse || tool == DrawingTool::Line)
            && n == 2 {
            let p1 = self.points[0];
            let p2 = self.points[1];
            let b = self.get_bounds(m, blocks);
            let zone = HitZone::detect(&b, x, y);
            if tool == DrawingTool::Line {
                if distance_squared(p1, x, y) < 100 {
                    return HitZone::Tail;
                }
                if distance_squared(p2, x, y) < 100 {
                    return HitZone::Tip;
                }
                if !(p1.0 == p2.0 && p1.1 == p2.1) && probe.near_segment {
                    return HitZone::Stroke;
                }
                return HitZone::NoZone;
            }
            let handle = match zone {
                HitZone::TopLeft | HitZone::Top | HitZone::TopRight | HitZone::Right
                | HitZone::BottomRight | HitZone::Bottom | HitZone::BottomLeft | HitZone::Left => true,
                _ => false,
            };
            if handle {
                return zone;
            }
            if tool == DrawingTool::Rect {
                return rect_outline(&b, x, y, self.is_filled);
            }
            if b.right > b.left && b.bottom > b.top {
                if probe.near_ellipse {
                    return HitZone::Stroke;
                }
                if self.is_filled && probe.inside_ellipse {
                    return HitZone::Body;
                }
            }
            return HitZone::NoZone;
        }
        if tool == DrawingTool::Number && n > 0 {
            if distance_squared(self.points[0], x, y) <= 324 {
                return HitZone::Body;
            }
            return HitZone::NoZone;
        }
        if tool == DrawingTool::Mosaic {
            return HitZone::NoZone;
        }
        if tool == DrawingTool::Brush {
            if probe.on_brush_stroke {
                return HitZone::Body;
            }
            return HitZone::NoZone;
        }
        let b = self.get_bounds(m, blocks);
        HitZone::detect(&b, x, y)
    }
}

} // verus!
