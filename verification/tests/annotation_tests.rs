use nexspot::annotation::{block_size_for, HitProbe, ObjectMetrics};
use nexspot::geometry::Rect;
use nexspot::overlay::DrawingObject;
use nexspot::types::{DrawingTool, HitZone};

fn object(tool: DrawingTool, points: Vec<(i32, i32)>, filled: bool) -> DrawingObject<()> {
    DrawingObject {
        tool,
        points,
        text: None,
        color: 0xFFFF0000,
        is_filled: filled,
        is_dashed: false,
        is_editing_text: false,
        font_family: "Segoe UI".to_string(),
        has_shadow: false,
        extra: (),
    }
}

fn metrics() -> ObjectMetrics {
    ObjectMetrics { text_width: 60, text_height: 20, stroke_px: 2, half_stroke_px: 1 }
}

fn no_probe() -> HitProbe {
    HitProbe {
        arrow_outline: HitZone::NoZone,
        near_segment: false,
        near_ellipse: false,
        inside_ellipse: false,
        on_brush_stroke: false,
    }
}

fn rect(l: i32, t: i32, r: i32, b: i32) -> Rect {
    Rect { left: l, top: t, right: r, bottom: b }
}

#[test]
fn raw_bounds_span_all_points() {
    let o = object(DrawingTool::Brush, vec![(5, 9), (-3, 4), (7, 1)], false);
    assert_eq!(o.get_raw_bounds(), rect(-3, 1, 7, 9));
    let e = object(DrawingTool::Brush, vec![], false);
    assert_eq!(e.get_raw_bounds(), rect(0, 0, 0, 0));
}

#[test]
fn bounds_by_tool() {
    let m = metrics();
    let none: Vec<(i32, i32)> = Vec::new();
    let text = object(DrawingTool::Text, vec![(10, 20)], false);
    assert_eq!(text.get_bounds(&m, &none), rect(10, 20, 70, 40));
    let number = object(DrawingTool::Number, vec![(100, 100)], false);
    assert_eq!(number.get_bounds(&m, &none), rect(82, 82, 118, 118));
    let shape = object(DrawingTool::Rect, vec![(10, 10), (50, 30)], false);
    assert_eq!(shape.get_bounds(&m, &none), rect(8, 8, 52, 32));
    let brush = object(DrawingTool::Brush, vec![(10, 10), (50, 30)], false);
    let wide = ObjectMetrics { half_stroke_px: 4, ..m };
    assert_eq!(brush.get_bounds(&wide, &none), rect(4, 4, 56, 36));
    let empty = object(DrawingTool::Rect, vec![], false);
    assert_eq!(empty.get_bounds(&m, &none), rect(0, 0, 0, 0));
}

#[test]
fn mosaic_bounds_cover_its_blocks() {
    let m = metrics();
    let mosaic = object(DrawingTool::Mosaic, vec![(0, 0)], false);
    let blocks = vec![(2, 3), (-1, 5), (4, 0)];
    assert_eq!(mosaic.get_bounds(&m, &blocks), rect(-6, 0, 30, 36));
    let coarse = ObjectMetrics { stroke_px: 8, ..m };
    assert_eq!(mosaic.get_bounds(&coarse, &blocks), rect(-16, 0, 80, 96));
    let no_blocks: Vec<(i32, i32)> = Vec::new();
    assert_eq!(mosaic.get_bounds(&m, &no_blocks), rect(-2, -2, 2, 2));
}

#[test]
fn mosaic_block_sizes() {
    assert_eq!(block_size_for(0), 6);
    assert_eq!(block_size_for(3), 6);
    assert_eq!(block_size_for(4), 10);
    assert_eq!(block_size_for(7), 10);
    assert_eq!(block_size_for(8), 16);
    assert_eq!(block_size_for(-1), 16);
}

#[test]
fn arrow_tail_and_tip_come_first() {
    let m = metrics();
    let none: Vec<(i32, i32)> = Vec::new();
    let arrow = object(DrawingTool::Arrow, vec![(0, 0), (100, 0)], false);
    let probe = HitProbe { arrow_outline: HitZone::Body, ..no_probe() };
    assert_eq!(arrow.hit_test(50, 5, &m, &none, &probe), HitZone::Body);
    assert_eq!(arrow.hit_test(3, 4, &m, &none, &probe), HitZone::Tail);
    assert_eq!(arrow.hit_test(3, 3, &m, &none, &probe), HitZone::Tail);
    assert_eq!(arrow.hit_test(100, 9, &m, &none, &probe), HitZone::Tip);
    let wing = HitProbe { arrow_outline: HitZone::WingLeft, ..no_probe() };
    assert_eq!(arrow.hit_test(60, 20, &m, &none, &wing), HitZone::WingLeft);
    let dot = object(DrawingTool::Arrow, vec![(5, 5), (5, 5)], false);
    assert_eq!(dot.hit_test(5, 5, &m, &none, &probe), HitZone::NoZone);
}

#[test]
fn line_end_points_then_segment() {
    let m = metrics();
    let none: Vec<(i32, i32)> = Vec::new();
    let line = object(DrawingTool::Line, vec![(0, 0), (100, 100)], false);
    assert_eq!(line.hit_test(1, 1, &m, &none, &no_probe()), HitZone::Tail);
    assert_eq!(line.hit_test(99, 99, &m, &none, &no_probe()), HitZone::Tip);
    let near = HitProbe { near_segment: true, ..no_probe() };
    assert_eq!(line.hit_test(50, 52, &m, &none, &near), HitZone::Stroke);
    assert_eq!(line.hit_test(50, 90, &m, &none, &no_probe()), HitZone::NoZone);
}

#[test]
fn rectangle_handles_outline_and_fill() {
    let m = metrics();
    let none: Vec<(i32, i32)> = Vec::new();
    let outline = object(DrawingTool::Rect, vec![(100, 100), (300, 200)], false);
    // bounds are (98, 98, 302, 202)
    assert_eq!(outline.hit_test(98, 98, &m, &none, &no_probe()), HitZone::TopLeft);
    assert_eq!(outline.hit_test(200, 202, &m, &none, &no_probe()), HitZone::Bottom);
    assert_eq!(outline.hit_test(150, 105, &m, &none, &no_probe()), HitZone::Stroke);
    assert_eq!(outline.hit_test(150, 150, &m, &none, &no_probe()), HitZone::NoZone);
    let filled = object(DrawingTool::Rect, vec![(100, 100), (300, 200)], true);
    assert_eq!(filled.hit_test(150, 150, &m, &none, &no_probe()), HitZone::Body);
    assert_eq!(filled.hit_test(400, 400, &m, &none, &no_probe()), HitZone::NoZone);
}

#[test]
fn ellipse_outline_and_inside() {
    let m = metrics();
    let none: Vec<(i32, i32)> = Vec::new();
    let e = object(DrawingTool::Ellipse, vec![(0, 0), (100, 50)], true);
    let on_edge = HitProbe { near_ellipse: true, ..no_probe() };
    assert_eq!(e.hit_test(50, 1, &m, &none, &on_edge), HitZone::Top);
    assert_eq!(e.hit_test(20, 12, &m, &none, &on_edge), HitZone::Stroke);
    let inside = HitProbe { inside_ellipse: true, ..no_probe() };
    assert_eq!(e.hit_test(50, 25, &m, &none, &inside), HitZone::Body);
    let hollow = object(DrawingTool::Ellipse, vec![(0, 0), (100, 50)], false);
    assert_eq!(hollow.hit_test(50, 25, &m, &none, &inside), HitZone::NoZone);
}

#[test]
fn number_badge_circle() {
    let m = metrics();
    let none: Vec<(i32, i32)> = Vec::new();
    let badge = object(DrawingTool::Number, vec![(100, 100)], false);
    assert_eq!(badge.hit_test(118, 100, &m, &none, &no_probe()), HitZone::Body);
    assert_eq!(badge.hit_test(113, 113, &m, &none, &no_probe()), HitZone::NoZone);
    assert_eq!(badge.hit_test(112, 112, &m, &none, &no_probe()), HitZone::Body);
}

#[test]
fn text_mosaic_and_brush() {
    let m = metrics();
    let none: Vec<(i32, i32)> = Vec::new();
    let text = object(DrawingTool::Text, vec![(10, 20)], false);
    // text box (10, 20, 70, 40)
    assert_eq!(text.hit_test(10, 20, &m, &none, &no_probe()), HitZone::TopLeft);
    assert_eq!(text.hit_test(40, 30, &m, &none, &no_probe()), HitZone::Top);
    assert_eq!(text.hit_test(25, 30, &m, &none, &no_probe()), HitZone::Stroke);
    assert_eq!(text.hit_test(500, 500, &m, &none, &no_probe()), HitZone::NoZone);
    let mosaic = object(DrawingTool::Mosaic, vec![(0, 0)], false);
    let everything = HitProbe { on_brush_stroke: true, ..no_probe() };
    assert_eq!(mosaic.hit_test(0, 0, &m, &none, &everything), HitZone::NoZone);
    let brush = object(DrawingTool::Brush, vec![(0, 0), (10, 10)], false);
    assert_eq!(brush.hit_test(5, 5, &m, &none, &everything), HitZone::Body);
    assert_eq!(brush.hit_test(5, 5, &m, &none, &no_probe()), HitZone::NoZone);
}
