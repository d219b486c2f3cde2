use nexspot::geometry::Rect;
use nexspot::overlay::{DrawingObject, OverlayState};
use nexspot::selection;
use nexspot::snapping::{snap_coordinate, update_snap_lines};
use nexspot::toolbar::{draw_toolbar, Toolbar, ToolbarCommand};
use nexspot::types::{DrawingTool, HitZone};

fn rect(l: i32, t: i32, r: i32, b: i32) -> Rect {
    Rect { left: l, top: t, right: r, bottom: b }
}

fn drawing(tool: DrawingTool, points: Vec<(i32, i32)>) -> DrawingObject<()> {
    DrawingObject {
        tool,
        points,
        text: None,
        color: 1,
        is_filled: false,
        is_dashed: false,
        is_editing_text: false,
        font_family: "Segoe UI".to_string(),
        has_shadow: false,
        extra: (),
    }
}

#[test]
fn annotation_zones_of_a_rectangle() {
    let r = rect(100, 100, 300, 200);
    assert_eq!(HitZone::detect(&r, 105, 95), HitZone::TopLeft);
    assert_eq!(HitZone::detect(&r, 300, 200), HitZone::BottomRight);
    assert_eq!(HitZone::detect(&r, 200, 100), HitZone::Top);
    assert_eq!(HitZone::detect(&r, 300, 150), HitZone::Right);
    assert_eq!(HitZone::detect(&r, 150, 100), HitZone::Stroke);
    assert_eq!(HitZone::detect(&r, 150, 150), HitZone::Body);
    assert_eq!(HitZone::detect(&r, 311, 150), HitZone::NoZone);
    assert_eq!(HitZone::detect(&r, 150, 89), HitZone::NoZone);
}

#[test]
fn selection_zones() {
    let r = rect(100, 100, 300, 200);
    assert_eq!(selection::HitZone::detect(&r, 100, 100), selection::HitZone::TopLeft);
    assert_eq!(selection::HitZone::detect(&r, 200, 200), selection::HitZone::Bottom);
    assert_eq!(selection::HitZone::detect(&r, 150, 150), selection::HitZone::Body);
    assert_eq!(selection::HitZone::detect(&r, 50, 50), selection::HitZone::NoZone);
}

#[test]
fn snapping_to_nearest_edge() {
    let targets = [0, 100, 107, 200];
    assert_eq!(snap_coordinate(104, &targets, 10), 107);
    assert_eq!(snap_coordinate(150, &targets, 10), 150);
    assert_eq!(snap_coordinate(3, &targets, 10), 0);
    assert_eq!(snap_coordinate(100, &targets, 10), 100);
    // equally near targets: the first wins
    assert_eq!(snap_coordinate(150, &[145, 155], 10), 145);
    // the threshold is strict
    assert_eq!(snap_coordinate(110, &[100], 10), 110);
    assert_eq!(snap_coordinate(5, &[], 10), 5);
}

#[test]
fn snap_lines_follow_window_edges() {
    let mut s: OverlayState<()> = OverlayState::new();
    s.capture_x = -100;
    s.capture_y = 50;
    s.width = 1920;
    s.height = 1080;
    s.window_rects = vec![rect(0, 50, 400, 350)];
    update_snap_lines(&mut s);
    assert_eq!(s.gdi.snap_x_cache, vec![100, 500, 0, 1920]);
    assert_eq!(s.gdi.snap_y_cache, vec![0, 300, 0, 1080]);
    assert!(!s.snapping_dirty);
}

#[test]
fn no_windows_no_snap_lines() {
    let mut s: OverlayState<()> = OverlayState::new();
    s.width = 800;
    s.height = 600;
    update_snap_lines(&mut s);
    assert!(s.gdi.snap_x_cache.is_empty());
    assert!(s.gdi.snap_y_cache.is_empty());
}

#[test]
fn fresh_overlay_state() {
    let s: OverlayState<()> = OverlayState::new();
    assert!(!s.is_visible);
    assert!(s.objects.is_empty());
    assert_eq!(s.current_color, 0xFFD14D4D);
    assert_eq!(s.font_family, "Segoe UI");
    assert_eq!(s.current_tool, DrawingTool::NoTool);
    assert!(s.snapping_dirty);
}

#[test]
fn colour_goes_to_the_text_being_edited() {
    let mut s: OverlayState<()> = OverlayState::new();
    let mut a = drawing(DrawingTool::Text, vec![(0, 0)]);
    a.is_editing_text = true;
    let b = drawing(DrawingTool::Rect, vec![(0, 0), (5, 5)]);
    s.objects = vec![a, b];
    assert_eq!(s.editing_text_index(), Some(0));
    s.apply_color(0xFF00FF00);
    assert_eq!(s.current_color, 0xFF00FF00);
    assert_eq!(s.objects[0].color, 0xFF00FF00);
    assert_eq!(s.objects[1].color, 1);
}

#[test]
fn fill_shadow_and_undo() {
    let mut s: OverlayState<()> = OverlayState::new();
    s.toggle_fill();
    assert!(s.current_is_filled);
    s.toggle_fill();
    assert!(!s.current_is_filled);
    s.objects = vec![drawing(DrawingTool::Rect, vec![(0, 0), (5, 5)]), drawing(DrawingTool::Line, vec![(1, 1), (2, 2)])];
    s.selected_object_index = Some(1);
    s.apply_shadow(true);
    assert!(s.current_shadow);
    assert!(s.objects[1].has_shadow);
    assert!(!s.objects[0].has_shadow);
    s.undo();
    assert_eq!(s.objects.len(), 1);
    assert_eq!(s.selected_object_index, None);
    s.undo();
    s.undo();
    assert!(s.objects.is_empty());
}

#[test]
fn finished_drawings_are_kept_only_with_content() {
    let mut s: OverlayState<()> = OverlayState::new();
    s.current_drawing = Some(drawing(DrawingTool::Rect, vec![(0, 0)]));
    s.commit_current_drawing();
    assert!(s.objects.is_empty());
    assert!(s.current_drawing.is_none());
    s.current_drawing = Some(drawing(DrawingTool::Number, vec![(3, 3)]));
    s.commit_current_drawing();
    s.current_drawing = Some(drawing(DrawingTool::Line, vec![(0, 0), (9, 9)]));
    s.commit_current_drawing();
    assert_eq!(s.objects.len(), 2);
    assert_eq!(s.objects[0].tool, DrawingTool::Number);
    assert_eq!(s.objects[1].tool, DrawingTool::Line);
}

#[test]
fn toolbar_row_below_selection() {
    let mut t = Toolbar::new();
    assert!(t.draw().is_none());
    t.update_layout(rect(100, 100, 400, 300), 1920, 1080);
    let drawing = t.draw().unwrap();
    assert!(drawing.transparent_background);
    assert_eq!(drawing.font_family, "Segoe UI");
    assert_eq!((drawing.font_height, drawing.font_weight), (14, 400));
    let paints = drawing.paints;
    let labels: Vec<String> = paints.iter().map(|p| p.label.clone()).collect();
    assert_eq!(labels, vec!["OCR Selection", "Main Capture", "Save", "Cancel"]);
    assert_eq!(paints[0].rect, rect(65, 305, 145, 335));
    assert_eq!(paints[3].rect, rect(320, 305, 400, 335));
    assert_eq!(paints[2].fill_color, 0x00aaFF);
    assert_eq!(paints[3].fill_color, 0x333333);
    assert_eq!(paints[0].fill_color, 0x888888);
    assert_eq!((paints[1].text_x, paints[1].text_y), (155, 310));
    assert_eq!(paints[1].text_color, 0xFFFFFF);
    assert_eq!(t.rect, rect(65, 305, 400, 335));
    assert_eq!(draw_toolbar(&t).unwrap().paints.len(), 4);
}

#[test]
fn toolbar_clicks() {
    let mut t = Toolbar::new();
    assert_eq!(t.handle_click(70, 310), None);
    t.update_layout(rect(100, 100, 400, 300), 1920, 1080);
    assert_eq!(t.handle_click(70, 310), Some(ToolbarCommand::Plugin("ocr".to_string())));
    assert_eq!(t.handle_click(150, 335), Some(ToolbarCommand::Plugin("capture".to_string())));
    assert_eq!(t.handle_click(240, 320), Some(ToolbarCommand::Save));
    assert_eq!(t.handle_click(400, 305), Some(ToolbarCommand::Cancel));
    assert_eq!(t.handle_click(147, 310), None);
    assert_eq!(t.handle_click(240, 340), None);
}

#[test]
fn toolbar_moves_above_when_no_room_below() {
    let mut t = Toolbar::new();
    t.update_layout(rect(100, 900, 400, 1070), 1920, 1080);
    assert_eq!(t.rect, rect(65, 865, 400, 895));
}

#[test]
fn toolbar_hidden_for_tiny_selection() {
    let mut t = Toolbar::new();
    t.update_layout(rect(100, 100, 400, 300), 1920, 1080);
    t.update_layout(rect(10, 10, 15, 200), 1920, 1080);
    assert!(t.draw().is_none());
    assert_eq!(t.handle_click(70, 310), None);
}
