use nexspot::desktop::monitor_info;
use nexspot::annotation::{HitProbe, ObjectMetrics};
use nexspot::geometry::Rect;
use nexspot::ocr::ocr_selection;
use nexspot::overlay::{DrawingObject, OverlayState};
use nexspot::json::{get_member, json_to_text, JsonValue};
use nexspot::paddle::{decide_parsed_release, decide_parsed_reply, decide_release, decide_reply, present_url_list, read_release, read_reply};
use nexspot::pin::{PinData, PinState};
use nexspot::types::{CaptureEngine, CaptureMode, DrawingTool, HitZone};
use nexspot::workflow::{
    find_workflow, sync_snapshot_config, sync_workflow_snapshot_size, tray_capture_workflow,
    CaptureAction, CaptureOutput, CaptureWorkflow,
};

fn output() -> CaptureOutput {
    CaptureOutput {
        save_to_file: true,
        save_to_clipboard: false,
        target_folder: None,
        naming_template: "%Y".to_string(),
        format: "png".to_string(),
    }
}

fn workflow(id: &str, action: CaptureAction) -> CaptureWorkflow {
    CaptureWorkflow {
        id: id.to_string(),
        label: id.to_uppercase(),
        shortcut: String::new(),
        enabled: true,
        is_system: false,
        action,
        output: output(),
    }
}

fn snapshot(w: i32, h: i32) -> CaptureAction {
    CaptureAction::Snapshot { engine: "gdi".to_string(), width: w, height: h, allow_resize: true }
}

fn size_of(a: &CaptureAction) -> Option<(i32, i32)> {
    match a {
        CaptureAction::Snapshot { width, height, .. } => Some((*width, *height)),
        _ => None,
    }
}

#[test]
fn tray_builds_the_manual_workflow() {
    let w = tray_capture_workflow();
    assert_eq!(w.id, "tray_manual");
    assert_eq!(w.label, "Manual Capture");
    assert_eq!(w.shortcut, "");
    assert!(w.enabled && w.is_system);
    match &w.action {
        CaptureAction::Selection { engine } => assert_eq!(engine, "gdi"),
        _ => panic!("the tray captures a selection"),
    }
    assert!(!w.output.save_to_file && w.output.save_to_clipboard);
    assert_eq!(w.output.target_folder, None);
    assert_eq!(w.output.naming_template, "capture_%Y%m%d_%H%M%S");
    assert_eq!(w.output.format, "png");
}

#[test]
fn running_a_workflow_records_it() {
    let mut s: OverlayState<()> = OverlayState::new();
    s.mouse_x = 7;
    s.begin_workflow_capture(
        workflow("snap", CaptureAction::Snapshot { engine: "vello".to_string(), width: 800, height: 600, allow_resize: true }),
        Some("describe".to_string()),
    );
    assert_eq!(s.active_workflow.as_ref().map(|w| w.id.as_str()), Some("snap"));
    assert_eq!(s.pending_ai_prompt.as_deref(), Some("describe"));
    assert_eq!(s.capture_engine, CaptureEngine::Wgc);
    assert_eq!(s.capture_mode, CaptureMode::Standard);
    assert!(s.is_snapshot_mode);
    assert_eq!(s.mouse_x, 7);

    s.begin_workflow_capture(tray_capture_workflow(), None);
    assert_eq!(s.active_workflow.as_ref().map(|w| w.id.as_str()), Some("tray_manual"));
    assert_eq!(s.pending_ai_prompt, None);
    assert_eq!(s.capture_engine, CaptureEngine::Gdi);
    assert!(!s.is_snapshot_mode);
}

#[test]
fn resized_snapshot_names_its_workflow() {
    let mut s: OverlayState<()> = OverlayState::new();
    s.width = 1920;
    s.height = 1080;
    assert_eq!(s.snapshot_size_update(), None);
    s.begin_workflow_capture(workflow("snap", snapshot(800, 600)), None);
    assert_eq!(s.snapshot_size_update(), Some(("snap".to_string(), (1920, 1080))));
    s.selection = Some(Rect { left: 10, top: 20, right: 410, bottom: 320 });
    assert_eq!(s.snapshot_size_update(), Some(("snap".to_string(), (400, 300))));
    s.begin_workflow_capture(workflow("sel", CaptureAction::Selection { engine: "gdi".to_string() }), None);
    assert_eq!(s.snapshot_size_update(), None);
}

#[test]
fn snapshot_size_goes_to_the_workflow_with_that_id() {
    let mut ws = vec![
        workflow("a", snapshot(800, 600)),
        workflow("b", snapshot(800, 600)),
        workflow("b", snapshot(100, 100)),
        workflow("c", CaptureAction::Fullscreen { engine: "gdi".to_string() }),
    ];
    assert_eq!(find_workflow(&ws, "b"), Some(1));
    assert_eq!(find_workflow(&ws, "z"), None);
    assert!(sync_workflow_snapshot_size(&mut ws, "b", (400, 300)));
    assert_eq!(size_of(&ws[0].action), Some((800, 600)));
    assert_eq!(size_of(&ws[1].action), Some((400, 300)));
    assert_eq!(size_of(&ws[2].action), Some((100, 100)));
    assert_eq!(ws[1].id, "b");
    assert!(!sync_workflow_snapshot_size(&mut ws, "b", (400, 300)));
    assert!(!sync_workflow_snapshot_size(&mut ws, "c", (1, 1)));
    assert!(!sync_workflow_snapshot_size(&mut ws, "z", (1, 1)));
    assert_eq!(ws.len(), 4);

    let mut global = (400, 300);
    assert!(sync_snapshot_config(&mut global, &mut ws, "a", (400, 300)));
    assert_eq!(size_of(&ws[0].action), Some((400, 300)));
    assert!(!sync_snapshot_config(&mut global, &mut ws, "a", (400, 300)));
    assert!(sync_snapshot_config(&mut global, &mut ws, "z", (5, 6)));
    assert_eq!(global, (5, 6));
}

#[test]
fn ocr_needs_a_selection() {
    let r = Rect { left: 1, top: 2, right: 3, bottom: 4 };
    assert_eq!(ocr_selection(Some(r)), Ok(r));
    assert_eq!(ocr_selection(None), Err("No selection active".to_string()));
}

fn model(v: &serde_json::Value) -> JsonValue {
    match v {
        serde_json::Value::Null => JsonValue::Null,
        serde_json::Value::Bool(b) => JsonValue::Bool(*b),
        serde_json::Value::Number(n) => JsonValue::Number { integer: n.as_i64(), text: n.to_string() },
        serde_json::Value::String(s) => JsonValue::Str(s.clone()),
        serde_json::Value::Array(items) => JsonValue::Array(items.iter().map(model).collect()),
        serde_json::Value::Object(m) => JsonValue::Object(m.iter().map(|(k, x)| (k.clone(), model(x))).collect()),
    }
}

fn parse(text: &str) -> JsonValue {
    model(&serde_json::from_str::<serde_json::Value>(text).unwrap())
}

#[test]
fn json_text_matches_serde() {
    for text in [
        r#"{"b":[1,-2,3.5,1e300,18446744073709551615],"a":"q\"\\\n\t\u0001\u001f\u007f é","c":null,"d":true,"e":{}}"#,
        r#"[[],[{}],"",false,0]"#,
        r#""\b\f\r/""#,
    ] {
        let v: serde_json::Value = serde_json::from_str(text).unwrap();
        assert_eq!(json_to_text(&model(&v)), v.to_string());
    }
    let v = parse(r#"{"x":1,"y":{"z":2}}"#);
    assert!(matches!(get_member(&v, "x"), Some(JsonValue::Number { integer: Some(1), .. })));
    assert!(get_member(&v, "z").is_none());
    assert!(get_member(&JsonValue::Null, "x").is_none());
}

#[test]
fn recognizer_replies_are_decided() {
    let ok = parse(r#"{"code":100,"data":[{"text":"Hello","box":[[0,0],[5,0],[5,2],[0,2]]},{"text":"","box":[]},{"text":"World"}]}"#);
    let (full, kept, texts) = decide_reply(&ok, &vec![true, true, true]).unwrap();
    assert_eq!(full, "Hello\nWorld");
    assert_eq!(kept, vec![0, 2]);
    assert_eq!(texts, vec!["Hello", "", "World"]);
    let (full, kept, _) = decide_reply(&ok, &vec![true, true, false]).unwrap();
    assert_eq!(full, "Hello");
    assert_eq!(kept, vec![0]);
    assert_eq!(
        decide_reply(&ok, &vec![true]),
        Err("PaddleOCR reply lines and boxes differ in number".to_string())
    );
    assert_eq!(
        decide_reply(&parse(r#"{"code":101,"data":null}"#), &vec![]),
        Err("No text detected in selection".to_string())
    );
    assert_eq!(
        decide_reply(&parse(r#"{"code":500,"data":"boom"}"#), &vec![]),
        Err("PaddleOCR error 500: \"boom\"".to_string())
    );
    assert_eq!(
        decide_reply(&parse(r#"{"code":7,"data":{"b":[1,2],"a":"x"}}"#), &vec![]),
        Err("PaddleOCR error 7: {\"a\":\"x\",\"b\":[1,2]}".to_string())
    );
    assert_eq!(decide_reply(&parse(r#"{"data":[]}"#), &vec![]), Err("PaddleOCR error -1: []".to_string()));
    assert_eq!(decide_reply(&parse(r#"{"code":"100"}"#), &vec![]), Err("PaddleOCR error -1: ".to_string()));
    assert_eq!(
        decide_reply(&parse(r#"{"code":100,"data":[]}"#), &vec![]),
        Err("No text detected in selection".to_string())
    );
    assert_eq!(
        read_reply(&parse(r#"{"code":100,"data":[{"text":5},"x",{"text":"a"}]}"#)),
        (Some(100), r#"[{"text":5},"x",{"text":"a"}]"#.to_string(), vec!["".to_string(), "".to_string(), "a".to_string()])
    );
    assert_eq!(
        decide_parsed_reply((Some(100), "[]".to_string(), vec!["x".to_string()]), &vec![true]),
        Ok(("x".to_string(), vec![0], vec!["x".to_string()]))
    );
}

#[test]
fn text_pins_get_fresh_ids() {
    let mut pins = PinState::new();
    let a = pins.add_text_pin("one".to_string());
    let b = pins.add_text_pin("two".to_string());
    assert_ne!(a, b);
    assert_eq!(a.len(), 36);
    assert_eq!(&a[14..15], "4");
    let all = pins.get_all_pins();
    assert_eq!(all.len(), 2);
    assert_eq!(all[0].id, a);
    assert!(matches!(&all[1].data, PinData::Text(t) if t == "two"));
}

#[test]
fn mosaics_and_empty_objects() {
    let m = ObjectMetrics { text_width: 0, text_height: 0, stroke_px: 2, half_stroke_px: 1 };
    let probe = HitProbe {
        arrow_outline: HitZone::Body,
        near_segment: true,
        near_ellipse: true,
        inside_ellipse: true,
        on_brush_stroke: true,
    };
    let mosaic: DrawingObject<()> = DrawingObject {
        tool: DrawingTool::Mosaic,
        points: vec![(0, 0), (10, 10)],
        text: None,
        color: 0,
        is_filled: true,
        is_dashed: false,
        is_editing_text: false,
        font_family: String::new(),
        has_shadow: false,
        extra: (),
    };
    let far_blocks = vec![(i32::MAX / 2, i32::MAX / 2)];
    assert_eq!(mosaic.hit_test(5, 5, &m, &far_blocks, &probe), HitZone::NoZone);
    let brush = DrawingObject { tool: DrawingTool::Brush, points: Vec::new(), ..mosaic };
    let wide = ObjectMetrics { half_stroke_px: i32::MAX, ..m };
    let zero = Rect { left: 0, top: 0, right: 0, bottom: 0 };
    assert_eq!(brush.get_bounds(&wide, &Vec::new()), zero);
}

#[test]
fn monitor_names_decode_utf16_lossily() {
    let r = Rect { left: 0, top: 0, right: 1, bottom: 1 };
    let device: Vec<u16> = vec![0, 0x44, 0xD834, 0xDD1E, 0xDD1E, 0xD834, 0x41, 0, 0];
    let m = monitor_info(&device, r, 0, 96, 96);
    assert_eq!(m.name, "D\u{1D11E}\u{FFFD}\u{FFFD}A");
}

#[test]
fn release_replies_are_decided() {
    let body = parse(r#"{"tag_name":"v1.2","assets":[
        {"browser_download_url":"https://x/ocr-linux.zip"},
        {"name":"no url"},
        {"browser_download_url":"https://x/ocr.zip"},
        {"browser_download_url":"https://x/OCR-Win64.7z"},
        {"browser_download_url":"https://x/ocr-win.zip"}]}"#);
    assert_eq!(decide_release(&body), Ok(("v1.2".to_string(), "https://x/OCR-Win64.7z".to_string())));
    let (tag, urls) = read_release(&body);
    assert_eq!(tag.as_deref(), Some("v1.2"));
    assert_eq!(urls.unwrap()[1], None);
    assert_eq!(decide_release(&parse(r#"{"assets":[]}"#)), Err("release tag missing".to_string()));
    assert_eq!(decide_release(&parse(r#"{"tag_name":1,"assets":[]}"#)), Err("release tag missing".to_string()));
    assert_eq!(decide_release(&parse(r#"{"tag_name":"v1","assets":{}}"#)), Err("release assets missing".to_string()));
    assert_eq!(
        decide_release(&parse(r#"{"tag_name":"v1","assets":[{"browser_download_url":"a-source.zip"}]}"#)),
        Err("no suitable windows asset in latest release".to_string())
    );
    assert_eq!(
        decide_parsed_release((Some("t".to_string()), Some(vec![None, Some("b.zip".to_string())]))),
        Ok(("t".to_string(), "b.zip".to_string()))
    );
    assert_eq!(present_url_list(&vec![None, Some("a".to_string()), None, Some("b".to_string())]), vec!["a", "b"]);
}

#[test]
fn selection_is_saved_by_the_running_workflow() {
    let mut s: OverlayState<()> = OverlayState::new();
    let d = s.active_save_settings();
    assert!(d.save_to_file);
    assert_eq!(d.target_folder, None);
    assert_eq!(d.naming_template, "%Y-%m-%d_%H-%M-%S");
    assert_eq!(d.format, "png");
    s.begin_workflow_capture(tray_capture_workflow(), None);
    let t = s.active_save_settings();
    assert!(!t.save_to_file);
    assert_eq!(t.naming_template, "capture_%Y%m%d_%H%M%S");
}
