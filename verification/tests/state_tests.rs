use nexspot::gdi_cache::GdiCache;
use nexspot::geometry::Rect;
use nexspot::overlay::OverlayState;
use nexspot::pin::{PinData, PinItem, PinState};
use nexspot::shortcuts::{
    assign_shortcut_keys, check_shortcut_update, get_default_shortcuts, hotkeys_to_register,
    hotkeys_to_unregister, load_shortcuts, rebind_shortcut, registration_error, Shortcut,
};
use nexspot::types::{CaptureEngine, CaptureMode};
use nexspot::workflow::{
    plan_capture, save_settings, tray_capture_output, snapshot_resize, sync_action_snapshot_size,
    sync_global_snapshot_size, tray_capture_action, tray_click_shows_main, tray_menu_action,
    tray_menu_ids, CaptureAction, TrayAction,
};

fn text_of(p: &PinItem) -> String {
    match &p.data {
        PinData::Text(t) => t.clone(),
        PinData::ImageBase64(b) => format!("image:{}", b),
    }
}

#[test]
fn pins_are_kept_one_per_id_in_pin_order() {
    let mut s = PinState::new();
    s.add_pin_at("a".to_string(), PinData::Text("first".to_string()), 10);
    s.add_pin_at("b".to_string(), PinData::ImageBase64("AAAA".to_string()), 11);
    s.add_pin_at("a".to_string(), PinData::Text("second".to_string()), 12);
    let all = s.get_all_pins();
    assert_eq!(all.len(), 2);
    assert_eq!(all[0].id, "b");
    assert_eq!(text_of(&all[0]), "image:AAAA");
    assert_eq!(all[1].id, "a");
    assert_eq!(text_of(&all[1]), "second");
    assert_eq!(all[1].timestamp, 12);
}

#[test]
fn get_after_add_and_remove() {
    let mut s = PinState::new();
    s.add_pin("x".to_string(), PinData::Text("hello".to_string()));
    let got = s.get_pin("x").unwrap();
    assert_eq!(text_of(&got), "hello");
    assert!(got.timestamp > 1_600_000_000);
    assert!(s.get_pin("y").is_none());
    s.remove_pin("x");
    assert!(s.get_pin("x").is_none());
    s.remove_pin("missing");
    assert!(s.get_all_pins().is_empty());
}

#[test]
fn clearing_pins() {
    let mut s = PinState::new();
    s.add_pin_at("a".to_string(), PinData::Text("1".to_string()), 1);
    s.add_pin_at("b".to_string(), PinData::Text("2".to_string()), 2);
    s.clear_all();
    assert!(s.get_all_pins().is_empty());
}

#[test]
fn default_shortcuts() {
    let d = get_default_shortcuts();
    assert_eq!(d.len(), 2);
    assert_eq!((d[0].id.as_str(), d[0].label.as_str(), d[0].shortcut.as_str()), ("capture", "Main Capture", "Alt+A"));
    assert_eq!((d[1].id.as_str(), d[1].label.as_str(), d[1].shortcut.as_str()), ("ocr", "OCR Selection", "Alt+S"));
    assert_eq!(d[0].icon, "\u{E11A}");
    assert_eq!(d[1].color, "#10b981");
    assert!(d[0].enabled && d[1].enabled);
    assert_eq!(load_shortcuts().len(), 2);
}

#[test]
fn rebinding_checks() {
    let d = get_default_shortcuts();
    assert_eq!(check_shortcut_update(&d, "capture", ""), Err("Shortcut cannot be empty".to_string()));
    assert_eq!(check_shortcut_update(&d, "capture", "Alt+S"), Err("Conflict with OCR Selection".to_string()));
    assert_eq!(check_shortcut_update(&d, "capture", "Alt+A"), Ok(()));
    assert_eq!(check_shortcut_update(&d, "capture", "Ctrl+Shift+A"), Ok(()));
}

#[test]
fn rebinding_changes_only_the_named_shortcut() {
    let mut d = get_default_shortcuts();
    assert_eq!(rebind_shortcut(&mut d, "ocr", "Ctrl+O"), Ok(()));
    assert_eq!(d[1].shortcut, "Ctrl+O");
    assert_eq!(d[1].label, "OCR Selection");
    assert_eq!(d[0].shortcut, "Alt+A");
    assert_eq!(rebind_shortcut(&mut d, "nope", "Ctrl+N"), Err("Shortcut ID not found".to_string()));
    assert!(!assign_shortcut_keys(&mut d, "nope", "Ctrl+N"));
    assert_eq!(d[0].shortcut, "Alt+A");
    assert_eq!(d[1].shortcut, "Ctrl+O");
}

#[test]
fn accepted_rebinding_leaves_no_conflict() {
    let mut d = get_default_shortcuts();
    let keys = "Ctrl+Alt+Q";
    assert_eq!(check_shortcut_update(&d, "capture", keys), Ok(()));
    assert_eq!(rebind_shortcut(&mut d, "capture", keys), Ok(()));
    let clashes = d.iter().filter(|s| s.id != "capture" && s.shortcut == keys).count();
    assert_eq!(clashes, 0);
}

fn shortcut(id: &str, keys: &str, enabled: bool) -> Shortcut {
    Shortcut {
        id: id.to_string(),
        label: format!("{} label", id),
        shortcut: keys.to_string(),
        icon: String::new(),
        color: String::new(),
        enabled,
    }
}

#[test]
fn hotkeys_to_register_are_enabled_and_parseable() {
    let list = vec![
        shortcut("a", "Alt+A", true),
        shortcut("b", "NotAKey+", true),
        shortcut("c", "Alt+C", false),
        shortcut("d", "Ctrl+Shift+D", true),
    ];
    let reg: Vec<usize> = hotkeys_to_register(&list).iter().map(|(i, _)| *i).collect();
    assert_eq!(reg, vec![0, 3]);
    let unreg: Vec<usize> = hotkeys_to_unregister(&list).iter().map(|(i, _)| *i).collect();
    assert_eq!(unreg, vec![0, 2, 3]);
    let keys = hotkeys_to_register(&list);
    assert_eq!(keys[0].1, "Alt+A".parse::<global_hotkey::hotkey::HotKey>().unwrap());
}

#[test]
fn registration_error_text() {
    assert_eq!(registration_error(&shortcut("x", "Alt+X", true)), "x label (Alt+X)");
}

#[test]
fn gdi_objects_are_created_once() {
    let mut cache: GdiCache<u32, u32, u32, u32> = GdiCache::new();
    let mut made = 0;
    // ARGB 0xFF0000FF (opaque blue) is COLORREF 0x00FF0000.
    let pen = *cache.get_pen(0, 2, 0xFF0000FF, |s, w, c| -> Option<u32> { Some(s + w as u32 + c) }).unwrap();
    made += 1;
    assert_eq!(pen, 0x00FF0000 + 2);
    let again = *cache.get_pen(0, 2, 0xFF0000FF, |_, _, _| -> Option<u32> { panic!("must reuse") }).unwrap();
    assert_eq!(again, pen);
    let other = *cache.get_pen(0, 3, 0xFF0000FF, |_, _, _| -> Option<u32> { Some(77) }).unwrap();
    made += 1;
    assert_eq!(other, 77);
    let no_pen = cache.get_gdi_pen(1, 1, 0, |_, _, _| -> Option<u32> { None });
    assert_eq!(no_pen, Err("Failed to create pen".to_string()));
    let failed = cache.get_brush(5, |_| -> Option<u32> { None });
    assert_eq!(failed, Err("Failed to create solid brush".to_string()));
    // ARGB 0x00112233 is COLORREF 0x00332211.
    let brush = *cache.get_brush(0x00112233, |c| -> Option<u32> { Some(c) }).unwrap();
    assert_eq!(brush, 0x00332211);
    let brush_again = *cache.get_brush(0x00112233, |_| -> Option<u32> { panic!("must reuse") }).unwrap();
    assert_eq!(brush_again, brush);
    let gp = *cache.get_gdiplus_pen(0xFF000000, 0x3F800000, 0, |_, _, _| -> Result<u32, ()> { Ok(9) }).unwrap();
    assert_eq!(gp, 9);
    let gb = *cache.get_gdiplus_brush(0xFF00FF00, |_| -> Result<u32, ()> { Ok(8) }).unwrap();
    assert_eq!(gb, 8);
    let gb_again = *cache.get_gdiplus_brush(0xFF00FF00, |_| -> Result<u32, ()> { panic!("must reuse") }).unwrap();
    assert_eq!(gb_again, 8);
    cache.clear();
    let fresh = *cache.get_pen(0, 2, 0xFF0000FF, |_, _, _| -> Option<u32> { Some(1) }).unwrap();
    assert_eq!(fresh, 1);
    assert_eq!(made, 2);
}

#[test]
fn workflow_plans() {
    let snap = CaptureAction::Snapshot { engine: "vello".to_string(), width: 800, height: 600, allow_resize: true };
    let p = plan_capture(&snap);
    assert_eq!(p.engine, CaptureEngine::Wgc);
    assert_eq!(p.mode, CaptureMode::Standard);
    assert_eq!(p.snapshot_size, Some((800, 600)));
    let sel = CaptureAction::Selection { engine: "gdi".to_string() };
    let q = plan_capture(&sel);
    assert_eq!(q.engine, CaptureEngine::Gdi);
    assert_eq!(q.snapshot_size, None);
    let mut s: OverlayState<()> = OverlayState::new();
    s.is_visible = true;
    s.apply_capture_plan(&p);
    assert!(s.is_snapshot_mode);
    assert_eq!(s.capture_engine, CaptureEngine::Wgc);
    assert!(s.is_visible);
}

#[test]
fn tray_menu() {
    assert_eq!(tray_menu_action("quit"), TrayAction::Quit);
    assert_eq!(tray_menu_action("dashboard"), TrayAction::ShowDashboard);
    assert_eq!(tray_menu_action("settings"), TrayAction::ShowSettings);
    assert_eq!(tray_menu_action("capture"), TrayAction::StartCapture);
    assert_eq!(tray_menu_action("other"), TrayAction::Ignore);
    assert_eq!(tray_menu_ids(), vec!["dashboard", "capture", "settings", "quit"]);
    assert!(tray_click_shows_main(true, true));
    assert!(!tray_click_shows_main(true, false));
    assert!(!tray_click_shows_main(false, true));
    match tray_capture_action() {
        CaptureAction::Selection { engine } => assert_eq!(engine, "gdi"),
        _ => panic!("the tray captures a selection"),
    }
}

#[test]
fn resized_snapshot_is_remembered() {
    let sel = Rect { left: 10, top: 20, right: 410, bottom: 320 };
    let snap = CaptureAction::Snapshot { engine: "gdi".to_string(), width: 800, height: 600, allow_resize: true };
    let fixed = CaptureAction::Snapshot { engine: "gdi".to_string(), width: 800, height: 600, allow_resize: false };
    assert_eq!(snapshot_resize(true, Some(&snap), sel), Some((400, 300)));
    assert_eq!(snapshot_resize(false, Some(&snap), sel), None);
    assert_eq!(snapshot_resize(true, Some(&fixed), sel), None);
    assert_eq!(snapshot_resize(true, None, sel), None);
    let empty = Rect { left: 10, top: 20, right: 10, bottom: 320 };
    assert_eq!(snapshot_resize(true, Some(&snap), empty), None);

    let mut global = (800, 600);
    assert!(sync_global_snapshot_size(&mut global, (400, 300)));
    assert_eq!(global, (400, 300));
    assert!(!sync_global_snapshot_size(&mut global, (400, 300)));
    let mut action = snap;
    assert!(sync_action_snapshot_size(&mut action, (400, 300)));
    match &action {
        CaptureAction::Snapshot { engine, width, height, allow_resize } => {
            assert_eq!((engine.as_str(), *width, *height, *allow_resize), ("gdi", 400, 300, true));
        },
        _ => panic!("still a snapshot"),
    }
    assert!(!sync_action_snapshot_size(&mut action, (400, 300)));
    let mut other = CaptureAction::Fullscreen { engine: "gdi".to_string() };
    assert!(!sync_action_snapshot_size(&mut other, (1, 1)));
}

#[test]
fn every_tray_entry_has_an_action() {
    for id in tray_menu_ids() {
        assert_ne!(tray_menu_action(&id), TrayAction::Ignore);
    }
}

#[test]
fn save_settings_of_workflows() {
    let tray = tray_capture_output();
    assert!(!tray.save_to_file && tray.save_to_clipboard);
    assert_eq!(tray.naming_template, "capture_%Y%m%d_%H%M%S");
    let s = save_settings(Some(&tray));
    assert!(!s.save_to_file);
    assert_eq!(s.format, "png");
    assert_eq!(s.target_folder, None);
    let d = save_settings(None);
    assert!(d.save_to_file);
    assert_eq!(d.naming_template, "%Y-%m-%d_%H-%M-%S");
    assert_eq!(d.format, "png");
}
