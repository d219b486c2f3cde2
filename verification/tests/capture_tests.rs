use nexspot::capture::{capture_engine_for, crop_canvas, snapshot_region, CaptureError};
use nexspot::color::{argb_from_rgba, colorref_to_argb, to_colorref};
use nexspot::desktop::{keep_window, monitor_from_name, monitor_info, trim_nul};
use nexspot::geometry::Rect;
use nexspot::ocr::{
    activity_preview, get_engine, ocr_upscale_factor, prepare_ocr_bitmap, recognized_full_text,
};
use nexspot::overlay::OverlayState;
use nexspot::pixels::{
    bgra_to_rgb, rgba_to_rgb, sample_cached, sample_rgba, swap_red_blue, to_opaque_bgra,
};
use nexspot::save::{
    bgra_png_data_url, complete_file_name, encode_bgra, encode_format_for, encode_rgba,
    is_jpeg_name, pixels_encode_format, with_extension, EncodeFormat,
};
use nexspot::scrolling::{
    finish_scrolling, is_stale_scroll_cache, new_scrolling_file_name, scrolling_file_name,
};
use nexspot::stitch::{RgbaFrame, StitchError, Stitcher};
use nexspot::types::CaptureEngine;

fn rect(l: i32, t: i32, r: i32, b: i32) -> Rect {
    Rect { left: l, top: t, right: r, bottom: b }
}

fn rows(rows: &[[u8; 4]]) -> Vec<u8> {
    rows.iter().flat_map(|r| r.iter().copied()).collect()
}

#[test]
fn colour_conversions() {
    assert_eq!(to_colorref(0xFF112233), 0x00332211);
    assert_eq!(to_colorref(0x00112233), 0x00332211);
    assert_eq!(colorref_to_argb(0x00332211), 0xFF112233);
    assert_eq!(colorref_to_argb(to_colorref(0x80ABCDEF)), 0xFFABCDEF);
    assert_eq!(argb_from_rgba(0x11, 0x22, 0x33, 0x44), 0x44112233);
}

#[test]
fn pixel_byte_orders() {
    let mut p = vec![1, 2, 3, 4, 5, 6, 7, 8, 9];
    swap_red_blue(&mut p);
    assert_eq!(p, vec![3, 2, 1, 4, 7, 6, 5, 8, 9]);
    swap_red_blue(&mut p);
    assert_eq!(p, vec![1, 2, 3, 4, 5, 6, 7, 8, 9]);
    let mut q = vec![1, 2, 3, 4];
    to_opaque_bgra(&mut q);
    assert_eq!(q, vec![3, 2, 1, 255]);
    assert_eq!(bgra_to_rgb(&[1, 2, 3, 4, 5, 6, 7, 8]), vec![3, 2, 1, 7, 6, 5]);
    assert_eq!(rgba_to_rgb(&[1, 2, 3, 4, 5, 6, 7, 8]), vec![1, 2, 3, 5, 6, 7]);
}

#[test]
fn snapshot_region_and_errors() {
    assert_eq!(snapshot_region(None, 800, 600), Ok((rect(0, 0, 800, 600), 800, 600)));
    assert_eq!(snapshot_region(Some(rect(10, 20, 110, 70)), 800, 600), Ok((rect(10, 20, 110, 70), 100, 50)));
    assert_eq!(snapshot_region(Some(rect(10, 10, 10, 50)), 800, 600), Err(CaptureError::InvalidSelectionSize));
    assert_eq!(CaptureError::InvalidSelectionSize.message(), "Invalid selection size");
}

#[test]
fn cropping_the_canvas() {
    // 2 x 2 canvas at virtual position (100, 200)
    let canvas = rows(&[[1, 1, 1, 1], [2, 2, 2, 2], [3, 3, 3, 3], [4, 4, 4, 4]]);
    let second_row = crop_canvas(&canvas, 2, 2, rect(100, 201, 102, 202), 100, 200);
    assert_eq!(second_row, rows(&[[3, 3, 3, 3], [4, 4, 4, 4]]));
    let below = crop_canvas(&canvas, 2, 2, rect(100, 205, 101, 206), 100, 200);
    assert_eq!(below, vec![0, 0, 0, 0]);
}

#[test]
fn engine_names() {
    assert_eq!(capture_engine_for("vello"), CaptureEngine::Wgc);
    assert_eq!(capture_engine_for("gdi"), CaptureEngine::Gdi);
    assert_eq!(capture_engine_for("Vello"), CaptureEngine::Gdi);
}

#[test]
fn overlapping_captures_are_refused() {
    let mut s: OverlayState<()> = OverlayState::new();
    assert!(s.try_begin_capture());
    assert!(s.is_capturing);
    assert!(!s.try_begin_capture());
    let mut v: OverlayState<()> = OverlayState::new();
    v.is_visible = true;
    assert!(!v.try_begin_capture());
    assert!(!v.is_capturing);
}

#[test]
fn stitching_appends_new_rows() {
    let first = RgbaFrame::from_raw(1, 2, rows(&[[10, 10, 10, 255], [20, 20, 20, 255]])).unwrap();
    let mut st = Stitcher::new(first);
    let next = RgbaFrame::from_raw(
        1,
        4,
        rows(&[[10, 10, 10, 255], [20, 20, 20, 255], [30, 30, 30, 255], [40, 40, 40, 255]]),
    )
    .unwrap();
    assert_eq!(st.add_frame(&next), Ok(2));
    assert_eq!(st.current_image.dimensions(), (1, 4));
    assert_eq!(
        st.current_image.as_raw(),
        &rows(&[[10, 10, 10, 255], [20, 20, 20, 255], [30, 30, 30, 255], [40, 40, 40, 255]])
    );
}

#[test]
fn stitching_rejects_other_widths() {
    let mut st = Stitcher::new(RgbaFrame::new(2, 2));
    let narrow = RgbaFrame::new(1, 4);
    assert_eq!(st.add_frame(&narrow), Err(StitchError::WidthMismatch));
    assert_eq!(st.current_image.dimensions(), (2, 2));
    assert_eq!(StitchError::WidthMismatch.message(), "Frame width mismatch");
    assert_eq!(StitchError::MaxHeightReached.message(), "Maximum height reached for scrolling capture");
}

#[test]
fn frames_need_exact_pixel_data() {
    assert!(RgbaFrame::from_raw(2, 2, vec![0; 15]).is_none());
    assert!(RgbaFrame::from_raw(2, 2, vec![0; 16]).is_some());
    assert_eq!(RgbaFrame::new(3, 1).into_raw(), vec![0; 12]);
}

#[test]
fn small_selections_are_enlarged_for_recognition() {
    assert_eq!(ocr_upscale_factor(699, 1599), 2);
    assert_eq!(ocr_upscale_factor(1599, 699), 2);
    assert_eq!(ocr_upscale_factor(700, 100), 2);
    assert_eq!(ocr_upscale_factor(700, 700), 1);
    assert_eq!(ocr_upscale_factor(100, 1600), 1);
}

#[test]
fn prepared_bitmap_is_resized_and_bgra() {
    let raw = rows(&[[200, 0, 10, 255], [100, 50, 0, 255]]);
    let frame = RgbaFrame::from_raw(2, 1, raw.clone()).unwrap();
    let img = image::RgbaImage::from_raw(2, 1, raw).unwrap();
    let mut expected = image::imageops::resize(&img, 4, 2, image::imageops::FilterType::Triangle).into_raw();
    for px in expected.chunks_exact_mut(4) {
        px.swap(0, 2);
    }
    let out = prepare_ocr_bitmap(frame);
    assert_eq!(out.upscale, 2);
    assert_eq!((out.width, out.height), (4, 2));
    assert_eq!(out.bgra, expected);
}

#[test]
fn large_bitmap_is_only_reordered() {
    let mut raw = vec![0u8; 1600 * 4];
    raw[0] = 9;
    raw[2] = 7;
    let frame = RgbaFrame::from_raw(1600, 1, raw).unwrap();
    let out = prepare_ocr_bitmap(frame);
    assert_eq!(out.upscale, 1);
    assert_eq!((out.width, out.height), (1600, 1));
    assert_eq!(&out.bgra[0..4], &[7, 0, 9, 0]);
}

#[test]
fn recognized_lines_become_full_text() {
    let lines: Vec<String> = ["", "a", "", "b"].iter().map(|s| s.to_string()).collect();
    assert_eq!(recognized_full_text(&lines), Ok("a\n\nb".to_string()));
    let blank: Vec<String> = vec![" ".to_string(), String::new()];
    assert_eq!(recognized_full_text(&blank), Err("No text detected in selection".to_string()));
}

#[test]
fn activity_preview_keeps_fifty_characters() {
    assert_eq!(activity_preview("abc"), "abc...");
    let long: String = std::iter::repeat('字').take(60).collect();
    let head: String = std::iter::repeat('字').take(50).collect();
    assert_eq!(activity_preview(&long), head + "...");
}

#[test]
fn every_engine_id_uses_the_system_engine() {
    assert_eq!(get_engine("paddle").name(), "Windows Native");
    assert_eq!(get_engine("").name(), "Windows Native");
}

#[test]
fn encoder_choice_and_file_names() {
    assert_eq!(encode_format_for(Some("JPG")), Some(EncodeFormat::Jpeg));
    assert_eq!(encode_format_for(Some("jpeg")), Some(EncodeFormat::Jpeg));
    assert_eq!(encode_format_for(Some("PNG")), Some(EncodeFormat::Png));
    assert_eq!(encode_format_for(Some("bmp")), None);
    assert_eq!(encode_format_for(Some("webp")), None);
    assert_eq!(encode_format_for(Some("txt")), None);
    assert_eq!(encode_format_for(None), None);
    assert_eq!(pixels_encode_format("JPEG", Some("png")), Some(EncodeFormat::Jpeg));
    assert_eq!(pixels_encode_format("png", Some("png")), Some(EncodeFormat::Png));
    assert_eq!(pixels_encode_format("bmp", Some("bmp")), None);
    assert_eq!(pixels_encode_format("png", None), None);
    assert_eq!(with_extension("capture_1".to_string(), "png"), "capture_1.png");
    assert_eq!(with_extension("CAPTURE.PNG".to_string(), "png"), "CAPTURE.PNG");
    assert_eq!(with_extension("shot.png".to_string(), "jpg"), "shot.png.jpg");
}

#[test]
fn png_of_bgra_pixels_decodes_to_rgba() {
    let bgra = rows(&[[1, 2, 3, 255], [4, 5, 6, 128]]);
    let png = encode_bgra(bgra, 2, 1, EncodeFormat::Png, 90).unwrap();
    let decoded = image::load_from_memory(&png).unwrap().to_rgba8();
    assert_eq!(decoded.dimensions(), (2, 1));
    assert_eq!(decoded.into_raw(), rows(&[[3, 2, 1, 255], [6, 5, 4, 128]]));
}

#[test]
fn jpeg_and_png_of_rgba_pixels() {
    let rgba = vec![200u8; 8 * 8 * 4];
    let jpeg = encode_rgba(rgba.clone(), 8, 8, EncodeFormat::Jpeg, 90).unwrap();
    assert_eq!(&jpeg[0..2], &[0xFF, 0xD8]);
    let decoded = image::load_from_memory(&jpeg).unwrap();
    assert_eq!((decoded.width(), decoded.height()), (8, 8));
    let png = encode_rgba(rgba.clone(), 8, 8, EncodeFormat::Png, 90).unwrap();
    assert_eq!(image::load_from_memory(&png).unwrap().to_rgba8().into_raw(), rgba);
}

#[test]
fn scrolling_cache_names_and_expiry() {
    assert_eq!(scrolling_file_name("abc"), "scrolling_abc.png");
    let name = new_scrolling_file_name();
    assert!(name.starts_with("scrolling_") && name.ends_with(".png"));
    let id = &name["scrolling_".len()..name.len() - 4];
    assert!(uuid::Uuid::parse_str(id).is_ok());
    assert_eq!(id.len(), 36);
    assert_eq!(&id[14..15], "4");
    assert_ne!(new_scrolling_file_name(), name);
    assert!(is_stale_scroll_cache(true, Some("png"), &name, Some((86401, 0))));
    assert!(!is_stale_scroll_cache(true, Some("png"), &name, Some((86400, 0))));
    assert!(is_stale_scroll_cache(true, Some("png"), &name, Some((86400, 1))));
    assert!(!is_stale_scroll_cache(true, Some("PNG"), &name, Some((90000, 0))));
    assert!(!is_stale_scroll_cache(false, Some("png"), &name, Some((90000, 0))));
    assert!(!is_stale_scroll_cache(true, Some("png"), "other.png", Some((90000, 0))));
    assert!(!is_stale_scroll_cache(true, Some("png"), &name, None));
}

#[test]
fn finishing_a_scrolling_session() {
    let mut s: OverlayState<()> = OverlayState::new();
    s.is_scrolling = true;
    let mut session = Some(Stitcher::new(RgbaFrame::new(1, 1)));
    let img = finish_scrolling(&mut s, &mut session).unwrap();
    assert_eq!(img.dimensions(), (1, 1));
    assert!(!s.is_scrolling);
    assert!(session.is_none());
    match finish_scrolling(&mut s, &mut session) {
        Err(e) => assert_eq!(e, "No active scrolling session"),
        Ok(_) => panic!("a stopped session has no image"),
    }
}

#[test]
fn monitor_description() {
    let mut device: Vec<u16> = "\\\\.\\DISPLAY1".encode_utf16().collect();
    device.resize(32, 0);
    let m = monitor_info(&device, rect(0, 0, 1920, 1080), 1, 144, 144);
    assert_eq!(m.name, "\\\\.\\DISPLAY1");
    assert!(m.is_primary);
    assert_eq!((m.dpi_x, m.dpi_y), (144, 144));
    assert_eq!(m.rect, rect(0, 0, 1920, 1080));
    let other = monitor_info(&device, rect(1920, 0, 3840, 1080), 0, 96, 96);
    assert!(!other.is_primary);
    assert_eq!(trim_nul("\0\0a\0b\0"), "a\0b");
}

#[test]
fn windows_kept_as_snap_targets() {
    assert!(keep_window(true, false, Some(rect(0, 0, 11, 11))));
    assert!(!keep_window(true, false, Some(rect(0, 0, 10, 50))));
    assert!(!keep_window(false, false, Some(rect(0, 0, 100, 100))));
    assert!(!keep_window(true, true, Some(rect(0, 0, 100, 100))));
    assert!(!keep_window(true, false, None));
}

#[test]
fn decisions_on_lowercased_text() {
    assert!(is_jpeg_name("jpg"));
    assert!(is_jpeg_name("jpeg"));
    assert!(!is_jpeg_name("JPG"));
    assert_eq!(complete_file_name("Shot.PNG".to_string(), "shot.png", "png"), "Shot.PNG");
    assert_eq!(complete_file_name("Shot".to_string(), "shot", "png"), "Shot.png");
    let m = monitor_from_name("DISPLAY2\0\0", Rect { left: 0, top: 0, right: 10, bottom: 10 }, 3, 96, 120);
    assert_eq!(m.name, "DISPLAY2");
    assert!(m.is_primary);
    assert_eq!((m.dpi_x, m.dpi_y), (96, 120));
}

#[test]
fn pinned_capture_data_url() {
    let bgra = rows(&[[0, 0, 255, 255]]);
    let url = bgra_png_data_url(bgra, 1, 1).unwrap();
    assert!(url.starts_with("data:image/png;base64,"));
    let png = base64::Engine::decode(&base64::engine::general_purpose::STANDARD, &url["data:image/png;base64,".len()..]).unwrap();
    let decoded = image::load_from_memory(&png).unwrap().to_rgba8();
    assert_eq!(decoded.into_raw(), vec![255, 0, 0, 255]);
}

#[test]
fn mosaic_colour_sampling() {
    let data = rows(&[[1, 2, 3, 4], [5, 6, 7, 8], [9, 10, 11, 12], [13, 14, 15, 16]]);
    assert_eq!(sample_rgba(&data, 2, 2, 1, 0), 0x08050607);
    assert_eq!(sample_rgba(&data, 2, 2, 0, 1), 0x0C090A0B);
    assert_eq!(sample_rgba(&data, 2, 2, 2, 0), 0xFF808080);
    assert_eq!(sample_rgba(&data, 2, 2, -1, 0), 0xFF808080);
    assert_eq!(sample_rgba(&data[..12], 2, 2, 1, 1), 0xFF808080);
    let cache = [10u32, 11, 12, 13, 14];
    assert_eq!(sample_cached(&cache, 2, 1, 1), Some(13));
    assert_eq!(sample_cached(&cache, 2, 0, 2), Some(14));
    assert_eq!(sample_cached(&cache, 2, 1, 2), None);
    assert_eq!(sample_cached(&cache, 2, 2, 0), None);
}

#[test]
fn capture_stream_keys() {
    assert_eq!(nexspot::desktop::stream_id(Some(65537), 0), "65537");
    assert_eq!(nexspot::desktop::stream_id(Some(-3), 0), "-3");
    assert_eq!(nexspot::desktop::stream_id(None, 2), "idx_2");
}

#[test]
fn encoders_refuse_empty_images() {
    assert!(encode_bgra(Vec::new(), 0, 0, EncodeFormat::Png, 90).is_err());
    assert!(encode_bgra(Vec::new(), 0, 0, EncodeFormat::Jpeg, 90).is_err());
    assert!(encode_rgba(Vec::new(), 0, 5, EncodeFormat::Png, 90).is_err());
    assert!(bgra_png_data_url(Vec::new(), 3, 0).is_err());
    assert!(encode_bgra(vec![1, 2, 3, 255], 1, 1, EncodeFormat::Jpeg, 90).is_ok());
    assert!(encode_rgba(vec![1, 2, 3, 255], 1, 1, EncodeFormat::Png, 90).is_ok());
}
