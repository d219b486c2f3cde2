use std::collections::HashMap;

use nexspot::capture::{snapshot_source, CaptureError, SnapshotSource};
use nexspot::desktop::monitor_stream_keys;
use nexspot::mosaic::{mosaic_colour, process_mosaic_pending_points, MosaicBackdrop};
use nexspot::overlay::OverlayState;
use nexspot::types::CaptureEngine;

/// The brush as written with floating-point block centres.
fn reference(
    blocks: &mut HashMap<(i32, i32), u32>,
    pending: &[(i32, i32)],
    mut last: Option<(i32, i32)>,
    block_size: i32,
    sample: &dyn Fn(f64, f64) -> u32,
) -> Option<(i32, i32)> {
    let bs = block_size as f64;
    let radius = bs * 1.5;
    for &p1 in pending {
        let mut subs = vec![p1];
        if let Some(p0) = last {
            let dx = p1.0 - p0.0;
            let dy = p1.1 - p0.1;
            let d = ((dx * dx + dy * dy) as f64).sqrt();
            if d > 2.0 {
                let steps = (d / 2.0) as i32;
                for step in 1..steps {
                    subs.push((p0.0 + dx * step / steps, p0.1 + dy * step / steps));
                }
            }
        }
        last = Some(p1);
        for p in subs {
            let (px, py) = (p.0 as f64, p.1 as f64);
            for gx in ((px - radius) / bs).floor() as i32..=((px + radius) / bs).floor() as i32 {
                for gy in ((py - radius) / bs).floor() as i32..=((py + radius) / bs).floor() as i32 {
                    let cx = gx as f64 * bs + bs / 2.0;
                    let cy = gy as f64 * bs + bs / 2.0;
                    if (cx - px).powi(2) + (cy - py).powi(2) <= radius * radius && !blocks.contains_key(&(gx, gy)) {
                        blocks.insert((gx, gy), sample(cx, cy));
                    }
                }
            }
        }
    }
    last
}

fn image(w: i32, h: i32) -> Vec<u8> {
    let mut v = Vec::new();
    for y in 0..h {
        for x in 0..w {
            v.extend_from_slice(&[(x % 256) as u8, (y % 256) as u8, 7, 255]);
        }
    }
    v
}

#[test]
fn one_point_brushes_the_blocks_around_it() {
    let mut blocks = Vec::new();
    let mut pending = vec![(10, 10)];
    let mut last = None;
    let backdrop = MosaicBackdrop { rgba: None, cached: None, canvas_width: 0 };
    let n = process_mosaic_pending_points(&mut blocks, &mut pending, &mut last, 6, 10, &backdrop);
    assert_eq!(n, 1);
    assert!(pending.is_empty());
    assert_eq!(last, Some((10, 10)));
    let mut cells: Vec<(i32, i32)> = blocks.iter().map(|b| b.0).collect();
    cells.sort();
    assert_eq!(cells, vec![(0, 1), (0, 2), (1, 0), (1, 1), (1, 2), (2, 0), (2, 1), (2, 2)]);
    assert!(blocks.iter().all(|b| b.1 == 0xFF80_8080));
}

#[test]
fn brush_matches_the_floating_point_stroke() {
    let (w, h) = (300, 200);
    let px = image(w, h);
    for &bs in &[6, 10, 16] {
        let backdrop = MosaicBackdrop { rgba: Some((&px, w, h)), cached: None, canvas_width: w };
        let strokes = vec![(5, 5), (6, 6), (40, 17), (41, 80), (-20, 120), (250, 199), (250, 199), (251, 150)];
        let mut blocks = vec![((0, 0), 42u32)];
        let mut pending = strokes.clone();
        let mut last = Some((0, 0));
        let mut total = 0;
        while !pending.is_empty() {
            total += process_mosaic_pending_points(&mut blocks, &mut pending, &mut last, bs, 3, &backdrop);
        }
        assert_eq!(total, strokes.len());
        let mut expect = HashMap::new();
        expect.insert((0, 0), 42u32);
        let sample = |x: f64, y: f64| nexspot::pixels::sample_rgba(&px, w, h, x.round() as i32, y.round() as i32);
        let end = reference(&mut expect, &strokes, Some((0, 0)), bs, &sample);
        assert_eq!(last, end);
        let got: HashMap<(i32, i32), u32> = blocks.iter().cloned().collect();
        assert_eq!(got.len(), blocks.len());
        assert_eq!(got, expect);
        assert_eq!(blocks[0], ((0, 0), 42));
    }
}

#[test]
fn processing_is_limited_per_call() {
    let backdrop = MosaicBackdrop { rgba: None, cached: Some(&[1, 2, 3, 4]), canvas_width: 2 };
    let mut blocks = Vec::new();
    let mut pending = vec![(1, 1), (2, 2), (3, 3)];
    let mut last = None;
    assert_eq!(process_mosaic_pending_points(&mut blocks, &mut pending, &mut last, 10, 2, &backdrop), 2);
    assert_eq!(pending, vec![(3, 3)]);
    assert_eq!(last, Some((2, 2)));
    assert_eq!(process_mosaic_pending_points(&mut blocks, &mut pending, &mut last, 10, 0, &backdrop), 0);
    assert_eq!(last, Some((2, 2)));
    assert_eq!(mosaic_colour(&backdrop, 1, 1), 4);
    assert_eq!(mosaic_colour(&backdrop, 2, 0), 0xFF80_8080);
    let b = blocks.iter().find(|b| b.0 == (0, 0)).unwrap();
    assert_eq!(b.1, 0xFF80_8080);
}

#[test]
fn capture_monitors_are_keyed_by_their_gdi_handle() {
    let keys = monitor_stream_keys(&vec![65537, 99, -5], &vec![-5, 65537]);
    assert_eq!(keys, vec!["65537", "idx_1", "-5"]);
    assert!(monitor_stream_keys(&vec![], &vec![1]).is_empty());
}

#[test]
fn snapshot_sources() {
    assert_eq!(snapshot_source(CaptureEngine::Wgc, true, false, false), Ok(SnapshotSource::RenderedScene));
    assert_eq!(snapshot_source(CaptureEngine::Wgc, false, true, true), Ok(SnapshotSource::RendererBackground));
    assert_eq!(snapshot_source(CaptureEngine::Gdi, true, false, true), Ok(SnapshotSource::BrightBitmap));
    assert_eq!(snapshot_source(CaptureEngine::Gdi, true, false, false), Err(CaptureError::NoSourceBitmap));
    assert_eq!(CaptureError::NoSourceBitmap.message(), "No source bitmap available");
}

#[test]
fn a_finished_capture_allows_the_next() {
    let mut s: OverlayState<()> = OverlayState::new();
    assert!(s.try_begin_capture());
    assert!(!s.try_begin_capture());
    s.mouse_x = 3;
    s.finish_capture();
    assert!(!s.is_capturing);
    assert_eq!(s.mouse_x, 3);
    assert!(s.try_begin_capture());
}
