//! Decisions around a capture: which region a snapshot covers, cutting it
//! out of the rendered canvas, which engine a workflow asks for, and the
//! guard against overlapping captures.
use vstd::prelude::*;
use crate::geometry::Rect;
use crate::types::CaptureEngine;
use crate::overlay::OverlayState;

verus! {

/// Why a snapshot cannot be rendered.
#[derive(Clone, Copy, Debug, PartialEq, Eq, Structural)]
pub enum CaptureError {
    /// The selection has no area.
    InvalidSelectionSize,
    /// Neither a rendered background nor a captured bitmap is at hand.
    NoSourceBitmap,
}

/// The user-facing message of a capture error.
pub open spec fn capture_error_message(e: CaptureError) -> Seq<char> {
    match e {
        CaptureError::InvalidSelectionSize => "Invalid selection size"@,
        CaptureError::NoSourceBitmap => "No source bitmap available"@,
    }
}

impl CaptureError {
    /// The user-facing message.
    pub fn message(&self) -> (m: String)
        ensures
            m@ == capture_error_message(*self),
    {
        match self {
            CaptureError::InvalidSelectionSize => String::from_str("Invalid selection size"),
            CaptureError::NoSourceBitmap => String::from_str("No source bitmap available"),
        }
    }
}

/// What a snapshot is rendered from.
#[derive(Clone, Copy, Debug, PartialEq, Eq, Structural)]
pub enum SnapshotSource {
    /// The annotated scene, rendered by the GPU renderer.
    RenderedScene,
    /// The GPU renderer's background image, annotated with GDI.
    RendererBackground,
    /// The bright GDI capture, annotated with GDI.
    BrightBitmap,
}

/// The source a snapshot is rendered from: the GPU scene when the WGC
/// engine captured and its renderer is up; otherwise the renderer's
/// background image if there is one, else the bright GDI bitmap; with
/// neither there is nothing to render.
pub open spec fn source_for(
    engine: CaptureEngine,
    has_renderer: bool,
    has_background: bool,
    has_bright_bitmap: bool,
) -> Result<SnapshotSource, CaptureError> {
    if engine == CaptureEngine::Wgc && has_renderer {
        Ok(SnapshotSource::RenderedScene)
    } else if has_background {
        Ok(SnapshotSource::RendererBackground)
    } else if has_bright_bitmap {
        Ok(SnapshotSource::BrightBitmap)
    } else {
        Err(CaptureError::NoSourceBitmap)
    }
}

/// Chooses what a snapshot is rendered from (see [`source_for`]).
pub fn snapshot_source(
    engine: CaptureEngine,
    has_renderer: bool,
    has_background: bool,
    has_bright_bitmap: bool,
) -> (r: Result<SnapshotSource, CaptureError>)
    ensures
        r == source_for(engine, has_renderer, has_background, has_bright_bitmap),
{
    if engine == CaptureEngine::Wgc && has_renderer {
        Ok(SnapshotSource::RenderedScene)
    } else if has_background {
        Ok(SnapshotSource::RendererBackground)
    } else if has_bright_bitmap {
        Ok(SnapshotSource::BrightBitmap)
    } else {
        Err(CaptureError::NoSourceBitmap)
    }
}

/// The region a snapshot covers: the selection, or the whole canvas when
/// nothing is selected.
pub open spec fn snapshot_rect(selection: Option<Rect>, canvas_w: i32, canvas_h: i32) -> Rect {
    match selection {
        Some(r) => r,
        None => Rect { left: 0, top: 0, right: canvas_w, bottom: canvas_h },
    }
}

/// The region of a snapshot with its width and height; an error when it
/// has no area.
pub fn snapshot_region(selection: Option<Rect>, canvas_w: i32, canvas_h: i32) -> (r: Result<(Rect, i32, i32), CaptureError>)
    requires
        ({
            let s = snapshot_rect(selection, canvas_w, canvas_h);
            i32::MIN <= s.right - s.left <= i32::MAX && i32::MIN <= s.bottom - s.top <= i32::MAX
        }),
    ensures
        ({
            let s = snapshot_rect(selection, canvas_w, canvas_h);
            if s.right - s.left <= 0 || s.bottom - s.top <= 0 {
                r == Err::<(Rect, i32, i32), CaptureError>(CaptureError::InvalidSelectionSize)
            } else {
                r == Ok::<(Rect, i32, i32), CaptureError>((s, (s.right - s.left) as i32, (s.bottom - s.top) as i32))
            }
        }),
{
    let sel = match selection {
        Some(r) => r,
        None => Rect { left: 0, top: 0, right: canvas_w, bottom: canvas_h },
    };
    let width = sel.right - sel.left;
    let height = sel.bottom - sel.top;
    if width <= 0 || height <= 0 {
        return Err(CaptureError::InvalidSelectionSize);
    }
    Ok((sel, width, height))
}

/// Row `y` of a `width`-pixel crop whose top-left corner is canvas pixel
/// `(left, top)`: the canvas bytes when the row lies on the canvas (and the
/// buffer holds it), transparent black otherwise.
pub open spec fn crop_row(full: Seq<u8>, canvas_w: int, canvas_h: int, left: int, top: int, width: int, y: int) -> Seq<u8> {
    let src_y = top + y;
    let start = src_y * (canvas_w * 4) + left * 4;
    if src_y >= 0 && src_y < canvas_h && left >= 0 && start + width * 4 <= full.len() {
        full.subrange(start, start + width * 4)
    } else {
        Seq::new((width * 4) as nat, |i: int| 0u8)
    }
}

/// The first `rows` rows of the crop, top to bottom.
pub open spec fn crop_rows(full: Seq<u8>, canvas_w: int, canvas_h: int, left: int, top: int, width: int, rows: int) -> Seq<u8>
    decreases rows,
{
    if rows <= 0 {
        Seq::empty()
    } else {
        crop_rows(full, canvas_w, canvas_h, left, top, width, rows - 1) + crop_row(full, canvas_w, canvas_h, left, top, width, rows - 1)
    }
}

proof fn lemma_crop_rows_len(full: Seq<u8>, canvas_w: int, canvas_h: int, left: int, top: int, width: int, rows: int)
    requires
        width >= 0,
        rows >= 0,
        canvas_w >= 0,
    ensures
        crop_rows(full, canvas_w, canvas_h, left, top, width, rows).len() == rows * width * 4,
    decreases rows,
{
    if rows > 0 {
        lemma_crop_rows_len(full, canvas_w, canvas_h, left, top, width, rows - 1);
        let src_y = top + rows - 1;
        if src_y >= 0 {
            assert(src_y * (canvas_w * 4) >= 0) by (nonlinear_arith)
                requires
                    src_y >= 0,
                    canvas_w >= 0,
            ;
        }
        assert(crop_row(full, canvas_w, canvas_h, left, top, width, rows - 1).len() == width * 4);
        assert((rows - 1) * width * 4 + width * 4 == rows * width * 4) by (nonlinear_arith);
        assert(crop_rows(full, canvas_w, canvas_h, left, top, width, rows) == crop_rows(full, canvas_w, canvas_h, left, top, width, rows - 1)
            + crop_row(full, canvas_w, canvas_h, left, top, width, rows - 1));
    } else {
        assert(rows * width * 4 == 0) by (nonlinear_arith)
            requires
                rows == 0,
        ;
    }
}

/// A crop of `width` x `rows` pixels taken at canvas pixel `(left, top)`:
/// byte `c` of crop pixel `(i, j)` is byte `c` of canvas pixel
/// `(left + i, top + j)` when that crop row lies on the canvas (inside the
/// buffer), and 0 otherwise.
pub proof fn lemma_crop_pixels(
    full: Seq<u8>,
    canvas_w: int,
    canvas_h: int,
    left: int,
    top: int,
    width: int,
    rows: int,
    i: int,
    j: int,
    c: int,
)
    requires
        width >= 0,
        canvas_w >= 0,
        0 <= i < width,
        0 <= j < rows,
        0 <= c < 4,
    ensures
        crop_rows(full, canvas_w, canvas_h, left, top, width, rows).len() == rows * width * 4,
        crop_rows(full, canvas_w, canvas_h, left, top, width, rows)[(j * width + i) * 4 + c] == if 0 <= top
            + j < canvas_h && left >= 0 && ((top + j) * canvas_w + left + width) * 4 <= full.len() {
            full[((top + j) * canvas_w + left + i) * 4 + c]
        } else {
            0u8
        },
    decreases rows,
{
    lemma_crop_rows_len(full, canvas_w, canvas_h, left, top, width, rows);
    lemma_crop_rows_len(full, canvas_w, canvas_h, left, top, width, rows - 1);
    let prefix = crop_rows(full, canvas_w, canvas_h, left, top, width, rows - 1);
    let last = crop_row(full, canvas_w, canvas_h, left, top, width, rows - 1);
    let p = (j * width + i) * 4 + c;
    if j < rows - 1 {
        assert(p < (rows - 1) * width * 4) by (nonlinear_arith)
            requires
                p == (j * width + i) * 4 + c,
                0 <= i < width,
                0 <= j < rows - 1,
                0 <= c < 4,
        ;
        assert(0 <= p) by (nonlinear_arith)
            requires
                p == (j * width + i) * 4 + c,
                0 <= i,
                0 <= j,
                0 <= c,
                width >= 0,
        ;
        lemma_crop_pixels(full, canvas_w, canvas_h, left, top, width, rows - 1, i, j, c);
        assert(crop_rows(full, canvas_w, canvas_h, left, top, width, rows)[p] == prefix[p]);
    } else {
        assert(p - (rows - 1) * width * 4 == i * 4 + c) by (nonlinear_arith)
            requires
                p == (j * width + i) * 4 + c,
                j == rows - 1,
        ;
        assert(crop_rows(full, canvas_w, canvas_h, left, top, width, rows)[p] == last[i * 4 + c]);
        let start = (top + j) * (canvas_w * 4) + left * 4;
        assert(start + i * 4 + c == ((top + j) * canvas_w + left + i) * 4 + c
            && start + width * 4 == ((top + j) * canvas_w + left + width) * 4) by (nonlinear_arith)
            requires
                start == (top + j) * (canvas_w * 4) + left * 4,
        ;
    }
}

/// Cuts `sel` (virtual-screen coordinates) out of a rendered canvas whose
/// origin is `(cap_x, cap_y)`; rows outside the canvas come out
/// transparent, so the result always has `width * height * 4` bytes.
pub fn crop_canvas(full_pixels: &[u8], canvas_w: i32, canvas_h: i32, sel: Rect, cap_x: i32, cap_y: i32) -> (cp: Vec<u8>)
    requires
        0 <= canvas_w,
        canvas_w * 4 <= i32::MAX,
        sel.right - sel.left > 0,
        sel.bottom - sel.top > 0,
        sel.right - sel.left <= i32::MAX,
        sel.bottom - sel.top <= i32::MAX,
        i32::MIN <= sel.left - cap_x <= i32::MAX,
        i32::MIN <= sel.top - cap_y <= i32::MAX,
        (sel.right - sel.left) * (sel.bottom - sel.top) * 4 <= usize::MAX,
    ensures
        cp@ == crop_rows(full_pixels@, canvas_w as int, canvas_h as int, sel.left - cap_x, sel.top - cap_y,
            sel.right - sel.left, sel.bottom - sel.top),
        cp@.len() == (sel.right - sel.left) * (sel.bottom - sel.top) * 4,
{
    let width = sel.right - sel.left;
    let height = sel.bottom - sel.top;
    let ghost w = width as int;
    let ghost h = height as int;
    assert(w * 4 <= w * h * 4) by (nonlinear_arith)
        requires h >= 1, w >= 0;
    let row_bytes: usize = width as usize * 4;
    let stride: u64 = canvas_w as u64 * 4;
    let local_left = sel.left - cap_x;
    let local_top = sel.top - cap_y;
    let len = full_pixels.len();
    let ghost full = full_pixels@;

    let mut cp: Vec<u8> = Vec::new();
    let mut y: i32 = 0;
    while y < height
        invariant
            0 <= y <= height,
            len == full.len(),
            full == full_pixels@,
            row_bytes == w * 4,
            w == width,
            h == height,
            w * h * 4 <= usize::MAX,
            stride == canvas_w * 4,
            0 <= canvas_w,
            canvas_w * 4 <= i32::MAX,
            local_left == sel.left - cap_x,
            local_top == sel.top - cap_y,
            cp@ == crop_rows(full, canvas_w as int, canvas_h as int, local_left as int, local_top as int, w, y as int),
            cp@.len() == y * w * 4,
        decreases height - y,
    {
        let src_y: i64 = local_top as i64 + y as i64;
        let ghost row = crop_row(full, canvas_w as int, canvas_h as int, local_left as int, local_top as int, w, y as int);
        assert((y + 1) * w * 4 <= w * h * 4) by (nonlinear_arith)
            requires y + 1 <= h, w >= 0;
        assert((y + 1) * w * 4 == y * w * 4 + w * 4) by (nonlinear_arith);
        let mut wrote = false;
        if src_y >= 0 && src_y < canvas_h as i64 && local_left >= 0 {
            assert(src_y * stride <= 0x7FFF_FFFF * 0x7FFF_FFFF) by (nonlinear_arith)
                requires 0 <= src_y <= 0x7FFF_FFFF, 0 <= stride <= 0x7FFF_FFFF;
            let row_start: u64 = src_y as u64 * stride + local_left as u64 * 4;
            if row_start + (row_bytes as u64) <= len as u64 {
                let start = row_start as usize;
                let mut i: usize = 0;
                let ghost before = cp@;
                while i < row_bytes
                    invariant
                        0 <= i <= row_bytes,
                        start + row_bytes <= len,
                        len == full.len(),
                        full == full_pixels@,
                        cp@ == before + full.subrange(start as int, start + i),
                    decreases row_bytes - i,
                {
                    cp.push(full_pixels[start + i]);
                    assert(full.subrange(start as int, start + i + 1) =~= full.subrange(start as int, start + i).push(full[start + i]));
                    i = i + 1;
                }
                assert(row == full.subrange(start as int, start + row_bytes));
                wrote = true;
            }
        }
        if !wrote {
            // a row off the canvas is transparent
            let mut i: usize = 0;
            let ghost before = cp@;
            while i < row_bytes
                invariant
                    0 <= i <= row_bytes,
                    cp@ == before + Seq::new(i as nat, |k: int| 0u8),
                decreases row_bytes - i,
            {
                cp.push(0u8);
                assert(Seq::new((i + 1) as nat, |k: int| 0u8) =~= Seq::new(i as nat, |k: int| 0u8).push(0u8));
                i = i + 1;
            }
            assert(row =~= Seq::new(row_bytes as nat, |k: int| 0u8));
        }
        assert(crop_rows(full, canvas_w as int, canvas_h as int, local_left as int, local_top as int, w, y + 1)
            == crop_rows(full, canvas_w as int, canvas_h as int, local_left as int, local_top as int, w, y as int) + row);
        y = y + 1;
    }
    assert(y * w * 4 == w * h * 4) by (nonlinear_arith)
        requires y == h;
    cp
}

/// The engine a workflow names: "vello" selects Windows Graphics Capture,
/// anything else GDI.
pub fn capture_engine_for(engine: &str) -> (e: CaptureEngine)
    ensures
        e == (if engine@ == "vello"@ { CaptureEngine::Wgc } else { CaptureEngine::Gdi }),
{
    let s = String::from_str(engine);
    let v = String::from_str("vello");
    if s == v {
        CaptureEngine::Wgc
    } else {
        CaptureEngine::Gdi
    }
}

impl<X> OverlayState<X> {
    /// Starts a capture unless the overlay is showing or a capture is
    /// already running; returns whether it started.
    pub fn try_begin_capture(&mut self) -> (started: bool)
        ensures
            started == !(old(self).is_visible || old(self).is_capturing),
            *final(self) == (OverlayState {
                is_capturing: started || old(self).is_capturing,
                ..*old(self)
            }),
    {
        if self.is_visible || self.is_capturing {
            return false;
        }
        self.is_capturing = true;
        true
    }

    /// Ends a capture, once it has failed or the overlay shows its result:
    /// a new capture may start. Nothing else changes.
    pub fn finish_capture(&mut self)
        ensures
            *final(self) == (OverlayState { is_capturing: false, ..*old(self) }),
    {
        self.is_capturing = false;
    }
}

} // verus!
