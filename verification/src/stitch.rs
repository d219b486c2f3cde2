//! Scrolling-capture stitching: each new frame is matched against the
//! bottom strip of the image so far, and the rows below the match are
//! appended.
use vstd::prelude::*;

verus! {

/// An 8-bit RGBA image, row-major, 4 bytes per pixel.
pub struct RgbaFrame {
    width: u32,
    height: u32,
    raw: Vec<u8>,
}

/// The abstract content of an [`RgbaFrame`].
pub struct RgbaFrameView {
    pub width: u32,
    pub height: u32,
    pub raw: Seq<u8>,
}

impl View for RgbaFrame {
    type V = RgbaFrameView;

    closed spec fn view(&self) -> RgbaFrameView {
        RgbaFrameView { width: self.width, height: self.height, raw: self.raw@ }
    }
}

/// Number of bytes of a `width` x `height` RGBA image.
pub open spec fn rgba_len(width: int, height: int) -> int {
    width * height * 4
}

impl RgbaFrame {
    #[verifier::type_invariant]
    spec fn inv(&self) -> bool {
        self.raw@.len() == rgba_len(self.width as int, self.height as int)
    }

    /// Wraps row-major RGBA bytes; `None` unless there are exactly
    /// `width * height * 4` of them.
    pub fn from_raw(width: u32, height: u32, raw: Vec<u8>) -> (r: Option<RgbaFrame>)
        ensures
            match r {
                Some(f) => f@ == (RgbaFrameView { width, height, raw: raw@ }),
                None => raw@.len() != rgba_len(width as int, height as int),
            },
    {
        let w = width as u64;
        let h = height as u64;
        assert(w * h <= 0xFFFF_FFFF * 0xFFFF_FFFF) by (nonlinear_arith)
            requires w <= 0xFFFF_FFFF, h <= 0xFFFF_FFFF;
        let wh = w * h;
        let len = raw.len() as u64;
        if wh > 0x3FFF_FFFF_FFFF_FFFF {
            return None;
        }
        let need = wh * 4;
        if len == need {
            Some(RgbaFrame { width, height, raw })
        } else {
            None
        }
    }

    /// A fully transparent black image.
    pub fn new(width: u32, height: u32) -> (r: RgbaFrame)
        requires
            rgba_len(width as int, height as int) <= usize::MAX,
        ensures
            r@.width == width,
            r@.height == height,
            r@.raw == Seq::new(rgba_len(width as int, height as int) as nat, |i: int| 0u8),
    {
        assert(width as int * height as int * 4 <= usize::MAX);
        let n = (width as usize) * (height as usize) * 4;
        let mut raw: Vec<u8> = Vec::new();
        let mut i: usize = 0;
        while i < n
            invariant
                0 <= i <= n,
                raw@ == Seq::new(i as nat, |k: int| 0u8),
            decreases n - i,
        {
            raw.push(0u8);
            assert(raw@ =~= Seq::new((i + 1) as nat, |k: int| 0u8));
            i = i + 1;
        }
        RgbaFrame { width, height, raw }
    }

    /// `(width, height)` in pixels.
    pub fn dimensions(&self) -> (r: (u32, u32))
        ensures
            r == (self@.width, self@.height),
    {
        (self.width, self.height)
    }

    /// The row-major RGBA bytes.
    pub fn as_raw(&self) -> (r: &Vec<u8>)
        ensures
            r@ == self@.raw,
            r@.len() == rgba_len(self@.width as int, self@.height as int),
    {
        proof {
            use_type_invariant(self);
        }
        &self.raw
    }

    /// Gives back the row-major RGBA bytes.
    pub fn into_raw(self) -> (r: Vec<u8>)
        ensures
            r@ == self@.raw,
            r@.len() == rgba_len(self@.width as int, self@.height as int),
    {
        proof {
            use_type_invariant(&self);
        }
        self.raw
    }
}


/// `|a - b|` for two bytes.
pub open spec fn byte_dist(a: u8, b: u8) -> int {
    if a >= b { a - b } else { b - a }
}

/// Sum of byte distances between `a[a0..a0+n]` and `b[b0..b0+n]`.
pub open spec fn span_diff(a: Seq<u8>, a0: int, b: Seq<u8>, b0: int, n: int) -> int
    decreases n,
{
    if n <= 0 {
        0
    } else {
        span_diff(a, a0, b, b0, n - 1) + byte_dist(a[a0 + n - 1], b[b0 + n - 1])
    }
}

/// Sum of absolute differences between the `h` rows of `old` starting at
/// row `old_y` and those of `new` starting at row `new_y` (`row` bytes per
/// row).
pub open spec fn strip_diff(old: Seq<u8>, new: Seq<u8>, new_y: int, old_y: int, h: int, row: int) -> int
    decreases h,
{
    if h <= 0 {
        0
    } else {
        strip_diff(old, new, new_y, old_y, h - 1, row) + span_diff(
            old,
            (old_y + h - 1) * row,
            new,
            (new_y + h - 1) * row,
            row,
        )
    }
}

proof fn lemma_span_diff_bound(a: Seq<u8>, a0: int, b: Seq<u8>, b0: int, n: int)
    requires
        n >= 0,
    ensures
        0 <= span_diff(a, a0, b, b0, n) <= 255 * n,
    decreases n,
{
    if n > 0 {
        lemma_span_diff_bound(a, a0, b, b0, n - 1);
    }
}

proof fn lemma_strip_diff_bound(old: Seq<u8>, new: Seq<u8>, new_y: int, old_y: int, h: int, row: int)
    requires
        h >= 0,
        row >= 0,
    ensures
        0 <= strip_diff(old, new, new_y, old_y, h, row) <= 255 * h * row,
    decreases h,
{
    if h > 0 {
        lemma_strip_diff_bound(old, new, new_y, old_y, h - 1, row);
        lemma_span_diff_bound(old, (old_y + h - 1) * row, new, (new_y + h - 1) * row, row);
        assert(255 * (h - 1) * row + 255 * row == 255 * h * row) by (nonlinear_arith);
    }
}

/// Tallest image a scrolling capture may grow to.
pub open spec fn max_stitch_height() -> int {
    20_000
}

/// The result of comparing frame rows `c, c+1, ...` with the template,
/// keeping the best (lowest, first) match so far: the search stops at the
/// first candidate whose difference is below the confidence threshold.
pub open spec fn best_match(
    old: Seq<u8>,
    new: Seq<u8>,
    template_y: int,
    template_h: int,
    width: int,
    c: int,
    limit: int,
    best_y: int,
    min_diff: int,
) -> (int, int)
    decreases limit - c,
{
    if c >= limit {
        (best_y, min_diff)
    } else {
        let d = strip_diff(old, new, c, template_y, template_h, width * 4);
        let (b2, m2) = if d < min_diff { (c, d) } else { (best_y, min_diff) };
        if d < width * template_h * 2 {
            (b2, m2)
        } else {
            best_match(old, new, template_y, template_h, width, c + 1, limit, b2, m2)
        }
    }
}

/// Why a frame cannot be stitched.
#[derive(Clone, Copy, Debug, PartialEq, Eq, Structural)]
pub enum StitchError {
    /// The image has reached the maximum height.
    MaxHeightReached,
    /// The frame is not as wide as the image.
    WidthMismatch,
}

impl StitchError {
    /// The user-facing message.
    pub fn message(&self) -> (m: String)
        ensures
            m@ == (match self {
                StitchError::MaxHeightReached => "Maximum height reached for scrolling capture"@,
                StitchError::WidthMismatch => "Frame width mismatch"@,
            }),
    {
        match self {
            StitchError::MaxHeightReached => String::from_str("Maximum height reached for scrolling capture"),
            StitchError::WidthMismatch => String::from_str("Frame width mismatch"),
        }
    }
}

/// Stitches the frames of a scrolling capture into one tall image.
pub struct Stitcher {
    pub current_image: RgbaFrame,
}

/// What stitching `new` onto `cur` returns, and the image afterwards.
pub open spec fn stitch_outcome(cur: RgbaFrameView, new: RgbaFrameView) -> (Result<u32, StitchError>, RgbaFrameView) {
    if cur.height >= max_stitch_height() {
        (Err(StitchError::MaxHeightReached), cur)
    } else if cur.width != new.width {
        (Err(StitchError::WidthMismatch), cur)
    } else {
        let w = cur.width as int;
        let th = if cur.height < 64 { cur.height as int } else { 64 };
        let ty = cur.height - th;
        let (by, md) = best_match(cur.raw, new.raw, ty, th, w, 0, new.height - th, 0, u64::MAX as int);
        if md > w * th * 80 {
            (Ok(0), cur)
        } else {
            let nc = new.height - (by + th);
            if nc == 0 {
                (Ok(0), cur)
            } else {
                (
                    Ok(nc as u32),
                    RgbaFrameView {
                        width: cur.width,
                        height: (cur.height + nc) as u32,
                        raw: cur.raw + new.raw.subrange((by + th) * w * 4, new.height * w * 4),
                    },
                )
            }
        }
    }
}

/// Frames for which stitching is defined: 32-bit byte offsets, and a frame
/// at least as tall as the template strip.
pub open spec fn stitch_defined(cur: RgbaFrameView, new: RgbaFrameView) -> bool {
    &&& offsets_fit(cur)
    &&& offsets_fit(new)
    &&& new.height + max_stitch_height() <= u32::MAX
    &&& (cur.height < max_stitch_height() && cur.width == new.width) ==> new.height >= (if cur.height < 64 { cur.height as int } else { 64 })
}

proof fn lemma_best_match_range(
    old: Seq<u8>,
    new: Seq<u8>,
    template_y: int,
    template_h: int,
    width: int,
    c: int,
    limit: int,
    best_y: int,
    min_diff: int,
)
    requires
        c <= limit,
    ensures
        ({
            let (b, m) = best_match(old, new, template_y, template_h, width, c, limit, best_y, min_diff);
            (b == best_y && m == min_diff) || (c <= b < limit)
        }),
    decreases limit - c,
{
    if c < limit {
        let d = strip_diff(old, new, c, template_y, template_h, width * 4);
        let (b2, m2) = if d < min_diff { (c, d) } else { (best_y, min_diff) };
        if !(d < width * template_h * 2) {
            lemma_best_match_range(old, new, template_y, template_h, width, c + 1, limit, b2, m2);
        }
    }
}

proof fn lemma_best_match_found(
    old: Seq<u8>,
    new: Seq<u8>,
    template_y: int,
    template_h: int,
    width: int,
    c: int,
    limit: int,
    best_y: int,
    min_diff: int,
)
    requires
        c <= limit,
    ensures
        ({
            let (b, m) = best_match(old, new, template_y, template_h, width, c, limit, best_y, min_diff);
            (b == best_y && m == min_diff) || (c <= b < limit && m == strip_diff(
                old,
                new,
                b,
                template_y,
                template_h,
                width * 4,
            ))
        }),
    decreases limit - c,
{
    if c < limit {
        let d = strip_diff(old, new, c, template_y, template_h, width * 4);
        let (b2, m2) = if d < min_diff { (c, d) } else { (best_y, min_diff) };
        if !(d < width * template_h * 2) {
            lemma_best_match_found(old, new, template_y, template_h, width, c + 1, limit, b2, m2);
        }
    }
}

proof fn lemma_best_match_first_exact(
    old: Seq<u8>,
    new: Seq<u8>,
    template_y: int,
    template_h: int,
    width: int,
    c: int,
    limit: int,
    best_y: int,
    min_diff: int,
    y: int,
)
    requires
        c <= y < limit,
        min_diff > 0,
        width * template_h * 2 > 0,
        strip_diff(old, new, y, template_y, template_h, width * 4) == 0,
        forall|k: int|
            c <= k < y ==> #[trigger] strip_diff(old, new, k, template_y, template_h, width * 4) >= width
                * template_h * 2,
    ensures
        best_match(old, new, template_y, template_h, width, c, limit, best_y, min_diff) == (y, 0int),
    decreases y - c,
{
    if c < y {
        let d = strip_diff(old, new, c, template_y, template_h, width * 4);
        let (b2, m2) = if d < min_diff { (c, d) } else { (best_y, min_diff) };
        lemma_best_match_first_exact(old, new, template_y, template_h, width, c + 1, limit, b2, m2, y);
    }
}

proof fn lemma_span_diff_zero(a: Seq<u8>, a0: int, b: Seq<u8>, b0: int, n: int)
    requires
        forall|i: int| a0 <= i < a0 + n ==> #[trigger] a[i] == b[i - a0 + b0],
    ensures
        span_diff(a, a0, b, b0, n) == 0,
    decreases n,
{
    if n > 0 {
        lemma_span_diff_zero(a, a0, b, b0, n - 1);
        let i = a0 + n - 1;
        assert(a[i] == b[i - a0 + b0]);
        assert(i - a0 + b0 == b0 + n - 1);
    }
}

proof fn lemma_strip_diff_zero(old: Seq<u8>, new: Seq<u8>, new_y: int, old_y: int, h: int, row: int)
    requires
        row >= 0,
        forall|k: int, i: int|
            0 <= k < h && 0 <= i < row ==> #[trigger] new[(new_y + k) * row + i] == old[(old_y + k) * row + i],
    ensures
        strip_diff(old, new, new_y, old_y, h, row) == 0,
    decreases h,
{
    if h > 0 {
        lemma_strip_diff_zero(old, new, new_y, old_y, h - 1, row);
        let k = h - 1;
        let a0 = (old_y + k) * row;
        let b0 = (new_y + k) * row;
        assert forall|j: int| a0 <= j < a0 + row implies #[trigger] old[j] == new[j - a0 + b0] by {
            let i = j - a0;
            assert(new[(new_y + k) * row + i] == old[(old_y + k) * row + i]);
        }
        lemma_span_diff_zero(old, (old_y + h - 1) * row, new, (new_y + h - 1) * row, row);
    }
}

/// The number of rows of the template strip: 64, or the whole image when
/// it is shorter.
pub open spec fn template_rows(height: u32) -> int {
    if height < 64 {
        height as int
    } else {
        64
    }
}

/// The template strip is the bottom of the image: when a frame adds rows,
/// the frame rows just above the added ones match the last
/// `min(64, height)` rows of the image within the confidence bound (an
/// average byte difference of at most 80 per pixel), and exactly the frame
/// rows below them are appended to the image.
pub proof fn lemma_stitch_matches_bottom_strip(cur: RgbaFrameView, new: RgbaFrameView)
    requires
        stitch_defined(cur, new),
    ensures
        ({
            let (res, img) = stitch_outcome(cur, new);
            let w = cur.width as int;
            let th = template_rows(cur.height);
            match res {
                Ok(n) => n > 0 ==> {
                    let y = new.height - n - th;
                    &&& 0 <= y
                    &&& strip_diff(cur.raw, new.raw, y, cur.height - th, th, w * 4) <= w * th * 80
                    &&& img.width == cur.width
                    &&& img.height == cur.height + n
                    &&& img.raw == cur.raw + new.raw.subrange((new.height - n) * w * 4, new.height * w * 4)
                },
                Err(_) => true,
            }
        }),
{
    if cur.height < max_stitch_height() && cur.width == new.width {
        let w = cur.width as int;
        let th = template_rows(cur.height);
        let ty = cur.height - th;
        let limit = new.height - th;
        let (by, md) = best_match(cur.raw, new.raw, ty, th, w, 0, limit, 0, u64::MAX as int);
        assert(w * th * 80 < u64::MAX) by (nonlinear_arith)
            requires
                0 <= w <= u32::MAX,
                0 <= th <= 64,
        ;
        if 0 <= limit {
            lemma_best_match_found(cur.raw, new.raw, ty, th, w, 0, limit, 0, u64::MAX as int);
        }
        if md <= w * th * 80 {
            assert(0 <= limit);
            assert(0 <= by < limit);
            assert(md == strip_diff(cur.raw, new.raw, by, ty, th, w * 4));
        }
    }
}

/// A frame is refused, and the image left as it is, when the image has
/// reached 20000 rows or the frame's width differs; a frame that adds no
/// rows leaves the image as it is.
pub proof fn lemma_stitch_refusals(cur: RgbaFrameView, new: RgbaFrameView)
    ensures
        ({
            let (res, img) = stitch_outcome(cur, new);
            &&& cur.height >= 20000 ==> res == Err::<u32, StitchError>(StitchError::MaxHeightReached) && img == cur
            &&& cur.height < 20000 && cur.width != new.width ==> res == Err::<u32, StitchError>(
                StitchError::WidthMismatch,
            ) && img == cur
            &&& res == Ok::<u32, StitchError>(0) ==> img == cur
        }),
{
    if cur.height < max_stitch_height() && cur.width == new.width {
        let w = cur.width as int;
        let th = template_rows(cur.height);
        let limit = new.height - th;
        if 0 <= limit {
            lemma_best_match_found(cur.raw, new.raw, cur.height - th, th, w, 0, limit, 0, u64::MAX as int);
        }
        assert(w * th * 80 < u64::MAX) by (nonlinear_arith)
            requires
                0 <= w <= u32::MAX,
                0 <= th <= 64,
        ;
    }
}

/// A frame showing the page scrolled on adds exactly the rows below the
/// image: if frame rows `y .. y + min(64, height)` repeat the last rows of
/// the image byte for byte, no earlier frame position matches confidently
/// (a difference of at least 2 per pixel), and rows remain below, the frame
/// adds its last `frame height - y - min(64, height)` rows.
pub proof fn lemma_stitch_scrolled_content(cur: RgbaFrameView, new: RgbaFrameView, y: int)
    requires
        stitch_defined(cur, new),
        cur.height < max_stitch_height(),
        cur.width == new.width,
        cur.width >= 1,
        cur.height >= 1,
        ({
            let th = template_rows(cur.height);
            let row = cur.width * 4;
            &&& 0 <= y
            &&& y + th < new.height
            &&& forall|k: int, i: int|
                0 <= k < th && 0 <= i < row ==> #[trigger] new.raw[(y + k) * row + i] == cur.raw[(cur.height
                    - th + k) * row + i]
            &&& forall|c: int|
                0 <= c < y ==> #[trigger] strip_diff(cur.raw, new.raw, c, cur.height - th, th, row) >= cur.width
                    * th * 2
        }),
    ensures
        ({
            let (res, img) = stitch_outcome(cur, new);
            let th = template_rows(cur.height);
            let n = new.height - y - th;
            &&& res == Ok::<u32, StitchError>(n as u32)
            &&& img.height == cur.height + n
            &&& img.raw == cur.raw + new.raw.subrange((y + th) * cur.width * 4, new.height * cur.width * 4)
        }),
{
    let w = cur.width as int;
    let th = template_rows(cur.height);
    let ty = cur.height - th;
    lemma_strip_diff_zero(cur.raw, new.raw, y, ty, th, w * 4);
    assert(w * th * 2 > 0) by (nonlinear_arith)
        requires
            w >= 1,
            th >= 1,
    ;
    lemma_best_match_first_exact(cur.raw, new.raw, ty, th, w, 0, new.height - th, 0, u64::MAX as int, y);
    assert(w * th * 80 >= 0) by (nonlinear_arith)
        requires
            w >= 1,
            th >= 1,
    ;
}

/// Frame pixel data small enough for 32-bit byte offsets.
pub open spec fn offsets_fit(f: RgbaFrameView) -> bool {
    rgba_len(f.width as int, f.height as int) <= u32::MAX
}

fn frame_offsets_fit(f: &RgbaFrame) -> (r: bool)
    ensures
        r == offsets_fit(f@),
{
    let (w, h) = f.dimensions();
    let w64 = w as u64;
    let h64 = h as u64;
    assert(w64 * h64 <= 0xFFFF_FFFF * 0xFFFF_FFFF) by (nonlinear_arith)
        requires
            w64 <= 0xFFFF_FFFF,
            h64 <= 0xFFFF_FFFF,
    ;
    let wh = w64 * h64;
    if wh > 0x3FFF_FFFF {
        return false;
    }
    wh * 4 <= 0xFFFF_FFFF
}

impl Stitcher {
    /// Whether `new_frame` can be offered to [`Stitcher::add_frame`]: the
    /// frames are small enough for 32-bit byte offsets and, when it would be
    /// matched, the frame is at least as tall as the template strip.
    pub fn can_add(&self, new_frame: &RgbaFrame) -> (r: bool)
        ensures
            r == stitch_defined(self.current_image@, new_frame@),
    {
        if !frame_offsets_fit(&self.current_image) || !frame_offsets_fit(new_frame) {
            return false;
        }
        let (cw, ch) = self.current_image.dimensions();
        let (nw, nh) = new_frame.dimensions();
        if nh as u64 + 20_000 > 0xFFFF_FFFF {
            return false;
        }
        if ch < 20_000 && cw == nw {
            let th = if ch < 64 { ch } else { 64 };
            nh >= th
        } else {
            true
        }
    }

    /// Starts with the first frame.
    pub fn new(first_frame: RgbaFrame) -> (s: Stitcher)
        ensures
            s.current_image@ == first_frame@,
    {
        Stitcher { current_image: first_frame }
    }

    /// Matches the bottom 64 rows of the image (fewer if it is shorter)
    /// against the new frame, top to bottom, and appends the frame's rows
    /// below the best match. Returns the number of rows added: 0 when no
    /// match is good enough or nothing is new. Fails when the image has
    /// reached the maximum height or the widths differ.
    pub fn add_frame(&mut self, new_frame: &RgbaFrame) -> (r: Result<u32, StitchError>)
        requires
            stitch_defined(old(self).current_image@, new_frame@),
        ensures
            r == stitch_outcome(old(self).current_image@, new_frame@).0,
            final(self).current_image@ == stitch_outcome(old(self).current_image@, new_frame@).1,
            // the image only ever grows at the bottom
            old(self).current_image@.raw.is_prefix_of(final(self).current_image@.raw),
            final(self).current_image@.width == old(self).current_image@.width,
            r matches Ok(n) ==> final(self).current_image@.height == old(self).current_image@.height + n,
            r is Err ==> final(self).current_image@ == old(self).current_image@,
    {
        proof {
            use_type_invariant(&self.current_image);
            use_type_invariant(new_frame);
        }
        let ghost cur = self.current_image@;
        let ghost newv = new_frame@;
        let (width, height) = self.current_image.dimensions();
        let (new_w, new_h) = new_frame.dimensions();

        if height >= 20_000 {
            return Err(StitchError::MaxHeightReached);
        }
        if width != new_w {
            return Err(StitchError::WidthMismatch);
        }

        // template: the bottom strip of the image so far
        let template_h: u32 = if height < 64 { height } else { 64 };
        let template_y = height - template_h;

        // find the template in the new frame, top to bottom
        let limit = new_h - template_h;
        let mut best_y: u32 = 0;
        let mut min_diff: u64 = u64::MAX;
        let mut c: u32 = 0;
        let mut stop = false;
        let confident = width as u64 * template_h as u64 * 2;
        assert(width * template_h * 80 <= 0xFFFF_FFFF * 64 * 80) by (nonlinear_arith)
            requires width <= 0xFFFF_FFFF, template_h <= 64;
        while c < limit && !stop
            invariant
                c <= limit,
                limit == new_h - template_h,
                template_h <= 64,
                template_y + template_h == height,
                width == cur.width,
                width == newv.width,
                height == cur.height,
                new_h == newv.height,
                self.current_image@ == cur,
                new_frame@ == newv,
                offsets_fit(cur),
                offsets_fit(newv),
                new_h + 20_000 <= u32::MAX,
                confident == width * template_h * 2,
                (c == 0 && best_y == 0 && min_diff == u64::MAX) || best_y < c,
                best_match(cur.raw, newv.raw, template_y as int, template_h as int, width as int, 0, limit as int, 0, u64::MAX as int)
                    == (if stop {
                    (best_y as int, min_diff as int)
                } else {
                    best_match(cur.raw, newv.raw, template_y as int, template_h as int, width as int, c as int, limit as int, best_y as int, min_diff as int)
                }),
            decreases limit - c,
        {
            let diff = self.calculate_diff(new_frame, c, template_y, template_h, width);
            if diff < min_diff {
                min_diff = diff;
                best_y = c;
            }
            // short-circuit on a confident match
            if diff < confident {
                stop = true;
            }
            c = c + 1;
        }

        // confidence check: on average at most 80 units per byte of the strip
        let max_tolerable_diff = width as u64 * template_h as u64 * 80;
        if min_diff > max_tolerable_diff {
            return Ok(0);
        }

        // rows of the frame below the match are new
        let new_content_h = new_h - (best_y + template_h);
        if new_content_h == 0 {
            return Ok(0);
        }

        let old_raw = self.current_image.as_raw();
        let new_raw = new_frame.as_raw();
        let ghost w = width as int;
        assert(w * 4 * new_h <= u32::MAX) by (nonlinear_arith)
            requires w * new_h * 4 <= u32::MAX, w >= 0;
        assert(w * 4 <= u32::MAX) by (nonlinear_arith)
            requires w * 4 * new_h <= u32::MAX, w >= 0, new_h >= 1;
        assert(new_raw@.len() == new_h * w * 4) by (nonlinear_arith)
            requires new_raw@.len() == w * new_h * 4;
        assert((best_y + template_h) * (w * 4) <= new_h * (w * 4)) by (nonlinear_arith)
            requires best_y + template_h <= new_h, w >= 0;
        let row: usize = width as usize * 4;
        let start: usize = (best_y + template_h) as usize * row;
        let end: usize = new_h as usize * row;
        assert(start == (best_y + template_h) * w * 4) by (nonlinear_arith)
            requires start == (best_y + template_h) * row, row == w * 4;
        assert(end == new_h * w * 4) by (nonlinear_arith)
            requires end == new_h * row, row == w * 4;

        let mut raw: Vec<u8> = Vec::new();
        let mut i: usize = 0;
        while i < old_raw.len()
            invariant
                0 <= i <= old_raw@.len(),
                raw@ == old_raw@.take(i as int),
            decreases old_raw@.len() - i,
        {
            raw.push(old_raw[i]);
            assert(old_raw@.take(i + 1) =~= old_raw@.take(i as int).push(old_raw@[i as int]));
            i = i + 1;
        }
        assert(old_raw@.take(i as int) =~= old_raw@);
        let mut j: usize = start;
        while j < end
            invariant
                start <= j <= end,
                end == new_raw@.len(),
                raw@ == old_raw@ + new_raw@.subrange(start as int, j as int),
            decreases end - j,
        {
            raw.push(new_raw[j]);
            assert(new_raw@.subrange(start as int, j + 1) =~= new_raw@.subrange(start as int, j as int).push(new_raw@[j as int]));
            j = j + 1;
        }
        let total_h = height + new_content_h;
        assert(raw@.len() == w * total_h * 4) by (nonlinear_arith)
            requires raw@.len() == w * height * 4 + (new_h * w * 4 - (best_y + template_h) * w * 4),
                total_h == height + new_h - (best_y + template_h);
        let stitched = RgbaFrame { width, height: total_h, raw };
        self.current_image = stitched;
        Ok(new_content_h)
    }

    /// Sum of absolute byte differences between `h` rows of the image from
    /// row `old_y` and `h` rows of the frame from row `new_y`.
    fn calculate_diff(&self, new_frame: &RgbaFrame, new_y: u32, old_y: u32, h: u32, w: u32) -> (r: u64)
        requires
            w == self.current_image@.width,
            w == new_frame@.width,
            old_y + h <= self.current_image@.height,
            new_y + h <= new_frame@.height,
            h <= 64,
            offsets_fit(self.current_image@),
            offsets_fit(new_frame@),
        ensures
            r == strip_diff(self.current_image@.raw, new_frame@.raw, new_y as int, old_y as int, h as int, w * 4),
    {
        proof {
            use_type_invariant(&self.current_image);
            use_type_invariant(new_frame);
        }
        let old_raw = self.current_image.as_raw();
        let new_raw = new_frame.as_raw();
        let ghost old_h = self.current_image@.height as int;
        let ghost new_h = new_frame@.height as int;
        let ghost oldv = old_raw@;
        let ghost newv = new_raw@;
        if h == 0 {
            return 0;
        }
        assert(w * 4 <= u32::MAX) by (nonlinear_arith)
            requires old_h >= 1, w * old_h * 4 <= u32::MAX, w >= 0;
        let row: usize = w as usize * 4;
        assert(oldv.len() == old_h * row) by (nonlinear_arith)
            requires oldv.len() == w * old_h * 4, row == w * 4;
        assert(newv.len() == new_h * row) by (nonlinear_arith)
            requires newv.len() == w * new_h * 4, row == w * 4;
        let mut total: u64 = 0;
        let mut dy: u32 = 0;
        while dy < h
            invariant
                0 <= dy <= h,
                h <= 64,
                row == w * 4,
                row <= u32::MAX,
                old_y + h <= old_h,
                new_y + h <= new_h,
                old_h <= u32::MAX,
                new_h <= u32::MAX,
                oldv.len() == old_h * row,
                newv.len() == new_h * row,
                old_h * row <= u32::MAX,
                new_h * row <= u32::MAX,
                old_raw@ == oldv,
                new_raw@ == newv,
                total == strip_diff(oldv, newv, new_y as int, old_y as int, dy as int, row as int),
            decreases h - dy,
        {
            let ghost sd = strip_diff(oldv, newv, new_y as int, old_y as int, dy as int, row as int);
            proof {
                lemma_strip_diff_bound(oldv, newv, new_y as int, old_y as int, dy as int, row as int);
            }
            assert((old_y + dy + 1) * row <= old_h * row) by (nonlinear_arith)
                requires old_y + dy + 1 <= old_h, row >= 0;
            assert((new_y + dy + 1) * row <= new_h * row) by (nonlinear_arith)
                requires new_y + dy + 1 <= new_h, row >= 0;
            assert((old_y + dy + 1) * row == (old_y + dy) * row + row) by (nonlinear_arith);
            assert((new_y + dy + 1) * row == (new_y + dy) * row + row) by (nonlinear_arith);
            let oy: usize = (old_y + dy) as usize;
            let ny: usize = (new_y + dy) as usize;
            assert(oy * row <= u32::MAX);
            assert(ny * row <= u32::MAX);
            let old_start: usize = oy * row;
            let new_start: usize = ny * row;
            let mut i: usize = 0;
            while i < row
                invariant
                    0 <= i <= row,
                    dy < h,
                    h <= 64,
                    row <= u32::MAX,
                    old_start + row <= oldv.len(),
                    new_start + row <= newv.len(),
                    oldv.len() <= u32::MAX,
                    newv.len() <= u32::MAX,
                    old_raw@ == oldv,
                    new_raw@ == newv,
                    sd <= 255 * dy * row,
                    total == sd + span_diff(oldv, old_start as int, newv, new_start as int, i as int),
                decreases row - i,
            {
                proof {
                    lemma_span_diff_bound(oldv, old_start as int, newv, new_start as int, i as int);
                }
                assert(255 * dy * row + 255 * i + 255 <= 255 * 64 * 0x1_0000_0000) by (nonlinear_arith)
                    requires dy < 64, row <= u32::MAX, i < row;
                let a = old_raw[old_start + i];
                let b = new_raw[new_start + i];
                let d: u8 = if a >= b { a - b } else { b - a };
                total = total + d as u64;
                i = i + 1;
            }
            assert(old_start == (old_y as int + (dy + 1) - 1) * row);
            dy = dy + 1;
        }
        total
    }
}

} // verus!
