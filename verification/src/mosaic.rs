//! The mosaic brush: which grid blocks a stroke covers and the colour each
//! new block takes from the background under its centre. All of it is
//! integer arithmetic: blocks are 6, 10 or 16 pixels, the brush radius is
//! one and a half blocks, and block centres are whole pixels.
use vstd::prelude::*;
use crate::pixels::{rgba_sample, cached_sample, fallback_grey, sample_rgba, sample_cached};

verus! {

/// A mosaic block size the brush uses.
pub open spec fn valid_block_size(bs: int) -> bool {
    bs == 6 || bs == 10 || bs == 16
}

/// The brush radius for a block size: one and a half blocks.
pub open spec fn brush_radius(bs: int) -> int {
    bs * 3 / 2
}

/// The centre of grid block `g` along one axis.
pub open spec fn block_centre(bs: int, g: int) -> int {
    g * bs + bs / 2
}

/// The block `cell` lies under the brush at `q`: its centre is within the
/// brush radius of `q`.
pub open spec fn under_brush(bs: int, q: (int, int), cell: (i32, i32)) -> bool {
    let dx = block_centre(bs, cell.0 as int) - q.0;
    let dy = block_centre(bs, cell.1 as int) - q.1;
    dx * dx + dy * dy <= brush_radius(bs) * brush_radius(bs)
}

/// The background a mosaic samples: the rendered RGBA image with its size,
/// when there is one, else the cached 32-bit pixels of a canvas
/// `canvas_width` pixels wide, when there are any.
pub struct MosaicBackdrop<'a> {
    pub rgba: Option<(&'a [u8], i32, i32)>,
    pub cached: Option<&'a [u32]>,
    pub canvas_width: i32,
}

/// The colour under the pixel `(x, y)`: from the RGBA image if there is
/// one, else from the cached pixels, else opaque grey.
pub open spec fn backdrop_colour(b: MosaicBackdrop, x: int, y: int) -> int {
    match b.rgba {
        Some((data, w, h)) => rgba_sample(data@, w as int, h as int, x, y),
        None => match b.cached {
            Some(p) => match cached_sample(p@, b.canvas_width as int, x, y) {
                Some(c) => c as int,
                None => fallback_grey() as int,
            },
            None => fallback_grey() as int,
        },
    }
}

/// Samples the background under the pixel `(x, y)`.
pub fn mosaic_colour(b: &MosaicBackdrop, x: i32, y: i32) -> (c: u32)
    ensures
        c == backdrop_colour(*b, x as int, y as int),
{
    match b.rgba {
        Some((data, w, h)) => sample_rgba(data, w, h, x, y),
        None => match b.cached {
            Some(p) => match sample_cached(p, b.canvas_width, x, y) {
                Some(c) => c,
                None => 0xFF80_8080,
            },
            None => 0xFF80_8080,
        },
    }
}

/// `v` clamped to the range of `i32` (what a float-to-`i32` cast does).
pub open spec fn saturate_i32(v: int) -> int {
    if v < i32::MIN {
        i32::MIN as int
    } else if v > i32::MAX {
        i32::MAX as int
    } else {
        v
    }
}

fn clamp_i32(v: i64) -> (r: i32)
    ensures
        r == saturate_i32(v as int),
{
    if v < i32::MIN as i64 {
        i32::MIN
    } else if v > i32::MAX as i64 {
        i32::MAX
    } else {
        v as i32
    }
}

/// The colour a new block `cell` takes: the background under its centre
/// (clamped to the `i32` range).
pub open spec fn block_colour(b: MosaicBackdrop, bs: int, cell: (i32, i32)) -> int {
    backdrop_colour(
        b,
        saturate_i32(block_centre(bs, cell.0 as int)),
        saturate_i32(block_centre(bs, cell.1 as int)),
    )
}

/// Some block of `blocks` is `cell`.
pub open spec fn has_block(blocks: Seq<((i32, i32), u32)>, cell: (i32, i32)) -> bool {
    exists|j: int| 0 <= j < blocks.len() && #[trigger] blocks[j].0 == cell
}

/// No two blocks of `blocks` are the same cell.
pub open spec fn cells_distinct(blocks: Seq<((i32, i32), u32)>) -> bool {
    forall|i: int, j: int| 0 <= i < j < blocks.len() ==> blocks[i].0 != blocks[j].0
}

/// `new` is `old` with blocks added at the end: exactly the cells that
/// `covered` holds and `old` lacks, each once and coloured from the
/// background.
pub open spec fn adds_blocks(
    old: Seq<((i32, i32), u32)>,
    new: Seq<((i32, i32), u32)>,
    covered: spec_fn((i32, i32)) -> bool,
    b: MosaicBackdrop,
    bs: int,
) -> bool {
    &&& old.len() <= new.len()
    &&& new.subrange(0, old.len() as int) == old
    &&& fresh_from(new, old.len() as int)
    &&& forall|j: int|
        old.len() <= j < new.len() ==> covered(#[trigger] new[j].0) && !has_block(old, new[j].0)
            && new[j].1 == block_colour(b, bs, new[j].0)
    &&& forall|c: (i32, i32)| covered(c) ==> has_block(new, c)
}

/// Adding fresh blocks to a list of distinct cells keeps its cells
/// distinct.
pub proof fn lemma_adds_keep_distinct(
    old: Seq<((i32, i32), u32)>,
    new: Seq<((i32, i32), u32)>,
    covered: spec_fn((i32, i32)) -> bool,
    b: MosaicBackdrop,
    bs: int,
)
    requires
        adds_blocks(old, new, covered, b, bs),
        cells_distinct(old),
    ensures
        cells_distinct(new),
{
    assert forall|i: int, j: int| 0 <= i < j < new.len() implies new[i].0 != new[j].0 by {
        if j < old.len() {
            assert(new[i] == new.subrange(0, old.len() as int)[i]);
            assert(new[j] == new.subrange(0, old.len() as int)[j]);
        }
    }
}

/// Adding blocks twice adds the cells either step covers.
proof fn lemma_adds_compose(
    a: Seq<((i32, i32), u32)>,
    m: Seq<((i32, i32), u32)>,
    z: Seq<((i32, i32), u32)>,
    p: spec_fn((i32, i32)) -> bool,
    q: spec_fn((i32, i32)) -> bool,
    pq: spec_fn((i32, i32)) -> bool,
    b: MosaicBackdrop,
    bs: int,
)
    requires
        adds_blocks(a, m, p, b, bs),
        adds_blocks(m, z, q, b, bs),
        forall|c: (i32, i32)| #[trigger] pq(c) == (p(c) || q(c)),
    ensures
        adds_blocks(a, z, pq, b, bs),
{
    assert forall|j: int| 0 <= j < m.len() implies z[j] == m[j] by {
        assert(z[j] == z.subrange(0, m.len() as int)[j]);
    }
    assert forall|j: int| 0 <= j < a.len() implies m[j] == a[j] by {
        assert(m[j] == m.subrange(0, a.len() as int)[j]);
    }
    assert(z.subrange(0, a.len() as int) =~= a);
    assert forall|c: (i32, i32)| has_block(a, c) implies has_block(m, c) by {
        let j = choose|j: int| 0 <= j < a.len() && #[trigger] a[j].0 == c;
        assert(m[j].0 == c);
    }
    assert forall|c: (i32, i32)| has_block(m, c) implies has_block(z, c) by {
        let j = choose|j: int| 0 <= j < m.len() && #[trigger] m[j].0 == c;
        assert(z[j].0 == c);
    }
    assert forall|i: int, j: int| 0 <= i < j < z.len() && j >= a.len() implies z[i].0 != z[j].0 by {
        if j < m.len() {
            assert(z[i] == m[i] && z[j] == m[j]);
        }
    }
    assert forall|j: int| a.len() <= j < z.len() implies pq(#[trigger] z[j].0) && !has_block(a, z[j].0)
        && z[j].1 == block_colour(b, bs, z[j].0) by {
        if j < m.len() {
            assert(z[j] == m[j]);
        } else {
            assert(!has_block(m, z[j].0));
        }
    }
    assert forall|c: (i32, i32)| pq(c) implies has_block(z, c) by {
        if p(c) {
            assert(has_block(m, c));
        }
    }
}

/// Adding blocks for one covering predicate adds them for any equivalent one.
proof fn lemma_adds_equiv(
    a: Seq<((i32, i32), u32)>,
    z: Seq<((i32, i32), u32)>,
    p: spec_fn((i32, i32)) -> bool,
    q: spec_fn((i32, i32)) -> bool,
    b: MosaicBackdrop,
    bs: int,
)
    requires
        adds_blocks(a, z, p, b, bs),
        forall|c: (i32, i32)| #[trigger] q(c) == p(c),
    ensures
        adds_blocks(a, z, q, b, bs),
{
    assert forall|j: int| a.len() <= j < z.len() implies q(#[trigger] z[j].0) && !has_block(a, z[j].0)
        && z[j].1 == block_colour(b, bs, z[j].0) by {
        assert(p(z[j].0));
    }
}

/// Floor division by a block size.
fn floor_div(a: i64, bs: i64) -> (r: i64)
    requires
        valid_block_size(bs as int),
        -0x1_0000_0000_0000 <= a <= 0x1_0000_0000_0000,
    ensures
        r == a / bs,
{
    if a >= 0 {
        ((a as u64) / (bs as u64)) as i64
    } else {
        let na = (-a - 1) as u64;
        let d = bs as u64;
        let m = na / d;
        assert(m as int == (-a - 1) / (bs as int));
        let r = -(m as i64) - 1;
        assert(r == a / bs) by {
            if bs == 6 {
                assert(-((-a - 1) / 6) - 1 == a / 6);
            } else if bs == 10 {
                assert(-((-a - 1) / 10) - 1 == a / 10);
            } else {
                assert(-((-a - 1) / 16) - 1 == a / 16);
            }
        }
        r
    }
}

/// Whether some block of `blocks` is `cell`.
fn find_block(blocks: &Vec<((i32, i32), u32)>, cell: (i32, i32)) -> (r: bool)
    ensures
        r == has_block(blocks@, cell),
{
    let mut i: usize = 0;
    while i < blocks.len()
        invariant
            i <= blocks@.len(),
            forall|j: int| 0 <= j < i ==> blocks@[j].0 != cell,
        decreases blocks@.len() - i,
    {
        let bc = blocks[i].0;
        if bc.0 == cell.0 && bc.1 == cell.1 {
            assert(blocks@[i as int].0 == cell);
            return true;
        }
        i = i + 1;
    }
    false
}

/// Blocks from position `from` on are new cells, distinct from every
/// block before them.
pub open spec fn fresh_from(blocks: Seq<((i32, i32), u32)>, from: int) -> bool {
    forall|i: int, j: int| 0 <= i < j < blocks.len() && j >= from ==> blocks[i].0 != blocks[j].0
}

/// `cur` extends `old` with fresh blocks under the brush at `q`, each
/// coloured from the background, and holds every cell under the brush
/// that `done` holds.
pub open spec fn brushing(
    old: Seq<((i32, i32), u32)>,
    cur: Seq<((i32, i32), u32)>,
    bs: int,
    q: (int, int),
    b: MosaicBackdrop,
    done: spec_fn((i32, i32)) -> bool,
) -> bool {
    &&& old.len() <= cur.len()
    &&& cur.subrange(0, old.len() as int) == old
    &&& fresh_from(cur, old.len() as int)
    &&& forall|j: int|
        old.len() <= j < cur.len() ==> under_brush(bs, q, #[trigger] cur[j].0) && !has_block(old, cur[j].0)
            && cur[j].1 == block_colour(b, bs, cur[j].0)
    &&& forall|c: (i32, i32)| under_brush(bs, q, c) && done(c) ==> has_block(cur, c)
}

/// A cell under the brush lies in the grid range the brush spans.
proof fn lemma_under_brush_in_range(bs: int, q: (int, int), c: (i32, i32))
    requires
        valid_block_size(bs),
        under_brush(bs, q, c),
    ensures
        (q.0 - brush_radius(bs)) / bs <= c.0 <= (q.0 + brush_radius(bs)) / bs,
        (q.1 - brush_radius(bs)) / bs <= c.1 <= (q.1 + brush_radius(bs)) / bs,
{
    let dx = block_centre(bs, c.0 as int) - q.0;
    let dy = block_centre(bs, c.1 as int) - q.1;
    let r = brush_radius(bs);
    assert(r >= 0);
    assert(-r <= dx <= r && -r <= dy <= r) by (nonlinear_arith)
        requires
            dx * dx + dy * dy <= r * r,
            r >= 0,
    ;
    if bs == 6 {
        assert(block_centre(6, c.0 as int) == c.0 * 6 + 3);
        assert(block_centre(6, c.1 as int) == c.1 * 6 + 3);
    } else if bs == 10 {
        assert(block_centre(10, c.0 as int) == c.0 * 10 + 5);
        assert(block_centre(10, c.1 as int) == c.1 * 10 + 5);
    } else {
        assert(block_centre(16, c.0 as int) == c.0 * 16 + 8);
        assert(block_centre(16, c.1 as int) == c.1 * 16 + 8);
    }
}

/// A grid position in the range the brush spans has its block centre near
/// the brush and fits `i32`.
proof fn lemma_grid_near(bs: int, q: int, g: int)
    requires
        valid_block_size(bs),
        -0x1_0000_0000 <= q <= 0x1_0000_0000,
        (q - brush_radius(bs)) / bs <= g <= (q + brush_radius(bs)) / bs,
    ensures
        -brush_radius(bs) - bs <= block_centre(bs, g) - q <= brush_radius(bs) + bs,
        i32::MIN <= g <= i32::MAX,
{
    if bs == 6 {
        assert(brush_radius(6) == 9);
        assert((q - 9) / 6 <= g <= (q + 9) / 6);
        assert(block_centre(6, g) == g * 6 + 3);
        assert(-15 <= g * 6 + 3 - q <= 15);
    } else if bs == 10 {
        assert(brush_radius(10) == 15);
        assert((q - 15) / 10 <= g <= (q + 15) / 10);
        assert(block_centre(10, g) == g * 10 + 5);
        assert(-25 <= g * 10 + 5 - q <= 25);
    } else {
        assert(brush_radius(16) == 24);
        assert((q - 24) / 16 <= g <= (q + 24) / 16);
        assert(block_centre(16, g) == g * 16 + 8);
        assert(-40 <= g * 16 + 8 - q <= 40);
    }
}

/// The grid range the brush spans is not empty.
proof fn lemma_range_nonempty(bs: int, q: int)
    requires
        valid_block_size(bs),
    ensures
        (q - brush_radius(bs)) / bs <= (q + brush_radius(bs)) / bs,
{
    if bs == 6 {
        assert((q - 9) / 6 <= (q + 9) / 6);
    } else if bs == 10 {
        assert((q - 15) / 10 <= (q + 15) / 10);
    } else {
        assert((q - 24) / 16 <= (q + 24) / 16);
    }
}

/// Adds the blocks under the brush at `q` that `blocks` lacks, each
/// coloured from the background under its centre.
fn brush_at(blocks: &mut Vec<((i32, i32), u32)>, qx: i64, qy: i64, bs: i64, backdrop: &MosaicBackdrop)
    requires
        valid_block_size(bs as int),
        -0x1_0000_0000 <= qx <= 0x1_0000_0000,
        -0x1_0000_0000 <= qy <= 0x1_0000_0000,
    ensures
        adds_blocks(old(blocks)@, final(blocks)@, |c: (i32, i32)| under_brush(bs as int, (qx as int, qy as int), c), *backdrop, bs as int),
{
    let ghost old_blocks = blocks@;
    let ghost q = (qx as int, qy as int);
    let r = bs * 3 / 2;
    let h = bs / 2;
    let gx0 = floor_div(qx - r, bs);
    let gx1 = floor_div(qx + r, bs);
    let gy0 = floor_div(qy - r, bs);
    let gy1 = floor_div(qy + r, bs);
    let mut gx = gx0;
    proof {
        lemma_range_nonempty(bs as int, qx as int);
        lemma_range_nonempty(bs as int, qy as int);
        lemma_grid_near(bs as int, qx as int, gx1 as int);
        lemma_grid_near(bs as int, qy as int, gy1 as int);
        assert(old_blocks.subrange(0, old_blocks.len() as int) =~= old_blocks);
        assert forall|c: (i32, i32)| under_brush(bs as int, q, c) && c.0 < gx implies has_block(blocks@, c) by {
            lemma_under_brush_in_range(bs as int, q, c);
        }
    }
    while gx <= gx1
        invariant
            valid_block_size(bs as int),
            -0x1_0000_0000 <= qx <= 0x1_0000_0000,
            -0x1_0000_0000 <= qy <= 0x1_0000_0000,
            q == (qx as int, qy as int),
            r == brush_radius(bs as int),
            h == bs / 2,
            gx0 == (qx - r) / (bs as int),
            gx1 == (qx + r) / (bs as int),
            gy0 == (qy - r) / (bs as int),
            gy1 == (qy + r) / (bs as int),
            gx0 <= gx <= gx1 + 1,
            gy0 <= gy1,
            gx1 <= i32::MAX,
            gy1 <= i32::MAX,
            brushing(old_blocks, blocks@, bs as int, q, *backdrop, |c: (i32, i32)| c.0 < gx),
        decreases gx1 + 1 - gx,
    {
        let mut gy = gy0;
        proof {
            assert forall|c: (i32, i32)| under_brush(bs as int, q, c) && (c.0 < gx || (c.0 == gx && c.1 < gy)) implies has_block(
                blocks@,
                c,
            ) by {
                lemma_under_brush_in_range(bs as int, q, c);
            }
        }
        while gy <= gy1
            invariant
                valid_block_size(bs as int),
                -0x1_0000_0000 <= qx <= 0x1_0000_0000,
                -0x1_0000_0000 <= qy <= 0x1_0000_0000,
                q == (qx as int, qy as int),
                r == brush_radius(bs as int),
                h == bs / 2,
                gx0 == (qx - r) / (bs as int),
                gx1 == (qx + r) / (bs as int),
                gy0 == (qy - r) / (bs as int),
                gy1 == (qy + r) / (bs as int),
                gx0 <= gx <= gx1,
                gy0 <= gy <= gy1 + 1,
                gx1 <= i32::MAX,
                gy1 <= i32::MAX,
                brushing(
                    old_blocks,
                    blocks@,
                    bs as int,
                    q,
                    *backdrop,
                    |c: (i32, i32)| c.0 < gx || (c.0 == gx && c.1 < gy),
                ),
            decreases gy1 + 1 - gy,
        {
            proof {
                lemma_grid_near(bs as int, qx as int, gx as int);
                lemma_grid_near(bs as int, qy as int, gy as int);
            }
            let cell = (gx as i32, gy as i32);
            let cx = gx * bs + h;
            let cy = gy * bs + h;
            assert(cx == block_centre(bs as int, gx as int));
            assert(cy == block_centre(bs as int, gy as int));
            let ddx = cx - qx;
            let ddy = cy - qy;
            let ghost before = blocks@;
            assert(r <= 24);
            assert(0 <= ddx * ddx <= 1600 && 0 <= ddy * ddy <= 1600 && r * r <= 576) by (nonlinear_arith)
                requires
                    -40 <= ddx <= 40,
                    -40 <= ddy <= 40,
                    0 <= r <= 24,
            ;
            assert(cell.0 as int == gx as int && cell.1 as int == gy as int);
            assert((ddx * ddx + ddy * ddy <= r * r) == under_brush(bs as int, q, cell));
            if ddx * ddx + ddy * ddy <= r * r && !find_block(blocks, cell) {
                let colour = mosaic_colour(backdrop, clamp_i32(cx), clamp_i32(cy));
                blocks.push((cell, colour));
                proof {
                    assert(blocks@.subrange(0, old_blocks.len() as int) =~= before.subrange(0, old_blocks.len() as int));
                    assert forall|c: (i32, i32)| has_block(before, c) implies has_block(blocks@, c) by {
                        let j = choose|j: int| 0 <= j < before.len() && #[trigger] before[j].0 == c;
                        assert(blocks@[j].0 == c);
                    }
                    assert(blocks@[before.len() as int].0 == cell);
                    assert(has_block(blocks@, cell));
                }
            } else {
                proof {
                    assert(has_block(blocks@, cell) || !under_brush(bs as int, q, cell));
                }
            }
            proof {
                assert forall|c: (i32, i32)|
                    under_brush(bs as int, q, c) && (c.0 < gx || (c.0 == gx && c.1 < gy + 1)) implies has_block(
                    blocks@,
                    c,
                ) by {
                    if c.0 == gx && c.1 == gy {
                        assert(c == cell);
                    } else {
                        let done = |d: (i32, i32)| d.0 < gx || (d.0 == gx && d.1 < gy);
                        assert(done(c));
                        assert(has_block(before, c));
                        if has_block(before, c) {
                            let j = choose|j: int| 0 <= j < before.len() && #[trigger] before[j].0 == c;
                            assert(blocks@[j].0 == c);
                        }
                    }
                }
            }
            gy = gy + 1;
        }
        proof {
            assert forall|c: (i32, i32)| under_brush(bs as int, q, c) && c.0 < gx + 1 implies has_block(blocks@, c) by {
                if c.0 == gx {
                    lemma_under_brush_in_range(bs as int, q, c);
                }
            }
        }
        gx = gx + 1;
    }
    proof {
        assert forall|c: (i32, i32)| under_brush(bs as int, q, c) implies has_block(blocks@, c) by {
            lemma_under_brush_in_range(bs as int, q, c);
        }
    }
}

/// The squared length of the stroke from `p0` to `p1`.
pub open spec fn stroke_d2(p0: (i32, i32), p1: (i32, i32)) -> int {
    (p1.0 - p0.0) * (p1.0 - p0.0) + (p1.1 - p0.1) * (p1.1 - p0.1)
}

/// The stroke from `p0` to `p1` is short enough for its squared length to
/// fit `i32`.
pub open spec fn stroke_fits(p0: (i32, i32), p1: (i32, i32)) -> bool {
    stroke_d2(p0, p1) <= i32::MAX
}

/// `m` is half the length of a stroke of squared length `d2`, rounded
/// down: the number of 2-pixel steps along it.
pub open spec fn is_half_root(d2: int, m: int) -> bool {
    0 <= m && 4 * m * m <= d2 && d2 < 4 * (m + 1) * (m + 1)
}

/// The number of 2-pixel steps along a stroke of squared length `d2`.
pub open spec fn half_root(d2: int) -> int {
    choose|m: int| is_half_root(d2, m)
}

/// Integer division rounding toward zero.
pub open spec fn trunc_div(a: int, b: int) -> int {
    if a >= 0 {
        a / b
    } else {
        -((-a) / b)
    }
}

/// How many brush positions the stroke into `p1` has: the point itself,
/// and, after a previous point more than 2 pixels away, one position every
/// 2 pixels from that point.
pub open spec fn stroke_len(prev: Option<(i32, i32)>, p1: (i32, i32)) -> int {
    match prev {
        Some(p0) => if stroke_d2(p0, p1) > 4 {
            half_root(stroke_d2(p0, p1))
        } else {
            1
        },
        None => 1,
    }
}

/// The `t`-th brush position of the stroke into `p1`: the point itself
/// first, then the positions `t / steps` of the way from the previous
/// point (rounded toward zero).
pub open spec fn stroke_point(prev: Option<(i32, i32)>, p1: (i32, i32), t: int) -> (int, int) {
    match prev {
        Some(p0) => if t == 0 {
            (p1.0 as int, p1.1 as int)
        } else {
            let steps = stroke_len(prev, p1);
            (
                p0.0 + trunc_div((p1.0 - p0.0) * t, steps),
                p0.1 + trunc_div((p1.1 - p0.1) * t, steps),
            )
        },
        None => (p1.0 as int, p1.1 as int),
    }
}

/// The cell lies under one of the first `n` brush positions of the stroke
/// into `p1`.
pub open spec fn stroke_covers(bs: int, prev: Option<(i32, i32)>, p1: (i32, i32), n: int, c: (i32, i32)) -> bool {
    exists|t: int| 0 <= t < n && under_brush(bs, #[trigger] stroke_point(prev, p1, t), c)
}

proof fn lemma_half_root_unique(d2: int, a: int, b: int)
    requires
        is_half_root(d2, a),
        is_half_root(d2, b),
    ensures
        a == b,
{
    if a < b {
        assert(4 * (a + 1) * (a + 1) <= 4 * b * b) by (nonlinear_arith)
            requires
                0 <= a + 1 <= b,
        ;
    } else if b < a {
        assert(4 * (b + 1) * (b + 1) <= 4 * a * a) by (nonlinear_arith)
            requires
                0 <= b + 1 <= a,
        ;
    }
}

/// The number of 2-pixel steps along a stroke longer than 2 pixels.
fn half_root_of(d2: i64) -> (m: i64)
    requires
        4 < d2 <= i32::MAX,
    ensures
        m == half_root(d2 as int),
        1 <= m <= 0x6000,
{
    let mut m: i64 = 1;
    assert(4 * (m + 1) * (m + 1) == 16);
    while 4 * (m + 1) * (m + 1) <= d2
        invariant
            4 < d2 <= i32::MAX,
            1 <= m <= 0x6000,
            4 * m * m <= d2,
            4 * (m + 1) * (m + 1) <= 0x1_0000_0000,
        decreases d2 - m,
    {
        assert(m + 1 <= 0x6000) by (nonlinear_arith)
            requires
                4 * (m + 1) * (m + 1) <= d2,
                d2 <= 0x7FFF_FFFF,
                m >= 1,
        ;
        assert(m < d2) by (nonlinear_arith)
            requires
                4 * m * m <= d2,
                m >= 1,
        ;
        assert(4 * (m + 2) * (m + 2) <= 0x1_0000_0000) by (nonlinear_arith)
            requires
                1 <= m + 1 <= 0x6000,
        ;
        m = m + 1;
    }
    proof {
        assert(is_half_root(d2 as int, m as int));
        let h = half_root(d2 as int);
        assert(is_half_root(d2 as int, h));
        lemma_half_root_unique(d2 as int, h, m as int);
    }
    m
}

/// `a / b` rounded toward zero, for a positive `b`.
fn trunc_div_i64(a: i64, b: i64) -> (r: i64)
    requires
        b > 0,
        -0x1_0000_0000_0000 <= a <= 0x1_0000_0000_0000,
    ensures
        r == trunc_div(a as int, b as int),
        a >= 0 ==> 0 <= r <= a,
        a < 0 ==> a <= r <= 0,
{
    if a >= 0 {
        let r = ((a as u64) / (b as u64)) as i64;
        assert(r <= a) by (nonlinear_arith)
            requires
                r == a / b,
                a >= 0,
                b > 0,
        ;
        r
    } else {
        let m = ((-a) as u64) / (b as u64);
        assert(m <= -a) by (nonlinear_arith)
            requires
                m == (-a) / (b as int),
                -a >= 0,
                b > 0,
        ;
        -(m as i64)
    }
}

/// Brushes the stroke into `p1` from the previous point `prev`.
fn brush_stroke(
    blocks: &mut Vec<((i32, i32), u32)>,
    prev: Option<(i32, i32)>,
    p1: (i32, i32),
    bs: i64,
    backdrop: &MosaicBackdrop,
)
    requires
        valid_block_size(bs as int),
        prev matches Some(p0) ==> stroke_fits(p0, p1),
    ensures
        adds_blocks(
            old(blocks)@,
            final(blocks)@,
            |c: (i32, i32)| stroke_covers(bs as int, prev, p1, stroke_len(prev, p1), c),
            *backdrop,
            bs as int,
        ),
{
    let ghost a = blocks@;
    brush_at(blocks, p1.0 as i64, p1.1 as i64, bs, backdrop);
    let ghost covered1 = |c: (i32, i32)| stroke_covers(bs as int, prev, p1, 1, c);
    proof {
        assert forall|c: (i32, i32)| #[trigger] covered1(c) == under_brush(bs as int, (p1.0 as int, p1.1 as int), c) by {
            if under_brush(bs as int, (p1.0 as int, p1.1 as int), c) {
                assert(stroke_point(prev, p1, 0) == (p1.0 as int, p1.1 as int));
            }
        }
        lemma_adds_equiv(a, blocks@, |c: (i32, i32)| under_brush(bs as int, (p1.0 as int, p1.1 as int), c), covered1, *backdrop, bs as int);
    }
    match prev {
        Some(p0) => {
            let dx = p1.0 as i64 - p0.0 as i64;
            let dy = p1.1 as i64 - p0.1 as i64;
            assert(0 <= dx * dx && 0 <= dy * dy) by (nonlinear_arith);
            assert(dx * dx + dy * dy == stroke_d2(p0, p1));
            let d2 = dx * dx + dy * dy;
            if d2 > 4 {
                let m = half_root_of(d2);
                assert(-0xB600 <= dx <= 0xB600 && -0xB600 <= dy <= 0xB600) by (nonlinear_arith)
                    requires
                        dx * dx + dy * dy <= 0x7FFF_FFFF,
                        0 <= dx * dx,
                        0 <= dy * dy,
                ;
                let mut step: i64 = 1;
                while step < m
                    invariant
                        valid_block_size(bs as int),
                        prev == Some(p0),
                        dx == p1.0 - p0.0,
                        dy == p1.1 - p0.1,
                        -0xB600 <= dx <= 0xB600,
                        -0xB600 <= dy <= 0xB600,
                        m == stroke_len(prev, p1),
                        1 <= m <= 0x6000,
                        1 <= step <= m,
                        adds_blocks(
                            a,
                            blocks@,
                            |c: (i32, i32)| stroke_covers(bs as int, prev, p1, step as int, c),
                            *backdrop,
                            bs as int,
                        ),
                    decreases m - step,
                {
                    assert(-0x8000_0000 <= dx * step <= 0x8000_0000 && -0x8000_0000 <= dy * step
                        <= 0x8000_0000) by (nonlinear_arith)
                        requires
                            -0xB600 <= dx <= 0xB600,
                            -0xB600 <= dy <= 0xB600,
                            1 <= step <= 0x6000,
                    ;
                    let ox = trunc_div_i64(dx * step, m);
                    let oy = trunc_div_i64(dy * step, m);
                    let qx = p0.0 as i64 + ox;
                    let qy = p0.1 as i64 + oy;
                    let ghost mid = blocks@;
                    let ghost q = (qx as int, qy as int);
                    assert(q == stroke_point(prev, p1, step as int));
                    brush_at(blocks, qx, qy, bs, backdrop);
                    proof {
                        let before_c = |c: (i32, i32)| stroke_covers(bs as int, prev, p1, step as int, c);
                        let here = |c: (i32, i32)| under_brush(bs as int, q, c);
                        let after_c = |c: (i32, i32)| stroke_covers(bs as int, prev, p1, step + 1, c);
                        assert forall|c: (i32, i32)| #[trigger] after_c(c) == (before_c(c) || here(c)) by {
                            if after_c(c) {
                                let t = choose|t: int| 0 <= t < step + 1 && under_brush(bs as int, #[trigger] stroke_point(prev, p1, t), c);
                                if t < step {
                                    assert(before_c(c));
                                }
                            }
                            if before_c(c) {
                                let t = choose|t: int| 0 <= t < step && under_brush(bs as int, #[trigger] stroke_point(prev, p1, t), c);
                                assert(0 <= t < step + 1 && under_brush(bs as int, stroke_point(prev, p1, t), c));
                            }
                            if here(c) {
                                assert(under_brush(bs as int, stroke_point(prev, p1, step as int), c));
                            }
                        }
                        lemma_adds_compose(a, mid, blocks@, before_c, here, after_c, *backdrop, bs as int);
                    }
                    step = step + 1;
                }
            } else {
                assert(stroke_len(prev, p1) == 1);
            }
        },
        None => {
            assert(stroke_len(prev, p1) == 1);
        },
    }
}

/// The point before the `k`-th queued point: the last brushed point for
/// the first, the queued point before it for the others.
pub open spec fn prev_point(last: Option<(i32, i32)>, pending: Seq<(i32, i32)>, k: int) -> Option<(i32, i32)> {
    if k == 0 {
        last
    } else {
        Some(pending[k - 1])
    }
}

/// The cell lies under the brush somewhere along the strokes into the
/// first `n` queued points.
pub open spec fn mosaic_covers(
    bs: int,
    last: Option<(i32, i32)>,
    pending: Seq<(i32, i32)>,
    n: int,
    c: (i32, i32),
) -> bool {
    exists|k: int|
        0 <= k < n && #[trigger] stroke_covers(
            bs,
            prev_point(last, pending, k),
            pending[k],
            stroke_len(prev_point(last, pending, k), pending[k]),
            c,
        )
}

/// Every stroke into the first `n` queued points is short enough for its
/// squared length to fit `i32`.
pub open spec fn strokes_fit(last: Option<(i32, i32)>, pending: Seq<(i32, i32)>, n: int) -> bool {
    forall|k: int|
        0 <= k < n ==> (#[trigger] prev_point(last, pending, k) matches Some(p0) ==> stroke_fits(
            p0,
            pending[k],
        ))
}

/// How many queued points one call processes: at most `max_points`.
pub open spec fn points_processed(max_points: int, queued: int) -> int {
    if max_points < queued {
        max_points
    } else {
        queued
    }
}

/// Brushes mosaic blocks along the queued stroke points, at most
/// `max_points` of them, each stroke starting from the point before it
/// (`last_pos` for the first): every block under the brush that is not yet
/// in `blocks` is added with the background colour under its centre.
/// Returns how many points were processed; they leave the queue and the
/// last of them becomes `last_pos`.
pub fn process_mosaic_pending_points(
    blocks: &mut Vec<((i32, i32), u32)>,
    pending: &mut Vec<(i32, i32)>,
    last_pos: &mut Option<(i32, i32)>,
    block_size: i32,
    max_points: usize,
    backdrop: &MosaicBackdrop,
) -> (processed: usize)
    requires
        valid_block_size(block_size as int),
        strokes_fit(*old(last_pos), old(pending)@, points_processed(max_points as int, old(pending)@.len() as int)),
    ensures
        processed == points_processed(max_points as int, old(pending)@.len() as int),
        final(pending)@ == old(pending)@.subrange(processed as int, old(pending)@.len() as int),
        processed > 0 ==> *final(last_pos) == Some(old(pending)@[processed - 1]),
        processed == 0 ==> *final(last_pos) == *old(last_pos),
        adds_blocks(
            old(blocks)@,
            final(blocks)@,
            |c: (i32, i32)| mosaic_covers(block_size as int, *old(last_pos), old(pending)@, processed as int, c),
            *backdrop,
            block_size as int,
        ),
        cells_distinct(old(blocks)@) ==> cells_distinct(final(blocks)@),
{
    let ghost a = blocks@;
    let ghost last0 = *last_pos;
    let ghost queue = pending@;
    let n = if max_points < pending.len() {
        max_points
    } else {
        pending.len()
    };
    let bs = block_size as i64;
    proof {
        assert(a.subrange(0, a.len() as int) =~= a);
    }
    let mut k: usize = 0;
    while k < n
        invariant
            valid_block_size(bs as int),
            bs == block_size,
            pending@ == queue,
            n <= queue.len(),
            n == points_processed(max_points as int, queue.len() as int),
            strokes_fit(last0, queue, n as int),
            k <= n,
            *last_pos == prev_point(last0, queue, k as int),
            adds_blocks(
                a,
                blocks@,
                |c: (i32, i32)| mosaic_covers(bs as int, last0, queue, k as int, c),
                *backdrop,
                bs as int,
            ),
        decreases n - k,
    {
        let p1 = pending[k];
        let prev = *last_pos;
        assert(prev_point(last0, queue, k as int) matches Some(p0) ==> stroke_fits(p0, queue[k as int]));
        let ghost mid = blocks@;
        brush_stroke(blocks, prev, p1, bs, backdrop);
        proof {
            let before_c = |c: (i32, i32)| mosaic_covers(bs as int, last0, queue, k as int, c);
            let here = |c: (i32, i32)| stroke_covers(bs as int, prev, p1, stroke_len(prev, p1), c);
            let after_c = |c: (i32, i32)| mosaic_covers(bs as int, last0, queue, k + 1, c);
            assert forall|c: (i32, i32)| #[trigger] after_c(c) == (before_c(c) || here(c)) by {
                if after_c(c) {
                    let j = choose|j: int|
                        0 <= j < k + 1 && #[trigger] stroke_covers(
                            bs as int,
                            prev_point(last0, queue, j),
                            queue[j],
                            stroke_len(prev_point(last0, queue, j), queue[j]),
                            c,
                        );
                    if j < k {
                        assert(before_c(c));
                    }
                }
                if before_c(c) {
                    let j = choose|j: int|
                        0 <= j < k && #[trigger] stroke_covers(
                            bs as int,
                            prev_point(last0, queue, j),
                            queue[j],
                            stroke_len(prev_point(last0, queue, j), queue[j]),
                            c,
                        );
                    assert(0 <= j < k + 1);
                }
                if here(c) {
                    assert(prev == prev_point(last0, queue, k as int));
                    assert(stroke_covers(
                        bs as int,
                        prev_point(last0, queue, k as int),
                        queue[k as int],
                        stroke_len(prev_point(last0, queue, k as int), queue[k as int]),
                        c,
                    ));
                }
            }
            lemma_adds_compose(a, mid, blocks@, before_c, here, after_c, *backdrop, bs as int);
        }
        *last_pos = Some(p1);
        k = k + 1;
    }
    let rest = pending.split_off(n);
    *pending = rest;
    proof {
        if cells_distinct(a) {
            lemma_adds_keep_distinct(
                a,
                blocks@,
                |c: (i32, i32)| mosaic_covers(bs as int, last0, queue, n as int, c),
                *backdrop,
                bs as int,
            );
        }
    }
    n
}

} // verus!
