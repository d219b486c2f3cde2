//! Pixel-buffer conversions between the byte orders used by GDI (BGRA),
//! the image encoders (RGBA / RGB) and the renderer, and the cropping of a
//! selection out of a rendered canvas.
use vstd::prelude::*;

verus! {

/// The buffer with bytes 0 and 2 of every complete 4-byte pixel swapped
/// (BGRA <-> RGBA); a trailing partial pixel is left as it is.
pub open spec fn red_blue_swapped(p: Seq<u8>) -> Seq<u8> {
    Seq::new(
        p.len(),
        |k: int|
            if k < p.len() - p.len() % 4 {
                if k % 4 == 0 {
                    p[k + 2]
                } else if k % 4 == 2 {
                    p[k - 2]
                } else {
                    p[k]
                }
            } else {
                p[k]
            },
    )
}

/// Swaps the red and blue bytes of every complete pixel in place.
pub fn swap_red_blue(pixels: &mut Vec<u8>)
    ensures
        final(pixels)@ == red_blue_swapped(old(pixels)@),
{
    let n = pixels.len();
    let full = n - n % 4;
    let ghost orig = pixels@;
    let ghost target = red_blue_swapped(orig);
    let mut i: usize = 0;
    while i < full
        invariant
            n == orig.len(),
            full == n - n % 4,
            full % 4 == 0,
            i % 4 == 0,
            0 <= i <= full,
            target == red_blue_swapped(orig),
            pixels@.len() == n,
            forall|k: int| 0 <= k < i ==> #[trigger] pixels@[k] == target[k],
            forall|k: int| i <= k < n ==> #[trigger] pixels@[k] == orig[k],
        decreases full - i,
    {
        let b = pixels[i];
        let r = pixels[i + 2];
        pixels.set(i, r);
        pixels.set(i + 2, b);
        proof {
            assert((i + 0) % 4 == 0 && (i + 1) % 4 == 1 && (i + 2) % 4 == 2 && (i + 3) % 4 == 3);
            assert(target[i as int] == orig[i + 2]);
            assert(target[i + 1] == orig[i + 1]);
            assert(target[i + 2] == orig[i as int]);
            assert(target[i + 3] == orig[i + 3]);
        }
        i = i + 4;
    }
    proof {
        assert forall|k: int| 0 <= k < n implies #[trigger] pixels@[k] == target[k] by {
            if k >= full {
                assert(target[k] == orig[k]);
            }
        }
    }
    assert(pixels@ =~= target);
}

/// Swapping red and blue twice restores the buffer.
pub proof fn lemma_swap_red_blue_involution(p: Seq<u8>)
    ensures
        red_blue_swapped(red_blue_swapped(p)) == p,
{
    assert(red_blue_swapped(red_blue_swapped(p)) =~= p);
}

/// The buffer with red and blue swapped and alpha set to 255 in every
/// complete pixel.
pub open spec fn opaque_swapped(p: Seq<u8>) -> Seq<u8> {
    Seq::new(
        p.len(),
        |k: int|
            if k < p.len() - p.len() % 4 && k % 4 == 3 {
                255u8
            } else {
                red_blue_swapped(p)[k]
            },
    )
}

/// Converts renderer RGBA pixels to opaque GDI BGRA in place.
pub fn to_opaque_bgra(pixels: &mut Vec<u8>)
    ensures
        final(pixels)@ == opaque_swapped(old(pixels)@),
{
    let n = pixels.len();
    let full = n - n % 4;
    let ghost orig = pixels@;
    let ghost target = opaque_swapped(orig);
    let ghost sw = red_blue_swapped(orig);
    let mut i: usize = 0;
    while i < full
        invariant
            n == orig.len(),
            full == n - n % 4,
            full % 4 == 0,
            i % 4 == 0,
            0 <= i <= full,
            target == opaque_swapped(orig),
            sw == red_blue_swapped(orig),
            pixels@.len() == n,
            forall|k: int| 0 <= k < i ==> #[trigger] pixels@[k] == target[k],
            forall|k: int| i <= k < n ==> #[trigger] pixels@[k] == orig[k],
        decreases full - i,
    {
        let b = pixels[i];
        let r = pixels[i + 2];
        pixels.set(i, r);
        pixels.set(i + 2, b);
        pixels.set(i + 3, 255u8);
        proof {
            assert((i + 0) % 4 == 0 && (i + 1) % 4 == 1 && (i + 2) % 4 == 2 && (i + 3) % 4 == 3);
            assert(sw[i as int] == orig[i + 2]);
            assert(sw[i + 1] == orig[i + 1]);
            assert(sw[i + 2] == orig[i as int]);
            assert(target[i as int] == orig[i + 2]);
            assert(target[i + 1] == orig[i + 1]);
            assert(target[i + 2] == orig[i as int]);
            assert(target[i + 3] == 255u8);
        }
        i = i + 4;
    }
    proof {
        assert forall|k: int| 0 <= k < n implies #[trigger] pixels@[k] == target[k] by {
            if k >= full {
                assert(sw[k] == orig[k]);
                assert(target[k] == orig[k]);
            }
        }
    }
    assert(pixels@ =~= target);
}

/// Three bytes per complete pixel, picked by `order` from each 4-byte
/// pixel.
pub open spec fn pick3(p: Seq<u8>, first: int, second: int, third: int) -> Seq<u8> {
    Seq::new(
        (p.len() / 4 * 3) as nat,
        |k: int|
            if k % 3 == 0 {
                p[(k / 3) * 4 + first]
            } else if k % 3 == 1 {
                p[(k / 3) * 4 + second]
            } else {
                p[(k / 3) * 4 + third]
            },
    )
}

fn pick3_exec(p: &[u8], first: usize, second: usize, third: usize) -> (r: Vec<u8>)
    requires
        first < 4,
        second < 4,
        third < 4,
    ensures
        r@ == pick3(p@, first as int, second as int, third as int),
{
    let len = p.len();
    let n = len / 4;
    let mut r: Vec<u8> = Vec::new();
    let mut i: usize = 0;
    while i < n
        invariant
            len == p@.len(),
            n == len / 4,
            0 <= i <= n,
            first < 4,
            second < 4,
            third < 4,
            r@.len() == i * 3,
            forall|k: int| 0 <= k < i * 3 ==> #[trigger] r@[k] == pick3(p@, first as int, second as int, third as int)[k],
        decreases n - i,
    {
        assert(i * 4 + 4 <= len) by (nonlinear_arith)
            requires i < n, n == len / 4;
        let base = i * 4;
        r.push(p[base + first]);
        r.push(p[base + second]);
        r.push(p[base + third]);
        proof {
            let q = pick3(p@, first as int, second as int, third as int);
            assert forall|k: int| 0 <= k < (i + 1) * 3 implies #[trigger] r@[k] == q[k] by {
                if k >= i * 3 {
                    assert(k / 3 == i);
                }
            }
        }
        i = i + 1;
    }
    assert(r@ =~= pick3(p@, first as int, second as int, third as int));
    r
}

/// The RGB bytes of GDI BGRA pixels (for JPEG encoding).
pub fn bgra_to_rgb(pixels: &[u8]) -> (rgb: Vec<u8>)
    ensures
        rgb@ == pick3(pixels@, 2, 1, 0),
{
    pick3_exec(pixels, 2, 1, 0)
}

/// The RGB bytes of RGBA pixels (alpha dropped, for JPEG encoding).
pub fn rgba_to_rgb(pixels: &[u8]) -> (rgb: Vec<u8>)
    ensures
        rgb@ == pick3(pixels@, 0, 1, 2),
{
    pick3_exec(pixels, 0, 1, 2)
}

/// The colour used where a mosaic block cannot be sampled: opaque grey.
pub open spec fn fallback_grey() -> u32 {
    0xFF80_8080
}

/// The ARGB colour of pixel `(x, y)` of a `width` x `height` RGBA image,
/// or opaque grey when the pixel lies outside the image or its bytes are
/// missing.
pub open spec fn rgba_sample(data: Seq<u8>, width: int, height: int, x: int, y: int) -> int {
    let idx = (y * width + x) * 4;
    if 0 <= x < width && 0 <= y < height && idx + 3 < data.len() {
        (data[idx + 3] as u32) * 0x100_0000 + (data[idx] as u32) * 0x1_0000 + (data[idx + 1] as u32)
            * 0x100 + (data[idx + 2] as u32)
    } else {
        fallback_grey() as int
    }
}

/// Samples the colour of a mosaic block from an RGBA image.
pub fn sample_rgba(data: &[u8], width: i32, height: i32, x: i32, y: i32) -> (c: u32)
    ensures
        c == rgba_sample(data@, width as int, height as int, x as int, y as int),
{
    if x >= 0 && x < width && y >= 0 && y < height {
        let xu = x as u64;
        let yu = y as u64;
        let wu = width as u64;
        assert(yu * wu + xu <= 0x7FFF_FFFFu64 * 0x7FFF_FFFFu64 + 0x7FFF_FFFFu64) by (nonlinear_arith)
            requires
                xu < wu,
                yu <= 0x7FFF_FFFF,
                wu <= 0x7FFF_FFFF,
        ;
        let idx = (yu * wu + xu) * 4;
        if idx + 3 < data.len() as u64 {
            let i = idx as usize;
            let r = data[i];
            let g = data[i + 1];
            let b = data[i + 2];
            let a = data[i + 3];
            let c = crate::color::argb_from_rgba(r, g, b, a);
            proof {
                let (r32, g32, b32, a32) = (r as u32, g as u32, b as u32, a as u32);
                assert(c == (a32 << 24u32) | (r32 << 16u32) | (g32 << 8u32) | b32) by (bit_vector)
                    requires
                        crate::color::argb_red(c) == r32,
                        crate::color::argb_green(c) == g32,
                        crate::color::argb_blue(c) == b32,
                        c >> 24u32 == a32,
                ;
                assert((a32 << 24u32) | (r32 << 16u32) | (g32 << 8u32) | b32 == a32 * 0x100_0000
                    + r32 * 0x1_0000 + g32 * 0x100 + b32) by (bit_vector)
                    requires
                        a32 <= 0xFF,
                        r32 <= 0xFF,
                        g32 <= 0xFF,
                        b32 <= 0xFF,
                ;
            }
            return c;
        }
    }
    0xFF80_8080
}

/// The cached 32-bit pixel at `(x, y)` of an image `width` pixels wide,
/// when the position is on a row of the cache.
pub open spec fn cached_sample(pixels: Seq<u32>, width: int, x: int, y: int) -> Option<u32> {
    let idx = y * width + x;
    if 0 <= x < width && 0 <= y && idx < pixels.len() {
        Some(pixels[idx])
    } else {
        None
    }
}

/// Reads a mosaic block's colour from the cached background pixels.
pub fn sample_cached(pixels: &[u32], width: i32, x: i32, y: i32) -> (c: Option<u32>)
    ensures
        c == cached_sample(pixels@, width as int, x as int, y as int),
{
    if x >= 0 && x < width && y >= 0 {
        let xu = x as u64;
        let yu = y as u64;
        let wu = width as u64;
        assert(yu * wu + xu <= 0x7FFF_FFFFu64 * 0x7FFF_FFFFu64 + 0x7FFF_FFFFu64) by (nonlinear_arith)
            requires
                xu < wu,
                yu <= 0x7FFF_FFFF,
                wu <= 0x7FFF_FFFF,
        ;
        let idx = yu * wu + xu;
        if idx < pixels.len() as u64 {
            return Some(pixels[idx as usize]);
        }
    }
    None
}

} // verus!
