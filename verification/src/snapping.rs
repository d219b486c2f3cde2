//! Snapping a coordinate to nearby window edges.
use vstd::prelude::*;
use crate::geometry::{Rect, dist};
use crate::overlay::{OverlayState, GdiData};

verus! {

/// Whether `|val - t|` can be computed in 32-bit arithmetic for every target.
pub open spec fn snap_in_range(val: int, targets: Seq<i32>) -> bool {
    forall|i: int| 0 <= i < targets.len() ==> i32::MIN < val - #[trigger] targets[i] <= i32::MAX
}

/// Some target lies strictly closer than `threshold`.
pub open spec fn has_snap_target(val: int, targets: Seq<i32>, threshold: int) -> bool {
    exists|i: int| 0 <= i < targets.len() && dist(val, #[trigger] targets[i] as int) < threshold
}

/// `targets[j]` is the target `val` snaps to: strictly within the
/// threshold, no target closer, and no earlier target as close.
pub open spec fn is_snap_choice(val: int, targets: Seq<i32>, threshold: int, j: int) -> bool {
    &&& 0 <= j < targets.len()
    &&& dist(val, targets[j] as int) < threshold
    &&& forall|i: int|
        0 <= i < targets.len() ==> dist(val, #[trigger] targets[i] as int) >= dist(val, targets[j] as int)
    &&& forall|i: int|
        0 <= i < j ==> dist(val, #[trigger] targets[i] as int) > dist(val, targets[j] as int)
}

/// Snaps `val` to the nearest target closer than `threshold` (the first of
/// equally near ones); keeps `val` when no target is that close.
pub fn snap_coordinate(val: i32, targets: &[i32], threshold: i32) -> (r: i32)
    requires
        snap_in_range(val as int, targets@),
    ensures
        !has_snap_target(val as int, targets@, threshold as int) ==> r == val,
        has_snap_target(val as int, targets@, threshold as int) ==> exists|j: int|
            is_snap_choice(val as int, targets@, threshold as int, j) && r == targets@[j],
        // snapping never moves a coordinate by the threshold or more
        r == val || dist(r as int, val as int) < threshold,
        // a coordinate already on a target stays put
        threshold > 0 && targets@.contains(val) ==> r == val,
{
    let mut best = val;
    let mut min_dist = threshold;
    let ghost mut best_j: int = -1;
    let mut k: usize = 0;
    while k < targets.len()
        invariant
            0 <= k <= targets@.len(),
            snap_in_range(val as int, targets@),
            best_j == -1 ==> best == val && min_dist == threshold && forall|i: int|
                0 <= i < k ==> dist(val as int, #[trigger] targets@[i] as int) >= threshold,
            best_j != -1 ==> {
                &&& 0 <= best_j < k
                &&& best == targets@[best_j]
                &&& min_dist == dist(val as int, targets@[best_j] as int)
                &&& min_dist < threshold
                &&& forall|i: int|
                    0 <= i < k ==> dist(val as int, #[trigger] targets@[i] as int) >= min_dist
                &&& forall|i: int|
                    0 <= i < best_j ==> dist(val as int, #[trigger] targets@[i] as int) > min_dist
            },
        decreases targets@.len() - k,
    {
        let target = targets[k];
        assert(i32::MIN < val - targets@[k as int] <= i32::MAX);
        let diff = val - target;
        let d = if diff >= 0 { diff } else { -diff };
        assert(d == dist(val as int, targets@[k as int] as int));
        if d < min_dist {
            min_dist = d;
            best = target;
            proof {
                best_j = k as int;
            }
        }
        k = k + 1;
    }
    proof {
        if best_j != -1 {
            assert(is_snap_choice(val as int, targets@, threshold as int, best_j));
            if threshold > 0 && targets@.contains(val) {
                let w = choose|w: int| 0 <= w < targets@.len() && targets@[w] == val;
                assert(dist(val as int, targets@[w] as int) == 0);
            }
        } else {
            if threshold > 0 && targets@.contains(val) {
                let w = choose|w: int| 0 <= w < targets@.len() && targets@[w] == val;
                assert(dist(val as int, targets@[w] as int) == 0);
            }
            assert(!has_snap_target(val as int, targets@, threshold as int));
        }
    }
    best
}


/// Left and right edges of each window, shifted into canvas space.
pub open spec fn window_edges_x(rects: Seq<Rect>, ox: int) -> Seq<i32>
    decreases rects.len(),
{
    if rects.len() == 0 {
        Seq::empty()
    } else {
        window_edges_x(rects.drop_last(), ox) + seq![
            (rects.last().left - ox) as i32,
            (rects.last().right - ox) as i32,
        ]
    }
}

/// Top and bottom edges of each window, shifted into canvas space.
pub open spec fn window_edges_y(rects: Seq<Rect>, oy: int) -> Seq<i32>
    decreases rects.len(),
{
    if rects.len() == 0 {
        Seq::empty()
    } else {
        window_edges_y(rects.drop_last(), oy) + seq![
            (rects.last().top - oy) as i32,
            (rects.last().bottom - oy) as i32,
        ]
    }
}

/// The snap lines for a set of windows: their edges, then the canvas
/// boundaries; no lines at all without windows.
pub open spec fn snap_lines(rects: Seq<Rect>, origin: int, extent: i32, vertical: bool) -> Seq<i32> {
    if rects.len() == 0 {
        Seq::empty()
    } else if vertical {
        window_edges_x(rects, origin) + seq![0i32, extent]
    } else {
        window_edges_y(rects, origin) + seq![0i32, extent]
    }
}

proof fn lemma_window_edges(rects: Seq<Rect>, ox: int, oy: int)
    requires
        snap_lines_in_range(rects, ox, oy),
    ensures
        window_edges_x(rects, ox).len() == 2 * rects.len(),
        window_edges_y(rects, oy).len() == 2 * rects.len(),
        forall|k: int|
            0 <= k < rects.len() ==> {
                &&& window_edges_x(rects, ox)[2 * k] == (#[trigger] rects[k]).left - ox
                &&& window_edges_x(rects, ox)[2 * k + 1] == rects[k].right - ox
                &&& window_edges_y(rects, oy)[2 * k] == rects[k].top - oy
                &&& window_edges_y(rects, oy)[2 * k + 1] == rects[k].bottom - oy
            },
    decreases rects.len(),
{
    if rects.len() > 0 {
        let front = rects.drop_last();
        assert forall|i: int| 0 <= i < front.len() implies {
            &&& i32::MIN <= (#[trigger] front[i]).left - ox <= i32::MAX
            &&& i32::MIN <= front[i].right - ox <= i32::MAX
            &&& i32::MIN <= front[i].top - oy <= i32::MAX
            &&& i32::MIN <= front[i].bottom - oy <= i32::MAX
        } by {
            assert(front[i] == rects[i]);
        }
        lemma_window_edges(front, ox, oy);
        let n = rects.len() - 1;
        assert(rects[n] == rects.last());
        assert forall|k: int| 0 <= k < rects.len() implies {
            &&& window_edges_x(rects, ox)[2 * k] == (#[trigger] rects[k]).left - ox
            &&& window_edges_x(rects, ox)[2 * k + 1] == rects[k].right - ox
            &&& window_edges_y(rects, oy)[2 * k] == rects[k].top - oy
            &&& window_edges_y(rects, oy)[2 * k + 1] == rects[k].bottom - oy
        } by {
            if k < n {
                assert(front[k] == rects[k]);
            }
        }
    }
}

/// The snap lines of a set of windows: for each window `k`, in order, its
/// left and right edges shifted by the origin `ox` (its top and bottom
/// edges shifted by `oy` for the horizontal lines), then the canvas
/// boundaries 0 and the canvas width (height); none without windows.
pub proof fn lemma_snap_lines_cover_windows(rects: Seq<Rect>, ox: int, oy: int, width: i32, height: i32)
    requires
        snap_lines_in_range(rects, ox, oy),
    ensures
        ({
            let xs = snap_lines(rects, ox, width, true);
            let ys = snap_lines(rects, oy, height, false);
            let n = rects.len() as int;
            &&& n == 0 ==> xs.len() == 0 && ys.len() == 0
            &&& n > 0 ==> {
                &&& xs.len() == 2 * n + 2
                &&& ys.len() == 2 * n + 2
                &&& xs[2 * n] == 0 && xs[2 * n + 1] == width
                &&& ys[2 * n] == 0 && ys[2 * n + 1] == height
                &&& forall|k: int|
                    0 <= k < n ==> {
                        &&& xs[2 * k] == (#[trigger] rects[k]).left - ox
                        &&& xs[2 * k + 1] == rects[k].right - ox
                        &&& ys[2 * k] == rects[k].top - oy
                        &&& ys[2 * k + 1] == rects[k].bottom - oy
                    }
            }
        }),
{
    lemma_window_edges(rects, ox, oy);
    let n = rects.len() as int;
    if n > 0 {
        let ex = window_edges_x(rects, ox);
        let ey = window_edges_y(rects, oy);
        let xs = snap_lines(rects, ox, width, true);
        let ys = snap_lines(rects, oy, height, false);
        assert forall|k: int| 0 <= k < n implies {
            &&& xs[2 * k] == (#[trigger] rects[k]).left - ox
            &&& xs[2 * k + 1] == rects[k].right - ox
            &&& ys[2 * k] == rects[k].top - oy
            &&& ys[2 * k + 1] == rects[k].bottom - oy
        } by {
            assert(xs[2 * k] == ex[2 * k] && xs[2 * k + 1] == ex[2 * k + 1]);
            assert(ys[2 * k] == ey[2 * k] && ys[2 * k + 1] == ey[2 * k + 1]);
        }
    }
}

/// Every window edge, shifted by the capture origin, is a 32-bit value.
pub open spec fn snap_lines_in_range(rects: Seq<Rect>, ox: int, oy: int) -> bool {
    forall|i: int|
        0 <= i < rects.len() ==> {
            &&& i32::MIN <= (#[trigger] rects[i]).left - ox <= i32::MAX
            &&& i32::MIN <= rects[i].right - ox <= i32::MAX
            &&& i32::MIN <= rects[i].top - oy <= i32::MAX
            &&& i32::MIN <= rects[i].bottom - oy <= i32::MAX
        }
}

/// Rebuilds the snap-line caches from the window rectangles and marks them
/// fresh.
pub fn update_snap_lines<X>(state: &mut OverlayState<X>)
    requires
        snap_lines_in_range(old(state).window_rects@, old(state).capture_x as int, old(state).capture_y as int),
    ensures
        final(state).gdi.snap_x_cache@ == snap_lines(old(state).window_rects@, old(state).capture_x as int, old(state).width, true),
        final(state).gdi.snap_y_cache@ == snap_lines(old(state).window_rects@, old(state).capture_y as int, old(state).height, false),
        *final(state) == (OverlayState {
            gdi: GdiData {
                snap_x_cache: final(state).gdi.snap_x_cache,
                snap_y_cache: final(state).gdi.snap_y_cache,
                ..old(state).gdi
            },
            snapping_dirty: false,
            ..*old(state)
        }),
{
    state.gdi.snap_x_cache.clear();
    state.gdi.snap_y_cache.clear();

    if state.window_rects.len() > 0 {
        let ox = state.capture_x;
        let oy = state.capture_y;
        let mut i: usize = 0;
        while i < state.window_rects.len()
            invariant
                0 <= i <= state.window_rects@.len(),
                *state == (OverlayState {
                    gdi: GdiData {
                        snap_x_cache: state.gdi.snap_x_cache,
                        snap_y_cache: state.gdi.snap_y_cache,
                        ..old(state).gdi
                    },
                    ..*old(state)
                }),
                ox == state.capture_x,
                oy == state.capture_y,
                snap_lines_in_range(state.window_rects@, ox as int, oy as int),
                state.gdi.snap_x_cache@ == window_edges_x(state.window_rects@.take(i as int), ox as int),
                state.gdi.snap_y_cache@ == window_edges_y(state.window_rects@.take(i as int), oy as int),
            decreases state.window_rects@.len() - i,
        {
            let r = state.window_rects[i];
            assert(state.window_rects@.take(i + 1).drop_last() =~= state.window_rects@.take(i as int));
            assert(state.window_rects@.take(i + 1).last() == r);
            state.gdi.snap_x_cache.push(r.left - ox);
            state.gdi.snap_x_cache.push(r.right - ox);
            state.gdi.snap_y_cache.push(r.top - oy);
            state.gdi.snap_y_cache.push(r.bottom - oy);
            i = i + 1;
        }
        assert(state.window_rects@.take(i as int) =~= state.window_rects@);

        // canvas boundaries
        state.gdi.snap_x_cache.push(0);
        state.gdi.snap_x_cache.push(state.width);
        state.gdi.snap_y_cache.push(0);
        state.gdi.snap_y_cache.push(state.height);
    }

    state.snapping_dirty = false;
}

} // verus!
