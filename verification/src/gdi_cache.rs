//! A cache of drawing resources (GDI pens and brushes, GDI+ pens and
//! brushes) keyed by their parameters, so each distinct resource is created
//! once. The resources themselves are made by the caller-supplied
//! constructor (GDI ones from the colour as a COLORREF); the cache decides
//! when one is needed and keeps it.
use vstd::prelude::*;
use std::collections::HashMap;
use crate::color::{to_colorref, colorref_of, argb_red, argb_green, argb_blue};

verus! {

broadcast use vstd::std_specs::hash::group_hash_axioms;

/// Cache key of a GDI pen: pen style, width and colour.
pub open spec fn pen_key(style: u32, width: i32, color: u32) -> u128 {
    (style as int * 0x1_0000_0000_0000_0000 + (width as int + 0x8000_0000) * 0x1_0000_0000
        + color as int) as u128
}

/// Cache key of a GDI+ pen: ARGB colour, width bits and dash style.
pub open spec fn gdiplus_pen_key(argb: u32, width_bits: u32, dash: i32) -> u128 {
    (argb as int * 0x1_0000_0000_0000_0000 + width_bits as int * 0x1_0000_0000 + (dash as int
        + 0x8000_0000)) as u128
}

fn make_pen_key(style: u32, width: i32, color: u32) -> (k: u128)
    ensures
        k == pen_key(style, width, color),
{
    let w = (width as i64 + 0x8000_0000i64) as u128;
    (style as u128) * 0x1_0000_0000_0000_0000u128 + w * 0x1_0000_0000u128 + (color as u128)
}

fn make_gdiplus_pen_key(argb: u32, width_bits: u32, dash: i32) -> (k: u128)
    ensures
        k == gdiplus_pen_key(argb, width_bits, dash),
{
    let d = (dash as i64 + 0x8000_0000i64) as u128;
    (argb as u128) * 0x1_0000_0000_0000_0000u128 + (width_bits as u128) * 0x1_0000_0000u128 + d
}

/// Distinct pen parameters never share a cache entry.
pub proof fn lemma_pen_keys_distinct(s1: u32, w1: i32, c1: u32, s2: u32, w2: i32, c2: u32)
    requires
        pen_key(s1, w1, c1) == pen_key(s2, w2, c2),
    ensures
        s1 == s2 && w1 == w2 && c1 == c2,
{
}

/// Distinct GDI+ pen parameters never share a cache entry.
pub proof fn lemma_gdiplus_pen_keys_distinct(a1: u32, b1: u32, d1: i32, a2: u32, b2: u32, d2: i32)
    requires
        gdiplus_pen_key(a1, b1, d1) == gdiplus_pen_key(a2, b2, d2),
    ensures
        a1 == a2 && b1 == b2 && d1 == d2,
{
}

/// Cached drawing resources: GDI pens `P`, GDI brushes `B`, GDI+ pens `GP`
/// and GDI+ brushes `GB`.
pub struct GdiCache<P, B, GP, GB> {
    pens: HashMap<u128, P>,
    brushes: HashMap<u32, B>,
    gdiplus_pens: HashMap<u128, GP>,
    gdiplus_brushes: HashMap<u32, GB>,
}

/// The contents of a [`GdiCache`].
pub struct GdiCacheView<P, B, GP, GB> {
    pub pens: Map<u128, P>,
    pub brushes: Map<u32, B>,
    pub gdiplus_pens: Map<u128, GP>,
    pub gdiplus_brushes: Map<u32, GB>,
}

impl<P, B, GP, GB> View for GdiCache<P, B, GP, GB> {
    type V = GdiCacheView<P, B, GP, GB>;

    closed spec fn view(&self) -> GdiCacheView<P, B, GP, GB> {
        GdiCacheView {
            pens: self.pens@,
            brushes: self.brushes@,
            gdiplus_pens: self.gdiplus_pens@,
            gdiplus_brushes: self.gdiplus_brushes@,
        }
    }
}

/// The COLORREF a GDI resource of this ARGB colour is made with.
pub open spec fn gdi_color(argb: u32) -> u32 {
    colorref_of(argb_red(argb), argb_green(argb), argb_blue(argb))
}

/// The message when a GDI pen cannot be made.
pub open spec fn pen_failure_message() -> Seq<char> {
    "Failed to create pen"@
}

/// The message when a GDI brush cannot be made.
pub open spec fn brush_failure_message() -> Seq<char> {
    "Failed to create solid brush"@
}

/// One pen lookup: from the cache `v0`, asking for the pen with this style,
/// width and colour, made by `create`, gives `r` and leaves the cache `v1`.
pub open spec fn pen_lookup<P, B, GP, GB, F: FnOnce(u32, i32, u32) -> Option<P>>(
    v0: GdiCacheView<P, B, GP, GB>,
    style_raw: u32,
    width: i32,
    color: u32,
    create: F,
    r: Result<&P, String>,
    v1: GdiCacheView<P, B, GP, GB>,
) -> bool {
    let k = pen_key(style_raw, width, color);
    let args = (style_raw, width, gdi_color(color));
    if v0.pens.contains_key(k) {
        r == Ok::<&P, String>(&v0.pens[k]) && v1 == v0
    } else {
        match r {
            Ok(p) => call_ensures(create, args, Some(*p)) && v1 == (GdiCacheView {
                pens: v0.pens.insert(k, *p),
                ..v0
            }),
            Err(e) => call_ensures(create, args, None::<P>) && e@ == pen_failure_message() && v1 == v0,
        }
    }
}

/// One brush lookup: from the cache `v0`, asking for the brush of `color`,
/// made by `create`, gives `r` and leaves the cache `v1`.
pub open spec fn brush_lookup<P, B, GP, GB, F: FnOnce(u32) -> Option<B>>(
    v0: GdiCacheView<P, B, GP, GB>,
    color: u32,
    create: F,
    r: Result<&B, String>,
    v1: GdiCacheView<P, B, GP, GB>,
) -> bool {
    if v0.brushes.contains_key(color) {
        r == Ok::<&B, String>(&v0.brushes[color]) && v1 == v0
    } else {
        match r {
            Ok(b) => call_ensures(create, (gdi_color(color),), Some(*b)) && v1 == (GdiCacheView {
                brushes: v0.brushes.insert(color, *b),
                ..v0
            }),
            Err(e) => call_ensures(create, (gdi_color(color),), None::<B>) && e@
                == brush_failure_message() && v1 == v0,
        }
    }
}

/// One GDI+ brush lookup: from the cache `v0`, asking for the brush of
/// `argb`, made by `create`, gives `r` and leaves the cache `v1`.
pub open spec fn gdiplus_brush_lookup<P, B, GP, GB, E, F: FnOnce(u32) -> Result<GB, E>>(
    v0: GdiCacheView<P, B, GP, GB>,
    argb: u32,
    create: F,
    r: Result<&GB, E>,
    v1: GdiCacheView<P, B, GP, GB>,
) -> bool {
    if v0.gdiplus_brushes.contains_key(argb) {
        r == Ok::<&GB, E>(&v0.gdiplus_brushes[argb]) && v1 == v0
    } else {
        match r {
            Ok(b) => call_ensures(create, (argb,), Ok::<GB, E>(*b)) && v1 == (GdiCacheView {
                gdiplus_brushes: v0.gdiplus_brushes.insert(argb, *b),
                ..v0
            }),
            Err(e) => call_ensures(create, (argb,), Err::<GB, E>(e)) && v1 == v0,
        }
    }
}

/// One GDI+ pen lookup: from the cache `v0`, asking for the pen with this
/// colour, width and dash style, made by `create`, gives `r` and leaves
/// the cache `v1`.
pub open spec fn gdiplus_pen_lookup<P, B, GP, GB, E, F: FnOnce(u32, u32, i32) -> Result<GP, E>>(
    v0: GdiCacheView<P, B, GP, GB>,
    argb: u32,
    width_bits: u32,
    dash: i32,
    create: F,
    r: Result<&GP, E>,
    v1: GdiCacheView<P, B, GP, GB>,
) -> bool {
    let k = gdiplus_pen_key(argb, width_bits, dash);
    if v0.gdiplus_pens.contains_key(k) {
        r == Ok::<&GP, E>(&v0.gdiplus_pens[k]) && v1 == v0
    } else {
        match r {
            Ok(p) => call_ensures(create, (argb, width_bits, dash), Ok::<GP, E>(*p)) && v1 == (GdiCacheView {
                gdiplus_pens: v0.gdiplus_pens.insert(k, *p),
                ..v0
            }),
            Err(e) => call_ensures(create, (argb, width_bits, dash), Err::<GP, E>(e)) && v1 == v0,
        }
    }
}

/// Every brush cached in `v0` is still cached in `v1`, unchanged, and so
/// is every GDI+ brush.
pub open spec fn keeps_brushes<P, B, GP, GB>(v0: GdiCacheView<P, B, GP, GB>, v1: GdiCacheView<P, B, GP, GB>) -> bool {
    &&& forall|c: u32|
        #[trigger] v0.brushes.contains_key(c) ==> v1.brushes.contains_key(c) && v1.brushes[c] == v0.brushes[c]
    &&& forall|c: u32|
        #[trigger] v0.gdiplus_brushes.contains_key(c) ==> v1.gdiplus_brushes.contains_key(c)
            && v1.gdiplus_brushes[c] == v0.gdiplus_brushes[c]
}

/// Every lookup keeps the cached brushes of both kinds; only `clear`
/// drops them.
pub proof fn lemma_lookups_keep_brushes<
    P,
    B,
    GP,
    GB,
    E,
    F1: FnOnce(u32, i32, u32) -> Option<P>,
    F2: FnOnce(u32) -> Option<B>,
    F3: FnOnce(u32, u32, i32) -> Result<GP, E>,
    F4: FnOnce(u32) -> Result<GB, E>,
>(
    v0: GdiCacheView<P, B, GP, GB>,
    v1: GdiCacheView<P, B, GP, GB>,
    style: u32,
    width: i32,
    color: u32,
    width_bits: u32,
    dash: i32,
    create_pen: F1,
    create_brush: F2,
    create_gp_pen: F3,
    create_gp_brush: F4,
    pen: Result<&P, String>,
    brush: Result<&B, String>,
    gp_pen: Result<&GP, E>,
    gp_brush: Result<&GB, E>,
)
    ensures
        pen_lookup(v0, style, width, color, create_pen, pen, v1) ==> keeps_brushes(v0, v1),
        brush_lookup(v0, color, create_brush, brush, v1) ==> keeps_brushes(v0, v1),
        gdiplus_pen_lookup(v0, color, width_bits, dash, create_gp_pen, gp_pen, v1) ==> keeps_brushes(v0, v1),
        gdiplus_brush_lookup(v0, color, create_gp_brush, gp_brush, v1) ==> keeps_brushes(v0, v1),
{
}

/// Over any run of calls that each keep the cached brushes (every lookup
/// does; only `clear` drops them), a brush cached at the start is still
/// cached at the end, unchanged, and so is a GDI+ brush.
pub proof fn lemma_brushes_persist<P, B, GP, GB>(trace: Seq<GdiCacheView<P, B, GP, GB>>)
    requires
        trace.len() >= 1,
        forall|i: int| 0 <= i < trace.len() - 1 ==> #[trigger] keeps_brushes(trace[i], trace[i + 1]),
    ensures
        keeps_brushes(trace[0], trace[trace.len() - 1]),
    decreases trace.len(),
{
    if trace.len() > 1 {
        let front = trace.drop_last();
        assert forall|i: int| 0 <= i < front.len() - 1 implies #[trigger] keeps_brushes(front[i], front[i + 1]) by {
            assert(front[i] == trace[i] && front[i + 1] == trace[i + 1]);
            assert(keeps_brushes(trace[i], trace[i + 1]));
        }
        lemma_brushes_persist(front);
        let m = trace.len() - 2;
        assert(keeps_brushes(trace[m], trace[m + 1]));
        assert(front[front.len() - 1] == trace[m]);
    }
}

/// After any run of calls without `clear`, asking for the brush of a
/// colour that was cached at the start gives that brush; nothing is
/// created and the cache is left as it was.
pub proof fn lemma_cached_brush_reused<P, B, GP, GB, F: FnOnce(u32) -> Option<B>>(
    trace: Seq<GdiCacheView<P, B, GP, GB>>,
    color: u32,
    create: F,
    r: Result<&B, String>,
    after: GdiCacheView<P, B, GP, GB>,
)
    requires
        trace.len() >= 1,
        trace[0].brushes.contains_key(color),
        forall|i: int| 0 <= i < trace.len() - 1 ==> #[trigger] keeps_brushes(trace[i], trace[i + 1]),
        brush_lookup(trace[trace.len() - 1], color, create, r, after),
    ensures
        r == Ok::<&B, String>(&trace[0].brushes[color]),
        after == trace[trace.len() - 1],
{
    lemma_brushes_persist(trace);
}

/// After any run of calls without `clear`, asking for the GDI+ brush of a
/// colour that was cached at the start gives that brush; nothing is
/// created and the cache is left as it was.
pub proof fn lemma_cached_gdiplus_brush_reused<P, B, GP, GB, E, F: FnOnce(u32) -> Result<GB, E>>(
    trace: Seq<GdiCacheView<P, B, GP, GB>>,
    argb: u32,
    create: F,
    r: Result<&GB, E>,
    after: GdiCacheView<P, B, GP, GB>,
)
    requires
        trace.len() >= 1,
        trace[0].gdiplus_brushes.contains_key(argb),
        forall|i: int| 0 <= i < trace.len() - 1 ==> #[trigger] keeps_brushes(trace[i], trace[i + 1]),
        gdiplus_brush_lookup(trace[trace.len() - 1], argb, create, r, after),
    ensures
        r == Ok::<&GB, E>(&trace[0].gdiplus_brushes[argb]),
        after == trace[trace.len() - 1],
{
    lemma_brushes_persist(trace);
}

/// Asking twice for the brush of one colour, with nothing between, gives
/// the brush the first request made or found; the second request creates
/// nothing and leaves every cached entry as it was.
pub proof fn lemma_repeated_brush_lookup<P, B, GP, GB, F1: FnOnce(u32) -> Option<B>, F2: FnOnce(u32) -> Option<B>>(
    v0: GdiCacheView<P, B, GP, GB>,
    color: u32,
    create1: F1,
    r1: Result<&B, String>,
    v1: GdiCacheView<P, B, GP, GB>,
    create2: F2,
    r2: Result<&B, String>,
    v2: GdiCacheView<P, B, GP, GB>,
)
    requires
        brush_lookup(v0, color, create1, r1, v1),
        r1 is Ok,
        brush_lookup(v1, color, create2, r2, v2),
    ensures
        r2 == r1,
        v2 == v1,
        v1.brushes.contains_key(color),
{
}

/// Asking twice for the GDI+ brush of one colour, with nothing between,
/// gives the brush the first request made or found; the second request
/// creates nothing and leaves every cached entry as it was.
pub proof fn lemma_repeated_gdiplus_brush_lookup<P, B, GP, GB, E, F1: FnOnce(u32) -> Result<GB, E>, F2: FnOnce(u32) -> Result<GB, E>>(
    v0: GdiCacheView<P, B, GP, GB>,
    argb: u32,
    create1: F1,
    r1: Result<&GB, E>,
    v1: GdiCacheView<P, B, GP, GB>,
    create2: F2,
    r2: Result<&GB, E>,
    v2: GdiCacheView<P, B, GP, GB>,
)
    requires
        gdiplus_brush_lookup(v0, argb, create1, r1, v1),
        r1 is Ok,
        gdiplus_brush_lookup(v1, argb, create2, r2, v2),
    ensures
        r2 == r1,
        v2 == v1,
        v1.gdiplus_brushes.contains_key(argb),
{
}

impl<P, B, GP, GB> GdiCache<P, B, GP, GB> {
    /// An empty cache.
    pub fn new() -> (c: Self)
        ensures
            c@.pens == Map::<u128, P>::empty(),
            c@.brushes == Map::<u32, B>::empty(),
            c@.gdiplus_pens == Map::<u128, GP>::empty(),
            c@.gdiplus_brushes == Map::<u32, GB>::empty(),
    {
        GdiCache {
            pens: HashMap::new(),
            brushes: HashMap::new(),
            gdiplus_pens: HashMap::new(),
            gdiplus_brushes: HashMap::new(),
        }
    }

    /// The GDI pen with this raw style, width and ARGB colour, made the
    /// first time it is asked for by `create` from the style, the width and
    /// the colour as a COLORREF, and reused afterwards. When `create` makes
    /// nothing the cache is unchanged and the error says so.
    pub fn get_gdi_pen<F: FnOnce(u32, i32, u32) -> Option<P>>(
        &mut self,
        style_raw: u32,
        width: i32,
        color: u32,
        create: F,
    ) -> (r: Result<&P, String>)
        requires
            call_requires(create, (style_raw, width, gdi_color(color))),
        ensures
            pen_lookup(old(self)@, style_raw, width, color, create, r, final(self)@),
    {
        let key = make_pen_key(style_raw, width, color);
        if !self.pens.contains_key(&key) {
            match create(style_raw, width, to_colorref(color)) {
                Some(pen) => {
                    self.pens.insert(key, pen);
                },
                None => {
                    return Err(String::from_str("Failed to create pen"));
                },
            }
        }
        Ok(self.pens.get(&key).unwrap())
    }

    /// The GDI pen for a `PEN_STYLE` value (see [`GdiCache::get_gdi_pen`]).
    pub fn get_pen<F: FnOnce(u32, i32, u32) -> Option<P>>(
        &mut self,
        style: i32,
        width: i32,
        color: u32,
        create: F,
    ) -> (r: Result<&P, String>)
        requires
            call_requires(create, (style as u32, width, gdi_color(color))),
        ensures
            pen_lookup(old(self)@, style as u32, width, color, create, r, final(self)@),
    {
        self.get_gdi_pen(style as u32, width, color, create)
    }

    /// The solid GDI brush of this ARGB colour, made the first time by
    /// `create` from the colour as a COLORREF, and reused afterwards. When
    /// `create` makes nothing the cache is unchanged and the error says so.
    pub fn get_brush<F: FnOnce(u32) -> Option<B>>(&mut self, color: u32, create: F) -> (r: Result<&B, String>)
        requires
            call_requires(create, (gdi_color(color),)),
        ensures
            brush_lookup(old(self)@, color, create, r, final(self)@),
    {
        if !self.brushes.contains_key(&color) {
            match create(to_colorref(color)) {
                Some(brush) => {
                    self.brushes.insert(color, brush);
                },
                None => {
                    return Err(String::from_str("Failed to create solid brush"));
                },
            }
        }
        Ok(self.brushes.get(&color).unwrap())
    }

    /// The GDI+ pen with this ARGB colour, width (as `f32` bits) and dash
    /// style, made with `create` the first time.
    pub fn get_gdiplus_pen<E, F: FnOnce(u32, u32, i32) -> Result<GP, E>>(
        &mut self,
        argb: u32,
        width_bits: u32,
        dash: i32,
        create: F,
    ) -> (r: Result<&GP, E>)
        requires
            call_requires(create, (argb, width_bits, dash)),
        ensures
            gdiplus_pen_lookup(old(self)@, argb, width_bits, dash, create, r, final(self)@),
    {
        let key = make_gdiplus_pen_key(argb, width_bits, dash);
        if !self.gdiplus_pens.contains_key(&key) {
            match create(argb, width_bits, dash) {
                Ok(pen) => {
                    self.gdiplus_pens.insert(key, pen);
                },
                Err(e) => {
                    return Err(e);
                },
            }
        }
        Ok(self.gdiplus_pens.get(&key).unwrap())
    }

    /// The solid GDI+ brush of this ARGB colour, made with `create` the
    /// first time.
    pub fn get_gdiplus_brush<E, F: FnOnce(u32) -> Result<GB, E>>(&mut self, argb: u32, create: F) -> (r: Result<&GB, E>)
        requires
            call_requires(create, (argb,)),
        ensures
            gdiplus_brush_lookup(old(self)@, argb, create, r, final(self)@),
    {
        if !self.gdiplus_brushes.contains_key(&argb) {
            match create(argb) {
                Ok(brush) => {
                    self.gdiplus_brushes.insert(argb, brush);
                },
                Err(e) => {
                    return Err(e);
                },
            }
        }
        Ok(self.gdiplus_brushes.get(&argb).unwrap())
    }

    /// Drops every cached resource.
    pub fn clear(&mut self)
        ensures
            final(self)@.pens == Map::<u128, P>::empty(),
            final(self)@.brushes == Map::<u32, B>::empty(),
            final(self)@.gdiplus_pens == Map::<u128, GP>::empty(),
            final(self)@.gdiplus_brushes == Map::<u32, GB>::empty(),
    {
        self.pens.clear();
        self.brushes.clear();
        self.gdiplus_pens.clear();
        self.gdiplus_brushes.clear();
    }
}

} // verus!
