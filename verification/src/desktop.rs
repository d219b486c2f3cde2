//! What is kept of the desktop's monitors and top-level windows: the
//! description of a monitor, and which window frames serve as snap
//! targets.
use vstd::prelude::*;
use crate::geometry::Rect;
use crate::text::{int_decimal, nat_decimal, i64_to_decimal, u64_to_decimal};

verus! {

/// A display monitor.
pub struct MonitorInfo {
    /// Device name, such as `\\.\DISPLAY1`.
    pub name: String,
    /// Bounds in virtual-screen coordinates.
    pub rect: Rect,
    pub dpi_x: u32,
    pub dpi_y: u32,
    pub is_primary: bool,
}

/// A leading (high) surrogate code unit.
pub open spec fn is_high_surrogate(u: u16) -> bool {
    0xD800 <= u <= 0xDBFF
}

/// A trailing (low) surrogate code unit.
pub open spec fn is_low_surrogate(u: u16) -> bool {
    0xDC00 <= u <= 0xDFFF
}

/// The character a surrogate pair encodes.
pub open spec fn surrogate_pair_char(hi: u16, lo: u16) -> char {
    (0x10000 + (hi - 0xD800) * 0x400 + (lo - 0xDC00)) as char
}

/// UTF-16 decoding in which every unpaired surrogate becomes U+FFFD.
pub open spec fn utf16_decode_lossy(units: Seq<u16>) -> Seq<char>
    decreases units.len(),
{
    if units.len() == 0 {
        Seq::empty()
    } else if units.len() >= 2 && is_high_surrogate(units[0]) && is_low_surrogate(units[1]) {
        seq![surrogate_pair_char(units[0], units[1])] + utf16_decode_lossy(
            units.subrange(2, units.len() as int),
        )
    } else if is_high_surrogate(units[0]) || is_low_surrogate(units[0]) {
        seq!['\u{FFFD}'] + utf16_decode_lossy(units.subrange(1, units.len() as int))
    } else {
        seq![units[0] as char] + utf16_decode_lossy(units.subrange(1, units.len() as int))
    }
}

/// `String::from_utf16_lossy`. Claimed, as its documentation says: the
/// code units are decoded as UTF-16, each unpaired surrogate replaced by
/// U+FFFD.
#[verifier::external_body]
fn decode_utf16_lossy(units: &[u16]) -> (r: String)
    ensures
        r@ == utf16_decode_lossy(units@),
{
    String::from_utf16_lossy(units)
}

/// `s` without leading `c` characters.
pub open spec fn strip_leading(s: Seq<char>, c: char) -> Seq<char>
    decreases s.len(),
{
    if s.len() > 0 && s[0] == c {
        strip_leading(s.subrange(1, s.len() as int), c)
    } else {
        s
    }
}

/// `s` without trailing `c` characters.
pub open spec fn strip_trailing(s: Seq<char>, c: char) -> Seq<char>
    decreases s.len(),
{
    if s.len() > 0 && s[s.len() - 1] == c {
        strip_trailing(s.subrange(0, s.len() - 1), c)
    } else {
        s
    }
}

proof fn lemma_strip_leading_skip(s: Seq<char>, c: char, i: int)
    requires
        0 <= i <= s.len(),
        forall|k: int| 0 <= k < i ==> #[trigger] s[k] == c,
    ensures
        strip_leading(s, c) == strip_leading(s.subrange(i, s.len() as int), c),
    decreases i,
{
    if i > 0 {
        let t = s.subrange(1, s.len() as int);
        assert forall|k: int| 0 <= k < i - 1 implies #[trigger] t[k] == c by {
            assert(t[k] == s[k + 1]);
        }
        lemma_strip_leading_skip(t, c, i - 1);
        assert(t.subrange(i - 1, t.len() as int) =~= s.subrange(i, s.len() as int));
    } else {
        assert(s.subrange(0, s.len() as int) =~= s);
    }
}

proof fn lemma_strip_trailing_skip(s: Seq<char>, c: char, j: int)
    requires
        0 <= j <= s.len(),
        forall|k: int| j <= k < s.len() ==> #[trigger] s[k] == c,
    ensures
        strip_trailing(s, c) == strip_trailing(s.subrange(0, j), c),
    decreases s.len() - j,
{
    if j < s.len() {
        let t = s.subrange(0, s.len() - 1);
        assert forall|k: int| j <= k < t.len() implies #[trigger] t[k] == c by {
            assert(t[k] == s[k]);
        }
        lemma_strip_trailing_skip(t, c, j);
        assert(t.subrange(0, j) =~= s.subrange(0, j));
    } else {
        assert(s.subrange(0, j) =~= s);
    }
}

/// `s` with NUL characters removed from both ends (`trim_matches('\0')`).
pub fn trim_nul(s: &str) -> (r: String)
    ensures
        r@ == strip_trailing(strip_leading(s@, '\0'), '\0'),
{
    let v = crate::text::chars_of(s);
    let n = v.len();
    let mut i: usize = 0;
    while i < n && v[i] == '\0'
        invariant
            n == v@.len(),
            v@ == s@,
            i <= n,
            forall|k: int| 0 <= k < i ==> #[trigger] v@[k] == '\0',
        decreases n - i,
    {
        i = i + 1;
    }
    proof {
        lemma_strip_leading_skip(s@, '\0', i as int);
    }
    let ghost rest = s@.subrange(i as int, n as int);
    assert(strip_leading(rest, '\0') == rest);
    let mut j: usize = n;
    while j > i && v[j - 1] == '\0'
        invariant
            n == v@.len(),
            v@ == s@,
            i <= j <= n,
            rest == s@.subrange(i as int, n as int),
            forall|k: int| j <= k < n ==> #[trigger] v@[k] == '\0',
        decreases j - i,
    {
        j = j - 1;
    }
    proof {
        assert forall|k: int| j - i <= k < rest.len() implies #[trigger] rest[k] == '\0' by {
            assert(rest[k] == v@[k + i]);
        }
        lemma_strip_trailing_skip(rest, '\0', j - i);
        assert(rest.subrange(0, j - i) =~= s@.subrange(i as int, j as int));
    }
    String::from_str(s.substring_char(i, j))
}

/// The flag bit that marks the primary monitor.
pub open spec fn primary_flag_set(flags: u32) -> bool {
    flags % 2 == 1
}

/// Describes a monitor from its decoded device name (NUL padded), its
/// bounds, its flags and its DPI.
pub fn monitor_from_name(device_name: &str, rect: Rect, flags: u32, dpi_x: u32, dpi_y: u32) -> (m: MonitorInfo)
    ensures
        m.name@ == strip_trailing(strip_leading(device_name@, '\0'), '\0'),
        m.rect == rect,
        m.dpi_x == dpi_x,
        m.dpi_y == dpi_y,
        m.is_primary == primary_flag_set(flags),
{
    let name = trim_nul(device_name);
    let is_primary = (flags & 1) != 0;
    assert(((flags & 1) != 0) == (flags % 2 == 1)) by (bit_vector);
    MonitorInfo { name, rect, dpi_x, dpi_y, is_primary }
}

/// Describes a monitor from what the system reports: its device name as
/// UTF-16 code units (NUL padded), its bounds, its flags and its DPI.
pub fn monitor_info(device: &[u16], rect: Rect, flags: u32, dpi_x: u32, dpi_y: u32) -> (m: MonitorInfo)
    ensures
        m.name@ == strip_trailing(strip_leading(utf16_decode_lossy(device@), '\0'), '\0'),
        m.rect == rect,
        m.dpi_x == dpi_x,
        m.dpi_y == dpi_y,
        m.is_primary == primary_flag_set(flags),
{
    let decoded = decode_utf16_lossy(device);
    monitor_from_name(decoded.as_str(), rect, flags, dpi_x, dpi_y)
}

/// A top-level window serves as a snap target when it is visible, not
/// minimized, its frame could be read, and the frame is more than 10
/// pixels wide and tall.
pub open spec fn is_snap_window(visible: bool, minimized: bool, frame: Option<Rect>) -> bool {
    match frame {
        Some(r) => visible && !minimized && r.right - r.left > 10 && r.bottom - r.top > 10,
        None => false,
    }
}

/// Whether a window's frame is kept as a snap target.
pub fn keep_window(visible: bool, minimized: bool, frame: Option<Rect>) -> (r: bool)
    ensures
        r == is_snap_window(visible, minimized, frame),
{
    if !visible || minimized {
        return false;
    }
    match frame {
        Some(r) => {
            let w = r.right as i64 - r.left as i64;
            let h = r.bottom as i64 - r.top as i64;
            w > 10 && h > 10
        },
        None => false,
    }
}

/// The key under which a monitor's capture stream is kept: the monitor
/// handle in decimal when the monitor was matched, else `idx_<position>`.
pub open spec fn stream_key(handle: Option<i64>, index: u64) -> Seq<char> {
    match handle {
        Some(h) => int_decimal(h as int),
        None => "idx_"@ + nat_decimal(index as nat),
    }
}

/// The key of a monitor's capture stream.
pub fn stream_id(handle: Option<i64>, index: u64) -> (r: String)
    ensures
        r@ == stream_key(handle, index),
{
    match handle {
        Some(h) => i64_to_decimal(h),
        None => {
            let mut s = String::from_str("idx_");
            let digits = u64_to_decimal(index);
            s.append(digits.as_str());
            s
        },
    }
}

/// The handle a capture monitor is matched to among the enumerated GDI
/// monitors: its own raw handle when a GDI monitor has it, else none.
pub open spec fn matched_handle(gdi_handles: Seq<i64>, handle: i64) -> Option<i64> {
    if gdi_handles.contains(handle) {
        Some(handle)
    } else {
        None
    }
}

/// Whether some GDI monitor has the handle `handle`.
fn has_handle(gdi_handles: &Vec<i64>, handle: i64) -> (r: bool)
    ensures
        r == gdi_handles@.contains(handle),
{
    let mut i: usize = 0;
    while i < gdi_handles.len()
        invariant
            i <= gdi_handles@.len(),
            forall|k: int| 0 <= k < i ==> gdi_handles@[k] != handle,
        decreases gdi_handles@.len() - i,
    {
        if gdi_handles[i] == handle {
            return true;
        }
        i = i + 1;
    }
    false
}

/// The stream keys of the capture monitors, in order: the monitor's handle
/// when an enumerated GDI monitor has the same handle, else `idx_` and its
/// position.
pub fn monitor_stream_keys(capture_handles: &Vec<i64>, gdi_handles: &Vec<i64>) -> (keys: Vec<String>)
    ensures
        keys@.len() == capture_handles@.len(),
        forall|i: int|
            0 <= i < keys@.len() ==> #[trigger] keys@[i]@ == stream_key(
                matched_handle(gdi_handles@, capture_handles@[i]),
                i as u64,
            ),
{
    let mut keys: Vec<String> = Vec::new();
    let mut i: usize = 0;
    while i < capture_handles.len()
        invariant
            i <= capture_handles@.len(),
            keys@.len() == i,
            forall|k: int|
                0 <= k < i ==> #[trigger] keys@[k]@ == stream_key(
                    matched_handle(gdi_handles@, capture_handles@[k]),
                    k as u64,
                ),
        decreases capture_handles@.len() - i,
    {
        let h = capture_handles[i];
        let matched = if has_handle(gdi_handles, h) {
            Some(h)
        } else {
            None
        };
        let key = stream_id(matched, i as u64);
        keys.push(key);
        i = i + 1;
    }
    keys
}

} // verus!
