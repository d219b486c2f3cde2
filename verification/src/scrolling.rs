//! Around a scrolling capture: ending the session and taking the stitched
//! image, naming the cached result, and deciding which cached results are
//! old enough to delete.
use vstd::prelude::*;
use crate::stitch::{Stitcher, RgbaFrame, StitchError, stitch_defined, stitch_outcome};
use crate::overlay::OverlayState;
use crate::text::{seq_starts_with, starts_with};

verus! {

/// A lowercase hexadecimal digit.
pub open spec fn is_lower_hex(c: char) -> bool {
    ('0' <= c && c <= '9') || ('a' <= c && c <= 'f')
}

/// The text of a random (version 4) UUID in hyphenated lowercase form:
/// `xxxxxxxx-xxxx-4xxx-yxxx-xxxxxxxxxxxx` with `y` one of `8 9 a b`.
pub open spec fn is_uuid_v4_text(s: Seq<char>) -> bool {
    &&& s.len() == 36
    &&& forall|i: int|
        0 <= i < 36 ==> if i == 8 || i == 13 || i == 18 || i == 23 {
            #[trigger] s[i] == '-'
        } else {
            is_lower_hex(s[i])
        }
    &&& s[14] == '4'
    &&& (s[19] == '8' || s[19] == '9' || s[19] == 'a' || s[19] == 'b')
}

/// `uuid::Uuid::new_v4().to_string()`. Claimed: the text of a version 4
/// UUID in hyphenated lowercase form; the random bits are not stated.
#[verifier::external_body]
pub(crate) fn new_uuid_v4_text() -> (r: String)
    ensures
        is_uuid_v4_text(r@),
{
    uuid::Uuid::new_v4().to_string()
}

/// The cache file name of a stitched result: `scrolling_<id>.png`.
pub fn scrolling_file_name(id: &str) -> (r: String)
    ensures
        r@ == "scrolling_"@ + id@ + ".png"@,
{
    let mut name = String::from_str("scrolling_");
    name.append(id);
    name.append(".png");
    name
}

/// A fresh cache file name for a stitched result, unique by a random UUID.
pub fn new_scrolling_file_name() -> (r: String)
    ensures
        exists|id: Seq<char>| is_uuid_v4_text(id) && r@ == "scrolling_"@ + id + ".png"@,
{
    let id = new_uuid_v4_text();
    scrolling_file_name(id.as_str())
}

/// How long a cached result is kept, in seconds.
pub open spec fn cache_lifetime_secs() -> int {
    86400
}

/// An age (whole seconds and the nanoseconds beyond) exceeds one day.
pub open spec fn older_than_a_day(secs: u64, nanos: u32) -> bool {
    secs > cache_lifetime_secs() || (secs == cache_lifetime_secs() && nanos > 0)
}

/// A cache entry is deleted when it is a file with the `png` extension
/// whose name starts with `scrolling_` and whose last change is more than
/// a day old (`age` is `None` when it cannot be told).
pub open spec fn is_stale_entry(is_file: bool, extension: Option<Seq<char>>, name: Seq<char>, age: Option<(u64, u32)>) -> bool {
    &&& is_file
    &&& extension == Some("png"@)
    &&& seq_starts_with(name, "scrolling_"@)
    &&& match age {
        Some((s, n)) => older_than_a_day(s, n),
        None => false,
    }
}

/// Whether a cache entry should be deleted.
pub fn is_stale_scroll_cache(is_file: bool, extension: Option<&str>, name: &str, age: Option<(u64, u32)>) -> (r: bool)
    ensures
        r == is_stale_entry(
            is_file,
            match extension {
                Some(e) => Some(e@),
                None => None,
            },
            name@,
            age,
        ),
{
    if !is_file {
        return false;
    }
    let png_ext = match extension {
        Some(e) => String::from_str(e) == String::from_str("png"),
        None => false,
    };
    if !png_ext {
        return false;
    }
    if !starts_with(name, "scrolling_") {
        return false;
    }
    match age {
        Some((s, n)) => s > 86400 || (s == 86400 && n > 0),
        None => false,
    }
}

/// A cached result named by [`scrolling_file_name`] is deleted by the
/// cache clean-up exactly when it is more than a day old.
pub proof fn lemma_cached_results_expire(id: Seq<char>, secs: u64, nanos: u32)
    ensures
        is_stale_entry(true, Some("png"@), "scrolling_"@ + id + ".png"@, Some((secs, nanos)))
            == older_than_a_day(secs, nanos),
{
    let name = "scrolling_"@ + id + ".png"@;
    assert(name.subrange(0, "scrolling_"@.len() as int) =~= "scrolling_"@);
}

/// Starts a scrolling session with its first frame: the overlay enters
/// scrolling mode and the session stitches onto that frame.
pub fn begin_scrolling<X>(state: &mut OverlayState<X>, session: &mut Option<Stitcher>, first_frame: RgbaFrame)
    ensures
        *final(state) == (OverlayState { is_scrolling: true, ..*old(state) }),
        *final(session) matches Some(st) && st.current_image@ == first_frame@,
{
    *session = Some(Stitcher::new(first_frame));
    state.is_scrolling = true;
}

/// What one tick of the capture loop leads to.
pub enum ScrollStep {
    /// Rows were added; the progress event reports how many.
    Progress(u32),
    /// Nothing new was found.
    NoChange,
    /// The loop ends, with the reason.
    Stop(String),
}

/// The reason a tick fails when the session has gone.
pub open spec fn lost_session_message() -> Seq<char> {
    "Stitcher lost"@
}

/// The message of a stitching error.
pub open spec fn stitch_error_message(e: StitchError) -> Seq<char> {
    match e {
        StitchError::MaxHeightReached => "Maximum height reached for scrolling capture"@,
        StitchError::WidthMismatch => "Frame width mismatch"@,
    }
}

/// One tick of the capture loop: the frame just captured (or why it could
/// not be) is stitched onto the session's image.
pub fn scroll_tick(session: &mut Option<Stitcher>, frame: Result<RgbaFrame, String>) -> (step: ScrollStep)
    requires
        frame matches Ok(f) && *old(session) matches Some(st) ==> stitch_defined(
            st.current_image@,
            f@,
        ),
    ensures
        match frame {
            Err(e) => step matches ScrollStep::Stop(m) && m@ == e@ && *final(session) == *old(session),
            Ok(f) => match *old(session) {
                None => step matches ScrollStep::Stop(m) && m@ == lost_session_message()
                    && final(session).is_none(),
                Some(st) => {
                    let (res, img) = stitch_outcome(st.current_image@, f@);
                    &&& *final(session) matches Some(st2) && st2.current_image@ == img
                    &&& match res {
                        Ok(n) => if n > 0 {
                            step matches ScrollStep::Progress(k) && k == n
                        } else {
                            step is NoChange
                        },
                        Err(e) => step matches ScrollStep::Stop(m) && m@ == stitch_error_message(e),
                    }
                },
            },
        },
{
    let f = match frame {
        Ok(f) => f,
        Err(e) => {
            return ScrollStep::Stop(e);
        },
    };
    match session {
        Some(st) => match st.add_frame(&f) {
            Ok(n) => if n > 0 {
                ScrollStep::Progress(n)
            } else {
                ScrollStep::NoChange
            },
            Err(e) => ScrollStep::Stop(e.message()),
        },
        None => ScrollStep::Stop(String::from_str("Stitcher lost")),
    }
}

/// The message when a session is stopped that never started.
pub open spec fn no_session_message() -> Seq<char> {
    "No active scrolling session"@
}

/// Ends a scrolling session: the overlay leaves scrolling mode, and the
/// stitched image is taken out of the session; an error when there is no
/// session.
pub fn finish_scrolling<X>(state: &mut OverlayState<X>, session: &mut Option<Stitcher>) -> (r: Result<RgbaFrame, String>)
    ensures
        *final(state) == (OverlayState { is_scrolling: false, ..*old(state) }),
        final(session).is_none(),
        match (r, *old(session)) {
            (Ok(img), Some(st)) => img@ == st.current_image@,
            (Err(e), None) => e@ == no_session_message(),
            _ => false,
        },
{
    state.is_scrolling = false;
    match session.take() {
        Some(stitcher) => Ok(stitcher.current_image),
        None => Err(String::from_str("No active scrolling session")),
    }
}

} // verus!
