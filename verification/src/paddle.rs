//! The PaddleOCR-json component: what the installation status reports,
//! what the release service's reply yields and which release asset is
//! downloaded, how the download reports progress,
//! when the resident recognizer process is reused, how its start-up and
//! replies are read, and the request line it is sent.
use vstd::prelude::*;
use crate::text::{sort_strings, sorted_strings, views, int_decimal, i64_to_decimal, trimmed, trim, seq_starts_with, seq_ends_with, seq_contains, starts_with, ends_with, contains, lowercase, to_lowercase};
use crate::encoding::{base64_standard, encode_base64};
use crate::json::{JsonValue, member, json_text, get_member, json_to_text};

verus! {

/// What the settings page shows about the local component.
pub struct PaddleStatus {
    pub installed: bool,
    pub dir: String,
    pub version: Option<String>,
    pub languages: Vec<String>,
}

/// The result of comparing the installed component with the latest release.
pub struct PaddleUpdateInfo {
    pub current: Option<String>,
    pub latest: Option<String>,
    pub has_update: bool,
}

/// The view of an optional string.
pub open spec fn opt_view(o: Option<String>) -> Option<Seq<char>> {
    match o {
        Some(s) => Some(s@),
        None => None,
    }
}

/// The installed version recorded in `version.txt`: its trimmed text, or
/// nothing when the file is missing or holds only white space.
pub open spec fn recorded_version(contents: Option<Seq<char>>) -> Option<Seq<char>> {
    match contents {
        Some(c) => if trimmed(c).len() > 0 {
            Some(trimmed(c))
        } else {
            None
        },
        None => None,
    }
}

/// Reads the installed version out of the contents of `version.txt`.
pub fn version_from_file(contents: Option<String>) -> (r: Option<String>)
    ensures
        opt_view(r) == recorded_version(opt_view(contents)),
{
    match contents {
        Some(c) => {
            let t = trim(c.as_str());
            if t.as_str().is_empty() {
                None
            } else {
                Some(t)
            }
        },
        None => None,
    }
}

/// The language named by a model configuration file `config_<lang>.txt`.
pub open spec fn config_language(name: Seq<char>) -> Option<Seq<char>> {
    if seq_starts_with(name, "config_"@) && seq_ends_with(name.subrange(7, name.len() as int), ".txt"@) {
        Some(name.subrange(7, name.len() - 4))
    } else {
        None
    }
}

/// The language of a model configuration file name, when it has the form
/// `config_<lang>.txt`.
pub fn language_from_config_name(name: &str) -> (r: Option<String>)
    ensures
        opt_view(r) == config_language(name@),
{
    proof {
        reveal_strlit("config_");
        reveal_strlit(".txt");
    }
    if !starts_with(name, "config_") {
        return None;
    }
    let n = name.unicode_len();
    let rest = name.substring_char(7, n);
    if !ends_with(rest, ".txt") {
        return None;
    }
    let lang = name.substring_char(7, n - 4);
    Some(String::from_str(lang))
}

/// Whether two optional strings are equal.
pub fn opt_string_eq(a: &Option<String>, b: &Option<String>) -> (r: bool)
    ensures
        r == (opt_view(*a) == opt_view(*b)),
{
    match (a, b) {
        (Some(x), Some(y)) => *x == *y,
        (None, None) => true,
        _ => false,
    }
}

/// Builds the update report from the installed version and the tag of the
/// latest release (nothing when it could not be fetched).
pub fn update_info(current: Option<String>, latest_tag: Option<String>) -> (r: PaddleUpdateInfo)
    ensures
        opt_view(r.current) == opt_view(current),
        opt_view(r.latest) == opt_view(latest_tag),
        r.has_update == (latest_tag is Some && opt_view(current) != opt_view(latest_tag)),
{
    let has_update = match &latest_tag {
        Some(_) => !opt_string_eq(&current, &latest_tag),
        None => false,
    };
    PaddleUpdateInfo { current, latest: latest_tag, has_update }
}

/// A release asset that can be installed on Windows: a `.7z` or `.zip`
/// archive that is not a Linux, Docker or source package (judged on the
/// lowercased URL).
pub open spec fn asset_eligible(lower: Seq<char>) -> bool {
    &&& seq_ends_with(lower, ".7z"@) || seq_ends_with(lower, ".zip"@)
    &&& !seq_contains(lower, "linux"@)
    &&& !seq_contains(lower, "docker"@)
    &&& !seq_contains(lower, "source"@)
}

/// How strongly an asset is preferred: a Windows build counts two, a
/// `.7z` archive one.
pub open spec fn asset_rank(lower: Seq<char>) -> int {
    (if seq_contains(lower, "win"@) { 2int } else { 0int }) + (if seq_ends_with(lower, ".7z"@) {
        1int
    } else {
        0int
    })
}

/// The asset chosen among assets whose lowercased URLs are `lower`: an
/// eligible one of the highest rank, the last of those when several share
/// it.
pub open spec fn is_chosen_among(lower: Seq<Seq<char>>, k: int) -> bool {
    &&& 0 <= k < lower.len()
    &&& asset_eligible(lower[k])
    &&& forall|j: int|
        0 <= j < lower.len() && asset_eligible(#[trigger] lower[j]) ==> asset_rank(lower[j])
            <= asset_rank(lower[k])
    &&& forall|j: int|
        k < j < lower.len() && asset_eligible(#[trigger] lower[j]) ==> asset_rank(lower[j])
            < asset_rank(lower[k])
}

/// The lowercased views of a list of strings.
pub open spec fn lowered(v: Seq<Seq<char>>) -> Seq<Seq<char>> {
    v.map_values(|s: Seq<char>| lowercase(s))
}

/// The message when no release asset fits.
pub open spec fn no_asset_message() -> Seq<char> {
    "no suitable windows asset in latest release"@
}

/// The position of the asset to download, given the lowercased asset URLs;
/// nothing when none is eligible.
pub fn choose_asset(lower: &Vec<String>) -> (r: Option<usize>)
    ensures
        match r {
            Some(k) => is_chosen_among(views(lower@), k as int),
            None => forall|j: int| 0 <= j < lower@.len() ==> !asset_eligible(#[trigger] lower@[j]@),
        },
{
    let ghost vs = views(lower@);
    let mut best: Option<usize> = None;
    let mut best_rank: u8 = 0;
    let mut i: usize = 0;
    while i < lower.len()
        invariant
            vs == views(lower@),
            i <= lower@.len(),
            match best {
                Some(k) => {
                    &&& k < i
                    &&& asset_eligible(vs[k as int])
                    &&& best_rank == asset_rank(vs[k as int])
                    &&& forall|j: int|
                        0 <= j < i && asset_eligible(#[trigger] vs[j]) ==> asset_rank(vs[j])
                            <= best_rank
                    &&& forall|j: int|
                        k < j < i && asset_eligible(#[trigger] vs[j]) ==> asset_rank(vs[j])
                            < best_rank
                },
                None => forall|j: int| 0 <= j < i ==> !asset_eligible(#[trigger] vs[j]),
            },
        decreases lower@.len() - i,
    {
        assert(vs[i as int] == lower@[i as int]@);
        let l = lower[i].as_str();
        let eligible = (ends_with(l, ".7z") || ends_with(l, ".zip")) && !contains(l, "linux")
            && !contains(l, "docker") && !contains(l, "source");
        if eligible {
            let rank: u8 = (if contains(l, "win") {
                2u8
            } else {
                0u8
            }) + (if ends_with(l, ".7z") {
                1u8
            } else {
                0u8
            });
            let take = match best {
                Some(_) => rank >= best_rank,
                None => true,
            };
            if take {
                best = Some(i);
                best_rank = rank;
            }
        }
        i = i + 1;
    }
    proof {
        if best is None {
            assert forall|j: int| 0 <= j < lower@.len() implies !asset_eligible(
                #[trigger] lower@[j]@,
            ) by {
                assert(vs[j] == lower@[j]@);
            }
        }
    }
    best
}

/// Picks the download URL among the asset URLs of the latest release,
/// judging each by its lowercased URL.
pub fn select_asset_url(urls: &Vec<String>) -> (r: Result<String, String>)
    ensures
        match r {
            Ok(u) => exists|k: int|
                is_chosen_among(lowered(views(urls@)), k) && u@ == urls@[k]@,
            Err(e) => e@ == no_asset_message() && forall|j: int|
                0 <= j < urls@.len() ==> !asset_eligible(lowercase(#[trigger] urls@[j]@)),
        },
{
    let mut lower: Vec<String> = Vec::new();
    let mut i: usize = 0;
    while i < urls.len()
        invariant
            i <= urls@.len(),
            lower@.len() == i,
            views(lower@) == lowered(views(urls@)).subrange(0, i as int),
        decreases urls@.len() - i,
    {
        let l = to_lowercase(urls[i].as_str());
        let ghost before = lower@;
        lower.push(l);
        proof {
            assert(views(urls@)[i as int] == urls@[i as int]@);
            assert(lowered(views(urls@))[i as int] == lowercase(urls@[i as int]@));
            assert(lower@ == before.push(l));
            assert forall|j: int| 0 <= j < i + 1 implies views(lower@)[j] == lowered(
                views(urls@),
            ).subrange(0, i + 1)[j] by {
                if j < i {
                    assert(lower@[j] == before[j]);
                    assert(views(before)[j] == lowered(views(urls@)).subrange(0, i as int)[j]);
                }
            }
        }
        assert(views(lower@) =~= lowered(views(urls@)).subrange(0, i + 1));
        i = i + 1;
    }
    assert(views(lower@) =~= lowered(views(urls@)));
    match choose_asset(&lower) {
        Some(k) => {
            assert(is_chosen_among(lowered(views(urls@)), k as int));
            Ok(urls[k].clone())
        },
        None => {
            assert forall|j: int| 0 <= j < urls@.len() implies !asset_eligible(
                lowercase(#[trigger] urls@[j]@),
            ) by {
                assert(lower@[j]@ == views(lower@)[j]);
            }
            Err(String::from_str("no suitable windows asset in latest release"))
        },
    }
}

/// The views of a list of optional strings.
pub open spec fn opt_views(v: Seq<Option<String>>) -> Seq<Option<Seq<char>>> {
    v.map_values(|o: Option<String>| opt_view(o))
}

/// A string's text; nothing for any other value or a missing one.
pub open spec fn str_of(v: Option<JsonValue>) -> Option<Seq<char>> {
    match v {
        Some(JsonValue::Str(s)) => Some(s@),
        _ => None,
    }
}

/// The download URL of a release asset: its `browser_download_url` member
/// when it is a string.
pub open spec fn asset_url(asset: JsonValue) -> Option<Seq<char>> {
    str_of(member(asset, "browser_download_url"@))
}

/// What a release reply holds: the `tag_name` string, and, when `assets`
/// is an array, each asset's download URL.
pub open spec fn release_fields(v: JsonValue) -> (Option<Seq<char>>, Option<Seq<Option<Seq<char>>>>) {
    (
        str_of(member(v, "tag_name"@)),
        match member(v, "assets"@) {
            Some(JsonValue::Array(items)) => Some(items@.map_values(|a: JsonValue| asset_url(a))),
            _ => None,
        },
    )
}

/// The text of a JSON string value; nothing for another value or none.
fn string_of(v: Option<&JsonValue>) -> (r: Option<String>)
    ensures
        opt_view(r) == str_of(
            match v {
                Some(x) => Some(*x),
                None => None,
            },
        ),
{
    match v {
        Some(JsonValue::Str(s)) => Some(s.clone()),
        _ => None,
    }
}

/// Reads a release reply's tag and its assets' download URLs.
pub fn read_release(v: &JsonValue) -> (r: (Option<String>, Option<Vec<Option<String>>>))
    ensures
        opt_view(r.0) == release_fields(*v).0,
        match (r.1, release_fields(*v).1) {
            (Some(u), Some(su)) => opt_views(u@) == su,
            (None, None) => true,
            _ => false,
        },
{
    proof {
        reveal_strlit("tag_name");
        reveal_strlit("assets");
    }
    let tag = string_of(get_member(v, "tag_name"));
    let urls = match get_member(v, "assets") {
        Some(JsonValue::Array(items)) => {
            let mut urls: Vec<Option<String>> = Vec::new();
            let mut i: usize = 0;
            while i < items.len()
                invariant
                    i <= items@.len(),
                    opt_views(urls@) == items@.subrange(0, i as int).map_values(|a: JsonValue| asset_url(a)),
                decreases items@.len() - i,
            {
                proof {
                    reveal_strlit("browser_download_url");
                }
                let u = string_of(get_member(&items[i], "browser_download_url"));
                let ghost before = urls@;
                urls.push(u);
                assert(opt_views(urls@) =~= opt_views(before).push(opt_view(u)));
                assert(items@.subrange(0, i + 1).map_values(|a: JsonValue| asset_url(a)) =~= items@.subrange(
                    0,
                    i as int,
                ).map_values(|a: JsonValue| asset_url(a)).push(asset_url(items@[i as int])));
                i = i + 1;
            }
            assert(items@.subrange(0, items@.len() as int) =~= items@);
            Some(urls)
        },
        _ => None,
    };
    (tag, urls)
}

/// The URLs present among `urls`, in order.
pub open spec fn present_urls(urls: Seq<Option<Seq<char>>>) -> Seq<Seq<char>>
    decreases urls.len(),
{
    if urls.len() == 0 {
        Seq::empty()
    } else {
        present_urls(urls.drop_last()) + match urls.last() {
            Some(u) => seq![u],
            None => Seq::empty(),
        }
    }
}

/// The URLs present among `urls`, in order.
pub fn present_url_list(urls: &Vec<Option<String>>) -> (r: Vec<String>)
    ensures
        views(r@) == present_urls(opt_views(urls@)),
{
    let ghost ov = opt_views(urls@);
    let mut r: Vec<String> = Vec::new();
    let mut i: usize = 0;
    while i < urls.len()
        invariant
            i <= urls@.len(),
            ov == opt_views(urls@),
            views(r@) == present_urls(ov.take(i as int)),
        decreases urls@.len() - i,
    {
        assert(ov.take(i + 1).drop_last() =~= ov.take(i as int));
        assert(ov.take(i + 1).last() == opt_view(urls@[i as int]));
        let ghost before = r@;
        match &urls[i] {
            Some(u) => {
                r.push(u.clone());
                assert(views(r@) =~= views(before) + seq![u@]);
            },
            None => {
                assert(views(r@) =~= views(before) + Seq::<Seq<char>>::empty());
            },
        }
        i = i + 1;
    }
    assert(ov.take(urls@.len() as int) =~= ov);
    r
}

/// The message for a release reply without a tag.
pub open spec fn release_tag_missing_message() -> Seq<char> {
    "release tag missing"@
}

/// The message for a release reply without a list of assets.
pub open spec fn release_assets_missing_message() -> Seq<char> {
    "release assets missing"@
}

/// What a release reply yields, given its tag and its assets' download
/// URLs: the tag and the download URL chosen among the URLs, or why there
/// is none.
pub open spec fn release_decision(
    reply: (Option<Seq<char>>, Option<Seq<Option<Seq<char>>>>),
    r: Result<(String, String), String>,
) -> bool {
    match reply {
        (None, _) => r matches Err(e) && e@ == release_tag_missing_message(),
        (Some(_), None) => r matches Err(e) && e@ == release_assets_missing_message(),
        (Some(tag), Some(urls)) => {
            let present = present_urls(urls);
            match r {
                Ok((t, u)) => t@ == tag && exists|k: int|
                    is_chosen_among(lowered(present), k) && u@ == present[k],
                Err(e) => e@ == no_asset_message() && forall|j: int|
                    0 <= j < present.len() ==> !asset_eligible(lowercase(#[trigger] present[j])),
            }
        },
    }
}

/// The view of a read release reply.
pub open spec fn release_view(p: (Option<String>, Option<Vec<Option<String>>>)) -> (Option<Seq<char>>, Option<Seq<Option<Seq<char>>>>) {
    (
        opt_view(p.0),
        match p.1 {
            Some(u) => Some(opt_views(u@)),
            None => None,
        },
    )
}

/// Decides a read release reply: the release tag and the download URL
/// chosen among the assets' URLs.
pub fn decide_parsed_release(reply: (Option<String>, Option<Vec<Option<String>>>)) -> (r: Result<(String, String), String>)
    ensures
        release_decision(release_view(reply), r),
{
    let (tag, urls) = reply;
    match tag {
        None => Err(String::from_str("release tag missing")),
        Some(tag) => match urls {
            None => Err(String::from_str("release assets missing")),
            Some(urls) => {
                let present = present_url_list(&urls);
                match select_asset_url(&present) {
                    Ok(u) => {
                        proof {
                            let k = choose|k: int|
                                is_chosen_among(lowered(views(present@)), k) && u@ == present@[k]@;
                            assert(views(present@)[k] == present@[k]@);
                        }
                        Ok((tag, u))
                    },
                    Err(e) => {
                        proof {
                            let p = present_urls(opt_views(urls@));
                            assert forall|j: int| 0 <= j < p.len() implies !asset_eligible(
                                lowercase(#[trigger] p[j]),
                            ) by {
                                assert(p[j] == present@[j]@);
                            }
                        }
                        let res: Result<(String, String), String> = Err(e);
                        assert(release_decision((Some(tag@), Some(opt_views(urls@))), res));
                        res
                    },
                }
            },
        },
    }
}

/// Decides the release service's reply: reads its tag and assets' URLs
/// and decides them.
pub fn decide_release(reply: &JsonValue) -> (r: Result<(String, String), String>)
    ensures
        release_decision(release_fields(*reply), r),
{
    let fields = read_release(reply);
    decide_parsed_release(fields)
}

/// The kind of archive a release asset is.
#[derive(Clone, Copy, Debug, PartialEq, Eq, Structural)]
pub enum ArchiveKind {
    SevenZip,
    Zip,
}

/// A `.7z` URL (judged on the lowercased URL) is a 7-Zip archive; any
/// other is taken for a zip archive.
pub open spec fn archive_kind_of(url: Seq<char>) -> ArchiveKind {
    if seq_ends_with(lowercase(url), ".7z"@) {
        ArchiveKind::SevenZip
    } else {
        ArchiveKind::Zip
    }
}

/// The kind of archive behind a download URL, given the URL lowercased.
pub fn archive_kind_of_lowercase(lower: &str) -> (r: ArchiveKind)
    ensures
        r == (if seq_ends_with(lower@, ".7z"@) {
            ArchiveKind::SevenZip
        } else {
            ArchiveKind::Zip
        }),
{
    if ends_with(lower, ".7z") {
        ArchiveKind::SevenZip
    } else {
        ArchiveKind::Zip
    }
}

/// The kind of archive behind a download URL.
pub fn archive_kind(url: &str) -> (r: ArchiveKind)
    ensures
        r == archive_kind_of(url@),
{
    let lower = to_lowercase(url);
    archive_kind_of_lowercase(lower.as_str())
}

/// The file extension of an archive kind.
pub open spec fn archive_extension(kind: ArchiveKind) -> Seq<char> {
    match kind {
        ArchiveKind::SevenZip => "7z"@,
        ArchiveKind::Zip => "zip"@,
    }
}

/// The name of the temporary file a release is downloaded to:
/// `nexspot_paddle_<tag>.<ext>`.
pub fn download_file_name(tag: &str, kind: ArchiveKind) -> (r: String)
    ensures
        r@ == "nexspot_paddle_"@ + tag@ + "."@ + archive_extension(kind),
{
    let mut name = String::from_str("nexspot_paddle_");
    name.append(tag);
    name.append(".");
    match kind {
        ArchiveKind::SevenZip => name.append("7z"),
        ArchiveKind::Zip => name.append("zip"),
    }
    name
}

/// How many bytes must arrive after a progress event before the next one.
pub open spec fn progress_step() -> int {
    524288int
}

/// Progress of a streamed download: bytes received, and the count at the
/// last progress event.
pub struct DownloadProgress {
    pub downloaded: u64,
    pub last_emit: u64,
}

impl DownloadProgress {
    /// No event ever reports more than has been received.
    pub open spec fn wf(&self) -> bool {
        self.last_emit <= self.downloaded
    }

    /// Nothing received yet.
    pub fn new() -> (p: Self)
        ensures
            p.downloaded == 0,
            p.last_emit == 0,
            p.wf(),
    {
        DownloadProgress { downloaded: 0, last_emit: 0 }
    }

    /// Records a received chunk of `len` bytes; returns whether a progress
    /// event is due, that is whether more than 512 KiB arrived since the
    /// last one.
    pub fn add_chunk(&mut self, len: u64) -> (emit: bool)
        requires
            old(self).wf(),
            old(self).downloaded + len <= u64::MAX,
        ensures
            final(self).wf(),
            final(self).downloaded == old(self).downloaded + len,
            emit == (final(self).downloaded - old(self).last_emit > progress_step()),
            final(self).last_emit == if emit {
                final(self).downloaded
            } else {
                old(self).last_emit
            },
    {
        self.downloaded = self.downloaded + len;
        if self.downloaded - self.last_emit > 512 * 1024 {
            self.last_emit = self.downloaded;
            true
        } else {
            false
        }
    }
}

/// The configuration file of a recognition language: `config_<lang>.txt`.
pub fn config_file_name(language: &str) -> (r: String)
    ensures
        r@ == "config_"@ + language@ + ".txt"@,
{
    let mut name = String::from_str("config_");
    name.append(language);
    name.append(".txt");
    name
}

/// The configuration file the recognizer is started with for a language is
/// listed again as that language.
pub proof fn lemma_config_name_round_trip(language: Seq<char>)
    ensures
        config_language("config_"@ + language + ".txt"@) == Some(language),
{
    reveal_strlit("config_");
    reveal_strlit(".txt");
    let name = "config_"@ + language + ".txt"@;
    assert(name.subrange(0, 7) =~= "config_"@);
    let rest = name.subrange(7, name.len() as int);
    assert(rest.subrange(rest.len() - 4, rest.len() as int) =~= ".txt"@);
    assert(name.subrange(7, name.len() - 4) =~= language);
}

/// The command-line arguments the recognizer is started with.
pub fn launch_args(models_path: &str, config_path: &str) -> (r: Vec<String>)
    ensures
        r@.len() == 3,
        r@[0]@ == "-models_path="@ + models_path@,
        r@[1]@ == "-config_path="@ + config_path@,
        r@[2]@ == "-ensure_ascii=0"@,
{
    let mut models = String::from_str("-models_path=");
    models.append(models_path);
    let mut config = String::from_str("-config_path=");
    config.append(config_path);
    let mut args: Vec<String> = Vec::new();
    args.push(models);
    args.push(config);
    args.push(String::from_str("-ensure_ascii=0"));
    args
}

/// A running recognizer is kept when it is still alive and loaded with the
/// wanted language; otherwise it is replaced.
pub fn reuse_process(running_language: &str, exited: bool, wanted: &str) -> (r: bool)
    ensures
        r == (running_language@ == wanted@ && !exited),
{
    let same = String::from_str(running_language) == String::from_str(wanted);
    same && !exited
}

/// A line of the recognizer's output that says it finished loading.
pub open spec fn is_ready_text(line: Seq<char>) -> bool {
    seq_contains(line, "OCR init completed"@) || seq_contains(line, "OCR initialization completed"@)
}

/// Whether a start-up line announces that the recognizer is ready.
pub fn is_ready_line(line: &str) -> (r: bool)
    ensures
        r == is_ready_text(line@),
{
    contains(line, "OCR init completed") || contains(line, "OCR initialization completed")
}

/// How many start-up lines are read before giving up.
pub open spec fn max_init_lines() -> int {
    200
}

/// What to do after a start-up line.
#[derive(Clone, Copy, Debug, PartialEq, Eq, Structural)]
pub enum InitStep {
    /// The recognizer is ready.
    Ready,
    /// It exited or never said it was ready: kill it and fail.
    Failed,
    /// Read the next line.
    WaitMore,
}

/// Watches the recognizer's start-up output.
pub struct InitWatch {
    pub lines_read: u32,
}

impl InitWatch {
    /// No line read yet.
    pub fn new() -> (w: Self)
        ensures
            w.lines_read == 0,
    {
        InitWatch { lines_read: 0 }
    }

    /// Takes the next start-up line (`None` when the output ended) and says
    /// what to do; after 200 lines without the ready signal it gives up.
    pub fn observe(&mut self, line: Option<&str>) -> (step: InitStep)
        requires
            old(self).lines_read < max_init_lines(),
        ensures
            match line {
                None => step == InitStep::Failed && final(self).lines_read == old(self).lines_read,
                Some(l) => {
                    &&& final(self).lines_read == old(self).lines_read + 1
                    &&& step == if is_ready_text(l@) {
                        InitStep::Ready
                    } else if final(self).lines_read == max_init_lines() {
                        InitStep::Failed
                    } else {
                        InitStep::WaitMore
                    }
                },
            },
            step == InitStep::WaitMore ==> final(self).lines_read < max_init_lines(),
    {
        match line {
            None => InitStep::Failed,
            Some(l) => {
                self.lines_read = self.lines_read + 1;
                if is_ready_line(l) {
                    InitStep::Ready
                } else if self.lines_read == 200 {
                    InitStep::Failed
                } else {
                    InitStep::WaitMore
                }
            },
        }
    }
}

/// The request line that asks the recognizer to read a PNG image.
pub fn request_line(png: &[u8]) -> (r: String)
    ensures
        r@ == "{\"image_base64\":\""@ + base64_standard(png@) + "\"}"@,
{
    let b64 = encode_base64(png);
    let mut req = String::from_str("{\"image_base64\":\"");
    req.append(b64.as_str());
    req.append("\"}");
    req
}

/// The message when a selection holds no recognizable text.
pub open spec fn no_text_message() -> Seq<char> {
    "No text detected in selection"@
}

/// The outcome a reply's status code stands for: 100 is success, 101 means
/// no text was found, any other code (a missing one counts as -1) is an
/// error that quotes the code and the reply's `data`.
pub open spec fn reply_outcome(code: Option<i64>, data_text: Seq<char>) -> Result<(), Seq<char>> {
    let c: int = match code {
        Some(c) => c as int,
        None => -1,
    };
    if c == 100 {
        Ok(())
    } else if c == 101 {
        Err(no_text_message())
    } else {
        Err("PaddleOCR error "@ + int_decimal(c) + ": "@ + data_text)
    }
}

/// Reads the status code of a recognizer reply; `data_text` is the reply's
/// `data` field as JSON text (empty when absent).
pub fn reply_status(code: Option<i64>, data_text: &str) -> (r: Result<(), String>)
    ensures
        match (r, reply_outcome(code, data_text@)) {
            (Ok(()), Ok(())) => true,
            (Err(e), Err(m)) => e@ == m,
            _ => false,
        },
{
    let c: i64 = match code {
        Some(c) => c,
        None => -1,
    };
    if c == 100 {
        Ok(())
    } else if c == 101 {
        Err(String::from_str("No text detected in selection"))
    } else {
        let mut msg = String::from_str("PaddleOCR error ");
        let digits = i64_to_decimal(c);
        msg.append(digits.as_str());
        msg.append(": ");
        msg.append(data_text);
        Err(msg)
    }
}

/// A recognized line is kept when it has text and a box of positive width.
pub open spec fn keeps_line(text: Seq<char>, has_extent: bool) -> bool {
    text.len() > 0 && has_extent
}

/// The positions, in order, of the kept lines among the first `n`.
pub open spec fn kept_positions(texts: Seq<Seq<char>>, extents: Seq<bool>, n: int) -> Seq<int>
    decreases n,
{
    if n <= 0 {
        Seq::empty()
    } else if keeps_line(texts[n - 1], extents[n - 1]) {
        kept_positions(texts, extents, n - 1).push(n - 1)
    } else {
        kept_positions(texts, extents, n - 1)
    }
}

/// The texts of `parts` joined with line breaks.
pub open spec fn join_lines(parts: Seq<Seq<char>>) -> Seq<char>
    decreases parts.len(),
{
    if parts.len() == 0 {
        Seq::empty()
    } else if parts.len() == 1 {
        parts[0]
    } else {
        join_lines(parts.drop_last()) + seq!['\n'] + parts.last()
    }
}

/// The texts of the kept lines among the first `n`, in order.
pub open spec fn kept_texts(texts: Seq<Seq<char>>, extents: Seq<bool>, n: int) -> Seq<Seq<char>> {
    kept_positions(texts, extents, n).map_values(|i: int| texts[i])
}

/// The full text of a reply: the kept lines joined with line breaks.
pub open spec fn full_text(texts: Seq<Seq<char>>, extents: Seq<bool>) -> Seq<char> {
    join_lines(kept_texts(texts, extents, texts.len() as int))
}

proof fn lemma_join_push(parts: Seq<Seq<char>>, x: Seq<char>)
    ensures
        join_lines(parts.push(x)) == if parts.len() == 0 {
            x
        } else {
            join_lines(parts) + seq!['\n'] + x
        },
{
    assert(parts.push(x).drop_last() =~= parts);
}

proof fn lemma_join_empty_iff(parts: Seq<Seq<char>>)
    requires
        forall|i: int| 0 <= i < parts.len() ==> (#[trigger] parts[i]).len() > 0,
    ensures
        (join_lines(parts).len() == 0) == (parts.len() == 0),
    decreases parts.len(),
{
    if parts.len() > 1 {
        lemma_join_empty_iff(parts.drop_last());
    }
}

proof fn lemma_kept_in_range(texts: Seq<Seq<char>>, extents: Seq<bool>, n: int)
    requires
        0 <= n <= texts.len(),
        n <= extents.len(),
    ensures
        forall|k: int|
            0 <= k < kept_positions(texts, extents, n).len() ==> {
                let p = #[trigger] kept_positions(texts, extents, n)[k];
                0 <= p < n && keeps_line(texts[p], extents[p])
            },
    decreases n,
{
    if n > 0 {
        lemma_kept_in_range(texts, extents, n - 1);
        let prev = kept_positions(texts, extents, n - 1);
        let cur = kept_positions(texts, extents, n);
        assert forall|k: int| 0 <= k < cur.len() implies {
            let p = #[trigger] cur[k];
            0 <= p < n && keeps_line(texts[p], extents[p])
        } by {
            if k < prev.len() {
                assert(cur[k] == prev[k]);
            }
        }
    }
}

/// `r` is the outcome of assembling the lines `tv`, whose boxes have
/// positive width where `extents` says so: the full text and the positions
/// of the kept lines, or the no-text error when the full text is blank.
pub open spec fn assembled(r: Result<(String, Vec<usize>), String>, tv: Seq<Seq<char>>, extents: Seq<bool>) -> bool {
    let full = full_text(tv, extents);
    match r {
        Ok((t, kept)) => {
            &&& t@ == full
            &&& trimmed(full).len() > 0
            &&& kept@.len() == kept_positions(tv, extents, tv.len() as int).len()
            &&& forall|k: int|
                0 <= k < kept@.len() ==> #[trigger] kept@[k] as int == kept_positions(
                    tv,
                    extents,
                    tv.len() as int,
                )[k]
        },
        Err(e) => e@ == no_text_message() && trimmed(full).len() == 0,
    }
}

/// Assembles the full text of a reply from its lines' texts and whether
/// each line's box has positive width; returns the text and the positions
/// of the kept lines, or the no-text error when the text is blank.
pub fn assemble_full_text(texts: &Vec<String>, has_extent: &Vec<bool>) -> (r: Result<(String, Vec<usize>), String>)
    requires
        texts@.len() == has_extent@.len(),
    ensures
        assembled(r, views(texts@), has_extent@),
{
    let ghost tv = views(texts@);
    let mut full = String::new();
    let mut kept: Vec<usize> = Vec::new();
    let mut i: usize = 0;
    while i < texts.len()
        invariant
            tv == views(texts@),
            texts@.len() == has_extent@.len(),
            i <= texts@.len(),
            kept@.len() == kept_positions(tv, has_extent@, i as int).len(),
            forall|k: int|
                0 <= k < kept@.len() ==> #[trigger] kept@[k] as int == kept_positions(
                    tv,
                    has_extent@,
                    i as int,
                )[k],
            full@ == join_lines(kept_texts(tv, has_extent@, i as int)),
        decreases texts@.len() - i,
    {
        let ghost before = kept_positions(tv, has_extent@, i as int);
        proof {
            lemma_kept_in_range(tv, has_extent@, i as int);
            let bt = kept_texts(tv, has_extent@, i as int);
            assert forall|k: int| 0 <= k < bt.len() implies (#[trigger] bt[k]).len() > 0 by {
                assert(keeps_line(tv[before[k]], has_extent@[before[k]]));
            }
            lemma_join_empty_iff(bt);
        }
        assert(tv[i as int] == texts@[i as int]@);
        let t = texts[i].as_str();
        if !t.is_empty() && has_extent[i] {
            if !full.as_str().is_empty() {
                full.append("\n");
                proof {
                    reveal_strlit("\n");
                }
            }
            full.append(t);
            kept.push(i);
            proof {
                let after = kept_positions(tv, has_extent@, i + 1);
                assert(after == before.push(i as int));
                assert(kept_texts(tv, has_extent@, i + 1) =~= kept_texts(
                    tv,
                    has_extent@,
                    i as int,
                ).push(tv[i as int]));
                lemma_join_push(kept_texts(tv, has_extent@, i as int), tv[i as int]);
            }
        }
        i = i + 1;
    }
    let trimmed_text = trim(full.as_str());
    if trimmed_text.as_str().is_empty() {
        Err(String::from_str("No text detected in selection"))
    } else {
        Ok((full, kept))
    }
}

/// A number's value when it is an integer that fits `i64`; nothing for any
/// other value or a missing one (what `Value::as_i64` gives).
pub open spec fn as_integer(v: Option<JsonValue>) -> Option<i64> {
    match v {
        Some(JsonValue::Number { integer, .. }) => integer,
        _ => None,
    }
}

/// A string's text; empty for any other value or a missing one.
pub open spec fn str_or_empty(v: Option<JsonValue>) -> Seq<char> {
    match v {
        Some(JsonValue::Str(s)) => s@,
        _ => Seq::empty(),
    }
}

/// The text of a recognized item: its `text` member when it is a string,
/// else empty.
pub open spec fn item_text(item: JsonValue) -> Seq<char> {
    str_or_empty(member(item, "text"@))
}

/// What a recognizer reply holds: the `code` member as an `i64`, the
/// `data` member written back as compact JSON text (empty when absent),
/// and, when `data` is an array, the text of each of its items.
pub open spec fn reply_fields(v: JsonValue) -> (Option<i64>, Seq<char>, Seq<Seq<char>>) {
    (
        as_integer(member(v, "code"@)),
        match member(v, "data"@) {
            Some(d) => json_text(d),
            None => Seq::empty(),
        },
        match member(v, "data"@) {
            Some(JsonValue::Array(items)) => items@.map_values(|it: JsonValue| item_text(it)),
            _ => Seq::empty(),
        },
    )
}

/// The text of a JSON string value; empty for another value or none.
fn string_or_empty(v: Option<&JsonValue>) -> (r: String)
    ensures
        r@ == str_or_empty(
            match v {
                Some(x) => Some(*x),
                None => None,
            },
        ),
{
    match v {
        Some(JsonValue::Str(s)) => s.clone(),
        _ => String::new(),
    }
}

/// Reads a recognizer reply's status code, `data` text and item texts.
pub fn read_reply(v: &JsonValue) -> (r: (Option<i64>, String, Vec<String>))
    ensures
        r.0 == reply_fields(*v).0,
        r.1@ == reply_fields(*v).1,
        views(r.2@) == reply_fields(*v).2,
{
    proof {
        reveal_strlit("code");
        reveal_strlit("data");
        reveal_strlit("text");
    }
    let code = match get_member(v, "code") {
        Some(JsonValue::Number { integer, .. }) => *integer,
        _ => None,
    };
    let data = get_member(v, "data");
    let data_text = match data {
        Some(d) => json_to_text(d),
        None => String::new(),
    };
    let mut texts: Vec<String> = Vec::new();
    match data {
        Some(JsonValue::Array(items)) => {
            let mut i: usize = 0;
            while i < items.len()
                invariant
                    i <= items@.len(),
                    views(texts@) == items@.subrange(0, i as int).map_values(|it: JsonValue| item_text(it)),
                decreases items@.len() - i,
            {
                proof {
                    reveal_strlit("text");
                }
                let t = string_or_empty(get_member(&items[i], "text"));
                let ghost before = texts@;
                texts.push(t);
                assert(views(texts@) =~= views(before).push(t@));
                assert(items@.subrange(0, i + 1).map_values(|it: JsonValue| item_text(it)) =~= items@.subrange(
                    0,
                    i as int,
                ).map_values(|it: JsonValue| item_text(it)).push(item_text(items@[i as int])));
                i = i + 1;
            }
            assert(items@.subrange(0, items@.len() as int) =~= items@);
        },
        _ => {
            assert(views(texts@) =~= Seq::<Seq<char>>::empty());
        },
    }
    (code, data_text, texts)
}

/// The message when a reply's lines and the boxes read from it differ in
/// number.
pub open spec fn box_count_message() -> Seq<char> {
    "PaddleOCR reply lines and boxes differ in number"@
}

/// What a reply yields, given its status code, `data` text and item texts,
/// and for each of its lines whether its box has positive width: on
/// success the full text, the positions of the kept lines and the texts of
/// all the reply's lines.
pub open spec fn reply_decision(
    reply: (Option<i64>, Seq<char>, Seq<Seq<char>>),
    r: Result<(String, Vec<usize>, Vec<String>), String>,
    extents: Seq<bool>,
) -> bool {
    let (code, data, texts) = reply;
    match reply_outcome(code, data) {
        Err(m) => r matches Err(e) && e@ == m,
        Ok(()) => if texts.len() != extents.len() {
            r matches Err(e) && e@ == box_count_message()
        } else {
            match r {
                Ok((t, kept, lines)) => views(lines@) == texts && assembled(Ok((t, kept)), texts, extents),
                Err(e) => assembled(Err(e), texts, extents),
            }
        },
    }
}

/// Decides a read recognizer reply: the error its status code stands for,
/// or the full text, the positions of the kept lines and the texts of all
/// lines. `has_extent` says for each line of the reply whether its box has
/// positive width.
pub fn decide_parsed_reply(
    reply: (Option<i64>, String, Vec<String>),
    has_extent: &Vec<bool>,
) -> (r: Result<(String, Vec<usize>, Vec<String>), String>)
    ensures
        reply_decision((reply.0, reply.1@, views(reply.2@)), r, has_extent@),
{
    let (code, data, texts) = reply;
    match reply_status(code, data.as_str()) {
        Err(e) => Err(e),
        Ok(()) => {
            if texts.len() != has_extent.len() {
                Err(String::from_str("PaddleOCR reply lines and boxes differ in number"))
            } else {
                match assemble_full_text(&texts, has_extent) {
                    Ok((t, kept)) => Ok((t, kept, texts)),
                    Err(e) => Err(e),
                }
            }
        },
    }
}

/// Decides a recognizer reply: reads its fields and decides them.
pub fn decide_reply(reply: &JsonValue, has_extent: &Vec<bool>) -> (r: Result<(String, Vec<usize>, Vec<String>), String>)
    ensures
        reply_decision(reply_fields(*reply), r, has_extent@),
{
    let fields = read_reply(reply);
    decide_parsed_reply(fields, has_extent)
}

/// The languages named by the configuration files among `names`, in the
/// order of the names.
pub open spec fn config_languages(names: Seq<Seq<char>>) -> Seq<Seq<char>>
    decreases names.len(),
{
    if names.len() == 0 {
        Seq::empty()
    } else {
        let prev = config_languages(names.drop_last());
        match config_language(names.last()) {
            Some(l) => prev.push(l),
            None => prev,
        }
    }
}

/// The recognition languages whose configuration files are among the
/// names of the files in the models directory, sorted.
pub fn languages_from_model_files(model_files: &Vec<String>) -> (r: Vec<String>)
    ensures
        views(r@).to_multiset() == config_languages(views(model_files@)).to_multiset(),
        sorted_strings(r@),
{
    let ghost names = views(model_files@);
    let mut found: Vec<String> = Vec::new();
    let mut i: usize = 0;
    while i < model_files.len()
        invariant
            names == views(model_files@),
            i <= model_files@.len(),
            views(found@) == config_languages(names.subrange(0, i as int)),
        decreases model_files@.len() - i,
    {
        proof {
            assert(names.subrange(0, i + 1).drop_last() =~= names.subrange(0, i as int));
            assert(names.subrange(0, i + 1).last() == model_files@[i as int]@);
        }
        match language_from_config_name(model_files[i].as_str()) {
            Some(lang) => {
                found.push(lang);
                assert(views(found@) =~= config_languages(names.subrange(0, i as int)).push(
                    found@.last()@,
                ));
            },
            None => {},
        }
        i = i + 1;
    }
    assert(names.subrange(0, model_files@.len() as int) =~= names);
    sort_strings(found)
}

/// The status report of the component directory `dir`: when the recognizer
/// executable was found, the version recorded in `version.txt` (its
/// contents, when readable) and the languages of the model files;
/// otherwise nothing.
pub fn paddle_status(dir: String, exe_found: bool, version_file: Option<String>, model_files: &Vec<String>) -> (s: PaddleStatus)
    ensures
        s.installed == exe_found,
        s.dir@ == dir@,
        exe_found ==> opt_view(s.version) == recorded_version(opt_view(version_file)),
        exe_found ==> views(s.languages@).to_multiset() == config_languages(
            views(model_files@),
        ).to_multiset(),
        sorted_strings(s.languages@),
        !exe_found ==> s.version is None && s.languages@.len() == 0,
{
    if exe_found {
        PaddleStatus {
            installed: true,
            dir,
            version: version_from_file(version_file),
            languages: languages_from_model_files(model_files),
        }
    } else {
        PaddleStatus { installed: false, dir, version: None, languages: Vec::new() }
    }
}

} // verus!
