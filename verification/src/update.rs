use vstd::prelude::*;

use crate::models::opt_str;
use crate::text::{chars_of, owned, push_chars, push_str, string_from_chars, trim, trim_chars};
use crate::versions::{
    compare_versions, normalized_version_text, parse_release_version, semver_order,
    semver_parses, ReleaseVersion,
};

verus! {

/// The error that commands hand back to the front end.
pub enum AppError {
    Message(String),
}

impl AppError {
    pub open spec fn spec_message(&self) -> Seq<char> {
        match self {
            AppError::Message(m) => m@,
        }
    }

    /// The text of the error, as its display form shows it.
    pub fn to_string(&self) -> (r: String)
        ensures
            r@ == self.spec_message(),
    {
        match self {
            AppError::Message(m) => m.clone(),
        }
    }
}

/// The state of the updater as the front end sees it.
pub struct UpdateStatus {
    pub status: String,
    pub current_version: String,
    pub latest_version: Option<String>,
    pub body: Option<String>,
    pub published_at: Option<String>,
    pub downloaded_bytes: Option<u64>,
    pub content_length: Option<u64>,
    pub error: Option<String>,
}

/// An update state forced from the developer tools.
pub struct UpdateDebugStatePayload {
    pub status: String,
    pub latest_version: Option<String>,
    pub body: Option<String>,
    pub published_at: Option<String>,
    pub downloaded_bytes: Option<u64>,
    pub content_length: Option<u64>,
    pub error: Option<String>,
}

/// One release as the release list of the project reports it.
pub struct GithubRelease {
    pub tag_name: String,
    pub body: Option<String>,
    pub draft: bool,
}

impl UpdateStatus {
    /// The status before any check: `idle`, with only the current version known.
    pub fn idle(current_version: String) -> (r: UpdateStatus)
        ensures
            r.status@ == "idle"@,
            r.current_version@ == current_version@,
            r.latest_version is None,
            r.body is None,
            r.published_at is None,
            r.downloaded_bytes is None,
            r.content_length is None,
            r.error is None,
    {
        UpdateStatus {
            status: owned("idle"),
            current_version,
            latest_version: None,
            body: None,
            published_at: None,
            downloaded_bytes: None,
            content_length: None,
            error: None,
        }
    }
}

/// The status names that the updater uses.
pub open spec fn is_known_update_status(s: Seq<char>) -> bool {
    s == "idle"@ || s == "checking"@ || s == "available"@ || s == "downloading"@ || s
        == "downloaded"@ || s == "up_to_date"@ || s == "error"@
}

/// The status that a debug payload forces: its trimmed status name must be one the updater
/// uses; the other fields are taken over as they are.
pub fn build_debug_status(current_version: String, payload: UpdateDebugStatePayload) -> (r: Result<
    UpdateStatus,
    AppError,
>)
    ensures
        r is Ok <==> is_known_update_status(trim(payload.status@)),
        r matches Err(e) ==> e.spec_message() == "invalid_update_debug_status"@,
        r matches Ok(s) ==> {
            &&& s.status@ == trim(payload.status@)
            &&& s.current_version@ == current_version@
            &&& opt_str(s.latest_version) == opt_str(payload.latest_version)
            &&& opt_str(s.body) == opt_str(payload.body)
            &&& opt_str(s.published_at) == opt_str(payload.published_at)
            &&& s.downloaded_bytes == payload.downloaded_bytes
            &&& s.content_length == payload.content_length
            &&& opt_str(s.error) == opt_str(payload.error)
        },
{
    let v = chars_of(payload.status.as_str());
    let t = trim_chars(&v);
    let known = crate::text::chars_equal_str(&t, "idle") || crate::text::chars_equal_str(
        &t,
        "checking",
    ) || crate::text::chars_equal_str(&t, "available") || crate::text::chars_equal_str(
        &t,
        "downloading",
    ) || crate::text::chars_equal_str(&t, "downloaded") || crate::text::chars_equal_str(
        &t,
        "up_to_date",
    ) || crate::text::chars_equal_str(&t, "error");
    if !known {
        return Err(AppError::Message(owned("invalid_update_debug_status")));
    }
    Ok(
        UpdateStatus {
            status: string_from_chars(&t),
            current_version,
            latest_version: payload.latest_version,
            body: payload.body,
            published_at: payload.published_at,
            downloaded_bytes: payload.downloaded_bytes,
            content_length: payload.content_length,
            error: payload.error,
        },
    )
}

/// The text shown for a release without notes.
pub open spec fn empty_release_notes() -> Seq<char> {
    "No release notes were provided for this version."@
}

/// The trimmed body when it is present and not blank.
pub open spec fn release_content(body: Option<Seq<char>>) -> Seq<char> {
    match body {
        Some(b) => if trim(b).len() > 0 {
            trim(b)
        } else {
            empty_release_notes()
        },
        None => empty_release_notes(),
    }
}

/// `## {version}`, an empty line, then the notes.
pub open spec fn spec_release_notes_section(version: Seq<char>, body: Option<Seq<char>>) -> Seq<
    char,
> {
    "## "@ + version + "\n\n"@ + release_content(body)
}

fn release_notes_section_chars(version: &str, body: Option<&String>) -> (r: Vec<char>)
    ensures
        r@ == spec_release_notes_section(
            version@,
            match body {
                Some(b) => Some(b@),
                None => None,
            },
        ),
{
    let mut out: Vec<char> = Vec::new();
    push_str(&mut out, "## ");
    push_str(&mut out, version);
    push_str(&mut out, "\n\n");
    let content: Vec<char> = match body {
        Some(b) => {
            let bv = chars_of(b.as_str());
            let t = trim_chars(&bv);
            if t.len() > 0 {
                t
            } else {
                chars_of("No release notes were provided for this version.")
            }
        },
        None => chars_of("No release notes were provided for this version."),
    };
    push_chars(&mut out, &content);
    out
}

/// The notes of one release under a heading with its version.
pub fn release_notes_section(version: &str, body: Option<&String>) -> (r: String)
    ensures
        r@ == spec_release_notes_section(
            version@,
            match body {
                Some(b) => Some(b@),
                None => None,
            },
        ),
{
    let v = release_notes_section_chars(version, body);
    string_from_chars(&v)
}

/// What a release contributes: its tag and its body.
pub open spec fn release_entry(r: GithubRelease) -> (Seq<char>, Option<Seq<char>>) {
    (r.tag_name@, opt_str(r.body))
}

/// Whether a release lies after the current version and up to the latest one.
pub open spec fn release_in_range(r: GithubRelease, current: Seq<char>, latest: Seq<char>) -> bool {
    let v = normalized_version_text(r.tag_name@);
    &&& !r.draft
    &&& semver_parses(v)
    &&& semver_order(v, current) > 0
    &&& semver_order(v, latest) <= 0
}

/// The releases in range, in the order of the list.
pub open spec fn matched_releases(releases: Seq<GithubRelease>, current: Seq<char>, latest: Seq<
    char,
>) -> Seq<(Seq<char>, Option<Seq<char>>)>
    decreases releases.len(),
{
    if releases.len() == 0 {
        seq![]
    } else {
        let rest = matched_releases(releases.drop_last(), current, latest);
        if release_in_range(releases.last(), current, latest) {
            rest.push(release_entry(releases.last()))
        } else {
            rest
        }
    }
}

/// Inserts an entry into a list kept newest first, after every entry that is not older.
pub open spec fn insert_newest_first(s: Seq<(Seq<char>, Option<Seq<char>>)>, x: (
    Seq<char>,
    Option<Seq<char>>,
)) -> Seq<(Seq<char>, Option<Seq<char>>)>
    decreases s.len(),
{
    if s.len() == 0 {
        seq![x]
    } else if semver_order(normalized_version_text(x.0), normalized_version_text(s[0].0)) > 0 {
        seq![x] + s
    } else {
        seq![s[0]] + insert_newest_first(s.drop_first(), x)
    }
}

/// The entries newest first; entries of equal version keep their order (a stable sort).
pub open spec fn newest_first(s: Seq<(Seq<char>, Option<Seq<char>>)>) -> Seq<
    (Seq<char>, Option<Seq<char>>),
>
    decreases s.len(),
{
    if s.len() == 0 {
        seq![]
    } else {
        insert_newest_first(newest_first(s.drop_last()), s.last())
    }
}

/// The sections of the entries, joined by a rule.
pub open spec fn joined_sections(s: Seq<(Seq<char>, Option<Seq<char>>)>) -> Seq<char>
    decreases s.len(),
{
    if s.len() == 0 {
        seq![]
    } else if s.len() == 1 {
        spec_release_notes_section(s[0].0, s[0].1)
    } else {
        joined_sections(s.drop_last()) + "\n\n---\n\n"@ + spec_release_notes_section(
            s.last().0,
            s.last().1,
        )
    }
}

/// The notes shown for an update from `current` to `latest`: the notes of every published
/// release after the current version up to the latest one, newest first; when the list holds
/// none of them, the notes that came with the latest release, if they are not blank.
pub open spec fn spec_aggregated_release_notes(
    current: Seq<char>,
    latest: Seq<char>,
    latest_body: Option<Seq<char>>,
    releases: Seq<GithubRelease>,
) -> Option<Seq<char>> {
    let c = normalized_version_text(current);
    let l = normalized_version_text(latest);
    if !semver_parses(c) || !semver_parses(l) {
        None
    } else {
        let matched = matched_releases(releases, c, l);
        if matched.len() == 0 {
            match latest_body {
                Some(b) => if trim(b).len() > 0 {
                    Some(spec_release_notes_section(latest, Some(b)))
                } else {
                    None
                },
                None => None,
            }
        } else {
            Some(joined_sections(newest_first(matched)))
        }
    }
}

/// A matched release, with its parsed version.
struct MatchedRelease {
    version: ReleaseVersion,
    index: usize,
}

spec fn matched_entries(ms: Seq<MatchedRelease>, releases: Seq<GithubRelease>) -> Seq<
    (Seq<char>, Option<Seq<char>>),
> {
    ms.map_values(|m: MatchedRelease| release_entry(releases[m.index as int]))
}

spec fn matched_wf(ms: Seq<MatchedRelease>, releases: Seq<GithubRelease>) -> bool {
    forall|k: int|
        0 <= k < ms.len() ==> {
            &&& (#[trigger] ms[k]).index < releases.len()
            &&& ms[k].version@ == normalized_version_text(releases[ms[k].index as int].tag_name@)
        }
}

proof fn lemma_insert_len(s: Seq<(Seq<char>, Option<Seq<char>>)>, x: (Seq<char>, Option<Seq<char>>))
    ensures
        insert_newest_first(s, x).len() == s.len() + 1,
    decreases s.len(),
{
    if s.len() > 0 {
        lemma_insert_len(s.drop_first(), x);
    }
}

/// Inserts `m` into `sorted` at the place that `insert_newest_first` gives.
fn insert_sorted(
    sorted: &mut Vec<MatchedRelease>,
    m: MatchedRelease,
    Ghost(releases): Ghost<Seq<GithubRelease>>,
)
    requires
        matched_wf(old(sorted)@, releases),
        matched_wf(seq![m], releases),
    ensures
        matched_wf(final(sorted)@, releases),
        matched_entries(final(sorted)@, releases) == insert_newest_first(
            matched_entries(old(sorted)@, releases),
            release_entry(releases[m.index as int]),
        ),
{
    let ghost orig = sorted@;
    let ghost x = release_entry(releases[m.index as int]);
    assert(matched_wf(seq![m], releases) ==> seq![m][0] == m);
    let mut j: usize = 0;
    assert(matched_entries(orig, releases).skip(0) =~= matched_entries(orig, releases));
    assert(matched_entries(orig, releases).take(0) =~= Seq::<(Seq<char>, Option<Seq<char>>)>::empty());
    while j < sorted.len() && compare_versions(&m.version, &sorted[j].version) <= 0
        invariant
            sorted@ == orig,
            j <= sorted.len(),
            matched_wf(orig, releases),
            m.index < releases.len(),
            m.version@ == normalized_version_text(releases[m.index as int].tag_name@),
            x == release_entry(releases[m.index as int]),
            insert_newest_first(matched_entries(orig, releases), x) == matched_entries(
                orig,
                releases,
            ).take(j as int) + insert_newest_first(
                matched_entries(orig, releases).skip(j as int),
                x,
            ),
        decreases sorted.len() - j,
    {
        proof {
            let e = matched_entries(orig, releases);
            let tail = e.skip(j as int);
            assert(tail[0] == e[j as int]);
            assert(e[j as int] == release_entry(releases[orig[j as int].index as int]));
            assert(tail.drop_first() =~= e.skip(j + 1));
            assert(e.take(j + 1) =~= e.take(j as int) + seq![tail[0]]);
        }
        j += 1;
    }
    proof {
        let e = matched_entries(orig, releases);
        let tail = e.skip(j as int);
        if j < orig.len() {
            assert(tail[0] == e[j as int]);
            assert(e[j as int] == release_entry(releases[orig[j as int].index as int]));
        }
    }
    sorted.insert(j, m);
    proof {
        let e = matched_entries(orig, releases);
        assert(matched_entries(sorted@, releases) =~= e.take(j as int) + (seq![x] + e.skip(
            j as int,
        )));
        if j == orig.len() {
            assert(e.skip(j as int) =~= Seq::<(Seq<char>, Option<Seq<char>>)>::empty());
        }
        assert forall|k: int| 0 <= k < sorted@.len() implies {
            &&& (#[trigger] sorted@[k]).index < releases.len()
            &&& sorted@[k].version@ == normalized_version_text(
                releases[sorted@[k].index as int].tag_name@,
            )
        } by {
            if k < j {
                assert(sorted@[k] == orig[k]);
            } else if k > j {
                assert(sorted@[k] == orig[k - 1]);
            }
        }
    }
}

/// Joins the sections of the sorted releases.
fn join_matched(sorted: &Vec<MatchedRelease>, releases: &Vec<GithubRelease>) -> (r: Vec<char>)
    requires
        matched_wf(sorted@, releases@),
        sorted@.len() > 0,
    ensures
        r@ == joined_sections(matched_entries(sorted@, releases@)),
{
    let mut out: Vec<char> = Vec::new();
    for i in 0..sorted.len()
        invariant
            matched_wf(sorted@, releases@),
            sorted@.len() > 0,
            i == 0 ==> out@ == Seq::<char>::empty(),
            i > 0 ==> out@ == joined_sections(matched_entries(sorted@.take(i as int), releases@)),
    {
        let rel = &releases[sorted[i].index];
        assert(sorted@[i as int].index < releases@.len());
        let ghost before = out@;
        if i > 0 {
            push_str(&mut out, "\n\n---\n\n");
        }
        let section = release_notes_section_chars(rel.tag_name.as_str(), rel.body.as_ref());
        push_chars(&mut out, &section);
        proof {
            let e = matched_entries(sorted@.take(i + 1), releases@);
            assert(matched_entries(sorted@.take(i as int), releases@) =~= e.drop_last());
            assert(e.last() == release_entry(releases@[sorted@[i as int].index as int]));
            assert(e.len() == i + 1);
            assert(section@ == spec_release_notes_section(e.last().0, e.last().1));
            if i == 0 {
                assert(before.len() == 0);
                assert(out@ =~= section@);
                assert(e[0] == e.last());
            } else {
                assert(out@ =~= before + "\n\n---\n\n"@ + section@);
            }
        }
    }
    assert(sorted@.take(sorted@.len() as int) =~= sorted@);
    out
}

/// The notes shown for an update: every published release after `current_version` up to
/// `latest_version`, newest first, each under its tag; when no release of the list is in that
/// range, the notes of the latest release if there are any.
pub fn build_aggregated_release_notes(
    current_version: &str,
    latest_version: &str,
    latest_body: Option<&String>,
    releases: &Vec<GithubRelease>,
) -> (r: Option<String>)
    ensures
        match r {
            Some(s) => Some(s@),
            None => None,
        } == spec_aggregated_release_notes(
            current_version@,
            latest_version@,
            match latest_body {
                Some(b) => Some(b@),
                None => None,
            },
            releases@,
        ),
{
    let current = match parse_release_version(current_version) {
        Some(v) => v,
        None => return None,
    };
    let latest = match parse_release_version(latest_version) {
        Some(v) => v,
        None => return None,
    };
    let ghost c = normalized_version_text(current_version@);
    let ghost l = normalized_version_text(latest_version@);
    let mut matched: Vec<MatchedRelease> = Vec::new();
    for i in 0..releases.len()
        invariant
            current@ == c,
            latest@ == l,
            matched_wf(matched@, releases@),
            matched_entries(matched@, releases@) == newest_first(
                matched_releases(releases@.take(i as int), c, l),
            ),
    {
        proof {
            assert(releases@.take(i + 1).drop_last() =~= releases@.take(i as int));
            assert(releases@.take(i + 1).last() == releases@[i as int]);
        }
        let release = &releases[i];
        let ghost prev = matched_releases(releases@.take(i as int), c, l);
        let ghost next = matched_releases(releases@.take(i + 1), c, l);
        let mut taken = false;
        if !release.draft {
            if let Some(version) = parse_release_version(release.tag_name.as_str()) {
                if compare_versions(&version, &current) > 0 && compare_versions(&version, &latest)
                    <= 0 {
                    let m = MatchedRelease { version, index: i };
                    proof {
                        assert(seq![m][0] == m);
                        assert(release_in_range(releases@[i as int], c, l));
                        assert(next == prev.push(release_entry(releases@[i as int])));
                        assert(next.drop_last() =~= prev);
                    }
                    insert_sorted(&mut matched, m, Ghost(releases@));
                    taken = true;
                }
            }
        }
        proof {
            if !taken {
                assert(!release_in_range(releases@[i as int], c, l));
                assert(next == prev);
            }
        }
    }
    assert(releases@.take(releases.len() as int) =~= releases@);
    if matched.len() == 0 {
        return match latest_body {
            Some(b) => {
                let bv = chars_of(b.as_str());
                let t = trim_chars(&bv);
                if t.len() > 0 {
                    Some(release_notes_section(latest_version, Some(b)))
                } else {
                    None
                }
            },
            None => None,
        };
    }
    let notes = join_matched(&matched, releases);
    Some(string_from_chars(&notes))
}

/// A status with the given name and version and nothing else.
fn bare_status(status: &str, current_version: String) -> (r: UpdateStatus)
    ensures
        r.status@ == status@,
        r.current_version@ == current_version@,
        r.latest_version is None,
        r.body is None,
        r.published_at is None,
        r.downloaded_bytes is None,
        r.content_length is None,
        r.error is None,
{
    UpdateStatus {
        status: owned(status),
        current_version,
        latest_version: None,
        body: None,
        published_at: None,
        downloaded_bytes: None,
        content_length: None,
        error: None,
    }
}

/// Whether a check or a download is already running, so that a new check only reports the
/// current status.
pub fn update_in_progress(status: &UpdateStatus) -> (r: bool)
    ensures
        r == (status.status@ == "checking"@ || status.status@ == "downloading"@),
{
    crate::text::str_equal(status.status.as_str(), "checking") || crate::text::str_equal(
        status.status.as_str(),
        "downloading",
    )
}

/// The status while the update server is asked.
pub fn checking_status(current_version: String) -> (r: UpdateStatus)
    ensures
        r.status@ == "checking"@,
        r.current_version@ == current_version@,
        r.latest_version is None && r.body is None && r.published_at is None,
        r.downloaded_bytes is None && r.content_length is None && r.error is None,
{
    bare_status("checking", current_version)
}

/// The status when no newer version exists.
pub fn up_to_date_status(current_version: String) -> (r: UpdateStatus)
    ensures
        r.status@ == "up_to_date"@,
        r.current_version@ == current_version@,
        r.latest_version is None && r.body is None && r.published_at is None,
        r.downloaded_bytes is None && r.content_length is None && r.error is None,
{
    bare_status("up_to_date", current_version)
}

/// The status when the check failed with the given message.
pub fn check_error_status(current_version: String, error: String) -> (r: UpdateStatus)
    ensures
        r.status@ == "error"@,
        r.current_version@ == current_version@,
        opt_str(r.error) == Some(error@),
        r.latest_version is None && r.body is None && r.published_at is None,
        r.downloaded_bytes is None && r.content_length is None,
{
    let mut r = bare_status("error", current_version);
    r.error = Some(error);
    r
}

/// The notes shown with an available update: the aggregated notes when they could be fetched
/// and are not empty, else the notes of the update itself. `fetched` is `None` when fetching
/// failed.
pub open spec fn spec_notes_for_update(
    fetched: Option<Option<Seq<char>>>,
    update_body: Option<Seq<char>>,
) -> Option<Seq<char>> {
    match fetched {
        Some(Some(b)) => Some(b),
        _ => update_body,
    }
}

/// The status when a newer version is available.
pub fn available_status(
    current_version: String,
    latest_version: String,
    fetched_notes: Option<Option<String>>,
    update_body: Option<String>,
    published_at: Option<String>,
) -> (r: UpdateStatus)
    ensures
        r.status@ == "available"@,
        r.current_version@ == current_version@,
        opt_str(r.latest_version) == Some(latest_version@),
        opt_str(r.body) == spec_notes_for_update(
            match fetched_notes {
                Some(o) => Some(opt_str(o)),
                None => None,
            },
            opt_str(update_body),
        ),
        opt_str(r.published_at) == opt_str(published_at),
        r.downloaded_bytes is None && r.content_length is None && r.error is None,
{
    let body = match fetched_notes {
        Some(Some(b)) => Some(b),
        _ => update_body,
    };
    UpdateStatus {
        status: owned("available"),
        current_version,
        latest_version: Some(latest_version),
        body,
        published_at,
        downloaded_bytes: None,
        content_length: None,
        error: None,
    }
}

/// The status that a forced (debug) install reports at once: downloaded, with the byte counts
/// of the current status, or 100 bytes when it has none.
pub fn debug_downloaded_status(current: UpdateStatus, current_version: String) -> (r: UpdateStatus)
    ensures
        r.status@ == "downloaded"@,
        r.current_version@ == current_version@,
        opt_str(r.latest_version) == opt_str(current.latest_version),
        opt_str(r.body) == opt_str(current.body),
        opt_str(r.published_at) == opt_str(current.published_at),
        r.downloaded_bytes == (match current.downloaded_bytes {
            Some(d) => Some(d),
            None => match current.content_length {
                Some(c) => Some(c),
                None => Some(100u64),
            },
        }),
        r.content_length == (match current.content_length {
            Some(c) => Some(c),
            None => r.downloaded_bytes,
        }),
        r.error is None,
{
    let downloaded_bytes = match current.downloaded_bytes {
        Some(d) => Some(d),
        None => match current.content_length {
            Some(c) => Some(c),
            None => Some(100u64),
        },
    };
    let content_length = match current.content_length {
        Some(c) => Some(c),
        None => downloaded_bytes,
    };
    UpdateStatus {
        status: owned("downloaded"),
        current_version,
        latest_version: current.latest_version,
        body: current.body,
        published_at: current.published_at,
        downloaded_bytes,
        content_length,
        error: None,
    }
}

/// The status when a download starts: the current one, marked downloading, with no error, no
/// bytes yet and no known length, and the version of the pending update when it named none.
pub fn download_started_status(current: UpdateStatus, pending_version: String) -> (r: UpdateStatus)
    ensures
        r.status@ == "downloading"@,
        r.current_version@ == current.current_version@,
        opt_str(r.latest_version) == (match opt_str(current.latest_version) {
            Some(v) => Some(v),
            None => Some(pending_version@),
        }),
        opt_str(r.body) == opt_str(current.body),
        opt_str(r.published_at) == opt_str(current.published_at),
        r.downloaded_bytes == Some(0u64),
        r.content_length is None,
        r.error is None,
{
    let latest_version = match current.latest_version {
        Some(v) => Some(v),
        None => Some(pending_version),
    };
    UpdateStatus {
        status: owned("downloading"),
        current_version: current.current_version,
        latest_version,
        body: current.body,
        published_at: current.published_at,
        downloaded_bytes: Some(0),
        content_length: None,
        error: None,
    }
}

/// The status reported while bytes arrive.
pub fn download_progress_status(
    current_version: String,
    latest_version: String,
    body: Option<String>,
    published_at: Option<String>,
    downloaded: u64,
    content_length: Option<u64>,
) -> (r: UpdateStatus)
    ensures
        r.status@ == "downloading"@,
        r.current_version@ == current_version@,
        opt_str(r.latest_version) == Some(latest_version@),
        opt_str(r.body) == opt_str(body),
        opt_str(r.published_at) == opt_str(published_at),
        r.downloaded_bytes == Some(downloaded),
        r.content_length == content_length,
        r.error is None,
{
    UpdateStatus {
        status: owned("downloading"),
        current_version,
        latest_version: Some(latest_version),
        body,
        published_at,
        downloaded_bytes: Some(downloaded),
        content_length,
        error: None,
    }
}

/// The status that ends a download: `downloaded`, or `error` with the message; the rest is
/// the status of the started download.
pub fn download_finished_status(started: UpdateStatus, current_version: String, error: Option<String>) -> (r: UpdateStatus)
    ensures
        r.status@ == (if error is Some {
            "error"@
        } else {
            "downloaded"@
        }),
        r.current_version@ == current_version@,
        opt_str(r.latest_version) == opt_str(started.latest_version),
        opt_str(r.body) == opt_str(started.body),
        opt_str(r.published_at) == opt_str(started.published_at),
        r.downloaded_bytes == started.downloaded_bytes,
        r.content_length == started.content_length,
        opt_str(r.error) == opt_str(error),
{
    let status = if error.is_some() {
        owned("error")
    } else {
        owned("downloaded")
    };
    UpdateStatus {
        status,
        current_version,
        latest_version: started.latest_version,
        body: started.body,
        published_at: started.published_at,
        downloaded_bytes: started.downloaded_bytes,
        content_length: started.content_length,
        error,
    }
}

/// An update that the update server offers, with the release notes fetched for it: `None`
/// when fetching failed, `Some(None)` when there were none to aggregate.
pub struct AvailableUpdate {
    pub version: String,
    pub body: Option<String>,
    pub date: Option<String>,
    pub fetched_notes: Option<Option<String>>,
}

/// What happens in a check for updates.
pub enum UpdateCheckEvent {
    /// A check is asked for.
    Start,
    /// The update server answered: the update it offers, none, or the text of its error.
    Checked(Result<Option<AvailableUpdate>, String>),
}

/// What the updater does after a step of a check, besides reporting the status.
pub enum UpdateCheckAction {
    /// Forget any pending update, then publish the status.
    ClearPending,
    /// Hand back the current status without publishing anything.
    ReturnCurrent,
    /// Publish the status, then ask the update server.
    RunCheck,
    /// Keep the update that was offered as the pending one, then publish the status.
    KeepPending,
}

/// Whether a status has exactly the given fields.
pub open spec fn has_fields(
    s: UpdateStatus,
    status: Seq<char>,
    current_version: Seq<char>,
    latest_version: Option<Seq<char>>,
    body: Option<Seq<char>>,
    published_at: Option<Seq<char>>,
    error: Option<Seq<char>>,
) -> bool {
    &&& s.status@ == status
    &&& s.current_version@ == current_version
    &&& opt_str(s.latest_version) == latest_version
    &&& opt_str(s.body) == body
    &&& opt_str(s.published_at) == published_at
    &&& s.downloaded_bytes is None
    &&& s.content_length is None
    &&& opt_str(s.error) == error
}

/// The notes fetched for an offered update, as plain values.
pub open spec fn fetched_view(f: Option<Option<String>>) -> Option<Option<Seq<char>>> {
    match f {
        Some(o) => Some(opt_str(o)),
        None => None,
    }
}

/// One step of a check for updates. A state forced from the developer tools wins over
/// everything and drops the pending update. Otherwise a check that starts while another check
/// or a download runs hands back the current status; else it reports `checking` and asks the
/// server. The server's answer gives `available` (keeping the offered update as pending),
/// `up_to_date` or `error` (both dropping the pending update).
pub fn update_check_step(
    current: UpdateStatus,
    debug: Option<UpdateStatus>,
    current_version: String,
    event: UpdateCheckEvent,
) -> (r: (UpdateStatus, UpdateCheckAction))
    ensures
        debug matches Some(d) ==> r.0 == d && r.1 is ClearPending,
        debug is None && event is Start && (current.status@ == "checking"@ || current.status@
            == "downloading"@) ==> r.0 == current && r.1 is ReturnCurrent,
        debug is None && event is Start && !(current.status@ == "checking"@ || current.status@
            == "downloading"@) ==> has_fields(r.0, "checking"@, current_version@, None, None, None, None)
            && r.1 is RunCheck,
        debug is None ==> (event matches UpdateCheckEvent::Checked(Ok(Some(u))) ==> has_fields(
            r.0,
            "available"@,
            current_version@,
            Some(u.version@),
            spec_notes_for_update(fetched_view(u.fetched_notes), opt_str(u.body)),
            opt_str(u.date),
            None,
        ) && r.1 is KeepPending),
        debug is None ==> (event matches UpdateCheckEvent::Checked(Ok(None)) ==> has_fields(
            r.0,
            "up_to_date"@,
            current_version@,
            None,
            None,
            None,
            None,
        ) && r.1 is ClearPending),
        debug is None ==> (event matches UpdateCheckEvent::Checked(Err(e)) ==> has_fields(
            r.0,
            "error"@,
            current_version@,
            None,
            None,
            None,
            Some(e@),
        ) && r.1 is ClearPending),
{
    if let Some(d) = debug {
        return (d, UpdateCheckAction::ClearPending);
    }
    match event {
        UpdateCheckEvent::Start => {
            if update_in_progress(&current) {
                (current, UpdateCheckAction::ReturnCurrent)
            } else {
                (checking_status(current_version), UpdateCheckAction::RunCheck)
            }
        },
        UpdateCheckEvent::Checked(Ok(Some(u))) => (
            available_status(current_version, u.version, u.fetched_notes, u.body, u.date),
            UpdateCheckAction::KeepPending,
        ),
        UpdateCheckEvent::Checked(Ok(None)) => (
            up_to_date_status(current_version),
            UpdateCheckAction::ClearPending,
        ),
        UpdateCheckEvent::Checked(Err(e)) => (
            check_error_status(current_version, e),
            UpdateCheckAction::ClearPending,
        ),
    }
}

/// Whether `r` is the status that a forced install reports: downloaded, with the byte counts
/// of the current status, or 100 bytes when it has none.
pub open spec fn is_debug_downloaded(r: UpdateStatus, current: UpdateStatus, current_version: Seq<char>) -> bool {
    &&& r.status@ == "downloaded"@
    &&& r.current_version@ == current_version
    &&& opt_str(r.latest_version) == opt_str(current.latest_version)
    &&& opt_str(r.body) == opt_str(current.body)
    &&& opt_str(r.published_at) == opt_str(current.published_at)
    &&& r.downloaded_bytes == (match current.downloaded_bytes {
        Some(d) => Some(d),
        None => match current.content_length {
            Some(c) => Some(c),
            None => Some(100u64),
        },
    })
    &&& r.content_length == (match current.content_length {
        Some(c) => Some(c),
        None => r.downloaded_bytes,
    })
    &&& r.error is None
}

/// Whether `r` is the status with which a download starts from the current one.
pub open spec fn is_download_started(r: UpdateStatus, current: UpdateStatus, pending_version: Seq<char>) -> bool {
    &&& r.status@ == "downloading"@
    &&& r.current_version@ == current.current_version@
    &&& opt_str(r.latest_version) == (match opt_str(current.latest_version) {
        Some(v) => Some(v),
        None => Some(pending_version),
    })
    &&& opt_str(r.body) == opt_str(current.body)
    &&& opt_str(r.published_at) == opt_str(current.published_at)
    &&& r.downloaded_bytes == Some(0u64)
    &&& r.content_length is None
    &&& r.error is None
}

/// How an install begins.
pub enum InstallStart {
    /// A state forced from the developer tools: report this status, and install nothing.
    Forced(UpdateStatus),
    /// Report this status, then download and install the pending update.
    Download(UpdateStatus),
}

/// The first step of an install. Under a state forced from the developer tools it reports the
/// update as downloaded at once; without a pending update it fails; otherwise the download of
/// the pending update starts.
pub fn install_start_step(
    current: UpdateStatus,
    debug_active: bool,
    pending_version: Option<String>,
    current_version: String,
) -> (r: Result<InstallStart, AppError>)
    ensures
        debug_active ==> (r matches Ok(InstallStart::Forced(s)) && is_debug_downloaded(
            s,
            current,
            current_version@,
        )),
        !debug_active && pending_version is None ==> (r matches Err(AppError::Message(m)) && m@
            == "No update is ready to install"@),
        !debug_active ==> (pending_version matches Some(v) ==> (r matches Ok(
            InstallStart::Download(s),
        ) && is_download_started(s, current, v@))),
{
    if debug_active {
        return Ok(InstallStart::Forced(debug_downloaded_status(current, current_version)));
    }
    match pending_version {
        Some(v) => Ok(InstallStart::Download(download_started_status(current, v))),
        None => Err(AppError::Message(owned("No update is ready to install"))),
    }
}

} // verus!


