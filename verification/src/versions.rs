use vstd::prelude::*;

use crate::text::{chars_of, string_from_chars, trim, trim_char_start, trim_chars};

verus! {

/// `semver::Version`, carried as an opaque value.
#[verifier::external_type_specification]
#[verifier::external_body]
pub struct ExSemverVersion(semver::Version);

/// Whether `semver::Version::parse` accepts the text.
pub uninterp spec fn semver_parses(text: Seq<char>) -> bool;

/// The sign of `Ord::cmp` between the versions that `semver::Version::parse` reads from two
/// texts: -1, 0 or 1.
pub uninterp spec fn semver_order(a: Seq<char>, b: Seq<char>) -> int;

/// `semver::Version::parse`; `Some` exactly when the crate accepts the text.
#[verifier::external_body]
fn parse_semver(text: &str) -> (r: Option<semver::Version>)
    ensures
        r is Some <==> semver_parses(text@),
{
    semver::Version::parse(text).ok()
}

/// A release version: the text it was read from, and the version `semver` read from it.
pub struct ReleaseVersion {
    text: String,
    version: semver::Version,
}

impl View for ReleaseVersion {
    type V = Seq<char>;

    closed spec fn view(&self) -> Seq<char> {
        self.text@
    }
}

/// A tag or version text without surrounding whitespace and leading `v`s.
pub open spec fn normalized_version_text(raw: Seq<char>) -> Seq<char> {
    trim_char_start(trim(raw), 'v')
}

/// `Ord::cmp` of `semver::Version` on the two versions, as -1, 0 or 1. `Ord` is a total order,
/// so swapping the arguments negates the result.
#[verifier::external_body]
pub(crate) fn compare_versions(a: &ReleaseVersion, b: &ReleaseVersion) -> (r: i8)
    ensures
        r == semver_order(a@, b@),
        r == -semver_order(b@, a@),
        -1 <= r <= 1,
{
    match a.version.cmp(&b.version) {
        std::cmp::Ordering::Less => -1,
        std::cmp::Ordering::Equal => 0,
        std::cmp::Ordering::Greater => 1,
    }
}

/// Reads a release version from a tag such as `v0.5.1`: surrounding whitespace and leading
/// `v`s are dropped, and the rest must be a semantic version.
pub fn parse_release_version(raw: &str) -> (r: Option<ReleaseVersion>)
    ensures
        r is Some <==> semver_parses(normalized_version_text(raw@)),
        r is Some ==> r->0@ == normalized_version_text(raw@),
{
    let chars = chars_of(raw);
    let trimmed = trim_chars(&chars);
    let mut i: usize = 0;
    assert(trimmed@.subrange(0, trimmed.len() as int) =~= trimmed@);
    while i < trimmed.len() && trimmed[i] == 'v'
        invariant
            i <= trimmed.len(),
            trim_char_start(trimmed@, 'v') == trim_char_start(
                trimmed@.subrange(i as int, trimmed.len() as int),
                'v',
            ),
        decreases trimmed.len() - i,
    {
        proof {
            let s = trimmed@.subrange(i as int, trimmed.len() as int);
            assert(s.drop_first() =~= trimmed@.subrange(i + 1, trimmed.len() as int));
        }
        i += 1;
    }
    let rest = crate::text::sub_chars(&trimmed, i, trimmed.len());
    assert(trim_char_start(rest@, 'v') == rest@);
    let text = string_from_chars(&rest);
    match parse_semver(text.as_str()) {
        Some(version) => Some(ReleaseVersion { text, version }),
        None => None,
    }
}

} // verus!
