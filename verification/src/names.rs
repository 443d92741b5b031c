use vstd::prelude::*;

use crate::payload::PlatformFamily;
use crate::text::{
    chars_of, decimal, decimal_chars, is_ascii_alphanumeric, is_control, is_control_char,
    push_chars, push_str, string_from_chars, sub_chars, take_at_most, take_chars, trim,
    trim_char, trim_char_end, trim_char_start, trim_chars, trim_end, trim_matches_char,
    trim_start,
};

verus! {

pub open spec fn is_path_separator(c: char) -> bool {
    c == '/' || c == '\\'
}

/// The part after the last `/` or `\`.
pub open spec fn last_segment(s: Seq<char>) -> Seq<char>
    decreases s.len(),
{
    if s.len() == 0 {
        s
    } else if is_path_separator(s.last()) {
        seq![]
    } else {
        last_segment(s.drop_last()).push(s.last())
    }
}

/// Characters that a saved file name may not hold.
pub open spec fn is_forbidden_in_file_name(c: char) -> bool {
    is_control(c) || c == '<' || c == '>' || c == ':' || c == '"' || c == '/' || c == '\\' || c
        == '|' || c == '?' || c == '*'
}

pub open spec fn sanitize_char(c: char) -> char {
    if is_forbidden_in_file_name(c) {
        '_'
    } else {
        c
    }
}

/// The name under which a received file is saved: the last path segment, trimmed, with
/// forbidden characters replaced by `_`, without surrounding dots and whitespace, at most 180
/// characters; `transfer-file` when nothing is left.
pub open spec fn spec_sanitize_file_name(value: Seq<char>) -> Seq<char> {
    let name = trim(last_segment(value));
    let cleaned = trim(trim_char(name.map_values(|c: char| sanitize_char(c)), '.'));
    if cleaned.len() == 0 {
        "transfer-file"@
    } else {
        take_at_most(cleaned, 180)
    }
}

/// No character of the text is forbidden in a file name.
pub open spec fn is_safe_file_name(s: Seq<char>) -> bool {
    forall|i: int| 0 <= i < s.len() ==> !is_forbidden_in_file_name(#[trigger] s[i])
}

fn last_segment_chars(v: &Vec<char>) -> (r: Vec<char>)
    ensures
        r@ == last_segment(v@),
{
    let n = v.len();
    let mut j = n;
    assert(v@.take(n as int) =~= v@);
    assert(v@.skip(n as int) =~= Seq::<char>::empty());
    while j > 0 && !(v[j - 1] == '/' || v[j - 1] == '\\')
        invariant
            j <= n == v.len(),
            last_segment(v@) == last_segment(v@.take(j as int)) + v@.skip(j as int),
        decreases j,
    {
        proof {
            let t = v@.take(j as int);
            assert(t.drop_last() =~= v@.take(j - 1));
            assert(t.last() == v@[j - 1]);
            assert(last_segment(v@.take(j - 1)).push(v@[j - 1]) + v@.skip(j as int) =~= last_segment(
                v@.take(j - 1),
            ) + v@.skip(j - 1));
        }
        j -= 1;
    }
    proof {
        if j > 0 {
            let t = v@.take(j as int);
            assert(t.last() == v@[j - 1]);
        } else {
            assert(v@.take(0) =~= Seq::<char>::empty());
        }
        assert(last_segment(v@.take(j as int)) =~= Seq::<char>::empty());
        assert(Seq::<char>::empty() + v@.skip(j as int) =~= v@.skip(j as int));
    }
    let r = sub_chars(v, j, n);
    assert(r@ =~= v@.skip(j as int));
    r
}

/// Makes a name that the phone sent safe to save on this computer.
pub fn sanitize_file_name(value: &str) -> (r: String)
    ensures
        r@ == spec_sanitize_file_name(value@),
{
    let v = chars_of(value);
    let seg = last_segment_chars(&v);
    let name = trim_chars(&seg);
    let mut mapped: Vec<char> = Vec::new();
    for i in 0..name.len()
        invariant
            mapped@ =~= name@.take(i as int).map_values(|c: char| sanitize_char(c)),
    {
        let c = name[i];
        let m = if is_control_char(c) || c == '<' || c == '>' || c == ':' || c == '"' || c == '/'
            || c == '\\' || c == '|' || c == '?' || c == '*' {
            '_'
        } else {
            c
        };
        mapped.push(m);
        assert(name@.take(i + 1) =~= name@.take(i as int).push(c));
    }
    assert(name@.take(name.len() as int) =~= name@);
    let dots = trim_matches_char(&mapped, '.');
    let cleaned = trim_chars(&dots);
    if cleaned.len() == 0 {
        crate::text::owned("transfer-file")
    } else {
        let t = take_chars(&cleaned, 180);
        string_from_chars(&t)
    }
}

proof fn lemma_safe_subrange(s: Seq<char>, lo: int, hi: int)
    requires
        is_safe_file_name(s),
        0 <= lo <= hi <= s.len(),
    ensures
        is_safe_file_name(s.subrange(lo, hi)),
{
    assert forall|i: int| 0 <= i < hi - lo implies !is_forbidden_in_file_name(
        #[trigger] s.subrange(lo, hi)[i],
    ) by {
        assert(s.subrange(lo, hi)[i] == s[lo + i]);
    }
}

proof fn lemma_safe_trim_start(s: Seq<char>)
    requires
        is_safe_file_name(s),
    ensures
        is_safe_file_name(trim_start(s)),
    decreases s.len(),
{
    if s.len() > 0 && crate::text::is_ws(s[0]) {
        lemma_safe_subrange(s, 1, s.len() as int);
        assert(s.drop_first() =~= s.subrange(1, s.len() as int));
        lemma_safe_trim_start(s.drop_first());
    }
}

proof fn lemma_safe_trim_end(s: Seq<char>)
    requires
        is_safe_file_name(s),
    ensures
        is_safe_file_name(trim_end(s)),
    decreases s.len(),
{
    if s.len() > 0 && crate::text::is_ws(s.last()) {
        lemma_safe_subrange(s, 0, s.len() - 1);
        assert(s.drop_last() =~= s.subrange(0, s.len() - 1));
        lemma_safe_trim_end(s.drop_last());
    }
}

proof fn lemma_safe_trim_char_start(s: Seq<char>, c: char)
    requires
        is_safe_file_name(s),
    ensures
        is_safe_file_name(trim_char_start(s, c)),
    decreases s.len(),
{
    if s.len() > 0 && s[0] == c {
        lemma_safe_subrange(s, 1, s.len() as int);
        assert(s.drop_first() =~= s.subrange(1, s.len() as int));
        lemma_safe_trim_char_start(s.drop_first(), c);
    }
}

proof fn lemma_safe_trim_char_end(s: Seq<char>, c: char)
    requires
        is_safe_file_name(s),
    ensures
        is_safe_file_name(trim_char_end(s, c)),
    decreases s.len(),
{
    if s.len() > 0 && s.last() == c {
        lemma_safe_subrange(s, 0, s.len() - 1);
        assert(s.drop_last() =~= s.subrange(0, s.len() - 1));
        lemma_safe_trim_char_end(s.drop_last(), c);
    }
}

/// A saved file name is never empty, holds at most 180 characters, and holds no path
/// separator, control character or other character that file systems refuse; so a name from
/// the phone cannot leave the download folder.
pub proof fn law_sanitized_file_name_is_safe(value: Seq<char>)
    ensures
        spec_sanitize_file_name(value).len() > 0,
        spec_sanitize_file_name(value).len() <= 180,
        is_safe_file_name(spec_sanitize_file_name(value)),
{
    let name = trim(last_segment(value));
    let mapped = name.map_values(|c: char| sanitize_char(c));
    assert(is_safe_file_name(mapped));
    lemma_safe_trim_char_start(mapped, '.');
    lemma_safe_trim_char_end(trim_char_start(mapped, '.'), '.');
    let dots = trim_char(mapped, '.');
    lemma_safe_trim_start(dots);
    lemma_safe_trim_end(trim_start(dots));
    let cleaned = trim(dots);
    if cleaned.len() == 0 {
        reveal_strlit("transfer-file");
        assert(is_safe_file_name("transfer-file"@));
    } else if cleaned.len() > 180 {
        lemma_safe_subrange(cleaned, 0, 180);
        assert(cleaned.take(180) =~= cleaned.subrange(0, 180));
    }
}

/// The identifier that the phone gave a message, made safe: trimmed, every character but
/// ASCII letters, digits, `-`, `_` and `.` replaced by `_`, at most 96 characters.
pub open spec fn sanitized_message_id(value: Seq<char>) -> Seq<char> {
    take_at_most(
        trim(value).map_values(
            |c: char|
                if is_ascii_alphanumeric(c) || c == '-' || c == '_' || c == '.' {
                    c
                } else {
                    '_'
                },
        ),
        96,
    )
}

/// Whether the character is a lowercase hexadecimal digit.
pub open spec fn is_lower_hex(c: char) -> bool {
    ('0' <= c && c <= '9') || ('a' <= c && c <= 'f')
}

/// The text of a random (version 4) UUID in its hyphenated lowercase form: 36 characters,
/// hyphens after the 8th, 12th, 16th and 20th digit, the version digit `4`, and a variant
/// digit from `8` to `b`.
pub open spec fn is_uuid_v4_text(s: Seq<char>) -> bool {
    &&& s.len() == 36
    &&& forall|i: int|
        0 <= i < 36 ==> if i == 8 || i == 13 || i == 18 || i == 23 {
            #[trigger] s[i] == '-'
        } else {
            is_lower_hex(s[i])
        }
    &&& s[14] == '4'
    &&& (s[19] == '8' || s[19] == '9' || s[19] == 'a' || s[19] == 'b')
}

/// A new random identifier: `uuid::Uuid::new_v4()` in its hyphenated form. The crate sets the
/// version and variant bits of random bytes and prints them as lowercase hexadecimal digits
/// in groups of 8, 4, 4, 4 and 12.
#[verifier::external_body]
pub(crate) fn new_uuid_string() -> (r: String)
    ensures
        is_uuid_v4_text(r@),
{
    uuid::Uuid::new_v4().to_string()
}

/// The identifier of a message from the phone; a new random one when nothing usable is left.
pub fn sanitize_message_id(value: &str) -> (r: String)
    ensures
        trim(value@).len() > 0 ==> r@ == sanitized_message_id(value@),
        trim(value@).len() == 0 ==> is_uuid_v4_text(r@),
{
    let v = chars_of(value);
    let t = trim_chars(&v);
    let mut mapped: Vec<char> = Vec::new();
    for i in 0..t.len()
        invariant
            mapped@ =~= t@.take(i as int).map_values(
                |c: char|
                    if is_ascii_alphanumeric(c) || c == '-' || c == '_' || c == '.' {
                        c
                    } else {
                        '_'
                    },
            ),
    {
        let c = t[i];
        let keep = ('0' <= c && c <= '9') || ('a' <= c && c <= 'z') || ('A' <= c && c <= 'Z') || c
            == '-' || c == '_' || c == '.';
        mapped.push(
            if keep {
                c
            } else {
                '_'
            },
        );
        assert(t@.take(i + 1) =~= t@.take(i as int).push(c));
    }
    assert(t@.take(t.len() as int) =~= t@);
    if mapped.len() == 0 {
        new_uuid_string()
    } else {
        let r = take_chars(&mapped, 96);
        string_from_chars(&r)
    }
}

/// The index of the last `.`, or -1.
pub open spec fn last_dot(s: Seq<char>) -> int
    decreases s.len(),
{
    if s.len() == 0 {
        -1
    } else if s.last() == '.' {
        s.len() - 1
    } else {
        last_dot(s.drop_last())
    }
}

/// The stem and the extension of a file name, as `Path::file_stem` and `Path::extension` give
/// them: a leading dot starts no extension.
pub open spec fn stem_and_extension(name: Seq<char>) -> (Seq<char>, Option<Seq<char>>) {
    let k = last_dot(name);
    if k <= 0 {
        (name, None)
    } else {
        (name.take(k), Some(name.skip(k + 1)))
    }
}

/// Whether a path component is `.`.
pub open spec fn is_current_dir(seg: Seq<char>) -> bool {
    seg.len() == 1 && seg[0] == '.'
}

/// Whether a path component is `..`.
pub open spec fn is_parent_dir(seg: Seq<char>) -> bool {
    seg.len() == 2 && seg[0] == '.' && seg[1] == '.'
}

/// Whether the character separates path components on the platform: `/` everywhere, and `\`
/// on Windows too; elsewhere a backslash is an ordinary character of a name.
pub open spec fn separates_path(c: char, platform: PlatformFamily) -> bool {
    c == '/' || (platform is Windows && c == '\\')
}

/// The part of a path after its last separator on the platform.
pub open spec fn last_component(s: Seq<char>, platform: PlatformFamily) -> Seq<char>
    decreases s.len(),
{
    if s.len() == 0 {
        s
    } else if separates_path(s.last(), platform) {
        seq![]
    } else {
        last_component(s.drop_last(), platform).push(s.last())
    }
}

/// Whether a Windows path begins with a drive such as `C:`.
pub open spec fn has_drive_prefix(p: Seq<char>) -> bool {
    p.len() >= 2 && p[1] == ':' && (('a' <= p[0] && p[0] <= 'z') || ('A' <= p[0] && p[0] <= 'Z'))
}

/// The file name of a path without a prefix: its last component once trailing separators and
/// `.` components are passed over; nothing when that is `..`, a lone leading `.`, or when no
/// component is left.
pub open spec fn component_file_name(p: Seq<char>, platform: PlatformFamily) -> Option<Seq<char>>
    decreases p.len(),
{
    if p.len() == 0 {
        None
    } else if separates_path(p.last(), platform) {
        component_file_name(p.drop_last(), platform)
    } else {
        let seg = last_component(p, platform);
        if is_current_dir(seg) {
            if p.len() == 1 {
                None
            } else {
                component_file_name(p.drop_last(), platform)
            }
        } else if is_parent_dir(seg) {
            None
        } else {
            Some(seg)
        }
    }
}

/// The file name of a path as `Path::file_name` gives it on the platform. On Windows a drive
/// prefix such as `C:` is not part of any component (UNC and verbatim prefixes, which name a
/// share or a device rather than a file, are read as ordinary components).
pub open spec fn path_file_name(p: Seq<char>, platform: PlatformFamily) -> Option<Seq<char>> {
    if platform is Windows && has_drive_prefix(p) {
        component_file_name(p.skip(2), platform)
    } else {
        component_file_name(p, platform)
    }
}

/// The stem and extension of a path's file name; an empty stem and no extension when the path
/// has no file name.
pub open spec fn path_stem_and_extension(p: Seq<char>, platform: PlatformFamily) -> (Seq<char>, Option<Seq<char>>) {
    match path_file_name(p, platform) {
        Some(name) => stem_and_extension(name),
        None => (seq![], None),
    }
}

fn is_windows(platform: &PlatformFamily) -> (r: bool)
    ensures
        r == (*platform is Windows),
{
    match platform {
        PlatformFamily::Windows => true,
        _ => false,
    }
}

fn last_component_chars(v: &Vec<char>, platform: &PlatformFamily) -> (r: Vec<char>)
    ensures
        r@ == last_component(v@, *platform),
{
    let windows = is_windows(platform);
    let n = v.len();
    let mut j = n;
    assert(v@.take(n as int) =~= v@);
    assert(v@.skip(n as int) =~= Seq::<char>::empty());
    while j > 0 && !(v[j - 1] == '/' || (windows && v[j - 1] == '\\'))
        invariant
            j <= n == v.len(),
            windows == (*platform is Windows),
            last_component(v@, *platform) == last_component(v@.take(j as int), *platform) + v@.skip(j as int),
        decreases j,
    {
        proof {
            let t = v@.take(j as int);
            assert(t.drop_last() =~= v@.take(j - 1));
            assert(t.last() == v@[j - 1]);
            assert(last_component(v@.take(j - 1), *platform).push(v@[j - 1]) + v@.skip(j as int)
                =~= last_component(v@.take(j - 1), *platform) + v@.skip(j - 1));
        }
        j -= 1;
    }
    proof {
        if j > 0 {
            let t = v@.take(j as int);
            assert(t.last() == v@[j - 1]);
        } else {
            assert(v@.take(0) =~= Seq::<char>::empty());
        }
        assert(last_component(v@.take(j as int), *platform) =~= Seq::<char>::empty());
        assert(Seq::<char>::empty() + v@.skip(j as int) =~= v@.skip(j as int));
    }
    let r = sub_chars(v, j, n);
    assert(r@ =~= v@.skip(j as int));
    r
}

fn component_file_name_chars(v: &Vec<char>, platform: &PlatformFamily) -> (r: Option<Vec<char>>)
    ensures
        match r {
            Some(name) => component_file_name(v@, *platform) == Some(name@),
            None => component_file_name(v@, *platform) is None,
        },
{
    let windows = is_windows(platform);
    let mut e = v.len();
    assert(v@.take(e as int) =~= v@);
    while e > 0
        invariant
            e <= v.len(),
            windows == (*platform is Windows),
            component_file_name(v@, *platform) == component_file_name(v@.take(e as int), *platform),
        decreases e,
    {
        let ghost p = v@.take(e as int);
        assert(p.last() == v@[e - 1]);
        assert(p.drop_last() =~= v@.take(e - 1));
        if v[e - 1] == '/' || (windows && v[e - 1] == '\\') {
            e -= 1;
        } else {
            let prefix = sub_chars(v, 0, e);
            assert(prefix@ =~= p);
            let seg = last_component_chars(&prefix, platform);
            if seg.len() == 1 && seg[0] == '.' {
                if e == 1 {
                    return None;
                }
                e -= 1;
            } else if seg.len() == 2 && seg[0] == '.' && seg[1] == '.' {
                return None;
            } else {
                return Some(seg);
            }
        }
    }
    assert(v@.take(0) =~= Seq::<char>::empty());
    None
}

/// The file name of a path on the platform, as `path_file_name` states it.
pub fn file_name_chars(v: &Vec<char>, platform: &PlatformFamily) -> (r: Option<Vec<char>>)
    ensures
        match r {
            Some(name) => path_file_name(v@, *platform) == Some(name@),
            None => path_file_name(v@, *platform) is None,
        },
{
    if is_windows(platform) && v.len() >= 2 && v[1] == ':' && (('a' <= v[0] && v[0] <= 'z') || (
    'A' <= v[0] && v[0] <= 'Z')) {
        let rest = sub_chars(v, 2, v.len());
        assert(rest@ =~= v@.skip(2));
        component_file_name_chars(&rest, platform)
    } else {
        component_file_name_chars(v, platform)
    }
}

/// The stem and the extension of a file name, split at its last dot.
pub fn split_stem_extension(name: &Vec<char>) -> (r: (Vec<char>, Option<Vec<char>>))
    ensures
        r.0@ == stem_and_extension(name@).0,
        match r.1 {
            Some(e) => stem_and_extension(name@).1 == Some(e@),
            None => stem_and_extension(name@).1 is None,
        },
{
    let mut j = name.len();
    assert(name@.take(j as int) =~= name@);
    while j > 0 && name[j - 1] != '.'
        invariant
            j <= name.len(),
            last_dot(name@) == last_dot(name@.take(j as int)),
        decreases j,
    {
        proof {
            assert(name@.take(j as int).drop_last() =~= name@.take(j - 1));
            assert(name@.take(j as int).last() == name@[j - 1]);
        }
        j -= 1;
    }
    proof {
        if j > 0 {
            assert(name@.take(j as int).last() == name@[j - 1]);
        }
    }
    if j <= 1 {
        (sub_chars(name, 0, name.len()), None)
    } else {
        let e = sub_chars(name, j, name.len());
        assert(e@ =~= name@.skip(j as int));
        (sub_chars(name, 0, j - 1), Some(e))
    }
}

/// The stem and extension of a path's file name, as `path_stem_and_extension` states them.
fn path_stem_extension(path: &str, platform: &PlatformFamily) -> (r: (Vec<char>, Option<Vec<char>>))
    ensures
        r.0@ == path_stem_and_extension(path@, *platform).0,
        match r.1 {
            Some(e) => path_stem_and_extension(path@, *platform).1 == Some(e@),
            None => path_stem_and_extension(path@, *platform).1 is None,
        },
{
    let v = chars_of(path);
    match file_name_chars(&v, platform) {
        Some(name) => split_stem_extension(&name),
        None => (Vec::new(), None),
    }
}

/// The name tried after the plain one is taken: `stem (n).ext`, or `stem (n)` without an
/// extension; the stem is `transfer-file` when the name has none.
pub open spec fn spec_numbered_file_name(name: Seq<char>, platform: PlatformFamily, index: nat) -> Seq<char> {
    let (stem0, ext) = path_stem_and_extension(name, platform);
    let stem = if stem0.len() > 0 {
        stem0
    } else {
        "transfer-file"@
    };
    let base = stem + " ("@ + decimal(index) + ")"@;
    match ext {
        Some(e) => if e.len() > 0 {
            base + "."@ + e
        } else {
            base
        },
        None => base,
    }
}

/// The candidate name number `index` for a file whose plain name is taken.
pub fn numbered_file_name(file_name: &str, platform: &PlatformFamily, index: u64) -> (r: String)
    ensures
        r@ == spec_numbered_file_name(file_name@, *platform, index as nat),
{
    let (stem, ext) = path_stem_extension(file_name, platform);
    let mut out: Vec<char> = Vec::new();
    if stem.len() > 0 {
        push_chars(&mut out, &stem);
    } else {
        push_str(&mut out, "transfer-file");
    }
    push_str(&mut out, " (");
    let digits = decimal_chars(index);
    push_chars(&mut out, &digits);
    push_str(&mut out, ")");
    match ext {
        Some(e) => {
            if e.len() > 0 {
                push_str(&mut out, ".");
                push_chars(&mut out, &e);
            }
        },
        None => {},
    }
    string_from_chars(&out)
}

/// The name tried when a thousand numbered names are taken: the stem (or `transfer-file`), a
/// hyphen, and a new random identifier.
pub fn fallback_file_name(file_name: &str, platform: &PlatformFamily) -> (r: String)
    ensures
        ({
            let stem0 = path_stem_and_extension(file_name@, *platform).0;
            let stem = if stem0.len() > 0 {
                stem0
            } else {
                "transfer-file"@
            };
            &&& r@.take((stem.len() + 1) as int) == stem + "-"@
            &&& is_uuid_v4_text(r@.skip((stem.len() + 1) as int))
        }),
{
    let (stem, _) = path_stem_extension(file_name, platform);
    let mut out: Vec<char> = Vec::new();
    if stem.len() > 0 {
        push_chars(&mut out, &stem);
    } else {
        push_str(&mut out, "transfer-file");
    }
    let ghost prefix = out@;
    push_str(&mut out, "-");
    let id = new_uuid_string();
    push_str(&mut out, id.as_str());
    proof {
        reveal_strlit("-");
        assert(out@.take((prefix.len() + 1) as int) =~= prefix + "-"@);
        assert(out@.skip((prefix.len() + 1) as int) =~= id@);
    }
    string_from_chars(&out)
}

} // verus!
