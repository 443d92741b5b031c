use vstd::prelude::*;

use crate::page::MOBILE_PAGE_TEMPLATE;
use crate::text::{chars_of, decimal, decimal_chars, push_chars, push_str, str_equal, string_from_chars};

verus! {

/// The escape of one character inside a JSON string literal, as `escape_json` writes it.
pub open spec fn escape_json_char(c: char) -> Seq<char> {
    if c == '\\' {
        seq!['\\', '\\']
    } else if c == '"' {
        seq!['\\', '"']
    } else if c == '\n' {
        seq!['\\', 'n']
    } else if c == '\r' {
        seq!['\\', 'r']
    } else {
        seq![c]
    }
}

pub open spec fn spec_escape_json(s: Seq<char>) -> Seq<char>
    decreases s.len(),
{
    if s.len() == 0 {
        seq![]
    } else {
        spec_escape_json(s.drop_last()) + escape_json_char(s.last())
    }
}

/// Escapes backslashes, quotes and line breaks for a JSON string literal.
pub fn escape_json(value: &str) -> (r: String)
    ensures
        r@ == spec_escape_json(value@),
{
    let v = chars_of(value);
    let mut out: Vec<char> = Vec::new();
    for i in 0..v.len()
        invariant
            v@ == value@,
            out@ == spec_escape_json(v@.take(i as int)),
    {
        let c = v[i];
        proof {
            assert(v@.take(i + 1).drop_last() =~= v@.take(i as int));
            assert(v@.take(i + 1).last() == c);
        }
        if c == '\\' {
            out.push('\\');
            out.push('\\');
        } else if c == '"' {
            out.push('\\');
            out.push('"');
        } else if c == '\n' {
            out.push('\\');
            out.push('n');
        } else if c == '\r' {
            out.push('\\');
            out.push('r');
        } else {
            out.push(c);
        }
        assert(out@ =~= spec_escape_json(v@.take(i as int)) + escape_json_char(c));
    }
    assert(v@.take(v.len() as int) =~= v@);
    string_from_chars(&out)
}

/// Backslashes and quotes become `_` in a header value.
pub open spec fn spec_escape_header_value(s: Seq<char>) -> Seq<char> {
    s.map_values(
        |c: char|
            if c == '\\' || c == '"' {
                '_'
            } else {
                c
            },
    )
}

/// Makes a file name safe inside a quoted header value.
pub fn escape_header_value(value: &str) -> (r: String)
    ensures
        r@ == spec_escape_header_value(value@),
{
    let v = chars_of(value);
    let mut out: Vec<char> = Vec::new();
    for i in 0..v.len()
        invariant
            out@ =~= v@.take(i as int).map_values(
                |c: char|
                    if c == '\\' || c == '"' {
                        '_'
                    } else {
                        c
                    },
            ),
    {
        let c = v[i];
        out.push(
            if c == '\\' || c == '"' {
                '_'
            } else {
                c
            },
        );
        assert(v@.take(i + 1) =~= v@.take(i as int).push(c));
    }
    assert(v@.take(v.len() as int) =~= v@);
    string_from_chars(&out)
}

pub open spec fn has_prefix(b: Seq<u8>, p: Seq<u8>) -> bool {
    p.len() <= b.len() && b.take(p.len() as int) == p
}

/// The MIME type that the first bytes of an image announce.
pub open spec fn spec_detect_image_mime(b: Seq<u8>) -> Option<Seq<char>> {
    if has_prefix(b, seq![0x89u8, 0x50, 0x4e, 0x47, 0x0d, 0x0a, 0x1a, 0x0a]) {
        Some("image/png"@)
    } else if has_prefix(b, seq![0xffu8, 0xd8, 0xff]) {
        Some("image/jpeg"@)
    } else if has_prefix(b, seq![0x47u8, 0x49, 0x46, 0x38, 0x37, 0x61]) || has_prefix(
        b,
        seq![0x47u8, 0x49, 0x46, 0x38, 0x39, 0x61],
    ) {
        Some("image/gif"@)
    } else if has_prefix(b, seq![0x42u8, 0x4d]) {
        Some("image/bmp"@)
    } else if b.len() >= 12 && has_prefix(b, seq![0x52u8, 0x49, 0x46, 0x46]) && b.subrange(8, 12)
        == seq![0x57u8, 0x45, 0x42, 0x50] {
        Some("image/webp"@)
    } else {
        None
    }
}

fn bytes_have_prefix(b: &[u8], p: &Vec<u8>) -> (r: bool)
    ensures
        r == has_prefix(b@, p@),
{
    if p.len() > b.len() {
        return false;
    }
    for i in 0..p.len()
        invariant
            p.len() <= b@.len(),
            forall|k: int| 0 <= k < i ==> b@[k] == p@[k],
    {
        if b[i] != p[i] {
            assert(b@.take(p.len() as int)[i as int] != p@[i as int]);
            return false;
        }
    }
    assert(b@.take(p.len() as int) =~= p@);
    true
}

fn bytes4(a: u8, b: u8, c: u8, d: u8) -> (r: Vec<u8>)
    ensures
        r@ == seq![a, b, c, d],
{
    let mut v: Vec<u8> = Vec::new();
    v.push(a);
    v.push(b);
    v.push(c);
    v.push(d);
    v
}

fn concat_bytes(x: Vec<u8>, y: Vec<u8>) -> (r: Vec<u8>)
    ensures
        r@ == x@ + y@,
{
    let mut r = x;
    let mut y = y;
    r.append(&mut y);
    r
}

/// Recognizes PNG, JPEG, GIF, BMP and WebP data by their signatures.
pub fn detect_image_mime(bytes: &[u8]) -> (r: Option<&'static str>)
    ensures
        match r {
            Some(m) => spec_detect_image_mime(bytes@) == Some(m@),
            None => spec_detect_image_mime(bytes@) is None,
        },
{
    let png = concat_bytes(bytes4(0x89, 0x50, 0x4e, 0x47), bytes4(0x0d, 0x0a, 0x1a, 0x0a));
    assert(png@ =~= seq![0x89u8, 0x50, 0x4e, 0x47, 0x0d, 0x0a, 0x1a, 0x0a]);
    if bytes_have_prefix(bytes, &png) {
        return Some("image/png");
    }
    let mut jpeg = bytes4(0xff, 0xd8, 0xff, 0);
    jpeg.pop();
    assert(jpeg@ =~= seq![0xffu8, 0xd8, 0xff]);
    if bytes_have_prefix(bytes, &jpeg) {
        return Some("image/jpeg");
    }
    let mut gif7 = concat_bytes(bytes4(0x47, 0x49, 0x46, 0x38), bytes4(0x37, 0x61, 0, 0));
    gif7.pop();
    gif7.pop();
    let mut gif9 = concat_bytes(bytes4(0x47, 0x49, 0x46, 0x38), bytes4(0x39, 0x61, 0, 0));
    gif9.pop();
    gif9.pop();
    assert(gif7@ =~= seq![0x47u8, 0x49, 0x46, 0x38, 0x37, 0x61]);
    assert(gif9@ =~= seq![0x47u8, 0x49, 0x46, 0x38, 0x39, 0x61]);
    if bytes_have_prefix(bytes, &gif7) || bytes_have_prefix(bytes, &gif9) {
        return Some("image/gif");
    }
    let mut bmp = bytes4(0x42, 0x4d, 0, 0);
    bmp.pop();
    bmp.pop();
    assert(bmp@ =~= seq![0x42u8, 0x4d]);
    if bytes_have_prefix(bytes, &bmp) {
        return Some("image/bmp");
    }
    let riff = bytes4(0x52, 0x49, 0x46, 0x46);
    if bytes.len() >= 12 && bytes_have_prefix(bytes, &riff) && bytes[8] == 0x57 && bytes[9] == 0x45
        && bytes[10] == 0x42 && bytes[11] == 0x50 {
        assert(bytes@.subrange(8, 12) =~= seq![0x57u8, 0x45, 0x42, 0x50]);
        return Some("image/webp");
    }
    proof {
        if bytes@.len() >= 12 && has_prefix(bytes@, riff@) {
            if bytes@.subrange(8, 12) == seq![0x57u8, 0x45, 0x42, 0x50] {
                assert(bytes@.subrange(8, 12)[0] == bytes@[8]);
                assert(bytes@.subrange(8, 12)[1] == bytes@[9]);
                assert(bytes@.subrange(8, 12)[2] == bytes@[10]);
                assert(bytes@.subrange(8, 12)[3] == bytes@[11]);
            }
        }
    }
    None
}

/// The primary, strong and text colours of the phone page for an accent name.
pub open spec fn spec_accent_palette(accent: Seq<char>) -> (Seq<char>, Seq<char>, Seq<char>) {
    if accent == "ocean"@ {
        ("#68b6ff"@, "#3e7fe6"@, "#0d1a2a"@)
    } else if accent == "jade"@ {
        ("#62d6b1"@, "#2f9f83"@, "#0c1f1b"@)
    } else if accent == "rose"@ {
        ("#f08db0"@, "#d45a86"@, "#2b1019"@)
    } else {
        ("#f0b35f"@, "#dd8648"@, "#24160d"@)
    }
}

/// The colours of the phone page; unknown accents get the amber palette.
pub fn mobile_accent_palette(accent_color: &str) -> (r: (&'static str, &'static str, &'static str))
    ensures
        (r.0@, r.1@, r.2@) == spec_accent_palette(accent_color@),
{
    if str_equal(accent_color, "ocean") {
        ("#68b6ff", "#3e7fe6", "#0d1a2a")
    } else if str_equal(accent_color, "jade") {
        ("#62d6b1", "#2f9f83", "#0c1f1b")
    } else if str_equal(accent_color, "rose") {
        ("#f08db0", "#d45a86", "#2b1019")
    } else {
        ("#f0b35f", "#dd8648", "#24160d")
    }
}

/// `str::replace` for a non-empty pattern: every occurrence, from the left and without
/// overlap, is replaced.
pub open spec fn spec_replace(s: Seq<char>, pat: Seq<char>, rep: Seq<char>) -> Seq<char>
    decreases s.len(),
{
    if s.len() == 0 {
        seq![]
    } else if pat.len() > 0 && pat.len() <= s.len() && s.take(pat.len() as int) == pat {
        rep + spec_replace(s.skip(pat.len() as int), pat, rep)
    } else {
        seq![s[0]] + spec_replace(s.skip(1), pat, rep)
    }
}

fn matches_at(s: &Vec<char>, i: usize, pat: &Vec<char>) -> (r: bool)
    requires
        i <= s.len(),
    ensures
        r == (pat@.len() <= s@.len() - i && s@.skip(i as int).take(pat@.len() as int) == pat@),
{
    if pat.len() > s.len() - i {
        return false;
    }
    for k in 0..pat.len()
        invariant
            i <= s.len(),
            pat.len() <= s.len() - i,
            forall|m: int| 0 <= m < k ==> s@[i + m] == pat@[m],
    {
        if s[i + k] != pat[k] {
            assert(s@.skip(i as int).take(pat@.len() as int)[k as int] == s@[i + k]);
            return false;
        }
    }
    assert(s@.skip(i as int).take(pat@.len() as int) =~= pat@);
    true
}

/// Replaces every occurrence of a non-empty pattern.
pub fn replace_all(s: &Vec<char>, pat: &str, rep: &Vec<char>) -> (r: Vec<char>)
    requires
        pat@.len() > 0,
    ensures
        r@ == spec_replace(s@, pat@, rep@),
{
    let p = chars_of(pat);
    let mut out: Vec<char> = Vec::new();
    let mut i: usize = 0;
    assert(s@.skip(0) =~= s@);
    while i < s.len()
        invariant
            p@ == pat@,
            p@.len() > 0,
            i <= s.len(),
            out@ + spec_replace(s@.skip(i as int), pat@, rep@) == spec_replace(s@, pat@, rep@),
        decreases s.len() - i,
    {
        let ghost rest = s@.skip(i as int);
        if matches_at(s, i, &p) {
            let ghost before = out@;
            push_chars(&mut out, rep);
            proof {
                assert(rest.skip(p@.len() as int) =~= s@.skip(i + p@.len()));
                assert(out@ + spec_replace(s@.skip(i + p@.len()), pat@, rep@) =~= before + (rep@
                    + spec_replace(rest.skip(p@.len() as int), pat@, rep@)));
            }
            i = i + p.len();
        } else {
            let ghost before = out@;
            out.push(s[i]);
            proof {
                assert(rest[0] == s@[i as int]);
                assert(rest.skip(1) =~= s@.skip(i + 1));
                assert(out@ + spec_replace(s@.skip(i + 1), pat@, rep@) =~= before + (seq![s@[i as int]]
                    + spec_replace(rest.skip(1), pat@, rep@)));
            }
            i = i + 1;
        }
    }
    assert(s@.skip(i as int) =~= Seq::<char>::empty());
    assert(out@ + Seq::<char>::empty() =~= out@);
    out
}

/// How often the phone page polls for new messages, in milliseconds.
pub const MOBILE_POLL_MS: u64 = 1200;

/// The phone page with its placeholders filled: the image size limit, the poll interval and the
/// accent colours.
pub open spec fn spec_mobile_page(max_image_bytes: nat, accent: Seq<char>) -> Seq<char> {
    let (p, s, t) = spec_accent_palette(accent);
    spec_replace(
        spec_replace(
            spec_replace(
                spec_replace(
                    spec_replace(MOBILE_PAGE_TEMPLATE@, "__MAX_IMAGE_BYTES__"@, decimal(max_image_bytes)),
                    "__POLL_MS__"@,
                    decimal(MOBILE_POLL_MS as nat),
                ),
                "__ACCENT_PRIMARY__"@,
                p,
            ),
            "__ACCENT_STRONG__"@,
            s,
        ),
        "__ACCENT_TEXT__"@,
        t,
    )
}

/// The page that the phone opens to send and receive.
pub fn mobile_page(max_image_bytes: usize, accent_color: &str) -> (r: String)
    ensures
        r@ == spec_mobile_page(max_image_bytes as nat, accent_color@),
{
    let (primary, strong, text) = mobile_accent_palette(accent_color);
    let page = chars_of(MOBILE_PAGE_TEMPLATE);
    proof {
        reveal_strlit("__MAX_IMAGE_BYTES__");
        reveal_strlit("__POLL_MS__");
        reveal_strlit("__ACCENT_PRIMARY__");
        reveal_strlit("__ACCENT_STRONG__");
        reveal_strlit("__ACCENT_TEXT__");
    }
    let a = replace_all(&page, "__MAX_IMAGE_BYTES__", &decimal_chars(max_image_bytes as u64));
    let b = replace_all(&a, "__POLL_MS__", &decimal_chars(MOBILE_POLL_MS));
    let c = replace_all(&b, "__ACCENT_PRIMARY__", &chars_of(primary));
    let d = replace_all(&c, "__ACCENT_STRONG__", &chars_of(strong));
    let e = replace_all(&d, "__ACCENT_TEXT__", &chars_of(text));
    string_from_chars(&e)
}


/// The answer to an accepted upload: `{"ok":true,"kind":"<kind>"}`.
pub open spec fn spec_ok_kind_json(kind: Seq<char>) -> Seq<char> {
    "{\"ok\":true,\"kind\":\""@ + spec_escape_json(kind) + "\"}"@
}

/// The answer to an accepted upload, naming what was received.
pub fn ok_kind_json(kind: &str) -> (r: String)
    ensures
        r@ == spec_ok_kind_json(kind@),
{
    let mut v: Vec<char> = Vec::new();
    push_str(&mut v, "{\"ok\":true,\"kind\":\"");
    let e = escape_json(kind);
    push_str(&mut v, e.as_str());
    push_str(&mut v, "\"}");
    string_from_chars(&v)
}

/// The answer to a refused request: `{"ok":false,"message":"<message>"}`.
pub open spec fn spec_error_json(message: Seq<char>) -> Seq<char> {
    "{\"ok\":false,\"message\":\""@ + spec_escape_json(message) + "\"}"@
}

/// The answer to a refused request, with the error's text.
pub fn error_json(message: &str) -> (r: String)
    ensures
        r@ == spec_error_json(message@),
{
    let mut v: Vec<char> = Vec::new();
    push_str(&mut v, "{\"ok\":false,\"message\":\"");
    let e = escape_json(message);
    push_str(&mut v, e.as_str());
    push_str(&mut v, "\"}");
    string_from_chars(&v)
}

} // verus!
