use vstd::prelude::*;
use vstd::utf8::{decode_utf8, encode_utf8, is_continuation_byte, valid_utf8};

use crate::text::{chars_of, string_from_chars, sub_chars};

verus! {

/// The index of the first `c` in `s`, or -1.
pub open spec fn first_index(s: Seq<char>, c: char) -> int
    decreases s.len(),
{
    if s.len() == 0 {
        -1
    } else if s[0] == c {
        0
    } else {
        let r = first_index(s.drop_first(), c);
        if r < 0 {
            -1
        } else {
            r + 1
        }
    }
}

pub proof fn lemma_first_index(s: Seq<char>, c: char)
    ensures
        -1 <= first_index(s, c) < s.len(),
        first_index(s, c) >= 0 ==> s[first_index(s, c)] == c,
        forall|j: int| 0 <= j < s.len() && (first_index(s, c) < 0 || j < first_index(s, c)) ==> s[j] != c,
    decreases s.len(),
{
    if s.len() > 0 {
        lemma_first_index(s.drop_first(), c);
        assert forall|j: int| 0 <= j < s.len() && (first_index(s, c) < 0 || j < first_index(s, c)) implies s[j] != c by {
            if j > 0 {
                assert(s[j] == s.drop_first()[j - 1]);
            }
        }
    }
}

pub proof fn lemma_first_index_at(s: Seq<char>, c: char, i: int)
    requires
        0 <= i < s.len(),
        s[i] == c,
        forall|j: int| 0 <= j < i ==> s[j] != c,
    ensures
        first_index(s, c) == i,
    decreases s.len(),
{
    lemma_first_index(s, c);
    if first_index(s, c) < 0 {
        assert(s[i] != c);
    } else if first_index(s, c) < i {
        assert(s[first_index(s, c)] != c);
    } else if first_index(s, c) > i {
        assert(s[i] != c);
    }
}

pub proof fn lemma_first_index_none(s: Seq<char>, c: char)
    requires
        forall|j: int| 0 <= j < s.len() ==> s[j] != c,
    ensures
        first_index(s, c) == -1,
{
    lemma_first_index(s, c);
    if first_index(s, c) >= 0 {
        assert(s[first_index(s, c)] == c);
    }
}

/// `str::split_once` on a character: the parts before and after the first `c`.
pub open spec fn split_once(s: Seq<char>, c: char) -> Option<(Seq<char>, Seq<char>)> {
    let k = first_index(s, c);
    if k < 0 {
        None
    } else {
        Some((s.take(k), s.skip(k + 1)))
    }
}

/// `str::split` on a character: the pieces between the separators, empty ones included.
pub open spec fn split_on(s: Seq<char>, c: char) -> Seq<Seq<char>>
    decreases s.len(),
{
    if s.len() == 0 {
        seq![seq![]]
    } else {
        let init = split_on(s.drop_last(), c);
        if s.last() == c {
            init.push(seq![])
        } else {
            init.update(init.len() - 1, init.last().push(s.last()))
        }
    }
}

pub proof fn lemma_split_on_len(s: Seq<char>, c: char)
    ensures
        split_on(s, c).len() >= 1,
    decreases s.len(),
{
    if s.len() > 0 {
        lemma_split_on_len(s.drop_last(), c);
    }
}

/// Index of the first `c` at or after `from`, or the length.
fn find_char_from(v: &Vec<char>, c: char, from: usize) -> (r: usize)
    requires
        from <= v.len(),
    ensures
        from <= r <= v.len(),
        r < v.len() ==> v@[r as int] == c,
        forall|j: int| from <= j < r ==> v@[j] != c,
{
    let mut i = from;
    while i < v.len() && v[i] != c
        invariant
            from <= i <= v.len(),
            forall|j: int| from <= j < i ==> v@[j] != c,
        decreases v.len() - i,
    {
        i += 1;
    }
    i
}

/// The parts before and after the first `c`, when there is one.
pub fn split_once_chars(v: &Vec<char>, c: char) -> (r: Option<(Vec<char>, Vec<char>)>)
    ensures
        match r {
            Some((a, b)) => split_once(v@, c) == Some((a@, b@)),
            None => split_once(v@, c) is None,
        },
{
    let k = find_char_from(v, c, 0);
    if k == v.len() {
        proof {
            lemma_first_index_none(v@, c);
        }
        None
    } else {
        proof {
            lemma_first_index_at(v@, c, k as int);
        }
        let a = sub_chars(v, 0, k);
        let b = sub_chars(v, k + 1, v.len());
        assert(a@ =~= v@.take(k as int));
        assert(b@ =~= v@.skip(k + 1));
        Some((a, b))
    }
}

/// The pieces of `v` between the separators `c`.
pub fn split_chars(v: &Vec<char>, c: char) -> (r: Vec<Vec<char>>)
    ensures
        r@.len() == split_on(v@, c).len(),
        forall|k: int| 0 <= k < r@.len() ==> (#[trigger] r@[k])@ == split_on(v@, c)[k],
{
    let mut done: Vec<Vec<char>> = Vec::new();
    let mut cur: Vec<char> = Vec::new();
    for i in 0..v.len()
        invariant
            done@.len() + 1 == split_on(v@.take(i as int), c).len(),
            forall|k: int|
                0 <= k < done@.len() ==> (#[trigger] done@[k])@ == split_on(v@.take(i as int), c)[k],
            cur@ == split_on(v@.take(i as int), c).last(),
    {
        proof {
            lemma_split_on_len(v@.take(i as int), c);
            assert(v@.take(i + 1).drop_last() =~= v@.take(i as int));
            assert(v@.take(i + 1).last() == v@[i as int]);
        }
        if v[i] == c {
            let mut piece: Vec<char> = Vec::new();
            std::mem::swap(&mut piece, &mut cur);
            done.push(piece);
        } else {
            cur.push(v[i]);
        }
    }
    assert(v@.take(v.len() as int) =~= v@);
    done.push(cur);
    proof {
        assert forall|k: int| 0 <= k < done@.len() implies (#[trigger] done@[k])@ == split_on(
            v@,
            c,
        )[k] by {
            if k < done@.len() - 1 {
            }
        }
    }
    done
}

/// `split_target`: the path before the first `?`, and the query after it (empty when there is
/// no `?`).
pub open spec fn spec_split_target(target: Seq<char>) -> (Seq<char>, Seq<char>) {
    match split_once(target, '?') {
        Some((p, q)) => (p, q),
        None => (target, seq![]),
    }
}

/// Splits a request target into its path and its query.
pub fn split_target(target: &str) -> (r: (String, String))
    ensures
        (r.0@, r.1@) == spec_split_target(target@),
{
    let v = chars_of(target);
    match split_once_chars(&v, '?') {
        Some((p, q)) => (string_from_chars(&p), string_from_chars(&q)),
        None => (string_from_chars(&v), String::new()),
    }
}

/// Whether some `key=value` pair of the query has the key `token` and the expected value.
pub open spec fn spec_query_has_token(query: Seq<char>, expected: Seq<char>) -> bool {
    exists|k: int|
        0 <= k < split_on(query, '&').len() && #[trigger] split_once(split_on(query, '&')[k], '=')
            == Some(("token"@, expected))
}

/// Whether the query carries `token=<expected>`.
pub fn query_has_token(query: &str, expected: &str) -> (r: bool)
    ensures
        r == spec_query_has_token(query@, expected@),
{
    let v = chars_of(query);
    let parts = split_chars(&v, '&');
    let want = chars_of(expected);
    for i in 0..parts.len()
        invariant
            parts@.len() == split_on(v@, '&').len(),
            forall|k: int| 0 <= k < parts@.len() ==> (#[trigger] parts@[k])@ == split_on(v@, '&')[k],
            v@ == query@,
            want@ == expected@,
            forall|k: int|
                0 <= k < i ==> #[trigger] split_once(split_on(query@, '&')[k], '=') != Some(
                    ("token"@, expected@),
                ),
    {
        if let Some((key, value)) = split_once_chars(&parts[i], '=') {
            if crate::text::chars_equal_str(&key, "token") && crate::text::chars_equal(
                &value,
                &want,
            ) {
                assert(split_once(split_on(query@, '&')[i as int], '=') == Some(
                    ("token"@, expected@),
                ));
                return true;
            }
        }
    }
    false
}

/// The value of the first `key=value` pair of the query with the given key, still encoded.
pub open spec fn first_param(parts: Seq<Seq<char>>, key: Seq<char>) -> Option<Seq<char>>
    decreases parts.len(),
{
    if parts.len() == 0 {
        None
    } else {
        match split_once(parts[0], '=') {
            Some((name, value)) => if name == key {
                Some(value)
            } else {
                first_param(parts.drop_first(), key)
            },
            None => first_param(parts.drop_first(), key),
        }
    }
}

/// The decoded value of the first query parameter named `key`.
pub open spec fn spec_query_param(query: Seq<char>, key: Seq<char>) -> Option<Seq<char>> {
    match first_param(split_on(query, '&'), key) {
        Some(v) => Some(spec_percent_decode_str(v)),
        None => None,
    }
}

/// The decoded value of a query parameter.
pub fn query_param(query: &str, key: &str) -> (r: Option<String>)
    requires
        first_param(split_on(query@, '&'), key@) matches Some(v) ==> percent_decode_safe(
            encode_utf8(v),
        ),
    ensures
        match r {
            Some(s) => spec_query_param(query@, key@) == Some(s@),
            None => spec_query_param(query@, key@) is None,
        },
{
    let v = chars_of(query);
    let parts = split_chars(&v, '&');
    let want = chars_of(key);
    let ghost all = split_on(query@, '&');
    assert(all.skip(0) =~= all);
    for i in 0..parts.len()
        invariant
            parts@.len() == all.len(),
            all == split_on(query@, '&'),
            forall|k: int| 0 <= k < parts@.len() ==> (#[trigger] parts@[k])@ == all[k],
            want@ == key@,
            first_param(all, key@) == first_param(all.skip(i as int), key@),
            first_param(all, key@) matches Some(v) ==> percent_decode_safe(encode_utf8(v)),
    {
        proof {
            let rest = all.skip(i as int);
            assert(rest[0] == all[i as int]);
            assert(rest.drop_first() =~= all.skip(i + 1));
        }
        if let Some((name, value)) = split_once_chars(&parts[i], '=') {
            if crate::text::chars_equal(&name, &want) {
                let s = string_from_chars(&value);
                assert(first_param(all, key@) == Some(value@));
                return Some(percent_decode(s.as_str()));
            }
        }
    }
    assert(all.skip(all.len() as int) =~= Seq::<Seq<char>>::empty());
    None
}

/// The value of a hexadecimal digit, or -1.
pub open spec fn hex_value(b: u8) -> int {
    if 0x30 <= b <= 0x39 {
        b - 0x30
    } else if 0x61 <= b <= 0x66 {
        b - 0x61 + 10
    } else if 0x41 <= b <= 0x46 {
        b - 0x41 + 10
    } else {
        -1
    }
}

/// What `u8::from_str_radix(.., 16)` gives for two bytes: two hexadecimal digits, or a `+`
/// sign followed by one.
pub open spec fn hex_pair(b1: u8, b2: u8) -> Option<u8> {
    if hex_value(b2) < 0 {
        None
    } else if b1 == 0x2b {
        Some(hex_value(b2) as u8)
    } else if hex_value(b1) >= 0 {
        Some((hex_value(b1) * 16 + hex_value(b2)) as u8)
    } else {
        None
    }
}

/// Percent-decoding of bytes: `%` and two hexadecimal digits give one byte, `+` gives a space,
/// every other byte stays.
pub open spec fn spec_percent_decode(raw: Seq<u8>) -> Seq<u8>
    decreases raw.len(),
{
    if raw.len() == 0 {
        seq![]
    } else if raw[0] == 0x25 && raw.len() > 2 && hex_pair(raw[1], raw[2]) is Some {
        seq![hex_pair(raw[1], raw[2])->0] + spec_percent_decode(raw.skip(3))
    } else {
        seq![
            if raw[0] == 0x2b {
                0x20u8
            } else {
                raw[0]
            },
        ] + spec_percent_decode(raw.skip(1))
    }
}

/// What `String::from_utf8_lossy` gives back for the bytes.
pub uninterp spec fn utf8_lossy(bytes: Seq<u8>) -> Seq<char>;

/// `String::from_utf8_lossy`, owned: invalid sequences become U+FFFD; valid UTF-8 is decoded
/// as it is.
#[verifier::external_body]
pub(crate) fn string_from_utf8_lossy(bytes: &Vec<u8>) -> (r: String)
    ensures
        r@ == utf8_lossy(bytes@),
        valid_utf8(bytes@) ==> r@ == decode_utf8(bytes@),
{
    String::from_utf8_lossy(bytes).to_string()
}

/// The decoded text of a percent-encoded string.
pub open spec fn spec_percent_decode_str(value: Seq<char>) -> Seq<char> {
    utf8_lossy(spec_percent_decode(encode_utf8(value)))
}

/// Whether decoding the bytes takes no slice of the text that splits a character: the byte
/// three places after each `%` starts a character.
pub open spec fn percent_decode_safe(raw: Seq<u8>) -> bool {
    forall|i: int| 0 <= i && i + 3 < raw.len() && raw[i] == 0x25 ==> !is_continuation_byte(#[trigger] raw[i + 3])
}

fn hex_digit_value(b: u8) -> (r: i16)
    ensures
        r == hex_value(b),
{
    if 0x30 <= b && b <= 0x39 {
        (b - 0x30) as i16
    } else if 0x61 <= b && b <= 0x66 {
        (b - 0x61 + 10) as i16
    } else if 0x41 <= b && b <= 0x46 {
        (b - 0x41 + 10) as i16
    } else {
        -1
    }
}

fn parse_hex_pair(b1: u8, b2: u8) -> (r: Option<u8>)
    ensures
        r == hex_pair(b1, b2),
{
    let h2 = hex_digit_value(b2);
    if h2 < 0 {
        return None;
    }
    if b1 == 0x2b {
        return Some(h2 as u8);
    }
    let h1 = hex_digit_value(b1);
    if h1 >= 0 {
        Some((h1 * 16 + h2) as u8)
    } else {
        None
    }
}

/// Percent-decoding of the bytes of a slice.
pub fn percent_decode_bytes(raw: &[u8]) -> (r: Vec<u8>)
    ensures
        r@ == spec_percent_decode(raw@),
{
    let mut out: Vec<u8> = Vec::new();
    let mut index: usize = 0;
    assert(raw@.skip(0) =~= raw@);
    while index < raw.len()
        invariant
            index <= raw@.len(),
            out@ + spec_percent_decode(raw@.skip(index as int)) == spec_percent_decode(raw@),
        decreases raw.len() - index,
    {
        let ghost rest = raw@.skip(index as int);
        if raw[index] == 0x25 && raw.len() - index > 2 {
            if let Some(hex) = parse_hex_pair(raw[index + 1], raw[index + 2]) {
                proof {
                    assert(rest[0] == raw@[index as int]);
                    assert(rest[1] == raw@[index + 1]);
                    assert(rest[2] == raw@[index + 2]);
                    assert(rest.skip(3) =~= raw@.skip(index + 3));
                }
                out.push(hex);
                index += 3;
                proof {
                    assert(out@ + spec_percent_decode(raw@.skip(index as int)) =~= out@.drop_last()
                        + (seq![hex] + spec_percent_decode(raw@.skip(index as int))));
                }
                continue;
            }
        }
        proof {
            assert(rest[0] == raw@[index as int]);
            if rest.len() > 2 {
                assert(rest[1] == raw@[index + 1]);
                assert(rest[2] == raw@[index + 2]);
            }
            assert(rest.skip(1) =~= raw@.skip(index + 1));
        }
        let b = if raw[index] == 0x2b {
            0x20u8
        } else {
            raw[index]
        };
        out.push(b);
        index += 1;
        proof {
            assert(out@ + spec_percent_decode(raw@.skip(index as int)) =~= out@.drop_last() + (
            seq![b] + spec_percent_decode(raw@.skip(index as int))));
        }
    }
    assert(raw@.skip(index as int) =~= Seq::<u8>::empty());
    assert(out@ + spec_percent_decode(raw@.skip(index as int)) =~= out@);
    out
}

/// Decodes a percent-encoded value; invalid UTF-8 in the result becomes U+FFFD.
pub fn percent_decode(value: &str) -> (r: String)
    requires
        percent_decode_safe(encode_utf8(value@)),
    ensures
        r@ == spec_percent_decode_str(value@),
        valid_utf8(spec_percent_decode(encode_utf8(value@))) ==> r@ == decode_utf8(
            spec_percent_decode(encode_utf8(value@)),
        ),
{
    let raw = value.as_bytes();
    let bytes = percent_decode_bytes(raw);
    string_from_utf8_lossy(&bytes)
}

/// Bytes that stand for themselves in a URL component.
pub open spec fn is_unreserved(b: u8) -> bool {
    (0x41 <= b <= 0x5a) || (0x61 <= b <= 0x7a) || (0x30 <= b <= 0x39) || b == 0x2d || b == 0x2e
        || b == 0x5f || b == 0x7e
}

/// The upper-case hexadecimal digit of a value below 16.
pub open spec fn hex_upper(v: u8) -> char {
    if v < 10 {
        (v + 0x30) as char
    } else {
        (v - 10 + 0x41) as char
    }
}

/// The encoding of one byte: itself when unreserved, else `%` and two upper-case hex digits.
pub open spec fn escape_url_byte(b: u8) -> Seq<char> {
    if is_unreserved(b) {
        seq![b as char]
    } else {
        seq!['%', hex_upper(b / 16), hex_upper(b % 16)]
    }
}

pub open spec fn spec_escape_url_bytes(bytes: Seq<u8>) -> Seq<char>
    decreases bytes.len(),
{
    if bytes.len() == 0 {
        seq![]
    } else {
        spec_escape_url_bytes(bytes.drop_last()) + escape_url_byte(bytes.last())
    }
}

/// Percent-encoding of the UTF-8 bytes of a text.
pub open spec fn spec_escape_url_component(value: Seq<char>) -> Seq<char> {
    spec_escape_url_bytes(encode_utf8(value))
}

fn hex_upper_char(v: u8) -> (c: char)
    requires
        v < 16,
    ensures
        c == hex_upper(v),
{
    if v < 10 {
        crate::text::char_from_ascii((v + 0x30) as u32)
    } else {
        crate::text::char_from_ascii((v - 10 + 0x41) as u32)
    }
}

/// Percent-encodes a value for use in a URL.
pub fn escape_url_component(value: &str) -> (r: String)
    ensures
        r@ == spec_escape_url_component(value@),
{
    let raw = value.as_bytes();
    let mut out: Vec<char> = Vec::new();
    for i in 0..raw.len()
        invariant
            raw@ == encode_utf8(value@),
            out@ == spec_escape_url_bytes(raw@.take(i as int)),
    {
        let b = raw[i];
        proof {
            assert(raw@.take(i + 1).drop_last() =~= raw@.take(i as int));
            assert(raw@.take(i + 1).last() == b);
        }
        if (0x41 <= b && b <= 0x5a) || (0x61 <= b && b <= 0x7a) || (0x30 <= b && b <= 0x39) || b
            == 0x2d || b == 0x2e || b == 0x5f || b == 0x7e {
            out.push(crate::text::char_from_ascii(b as u32));
        } else {
            out.push('%');
            out.push(hex_upper_char(b / 16));
            out.push(hex_upper_char(b % 16));
        }
        assert(out@ =~= spec_escape_url_bytes(raw@.take(i as int)) + escape_url_byte(b));
    }
    assert(raw@.take(raw@.len() as int) =~= raw@);
    string_from_chars(&out)
}

/// The bytes of a text made of ASCII characters.
pub open spec fn ascii_bytes(cs: Seq<char>) -> Seq<u8> {
    cs.map_values(|c: char| c as u8)
}

proof fn lemma_hex_upper_value(v: u8)
    requires
        v < 16,
    ensures
        hex_value(hex_upper(v) as u8) == v,
        hex_upper(v) <= '\u{7f}',
        hex_upper(v) as u8 != 0x2b,
{
}

proof fn lemma_escape_byte_ascii(b: u8)
    ensures
        crate::url::is_ascii_seq(escape_url_byte(b)),
{
    if !is_unreserved(b) {
        lemma_hex_upper_value(b / 16);
        lemma_hex_upper_value(b % 16);
    }
}

/// Every character is ASCII.
pub open spec fn is_ascii_seq(cs: Seq<char>) -> bool {
    vstd::utf8::is_ascii_chars(cs)
}

proof fn lemma_escape_ascii(bytes: Seq<u8>)
    ensures
        is_ascii_seq(spec_escape_url_bytes(bytes)),
    decreases bytes.len(),
{
    if bytes.len() > 0 {
        lemma_escape_ascii(bytes.drop_last());
        lemma_escape_byte_ascii(bytes.last());
        let a = spec_escape_url_bytes(bytes.drop_last());
        let b = escape_url_byte(bytes.last());
        assert forall|i: int| 0 <= i < (a + b).len() implies '\0' <= #[trigger] (a + b)[i] <= '\u{7f}' by {
            if i < a.len() {
                assert((a + b)[i] == a[i]);
            } else {
                assert((a + b)[i] == b[i - a.len()]);
            }
        }
    }
}

proof fn lemma_escape_front(bytes: Seq<u8>)
    requires
        bytes.len() > 0,
    ensures
        spec_escape_url_bytes(bytes) == escape_url_byte(bytes[0]) + spec_escape_url_bytes(
            bytes.drop_first(),
        ),
    decreases bytes.len(),
{
    if bytes.len() == 1 {
        assert(bytes.drop_last() =~= Seq::<u8>::empty());
        assert(bytes.drop_first() =~= Seq::<u8>::empty());
        assert(escape_url_byte(bytes[0]) + Seq::<char>::empty() =~= escape_url_byte(bytes[0]));
        assert(Seq::<char>::empty() + escape_url_byte(bytes[0]) =~= escape_url_byte(bytes[0]));
    } else {
        lemma_escape_front(bytes.drop_last());
        assert(bytes.drop_last().drop_first() =~= bytes.drop_first().drop_last());
        assert(bytes.drop_first().last() == bytes.last());
        assert(bytes.drop_last()[0] == bytes[0]);
    }
}

proof fn lemma_decode_escaped_byte(b: u8, rest: Seq<u8>)
    ensures
        spec_percent_decode(ascii_bytes(escape_url_byte(b)) + rest) == seq![b]
            + spec_percent_decode(rest),
{
    let unit = ascii_bytes(escape_url_byte(b));
    let all = unit + rest;
    if is_unreserved(b) {
        assert(unit =~= seq![b]);
        assert(all[0] == b);
        assert(all.skip(1) =~= rest);
    } else {
        lemma_hex_upper_value(b / 16);
        lemma_hex_upper_value(b % 16);
        assert(unit.len() == 3);
        assert(all[0] == 0x25);
        assert(all[1] == hex_upper(b / 16) as u8);
        assert(all[2] == hex_upper(b % 16) as u8);
        assert(hex_pair(all[1], all[2]) == Some(b));
        assert(all.skip(3) =~= rest);
    }
}

proof fn lemma_decode_escaped(bytes: Seq<u8>)
    ensures
        spec_percent_decode(ascii_bytes(spec_escape_url_bytes(bytes))) == bytes,
    decreases bytes.len(),
{
    if bytes.len() == 0 {
        assert(ascii_bytes(spec_escape_url_bytes(bytes)) =~= Seq::<u8>::empty());
    } else {
        lemma_escape_front(bytes);
        lemma_decode_escaped(bytes.drop_first());
        let e = spec_escape_url_bytes(bytes);
        let u = escape_url_byte(bytes[0]);
        let r = spec_escape_url_bytes(bytes.drop_first());
        assert(ascii_bytes(e) =~= ascii_bytes(u) + ascii_bytes(r));
        lemma_decode_escaped_byte(bytes[0], ascii_bytes(r));
        assert(seq![bytes[0]] + bytes.drop_first() =~= bytes);
    }
}

proof fn lemma_ascii_encode(cs: Seq<char>)
    requires
        is_ascii_seq(cs),
    ensures
        encode_utf8(cs) == ascii_bytes(cs),
{
    vstd::utf8::is_ascii_chars_encode_utf8(cs);
    assert(encode_utf8(cs) =~= ascii_bytes(cs));
}

/// Percent-decoding undoes URL escaping: the escaped form of a text is ASCII, decoding it takes
/// no slice inside a character, and it gives back the UTF-8 bytes of the text.
pub proof fn law_percent_decode_inverts_escape(value: Seq<char>)
    ensures
        is_ascii_seq(spec_escape_url_component(value)),
        percent_decode_safe(encode_utf8(spec_escape_url_component(value))),
        spec_percent_decode(encode_utf8(spec_escape_url_component(value))) == encode_utf8(value),
{
    let e = spec_escape_url_component(value);
    lemma_escape_ascii(encode_utf8(value));
    lemma_ascii_encode(e);
    lemma_decode_escaped(encode_utf8(value));
    assert forall|i: int|
        0 <= i && i + 3 < encode_utf8(e).len() && encode_utf8(e)[i] == 0x25 implies !is_continuation_byte(
        #[trigger] encode_utf8(e)[i + 3]) by {
        assert(encode_utf8(e)[i + 3] == e[i + 3] as u8);
        assert('\0' <= e[i + 3] <= '\u{7f}');
    }
}

/// Whether decoding the bytes takes no slice inside a character.
pub fn is_percent_decode_safe(raw: &[u8]) -> (r: bool)
    ensures
        r == percent_decode_safe(raw@),
{
    let n = raw.len();
    for i in 0..n
        invariant
            n == raw@.len(),
            forall|j: int| 0 <= j < i && j + 3 < n && raw@[j] == 0x25 ==> !is_continuation_byte(#[trigger] raw@[j + 3]),
    {
        if raw[i] == 0x25 && n - i > 3 {
            let b = raw[i + 3];
            if 0x80 <= b && b <= 0xbf {
                return false;
            }
        }
    }
    true
}

/// Whether the value of the first query parameter named `key`, if there is one, can be
/// decoded without slicing inside a character.
pub fn query_param_decodable(query: &str, key: &str) -> (r: bool)
    ensures
        r == (first_param(split_on(query@, '&'), key@) matches Some(v) ==> percent_decode_safe(encode_utf8(v))),
{
    let v = chars_of(query);
    let parts = split_chars(&v, '&');
    let want = chars_of(key);
    let ghost all = split_on(query@, '&');
    assert(all.skip(0) =~= all);
    for i in 0..parts.len()
        invariant
            parts@.len() == all.len(),
            all == split_on(query@, '&'),
            forall|k: int| 0 <= k < parts@.len() ==> (#[trigger] parts@[k])@ == all[k],
            want@ == key@,
            first_param(all, key@) == first_param(all.skip(i as int), key@),
    {
        proof {
            let rest = all.skip(i as int);
            assert(rest[0] == all[i as int]);
            assert(rest.drop_first() =~= all.skip(i + 1));
        }
        if let Some((name, value)) = split_once_chars(&parts[i], '=') {
            if crate::text::chars_equal(&name, &want) {
                assert(first_param(all, key@) == Some(value@));
                let s = string_from_chars(&value);
                return is_percent_decode_safe(s.as_str().as_bytes());
            }
        }
    }
    assert(all.skip(all.len() as int) =~= Seq::<Seq<char>>::empty());
    true
}

} // verus!
