use vstd::prelude::*;

use crate::models::opt_str;
use crate::text::{chars_of, string_from_chars, trim, trim_chars};

verus! {

/// The UTF-16 code units of one character: itself below U+10000, else a surrogate pair.
pub open spec fn utf16_units(c: char) -> Seq<u16> {
    let v = c as u32;
    if v < 0x10000 {
        seq![v as u16]
    } else {
        seq![(0xD800 + (v - 0x10000) / 0x400) as u16, (0xDC00 + (v - 0x10000) % 0x400) as u16]
    }
}

/// The UTF-16 encoding of a text.
pub open spec fn encode_utf16(s: Seq<char>) -> Seq<u16>
    decreases s.len(),
{
    if s.len() == 0 {
        Seq::empty()
    } else {
        encode_utf16(s.drop_last()) + utf16_units(s.last())
    }
}

/// Code units as bytes, each low byte first.
pub open spec fn units_le_bytes(units: Seq<u16>) -> Seq<u8>
    decreases units.len(),
{
    if units.len() == 0 {
        Seq::empty()
    } else {
        units_le_bytes(units.drop_last()) + seq![
            (units.last() % 0x100) as u8,
            (units.last() / 0x100) as u8,
        ]
    }
}

/// The bytes of the wide-text clipboard format: the UTF-16 units of the text, low byte first,
/// and a terminating zero unit.
pub open spec fn spec_unicode_text_bytes(text: Seq<char>) -> Seq<u8> {
    units_le_bytes(encode_utf16(text).push(0u16))
}

fn push_units(out: &mut Vec<u16>, c: char)
    ensures
        final(out)@ == old(out)@ + utf16_units(c),
{
    let v = c as u32;
    if v < 0x10000 {
        out.push(v as u16);
    } else {
        assert(v <= 0x10FFFF);
        out.push((0xD800 + (v - 0x10000) / 0x400) as u16);
        out.push((0xDC00 + (v - 0x10000) % 0x400) as u16);
    }
    assert(final(out)@ =~= old(out)@ + utf16_units(c));
}

/// The UTF-16 code units of a text.
pub fn encode_utf16_units(text: &str) -> (r: Vec<u16>)
    ensures
        r@ == encode_utf16(text@),
{
    let v = chars_of(text);
    let mut out: Vec<u16> = Vec::new();
    for i in 0..v.len()
        invariant
            v@ == text@,
            out@ == encode_utf16(v@.take(i as int)),
    {
        assert(v@.take(i + 1).drop_last() =~= v@.take(i as int));
        push_units(&mut out, v[i]);
    }
    assert(v@.take(v.len() as int) =~= v@);
    out
}

/// The bytes that the wide-text clipboard format holds for a text.
pub fn set_clipboard_unicode_text(text: &str) -> (r: Vec<u8>)
    ensures
        r@ == spec_unicode_text_bytes(text@),
{
    let mut units = encode_utf16_units(text);
    units.push(0u16);
    let mut out: Vec<u8> = Vec::new();
    for i in 0..units.len()
        invariant
            units@ == encode_utf16(text@).push(0u16),
            out@ == units_le_bytes(units@.take(i as int)),
    {
        assert(units@.take(i + 1).drop_last() =~= units@.take(i as int));
        let u = units[i];
        out.push((u % 0x100) as u8);
        out.push((u / 0x100) as u8);
        assert(out@ =~= units_le_bytes(units@.take(i + 1)));
    }
    assert(units@.take(units.len() as int) =~= units@);
    out
}

/// The code units that little-endian byte pairs give; an odd last byte is dropped.
pub open spec fn units_of_bytes(bytes: Seq<u8>) -> Seq<u16> {
    Seq::new(bytes.len() / 2, |i: int| (bytes[2 * i] + 0x100 * bytes[2 * i + 1]) as u16)
}

/// The units before the first zero unit.
pub open spec fn until_zero(units: Seq<u16>) -> Seq<u16>
    decreases units.len(),
{
    if units.len() == 0 {
        Seq::empty()
    } else if units[0] == 0 {
        Seq::empty()
    } else {
        seq![units[0]] + until_zero(units.drop_first())
    }
}

/// The character of a Unicode scalar value.
pub open spec fn scalar_char(v: u32) -> char {
    v as char
}

/// UTF-16 decoding: a unit outside the surrogate range is a character, a high surrogate
/// followed by a low one is the character above U+FFFF that they encode, any other surrogate
/// makes the text invalid.
pub open spec fn decode_utf16(u: Seq<u16>) -> Option<Seq<char>>
    decreases u.len(),
{
    if u.len() == 0 {
        Some(Seq::empty())
    } else if u[0] < 0xD800 || u[0] >= 0xE000 {
        match decode_utf16(u.drop_first()) {
            Some(rest) => Some(seq![scalar_char(u[0] as u32)] + rest),
            None => None,
        }
    } else if u[0] < 0xDC00 && u.len() >= 2 && 0xDC00 <= u[1] < 0xE000 {
        match decode_utf16(u.skip(2)) {
            Some(rest) => Some(
                seq![scalar_char((0x10000 + (u[0] - 0xD800) * 0x400 + (u[1] - 0xDC00)) as u32)]
                    + rest,
            ),
            None => None,
        }
    } else {
        None
    }
}

/// `char::from_u32`: the character of a Unicode scalar value, nothing for a surrogate or a
/// value above U+10FFFF.
#[verifier::external_body]
fn char_from_scalar(v: u32) -> (r: Option<char>)
    ensures
        r is Some <==> (v < 0xD800 || (0xE000 <= v && v <= 0x10FFFF)),
        r matches Some(c) ==> c == scalar_char(v),
{
    char::from_u32(v)
}

/// Decodes UTF-16 units as `String::from_utf16` does.
pub fn string_from_utf16(units: &Vec<u16>) -> (r: Option<String>)
    ensures
        opt_str(r) == decode_utf16(units@),
{
    let mut out: Vec<char> = Vec::new();
    let mut i: usize = 0;
    let n = units.len();
    assert(units@.skip(0) =~= units@);
    while i < n
        invariant
            n == units.len(),
            i <= n,
            decode_utf16(units@) == match decode_utf16(units@.skip(i as int)) {
                Some(rest) => Some(out@ + rest),
                None => None::<Seq<char>>,
            },
        decreases n - i,
    {
        let ghost rest = units@.skip(i as int);
        let u = units[i];
        assert(rest[0] == u);
        if u < 0xD800 || u >= 0xE000 {
            assert(rest.drop_first() =~= units@.skip(i + 1));
            match char_from_scalar(u as u32) {
                Some(c) => {
                    proof {
                        match decode_utf16(rest.drop_first()) {
                            Some(r2) => assert(out@.push(c) + r2 =~= out@ + (seq![c] + r2)),
                            None => {},
                        }
                    }
                    out.push(c);
                },
                None => {
                    return None;
                },
            }
            i += 1;
        } else if u < 0xDC00 && i + 1 < n && 0xDC00 <= units[i + 1] && units[i + 1] < 0xE000 {
            let lo = units[i + 1];
            assert(rest[1] == lo);
            assert(rest.skip(2) =~= units@.skip(i + 2));
            let v: u32 = 0x10000 + (u as u32 - 0xD800) * 0x400 + (lo as u32 - 0xDC00);
            match char_from_scalar(v) {
                Some(c) => {
                    proof {
                        match decode_utf16(rest.skip(2)) {
                            Some(r2) => assert(out@.push(c) + r2 =~= out@ + (seq![c] + r2)),
                            None => {},
                        }
                    }
                    out.push(c);
                },
                None => {
                    return None;
                },
            }
            i += 2;
        } else {
            return None;
        }
    }
    assert(units@.skip(n as int) =~= Seq::<u16>::empty());
    assert(out@ + Seq::<char>::empty() =~= out@);
    Some(string_from_chars(&out))
}

/// The code units that the wide-text clipboard bytes hold before their terminating zero.
pub fn wide_units(bytes: &Vec<u8>) -> (r: Vec<u16>)
    ensures
        r@ == until_zero(units_of_bytes(bytes@)),
{
    let ghost all = units_of_bytes(bytes@);
    let mut out: Vec<u16> = Vec::new();
    let mut i: usize = 0;
    let n = bytes.len() / 2;
    assert(all.skip(0) =~= all);
    while i < n
        invariant
            n == bytes.len() / 2,
            all == units_of_bytes(bytes@),
            i <= n,
            until_zero(all) == out@ + until_zero(all.skip(i as int)),
        decreases n - i,
    {
        let u: u16 = (bytes[2 * i] as u16) + 0x100 * (bytes[2 * i + 1] as u16);
        assert(all[i as int] == u);
        assert(all.skip(i as int)[0] == u);
        if u == 0 {
            assert(out@ + Seq::<u16>::empty() =~= out@);
            return out;
        }
        assert(all.skip(i as int).drop_first() =~= all.skip(i + 1));
        assert(out@.push(u) + until_zero(all.skip(i + 1)) =~= out@ + (seq![u] + until_zero(
            all.skip(i + 1),
        )));
        out.push(u);
        i += 1;
    }
    assert(all.skip(n as int) =~= Seq::<u16>::empty());
    assert(out@ + Seq::<u16>::empty() =~= out@);
    out
}

/// The text that the wide-text clipboard format holds: its units up to the first zero,
/// decoded, without surrounding whitespace; nothing when it does not decode or is empty.
pub open spec fn spec_read_unicode_text(bytes: Seq<u8>) -> Option<Seq<char>> {
    match decode_utf16(until_zero(units_of_bytes(bytes))) {
        Some(t) => if trim(t).len() > 0 {
            Some(trim(t))
        } else {
            None
        },
        None => None,
    }
}

/// Reads the wide-text clipboard format from its raw bytes.
pub fn read_unicode_text(bytes: &Vec<u8>) -> (r: Option<String>)
    ensures
        opt_str(r) == spec_read_unicode_text(bytes@),
{
    let units = wide_units(bytes);
    match string_from_utf16(&units) {
        Some(s) => {
            let v = chars_of(s.as_str());
            let t = trim_chars(&v);
            if t.len() > 0 {
                Some(string_from_chars(&t))
            } else {
                None
            }
        },
        None => None,
    }
}


proof fn lemma_encode_utf16_append(a: Seq<char>, b: Seq<char>)
    ensures
        encode_utf16(a + b) == encode_utf16(a) + encode_utf16(b),
    decreases b.len(),
{
    if b.len() == 0 {
        assert(a + b =~= a);
        assert(encode_utf16(a) + encode_utf16(b) =~= encode_utf16(a));
    } else {
        lemma_encode_utf16_append(a, b.drop_last());
        assert((a + b).drop_last() =~= a + b.drop_last());
        assert((a + b).last() == b.last());
        assert(encode_utf16(a) + encode_utf16(b) =~= encode_utf16(a) + encode_utf16(b.drop_last())
            + utf16_units(b.last()));
    }
}

/// The units of a text start with those of its first character.
proof fn lemma_encode_utf16_first(t: Seq<char>)
    requires
        t.len() > 0,
    ensures
        encode_utf16(t) == utf16_units(t[0]) + encode_utf16(t.drop_first()),
{
    lemma_encode_utf16_append(seq![t[0]], t.drop_first());
    assert(seq![t[0]] + t.drop_first() =~= t);
    let one = seq![t[0]];
    assert(one.drop_last() =~= Seq::<char>::empty());
    assert(one.last() == t[0]);
    assert(encode_utf16(one.drop_last()) =~= Seq::<u16>::empty());
    assert(encode_utf16(one) =~= utf16_units(t[0]));
}

/// Decoding the units of a character followed by more units gives the character followed by
/// the decoding of the rest.
proof fn lemma_decode_units(c: char, rest: Seq<u16>)
    ensures
        decode_utf16(utf16_units(c) + rest) == match decode_utf16(rest) {
            Some(r) => Some(seq![c] + r),
            None => None::<Seq<char>>,
        },
{
    let v = c as u32;
    let u = utf16_units(c) + rest;
    if v < 0x10000 {
        assert(v < 0xD800 || v >= 0xE000);
        assert(u[0] == v as u16);
        assert(u.drop_first() =~= rest);
        assert(scalar_char(u[0] as u32) == c);
    } else {
        let q = (v - 0x10000) / 0x400;
        let r = (v - 0x10000) % 0x400;
        assert(0 <= q < 0x400);
        assert(0 <= r < 0x400);
        assert(u[0] == (0xD800 + q) as u16);
        assert(u[1] == (0xDC00 + r) as u16);
        assert(u.skip(2) =~= rest);
        assert(0x10000 + q * 0x400 + r == v);
        assert(scalar_char((0x10000 + (u[0] - 0xD800) * 0x400 + (u[1] - 0xDC00)) as u32) == c);
    }
}

/// UTF-16 decoding gives back the encoded text.
proof fn lemma_decode_encode_utf16(t: Seq<char>)
    ensures
        decode_utf16(encode_utf16(t)) == Some(t),
    decreases t.len(),
{
    if t.len() == 0 {
    } else {
        lemma_encode_utf16_first(t);
        lemma_decode_encode_utf16(t.drop_first());
        lemma_decode_units(t[0], encode_utf16(t.drop_first()));
        assert(seq![t[0]] + t.drop_first() =~= t);
    }
}

/// A text without NUL characters encodes to units without zeros.
proof fn lemma_encode_utf16_nonzero(t: Seq<char>)
    requires
        forall|i: int| 0 <= i < t.len() ==> t[i] != '\0',
    ensures
        forall|i: int| 0 <= i < encode_utf16(t).len() ==> encode_utf16(t)[i] != 0,
    decreases t.len(),
{
    if t.len() > 0 {
        lemma_encode_utf16_nonzero(t.drop_last());
        let c = t.last();
        assert(c != '\0');
        let v = c as u32;
        vstd::utf8::char_u32_cast(c, v);
        vstd::utf8::char_u32_cast('\0', 0);
        assert(v != 0);
        let a = encode_utf16(t.drop_last());
        let b = utf16_units(c);
        assert forall|i: int| 0 <= i < encode_utf16(t).len() implies encode_utf16(t)[i] != 0 by {
            if i >= a.len() {
                assert(encode_utf16(t)[i] == b[i - a.len()]);
            } else {
                assert(encode_utf16(t)[i] == a[i]);
            }
        }
    }
}

/// Units without zeros followed by a zero read back as themselves.
proof fn lemma_until_zero_terminated(u: Seq<u16>)
    requires
        forall|i: int| 0 <= i < u.len() ==> u[i] != 0,
    ensures
        until_zero(u.push(0u16)) == u,
    decreases u.len(),
{
    if u.len() > 0 {
        lemma_until_zero_terminated(u.drop_first());
        assert(u.push(0u16).drop_first() =~= u.drop_first().push(0u16));
        assert(seq![u[0]] + u.drop_first() =~= u);
    } else {
        assert(u.push(0u16)[0] == 0);
    }
}

/// The bytes of the units, low byte first, pair up into the units again.
proof fn lemma_units_le_bytes(u: Seq<u16>)
    ensures
        units_le_bytes(u).len() == 2 * u.len(),
        forall|i: int| 0 <= i < u.len() ==> #[trigger] units_le_bytes(u)[2 * i] == (u[i] % 0x100) as u8
            && units_le_bytes(u)[2 * i + 1] == (u[i] / 0x100) as u8,
    decreases u.len(),
{
    if u.len() > 0 {
        let a = u.drop_last();
        lemma_units_le_bytes(a);
        let tail = seq![(u.last() % 0x100) as u8, (u.last() / 0x100) as u8];
        assert(units_le_bytes(u) == units_le_bytes(a) + tail);
        assert forall|i: int| 0 <= i < u.len() implies #[trigger] units_le_bytes(u)[2 * i] == (u[i] % 0x100) as u8
            && units_le_bytes(u)[2 * i + 1] == (u[i] / 0x100) as u8 by {
            if i < a.len() {
                assert(units_le_bytes(a)[2 * i] == (a[i] % 0x100) as u8);
                assert(a[i] == u[i]);
            } else {
                assert(i == a.len());
                assert(units_le_bytes(u)[2 * i] == tail[0]);
                assert(units_le_bytes(u)[2 * i + 1] == tail[1]);
            }
        }
    }
}

proof fn lemma_units_of_le_bytes(u: Seq<u16>)
    ensures
        units_of_bytes(units_le_bytes(u)) == u,
{
    lemma_units_le_bytes(u);
    let b = units_le_bytes(u);
    assert forall|i: int| 0 <= i < u.len() implies #[trigger] units_of_bytes(b)[i] == u[i] by {
        assert(b[2 * i] == (u[i] % 0x100) as u8);
        assert(b[2 * i + 1] == (u[i] / 0x100) as u8);
        assert((u[i] % 0x100) + 0x100 * (u[i] / 0x100) == u[i]);
    }
    assert(units_of_bytes(b) =~= u);
}

/// What the wide-text format gets written for a text reads back as the text without its
/// surrounding whitespace, for a text without NUL characters that is not blank.
pub proof fn law_unicode_text_round_trip(text: Seq<char>)
    requires
        forall|i: int| 0 <= i < text.len() ==> text[i] != '\0',
        trim(text).len() > 0,
    ensures
        spec_read_unicode_text(spec_unicode_text_bytes(text)) == Some(trim(text)),
{
    let units = encode_utf16(text);
    lemma_units_of_le_bytes(units.push(0u16));
    lemma_encode_utf16_nonzero(text);
    lemma_until_zero_terminated(units);
    lemma_decode_encode_utf16(text);
}

} // verus!
