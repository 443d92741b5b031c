use vstd::prelude::*;
use vstd::utf8::encode_utf8;
use sha2::Digest;

use crate::text::{chars_of, push_chars, push_str, string_from_chars};

verus! {

/// The SHA-256 digest of the bytes.
pub uninterp spec fn sha256(data: Seq<u8>) -> Seq<u8>;

/// `sha2::Sha256::digest`: the 32 bytes of the SHA-256 digest.
#[verifier::external_body]
fn sha256_digest(data: &[u8]) -> (r: Vec<u8>)
    ensures
        r@ == sha256(data@),
        r@.len() == 32,
{
    sha2::Sha256::digest(data).to_vec()
}

/// The lower-case hexadecimal digit of a value below 16.
pub open spec fn hex_lower(v: u8) -> char {
    if v < 10 {
        (v + 0x30) as char
    } else {
        (v - 10 + 0x61) as char
    }
}

/// Two lower-case hexadecimal digits per byte.
pub open spec fn hex_lower_bytes(b: Seq<u8>) -> Seq<char>
    decreases b.len(),
{
    if b.len() == 0 {
        seq![]
    } else {
        hex_lower_bytes(b.drop_last()) + seq![hex_lower(b.last() / 16), hex_lower(b.last() % 16)]
    }
}

fn hex_lower_char(v: u8) -> (c: char)
    requires
        v < 16,
    ensures
        c == hex_lower(v),
{
    if v < 10 {
        crate::text::char_from_ascii((v + 0x30) as u32)
    } else {
        crate::text::char_from_ascii((v - 10 + 0x61) as u32)
    }
}

/// Lower-case hexadecimal text of the bytes.
pub fn hex_lower_string(b: &Vec<u8>) -> (r: Vec<char>)
    ensures
        r@ == hex_lower_bytes(b@),
{
    let mut out: Vec<char> = Vec::new();
    for i in 0..b.len()
        invariant
            out@ == hex_lower_bytes(b@.take(i as int)),
    {
        proof {
            assert(b@.take(i + 1).drop_last() =~= b@.take(i as int));
            assert(b@.take(i + 1).last() == b@[i as int]);
        }
        out.push(hex_lower_char(b[i] / 16));
        out.push(hex_lower_char(b[i] % 16));
        assert(out@ =~= hex_lower_bytes(b@.take(i as int)) + seq![
            hex_lower(b@[i as int] / 16),
            hex_lower(b@[i as int] % 16),
        ]);
    }
    assert(b@.take(b.len() as int) =~= b@);
    out
}

/// The SHA-256 digest of the bytes in lower-case hexadecimal.
pub open spec fn spec_sha256_hex(data: Seq<u8>) -> Seq<char> {
    hex_lower_bytes(sha256(data))
}

/// The SHA-256 digest of the bytes, as 64 lower-case hexadecimal digits.
pub fn sha256_hex(bytes: &[u8]) -> (r: String)
    ensures
        r@ == spec_sha256_hex(bytes@),
{
    let d = sha256_digest(bytes);
    let h = hex_lower_string(&d);
    string_from_chars(&h)
}

/// The text that identifies textual content: the plain text, else the HTML, else the RTF,
/// the first that is not empty; else nothing.
pub open spec fn text_fingerprint(text: Seq<char>, html: Option<Seq<char>>, rtf: Option<Seq<char>>) -> Seq<char> {
    if text.len() > 0 {
        text
    } else if html matches Some(h) && h.len() > 0 {
        html->0
    } else if rtf matches Some(r) && r.len() > 0 {
        rtf->0
    } else {
        seq![]
    }
}

fn fingerprint(text: &str, html_text: Option<&str>, rtf_text: Option<&str>) -> (r: Vec<char>)
    ensures
        r@ == text_fingerprint(
            text@,
            match html_text {
                Some(s) => Some(s@),
                None => None,
            },
            match rtf_text {
                Some(s) => Some(s@),
                None => None,
            },
        ),
{
    let t = chars_of(text);
    if t.len() > 0 {
        return t;
    }
    if let Some(h) = html_text {
        let hv = chars_of(h);
        if hv.len() > 0 {
            return hv;
        }
    }
    if let Some(r) = rtf_text {
        let rv = chars_of(r);
        if rv.len() > 0 {
            return rv;
        }
    }
    Vec::new()
}

/// The hash of textual content: SHA-256 of the UTF-8 bytes of its fingerprint.
pub open spec fn spec_text_hash(text: Seq<char>, html: Option<Seq<char>>, rtf: Option<Seq<char>>) -> Seq<char> {
    spec_sha256_hex(encode_utf8(text_fingerprint(text, html, rtf)))
}

/// The hash of a text capture.
pub fn text_hash(text: &str, html_text: Option<&str>, rtf_text: Option<&str>) -> (r: String)
    ensures
        r@ == spec_text_hash(
            text@,
            match html_text {
                Some(s) => Some(s@),
                None => None,
            },
            match rtf_text {
                Some(s) => Some(s@),
                None => None,
            },
        ),
{
    let f = fingerprint(text, html_text, rtf_text);
    let s = string_from_chars(&f);
    sha256_hex(s.as_str().as_bytes())
}

/// The eight little-endian bytes of a 64-bit number.
pub open spec fn le_bytes(n: u64) -> Seq<u8> {
    seq![
        (n % 0x100) as u8,
        ((n / 0x100) % 0x100) as u8,
        ((n / 0x10000) % 0x100) as u8,
        ((n / 0x1000000) % 0x100) as u8,
        ((n / 0x100000000) % 0x100) as u8,
        ((n / 0x10000000000) % 0x100) as u8,
        ((n / 0x1000000000000) % 0x100) as u8,
        ((n / 0x100000000000000) % 0x100) as u8,
    ]
}

fn push_le_bytes(out: &mut Vec<u8>, n: u64)
    ensures
        final(out)@ == old(out)@ + le_bytes(n),
{
    out.push((n % 0x100) as u8);
    out.push(((n / 0x100) % 0x100) as u8);
    out.push(((n / 0x10000) % 0x100) as u8);
    out.push(((n / 0x1000000) % 0x100) as u8);
    out.push(((n / 0x100000000) % 0x100) as u8);
    out.push(((n / 0x10000000000) % 0x100) as u8);
    out.push(((n / 0x1000000000000) % 0x100) as u8);
    out.push(((n / 0x100000000000000) % 0x100) as u8);
    assert(final(out)@ =~= old(out)@ + le_bytes(n));
}

/// The hash of a PNG image: SHA-256 of its length as eight little-endian bytes followed by
/// its bytes.
pub open spec fn spec_image_hash(png: Seq<u8>) -> Seq<char> {
    spec_sha256_hex(le_bytes(png.len() as u64) + png)
}

/// The hash of an image capture.
pub fn image_hash_from_png_bytes(png_bytes: &[u8]) -> (r: String)
    ensures
        r@ == spec_image_hash(png_bytes@),
{
    let mut buf: Vec<u8> = Vec::new();
    push_le_bytes(&mut buf, png_bytes.len() as u64);
    for i in 0..png_bytes.len()
        invariant
            buf@ == le_bytes(png_bytes@.len() as u64) + png_bytes@.take(i as int),
    {
        buf.push(png_bytes[i]);
        assert(png_bytes@.take(i + 1) =~= png_bytes@.take(i as int).push(png_bytes@[i as int]));
    }
    assert(png_bytes@.take(png_bytes@.len() as int) =~= png_bytes@);
    sha256_hex(buf.as_slice())
}

/// The hash of mixed content: SHA-256 of its text fingerprint, a line break, and the hash of
/// its image.
pub open spec fn spec_mixed_hash(
    text: Seq<char>,
    html: Option<Seq<char>>,
    rtf: Option<Seq<char>>,
    png: Seq<u8>,
) -> Seq<char> {
    spec_sha256_hex(encode_utf8(text_fingerprint(text, html, rtf) + "\n"@ + spec_image_hash(png)))
}

/// The hash of a capture with text and an image.
pub fn mixed_hash(text: &str, html_text: Option<&str>, rtf_text: Option<&str>, png_bytes: &[u8]) -> (r:
    String)
    ensures
        r@ == spec_mixed_hash(
            text@,
            match html_text {
                Some(s) => Some(s@),
                None => None,
            },
            match rtf_text {
                Some(s) => Some(s@),
                None => None,
            },
            png_bytes@,
        ),
{
    let image_hash = image_hash_from_png_bytes(png_bytes);
    let mut f = fingerprint(text, html_text, rtf_text);
    push_str(&mut f, "\n");
    push_str(&mut f, image_hash.as_str());
    let s = string_from_chars(&f);
    sha256_hex(s.as_str().as_bytes())
}

} // verus!
