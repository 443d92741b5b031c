use vstd::prelude::*;

use crate::text::{chars_of, decimal, decimal_chars, is_ascii_digit, push_chars, string_from_chars};
use crate::update::AppError;
use crate::url::{split_chars, split_on};

verus! {

/// An IPv4 address by its four octets.
#[derive(Clone, Copy, PartialEq, Eq, Structural, Debug)]
pub struct Ipv4 {
    pub a: u8,
    pub b: u8,
    pub c: u8,
    pub d: u8,
}

impl Ipv4 {
    pub fn new(a: u8, b: u8, c: u8, d: u8) -> (r: Ipv4)
        ensures
            r == (Ipv4 { a, b, c, d }),
    {
        Ipv4 { a, b, c, d }
    }
}

/// An address that another device on the local network can reach: not loopback, link-local,
/// multicast, broadcast or unspecified, not in the benchmark range 198.18.0.0/15, and not a
/// network (`.0`) or broadcast (`.255`) host number.
pub open spec fn spec_usable_lan_ipv4(ip: Ipv4) -> bool {
    &&& ip.a != 127
    &&& !(ip.a == 169 && ip.b == 254)
    &&& !(224 <= ip.a <= 239)
    &&& !(ip.a == 255 && ip.b == 255 && ip.c == 255 && ip.d == 255)
    &&& !(ip.a == 0 && ip.b == 0 && ip.c == 0 && ip.d == 0)
    &&& !(ip.a == 198 && (ip.b == 18 || ip.b == 19))
    &&& ip.d != 0
    &&& ip.d != 255
}

/// Whether the address is worth offering to the phone.
pub fn usable_lan_ipv4(ip: Ipv4) -> (r: bool)
    ensures
        r == spec_usable_lan_ipv4(ip),
{
    ip.a != 127 && !(ip.a == 169 && ip.b == 254) && !(224 <= ip.a && ip.a <= 239) && !(ip.a == 255
        && ip.b == 255 && ip.c == 255 && ip.d == 255) && !(ip.a == 0 && ip.b == 0 && ip.c == 0
        && ip.d == 0) && !(ip.a == 198 && (ip.b == 18 || ip.b == 19)) && ip.d != 0 && ip.d != 255
}

/// The preference of an address: home networks (192.168/16) first, then 10/8, 172.16/12,
/// carrier-grade NAT (100.64/10), anything else; common gateway host numbers (1, 2..9) rank
/// lower, other host numbers rank by their value up to 40.
pub open spec fn spec_lan_ipv4_score(ip: Ipv4) -> int {
    let host: int = if ip.d == 1 {
        -50
    } else if 2 <= ip.d <= 9 {
        -10
    } else if ip.d <= 40 {
        ip.d as int
    } else {
        40
    };
    if ip.a == 192 && ip.b == 168 {
        400 + host
    } else if ip.a == 10 {
        390 + host
    } else if ip.a == 172 && 16 <= ip.b <= 31 {
        380 + host
    } else if ip.a == 100 && 64 <= ip.b <= 127 {
        120 + host
    } else {
        80 + host
    }
}

/// The preference score of an address.
pub fn lan_ipv4_score(ip: Ipv4) -> (r: i32)
    ensures
        r == spec_lan_ipv4_score(ip),
{
    let host_score: i32 = if ip.d == 1 {
        -50
    } else if 2 <= ip.d && ip.d <= 9 {
        -10
    } else if ip.d <= 40 {
        ip.d as i32
    } else {
        40
    };
    if ip.a == 192 && ip.b == 168 {
        return 400 + host_score;
    }
    if ip.a == 10 {
        return 390 + host_score;
    }
    if ip.a == 172 && 16 <= ip.b && ip.b <= 31 {
        return 380 + host_score;
    }
    if ip.a == 100 && 64 <= ip.b && ip.b <= 127 {
        return 120 + host_score;
    }
    80 + host_score
}

/// The value of a run of decimal digits.
pub open spec fn digits_value(s: Seq<char>) -> nat
    decreases s.len(),
{
    if s.len() == 0 {
        0
    } else {
        digits_value(s.drop_last()) * 10 + ((s.last() as u32) - 0x30) as nat
    }
}

/// One octet as `Ipv4Addr::from_str` reads it: one to three decimal digits, no leading zero
/// before other digits, at most 255.
pub open spec fn spec_parse_octet(s: Seq<char>) -> Option<u8> {
    if 1 <= s.len() <= 3 && (forall|i: int| 0 <= i < s.len() ==> is_ascii_digit(#[trigger] s[i]))
        && !(s.len() > 1 && s[0] == '0') && digits_value(s) <= 255 {
        Some(digits_value(s) as u8)
    } else {
        None
    }
}

/// An address as `Ipv4Addr::from_str` reads it: four octets separated by dots, nothing else.
pub open spec fn spec_parse_ipv4(s: Seq<char>) -> Option<Ipv4> {
    let parts = split_on(s, '.');
    if parts.len() == 4 && spec_parse_octet(parts[0]) is Some && spec_parse_octet(parts[1]) is Some
        && spec_parse_octet(parts[2]) is Some && spec_parse_octet(parts[3]) is Some {
        Some(
            Ipv4 {
                a: spec_parse_octet(parts[0])->0,
                b: spec_parse_octet(parts[1])->0,
                c: spec_parse_octet(parts[2])->0,
                d: spec_parse_octet(parts[3])->0,
            },
        )
    } else {
        None
    }
}

fn parse_octet(s: &Vec<char>) -> (r: Option<u8>)
    ensures
        r == spec_parse_octet(s@),
{
    if s.len() < 1 || s.len() > 3 {
        return None;
    }
    let mut value: u32 = 0;
    for i in 0..s.len()
        invariant
            1 <= s.len() <= 3,
            forall|k: int| 0 <= k < i ==> is_ascii_digit(#[trigger] s@[k]),
            value == digits_value(s@.take(i as int)),
            i == 0 ==> value == 0,
            i == 1 ==> value <= 9,
            i == 2 ==> value <= 99,
            value <= 999,
    {
        let c = s[i];
        if !('0' <= c && c <= '9') {
            return None;
        }
        proof {
            assert(s@.take(i + 1).drop_last() =~= s@.take(i as int));
            assert(s@.take(i + 1).last() == c);
        }
        value = value * 10 + (c as u32 - 0x30);
    }
    assert(s@.take(s.len() as int) =~= s@);
    if s.len() > 1 && s[0] == '0' {
        return None;
    }
    if value > 255 {
        return None;
    }
    Some(value as u8)
}

/// Reads an IPv4 address in dotted decimal form.
pub fn parse_ipv4(text: &Vec<char>) -> (r: Option<Ipv4>)
    ensures
        r == spec_parse_ipv4(text@),
{
    let parts = split_chars(text, '.');
    if parts.len() != 4 {
        return None;
    }
    let a = parse_octet(&parts[0]);
    let b = parse_octet(&parts[1]);
    let c = parse_octet(&parts[2]);
    let d = parse_octet(&parts[3]);
    match (a, b, c, d) {
        (Some(a), Some(b), Some(c), Some(d)) => Some(Ipv4 { a, b, c, d }),
        _ => None,
    }
}

/// Characters that can belong to an address in command output.
pub open spec fn is_ip_char(c: char) -> bool {
    is_ascii_digit(c) || c == '.'
}

/// The pieces of a text between the characters that cannot belong to an address.
pub open spec fn ip_tokens(s: Seq<char>) -> Seq<Seq<char>>
    decreases s.len(),
{
    if s.len() == 0 {
        seq![seq![]]
    } else {
        let init = ip_tokens(s.drop_last());
        if !is_ip_char(s.last()) {
            init.push(seq![])
        } else {
            init.update(init.len() - 1, init.last().push(s.last()))
        }
    }
}

proof fn lemma_ip_tokens_len(s: Seq<char>)
    ensures
        ip_tokens(s).len() >= 1,
    decreases s.len(),
{
    if s.len() > 0 {
        lemma_ip_tokens_len(s.drop_last());
    }
}

/// The list with `x` added at its end unless it already holds it.
pub open spec fn push_unique(v: Seq<Ipv4>, x: Ipv4) -> Seq<Ipv4> {
    if v.contains(x) {
        v
    } else {
        v.push(x)
    }
}

/// The addresses that the pieces read as, each once, in order of first appearance.
pub open spec fn addresses_of_tokens(acc: Seq<Ipv4>, tokens: Seq<Seq<char>>) -> Seq<Ipv4>
    decreases tokens.len(),
{
    if tokens.len() == 0 {
        acc
    } else {
        let rest = tokens.drop_first();
        match spec_parse_ipv4(tokens[0]) {
            Some(ip) => addresses_of_tokens(push_unique(acc, ip), rest),
            None => addresses_of_tokens(acc, rest),
        }
    }
}

/// The addresses in a text, each once, in order of first appearance.
pub open spec fn spec_extract_ipv4(acc: Seq<Ipv4>, text: Seq<char>) -> Seq<Ipv4> {
    addresses_of_tokens(acc, ip_tokens(text))
}

fn contains_ip(v: &Vec<Ipv4>, x: Ipv4) -> (r: bool)
    ensures
        r == v@.contains(x),
{
    for i in 0..v.len()
        invariant
            forall|k: int| 0 <= k < i ==> v@[k] != x,
    {
        if v[i] == x {
            assert(v@[i as int] == x);
            return true;
        }
    }
    false
}

fn push_unique_ip(v: &mut Vec<Ipv4>, x: Ipv4)
    ensures
        final(v)@ == push_unique(old(v)@, x),
{
    if !contains_ip(v, x) {
        v.push(x);
    }
}

fn ip_token_pieces(v: &Vec<char>) -> (r: Vec<Vec<char>>)
    ensures
        r@.len() == ip_tokens(v@).len(),
        forall|k: int| 0 <= k < r@.len() ==> (#[trigger] r@[k])@ == ip_tokens(v@)[k],
{
    let mut done: Vec<Vec<char>> = Vec::new();
    let mut cur: Vec<char> = Vec::new();
    for i in 0..v.len()
        invariant
            done@.len() + 1 == ip_tokens(v@.take(i as int)).len(),
            forall|k: int|
                0 <= k < done@.len() ==> (#[trigger] done@[k])@ == ip_tokens(v@.take(i as int))[k],
            cur@ == ip_tokens(v@.take(i as int)).last(),
    {
        proof {
            lemma_ip_tokens_len(v@.take(i as int));
            assert(v@.take(i + 1).drop_last() =~= v@.take(i as int));
            assert(v@.take(i + 1).last() == v@[i as int]);
        }
        let c = v[i];
        if !(('0' <= c && c <= '9') || c == '.') {
            let mut piece: Vec<char> = Vec::new();
            std::mem::swap(&mut piece, &mut cur);
            done.push(piece);
        } else {
            cur.push(c);
        }
    }
    assert(v@.take(v.len() as int) =~= v@);
    done.push(cur);
    done
}

/// Adds the addresses in a text to a list, each once.
pub fn collect_ipv4_candidates(candidates: &mut Vec<Ipv4>, text: &Vec<char>)
    ensures
        final(candidates)@ == spec_extract_ipv4(old(candidates)@, text@),
{
    let pieces = ip_token_pieces(text);
    let ghost tokens = ip_tokens(text@);
    assert(tokens.skip(0) =~= tokens);
    for i in 0..pieces.len()
        invariant
            pieces@.len() == tokens.len(),
            tokens == ip_tokens(text@),
            forall|k: int| 0 <= k < pieces@.len() ==> (#[trigger] pieces@[k])@ == tokens[k],
            spec_extract_ipv4(old(candidates)@, text@) == addresses_of_tokens(
                candidates@,
                tokens.skip(i as int),
            ),
    {
        proof {
            let rest = tokens.skip(i as int);
            assert(rest[0] == tokens[i as int]);
            assert(rest.drop_first() =~= tokens.skip(i + 1));
        }
        if let Some(ip) = parse_ipv4(&pieces[i]) {
            push_unique_ip(candidates, ip);
        }
    }
    assert(tokens.skip(pieces.len() as int) =~= Seq::<Seq<char>>::empty());
}

/// The addresses that appear in the output of a network command, each once.
pub fn extract_ipv4_candidates(text: &str) -> (r: Vec<Ipv4>)
    ensures
        r@ == spec_extract_ipv4(seq![], text@),
{
    let v = chars_of(text);
    let mut out: Vec<Ipv4> = Vec::new();
    collect_ipv4_candidates(&mut out, &v);
    out
}

/// Whether `pat` occurs in `s`.
pub open spec fn contains_seq(s: Seq<char>, pat: Seq<char>) -> bool {
    exists|i: int| 0 <= i && i + pat.len() <= s.len() && #[trigger] s.subrange(i, i + pat.len()) == pat
}

fn contains_chars(s: &Vec<char>, pat: &Vec<char>) -> (r: bool)
    ensures
        r == contains_seq(s@, pat@),
{
    if pat.len() > s.len() {
        return false;
    }
    let mut i: usize = 0;
    while s.len() - i >= pat.len()
        invariant
            pat.len() <= s.len(),
            i <= s.len(),
            forall|j: int| 0 <= j < i ==> #[trigger] s@.subrange(j, j + pat@.len()) != pat@,
        decreases s.len() - i,
    {
        let mut ok = true;
        let mut k: usize = 0;
        while k < pat.len()
            invariant
                i <= s.len(),
                s.len() - i >= pat.len(),
                k <= pat.len(),
                ok ==> forall|m: int| 0 <= m < k ==> s@[i + m] == pat@[m],
                !ok ==> s@.subrange(i as int, i + pat@.len()) != pat@,
                !ok ==> pat.len() > 0,
            decreases pat.len() - k,
        {
            if s[i + k] != pat[k] {
                assert(s@.subrange(i as int, i + pat@.len())[k as int] == s@[i + k]);
                ok = false;
            }
            k += 1;
        }
        if ok {
            assert(s@.subrange(i as int, i + pat@.len()) =~= pat@);
            return true;
        }
        assert(i < s.len());
        i += 1;
    }
    proof {
        assert forall|j: int| 0 <= j && j + pat@.len() <= s@.len() implies #[trigger] s@.subrange(
            j,
            j + pat@.len(),
        ) != pat@ by {
            assert(j < i);
        }
    }
    false
}

/// The addresses on the lines of `ipconfig` output that mention `IPv4`, each once.
pub open spec fn spec_extract_windows_ipv4(lines: Seq<Seq<char>>) -> Seq<Ipv4>
    decreases lines.len(),
{
    if lines.len() == 0 {
        seq![]
    } else {
        let acc = spec_extract_windows_ipv4(lines.drop_last());
        if contains_seq(lines.last(), "IPv4"@) {
            spec_extract_ipv4(acc, lines.last())
        } else {
            acc
        }
    }
}

/// The addresses of the `IPv4` lines of `ipconfig /all` output.
pub fn extract_windows_ipv4_candidates(text: &str) -> (r: Vec<Ipv4>)
    ensures
        r@ == spec_extract_windows_ipv4(split_on(text@, '\n')),
{
    let v = chars_of(text);
    let lines = split_chars(&v, '\n');
    let marker = chars_of("IPv4");
    let mut out: Vec<Ipv4> = Vec::new();
    let ghost all = split_on(text@, '\n');
    for i in 0..lines.len()
        invariant
            all == split_on(text@, '\n'),
            lines@.len() == all.len(),
            forall|k: int| 0 <= k < lines@.len() ==> (#[trigger] lines@[k])@ == all[k],
            marker@ == "IPv4"@,
            out@ == spec_extract_windows_ipv4(all.take(i as int)),
    {
        proof {
            assert(all.take(i + 1).drop_last() =~= all.take(i as int));
            assert(all.take(i + 1).last() == all[i as int]);
        }
        if contains_chars(&lines[i], &marker) {
            collect_ipv4_candidates(&mut out, &lines[i]);
        }
    }
    assert(all.take(all.len() as int) =~= all);
    out
}

/// The addresses of the list, each once, in order of first appearance.
pub open spec fn unique_addresses(acc: Seq<Ipv4>, v: Seq<Ipv4>) -> Seq<Ipv4>
    decreases v.len(),
{
    if v.len() == 0 {
        acc
    } else {
        unique_addresses(push_unique(acc, v[0]), v.drop_first())
    }
}

/// The candidates without repetitions.
pub fn dedupe_ipv4_candidates(candidates: &Vec<Ipv4>) -> (r: Vec<Ipv4>)
    ensures
        r@ == unique_addresses(seq![], candidates@),
{
    let mut out: Vec<Ipv4> = Vec::new();
    assert(candidates@.skip(0) =~= candidates@);
    for i in 0..candidates.len()
        invariant
            unique_addresses(seq![], candidates@) == unique_addresses(out@, candidates@.skip(i as int)),
    {
        proof {
            assert(candidates@.skip(i as int)[0] == candidates@[i as int]);
            assert(candidates@.skip(i as int).drop_first() =~= candidates@.skip(i + 1));
        }
        push_unique_ip(&mut out, candidates[i]);
    }
    assert(candidates@.skip(candidates.len() as int) =~= Seq::<Ipv4>::empty());
    out
}

/// The usable address with the highest score; among equal scores the last one.
pub open spec fn best_lan_ipv4(s: Seq<Ipv4>) -> Option<Ipv4>
    decreases s.len(),
{
    if s.len() == 0 {
        None
    } else {
        let b = best_lan_ipv4(s.drop_last());
        let x = s.last();
        if !spec_usable_lan_ipv4(x) {
            b
        } else {
            match b {
                None => Some(x),
                Some(y) => if spec_lan_ipv4_score(x) >= spec_lan_ipv4_score(y) {
                    Some(x)
                } else {
                    Some(y)
                },
            }
        }
    }
}

/// The dotted decimal form of an address.
pub open spec fn spec_ipv4_text(ip: Ipv4) -> Seq<char> {
    decimal(ip.a as nat) + "."@ + decimal(ip.b as nat) + "."@ + decimal(ip.c as nat) + "."@
        + decimal(ip.d as nat)
}

/// The dotted decimal form of an address.
pub fn ipv4_to_string(ip: Ipv4) -> (r: String)
    ensures
        r@ == spec_ipv4_text(ip),
{
    let mut out = decimal_chars(ip.a as u64);
    out.push('.');
    let b = decimal_chars(ip.b as u64);
    push_chars(&mut out, &b);
    out.push('.');
    let c = decimal_chars(ip.c as u64);
    push_chars(&mut out, &c);
    out.push('.');
    let d = decimal_chars(ip.d as u64);
    push_chars(&mut out, &d);
    proof {
        reveal_strlit(".");
    }
    assert(out@ =~= spec_ipv4_text(ip));
    string_from_chars(&out)
}

/// The address offered to the phone: the best usable one among the addresses of the network
/// interfaces (each once) and the address of the default route; `None` when none is usable.
pub open spec fn spec_local_lan_ip(candidates: Seq<Ipv4>, default_route: Option<Ipv4>) -> Option<
    Seq<char>,
> {
    let all = match default_route {
        Some(ip) => unique_addresses(seq![], candidates).push(ip),
        None => unique_addresses(seq![], candidates),
    };
    match best_lan_ipv4(all) {
        Some(ip) => Some(spec_ipv4_text(ip)),
        None => None,
    }
}

/// Picks the address that the phone should connect to; an error when no address is usable.
pub fn local_lan_ip(candidates: &Vec<Ipv4>, default_route: Option<Ipv4>) -> (r: Result<String, AppError>)
    ensures
        match r {
            Ok(s) => spec_local_lan_ip(candidates@, default_route) == Some(s@),
            Err(e) => spec_local_lan_ip(candidates@, default_route) is None && e.spec_message()
                == "failed to resolve local lan ip"@,
        },
{
    let mut all = dedupe_ipv4_candidates(candidates);
    if let Some(ip) = default_route {
        all.push(ip);
    }
    let mut best: Option<Ipv4> = None;
    let mut best_score: i32 = 0;
    for i in 0..all.len()
        invariant
            best == best_lan_ipv4(all@.take(i as int)),
            best matches Some(y) ==> best_score == spec_lan_ipv4_score(y),
    {
        proof {
            assert(all@.take(i + 1).drop_last() =~= all@.take(i as int));
            assert(all@.take(i + 1).last() == all@[i as int]);
        }
        let x = all[i];
        if usable_lan_ipv4(x) {
            let s = lan_ipv4_score(x);
            match best {
                None => {
                    best = Some(x);
                    best_score = s;
                },
                Some(_) => {
                    if s >= best_score {
                        best = Some(x);
                        best_score = s;
                    }
                },
            }
        }
    }
    assert(all@.take(all.len() as int) =~= all@);
    match best {
        Some(ip) => Ok(ipv4_to_string(ip)),
        None => Err(AppError::Message(crate::text::owned("failed to resolve local lan ip"))),
    }
}

/// The address chosen for the phone is usable and scores at least as high as every usable
/// candidate.
pub proof fn law_best_lan_ipv4_is_maximal(s: Seq<Ipv4>)
    ensures
        best_lan_ipv4(s) matches Some(ip) ==> spec_usable_lan_ipv4(ip) && s.contains(ip),
        best_lan_ipv4(s) is None <==> (forall|i: int| 0 <= i < s.len() ==> !spec_usable_lan_ipv4(#[trigger] s[i])),
        best_lan_ipv4(s) matches Some(ip) ==> forall|i: int|
            0 <= i < s.len() && spec_usable_lan_ipv4(#[trigger] s[i]) ==> spec_lan_ipv4_score(s[i])
                <= spec_lan_ipv4_score(ip),
    decreases s.len(),
{
    if s.len() > 0 {
        let init = s.drop_last();
        let x = s.last();
        law_best_lan_ipv4_is_maximal(init);
        assert forall|i: int| 0 <= i < init.len() implies #[trigger] init[i] == s[i] by {}
        assert(s[s.len() - 1] == x);
        if let Some(ip) = best_lan_ipv4(init) {
            assert(init.contains(ip));
            let k = choose|k: int| 0 <= k < init.len() && init[k] == ip;
            assert(s[k] == ip);
        }
        if best_lan_ipv4(s) is None {
            assert forall|i: int| 0 <= i < s.len() implies !spec_usable_lan_ipv4(#[trigger] s[i]) by {
                if i < init.len() {
                    assert(init[i] == s[i]);
                }
            }
        } else {
            let ip = best_lan_ipv4(s)->0;
            assert forall|i: int| 0 <= i < s.len() && spec_usable_lan_ipv4(#[trigger] s[i]) implies spec_lan_ipv4_score(s[i])
                <= spec_lan_ipv4_score(ip) by {
                if i < init.len() {
                    assert(init[i] == s[i]);
                    assert(spec_usable_lan_ipv4(init[i]));
                }
            }
            if !spec_usable_lan_ipv4(x) {
                let k = choose|k: int| 0 <= k < init.len() && init[k] == ip;
                assert(spec_usable_lan_ipv4(init[k]));
            }
        }
    }
}

/// Whether the address is in a private range: 10.0.0.0/8, 172.16.0.0/12 or 192.168.0.0/16.
pub open spec fn is_private_ipv4(ip: Ipv4) -> bool {
    ip.a == 10 || (ip.a == 172 && 16 <= ip.b <= 31) || (ip.a == 192 && ip.b == 168)
}

/// Every address in a private range scores above every address outside them, carrier-grade
/// NAT (100.64.0.0/10) and public addresses alike, whatever their host numbers.
pub proof fn law_private_addresses_score_higher(private: Ipv4, other: Ipv4)
    requires
        is_private_ipv4(private),
        !is_private_ipv4(other),
    ensures
        spec_lan_ipv4_score(private) > spec_lan_ipv4_score(other),
{
}

/// When any usable candidate is in a private range, the address offered to the phone is a
/// private one.
pub proof fn law_private_address_is_preferred(s: Seq<Ipv4>, i: int)
    requires
        0 <= i < s.len(),
        spec_usable_lan_ipv4(s[i]),
        is_private_ipv4(s[i]),
    ensures
        best_lan_ipv4(s) matches Some(ip) && is_private_ipv4(ip),
{
    law_best_lan_ipv4_is_maximal(s);
    let ip = best_lan_ipv4(s)->0;
    assert(spec_lan_ipv4_score(s[i]) <= spec_lan_ipv4_score(ip));
    if !is_private_ipv4(ip) {
        law_private_addresses_score_higher(s[i], ip);
    }
}

/// Within one network the gateway host number 1 scores below the host numbers 2 to 9, and
/// those score below every host number from 10 on.
pub proof fn law_gateway_hosts_score_lower(x: Ipv4, y: Ipv4)
    requires
        x.a == y.a && x.b == y.b,
    ensures
        x.d == 1 && y.d >= 2 ==> spec_lan_ipv4_score(x) < spec_lan_ipv4_score(y),
        2 <= x.d <= 9 && y.d >= 10 ==> spec_lan_ipv4_score(x) < spec_lan_ipv4_score(y),
        10 <= x.d < y.d <= 40 ==> spec_lan_ipv4_score(x) < spec_lan_ipv4_score(y),
{
}

} // verus!


