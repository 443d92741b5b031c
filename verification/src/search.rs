use vstd::prelude::*;

use crate::models::ItemView;
use crate::text::{ascii_lower, ascii_lower_seq};

verus! {

/// SQL `LIKE` as SQLite applies it without an escape character: `%` matches any run of
/// characters, `_` any one character, and other characters match themselves up to ASCII
/// case.
pub open spec fn like_match(p: Seq<char>, s: Seq<char>) -> bool
    decreases p.len(), s.len(),
{
    if p.len() == 0 {
        s.len() == 0
    } else if p[0] == '%' {
        like_match(p.drop_first(), s) || (s.len() > 0 && like_match(p, s.drop_first()))
    } else if s.len() == 0 {
        false
    } else if p[0] == '_' || ascii_lower(p[0]) == ascii_lower(s[0]) {
        like_match(p.drop_first(), s.drop_first())
    } else {
        false
    }
}

fn lower_char(c: char) -> (r: char)
    ensures
        r == ascii_lower(c),
{
    crate::text::to_ascii_lower(c)
}

proof fn lemma_like_step(p: Seq<char>, s: Seq<char>, i: int, j: int)
    requires
        0 <= i < p.len(),
        0 <= j <= s.len(),
    ensures
        like_match(p.skip(i), s.skip(j)) == if p[i] == '%' {
            like_match(p.skip(i + 1), s.skip(j)) || (j < s.len() && like_match(p.skip(i), s.skip(j + 1)))
        } else if j == s.len() {
            false
        } else if p[i] == '_' || ascii_lower(p[i]) == ascii_lower(s[j]) {
            like_match(p.skip(i + 1), s.skip(j + 1))
        } else {
            false
        },
{
    assert(p.skip(i)[0] == p[i]);
    assert(p.skip(i).drop_first() =~= p.skip(i + 1));
    if j < s.len() {
        assert(s.skip(j)[0] == s[j]);
        assert(s.skip(j).drop_first() =~= s.skip(j + 1));
    }
}

/// Whether a text matches a `LIKE` pattern, computed row by row over the pattern from its end.
pub fn like(pattern: &Vec<char>, text: &Vec<char>) -> (r: bool)
    ensures
        r == like_match(pattern@, text@),
{
    let m = pattern.len();
    let n = text.len();
    let ghost p = pattern@;
    let ghost s = text@;
    assert(p.skip(m as int) =~= Seq::<char>::empty());
    assert(s.skip(n as int) =~= Seq::<char>::empty());
    let mut next: Vec<bool> = Vec::new();
    let mut k: usize = 0;
    while k < n
        invariant
            k <= n == s.len(),
            p.skip(m as int) =~= Seq::<char>::empty(),
            next@.len() == k,
            forall|j: int| 0 <= j < k ==> #[trigger] next@[j] == like_match(p.skip(m as int), s.skip(j)),
        decreases n - k,
    {
        assert(s.skip(k as int).len() > 0);
        next.push(false);
        k += 1;
    }
    let mut next_end = true;
    let mut i = m;
    while i > 0
        invariant
            i <= m == p.len(),
            n == s.len(),
            p == pattern@,
            s == text@,
            next@.len() == n,
            s.skip(n as int) =~= Seq::<char>::empty(),
            next_end == like_match(p.skip(i as int), s.skip(n as int)),
            forall|j: int| 0 <= j < n ==> #[trigger] next@[j] == like_match(p.skip(i as int), s.skip(j)),
        decreases i,
    {
        i -= 1;
        let c = pattern[i];
        proof {
            lemma_like_step(p, s, i as int, n as int);
        }
        let cur_end = c == '%' && next_end;
        let mut cur: Vec<bool> = Vec::new();
        let mut t: usize = 0;
        while t < n
            invariant
                t <= n,
                cur@.len() == t,
            decreases n - t,
        {
            cur.push(false);
            t += 1;
        }
        let mut j = n;
        while j > 0
            invariant
                j <= n == s.len(),
                i < m == p.len(),
                c == p[i as int],
                p == pattern@,
                s == text@,
                cur@.len() == n,
                next@.len() == n,
                cur_end == like_match(p.skip(i as int), s.skip(n as int)),
                next_end == like_match(p.skip(i + 1), s.skip(n as int)),
                forall|k: int| 0 <= k < n ==> #[trigger] next@[k] == like_match(p.skip(i + 1), s.skip(k)),
                forall|k: int| j <= k < n ==> #[trigger] cur@[k] == like_match(p.skip(i as int), s.skip(k)),
            decreases j,
        {
            j -= 1;
            proof {
                lemma_like_step(p, s, i as int, j as int);
            }
            let later = if j + 1 == n {
                cur_end
            } else {
                cur[j + 1]
            };
            let next_later = if j + 1 == n {
                next_end
            } else {
                next[j + 1]
            };
            let v = if c == '%' {
                next[j] || later
            } else {
                (c == '_' || lower_char(c) == lower_char(text[j])) && next_later
            };
            cur.set(j, v);
        }
        next = cur;
        next_end = cur_end;
    }
    assert(p.skip(0) =~= p);
    assert(s.skip(0) =~= s);
    if n == 0 {
        next_end
    } else {
        next[0]
    }
}

/// The text an entry is searched in: its preview, its text and its source application, one per
/// line, in ASCII lower case (SQLite's `lower`).
pub open spec fn search_text(item: ItemView) -> Seq<char> {
    ascii_lower_seq(
        item.preview + seq!['\n'] + match item.full_text {
            Some(t) => t,
            None => Seq::empty(),
        } + seq!['\n'] + match item.source_app {
            Some(a) => a,
            None => Seq::empty(),
        },
    )
}

/// Whether an entry turns up for a search: its search text contains the query, with `%` and
/// `_` in the query acting as wildcards.
pub open spec fn item_matches(item: ItemView, query: Seq<char>) -> bool {
    like_match(seq!['%'] + query + seq!['%'], search_text(item))
}

/// The Unicode lower case that `str::to_lowercase` gives for a text.
pub uninterp spec fn unicode_lowercase(s: Seq<char>) -> Seq<char>;

/// `str::to_lowercase`.
#[verifier::external_body]
pub(crate) fn to_lowercase(s: &str) -> (r: String)
    ensures
        r@ == unicode_lowercase(s@),
{
    s.to_lowercase()
}

} // verus!
