use vstd::prelude::*;
use vstd::utf8::encode_utf8;

use crate::capture::{
    apply_capture, build_new_item, capture_hash, capture_matching_text, preview_text,
    spec_apply_capture, spec_capture_hash, spec_capture_matching_text, spec_preview_text,
};
use crate::digest::{sha256_hex, spec_sha256_hex};
use crate::models::{
    clone_bytes, clone_opt_bytes, clone_opt_string, opt_str, CaptureView, CapturedClipboard,
    ItemView, StoredClipboardItem,
};
use crate::search::{item_matches, like, like_match, search_text, to_lowercase, unicode_lowercase};
use crate::text::{ascii_lower_seq, chars_of, lower_ascii_chars, owned, push_chars, str_equal, string_from_chars, trim, trim_chars};
use crate::update::AppError;

verus! {

/// A copy of a history entry.
pub fn clone_item(item: &StoredClipboardItem) -> (r: StoredClipboardItem)
    ensures
        r@ == item@,
{
    StoredClipboardItem {
        id: item.id.clone(),
        kind: item.kind.clone(),
        created_at: item.created_at.clone(),
        pinned_at: clone_opt_string(&item.pinned_at),
        preview: item.preview.clone(),
        full_text: clone_opt_string(&item.full_text),
        html_text: clone_opt_string(&item.html_text),
        rtf_text: clone_opt_string(&item.rtf_text),
        image_png: clone_opt_bytes(&item.image_png),
        image_original_bytes: clone_opt_bytes(&item.image_original_bytes),
        image_original_mime: clone_opt_string(&item.image_original_mime),
        image_width: item.image_width,
        image_height: item.image_height,
        source_app: clone_opt_string(&item.source_app),
        source_icon_data_url: clone_opt_string(&item.source_icon_data_url),
        hash: item.hash.clone(),
        pinned: item.pinned,
        favorite: item.favorite,
    }
}

/// Lexicographic order of texts by code point (the order of their UTF-8 bytes): -1, 0 or 1.
pub open spec fn text_order(a: Seq<char>, b: Seq<char>) -> int
    decreases a.len(),
{
    if a.len() == 0 && b.len() == 0 {
        0
    } else if a.len() == 0 {
        -1
    } else if b.len() == 0 {
        1
    } else if a[0] < b[0] {
        -1
    } else if a[0] > b[0] {
        1
    } else {
        text_order(a.drop_first(), b.drop_first())
    }
}

/// Compares two texts by code point.
pub fn compare_text(a: &str, b: &str) -> (r: i8)
    ensures
        r == text_order(a@, b@),
        -1 <= r <= 1,
{
    let av = crate::text::chars_of(a);
    let bv = crate::text::chars_of(b);
    let mut i: usize = 0;
    assert(av@.skip(0) =~= av@);
    assert(bv@.skip(0) =~= bv@);
    while i < av.len() && i < bv.len() && av[i] == bv[i]
        invariant
            i <= av.len(),
            i <= bv.len(),
            text_order(av@, bv@) == text_order(av@.skip(i as int), bv@.skip(i as int)),
        decreases av.len() - i,
    {
        proof {
            assert(av@.skip(i as int).drop_first() =~= av@.skip(i + 1));
            assert(bv@.skip(i as int).drop_first() =~= bv@.skip(i + 1));
        }
        i += 1;
    }
    proof {
        if i < av.len() {
            assert(av@.skip(i as int)[0] == av@[i as int]);
        }
        if i < bv.len() {
            assert(bv@.skip(i as int)[0] == bv@[i as int]);
        }
    }
    if i == av.len() && i == bv.len() {
        0
    } else if i == av.len() {
        -1
    } else if i == bv.len() {
        1
    } else if av[i] < bv[i] {
        -1
    } else {
        1
    }
}

/// The order of the history list: pinned entries first, the latest pinned first; then
/// favourites; then the newest. -1 when `a` comes first, 1 when `b` does, 0 when they tie.
pub open spec fn item_order(a: ItemView, b: ItemView) -> int {
    if a.pinned != b.pinned {
        if a.pinned {
            -1
        } else {
            1
        }
    } else if a.pinned_at != b.pinned_at && (a.pinned_at is None || b.pinned_at is None) {
        if a.pinned_at is Some {
            -1
        } else {
            1
        }
    } else if a.pinned_at is Some && text_order(a.pinned_at->0, b.pinned_at->0) != 0 {
        -text_order(a.pinned_at->0, b.pinned_at->0)
    } else if a.favorite != b.favorite {
        if a.favorite {
            -1
        } else {
            1
        }
    } else {
        -text_order(a.created_at, b.created_at)
    }
}

fn compare_items(a: &StoredClipboardItem, b: &StoredClipboardItem) -> (r: i8)
    ensures
        r == item_order(a@, b@),
{
    if a.pinned != b.pinned {
        return if a.pinned {
            -1
        } else {
            1
        };
    }
    match (&a.pinned_at, &b.pinned_at) {
        (Some(x), None) => {
            return -1;
        },
        (None, Some(y)) => {
            return 1;
        },
        (Some(x), Some(y)) => {
            let c = compare_text(x.as_str(), y.as_str());
            if c != 0 {
                return -c;
            }
        },
        (None, None) => {},
    }
    if a.favorite != b.favorite {
        return if a.favorite {
            -1
        } else {
            1
        };
    }
    -compare_text(a.created_at.as_str(), b.created_at.as_str())
}

/// Inserts an entry into a list in history order, after every entry it does not precede.
pub open spec fn insert_ordered(s: Seq<ItemView>, x: ItemView) -> Seq<ItemView>
    decreases s.len(),
{
    if s.len() == 0 {
        seq![x]
    } else if item_order(x, s[0]) < 0 {
        seq![x] + s
    } else {
        seq![s[0]] + insert_ordered(s.drop_first(), x)
    }
}

/// The entries in history order; ties keep the order of storage.
pub open spec fn ordered(s: Seq<ItemView>) -> Seq<ItemView>
    decreases s.len(),
{
    if s.len() == 0 {
        seq![]
    } else {
        insert_ordered(ordered(s.drop_last()), s.last())
    }
}

/// Whether an entry is the one that a capture updates: the same hash, or a text entry with the
/// same text.
pub open spec fn matches_capture(item: ItemView, hash: Seq<char>, text: Option<Seq<char>>) -> bool {
    item.hash == hash || (text matches Some(t) && item.kind == "text"@ && item.full_text == Some(t))
}

/// The first entry that a capture updates, or -1.
pub open spec fn first_match(s: Seq<ItemView>, hash: Seq<char>, text: Option<Seq<char>>) -> int
    decreases s.len(),
{
    if s.len() == 0 {
        -1
    } else if matches_capture(s[0], hash, text) {
        0
    } else {
        let r = first_match(s.drop_first(), hash, text);
        if r < 0 {
            -1
        } else {
            r + 1
        }
    }
}

/// Whether `a` goes out before `b` when the history is trimmed: ordinary entries before
/// favourites, older before newer.
pub open spec fn evicts_before(a: ItemView, b: ItemView) -> bool {
    (!a.favorite && b.favorite) || (a.favorite == b.favorite && text_order(a.created_at, b.created_at) < 0)
}

/// The entry that trimming removes next: the first unpinned entry that no other unpinned entry
/// goes out before; -1 when every entry is pinned.
pub open spec fn next_eviction(s: Seq<ItemView>) -> int
    decreases s.len(),
{
    if s.len() == 0 {
        -1
    } else {
        let b = next_eviction(s.drop_last());
        let x = s.last();
        if x.pinned {
            b
        } else if b < 0 {
            s.len() - 1
        } else if evicts_before(x, s[b]) {
            s.len() - 1
        } else {
            b
        }
    }
}

/// The history after removing up to `n` entries in eviction order.
pub open spec fn evict(s: Seq<ItemView>, n: nat) -> Seq<ItemView>
    decreases n,
{
    if n == 0 || next_eviction(s) < 0 {
        s
    } else {
        evict(s.remove(next_eviction(s)), (n - 1) as nat)
    }
}

/// The identifiers of the entries that removing up to `n` entries in eviction order takes
/// out, in the order they go.
pub open spec fn evicted_ids(s: Seq<ItemView>, n: nat) -> Seq<Seq<char>>
    decreases n,
{
    if n == 0 || next_eviction(s) < 0 {
        Seq::empty()
    } else {
        seq![s[next_eviction(s)].id] + evicted_ids(s.remove(next_eviction(s)), (n - 1) as nat)
    }
}

/// The entries that removing up to `n` entries in eviction order takes out, in the order they
/// go.
pub open spec fn evicted_items(s: Seq<ItemView>, n: nat) -> Seq<ItemView>
    decreases n,
{
    if n == 0 || next_eviction(s) < 0 {
        Seq::empty()
    } else {
        seq![s[next_eviction(s)]] + evicted_items(s.remove(next_eviction(s)), (n - 1) as nat)
    }
}

/// How many entries trimming removes: the excess over the limit. The limit is taken as a
/// signed 64-bit number, as the store counts; a limit that is negative there removes every
/// entry it can.
pub open spec fn overflow(total: nat, max_items: usize) -> nat {
    let m = max_items as i64;
    if m < 0 {
        total
    } else if total > m {
        (total - m) as nat
    } else {
        0
    }
}

/// What storing a capture did: whether it made a new entry, the entry as stored, and the
/// identifiers of the entries that trimming removed.
pub struct UpsertOutcome {
    pub inserted: bool,
    pub item: StoredClipboardItem,
    pub evicted: Vec<String>,
}

/// The clipboard history, in the order the entries were stored.
pub struct ClipboardHistory {
    items: Vec<StoredClipboardItem>,
}

impl View for ClipboardHistory {
    type V = Seq<ItemView>;

    closed spec fn view(&self) -> Seq<ItemView> {
        self.items@.map_values(|i: StoredClipboardItem| i@)
    }
}

/// The history after a capture is stored with the given source at `now`: it updates the first
/// entry it matches, or else is added at the end under the identifier `new_id`.
pub open spec fn spec_store_capture(
    s: Seq<ItemView>,
    c: CaptureView,
    source_app: Option<Seq<char>>,
    source_icon: Option<Seq<char>>,
    now: Seq<char>,
    new_id: Seq<char>,
) -> Seq<ItemView> {
    let k = first_match(s, spec_capture_hash(c), spec_capture_matching_text(c));
    if k >= 0 {
        s.update(k, spec_apply_capture(s[k], c, now, source_app, source_icon))
    } else {
        s.push(
            spec_apply_capture(
                crate::capture::blank_item(new_id, now, source_app, source_icon),
                c,
                now,
                source_app,
                source_icon,
            ),
        )
    }
}

/// An entry with its pin flipped: pinned now, or unpinned without a pin time.
pub open spec fn toggled_pin(i: ItemView, now: Seq<char>) -> ItemView {
    if i.pinned {
        ItemView { pinned: false, pinned_at: None, ..i }
    } else {
        ItemView { pinned: true, pinned_at: Some(now), ..i }
    }
}

/// A text entry after an edit.
pub open spec fn edited_text(i: ItemView, text: Seq<char>, now: Seq<char>) -> ItemView {
    ItemView {
        full_text: Some(text),
        html_text: None,
        rtf_text: None,
        preview: spec_preview_text(text),
        hash: spec_sha256_hex(encode_utf8(text)),
        created_at: now,
        ..i
    }
}

/// An edited entry holds the new text and nothing else: no markup, no rich text; it keeps its
/// identifier, kind, pin and favourite and becomes the newest. A text entry without an image
/// then pastes as the trimmed new text alone, or as nothing when that is blank.
pub proof fn law_edit_keeps_only_new_text(i: ItemView, text: Seq<char>, now: Seq<char>)
    ensures
        ({
            let e = edited_text(i, text, now);
            &&& e.full_text == Some(text) && e.html_text is None && e.rtf_text is None
            &&& e.id == i.id && e.kind == i.kind && e.pinned == i.pinned && e.favorite == i.favorite
            &&& e.created_at == now
            &&& (i.kind == "text"@ && i.image_png is None) ==> crate::payload::spec_payload_for_item(e)
                == if trim(text).len() > 0 {
                crate::payload::PayloadView::Text { text: trim(text) }
            } else {
                crate::payload::PayloadView::Empty
            }
        }),
{
}

/// The index of the first entry with the identifier, or -1.
pub open spec fn index_of_id(s: Seq<ItemView>, id: Seq<char>) -> int
    decreases s.len(),
{
    if s.len() == 0 {
        -1
    } else if s[0].id == id {
        0
    } else {
        let r = index_of_id(s.drop_first(), id);
        if r < 0 {
            -1
        } else {
            r + 1
        }
    }
}

proof fn lemma_first_match_bounds(s: Seq<ItemView>, hash: Seq<char>, text: Option<Seq<char>>)
    ensures
        -1 <= first_match(s, hash, text) < s.len(),
        first_match(s, hash, text) >= 0 ==> matches_capture(s[first_match(s, hash, text)], hash, text),
        forall|j: int|
            0 <= j < s.len() && (first_match(s, hash, text) < 0 || j < first_match(s, hash, text))
                ==> !matches_capture(#[trigger] s[j], hash, text),
    decreases s.len(),
{
    if s.len() > 0 {
        lemma_first_match_bounds(s.drop_first(), hash, text);
        assert forall|j: int|
            0 <= j < s.len() && (first_match(s, hash, text) < 0 || j < first_match(s, hash, text))
                implies !matches_capture(#[trigger] s[j], hash, text) by {
            if j > 0 {
                assert(s[j] == s.drop_first()[j - 1]);
            }
        }
    }
}

proof fn lemma_next_eviction_bounds(s: Seq<ItemView>)
    ensures
        -1 <= next_eviction(s) < s.len(),
        next_eviction(s) >= 0 ==> !s[next_eviction(s)].pinned,
        next_eviction(s) < 0 ==> forall|j: int| 0 <= j < s.len() ==> (#[trigger] s[j]).pinned,
    decreases s.len(),
{
    if s.len() > 0 {
        lemma_next_eviction_bounds(s.drop_last());
        assert forall|j: int| 0 <= j < s.len() - 1 implies #[trigger] s.drop_last()[j] == s[j] by {}
        if next_eviction(s) < 0 {
            assert forall|j: int| 0 <= j < s.len() implies (#[trigger] s[j]).pinned by {
                if j < s.len() - 1 {
                    assert(s.drop_last()[j] == s[j]);
                }
            }
        }
    }
}

impl ClipboardHistory {
    /// An empty history.
    pub fn new() -> (r: ClipboardHistory)
        ensures
            r@ == Seq::<ItemView>::empty(),
    {
        let r = ClipboardHistory { items: Vec::new() };
        assert(r@ =~= Seq::<ItemView>::empty());
        r
    }

    /// A history of stored entries, in storage order.
    pub fn from_items(items: Vec<StoredClipboardItem>) -> (r: ClipboardHistory)
        ensures
            r@ == items@.map_values(|i: StoredClipboardItem| i@),
    {
        ClipboardHistory { items }
    }

    /// The number of entries.
    pub fn len(&self) -> (r: usize)
        ensures
            r == self@.len(),
    {
        self.items.len()
    }

    fn find_match(&self, hash: &String, text: &Option<String>) -> (r: Option<usize>)
        ensures
            match r {
                Some(k) => first_match(self@, hash@, opt_str(*text)) == k && k < self@.len(),
                None => first_match(self@, hash@, opt_str(*text)) < 0,
            },
    {
        let ghost s = self@;
        assert(s.skip(0) =~= s);
        let mut i: usize = 0;
        while i < self.items.len()
            invariant
                s == self@,
                i <= self.items.len(),
                s.len() == self.items.len(),
                forall|j: int| 0 <= j < i ==> !matches_capture(#[trigger] s[j], hash@, opt_str(*text)),
            decreases self.items.len() - i,
        {
            let item = &self.items[i];
            assert(s[i as int] == item@);
            let same_hash = str_equal(item.hash.as_str(), hash.as_str());
            let same_text = match text {
                Some(t) => str_equal(item.kind.as_str(), "text") && match &item.full_text {
                    Some(f) => str_equal(f.as_str(), t.as_str()),
                    None => false,
                },
                None => false,
            };
            if same_hash || same_text {
                proof {
                    lemma_first_match_bounds(s, hash@, opt_str(*text));
                    let k = first_match(s, hash@, opt_str(*text));
                    if k < 0 || k > i {
                        assert(!matches_capture(s[i as int], hash@, opt_str(*text)));
                    }
                    if 0 <= k < i {
                        assert(!matches_capture(s[k], hash@, opt_str(*text)));
                    }
                }
                return Some(i);
            }
            i += 1;
        }
        proof {
            lemma_first_match_bounds(s, hash@, opt_str(*text));
            let k = first_match(s, hash@, opt_str(*text));
            if k >= 0 {
                assert(!matches_capture(s[k], hash@, opt_str(*text)));
            }
        }
        None
    }

    fn find_eviction(&self) -> (r: Option<usize>)
        ensures
            match r {
                Some(k) => next_eviction(self@) == k && k < self@.len(),
                None => next_eviction(self@) < 0,
            },
    {
        let ghost s = self@;
        let mut best: Option<usize> = None;
        for i in 0..self.items.len()
            invariant
                s == self@,
                s.len() == self.items.len(),
                match best {
                    Some(b) => next_eviction(s.take(i as int)) == b && b < i,
                    None => next_eviction(s.take(i as int)) < 0,
                },
        {
            proof {
                assert(s.take(i + 1).drop_last() =~= s.take(i as int));
                assert(s.take(i + 1).last() == s[i as int]);
                assert(s[i as int] == self.items@[i as int]@);
                if let Some(b) = best {
                    assert(s.take(i + 1)[b as int] == s[b as int]);
                    assert(s[b as int] == self.items@[b as int]@);
                }
            }
            let item = &self.items[i];
            if !item.pinned {
                match best {
                    None => {
                        best = Some(i);
                    },
                    Some(b) => {
                        let cur = &self.items[b];
                        let before = (!item.favorite && cur.favorite) || (item.favorite
                            == cur.favorite && compare_text(
                            item.created_at.as_str(),
                            cur.created_at.as_str(),
                        ) < 0);
                        if before {
                            best = Some(i);
                        }
                    },
                }
            }
        }
        assert(s.take(s.len() as int) =~= s);
        best
    }

    /// Removes up to `n` entries in eviction order and gives back their identifiers.
    fn evict_entries(&mut self, n: usize) -> (r: Vec<String>)
        ensures
            final(self)@ == evict(old(self)@, n as nat),
            r@.map_values(|id: String| id@) == evicted_ids(old(self)@, n as nat),
    {
        let mut out: Vec<String> = Vec::new();
        let mut left = n;
        assert(out@.map_values(|id: String| id@) + evicted_ids(self@, left as nat) =~= evicted_ids(self@, left as nat));
        while left > 0
            invariant
                evict(old(self)@, n as nat) == evict(self@, left as nat),
                evicted_ids(old(self)@, n as nat) == out@.map_values(|id: String| id@) + evicted_ids(self@, left as nat),
            decreases left,
        {
            match self.find_eviction() {
                None => {
                    assert(out@.map_values(|id: String| id@) + evicted_ids(self@, left as nat)
                        =~= out@.map_values(|id: String| id@));
                    return out;
                },
                Some(k) => {
                    proof {
                        lemma_next_eviction_bounds(self@);
                    }
                    let ghost before = self@;
                    let ghost before_out = out@.map_values(|id: String| id@);
                    let removed = self.items.remove(k);
                    proof {
                        assert(self@ =~= before.remove(k as int));
                        assert(removed@ == before[k as int]);
                    }
                    out.push(removed.id);
                    proof {
                        assert(out@.map_values(|id: String| id@) =~= before_out.push(before[k as int].id));
                        assert(before_out.push(before[k as int].id) + evicted_ids(self@, (left - 1) as nat)
                            =~= before_out + (seq![before[k as int].id] + evicted_ids(self@, (left - 1) as nat)));
                    }
                    left -= 1;
                },
            }
        }
        assert(out@.map_values(|id: String| id@) + evicted_ids(self@, 0) =~= out@.map_values(|id: String| id@));
        out
    }

    /// Stores a capture: it refreshes the first entry with the same hash or, for text, the
    /// same text; otherwise it becomes a new entry. The history is then trimmed to
    /// `max_history_items` entries, removing unpinned entries, ordinary before favourites and
    /// oldest first.
    pub fn upsert_capture(
        &mut self,
        capture: CapturedClipboard,
        source_app: Option<(String, Option<String>)>,
        max_history_items: usize,
        now: &str,
    ) -> (r: UpsertOutcome)
        ensures
            ({
                let (app, icon) = match source_app {
                    Some((a, i)) => (Some(a@), opt_str(i)),
                    None => (None, None),
                };
                let k = first_match(old(self)@, spec_capture_hash(capture@), spec_capture_matching_text(capture@));
                let stored = spec_store_capture(old(self)@, capture@, app, icon, now@, r.item@.id);
                &&& r.inserted == (k < 0)
                &&& k >= 0 ==> r.item@ == spec_apply_capture(old(self)@[k], capture@, now@, app, icon)
                &&& k < 0 ==> crate::names::is_uuid_v4_text(r.item@.id)
                &&& k < 0 ==> stored.last() == r.item@
                &&& final(self)@ == evict(stored, overflow(stored.len(), max_history_items))
                &&& r.evicted@.map_values(|id: String| id@) == evicted_ids(stored, overflow(stored.len(), max_history_items))
            }),
    {
        let (app, icon) = match source_app {
            Some((a, i)) => (Some(a), i),
            None => (None, None),
        };
        let hash = capture_hash(&capture).clone();
        let text = capture_matching_text(&capture);
        let found = self.find_match(&hash, &text);
        let ghost old_items = self@;
        let (inserted, item) = match found {
            Some(k) => {
                let existing = clone_item(&self.items[k]);
                assert(existing@ == old_items[k as int]);
                let next = apply_capture(existing, capture, now, app, icon);
                let copy = clone_item(&next);
                self.items.set(k, next);
                proof {
                    assert(self@ =~= old_items.update(k as int, copy@));
                }
                (false, copy)
            },
            None => {
                let item = build_new_item(capture, now, app, icon);
                let copy = clone_item(&item);
                self.items.push(item);
                proof {
                    assert(self@ =~= old_items.push(copy@));
                }
                (true, copy)
            },
        };
        let total = self.items.len();
        let max_i = max_history_items as i64;
        let over: usize = if max_i < 0 {
            total
        } else if (total as u64) > (max_i as u64) {
            total - (max_i as usize)
        } else {
            0
        };
        let ghost stored = self@;
        assert(over == overflow(stored.len(), max_history_items));
        let evicted = self.evict_entries(over);
        assert(self@ == evict(stored, over as nat));
        UpsertOutcome { inserted, item, evicted }
    }

    /// The first entry with the identifier.
    pub fn get_item(&self, id: &str) -> (r: Option<StoredClipboardItem>)
        ensures
            match r {
                Some(i) => index_of_id(self@, id@) >= 0 && i@ == self@[index_of_id(self@, id@)],
                None => index_of_id(self@, id@) < 0,
            },
    {
        let ghost s = self@;
        assert(s.skip(0) =~= s);
        let mut i: usize = 0;
        while i < self.items.len()
            invariant
                s == self@,
                s.len() == self.items.len(),
                i <= self.items.len(),
                index_of_id(s, id@) == (if index_of_id(s.skip(i as int), id@) < 0 {
                    -1
                } else {
                    index_of_id(s.skip(i as int), id@) + i
                }),
            decreases self.items.len() - i,
        {
            assert(s[i as int] == self.items@[i as int]@);
            assert(s.skip(i as int)[0] == s[i as int]);
            if str_equal(self.items[i].id.as_str(), id) {
                return Some(clone_item(&self.items[i]));
            }
            assert(s.skip(i as int).drop_first() =~= s.skip(i + 1));
            i += 1;
        }
        assert(s.skip(i as int) =~= Seq::<ItemView>::empty());
        None
    }

    /// Flips the pin of every entry with the identifier; a new pin records `now`.
    pub fn toggle_pin(&mut self, id: &str, now: &str)
        ensures
            final(self)@.len() == old(self)@.len(),
            forall|k: int|
                0 <= k < old(self)@.len() ==> #[trigger] final(self)@[k] == if old(self)@[k].id == id@ {
                    toggled_pin(old(self)@[k], now@)
                } else {
                    old(self)@[k]
                },
    {
        let ghost s = self@;
        let n = self.items.len();
        for i in 0..n
            invariant
                n == self.items.len(),
                s.len() == self.items.len(),
                self@.len() == s.len(),
                forall|k: int|
                    0 <= k < s.len() ==> #[trigger] self@[k] == if k < i && s[k].id == id@ {
                        toggled_pin(s[k], now@)
                    } else {
                        s[k]
                    },
        {
            assert(self@[i as int] == self.items@[i as int]@);
            if str_equal(self.items[i].id.as_str(), id) {
                let ghost before = self@;
                let mut item = clone_item(&self.items[i]);
                if item.pinned {
                    item.pinned = false;
                    item.pinned_at = None;
                } else {
                    item.pinned = true;
                    item.pinned_at = Some(owned(now));
                }
                self.items.set(i, item);
                proof {
                    assert forall|k: int| 0 <= k < s.len() implies #[trigger] self@[k] == if k < i + 1
                        && s[k].id == id@ {
                        toggled_pin(s[k], now@)
                    } else {
                        s[k]
                    } by {
                        if k != i {
                            assert(self@[k] == before[k]);
                        }
                    }
                }
            }
        }
    }

    /// Flips the favourite mark of every entry with the identifier.
    pub fn toggle_favorite(&mut self, id: &str)
        ensures
            final(self)@.len() == old(self)@.len(),
            forall|k: int|
                0 <= k < old(self)@.len() ==> #[trigger] final(self)@[k] == if old(self)@[k].id == id@ {
                    ItemView { favorite: !old(self)@[k].favorite, ..old(self)@[k] }
                } else {
                    old(self)@[k]
                },
    {
        let ghost s = self@;
        let n = self.items.len();
        for i in 0..n
            invariant
                n == self.items.len(),
                s.len() == self.items.len(),
                self@.len() == s.len(),
                forall|k: int|
                    0 <= k < s.len() ==> #[trigger] self@[k] == if k < i && s[k].id == id@ {
                        ItemView { favorite: !s[k].favorite, ..s[k] }
                    } else {
                        s[k]
                    },
        {
            assert(self@[i as int] == self.items@[i as int]@);
            if str_equal(self.items[i].id.as_str(), id) {
                let ghost before = self@;
                let mut item = clone_item(&self.items[i]);
                item.favorite = !item.favorite;
                self.items.set(i, item);
                proof {
                    assert forall|k: int| 0 <= k < s.len() implies #[trigger] self@[k] == if k < i + 1
                        && s[k].id == id@ {
                        ItemView { favorite: !s[k].favorite, ..s[k] }
                    } else {
                        s[k]
                    } by {
                        if k != i {
                            assert(self@[k] == before[k]);
                        }
                    }
                }
            }
        }
    }

    /// Records the icon of the source application of the entries with the identifier. Says
    /// whether the first such entry had another icon before, which is when the change is
    /// announced.
    pub fn update_source_icon(&mut self, id: &str, icon: &str) -> (r: bool)
        ensures
            final(self)@.len() == old(self)@.len(),
            forall|k: int|
                0 <= k < old(self)@.len() ==> #[trigger] final(self)@[k] == if old(self)@[k].id == id@ {
                    ItemView { source_icon_data_url: Some(icon@), ..old(self)@[k] }
                } else {
                    old(self)@[k]
                },
            r == (index_of_id(old(self)@, id@) >= 0 && old(self)@[index_of_id(old(self)@, id@)].source_icon_data_url
                != Some(icon@)),
    {
        let changed = match self.get_item(id) {
            Some(item) => match &item.source_icon_data_url {
                Some(current) => !str_equal(current.as_str(), icon),
                None => true,
            },
            None => false,
        };
        let ghost s = self@;
        let n = self.items.len();
        for i in 0..n
            invariant
                n == self.items.len(),
                s.len() == self.items.len(),
                self@.len() == s.len(),
                forall|k: int|
                    0 <= k < s.len() ==> #[trigger] self@[k] == if k < i && s[k].id == id@ {
                        ItemView { source_icon_data_url: Some(icon@), ..s[k] }
                    } else {
                        s[k]
                    },
        {
            assert(self@[i as int] == self.items@[i as int]@);
            if str_equal(self.items[i].id.as_str(), id) {
                let ghost before = self@;
                let mut item = clone_item(&self.items[i]);
                item.source_icon_data_url = Some(owned(icon));
                self.items.set(i, item);
                proof {
                    assert forall|k: int| 0 <= k < s.len() implies #[trigger] self@[k] == if k < i + 1
                        && s[k].id == id@ {
                        ItemView { source_icon_data_url: Some(icon@), ..s[k] }
                    } else {
                        s[k]
                    } by {
                        if k != i {
                            assert(self@[k] == before[k]);
                        }
                    }
                }
            }
        }
        changed
    }

    /// The entries that a search finds, in list order, at most `limit` of them: every entry
    /// when the query is blank, else those whose preview, text or source application contains
    /// it (SQL `LIKE`, the query trimmed and lower-cased).
    pub fn list_history(&self, query: Option<&str>, limit: usize) -> (r: Vec<StoredClipboardItem>)
        ensures
            r@.map_values(|i: StoredClipboardItem| i@) == spec_list_history(
                self@,
                match query {
                    Some(q) => Some(q@),
                    None => None,
                },
                limit,
            ),
    {
        let all = self.list_all();
        let raw = match query {
            Some(q) => chars_of(q),
            None => Vec::new(),
        };
        let trimmed = trim_chars(&raw);
        let q = to_lowercase(string_from_chars(&trimmed).as_str());
        let qv = chars_of(q.as_str());
        let ghost qs = qv@;
        let ghost allv = all@.map_values(|i: StoredClipboardItem| i@);
        let ghost found = if qs.len() == 0 {
            allv
        } else {
            allv.filter(|i: ItemView| item_matches(i, qs))
        };
        let mut pattern: Vec<char> = Vec::new();
        pattern.push('%');
        push_chars(&mut pattern, &qv);
        pattern.push('%');
        assert(pattern@ =~= seq!['%'] + qs + seq!['%']);
        let mut out: Vec<StoredClipboardItem> = Vec::new();
        let mut k: usize = 0;
        while k < all.len()
            invariant
                k <= all.len(),
                allv == all@.map_values(|i: StoredClipboardItem| i@),
                pattern@ == seq!['%'] + qs + seq!['%'],
                qs == qv@,
                out@.map_values(|i: StoredClipboardItem| i@) == if qs.len() == 0 {
                    allv.take(k as int)
                } else {
                    allv.take(k as int).filter(|i: ItemView| item_matches(i, qs))
                },
            decreases all.len() - k,
        {
            let item = &all[k];
            proof {
                assert(allv[k as int] == item@);
                assert(allv.take(k + 1).drop_last() =~= allv.take(k as int));
                assert(allv.take(k + 1).last() == allv[k as int]);
                reveal(Seq::filter);
            }
            let keep = if qv.len() == 0 {
                true
            } else {
                let mut text = chars_of(item.preview.as_str());
                text.push('\n');
                if let Some(t) = &item.full_text {
                    let tv = chars_of(t.as_str());
                    push_chars(&mut text, &tv);
                }
                text.push('\n');
                if let Some(a) = &item.source_app {
                    let av = chars_of(a.as_str());
                    push_chars(&mut text, &av);
                }
                let lowered = lower_ascii_chars(&text);
                assert(lowered@ =~= search_text(item@));
                like(&pattern, &lowered)
            };
            let ghost before = out@.map_values(|i: StoredClipboardItem| i@);
            if keep {
                out.push(clone_item(item));
                assert(out@.map_values(|i: StoredClipboardItem| i@) =~= before.push(item@));
            }
            k += 1;
        }
        assert(allv.take(all.len() as int) =~= allv);
        assert(out@.map_values(|i: StoredClipboardItem| i@) == found);
        let mut limited: Vec<StoredClipboardItem> = Vec::new();
        let mut t: usize = 0;
        while t < out.len() && t < limit
            invariant
                t <= out.len(),
                t <= limit,
                limited@.map_values(|i: StoredClipboardItem| i@) == found.take(t as int),
                out@.map_values(|i: StoredClipboardItem| i@) == found,
            decreases out.len() - t,
        {
            limited.push(clone_item(&out[t]));
            assert(found.take(t + 1) =~= found.take(t as int).push(found[t as int]));
            assert(limited@.map_values(|i: StoredClipboardItem| i@) =~= found.take(t + 1));
            t += 1;
        }
        proof {
            let qview: Option<Seq<char>> = match query {
                Some(x) => Some(x@),
                None => None,
            };
            assert(raw@ == match qview {
                Some(x) => x,
                None => Seq::<char>::empty(),
            });
            assert(qs == search_query(qview));
            assert(allv == ordered(self@));
            if found.len() <= limit {
                assert(found.take(t as int) =~= found);
            } else {
                assert(out@.len() == found.len());
                assert(t == limit);
            }
        }
        limited
    }

    /// Removes the entries that satisfy a test, keeping the order of the others.
    fn retain_where(&mut self, id: Option<&str>)
        ensures
            final(self)@ == old(self)@.filter(kept_pred(match id {
                Some(x) => Some(x@),
                None => None,
            })),
    {
        let ghost idv = match id {
            Some(x) => Some(x@),
            None => None,
        };
        let ghost s = self@;
        let mut kept: Vec<StoredClipboardItem> = Vec::new();
        let mut items: Vec<StoredClipboardItem> = Vec::new();
        std::mem::swap(&mut items, &mut self.items);
        let mut i: usize = 0;
        while i < items.len()
            invariant
                items@.map_values(|x: StoredClipboardItem| x@) == s,
                idv == match id {
                    Some(x) => Some(x@),
                    None => None,
                },
                i <= items.len(),
                kept@.map_values(|x: StoredClipboardItem| x@) == s.take(i as int).filter(kept_pred(idv)),
            decreases items.len() - i,
        {
            let item = &items[i];
            proof {
                assert(s[i as int] == item@);
                assert(s.take(i + 1).drop_last() =~= s.take(i as int));
                assert(s.take(i + 1).last() == s[i as int]);
                reveal(Seq::filter);
                assert(s.take(i + 1).filter(kept_pred(idv)) == if kept_pred(idv)(s[i as int]) {
                    s.take(i as int).filter(kept_pred(idv)).push(s[i as int])
                } else {
                    s.take(i as int).filter(kept_pred(idv))
                });
            }
            let drop = match id {
                Some(x) => {
                    let d = str_equal(item.id.as_str(), x);
                    assert(idv == Some(x@));
                    assert(d == (s[i as int].id == x@));
                    d
                },
                None => {
                    assert(idv is None);
                    !item.pinned
                },
            };
            assert(drop == removes(s[i as int], idv));
            assert(kept_pred(idv)(s[i as int]) == !removes(s[i as int], idv));
            if !drop {
                let ghost before = kept@;
                kept.push(clone_item(item));
                proof {
                    assert(kept@.map_values(|x: StoredClipboardItem| x@) =~= before.map_values(
                        |x: StoredClipboardItem| x@,
                    ).push(item@));
                }
            }
            i += 1;
        }
        assert(s.take(s.len() as int) =~= s);
        self.items = kept;
    }

    /// Deletes the entries with the identifier.
    pub fn delete_item(&mut self, id: &str)
        ensures
            final(self)@ == old(self)@.filter(|i: ItemView| i.id != id@),
    {
        self.retain_where(Some(id));
        proof {
            assert(kept_pred(Some(id@)) =~= (|i: ItemView| i.id != id@));
        }
    }

    /// Removes every entry that is not pinned.
    pub fn clear_history(&mut self)
        ensures
            final(self)@ == old(self)@.filter(|i: ItemView| i.pinned),
    {
        self.retain_where(None);
        proof {
            assert(kept_pred(None) =~= (|i: ItemView| i.pinned));
        }
    }

    /// Replaces the text of a text entry: its rich formats are dropped, its preview and hash
    /// follow the new text, and it becomes the newest.
    pub fn update_text_item(&mut self, id: &str, text: &str, now: &str) -> (r: Result<(), AppError>)
        ensures
            ({
                let k = index_of_id(old(self)@, id@);
                &&& k < 0 ==> (r matches Err(e) && e.spec_message() == "Clipboard item not found"@
                    && final(self)@ == old(self)@)
                &&& k >= 0 && old(self)@[k].kind != "text"@ ==> (r matches Err(e) && e.spec_message()
                    == "Only text items can be edited"@ && final(self)@ == old(self)@)
                &&& k >= 0 && old(self)@[k].kind == "text"@ ==> r is Ok && final(self)@.len()
                    == old(self)@.len() && forall|j: int|
                    0 <= j < old(self)@.len() ==> #[trigger] final(self)@[j] == if old(self)@[j].id
                        == id@ {
                        edited_text(old(self)@[j], text@, now@)
                    } else {
                        old(self)@[j]
                    }
            }),
    {
        let found = self.get_item(id);
        let item = match found {
            Some(i) => i,
            None => {
                return Err(AppError::Message(owned("Clipboard item not found")));
            },
        };
        if !str_equal(item.kind.as_str(), "text") {
            return Err(AppError::Message(owned("Only text items can be edited")));
        }
        let preview = preview_text(text);
        let hash = sha256_hex(text.as_bytes());
        let ghost s = self@;
        let n = self.items.len();
        for i in 0..n
            invariant
                n == self.items.len(),
                s.len() == self.items.len(),
                self@.len() == s.len(),
                preview@ == spec_preview_text(text@),
                hash@ == spec_sha256_hex(encode_utf8(text@)),
                forall|k: int|
                    0 <= k < s.len() ==> #[trigger] self@[k] == if k < i && s[k].id == id@ {
                        edited_text(s[k], text@, now@)
                    } else {
                        s[k]
                    },
        {
            assert(self@[i as int] == self.items@[i as int]@);
            if str_equal(self.items[i].id.as_str(), id) {
                let ghost before = self@;
                let mut e = clone_item(&self.items[i]);
                e.full_text = Some(owned(text));
                e.html_text = None;
                e.rtf_text = None;
                e.preview = preview.clone();
                e.hash = hash.clone();
                e.created_at = owned(now);
                self.items.set(i, e);
                proof {
                    assert forall|k: int| 0 <= k < s.len() implies #[trigger] self@[k] == if k < i + 1
                        && s[k].id == id@ {
                        edited_text(s[k], text@, now@)
                    } else {
                        s[k]
                    } by {
                        if k != i {
                            assert(self@[k] == before[k]);
                        }
                    }
                }
            }
        }
        Ok(())
    }

    /// The entries in history order.
    pub fn list_all(&self) -> (r: Vec<StoredClipboardItem>)
        ensures
            r@.map_values(|i: StoredClipboardItem| i@) == ordered(self@),
    {
        let ghost s = self@;
        let mut out: Vec<StoredClipboardItem> = Vec::new();
        for i in 0..self.items.len()
            invariant
                s == self@,
                s.len() == self.items.len(),
                out@.map_values(|x: StoredClipboardItem| x@) == ordered(s.take(i as int)),
        {
            proof {
                assert(s.take(i + 1).drop_last() =~= s.take(i as int));
                assert(s.take(i + 1).last() == s[i as int]);
                assert(s[i as int] == self.items@[i as int]@);
            }
            let x = clone_item(&self.items[i]);
            insert_in_order(&mut out, x);
        }
        assert(s.take(s.len() as int) =~= s);
        out
    }
}

/// Whether an entry goes: the entry with the identifier, or every unpinned entry.
pub open spec fn removes(i: ItemView, id: Option<Seq<char>>) -> bool {
    match id {
        Some(x) => i.id == x,
        None => !i.pinned,
    }
}

/// The entries that stay.
pub open spec fn kept_pred(id: Option<Seq<char>>) -> spec_fn(ItemView) -> bool {
    |i: ItemView| !removes(i, id)
}

fn insert_in_order(out: &mut Vec<StoredClipboardItem>, x: StoredClipboardItem)
    ensures
        final(out)@.map_values(|v: StoredClipboardItem| v@) == insert_ordered(
            old(out)@.map_values(|v: StoredClipboardItem| v@),
            x@,
        ),
{
    let ghost orig = out@.map_values(|v: StoredClipboardItem| v@);
    let mut j: usize = 0;
    assert(orig.skip(0) =~= orig);
    assert(orig.take(0) =~= Seq::<ItemView>::empty());
    while j < out.len() && compare_items(&x, &out[j]) >= 0
        invariant
            orig == out@.map_values(|v: StoredClipboardItem| v@),
            j <= out.len(),
            insert_ordered(orig, x@) == orig.take(j as int) + insert_ordered(orig.skip(j as int), x@),
        decreases out.len() - j,
    {
        proof {
            let tail = orig.skip(j as int);
            assert(tail[0] == orig[j as int]);
            assert(orig[j as int] == out@[j as int]@);
            assert(tail.drop_first() =~= orig.skip(j + 1));
            assert(orig.take(j + 1) =~= orig.take(j as int) + seq![tail[0]]);
        }
        j += 1;
    }
    proof {
        if j < out.len() {
            assert(orig.skip(j as int)[0] == orig[j as int]);
            assert(orig[j as int] == out@[j as int]@);
        }
    }
    let ghost xv = x@;
    out.insert(j, x);
    proof {
        assert(out@.map_values(|v: StoredClipboardItem| v@) =~= orig.take(j as int) + (seq![xv]
            + orig.skip(j as int)));
        if j == orig.len() {
            assert(orig.skip(j as int) =~= Seq::<ItemView>::empty());
        }
    }
}

proof fn lemma_text_order_refl(a: Seq<char>)
    ensures
        text_order(a, a) == 0,
    decreases a.len(),
{
    if a.len() > 0 {
        lemma_text_order_refl(a.drop_first());
    }
}

proof fn lemma_text_order_trans(a: Seq<char>, b: Seq<char>, c: Seq<char>)
    requires
        text_order(a, b) < 0,
        text_order(b, c) < 0,
    ensures
        text_order(a, c) < 0,
    decreases a.len(),
{
    if a.len() > 0 && b.len() > 0 && c.len() > 0 && a[0] == b[0] && b[0] == c[0] {
        lemma_text_order_trans(a.drop_first(), b.drop_first(), c.drop_first());
    }
}

proof fn lemma_evicts_before_trans(a: ItemView, b: ItemView, c: ItemView)
    requires
        evicts_before(a, b),
        evicts_before(b, c),
    ensures
        evicts_before(a, c),
{
    if a.favorite == b.favorite && b.favorite == c.favorite {
        lemma_text_order_trans(a.created_at, b.created_at, c.created_at);
    }
}

/// The entry that trimming removes next is unpinned, and no unpinned entry goes out before it.
pub proof fn law_next_eviction_is_oldest_unpinned(s: Seq<ItemView>)
    ensures
        next_eviction(s) >= 0 ==> !s[next_eviction(s)].pinned && forall|j: int|
            0 <= j < s.len() && !(#[trigger] s[j]).pinned ==> !evicts_before(s[j], s[next_eviction(s)]),
        next_eviction(s) < 0 ==> forall|j: int| 0 <= j < s.len() ==> (#[trigger] s[j]).pinned,
    decreases s.len(),
{
    lemma_next_eviction_bounds(s);
    if s.len() > 0 {
        let init = s.drop_last();
        let x = s.last();
        law_next_eviction_is_oldest_unpinned(init);
        lemma_next_eviction_bounds(init);
        let b = next_eviction(init);
        assert forall|j: int| 0 <= j < init.len() implies #[trigger] init[j] == s[j] by {}
        assert(s[s.len() - 1] == x);
        lemma_text_order_refl(x.created_at);
        if next_eviction(s) >= 0 {
            let e = next_eviction(s);
            assert forall|j: int| 0 <= j < s.len() && !(#[trigger] s[j]).pinned implies !evicts_before(
                s[j],
                s[e],
            ) by {
                if j < init.len() {
                    assert(init[j] == s[j]);
                    if e == s.len() - 1 && b >= 0 {
                        assert(!evicts_before(init[j], init[b]));
                        if evicts_before(s[j], x) {
                            lemma_evicts_before_trans(s[j], x, init[b]);
                        }
                    }
                    if e == s.len() - 1 && b < 0 {
                        assert(init[j].pinned);
                    }
                } else {
                    if e < s.len() - 1 {
                        assert(s[e] == init[b]);
                    }
                }
            }
        }
    }
}

proof fn lemma_remove_keeps_pinned(s: Seq<ItemView>, k: int, x: ItemView)
    requires
        0 <= k < s.len(),
        !s[k].pinned,
        s.contains(x),
        x.pinned,
    ensures
        s.remove(k).contains(x),
{
    let j = choose|j: int| 0 <= j < s.len() && s[j] == x;
    assert(j != k);
    if j < k {
        assert(s.remove(k)[j] == x);
    } else {
        assert(s.remove(k)[j - 1] == x);
    }
}

/// Trimming never removes a pinned entry.
pub proof fn law_trim_keeps_pinned(s: Seq<ItemView>, n: nat, x: ItemView)
    requires
        s.contains(x),
        x.pinned,
    ensures
        evict(s, n).contains(x),
    decreases n,
{
    if n > 0 && next_eviction(s) >= 0 {
        lemma_next_eviction_bounds(s);
        lemma_remove_keeps_pinned(s, next_eviction(s), x);
        law_trim_keeps_pinned(s.remove(next_eviction(s)), (n - 1) as nat, x);
    }
}

/// Trimming by `n` removes exactly `n` entries, unless it runs out of unpinned entries and
/// only pinned ones remain.
pub proof fn law_trim_size(s: Seq<ItemView>, n: nat)
    requires
        n <= s.len(),
    ensures
        evict(s, n).len() == s.len() - n || forall|j: int|
            0 <= j < evict(s, n).len() ==> (#[trigger] evict(s, n)[j]).pinned,
    decreases n,
{
    lemma_next_eviction_bounds(s);
    if n > 0 && next_eviction(s) >= 0 {
        law_trim_size(s.remove(next_eviction(s)), (n - 1) as nat);
    }
}

proof fn lemma_evict_subset(s: Seq<ItemView>, n: nat, x: ItemView)
    requires
        evict(s, n).contains(x),
    ensures
        s.contains(x),
    decreases n,
{
    if n > 0 && next_eviction(s) >= 0 {
        let e = next_eviction(s);
        lemma_next_eviction_bounds(s);
        let rest = s.remove(e);
        lemma_evict_subset(rest, (n - 1) as nat, x);
        let j = choose|j: int| 0 <= j < rest.len() && rest[j] == x;
        if j < e {
            assert(s[j] == x);
        } else {
            assert(s[j + 1] == x);
        }
    }
}

/// Trimming takes out only unpinned entries, and the oldest of them: no unpinned entry that
/// stays would have gone out before one that was taken out. The identifiers that trimming
/// reports are those of the entries it took out, in order.
pub proof fn law_trim_removes_oldest_unpinned(s: Seq<ItemView>, n: nat)
    ensures
        forall|d: ItemView| #[trigger] evicted_items(s, n).contains(d) ==> !d.pinned,
        forall|d: ItemView, x: ItemView|
            #![trigger evicted_items(s, n).contains(d), evict(s, n).contains(x)]
            evicted_items(s, n).contains(d) && evict(s, n).contains(x) && !x.pinned
                ==> !evicts_before(x, d),
        evicted_ids(s, n) == evicted_items(s, n).map_values(|i: ItemView| i.id),
    decreases n,
{
    if n > 0 && next_eviction(s) >= 0 {
        let e = next_eviction(s);
        lemma_next_eviction_bounds(s);
        law_next_eviction_is_oldest_unpinned(s);
        let d0 = s[e];
        let rest = s.remove(e);
        let m = (n - 1) as nat;
        law_trim_removes_oldest_unpinned(rest, m);
        let items = evicted_items(s, n);
        assert(items == seq![d0] + evicted_items(rest, m));
        assert(evict(s, n) == evict(rest, m));
        assert forall|d: ItemView| #[trigger] items.contains(d) implies !d.pinned by {
            let i = choose|i: int| 0 <= i < items.len() && items[i] == d;
            if i > 0 {
                assert(evicted_items(rest, m)[i - 1] == d);
                assert(evicted_items(rest, m).contains(d));
            } else {
                assert(items[0] == d0);
            }
        }
        assert forall|d: ItemView, x: ItemView|
            items.contains(d) && evict(s, n).contains(x) && !x.pinned implies !evicts_before(x, d) by {
            let i = choose|i: int| 0 <= i < items.len() && items[i] == d;
            if i > 0 {
                assert(evicted_items(rest, m)[i - 1] == d);
                assert(evicted_items(rest, m).contains(d));
            } else {
                lemma_evict_subset(rest, m, x);
                let j = choose|j: int| 0 <= j < rest.len() && rest[j] == x;
                if j < e {
                    assert(s[j] == x);
                } else {
                    assert(s[j + 1] == x);
                }
            }
        }
        assert(evicted_ids(s, n) =~= items.map_values(|i: ItemView| i.id));
    } else {
        assert(evicted_ids(s, n) =~= evicted_items(s, n).map_values(|i: ItemView| i.id));
    }
}

/// Storing a capture and trimming to the limit, as `upsert_capture` does: every pinned entry is
/// still there under its identifier and still pinned; the history holds at most `max_items`
/// entries unless every entry left is pinned; every entry taken out was unpinned, and no
/// unpinned entry left would have gone out before it (ordinary before favourite, older before
/// newer).
pub proof fn law_upsert_keeps_pinned_and_trims_oldest(
    s: Seq<ItemView>,
    c: CaptureView,
    app: Option<Seq<char>>,
    icon: Option<Seq<char>>,
    now: Seq<char>,
    new_id: Seq<char>,
    max_items: usize,
)
    ensures
        ({
            let stored = spec_store_capture(s, c, app, icon, now, new_id);
            let n = overflow(stored.len(), max_items);
            let after = evict(stored, n);
            &&& forall|x: ItemView|
                #![trigger s.contains(x)]
                s.contains(x) && x.pinned ==> exists|y: ItemView|
                    #[trigger] after.contains(y) && y.id == x.id && y.pinned
            &&& (max_items as i64) >= 0 ==> (after.len() <= max_items || forall|j: int|
                0 <= j < after.len() ==> (#[trigger] after[j]).pinned)
            &&& forall|d: ItemView| #[trigger] evicted_items(stored, n).contains(d) ==> !d.pinned
            &&& forall|d: ItemView, y: ItemView|
                #![trigger evicted_items(stored, n).contains(d), after.contains(y)]
                evicted_items(stored, n).contains(d) && after.contains(y) && !y.pinned
                    ==> !evicts_before(y, d)
        }),
{
    let stored = spec_store_capture(s, c, app, icon, now, new_id);
    let n = overflow(stored.len(), max_items);
    let after = evict(stored, n);
    let k = first_match(s, spec_capture_hash(c), spec_capture_matching_text(c));
    lemma_first_match_bounds(s, spec_capture_hash(c), spec_capture_matching_text(c));
    assert forall|x: ItemView| s.contains(x) && x.pinned implies exists|y: ItemView|
        #[trigger] after.contains(y) && y.id == x.id && y.pinned by {
        let i = choose|i: int| 0 <= i < s.len() && s[i] == x;
        let y = stored[i];
        assert(y.id == x.id && y.pinned);
        assert(stored.contains(y));
        law_trim_keeps_pinned(stored, n, y);
    }
    if (max_items as i64) >= 0 {
        law_history_respects_limit(stored, max_items);
    }
    law_trim_removes_oldest_unpinned(stored, n);
}

/// After storing, the history holds at most `max` entries unless only pinned entries remain.
pub proof fn law_history_respects_limit(s: Seq<ItemView>, max_items: usize)
    requires
        (max_items as i64) >= 0,
    ensures
        evict(s, overflow(s.len(), max_items)).len() <= max_items || forall|j: int|
            0 <= j < evict(s, overflow(s.len(), max_items)).len() ==> (#[trigger] evict(
                s,
                overflow(s.len(), max_items),
            )[j]).pinned,
{
    law_trim_size(s, overflow(s.len(), max_items));
}

/// Storing a capture that matches an entry makes no new entry; and storing the same capture
/// twice leaves one entry for it.
pub proof fn law_store_deduplicates(
    s: Seq<ItemView>,
    c: CaptureView,
    app: Option<Seq<char>>,
    icon: Option<Seq<char>>,
    now: Seq<char>,
    now2: Seq<char>,
    id1: Seq<char>,
    id2: Seq<char>,
)
    ensures
        first_match(s, spec_capture_hash(c), spec_capture_matching_text(c)) >= 0
            ==> spec_store_capture(s, c, app, icon, now, id1).len() == s.len(),
        first_match(s, spec_capture_hash(c), spec_capture_matching_text(c)) < 0
            ==> spec_store_capture(s, c, app, icon, now, id1).len() == s.len() + 1,
        spec_store_capture(spec_store_capture(s, c, app, icon, now, id1), c, app, icon, now2, id2).len()
            == spec_store_capture(s, c, app, icon, now, id1).len(),
{
    let h = spec_capture_hash(c);
    let t = spec_capture_matching_text(c);
    lemma_first_match_bounds(s, h, t);
    let s1 = spec_store_capture(s, c, app, icon, now, id1);
    lemma_first_match_bounds(s1, h, t);
    let k = first_match(s, h, t);
    let stored_at = if k >= 0 {
        k
    } else {
        s.len() as int
    };
    assert(s1[stored_at].hash == h);
    if first_match(s1, h, t) < 0 {
        assert(!matches_capture(s1[stored_at], h, t));
    }
}

/// A pin toggled twice is back where it was.
pub proof fn law_toggle_pin_twice(i: ItemView, t1: Seq<char>, t2: Seq<char>)
    ensures
        toggled_pin(toggled_pin(i, t1), t2).pinned == i.pinned,
        !i.pinned ==> toggled_pin(i, t1).pinned_at == Some(t1),
        i.pinned ==> toggled_pin(i, t1).pinned_at is None,
{
}

/// Clearing the history leaves exactly its pinned entries, in their order.
pub proof fn law_clear_keeps_only_pinned(s: Seq<ItemView>, x: ItemView)
    ensures
        s.filter(|i: ItemView| i.pinned).contains(x) <==> (s.contains(x) && x.pinned),
{
    let p = |i: ItemView| i.pinned;
    if s.filter(p).contains(x) {
        s.lemma_filter_contains_rev(p, x);
        let j = choose|j: int| 0 <= j < s.filter(p).len() && s.filter(p)[j] == x;
        s.lemma_filter_pred(p, j);
    }
    if s.contains(x) && x.pinned {
        let j = choose|j: int| 0 <= j < s.len() && s[j] == x;
        s.lemma_filter_contains(p, j);
    }
}


/// The icon of the source application is looked up later only when the application has a
/// path or the capture brought an icon.
pub fn should_hydrate_source_icon(app_path: Option<&str>, icon_png_base64: Option<&str>) -> (r: bool)
    ensures
        r == !((app_path matches Some(p) ==> p@.len() == 0) && (icon_png_base64 matches Some(i) ==> i@.len()
            == 0)),
{
    let no_path = match app_path {
        Some(p) => p.is_empty(),
        None => true,
    };
    let no_icon = match icon_png_base64 {
        Some(i) => i.is_empty(),
        None => true,
    };
    !(no_path && no_icon)
}


/// The query a search runs with: trimmed, then lower-cased.
pub open spec fn search_query(query: Option<Seq<char>>) -> Seq<char> {
    unicode_lowercase(
        trim(
            match query {
                Some(q) => q,
                None => Seq::empty(),
            },
        ),
    )
}

/// What a search lists: the history in list order, narrowed to the matching entries unless
/// the query is blank, and at most `limit` entries of it.
pub open spec fn spec_list_history(s: Seq<ItemView>, query: Option<Seq<char>>, limit: usize) -> Seq<ItemView> {
    let q = search_query(query);
    let found = if q.len() == 0 {
        ordered(s)
    } else {
        ordered(s).filter(|i: ItemView| item_matches(i, q))
    };
    if found.len() <= limit {
        found
    } else {
        found.take(limit as int)
    }
}


/// A search lists at most `limit` entries, and with a query that is not blank every entry it
/// lists contains the query.
pub proof fn law_search_results_match(s: Seq<ItemView>, query: Option<Seq<char>>, limit: usize)
    ensures
        spec_list_history(s, query, limit).len() <= limit,
        search_query(query).len() > 0 ==> forall|k: int|
            0 <= k < spec_list_history(s, query, limit).len() ==> item_matches(
                #[trigger] spec_list_history(s, query, limit)[k],
                search_query(query),
            ),
{
    let q = search_query(query);
    let pred = |i: ItemView| item_matches(i, q);
    if q.len() > 0 {
        let found = ordered(s).filter(pred);
        assert forall|k: int| 0 <= k < spec_list_history(s, query, limit).len() implies item_matches(
            #[trigger] spec_list_history(s, query, limit)[k],
            q,
        ) by {
            assert(spec_list_history(s, query, limit)[k] == found[k]);
            ordered(s).lemma_filter_pred(pred, k);
        }
    }
}

proof fn lemma_text_order_antisym(a: Seq<char>, b: Seq<char>)
    ensures
        text_order(a, b) == -text_order(b, a),
        text_order(a, b) == 0 <==> a == b,
    decreases a.len(),
{
    if a.len() == 0 && b.len() == 0 {
        assert(a =~= b);
    }
    if a.len() > 0 && b.len() > 0 && a[0] == b[0] {
        lemma_text_order_antisym(a.drop_first(), b.drop_first());
        if a.drop_first() == b.drop_first() {
            assert forall|k: int| 0 <= k < a.len() implies a[k] == b[k] by {
                if k > 0 {
                    assert(a[k] == a.drop_first()[k - 1]);
                    assert(b[k] == b.drop_first()[k - 1]);
                }
            }
            assert(a =~= b);
        }
    }
    if a == b {
        lemma_text_order_refl(a);
    }
}

proof fn lemma_text_order_le_trans(a: Seq<char>, b: Seq<char>, c: Seq<char>)
    ensures
        text_order(a, b) <= 0 && text_order(b, c) <= 0 ==> text_order(a, c) <= 0,
        text_order(a, b) <= 0 && text_order(b, c) <= 0 && (text_order(a, b) < 0 || text_order(b, c) < 0)
            ==> text_order(a, c) < 0,
{
    lemma_text_order_antisym(a, b);
    lemma_text_order_antisym(b, c);
    lemma_text_order_antisym(a, c);
    if text_order(a, b) < 0 && text_order(b, c) < 0 {
        lemma_text_order_trans(a, b, c);
    }
}

proof fn lemma_item_order_antisym(a: ItemView, b: ItemView)
    ensures
        item_order(a, b) == -item_order(b, a),
{
    if a.pinned_at is Some && b.pinned_at is Some {
        lemma_text_order_antisym(a.pinned_at->0, b.pinned_at->0);
    }
    lemma_text_order_antisym(a.created_at, b.created_at);
}

proof fn lemma_item_order_trans(a: ItemView, b: ItemView, c: ItemView)
    requires
        item_order(a, b) <= 0,
        item_order(b, c) <= 0,
    ensures
        item_order(a, c) <= 0,
        (item_order(a, b) < 0 || item_order(b, c) < 0) ==> item_order(a, c) < 0,
{
    lemma_item_order_antisym(a, b);
    lemma_item_order_antisym(b, c);
    lemma_item_order_antisym(a, c);
    if a.pinned_at is Some && b.pinned_at is Some && c.pinned_at is Some {
        let (x, y, z) = (a.pinned_at->0, b.pinned_at->0, c.pinned_at->0);
        lemma_text_order_antisym(x, y);
        lemma_text_order_antisym(y, z);
        lemma_text_order_antisym(x, z);
        lemma_text_order_le_trans(z, y, x);
    }
    lemma_text_order_antisym(a.created_at, b.created_at);
    lemma_text_order_antisym(b.created_at, c.created_at);
    lemma_text_order_antisym(a.created_at, c.created_at);
    lemma_text_order_le_trans(c.created_at, b.created_at, a.created_at);
}

/// Whether every entry of the list comes no later than those after it in history order.
spec fn in_list_order(l: Seq<ItemView>) -> bool {
    forall|i: int, j: int| 0 <= i < j < l.len() ==> item_order(#[trigger] l[i], #[trigger] l[j]) <= 0
}

proof fn lemma_insert_ordered(s: Seq<ItemView>, x: ItemView) -> (k: int)
    ensures
        0 <= k <= s.len(),
        insert_ordered(s, x) == s.take(k).push(x) + s.skip(k),
        forall|i: int| 0 <= i < k ==> item_order(x, #[trigger] s[i]) >= 0,
        k < s.len() ==> item_order(x, s[k]) < 0,
    decreases s.len(),
{
    if s.len() == 0 {
        assert(insert_ordered(s, x) =~= s.take(0).push(x) + s.skip(0));
        0
    } else if item_order(x, s[0]) < 0 {
        assert(insert_ordered(s, x) =~= s.take(0).push(x) + s.skip(0));
        0
    } else {
        let t = s.drop_first();
        let k1 = lemma_insert_ordered(t, x);
        assert(insert_ordered(s, x) =~= s.take(k1 + 1).push(x) + s.skip(k1 + 1));
        assert forall|i: int| 0 <= i < k1 + 1 implies item_order(x, #[trigger] s[i]) >= 0 by {
            if i > 0 {
                assert(s[i] == t[i - 1]);
            }
        }
        if k1 < t.len() {
            assert(s[k1 + 1] == t[k1]);
        }
        k1 + 1
    }
}

proof fn lemma_insert_in_order(s: Seq<ItemView>, x: ItemView)
    requires
        in_list_order(s),
    ensures
        in_list_order(insert_ordered(s, x)),
        insert_ordered(s, x).len() == s.len() + 1,
        insert_ordered(s, x).contains(x),
        forall|i: int| 0 <= i < s.len() ==> insert_ordered(s, x).contains(#[trigger] s[i]),
{
    let k = lemma_insert_ordered(s, x);
    let r = insert_ordered(s, x);
    assert(r.len() == s.len() + 1);
    assert forall|i: int| 0 <= i < r.len() implies #[trigger] r[i] == if i < k {
        s[i]
    } else if i == k {
        x
    } else {
        s[i - 1]
    } by {}
    assert(r[k] == x);
    assert forall|i: int| 0 <= i < s.len() implies r.contains(#[trigger] s[i]) by {
        if i < k {
            assert(r[i] == s[i]);
        } else {
            assert(r[i + 1] == s[i]);
        }
    }
    assert forall|i: int, j: int| 0 <= i < j < r.len() implies item_order(#[trigger] r[i], #[trigger] r[j]) <= 0 by {
        if j < k {
            assert(item_order(s[i], s[j]) <= 0);
        } else if j == k {
            assert(item_order(x, s[i]) >= 0);
            lemma_item_order_antisym(s[i], x);
        } else if i < k {
            assert(item_order(s[i], s[j - 1]) <= 0);
        } else if i == k {
            if j - 1 > k {
                assert(item_order(s[k], s[j - 1]) <= 0);
                lemma_item_order_trans(x, s[k], s[j - 1]);
            }
        } else {
            assert(item_order(s[i - 1], s[j - 1]) <= 0);
        }
    }
}

proof fn lemma_ordered_in_order(s: Seq<ItemView>)
    ensures
        in_list_order(ordered(s)),
        ordered(s).len() == s.len(),
        forall|i: int| 0 <= i < s.len() ==> ordered(s).contains(#[trigger] s[i]),
    decreases s.len(),
{
    if s.len() > 0 {
        let init = s.drop_last();
        lemma_ordered_in_order(init);
        lemma_insert_in_order(ordered(init), s.last());
        let r = ordered(s);
        assert forall|i: int| 0 <= i < s.len() implies r.contains(#[trigger] s[i]) by {
            if i < init.len() {
                assert(init[i] == s[i]);
                assert(ordered(init).contains(init[i]));
                let m = choose|m: int| 0 <= m < ordered(init).len() && ordered(init)[m] == init[i];
                assert(r.contains(ordered(init)[m]));
            }
        }
    }
}

proof fn lemma_filter_in_order(s: Seq<ItemView>, pred: spec_fn(ItemView) -> bool)
    requires
        in_list_order(s),
    ensures
        in_list_order(s.filter(pred)),
        forall|i: int| 0 <= i < s.filter(pred).len() ==> s.contains(#[trigger] s.filter(pred)[i]),
    decreases s.len(),
{
    reveal(Seq::filter);
    if s.len() > 0 {
        let init = s.drop_last();
        assert forall|i: int, j: int| 0 <= i < j < init.len() implies item_order(#[trigger] init[i], #[trigger] init[j]) <= 0 by {
            assert(item_order(s[i], s[j]) <= 0);
        }
        lemma_filter_in_order(init, pred);
        let f = init.filter(pred);
        let out = s.filter(pred);
        assert forall|i: int| 0 <= i < f.len() implies s.contains(#[trigger] f[i]) by {
            assert(init.contains(f[i]));
            let m = choose|m: int| 0 <= m < init.len() && init[m] == f[i];
            assert(s[m] == f[i]);
        }
        if pred(s.last()) {
            assert(out == f.push(s.last()));
            assert forall|i: int, j: int| 0 <= i < j < out.len() implies item_order(#[trigger] out[i], #[trigger] out[j]) <= 0 by {
                if j < f.len() {
                    assert(out[i] == f[i] && out[j] == f[j]);
                } else {
                    assert(out[i] == f[i]);
                    assert(init.contains(f[i]));
                    let m = choose|m: int| 0 <= m < init.len() && init[m] == f[i];
                    assert(item_order(s[m], s[s.len() - 1]) <= 0);
                }
            }
            assert forall|i: int| 0 <= i < out.len() implies s.contains(#[trigger] out[i]) by {
                if i < f.len() {
                    assert(out[i] == f[i]);
                    assert(s.contains(f[i]));
                } else {
                    assert(out[i] == s[s.len() - 1]);
                }
            }
        }
    }
}

/// Whether `a` may stand before `b` in the history's list, field by field: a pinned entry
/// before an unpinned one; among pinned entries one with a pin time before one without, the
/// later pin time first; where pin and pin time agree, a favourite first; where those agree
/// too, the newer first.
pub open spec fn may_precede_in_list(a: ItemView, b: ItemView) -> bool {
    &&& b.pinned ==> a.pinned
    &&& (a.pinned && b.pinned && b.pinned_at is Some) ==> a.pinned_at is Some
    &&& (a.pinned && b.pinned && a.pinned_at is Some && b.pinned_at is Some && a.pinned_at
        != b.pinned_at) ==> text_order(a.pinned_at->0, b.pinned_at->0) > 0
    &&& (a.pinned == b.pinned && a.pinned_at == b.pinned_at && b.favorite) ==> a.favorite
    &&& (a.pinned == b.pinned && a.pinned_at == b.pinned_at && a.favorite == b.favorite
        && a.created_at != b.created_at) ==> text_order(a.created_at, b.created_at) > 0
}

/// Whether every entry of a list may stand before each entry after it.
pub open spec fn listed_in_history_order(l: Seq<ItemView>) -> bool {
    forall|i: int, j: int| 0 <= i < j < l.len() ==> may_precede_in_list(#[trigger] l[i], #[trigger] l[j])
}

proof fn lemma_in_order_fields(l: Seq<ItemView>)
    requires
        in_list_order(l),
    ensures
        listed_in_history_order(l),
{
    assert forall|i: int, j: int| 0 <= i < j < l.len() implies may_precede_in_list(#[trigger] l[i], #[trigger] l[j]) by {
        let (a, b) = (l[i], l[j]);
        assert(item_order(a, b) <= 0);
        if a.pinned_at is Some && b.pinned_at is Some {
            lemma_text_order_antisym(a.pinned_at->0, b.pinned_at->0);
        }
        lemma_text_order_antisym(a.created_at, b.created_at);
    }
}

/// The full list and every search list the history in its list order: pinned entries first,
/// the latest pinned first; then favourites; then the newest.
pub proof fn law_list_is_in_history_order(s: Seq<ItemView>, query: Option<Seq<char>>, limit: usize)
    ensures
        listed_in_history_order(ordered(s)),
        listed_in_history_order(spec_list_history(s, query, limit)),
{
    lemma_ordered_in_order(s);
    lemma_in_order_fields(ordered(s));
    let q = search_query(query);
    let found = if q.len() == 0 {
        ordered(s)
    } else {
        ordered(s).filter(|i: ItemView| item_matches(i, q))
    };
    if q.len() > 0 {
        lemma_filter_in_order(ordered(s), |i: ItemView| item_matches(i, q));
    }
    let r = spec_list_history(s, query, limit);
    assert forall|i: int, j: int| 0 <= i < j < r.len() implies item_order(#[trigger] r[i], #[trigger] r[j]) <= 0 by {
        assert(r[i] == found[i] && r[j] == found[j]);
    }
    lemma_in_order_fields(r);
}

proof fn lemma_like_any(t: Seq<char>)
    ensures
        like_match(seq!['%'], t),
    decreases t.len(),
{
    let p = seq!['%'];
    assert(p[0] == '%');
    assert(p.drop_first() =~= Seq::<char>::empty());
    if t.len() > 0 {
        lemma_like_any(t.drop_first());
    } else {
        assert(like_match(p.drop_first(), t));
    }
}

proof fn lemma_like_literal_then_any(q: Seq<char>, rest: Seq<char>)
    requires
        forall|k: int| 0 <= k < q.len() ==> #[trigger] q[k] != '%' && q[k] != '_',
    ensures
        like_match(q + seq!['%'], q + rest),
    decreases q.len(),
{
    if q.len() == 0 {
        assert(q + seq!['%'] =~= seq!['%']);
        assert(q + rest =~= rest);
        lemma_like_any(rest);
    } else {
        let p = q + seq!['%'];
        let t = q + rest;
        assert(p[0] == q[0] && t[0] == q[0]);
        assert(q[0] != '%');
        assert(p.drop_first() =~= q.drop_first() + seq!['%']);
        assert(t.drop_first() =~= q.drop_first() + rest);
        assert forall|k: int| 0 <= k < q.drop_first().len() implies #[trigger] q.drop_first()[k] != '%'
            && q.drop_first()[k] != '_' by {
            assert(q.drop_first()[k] == q[k + 1]);
        }
        lemma_like_literal_then_any(q.drop_first(), rest);
    }
}

proof fn lemma_like_any_then(p: Seq<char>, t: Seq<char>, at: int)
    requires
        0 <= at <= t.len(),
        like_match(p, t.skip(at)),
    ensures
        like_match(seq!['%'] + p, t),
    decreases at,
{
    let pp = seq!['%'] + p;
    assert(pp[0] == '%');
    assert(pp.drop_first() =~= p);
    if at == 0 {
        assert(t.skip(0) =~= t);
    } else {
        assert(t.drop_first().skip(at - 1) =~= t.skip(at));
        lemma_like_any_then(p, t.drop_first(), at - 1);
    }
}

proof fn lemma_search_finds_at(s: Seq<ItemView>, query: Option<Seq<char>>, limit: usize, x: ItemView, pos: int)
    requires
        s.contains(x),
        s.len() <= limit,
        forall|k: int|
            0 <= k < search_query(query).len() ==> #[trigger] search_query(query)[k] != '%'
                && search_query(query)[k] != '_',
        0 <= pos,
        pos + search_query(query).len() <= search_text(x).len(),
        forall|k: int| 0 <= k < search_query(query).len() ==> #[trigger] search_text(x)[pos + k] == search_query(query)[k],
    ensures
        spec_list_history(s, query, limit).contains(x),
{
    let q = search_query(query);
    let t = search_text(x);
    let n = q.len();
    assert forall|k: int| 0 <= k < n implies #[trigger] t.skip(pos)[k] == q[k] by {
        assert(search_text(x)[pos + k] == search_query(query)[k]);
    }
    assert(t.skip(pos) =~= q + t.skip(pos + n));
    lemma_like_literal_then_any(q, t.skip(pos + n));
    lemma_like_any_then(q + seq!['%'], t, pos);
    assert(seq!['%'] + q + seq!['%'] =~= seq!['%'] + (q + seq!['%']));
    assert(item_matches(x, q));
    lemma_ordered_in_order(s);
    let i = choose|i: int| 0 <= i < s.len() && s[i] == x;
    assert(ordered(s).contains(s[i]));
    let m = choose|m: int| 0 <= m < ordered(s).len() && ordered(s)[m] == x;
    let pred = |it: ItemView| item_matches(it, q);
    if n > 0 {
        ordered(s).lemma_filter_contains(pred, m);
        ordered(s).lemma_filter_len(pred);
    }
}

/// The text of an optional field, empty when it is absent.
pub open spec fn field_text(f: Option<Seq<char>>) -> Seq<char> {
    match f {
        Some(t) => t,
        None => Seq::empty(),
    }
}

/// A search finds every entry whose preview, full text or source application holds the query:
/// when the trimmed, lower-cased query has no `%` or `_`, appears in one of those fields in
/// ASCII lower case, and the limit is at least the number of entries, the entry is among the
/// results.
pub proof fn law_search_finds_matching_fields(
    s: Seq<ItemView>,
    query: Option<Seq<char>>,
    limit: usize,
    x: ItemView,
    field: Seq<char>,
    at: int,
)
    requires
        s.contains(x),
        s.len() <= limit,
        field == x.preview || field == field_text(x.full_text) || field == field_text(x.source_app),
        forall|k: int|
            0 <= k < search_query(query).len() ==> #[trigger] search_query(query)[k] != '%'
                && search_query(query)[k] != '_',
        0 <= at,
        at + search_query(query).len() <= field.len(),
        ascii_lower_seq(field).subrange(at, at + search_query(query).len()) == search_query(query),
    ensures
        spec_list_history(s, query, limit).contains(x),
{
    let q = search_query(query);
    let n = q.len();
    let t = search_text(x);
    let pv = x.preview;
    let ft = field_text(x.full_text);
    let ap = field_text(x.source_app);
    let joined = pv + seq!['\n'] + ft + seq!['\n'] + ap;
    assert(t == ascii_lower_seq(joined));
    let off = if field == pv {
        0
    } else if field == ft {
        pv.len() + 1
    } else {
        pv.len() + 1 + ft.len() + 1
    };
    assert forall|k: int| 0 <= k < n implies #[trigger] t[off + at + k] == q[k] by {
        assert(ascii_lower_seq(field).subrange(at, at + n)[k] == ascii_lower_seq(field)[at + k]);
        assert(joined[off + at + k] == field[at + k]);
    }
    lemma_search_finds_at(s, query, limit, x, off + at);
}

proof fn lemma_trim_start_first(s: Seq<char>)
    ensures
        crate::text::trim_start(s).len() > 0 ==> !crate::text::is_ws(crate::text::trim_start(s)[0]),
    decreases s.len(),
{
    if s.len() > 0 && crate::text::is_ws(s[0]) {
        lemma_trim_start_first(s.drop_first());
    }
}

proof fn lemma_trim_end_shape(s: Seq<char>)
    ensures
        crate::text::trim_end(s).len() <= s.len(),
        forall|k: int| 0 <= k < crate::text::trim_end(s).len() ==> #[trigger] crate::text::trim_end(s)[k] == s[k],
        crate::text::trim_end(s).len() > 0 ==> !crate::text::is_ws(crate::text::trim_end(s).last()),
    decreases s.len(),
{
    if s.len() > 0 && crate::text::is_ws(s.last()) {
        lemma_trim_end_shape(s.drop_last());
    }
}

proof fn lemma_trim_idempotent(s: Seq<char>)
    ensures
        trim(trim(s)) == trim(s),
{
    let a = crate::text::trim_start(s);
    lemma_trim_start_first(s);
    lemma_trim_end_shape(a);
    let u = crate::text::trim_end(a);
    assert(u == trim(s));
    if u.len() > 0 {
        assert(u[0] == a[0]);
        assert(crate::text::trim_start(u) == u);
        assert(crate::text::trim_end(u) == u);
    } else {
        assert(crate::text::trim_start(u) == u);
        assert(crate::text::trim_end(u) == u);
    }
}

/// Whitespace around a query changes nothing: searching for a query lists the same entries as
/// searching for it trimmed.
pub proof fn law_search_ignores_surrounding_whitespace(s: Seq<ItemView>, q: Seq<char>, limit: usize)
    ensures
        spec_list_history(s, Some(q), limit) == spec_list_history(s, Some(trim(q)), limit),
{
    lemma_trim_idempotent(q);
}

} // verus!



