//! The event worker: how the events of the API and of the feed combine, the
//! order it stores them in, and what it announces.

use vstd::prelude::*;
use crate::text::chars_of;
use crate::num::{parse_int, parse_u64};
use crate::time::Timestamp;

verus! {

// ── Settings ────────────────────────────────────────────────────────────────

/// The pause after fetching the page of an event, in milliseconds: the setting
/// when it reads as a `u64`, otherwise 500.
pub fn scraper_delay(value: Option<&str>) -> (r: u64)
    ensures
        r == match value {
            Some(v) => match parse_int(v@, 10, false, 0, u64::MAX as int) {
                Some(n) => n as u64,
                None => 500u64,
            },
            None => 500u64,
        },
{
    match value {
        Some(v) => match parse_u64(&chars_of(v)) {
            Some(n) => n,
            None => 500,
        },
        None => 500,
    }
}

/// Only events with a positive id have a page to read details from.
pub fn should_enrich(ctftime_id: i64) -> (r: bool)
    ensures
        r == (ctftime_id > 0),
{
    ctftime_id > 0
}

// ── Combining the two sources ───────────────────────────────────────────────

/// One event after combining: its id, where its first version comes from (the
/// API's list, or the feed's when the API has none), and the feed's versions
/// merged into it, in order.
pub struct MergedEvent {
    pub id: i64,
    pub from_feed: bool,
    pub base: usize,
    pub merged: Vec<usize>,
}

/// The last place of `id` in `ids`.
pub open spec fn last_index(ids: Seq<i64>, id: i64) -> Option<int>
    decreases ids.len(),
{
    if ids.len() == 0 {
        None
    } else if ids.last() == id {
        Some(ids.len() - 1)
    } else {
        last_index(ids.drop_last(), id)
    }
}

/// The places of `id` in `ids`, from `start` on, in order.
pub open spec fn places_from(ids: Seq<i64>, id: i64, start: int) -> Seq<int>
    decreases ids.len() - start,
{
    if start >= ids.len() || start < 0 {
        seq![]
    } else if ids[start] == id {
        seq![start] + places_from(ids, id, start + 1)
    } else {
        places_from(ids, id, start + 1)
    }
}

/// How the events of `id` combine: the last of the API's becomes the event
/// (a later one replaces an earlier), and each of the feed's is merged into
/// it in order; when the API has none, the feed's first becomes the event and
/// its later ones are merged into it.
pub open spec fn merged_ok(api: Seq<i64>, feed: Seq<i64>, m: MergedEvent) -> bool {
    match last_index(api, m.id) {
        Some(k) => !m.from_feed && m.base == k && m.merged@.len() == places_from(feed, m.id, 0).len()
            && forall|j: int| 0 <= j < m.merged@.len() ==> m.merged@[j] as int == places_from(feed, m.id, 0)[j],
        None => {
            let ps = places_from(feed, m.id, 0);
            &&& ps.len() > 0
            &&& m.from_feed
            &&& m.base as int == ps[0]
            &&& m.merged@.len() == ps.len() - 1
            &&& forall|j: int| 0 <= j < m.merged@.len() ==> m.merged@[j] as int == ps[j + 1]
        },
    }
}

pub open spec fn ids_of(ms: Seq<MergedEvent>) -> Seq<i64> {
    Seq::new(ms.len(), |i: int| ms[i].id)
}

proof fn lemma_places_from_bounds(ids: Seq<i64>, id: i64, start: int)
    requires
        0 <= start,
    ensures
        forall|j: int| 0 <= j < places_from(ids, id, start).len() ==> start <= #[trigger] places_from(ids, id, start)[j] < ids.len()
            && ids[places_from(ids, id, start)[j]] == id,
        forall|k: int| start <= k < ids.len() && ids[k] == id ==> places_from(ids, id, start).contains(k),
    decreases ids.len() - start,
{
    if start < ids.len() {
        lemma_places_from_bounds(ids, id, start + 1);
        let rest = places_from(ids, id, start + 1);
        if ids[start] == id {
            let ps = seq![start] + rest;
            assert forall|k: int| start <= k < ids.len() && ids[k] == id implies ps.contains(k) by {
                if k == start {
                    assert(ps[0] == start);
                } else {
                    assert(rest.contains(k));
                    let j = choose|j: int| 0 <= j < rest.len() && rest[j] == k;
                    assert(ps[j + 1] == k);
                }
            }
        }
    }
}

/// The places of `id` in the feed, from `start` on.
fn feed_places(feed: &Vec<i64>, id: i64, start: usize) -> (r: Vec<usize>)
    requires
        start <= feed.len(),
    ensures
        r@.len() == places_from(feed@, id, start as int).len(),
        forall|j: int| 0 <= j < r@.len() ==> r@[j] as int == places_from(feed@, id, start as int)[j],
{
    let mut out: Vec<usize> = Vec::new();
    let mut k: usize = feed.len();
    let ghost full = places_from(feed@, id, start as int);
    // Walk backwards, prepending, so that `out` holds the places from `k` on.
    while k > start
        invariant
            start <= k <= feed.len(),
            out@.len() == places_from(feed@, id, k as int).len(),
            forall|j: int| 0 <= j < out@.len() ==> out@[j] as int == places_from(feed@, id, k as int)[j],
        decreases k - start,
    {
        k = k - 1;
        if feed[k] == id {
            let ghost before = out@;
            out.insert(0, k);
            assert(places_from(feed@, id, k as int) == seq![k as int] + places_from(feed@, id, k + 1));
            assert forall|j: int| 0 <= j < out@.len() implies out@[j] as int == places_from(feed@, id, k as int)[j] by {
                if j > 0 {
                    assert(out@[j] == before[j - 1]);
                }
            }
        }
    }
    out
}

fn last_place(ids: &Vec<i64>, id: i64) -> (r: Option<usize>)
    ensures
        match last_index(ids@, id) {
            Some(k) => r matches Some(x) && x as int == k,
            None => r is None,
        },
{
    let mut i: usize = ids.len();
    assert(ids@.take(i as int) == ids@);
    while i > 0
        invariant
            i <= ids.len(),
            last_index(ids@, id) == last_index(ids@.take(i as int), id),
        decreases i,
    {
        assert(ids@.take(i as int).last() == ids@[i - 1]);
        assert(ids@.take(i as int).drop_last() == ids@.take(i - 1));
        if ids[i - 1] == id {
            return Some(i - 1);
        }
        i = i - 1;
    }
    None
}

fn known(ids: &Vec<i64>, id: i64) -> (r: bool)
    ensures
        r == ids@.contains(id),
{
    let mut i: usize = 0;
    while i < ids.len()
        invariant
            i <= ids.len(),
            forall|j: int| 0 <= j < i ==> ids@[j] != id,
        decreases ids.len() - i,
    {
        if ids[i] == id {
            assert(ids@[i as int] == id);
            return true;
        }
        i = i + 1;
    }
    false
}

proof fn lemma_last_index(ids: Seq<i64>, id: i64)
    ensures
        last_index(ids, id) is Some <==> ids.contains(id),
        last_index(ids, id) matches Some(k) ==> 0 <= k < ids.len() && ids[k] == id,
    decreases ids.len(),
{
    if ids.len() > 0 {
        lemma_last_index(ids.drop_last(), id);
        if ids.drop_last().contains(id) {
            let j = choose|j: int| 0 <= j < ids.drop_last().len() && ids.drop_last()[j] == id;
            assert(ids[j] == id);
        }
        if ids.contains(id) && ids.last() != id {
            let j = choose|j: int| 0 <= j < ids.len() && ids[j] == id;
            assert(ids.drop_last()[j] == id);
        }
    }
}

/// The distinct values of `s`, in the order they first occur.
pub open spec fn firsts(s: Seq<i64>) -> Seq<i64>
    decreases s.len(),
{
    if s.len() == 0 {
        seq![]
    } else if s.drop_last().contains(s.last()) {
        firsts(s.drop_last())
    } else {
        firsts(s.drop_last()).push(s.last())
    }
}

proof fn lemma_firsts(s: Seq<i64>)
    ensures
        forall|x: i64| #[trigger] firsts(s).contains(x) <==> s.contains(x),
        forall|a: int, b: int| 0 <= a < b < firsts(s).len() ==> firsts(s)[a] != firsts(s)[b],
    decreases s.len(),
{
    if s.len() > 0 {
        let p = s.drop_last();
        lemma_firsts(p);
        assert forall|x: i64| #[trigger] firsts(s).contains(x) <==> s.contains(x) by {
            if s.contains(x) && x != s.last() {
                let j = choose|j: int| 0 <= j < s.len() && s[j] == x;
                assert(p[j] == x);
            }
            if p.contains(x) {
                let j = choose|j: int| 0 <= j < p.len() && p[j] == x;
                assert(s[j] == x);
            }
            if !p.contains(s.last()) {
                assert(firsts(s) == firsts(p).push(s.last()));
                if firsts(p).contains(x) {
                    let j = choose|j: int| 0 <= j < firsts(p).len() && firsts(p)[j] == x;
                    assert(firsts(s)[j] == x);
                }
                if firsts(s).contains(x) && x != s.last() {
                    let j = choose|j: int| 0 <= j < firsts(s).len() && firsts(s)[j] == x;
                    assert(firsts(p)[j] == x);
                }
                if x == s.last() {
                    assert(firsts(s)[firsts(s).len() - 1] == x);
                    assert(s[s.len() - 1] == x);
                }
            }
        }
        if !p.contains(s.last()) {
            assert(!firsts(p).contains(s.last()));
            assert forall|a: int, b: int| 0 <= a < b < firsts(s).len() implies firsts(s)[a] != firsts(s)[b] by {
                if b == firsts(s).len() - 1 {
                    assert(firsts(s)[a] == firsts(p)[a]);
                    assert(firsts(s)[b] == s.last());
                } else {
                    assert(firsts(s)[a] == firsts(p)[a]);
                    assert(firsts(s)[b] == firsts(p)[b]);
                }
            }
        }
    }
}

/// Adds the event of `id` unless its id was seen; `prefix` holds the ids read
/// before this one, and `feed_pos` is the place of this one in the feed when
/// it comes from there.
fn add_if_new(api: &Vec<i64>, feed: &Vec<i64>, id: i64, feed_pos: Option<usize>,
    out: &mut Vec<MergedEvent>, seen: &mut Vec<i64>, Ghost(prefix): Ghost<Seq<i64>>)
    requires
        old(seen)@ == ids_of(old(out)@),
        old(seen)@ == firsts(prefix),
        forall|k: int| 0 <= k < old(out)@.len() ==> merged_ok(api@, feed@, #[trigger] old(out)@[k]),
        feed_pos is None ==> api@.contains(id),
        feed_pos matches Some(f) ==> f < feed.len() && feed@[f as int] == id
            && forall|k: int| 0 <= k < f ==> prefix.contains(#[trigger] feed@[k]),
    ensures
        final(seen)@ == ids_of(final(out)@),
        final(seen)@ == firsts(prefix.push(id)),
        forall|k: int| 0 <= k < final(out)@.len() ==> merged_ok(api@, feed@, #[trigger] final(out)@[k]),
{
    proof {
        lemma_firsts(prefix);
        assert(prefix.push(id).drop_last() == prefix);
        assert(prefix.push(id).last() == id);
    }
    if known(seen, id) {
        return;
    }
    let ev = match last_place(api, id) {
        Some(k) => {
            let merged = feed_places(feed, id, 0);
            let ev = MergedEvent { id, from_feed: false, base: k, merged };
            proof {
                lemma_last_index(api@, id);
            }
            assert(merged_ok(api@, feed@, ev));
            ev
        },
        None => {
            proof { lemma_last_index(api@, id); }
            let f = match feed_pos {
                Some(f) => f,
                None => { return; },
            };
            proof {
                assert forall|k: int| 0 <= k < f implies feed@[k] != id by {
                    if feed@[k] == id {
                        assert(prefix.contains(feed@[k]));
                    }
                }
                lemma_places_skip(feed@, id, 0, f as int);
            }
            let rest = feed_places(feed, id, f + 1);
            let ev = MergedEvent { id, from_feed: true, base: f, merged: rest };
            proof {
                let ps = places_from(feed@, id, 0);
                assert(ps[0] == f as int);
                assert forall|j: int| 0 <= j < ev.merged@.len() implies ev.merged@[j] as int == ps[j + 1] by {
                    assert(ps[j + 1] == places_from(feed@, id, f + 1)[j]);
                }
            }
            assert(merged_ok(api@, feed@, ev));
            ev
        },
    };
    let ghost before = out@;
    out.push(ev);
    seen.push(id);
    assert(ids_of(out@) =~= ids_of(before).push(id));
    assert forall|k: int| 0 <= k < out@.len() implies merged_ok(api@, feed@, #[trigger] out@[k]) by {
        if k < before.len() {
            assert(out@[k] == before[k]);
        }
    }
}

/// Combines the events of the API and of the feed by id: every id of either
/// source gives exactly one event, in the order the ids first occur.
pub fn merge_by_id(api: &Vec<i64>, feed: &Vec<i64>) -> (r: Vec<MergedEvent>)
    ensures
        forall|i: int| 0 <= i < r@.len() ==> merged_ok(api@, feed@, #[trigger] r@[i]),
        ids_of(r@) == firsts(api@ + feed@),
        forall|i: int, j: int| 0 <= i < j < r@.len() ==> r@[i].id != r@[j].id,
        forall|id: i64| #[trigger] ids_of(r@).contains(id) <==> (api@.contains(id) || feed@.contains(id)),
{
    let mut out: Vec<MergedEvent> = Vec::new();
    let mut seen: Vec<i64> = Vec::new();
    let mut i: usize = 0;
    assert(api@.take(0) =~= Seq::<i64>::empty());
    while i < api.len()
        invariant
            i <= api.len(),
            seen@ == ids_of(out@),
            seen@ == firsts(api@.take(i as int)),
            forall|k: int| 0 <= k < out@.len() ==> merged_ok(api@, feed@, #[trigger] out@[k]),
        decreases api.len() - i,
    {
        assert(api@.contains(api@[i as int]));
        add_if_new(api, feed, api[i], None, &mut out, &mut seen, Ghost(api@.take(i as int)));
        assert(api@.take(i + 1) == api@.take(i as int).push(api@[i as int]));
        i = i + 1;
    }
    assert(api@.take(api.len() as int) == api@);
    let mut j: usize = 0;
    assert(api@ + feed@.take(0) =~= api@);
    while j < feed.len()
        invariant
            j <= feed.len(),
            seen@ == ids_of(out@),
            seen@ == firsts(api@ + feed@.take(j as int)),
            forall|k: int| 0 <= k < out@.len() ==> merged_ok(api@, feed@, #[trigger] out@[k]),
        decreases feed.len() - j,
    {
        let ghost prefix = api@ + feed@.take(j as int);
        assert forall|k: int| 0 <= k < j implies prefix.contains(#[trigger] feed@[k]) by {
            assert(prefix[api@.len() + k] == feed@[k]);
        }
        add_if_new(api, feed, feed[j], Some(j), &mut out, &mut seen, Ghost(prefix));
        assert(api@ + feed@.take(j + 1) =~= prefix.push(feed@[j as int]));
        j = j + 1;
    }
    proof {
        let c = api@ + feed@;
        assert(api@ + feed@.take(feed.len() as int) =~= c);
        lemma_firsts(c);
        assert forall|id: i64| #[trigger] ids_of(out@).contains(id) <==> (api@.contains(id) || feed@.contains(id)) by {
            if api@.contains(id) {
                let k = choose|k: int| 0 <= k < api@.len() && api@[k] == id;
                assert(c[k] == id);
            }
            if feed@.contains(id) {
                let k = choose|k: int| 0 <= k < feed@.len() && feed@[k] == id;
                assert(c[api@.len() + k] == id);
            }
            if c.contains(id) {
                let k = choose|k: int| 0 <= k < c.len() && c[k] == id;
                if k < api@.len() { assert(api@[k] == id); } else { assert(feed@[k - api@.len()] == id); }
            }
        }
        assert forall|a: int, b: int| 0 <= a < b < out@.len() implies out@[a].id != out@[b].id by {
            assert(ids_of(out@)[a] == out@[a].id);
            assert(ids_of(out@)[b] == out@[b].id);
        }
    }
    out
}

proof fn lemma_places_skip(ids: Seq<i64>, id: i64, start: int, first: int)
    requires
        0 <= start <= first < ids.len(),
        ids[first] == id,
        forall|k: int| start <= k < first ==> ids[k] != id,
    ensures
        places_from(ids, id, start) == seq![first] + places_from(ids, id, first + 1),
    decreases first - start,
{
    if start < first {
        lemma_places_skip(ids, id, start + 1, first);
    }
}

// ── Ordering by start ────────────────────────────────────────────────────────

/// Text order: by the first differing character, a prefix first (the order of
/// `String`).
pub open spec fn text_lt(a: Seq<char>, b: Seq<char>) -> bool
    decreases a.len(),
{
    if a.len() == 0 {
        b.len() > 0
    } else if b.len() == 0 {
        false
    } else if a[0] != b[0] {
        (a[0] as int) < (b[0] as int)
    } else {
        text_lt(a.drop_first(), b.drop_first())
    }
}

pub proof fn lemma_text_lt_irreflexive(a: Seq<char>)
    ensures
        !text_lt(a, a),
    decreases a.len(),
{
    if a.len() > 0 {
        lemma_text_lt_irreflexive(a.drop_first());
    }
}

pub proof fn lemma_text_lt_transitive(a: Seq<char>, b: Seq<char>, c: Seq<char>)
    requires
        text_lt(a, b),
        text_lt(b, c),
    ensures
        text_lt(a, c),
    decreases a.len(),
{
    if a.len() > 0 && b.len() > 0 && c.len() > 0 && a[0] == b[0] && b[0] == c[0] {
        lemma_text_lt_transitive(a.drop_first(), b.drop_first(), c.drop_first());
    }
}

pub proof fn lemma_text_lt_total(a: Seq<char>, b: Seq<char>)
    requires
        a != b,
    ensures
        text_lt(a, b) || text_lt(b, a),
    decreases a.len(),
{
    if a.len() > 0 && b.len() > 0 && a[0] == b[0] {
        if a.drop_first() == b.drop_first() {
            assert(a =~= seq![a[0]] + a.drop_first());
            assert(b =~= seq![b[0]] + b.drop_first());
        }
        lemma_text_lt_total(a.drop_first(), b.drop_first());
    } else if a.len() == 0 && b.len() == 0 {
        assert(a =~= b);
    }
}

/// Compares two texts in text order.
pub fn text_less(a: &Vec<char>, b: &Vec<char>) -> (r: bool)
    ensures
        r == text_lt(a@, b@),
{
    let mut i: usize = 0;
    assert(a@.skip(0) == a@);
    assert(b@.skip(0) == b@);
    while i < a.len() && i < b.len() && a[i] == b[i]
        invariant
            i <= a.len(),
            i <= b.len(),
            text_lt(a@, b@) == text_lt(a@.skip(i as int), b@.skip(i as int)),
        decreases a.len() - i,
    {
        assert(a@.skip(i as int).drop_first() == a@.skip(i + 1));
        assert(b@.skip(i as int).drop_first() == b@.skip(i + 1));
        i = i + 1;
    }
    if i == a.len() {
        i < b.len()
    } else if i == b.len() {
        false
    } else {
        assert(a@.skip(i as int)[0] == a@[i as int]);
        assert(b@.skip(i as int)[0] == b@[i as int]);
        a[i] < b[i]
    }
}

/// Event `x` comes before event `y`: an earlier start, or the same start and
/// an earlier place.
pub open spec fn starts_before(keys: Seq<Seq<char>>, x: int, y: int) -> bool {
    text_lt(keys[x], keys[y]) || (keys[x] == keys[y] && x < y)
}

pub open spec fn key_views(keys: Seq<String>) -> Seq<Seq<char>> {
    Seq::new(keys.len(), |i: int| keys[i]@)
}

/// The places of the events in the order they are stored: by start, events of
/// the same start in the order given (a stable sort). Every place occurs
/// exactly once.
pub fn start_order(starts: &Vec<String>) -> (o: Vec<usize>)
    ensures
        o.len() == starts.len(),
        forall|i: int| 0 <= i < o.len() ==> o@[i] < starts.len(),
        forall|k: usize| k < starts.len() ==> #[trigger] o@.contains(k),
        forall|i: int, j: int| 0 <= i < j < o.len() ==> starts_before(key_views(starts@), #[trigger] o@[i] as int, #[trigger] o@[j] as int),
{
    let ghost keys = key_views(starts@);
    let mut chars: Vec<Vec<char>> = Vec::new();
    let mut c: usize = 0;
    while c < starts.len()
        invariant
            c <= starts.len(),
            keys == key_views(starts@),
            chars.len() == c,
            forall|m: int| 0 <= m < c ==> (#[trigger] chars@[m])@ == keys[m],
        decreases starts.len() - c,
    {
        chars.push(chars_of(starts[c].as_str()));
        c = c + 1;
    }
    let mut o: Vec<usize> = Vec::new();
    let mut i: usize = 0;
    while i < starts.len()
        invariant
            i <= starts.len(),
            keys == key_views(starts@),
            chars.len() == starts.len(),
            forall|m: int| 0 <= m < starts.len() ==> (#[trigger] chars@[m])@ == keys[m],
            o.len() == i,
            forall|m: int| 0 <= m < o.len() ==> o@[m] < i,
            forall|k: usize| k < i ==> #[trigger] o@.contains(k),
            forall|a: int, b: int| 0 <= a < b < o.len() ==> starts_before(keys, #[trigger] o@[a] as int, #[trigger] o@[b] as int),
        decreases starts.len() - i,
    {
        let mut p: usize = 0;
        while p < o.len() && !text_less(&chars[i], &chars[o[p]])
            invariant
                p <= o.len(),
                o.len() == i < starts.len(),
                chars.len() == starts.len(),
                forall|m: int| 0 <= m < starts.len() ==> (#[trigger] chars@[m])@ == keys[m],
                forall|m: int| 0 <= m < o.len() ==> o@[m] < i,
                forall|m: int| 0 <= m < p ==> !text_lt(keys[i as int], keys[#[trigger] o@[m] as int]),
            decreases o.len() - p,
        {
            p = p + 1;
        }
        let ghost old_o = o@;
        proof {
            if p < old_o.len() {
                assert(text_lt(keys[i as int], keys[old_o[p as int] as int]));
                assert forall|m: int| p <= m < old_o.len() implies text_lt(keys[i as int], keys[#[trigger] old_o[m] as int]) by {
                    if m > p {
                        assert(starts_before(keys, old_o[p as int] as int, old_o[m] as int));
                        if text_lt(keys[old_o[p as int] as int], keys[old_o[m] as int]) {
                            lemma_text_lt_transitive(keys[i as int], keys[old_o[p as int] as int], keys[old_o[m] as int]);
                        }
                    }
                }
            }
            assert forall|m: int| 0 <= m < p implies starts_before(keys, #[trigger] old_o[m] as int, i as int) by {
                assert(!text_lt(keys[i as int], keys[old_o[m] as int]));
                if keys[old_o[m] as int] != keys[i as int] {
                    lemma_text_lt_total(keys[old_o[m] as int], keys[i as int]);
                }
            }
        }
        o.insert(p, i);
        proof {
            let n = o@;
            assert(n == old_o.insert(p as int, i));
            assert forall|m: int| 0 <= m < n.len() implies n[m] < i + 1 by {
                if m < p { assert(n[m] == old_o[m]); }
                else if m > p { assert(n[m] == old_o[m - 1]); }
            }
            assert forall|k: usize| k < i + 1 implies #[trigger] n.contains(k) by {
                if k == i {
                    assert(n[p as int] == i);
                } else {
                    assert(old_o.contains(k));
                    let m = choose|m: int| 0 <= m < old_o.len() && old_o[m] == k;
                    if m < p { assert(n[m] == old_o[m]); } else { assert(n[m + 1] == old_o[m]); }
                }
            }
            assert forall|a: int, b: int| 0 <= a < b < n.len() implies starts_before(keys, #[trigger] n[a] as int, #[trigger] n[b] as int) by {
                if b < p {
                    assert(n[a] == old_o[a] && n[b] == old_o[b]);
                } else if b == p {
                    assert(n[a] == old_o[a]);
                } else if a == p {
                    assert(n[b] == old_o[b - 1]);
                    assert(text_lt(keys[i as int], keys[old_o[b - 1] as int]));
                } else if a < p {
                    assert(n[a] == old_o[a] && n[b] == old_o[b - 1]);
                } else {
                    assert(n[a] == old_o[a - 1] && n[b] == old_o[b - 1]);
                }
            }
        }
        i = i + 1;
    }
    o
}

// ── Announcements ────────────────────────────────────────────────────────────

/// How `chrono` writes an instant in UTC (`Display` for `DateTime<Utc>`).
pub uninterp spec fn utc_display(secs: i64, nanos: u32) -> Seq<char>;

/// Writes an instant as `chrono` does (`DateTime::<Utc>::from_timestamp` and
/// `Display`); every valid instant has a date-time.
#[verifier::external_body]
fn utc_text(t: Timestamp) -> (r: String)
    requires
        t.wf(),
    ensures
        r@ == utc_display(t.secs, t.nanos),
{
    match chrono::DateTime::from_timestamp(t.secs, t.nanos) {
        Some(d) => d.to_string(),
        None => String::new(),
    }
}

/// `New or updated CTF: <title>`, its URL, and its start and end.
pub open spec fn announcement_text(title: Seq<char>, url: Seq<char>, start: Timestamp, end: Timestamp) -> Seq<char> {
    "New or updated CTF: "@ + title + "\n"@ + url + "\n"@ + utc_display(start.secs, start.nanos) + " -> "@
        + utc_display(end.secs, end.nanos)
}

/// The announcement of a new or updated event.
pub fn announcement(title: &str, url: &str, start: Timestamp, end: Timestamp) -> (r: String)
    requires
        start.wf(),
        end.wf(),
    ensures
        r@ == announcement_text(title@, url@, start, end),
{
    let mut s = String::from_str("New or updated CTF: ");
    s.append(title);
    s.append("\n");
    s.append(url);
    s.append("\n");
    s.append(utc_text(start).as_str());
    s.append(" -> ");
    s.append(utc_text(end).as_str());
    s
}

} // verus!
