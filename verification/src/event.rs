//! The `/event` command family: page sizes, page buttons and their ids, the
//! filter of completed events, countdowns and event status lines.

use vstd::prelude::*;
use crate::num::{int_text, text_i64, parse_i64, parse_int};
use crate::options::{CommandOption, OptionValue, integer_option, get_integer_option};
use crate::text::{chars_of, string_of, text_eq, split_once, split_once_chars, split_on, split_chars,
    join, views, join_chars, extend_chars, lemma_split_on_cons};
use crate::time::Timestamp;

verus! {

pub const DEFAULT_PAGE_SIZE: i64 = 5;
pub const MAX_PAGE_SIZE: i64 = 25;
pub const DEFAULT_COMPLETED_PAGE_SIZE: i64 = 5;

pub open spec fn clamp(v: int, lo: int, hi: int) -> int {
    if v < lo { lo } else if v > hi { hi } else { v }
}

/// The page size asked for by the `count` option, kept within 1..=25, or `default`.
pub open spec fn limit_option(opts: Seq<CommandOption>, default: int) -> int {
    match integer_option(opts, "count"@) {
        Some(v) => clamp(v as int, 1, MAX_PAGE_SIZE as int),
        None => default,
    }
}

pub fn parse_limit(options: &Vec<CommandOption>, default: i64) -> (r: i64)
    ensures
        r == limit_option(options@, default as int),
{
    match get_integer_option(options, "count") {
        Some(v) => if v < 1 { 1 } else if v > MAX_PAGE_SIZE { MAX_PAGE_SIZE } else { v },
        None => default,
    }
}

pub open spec fn parsed_i64(s: Seq<char>) -> Option<int> {
    parse_int(s, 10, true, i64::MIN as int, i64::MAX as int)
}

// ── Page buttons of `/event current` ────────────────────────────────────────

/// The page and page size that the rest of a `/event current` button id asks
/// for (`page:<page>:<limit>`): a page below 1 or unreadable is 1, a size is
/// kept within 1..=25 and is 5 when missing or unreadable. `None` when the id
/// is not a page id.
pub open spec fn current_page_request(rest: Seq<char>) -> Option<(int, int)> {
    match split_once(rest, ':') {
        Some((head, tail)) => if head == "page"@ {
            let (p, l) = match split_once(tail, ':') {
                Some((a, b)) => (a, Some(b)),
                None => (tail, None),
            };
            let page = match parsed_i64(p) {
                Some(v) => if v > 0 { v } else { 1 },
                None => 1,
            };
            let limit = match l {
                Some(b) => match parsed_i64(b) {
                    Some(v) => clamp(v, 1, MAX_PAGE_SIZE as int),
                    None => DEFAULT_PAGE_SIZE as int,
                },
                None => DEFAULT_PAGE_SIZE as int,
            };
            Some((page, limit))
        } else {
            None
        },
        None => None,
    }
}

pub fn parse_current_page(rest: &str) -> (r: Option<(i64, i64)>)
    ensures
        match current_page_request(rest@) {
            Some((p, l)) => r == Some((p as i64, l as i64)),
            None => r is None,
        },
{
    let chars = chars_of(rest);
    let (head, tail) = match split_once_chars(&chars, ':') {
        Some(x) => x,
        None => return None,
    };
    let hs = string_of(&head);
    if !text_eq(hs.as_str(), "page") {
        return None;
    }
    let (p, l) = match split_once_chars(&tail, ':') {
        Some((a, b)) => (a, Some(b)),
        None => (tail, None),
    };
    let page = match parse_i64(&p) {
        Some(v) => if v > 0 { v } else { 1 },
        None => 1,
    };
    let limit = match l {
        Some(b) => match parse_i64(&b) {
            Some(v) => if v < 1 { 1 } else if v > MAX_PAGE_SIZE { MAX_PAGE_SIZE } else { v },
            None => DEFAULT_PAGE_SIZE,
        },
        None => DEFAULT_PAGE_SIZE,
    };
    Some((page, limit))
}

/// The rest of a page id of `/event current` reads back as its page and its
/// size kept within 1..=25.
pub proof fn lemma_current_page_roundtrip(page: int, limit: int)
    requires
        1 <= page <= i64::MAX,
        i64::MIN <= limit <= i64::MAX,
    ensures
        current_page_request("page:"@ + int_text(page) + ":"@ + int_text(limit))
            == Some((page, clamp(limit, 1, MAX_PAGE_SIZE as int))),
{
    reveal_strlit("page:");
    reveal_strlit("page");
    reveal_strlit(":");
    let w: Seq<char> = "page"@;
    let pt = int_text(page);
    let lt = int_text(limit);
    lemma_no_colon_int_text(page);
    crate::num::lemma_parse_int_text(page, true, i64::MIN as int, i64::MAX as int);
    crate::num::lemma_parse_int_text(limit, true, i64::MIN as int, i64::MAX as int);
    assert(!w.contains(':')) by {
        if w.contains(':') {
            let i = choose|i: int| 0 <= i < w.len() && w[i] == ':';
            assert(w[i] != ':');
        }
    }
    let tail = pt + seq![':'] + lt;
    assert("page:"@ + pt + ":"@ + lt =~= w + seq![':'] + tail);
    lemma_split_once_at(w, tail, ':');
    lemma_split_once_at(pt, lt, ':');
}

/// Whether a further page exists: the page came back full and the events
/// before the next page are fewer than the total.
pub fn has_next_page(shown: usize, page: i64, limit: i64, total: i64) -> (r: bool)
    requires
        i64::MIN <= page * limit <= i64::MAX,
    ensures
        r == (shown >= limit && page * limit < total),
{
    (shown as i128) >= (limit as i128) && page * limit < total
}

/// The number of pages for `total` events in pages of `limit`, rounded up.
pub fn total_pages(total: i64, limit: i64) -> (r: i64)
    requires
        0 <= total <= 0x1_0000_0000_0000,
        1 <= limit <= MAX_PAGE_SIZE,
    ensures
        r == (total + limit - 1) / (limit as int),
        (r - 1) * limit < total <= r * limit || (total == 0 && r == 0),
{
    let r = (total + limit - 1) / limit;
    proof {
        vstd::arithmetic::div_mod::lemma_fundamental_div_mod((total + limit - 1) as int, limit as int);
        let q = (total + limit - 1) / (limit as int);
        let m = (total + limit - 1) % (limit as int);
        assert(q * limit == limit * q) by (nonlinear_arith);
        assert((q - 1) * limit == q * limit - limit) by (nonlinear_arith);
    }
    r
}

/// When a page has a Next button, the next page is within the page count.
pub proof fn lemma_next_page_within_count(page: int, limit: int, total: int)
    requires
        1 <= limit,
        1 <= page,
        page * limit < total,
    ensures
        page + 1 <= (total + limit - 1) / limit,
{
    assert((page + 1) * limit <= total + limit - 1) by (nonlinear_arith)
        requires page * limit < total;
    assert((page + 1) * limit == limit * (page + 1)) by (nonlinear_arith);
    vstd::arithmetic::div_mod::lemma_div_is_ordered(limit * (page + 1), total + limit - 1, limit);
    vstd::arithmetic::div_mod::lemma_div_multiples_vanish(page + 1, limit);
}

/// The position, counting from 1 over all pages, of the `i`-th event of a page.
pub fn global_index(page: i64, limit: i64, i: usize) -> (r: i64)
    requires
        page > i64::MIN,
        i64::MIN <= (page - 1) * limit + i + 1 <= i64::MAX,
        i64::MIN <= (page - 1) * limit <= i64::MAX,
        i < 0x1_0000_0000,
    ensures
        r == (page - 1) * limit + i + 1,
{
    (page - 1) * limit + (i as i64) + 1
}

/// `<prefix>:page:<page>:<limit>`.
pub open spec fn page_id(prefix: Seq<char>, page: int, limit: int) -> Seq<char> {
    prefix + ":page:"@ + int_text(page) + ":"@ + int_text(limit)
}

fn page_id_exec(prefix: &str, page: i64, limit: i64) -> (r: String)
    ensures
        r@ == page_id(prefix@, page as int, limit as int),
{
    let mut s = String::from_str(prefix);
    s.append(":page:");
    let p = string_of(&text_i64(page));
    s.append(p.as_str());
    s.append(":");
    let l = string_of(&text_i64(limit));
    s.append(l.as_str());
    s
}

/// Previous and next buttons of a page.
pub struct PaginationNav {
    pub prev_id: String,
    pub next_id: String,
    pub has_prev: bool,
    pub has_next: bool,
}

impl Clone for PaginationNav {
    fn clone(&self) -> (r: Self)
        ensures
            r.prev_id@ == self.prev_id@,
            r.next_id@ == self.next_id@,
            r.has_prev == self.has_prev,
            r.has_next == self.has_next,
    {
        PaginationNav {
            prev_id: self.prev_id.clone(),
            next_id: self.next_id.clone(),
            has_prev: self.has_prev,
            has_next: self.has_next,
        }
    }
}

/// The page buttons of `/event current`.
pub fn current_nav(page: i64, limit: i64, has_prev: bool, has_next: bool) -> (r: PaginationNav)
    requires
        i64::MIN < page < i64::MAX,
    ensures
        r.prev_id@ == page_id("event:current"@, page - 1, limit as int),
        r.next_id@ == page_id("event:current"@, page + 1, limit as int),
        r.has_prev == has_prev,
        r.has_next == has_next,
{
    PaginationNav {
        prev_id: page_id_exec("event:current", page - 1, limit),
        next_id: page_id_exec("event:current", page + 1, limit),
        has_prev,
        has_next,
    }
}

// ── The filter of `/event completed` ─────────────────────────────────────────

/// Which completed events to list: a format, and a minimum weight given as the
/// decimal text of the number.
pub struct CompletedFilter {
    pub format: Option<String>,
    pub min_weight: Option<String>,
}

pub open spec fn opt_view(o: Option<String>) -> Option<Seq<char>> {
    match o {
        Some(s) => Some(s@),
        None => None,
    }
}

/// The filter that a sequence of `key=value` pairs sets, later pairs winning.
pub open spec fn filter_of_pairs(pairs: Seq<Seq<char>>) -> (Option<Seq<char>>, Option<Seq<char>>)
    decreases pairs.len(),
{
    if pairs.len() == 0 {
        (None, None)
    } else {
        let (f, m) = filter_of_pairs(pairs.drop_last());
        match split_once(pairs.last(), '=') {
            Some((k, v)) => if k == "f"@ {
                (Some(v), m)
            } else if k == "m"@ {
                (f, Some(v))
            } else {
                (f, m)
            },
            None => (f, m),
        }
    }
}

/// The filter that a query string (`f=<format>&m=<weight>`) describes.
pub open spec fn qs_filter(qs: Seq<char>) -> (Option<Seq<char>>, Option<Seq<char>>) {
    filter_of_pairs(split_on(qs, '&'))
}

pub fn qs_to_filter(qs: &str) -> (r: CompletedFilter)
    ensures
        (opt_view(r.format), opt_view(r.min_weight)) == qs_filter(qs@),
{
    let chars = chars_of(qs);
    let pairs = split_chars(&chars, '&');
    let ghost pv = views(pairs@);
    let mut format: Option<String> = None;
    let mut weight: Option<String> = None;
    let mut i: usize = 0;
    while i < pairs.len()
        invariant
            i <= pairs.len(),
            pv == views(pairs@),
            pv == split_on(qs@, '&'),
            (opt_view(format), opt_view(weight)) == filter_of_pairs(pv.take(i as int)),
        decreases pairs.len() - i,
    {
        assert(pv.take(i + 1).drop_last() == pv.take(i as int));
        assert(pv.take(i + 1).last() == pairs[i as int]@);
        match split_once_chars(&pairs[i], '=') {
            Some((k, v)) => {
                let ks = string_of(&k);
                proof {
                    reveal_strlit("f");
                    reveal_strlit("m");
                    assert("f"@[0] != "m"@[0]);
                }
                if text_eq(ks.as_str(), "f") {
                    format = Some(string_of(&v));
                } else if text_eq(ks.as_str(), "m") {
                    weight = Some(string_of(&v));
                }
            },
            None => {},
        }
        i = i + 1;
    }
    assert(pv.take(pairs.len() as int) == pv);
    CompletedFilter { format, min_weight: weight }
}

/// The query string of a filter: `f=<format>` and `m=<weight>`, those present,
/// joined by `&`.
pub open spec fn filter_qs(format: Option<Seq<char>>, weight: Option<Seq<char>>) -> Seq<char> {
    let fs: Seq<Seq<char>> = match format { Some(f) => seq!["f="@ + f], None => seq![] };
    let ms: Seq<Seq<char>> = match weight { Some(w) => seq!["m="@ + w], None => seq![] };
    join(fs + ms, seq!['&'])
}

pub fn filter_to_qs(f: &CompletedFilter) -> (r: String)
    ensures
        r@ == filter_qs(opt_view(f.format), opt_view(f.min_weight)),
{
    proof {
        reveal_strlit("f=");
        reveal_strlit("m=");
    }
    let ghost fs: Seq<Seq<char>> = match opt_view(f.format) { Some(x) => seq!["f="@ + x], None => seq![] };
    let ghost ms: Seq<Seq<char>> = match opt_view(f.min_weight) { Some(x) => seq!["m="@ + x], None => seq![] };
    let mut parts: Vec<Vec<char>> = Vec::new();
    if let Some(fmt) = &f.format {
        let mut p = vec!['f', '='];
        extend_chars(&mut p, &chars_of(fmt.as_str()));
        assert(p@ =~= "f="@ + fmt@);
        parts.push(p);
    }
    assert(views(parts@) =~= fs);
    if let Some(w) = &f.min_weight {
        let mut p = vec!['m', '='];
        extend_chars(&mut p, &chars_of(w.as_str()));
        assert(p@ =~= "m="@ + w@);
        let ghost before = views(parts@);
        parts.push(p);
        assert(views(parts@) =~= before.push(p@));
    }
    assert(views(parts@) =~= fs + ms);
    let sep = vec!['&'];
    assert(sep@ =~= seq!['&']);
    let out = join_chars(&parts, &sep);
    string_of(&out)
}

/// Reading back the query string of a filter whose values hold no `&` gives
/// the filter.
pub proof fn lemma_filter_qs_roundtrip(format: Option<Seq<char>>, weight: Option<Seq<char>>)
    requires
        format matches Some(f) ==> !f.contains('&'),
        weight matches Some(w) ==> !w.contains('&'),
    ensures
        qs_filter(filter_qs(format, weight)) == (format, weight),
{
    reveal_strlit("f=");
    reveal_strlit("m=");
    reveal_strlit("f");
    reveal_strlit("m");
    assert("f="@ =~= "f"@ + seq!['=']);
    assert("m="@ =~= "m"@ + seq!['=']);
    let e: Seq<char> = seq![];
    let none: Seq<Seq<char>> = seq![];
    assert(filter_of_pairs(none) == (None::<Seq<char>>, None::<Seq<char>>));
    assert("f"@[0] != "m"@[0]);
    assert("f"@ != "m"@);
    match (format, weight) {
        (None, None) => {
            assert(none + none =~= none);
            assert(filter_qs(format, weight) == e);
            lemma_split_on_cons(e, '&', e);
            let one: Seq<Seq<char>> = seq![e];
            assert(one.drop_last() =~= none);
            assert(one.last() == e);
            lemma_no_eq_split(e);
            assert(filter_of_pairs(one) == filter_of_pairs(none));
        },
        (Some(f), None) => {
            let p = "f="@ + f;
            assert(p =~= "f"@ + seq!['='] + f);
            assert(seq![p] + none =~= seq![p]);
            assert(join(seq![p], seq!['&']) == p);
            assert(filter_qs(format, weight) == p);
            lemma_pair(p, "f"@, f);
            lemma_split_on_cons(p, '&', e);
            let one: Seq<Seq<char>> = seq![p];
            assert(one.drop_last() =~= none);
            assert(one.last() == p);
        },
        (None, Some(w)) => {
            let p = "m="@ + w;
            assert(p =~= "m"@ + seq!['='] + w);
            assert(none + seq![p] =~= seq![p]);
            assert(join(seq![p], seq!['&']) == p);
            assert(filter_qs(format, weight) == p);
            lemma_pair(p, "m"@, w);
            lemma_split_on_cons(p, '&', e);
            let one: Seq<Seq<char>> = seq![p];
            assert(one.drop_last() =~= none);
            assert(one.last() == p);
        },
        (Some(f), Some(w)) => {
            let p = "f="@ + f;
            let q = "m="@ + w;
            assert(p =~= "f"@ + seq!['='] + f);
            assert(q =~= "m"@ + seq!['='] + w);
            let ps: Seq<Seq<char>> = seq![p] + seq![q];
            assert(ps[0] == p);
            assert(ps.drop_first() =~= seq![q]);
            assert(join(seq![q], seq!['&']) == q);
            assert(join(ps, seq!['&']) == p + seq!['&'] + q);
            assert(filter_qs(format, weight) == p + seq!['&'] + q);
            lemma_pair(p, "f"@, f);
            lemma_pair(q, "m"@, w);
            lemma_split_on_cons(p, '&', q);
            lemma_split_on_cons(q, '&', e);
            let two: Seq<Seq<char>> = seq![p] + seq![q];
            assert(split_on(p + seq!['&'] + q, '&') == two);
            assert(two.drop_last() =~= seq![p]);
            assert(two.last() == q);
            let one: Seq<Seq<char>> = seq![p];
            assert(one.drop_last() =~= none);
            assert(one.last() == p);
            assert(filter_of_pairs(one) == (Some(f), None::<Seq<char>>));
        },
    }
}

proof fn lemma_no_eq_split(s: Seq<char>)
    requires
        s.len() == 0,
    ensures
        split_once(s, '=') is None,
{
}

/// `k=` followed by a value splits at that first `=`; the key holds no `&`.
proof fn lemma_pair(p: Seq<char>, k: Seq<char>, v: Seq<char>)
    requires
        k.len() == 1,
        k[0] != '=' && k[0] != '&',
        p == k + seq!['='] + v,
        !v.contains('&'),
    ensures
        split_once(p, '=') == Some((k, v)),
        !p.contains('&'),
{
    assert(p[0] == k[0]);
    assert(p[1] == '=');
    assert(p.drop_first()[0] == '=');
    assert(crate::text::find_char(p.drop_first(), '=') == Some(0int));
    assert(p.take(1) =~= k);
    assert(p.skip(2) =~= v);
    if p.contains('&') {
        let i = choose|i: int| 0 <= i < p.len() && p[i] == '&';
        if i >= 2 {
            assert(v[i - 2] == '&');
        }
    }
}

/// The filter that the `format` and `weight_min` options set.
pub open spec fn options_filter(opts: Seq<CommandOption>) -> (Option<Seq<char>>, Option<Seq<char>>)
    decreases opts.len(),
{
    if opts.len() == 0 {
        (None, None)
    } else {
        let (f, m) = options_filter(opts.drop_last());
        let o = opts.last();
        if o.name@ == "format"@ {
            match o.value {
                OptionValue::String(v) => (Some(v@), m),
                _ => (f, m),
            }
        } else if o.name@ == "weight_min"@ {
            match o.value {
                OptionValue::Number(v) => (f, Some(v@)),
                _ => (f, m),
            }
        } else {
            (f, m)
        }
    }
}

pub fn parse_filter(options: &Vec<CommandOption>) -> (r: CompletedFilter)
    ensures
        (opt_view(r.format), opt_view(r.min_weight)) == options_filter(options@),
{
    let mut format: Option<String> = None;
    let mut weight: Option<String> = None;
    let mut i: usize = 0;
    while i < options.len()
        invariant
            i <= options.len(),
            (opt_view(format), opt_view(weight)) == options_filter(options@.take(i as int)),
        decreases options.len() - i,
    {
        assert(options@.take(i + 1).drop_last() == options@.take(i as int));
        assert(options@.take(i + 1).last() == options@[i as int]);
        proof {
            reveal_strlit("format");
            reveal_strlit("weight_min");
            assert("format"@.len() != "weight_min"@.len());
        }
        let o = &options[i];
        if text_eq(o.name.as_str(), "format") {
            if let OptionValue::String(v) = &o.value {
                format = Some(v.clone());
            }
        } else if text_eq(o.name.as_str(), "weight_min") {
            if let OptionValue::Number(v) = &o.value {
                weight = Some(v.clone());
            }
        }
        i = i + 1;
    }
    assert(options@.take(options.len() as int) == options@);
    CompletedFilter { format, min_weight: weight }
}

// ── Page buttons of `/event completed` ───────────────────────────────────────

/// What the rest of a `/event completed` page id (`<page>:<limit>:<query>`)
/// asks for: a page of at least 1, a size kept within 1..=25, and the filter of
/// the query string (none when absent). `None` when the page or the size is
/// missing or unreadable, or the page is below 1.
pub open spec fn page_rest_request(rest: Seq<char>) -> Option<(int, int, (Option<Seq<char>>, Option<Seq<char>>))> {
    let (a, after) = match split_once(rest, ':') {
        Some((x, y)) => (x, Some(y)),
        None => (rest, None),
    };
    match parsed_i64(a) {
        Some(p) => if p > 0 {
            match after {
                Some(y) => {
                    let (b, c) = match split_once(y, ':') {
                        Some((x, z)) => (x, Some(z)),
                        None => (y, None),
                    };
                    match parsed_i64(b) {
                        Some(l) => Some((p, clamp(l, 1, MAX_PAGE_SIZE as int), match c {
                            Some(z) => qs_filter(z),
                            None => (None, None),
                        })),
                        None => None,
                    }
                },
                None => None,
            }
        } else {
            None
        },
        None => None,
    }
}

pub fn parse_page_rest(rest: &str) -> (r: Option<(i64, i64, CompletedFilter)>)
    ensures
        match page_rest_request(rest@) {
            Some((p, l, f)) => r matches Some((rp, rl, rf)) && rp == p && rl == l
                && (opt_view(rf.format), opt_view(rf.min_weight)) == f,
            None => r is None,
        },
{
    let chars = chars_of(rest);
    let (a, after) = match split_once_chars(&chars, ':') {
        Some((x, y)) => (x, Some(y)),
        None => (chars, None),
    };
    let page = match parse_i64(&a) {
        Some(p) => if p > 0 { p } else { return None; },
        None => return None,
    };
    let y = match after {
        Some(y) => y,
        None => return None,
    };
    let (b, c) = match split_once_chars(&y, ':') {
        Some((x, z)) => (x, Some(z)),
        None => (y, None),
    };
    let limit = match parse_i64(&b) {
        Some(l) => if l < 1 { 1 } else if l > MAX_PAGE_SIZE { MAX_PAGE_SIZE } else { l },
        None => return None,
    };
    let filter = match c {
        Some(z) => {
            let zs = string_of(&z);
            qs_to_filter(zs.as_str())
        },
        None => CompletedFilter { format: None, min_weight: None },
    };
    Some((page, limit, filter))
}

/// The rest of a page id of `/event completed`: `<page>:<limit>:<query>`.
pub open spec fn page_rest(page: int, limit: int, qs: Seq<char>) -> Seq<char> {
    int_text(page) + ":"@ + int_text(limit) + ":"@ + qs
}

/// `event:completed:page:<page>:<limit>:<query>`.
pub open spec fn completed_page_id(page: int, limit: int, qs: Seq<char>) -> Seq<char> {
    "event:completed:page:"@ + page_rest(page, limit, qs)
}

fn completed_page_id_exec(page: i64, limit: i64, qs: &str) -> (r: String)
    ensures
        r@ == completed_page_id(page as int, limit as int, qs@),
{
    let mut s = String::from_str("event:completed:page:");
    let p = string_of(&text_i64(page));
    s.append(p.as_str());
    s.append(":");
    let l = string_of(&text_i64(limit));
    s.append(l.as_str());
    s.append(":");
    s.append(qs);
    s
}

/// The page buttons of `/event completed`; the ids carry the filter.
pub fn completed_nav(page: i64, limit: i64, filter: &CompletedFilter, has_prev: bool, has_next: bool) -> (r: PaginationNav)
    requires
        i64::MIN < page < i64::MAX,
    ensures
        r.prev_id@ == completed_page_id(page - 1, limit as int, filter_qs(opt_view(filter.format), opt_view(filter.min_weight))),
        r.next_id@ == completed_page_id(page + 1, limit as int, filter_qs(opt_view(filter.format), opt_view(filter.min_weight))),
        r.has_prev == has_prev,
        r.has_next == has_next,
{
    let qs = filter_to_qs(filter);
    PaginationNav {
        prev_id: completed_page_id_exec(page - 1, limit, qs.as_str()),
        next_id: completed_page_id_exec(page + 1, limit, qs.as_str()),
        has_prev,
        has_next,
    }
}

/// Decimal text has no `:` in it.
pub proof fn lemma_no_colon_int_text(n: int)
    ensures
        !int_text(n).contains(':'),
        int_text(n).len() >= 1,
{
    let m = if n < 0 { (-n) as nat } else { n as nat };
    crate::num::lemma_dec_digits(m);
    let s = int_text(n);
    if s.contains(':') {
        let i = choose|i: int| 0 <= i < s.len() && s[i] == ':';
        if n < 0 {
            if i == 0 {
                assert(s[0] == '-');
            } else {
                assert(s[i] == crate::num::dec(m)[i - 1]);
                assert(crate::num::is_digit_in(crate::num::dec(m)[i - 1], 10));
            }
        } else {
            assert(crate::num::is_digit_in(crate::num::dec(m)[i], 10));
        }
    }
}

/// The rest of a page id reads back as its page, its size within 1..=25, and
/// the filter of its query string.
pub proof fn lemma_page_rest_roundtrip(page: int, limit: int, qs: Seq<char>)
    requires
        1 <= page <= i64::MAX,
        i64::MIN <= limit <= i64::MAX,
    ensures
        page_rest_request(page_rest(page, limit, qs)) == Some((page, clamp(limit, 1, MAX_PAGE_SIZE as int), qs_filter(qs))),
{
    reveal_strlit(":");
    let pt = int_text(page);
    let lt = int_text(limit);
    lemma_no_colon_int_text(page);
    lemma_no_colon_int_text(limit);
    crate::num::lemma_parse_int_text(page, true, i64::MIN as int, i64::MAX as int);
    crate::num::lemma_parse_int_text(limit, true, i64::MIN as int, i64::MAX as int);
    let y = lt + seq![':'] + qs;
    let s = pt + seq![':'] + y;
    assert(page_rest(page, limit, qs) =~= s);
    lemma_split_once_at(pt, y, ':');
    lemma_split_once_at(lt, qs, ':');
}

/// Splitting `a`, a separator, then `b` at the first separator, when `a` holds none.
pub proof fn lemma_split_once_at(a: Seq<char>, b: Seq<char>, c: char)
    requires
        !a.contains(c),
    ensures
        split_once(a + seq![c] + b, c) == Some((a, b)),
    decreases a.len(),
{
    let s = a + seq![c] + b;
    if a.len() == 0 {
        assert(s[0] == c);
        assert(s.take(0) =~= a);
        assert(s.skip(1) =~= b);
    } else {
        assert(s[0] == a[0]);
        assert(a[0] != c) by {
            if a[0] == c { assert(a.contains(c)); }
        }
        assert(!a.drop_first().contains(c)) by {
            if a.drop_first().contains(c) {
                let i = choose|i: int| 0 <= i < a.drop_first().len() && a.drop_first()[i] == c;
                assert(a[i + 1] == c);
            }
        }
        lemma_split_once_at(a.drop_first(), b, c);
        assert(s.drop_first() =~= a.drop_first() + seq![c] + b);
        crate::text::lemma_find_char(s.drop_first(), c);
        let i = crate::text::find_char(s.drop_first(), c).unwrap();
        assert(s.drop_first().take(i) == a.drop_first());
        assert(i == a.drop_first().len());
        assert(s.take(i + 1) =~= a);
        assert(s.skip(i + 2) =~= b);
    }
}

/// The standing of a followed team in an event: `1st`, `2nd`, `3rd`, `<n>th`,
/// or `?.th` when unknown.
pub open spec fn place_text(place: Option<i64>) -> Seq<char> {
    match place {
        Some(p) => if p == 1 { "1st"@ } else if p == 2 { "2nd"@ } else if p == 3 { "3rd"@ }
            else { int_text(p as int) + "th"@ },
        None => "?.th"@,
    }
}

pub fn place_label(place: Option<i64>) -> (r: String)
    ensures
        r@ == place_text(place),
{
    match place {
        Some(p) => if p == 1 { String::from_str("1st") } else if p == 2 { String::from_str("2nd") }
            else if p == 3 { String::from_str("3rd") } else {
                let mut s = string_of(&text_i64(p));
                s.append("th");
                s
            },
        None => String::from_str("?.th"),
    }
}

// ── Countdown and status ─────────────────────────────────────────────────────

/// Whole seconds from `a` to the later `b`, rounded down.
pub open spec fn secs_between(a: Timestamp, b: Timestamp) -> int {
    (b.total() - a.total()) / 1_000_000_000
}

fn secs_between_exec(a: Timestamp, b: Timestamp) -> (r: i64)
    requires
        a.wf(),
        b.wf(),
        a.total() < b.total(),
    ensures
        r == secs_between(a, b),
{
    let r = if b.nanos >= a.nanos { b.secs - a.secs } else { b.secs - a.secs - 1 };
    proof {
        let d = b.total() - a.total();
        let rem = if b.nanos >= a.nanos { b.nanos - a.nanos } else { 1_000_000_000 + b.nanos - a.nanos };
        assert(d == r * 1_000_000_000 + rem);
        assert(0 <= rem < 1_000_000_000);
        vstd::arithmetic::div_mod::lemma_fundamental_div_mod_converse(d, 1_000_000_000, r as int, rem as int);
    }
    r
}

/// `<t:<secs>:R>`: a Discord relative timestamp.
pub open spec fn relative_ts(secs: int) -> Seq<char> {
    "<t:"@ + int_text(secs) + ":R>"@
}

pub fn relative_ts_exec(secs: i64) -> (r: String)
    ensures
        r@ == relative_ts(secs as int),
{
    let mut s = String::from_str("<t:");
    let d = string_of(&text_i64(secs));
    s.append(d.as_str());
    s.append(":R>");
    s
}

/// The countdown text for `d` whole seconds: minutes under an hour, hours and
/// minutes under a day, otherwise days and hours.
pub open spec fn countdown_text(d: int) -> Seq<char> {
    let days = d / 86400;
    let hours = (d / 3600) % 24;
    let minutes = (d / 60) % 60;
    if d / 60 < 60 {
        int_text(minutes) + " minute(s)"@
    } else if days == 0 {
        int_text(hours) + " hour(s) "@ + int_text(minutes) + " minute(s)"@
    } else {
        int_text(days) + " day(s) "@ + int_text(hours) + " hour(s)"@
    }
}

/// A countdown of `d` seconds shows whole days and hours from one day on,
/// whole hours and minutes from one hour to a day, and whole minutes below an
/// hour.
pub proof fn lemma_countdown_units(d: int)
    requires
        d >= 0,
    ensures
        d >= 86400 ==> countdown_text(d) == int_text(d / 86400) + " day(s) "@ + int_text((d % 86400) / 3600)
            + " hour(s)"@,
        3600 <= d < 86400 ==> countdown_text(d) == int_text(d / 3600) + " hour(s) "@ + int_text((d % 3600) / 60)
            + " minute(s)"@,
        d < 3600 ==> countdown_text(d) == int_text(d / 60) + " minute(s)"@,
{
    if d >= 86400 {
        assert(d / 60 >= 60);
        assert(d / 86400 >= 1);
        assert((d / 3600) % 24 == (d % 86400) / 3600) by {
            let q = d / 86400;
            let r = d % 86400;
            assert(d == q * 86400 + r);
            assert(d / 3600 == q * 24 + r / 3600);
            assert(r / 3600 < 24);
        }
    } else if d >= 3600 {
        assert(d / 60 >= 60);
        assert(d / 86400 == 0);
        assert((d / 3600) % 24 == d / 3600);
        assert((d / 60) % 60 == (d % 3600) / 60) by {
            let q = d / 3600;
            let r = d % 3600;
            assert(d == q * 3600 + r);
            assert(d / 60 == q * 60 + r / 60);
            assert(r / 60 < 60);
        }
    } else {
        assert(d / 60 < 60);
        assert((d / 60) % 60 == d / 60);
    }
}

/// What `/event countdown` shows for an event.
pub enum Countdown {
    /// The event has ended.
    Ended,
    /// The status, countdown and relative time, then the event's URL.
    Active { description: String },
}

/// The description of a running or coming event.
pub open spec fn countdown_description(now: Timestamp, start: Timestamp, end: Timestamp, url: Seq<char>) -> Seq<char> {
    let upcoming = now.total() < start.total();
    let target = if upcoming { start } else { end };
    let status = if upcoming { "Not yet started"@ } else { "In progress"@ };
    let phase = if upcoming { "Starts in"@ } else { "Ends in"@ };
    "**Status:** "@ + status + "\n**"@ + phase + ":** "@ + countdown_text(secs_between(now, target))
        + " ("@ + relative_ts(target.secs as int) + ")\n"@ + url
}

pub fn countdown(now: Timestamp, start: Timestamp, end: Timestamp, url: &str) -> (r: Countdown)
    requires
        now.wf(),
        start.wf(),
        end.wf(),
    ensures
        end.total() <= now.total() ==> r is Ended,
        now.total() < end.total() ==> (r matches Countdown::Active { description }
            && description@ == countdown_description(now, start, end, url@)),
{
    if end.not_after(&now) {
        return Countdown::Ended;
    }
    let upcoming = !start.not_after(&now);
    let target = if upcoming { start } else { end };
    let d = secs_between_exec(now, target);
    let days = d / 86400;
    let hours = (d / 3600) % 24;
    let minutes = (d / 60) % 60;
    let mut text = if d / 60 < 60 {
        let mut s = string_of(&text_i64(minutes));
        s.append(" minute(s)");
        s
    } else if days == 0 {
        let mut s = string_of(&text_i64(hours));
        s.append(" hour(s) ");
        let m = string_of(&text_i64(minutes));
        s.append(m.as_str());
        s.append(" minute(s)");
        s
    } else {
        let mut s = string_of(&text_i64(days));
        s.append(" day(s) ");
        let h = string_of(&text_i64(hours));
        s.append(h.as_str());
        s.append(" hour(s)");
        s
    };
    let mut desc = String::from_str("**Status:** ");
    desc.append(if upcoming { "Not yet started" } else { "In progress" });
    desc.append("\n**");
    desc.append(if upcoming { "Starts in" } else { "Ends in" });
    desc.append(":** ");
    desc.append(text.as_str());
    desc.append(" (");
    let ts = relative_ts_exec(target.secs);
    desc.append(ts.as_str());
    desc.append(")\n");
    desc.append(url);
    Countdown::Active { description: desc }
}

/// The status line of `/event info`.
pub open spec fn info_status(now: Timestamp, start: Timestamp, end: Timestamp) -> Seq<char> {
    if now.total() < start.total() {
        "Upcoming — starts "@ + relative_ts(start.secs as int)
    } else if now.total() < end.total() {
        "Live now — ends "@ + relative_ts(end.secs as int)
    } else {
        "Ended "@ + relative_ts(end.secs as int)
    }
}

pub fn event_status(now: Timestamp, start: Timestamp, end: Timestamp) -> (r: String)
    requires
        now.wf(),
        start.wf(),
        end.wf(),
    ensures
        r@ == info_status(now, start, end),
{
    if !start.not_after(&now) {
        let mut s = String::from_str("Upcoming — starts ");
        s.append(relative_ts_exec(start.secs).as_str());
        s
    } else if !end.not_after(&now) {
        let mut s = String::from_str("Live now — ends ");
        s.append(relative_ts_exec(end.secs).as_str());
        s
    } else {
        let mut s = String::from_str("Ended ");
        s.append(relative_ts_exec(end.secs).as_str());
        s
    }
}

} // verus!
