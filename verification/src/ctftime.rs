//! Talking to the CTFtime API: when to retry a request, which team searches
//! are sent, the request URLs, and the order of the leaderboard.

use vstd::prelude::*;
use crate::text::{chars_of, string_of, trim, trim_chars};
use crate::num::{int_text, text_i64, parse_int, parse_unsigned};
use crate::cipher::{url_encode, percent_encoded};
use vstd::utf8::encode_utf8;
use crate::options::{CommandOption, OptionValue, named, find_named};

verus! {

// ── Retrying ────────────────────────────────────────────────────────────────

/// Requests are retried at most this many times.
pub const MAX_RETRIES: u32 = 3;

/// Statuses worth retrying: 429 (rate limited) and the server errors 500..=599.
pub open spec fn retryable(status: u16) -> bool {
    status == 429 || (500 <= status && status <= 599)
}

/// How long to wait before retrying a request that got `status` after
/// `retries` retries: 2 seconds, doubling with each retry. `None` when the
/// response is final: its status is not worth retrying, or the retries are
/// used up.
pub open spec fn retry_wait(status: u16, retries: u32) -> Option<u64> {
    if retryable(status) && retries < MAX_RETRIES {
        Some(if retries == 0 { 2 } else if retries == 1 { 4 } else { 8 })
    } else {
        None
    }
}

/// The wait, in seconds, before the next try of a request; `None` to keep the
/// response.
pub fn retry_delay(status: u16, retries: u32) -> (r: Option<u64>)
    ensures
        r == retry_wait(status, retries),
        r is Some ==> retries < MAX_RETRIES,
{
    if (status == 429 || (500 <= status && status <= 599)) && retries < MAX_RETRIES {
        let mut backoff: u64 = 2;
        let mut k: u32 = 0;
        while k < retries
            invariant
                k <= retries < MAX_RETRIES,
                backoff == if k == 0 { 2u64 } else if k == 1 { 4u64 } else { 8u64 },
            decreases retries - k,
        {
            backoff = backoff * 2;
            k = k + 1;
        }
        Some(backoff)
    } else {
        None
    }
}

// ── URLs ────────────────────────────────────────────────────────────────────

pub open spec fn api_base() -> Seq<char> {
    "https://ctftime.org/api/v1"@
}

/// `<base>/top/<year>/`.
pub open spec fn top_url_text(year: i32) -> Seq<char> {
    api_base() + "/top/"@ + int_text(year as int) + "/"@
}

pub fn top_url(year: i32) -> (r: String)
    ensures
        r@ == top_url_text(year),
{
    let mut s = String::from_str("https://ctftime.org/api/v1");
    s.append("/top/");
    let y = string_of(&text_i64(year as i64));
    s.append(y.as_str());
    s.append("/");
    s
}

/// `<base>/teams/<id>/`.
pub open spec fn team_api_url_text(id: i64) -> Seq<char> {
    api_base() + "/teams/"@ + int_text(id as int) + "/"@
}

pub fn team_api_url(id: i64) -> (r: String)
    ensures
        r@ == team_api_url_text(id),
{
    let mut s = String::from_str("https://ctftime.org/api/v1");
    s.append("/teams/");
    let t = string_of(&text_i64(id));
    s.append(t.as_str());
    s.append("/");
    s
}

/// `https://ctftime.org/team/<id>`, the page of a team.
pub open spec fn team_page_url_text(id: i64) -> Seq<char> {
    "https://ctftime.org/team/"@ + int_text(id as int)
}

pub fn team_page_url(id: i64) -> (r: String)
    ensures
        r@ == team_page_url_text(id),
{
    let mut s = String::from_str("https://ctftime.org/team/");
    let t = string_of(&text_i64(id));
    s.append(t.as_str());
    s
}

// ── Team searches ───────────────────────────────────────────────────────────

/// What `char::is_alphanumeric` says of a character (the Unicode `Alphabetic`
/// or `Numeric` property).
pub uninterp spec fn unicode_alphanumeric(c: char) -> bool;

/// Whether the character is alphabetic or numeric (`char::is_alphanumeric`).
#[verifier::external_body]
fn is_alphanumeric(c: char) -> (r: bool)
    ensures
        r == unicode_alphanumeric(c),
{
    c.is_alphanumeric()
}

/// Characters that a team search may hold: letters, digits, spaces, `-` and `_`.
pub open spec fn search_char_ok(c: char) -> bool {
    unicode_alphanumeric(c) || c == ' ' || c == '-' || c == '_'
}

/// The text that a team search sends: the query without surrounding
/// whitespace, when that is 1 to 100 bytes long and holds only allowed
/// characters. Anything else is not sent, and finds no team.
pub open spec fn search_text(query: Seq<char>) -> Option<Seq<char>> {
    let q = trim(query);
    if q.len() == 0 || encode_utf8(q).len() > 100 {
        None
    } else if forall|i: int| 0 <= i < q.len() ==> search_char_ok(#[trigger] q[i]) {
        Some(q)
    } else {
        None
    }
}

/// A team search sends the query without surrounding whitespace exactly when
/// that text is 1 to 100 bytes of letters, digits (as `char::is_alphanumeric`
/// has them), spaces, `-` and `_`; spaces inside the query are kept.
pub proof fn lemma_search_sends_trimmed_query(query: Seq<char>)
    ensures
        ({
            let q = trim(query);
            &&& (q.len() > 0 && encode_utf8(q).len() <= 100 && forall|i: int| 0 <= i < q.len()
                ==> (unicode_alphanumeric(#[trigger] q[i]) || q[i] == ' ' || q[i] == '-' || q[i] == '_'))
                ==> search_text(query) == Some(q)
            &&& (exists|i: int| 0 <= i < q.len() && !(unicode_alphanumeric(#[trigger] q[i]) || q[i] == ' '
                || q[i] == '-' || q[i] == '_')) ==> search_text(query) is None
            &&& search_text(query) matches Some(s) ==> s == q && q.len() > 0 && encode_utf8(q).len() <= 100
        }),
{
}

fn utf8_len(s: &Vec<char>) -> (r: usize)
    ensures
        r == encode_utf8(s@).len(),
{
    let t = string_of(s);
    t.as_str().as_bytes().len()
}

/// The trimmed query to search for, or `None` when the search is not sent.
pub fn search_query(query: &str) -> (r: Option<String>)
    ensures
        match search_text(query@) {
            Some(q) => r matches Some(s) && s@ == q,
            None => r is None,
        },
{
    let chars = chars_of(query);
    let q = trim_chars(&chars);
    if q.len() == 0 || utf8_len(&q) > 100 {
        return None;
    }
    let mut i: usize = 0;
    while i < q.len()
        invariant
            i <= q.len(),
            q@ == trim(query@),
            q.len() > 0,
            encode_utf8(q@).len() <= 100,
            forall|j: int| 0 <= j < i ==> search_char_ok(#[trigger] q@[j]),
        decreases q.len() - i,
    {
        let c = q[i];
        if !(is_alphanumeric(c) || c == ' ' || c == '-' || c == '_') {
            assert(!search_char_ok(q@[i as int]));
            return None;
        }
        i = i + 1;
    }
    Some(string_of(&q))
}

/// `<base>/teams/?search=<percent-encoded query>`.
pub open spec fn team_search_url_text(query: Seq<char>) -> Seq<char> {
    api_base() + "/teams/?search="@ + percent_encoded(encode_utf8(query))
}

pub fn team_search_url(query: &str) -> (r: String)
    ensures
        r@ == team_search_url_text(query@),
{
    let mut s = String::from_str("https://ctftime.org/api/v1");
    s.append("/teams/?search=");
    let e = url_encode(query);
    s.append(e.as_str());
    s
}

// ── The leaderboard ─────────────────────────────────────────────────────────

/// The kind of a JSON value, as far as the top-stats reply is read.
#[derive(Clone, Copy, PartialEq, Eq, Structural)]
pub enum JsonKind {
    Array,
    Object,
    Other,
}

/// Where the teams of a top-stats reply are: in the reply itself (an array, or
/// an object keyed by rank), or in the only value of a one-entry object (an
/// array, or an object keyed by rank).
#[derive(Clone, Copy, PartialEq, Eq, Structural)]
pub enum TopLayout {
    OuterArray,
    InnerArray,
    InnerObject,
    OuterObject,
    /// Neither an array nor an object.
    Invalid,
}

pub open spec fn layout_of(outer: JsonKind, object_len: nat, only_value: JsonKind) -> TopLayout {
    match outer {
        JsonKind::Array => TopLayout::OuterArray,
        JsonKind::Object => if object_len == 1 {
            match only_value {
                JsonKind::Array => TopLayout::InnerArray,
                JsonKind::Object => TopLayout::InnerObject,
                JsonKind::Other => TopLayout::OuterObject,
            }
        } else {
            TopLayout::OuterObject
        },
        JsonKind::Other => TopLayout::Invalid,
    }
}

/// Where to read the teams from: `outer` is the kind of the reply,
/// `object_len` its number of entries when it is an object, and `only_value`
/// the kind of its value when it has exactly one.
pub fn top_layout(outer: JsonKind, object_len: usize, only_value: JsonKind) -> (r: TopLayout)
    ensures
        r == layout_of(outer, object_len as nat, only_value),
{
    match outer {
        JsonKind::Array => TopLayout::OuterArray,
        JsonKind::Object => if object_len == 1 {
            match only_value {
                JsonKind::Array => TopLayout::InnerArray,
                JsonKind::Object => TopLayout::InnerObject,
                JsonKind::Other => TopLayout::OuterObject,
            }
        } else {
            TopLayout::OuterObject
        },
        JsonKind::Other => TopLayout::Invalid,
    }
}

/// The rank of the `i`-th team of an array: `i + 1`, cut to a `u32` as `as`
/// does.
pub fn array_rank(i: usize) -> (r: u32)
    ensures
        r as int == (i + 1) % 0x1_0000_0000,
{
    let m: u64 = (i as u64) % 0x1_0000_0000;
    if m == 0xFFFF_FFFF {
        0
    } else {
        (m + 1) as u32
    }
}

/// The rank that a key of a rank-keyed object names, or the error's text.
pub open spec fn key_rank(key: Seq<char>) -> Result<u32, Seq<char>> {
    match parse_int(key, 10, false, 0, u32::MAX as int) {
        Some(v) => Ok(v as u32),
        None => Err("Invalid rank key: "@ + key),
    }
}

pub fn rank_of_key(key: &str) -> (r: Result<u32, String>)
    ensures
        match key_rank(key@) {
            Ok(v) => r matches Ok(x) && x == v,
            Err(m) => r matches Err(e) && e@ == m,
        },
{
    let chars = chars_of(key);
    match parse_unsigned(&chars, 10, u32::MAX as u64) {
        Some(v) => Ok(v as u32),
        None => {
            let mut m = String::from_str("Invalid rank key: ");
            m.append(key);
            Err(m)
        },
    }
}

/// Team `a` comes before team `b`: a lower rank, or the same rank and an
/// earlier place in the reply.
pub open spec fn before(ranks: Seq<u32>, a: int, b: int) -> bool {
    ranks[a] < ranks[b] || (ranks[a] == ranks[b] && a < b)
}

pub open spec fn rank_sorted(ranks: Seq<u32>, o: Seq<usize>) -> bool {
    forall|i: int, j: int| 0 <= i < j < o.len() ==> before(ranks, #[trigger] o[i] as int, #[trigger] o[j] as int)
}

/// The places of the teams in leaderboard order: by rank, teams of the same
/// rank in the order of the reply (a stable sort by rank). Every place occurs
/// exactly once.
pub fn rank_order(ranks: &Vec<u32>) -> (o: Vec<usize>)
    ensures
        o.len() == ranks.len(),
        forall|i: int| 0 <= i < o.len() ==> o@[i] < ranks.len(),
        forall|k: usize| k < ranks.len() ==> #[trigger] o@.contains(k),
        rank_sorted(ranks@, o@),
{
    let mut o: Vec<usize> = Vec::new();
    let mut i: usize = 0;
    while i < ranks.len()
        invariant
            i <= ranks.len(),
            o.len() == i,
            forall|m: int| 0 <= m < o.len() ==> o@[m] < i,
            forall|k: usize| k < i ==> #[trigger] o@.contains(k),
            rank_sorted(ranks@, o@),
        decreases ranks.len() - i,
    {
        let ri = ranks[i];
        let mut p: usize = 0;
        while p < o.len() && ranks[o[p]] <= ri
            invariant
                p <= o.len(),
                o.len() == i < ranks.len(),
                ri == ranks@[i as int],
                forall|m: int| 0 <= m < o.len() ==> o@[m] < i,
                forall|m: int| 0 <= m < p ==> ranks@[o@[m] as int] <= ri,
            decreases o.len() - p,
        {
            p = p + 1;
        }
        let ghost old_o = o@;
        proof {
            if p < old_o.len() {
                assert(ranks@[old_o[p as int] as int] > ri);
                assert forall|m: int| p <= m < old_o.len() implies ranks@[old_o[m] as int] > ri by {
                    if m > p {
                        assert(before(ranks@, old_o[p as int] as int, old_o[m] as int));
                    }
                }
            }
        }
        o.insert(p, i);
        proof {
            let n = o@;
            assert(n == old_o.insert(p as int, i));
            assert forall|m: int| 0 <= m < n.len() implies n[m] < i + 1 by {
                if m < p { assert(n[m] == old_o[m]); }
                else if m > p { assert(n[m] == old_o[m - 1]); }
            }
            assert forall|k: usize| k < i + 1 implies #[trigger] n.contains(k) by {
                if k == i {
                    assert(n[p as int] == i);
                } else {
                    assert(old_o.contains(k));
                    let m = choose|m: int| 0 <= m < old_o.len() && old_o[m] == k;
                    if m < p { assert(n[m] == old_o[m]); } else { assert(n[m + 1] == old_o[m]); }
                }
            }
            assert forall|a: int, b: int| 0 <= a < b < n.len() implies before(ranks@, #[trigger] n[a] as int, #[trigger] n[b] as int) by {
                if b < p {
                    assert(n[a] == old_o[a] && n[b] == old_o[b]);
                } else if b == p {
                    assert(n[a] == old_o[a]);
                    assert(ranks@[old_o[a] as int] <= ri);
                } else if a == p {
                    assert(n[b] == old_o[b - 1]);
                    assert(ranks@[old_o[b - 1] as int] > ri);
                } else if a < p {
                    assert(n[a] == old_o[a] && n[b] == old_o[b - 1]);
                } else {
                    assert(n[a] == old_o[a - 1] && n[b] == old_o[b - 1]);
                }
            }
        }
        i = i + 1;
    }
    o
}

/// One line of the leaderboard: the rank, the team, and its points as text.
pub struct LeaderLine {
    pub rank: u32,
    pub team: String,
    pub points: String,
}

/// Teams shown on the leaderboard.
pub const LEADERBOARD_SIZE: usize = 10;

/// `**<rank>.** <team> — <points> pts` and a line break.
pub open spec fn leader_line(l: LeaderLine) -> Seq<char> {
    "**"@ + int_text(l.rank as int) + ".** "@ + l.team@ + " — "@ + l.points@ + " pts\n"@
}

pub open spec fn leader_lines(ls: Seq<LeaderLine>) -> Seq<char>
    decreases ls.len(),
{
    if ls.len() == 0 {
        seq![]
    } else {
        leader_lines(ls.drop_last()) + leader_line(ls.last())
    }
}

/// The leaderboard text: the first ten teams, or why there are none.
pub open spec fn leaderboard_text(ls: Seq<LeaderLine>, current_year: bool) -> Seq<char> {
    if ls.len() == 0 {
        if current_year {
            "CTFtime does not have leaderboard data for the current year yet. This usually populates as events conclude."@
        } else {
            "No data found for this year."@
        }
    } else if ls.len() > LEADERBOARD_SIZE {
        leader_lines(ls.take(LEADERBOARD_SIZE as int))
    } else {
        leader_lines(ls)
    }
}

pub fn leaderboard_description(ls: &Vec<LeaderLine>, current_year: bool) -> (r: String)
    ensures
        r@ == leaderboard_text(ls@, current_year),
{
    if ls.len() == 0 {
        if current_year {
            return String::from_str("CTFtime does not have leaderboard data for the current year yet. This usually populates as events conclude.");
        } else {
            return String::from_str("No data found for this year.");
        }
    }
    let n = if ls.len() > LEADERBOARD_SIZE { LEADERBOARD_SIZE } else { ls.len() };
    let mut s = String::new();
    let mut i: usize = 0;
    while i < n
        invariant
            i <= n <= ls.len(),
            s@ == leader_lines(ls@.take(i as int)),
        decreases n - i,
    {
        let l = &ls[i];
        s.append("**");
        let rank = string_of(&text_i64(l.rank as i64));
        s.append(rank.as_str());
        s.append(".** ");
        s.append(l.team.as_str());
        s.append(" — ");
        s.append(l.points.as_str());
        s.append(" pts\n");
        proof {
            assert(ls@.take(i + 1).drop_last() == ls@.take(i as int));
            assert(ls@.take(i + 1).last() == ls@[i as int]);
        }
        i = i + 1;
    }
    if ls.len() <= LEADERBOARD_SIZE {
        assert(ls@.take(n as int) == ls@);
    }
    s
}

/// `CTFtime Leaderboard <year>`.
pub fn leaderboard_title(year: i32) -> (r: String)
    ensures
        r@ == "CTFtime Leaderboard "@ + int_text(year as int),
{
    let mut s = String::from_str("CTFtime Leaderboard ");
    let y = string_of(&text_i64(year as i64));
    s.append(y.as_str());
    s
}

/// `https://ctftime.org/stats/<year>`, the page the leaderboard comes from.
pub fn stats_url(year: i32) -> (r: String)
    ensures
        r@ == "https://ctftime.org/stats/"@ + int_text(year as int),
{
    let mut s = String::from_str("https://ctftime.org/stats/");
    let y = string_of(&text_i64(year as i64));
    s.append(y.as_str());
    s
}

/// The year of `/leaderboard`: the first option named `year` when it is an
/// integer, cut to an `i32` as `as` does; otherwise the current year.
pub open spec fn year_choice(opts: Seq<CommandOption>, current: i32) -> i32 {
    match named(opts, "year"@) {
        Some(o) => match o.value {
            OptionValue::Integer(y) => y as i32,
            _ => current,
        },
        None => current,
    }
}

pub fn leaderboard_year(options: &Vec<CommandOption>, current: i32) -> (r: i32)
    ensures
        r == year_choice(options@, current),
{
    match find_named(options, "year") {
        Some(i) => match &options[i].value {
            OptionValue::Integer(y) => {
                #[verifier::truncate]
                let v: i32 = *y as i32;
                v
            },
            _ => current,
        },
        None => current,
    }
}

} // verus!
