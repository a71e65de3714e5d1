//! The `/writeups` command: what it is asked for, the lines of its lists, and
//! the ids of its page buttons.

use vstd::prelude::*;
use crate::options::{CommandOption, OptionValue, named, string_option};
use crate::text::{chars_of, string_of, text_eq, join, split_on, split_chars, views, join_chars,
    lemma_split_on_cons};
use crate::cipher::cut_ok;
use vstd::utf8::{encode_utf8, decode_utf8};
use vstd::string::StringSliceAdditionalSpecFns;
use crate::num::{int_text, text_i64, parse_i64};
use crate::event::{DEFAULT_PAGE_SIZE, parsed_i64};
use crate::util::get_string_option;
use crate::digest::sub_options;

verus! {

// ── The lines of a list ──────────────────────────────────────────────────────

/// One writeup as a list shows it.
pub struct WriteupLine {
    pub title: String,
    pub url: String,
    pub category: Option<String>,
    pub event_name: Option<String>,
}

/// `• **[<title>](<url>)**`, then `` `<category>` `` and `— *<event>*` where known.
pub open spec fn writeup_line(w: WriteupLine) -> Seq<char> {
    "• **["@ + w.title@ + "]("@ + w.url@ + ")**"@
        + match w.category {
            Some(c) => " `"@ + c@ + "`"@,
            None => seq![],
        }
        + match w.event_name {
            Some(e) => " — *"@ + e@ + "*"@,
            None => seq![],
        }
}

pub fn format_writeup_line(w: &WriteupLine) -> (r: String)
    ensures
        r@ == writeup_line(*w),
{
    let mut s = String::from_str("• **[");
    s.append(w.title.as_str());
    s.append("](");
    s.append(w.url.as_str());
    s.append(")**");
    match &w.category {
        Some(c) => {
            s.append(" `");
            s.append(c.as_str());
            s.append("`");
        },
        None => {},
    }
    match &w.event_name {
        Some(e) => {
            s.append(" — *");
            s.append(e.as_str());
            s.append("*");
        },
        None => {},
    }
    s
}

pub open spec fn writeup_lines(ws: Seq<WriteupLine>) -> Seq<Seq<char>> {
    Seq::new(ws.len(), |i: int| writeup_line(ws[i]))
}

/// The text of a list page: one line per writeup, or a note that the page is empty.
pub open spec fn list_description(ws: Seq<WriteupLine>) -> Seq<char> {
    if ws.len() == 0 {
        "No results found on this page."@
    } else {
        join(writeup_lines(ws), "\n"@)
    }
}

pub fn build_list_description(ws: &Vec<WriteupLine>) -> (r: String)
    ensures
        r@ == list_description(ws@),
{
    if ws.len() == 0 {
        return String::from_str("No results found on this page.");
    }
    let mut lines: Vec<Vec<char>> = Vec::new();
    let mut i: usize = 0;
    while i < ws.len()
        invariant
            i <= ws.len(),
            views(lines@) == writeup_lines(ws@).take(i as int),
        decreases ws.len() - i,
    {
        let line = format_writeup_line(&ws[i]);
        let ghost before = views(lines@);
        lines.push(chars_of(line.as_str()));
        assert(views(lines@) =~= before.push(writeup_line(ws@[i as int])));
        assert(writeup_lines(ws@).take(i + 1) =~= writeup_lines(ws@).take(i as int).push(writeup_line(ws@[i as int])));
        i = i + 1;
    }
    assert(writeup_lines(ws@).take(ws.len() as int) =~= writeup_lines(ws@));
    let sep = chars_of("\n");
    string_of(&join_chars(&lines, &sep))
}

// ── What a list shows ────────────────────────────────────────────────────────

/// Which writeups a list shows, with what the user searched for.
pub enum WriteupListing {
    Search(String),
    Recent,
    Event(String),
    Category(String),
    /// The writeups of the events of the team that the server follows.
    Team(String),
}

/// The subcommand whose pages a listing belongs to.
pub open spec fn listing_subcommand(l: WriteupListing) -> Seq<char> {
    match l {
        WriteupListing::Search(_) => "search"@,
        WriteupListing::Recent => "recent"@,
        WriteupListing::Event(_) => "event"@,
        WriteupListing::Category(_) => "category"@,
        WriteupListing::Team(_) => "team"@,
    }
}

pub open spec fn listing_title(l: WriteupListing) -> Seq<char> {
    match l {
        WriteupListing::Search(q) => "Search: \""@ + q@ + "\""@,
        WriteupListing::Recent => "Recent Writeups"@,
        WriteupListing::Event(n) => "Writeups for \""@ + n@ + "\""@,
        WriteupListing::Category(c) => "Category: "@ + c@,
        WriteupListing::Team(n) => "Writeups for Team: "@ + n@,
    }
}

/// What the first page says when it has nothing to show.
pub open spec fn empty_text(l: WriteupListing) -> Seq<char> {
    match l {
        WriteupListing::Search(q) => "No writeups found for \""@ + q@ + "\"."@,
        WriteupListing::Recent => "No recent writeups found."@,
        WriteupListing::Event(n) => "No writeups found for event \""@ + n@ + "\"."@,
        WriteupListing::Category(c) => "No writeups found in category \""@ + c@ + "\"."@,
        WriteupListing::Team(n) => "No writeups found for events participated by **"@ + n@ + "**."@,
    }
}

impl WriteupListing {
    pub fn subcommand(&self) -> (r: &'static str)
        ensures
            r@ == listing_subcommand(*self),
    {
        match self {
            WriteupListing::Search(_) => "search",
            WriteupListing::Recent => "recent",
            WriteupListing::Event(_) => "event",
            WriteupListing::Category(_) => "category",
            WriteupListing::Team(_) => "team",
        }
    }

    pub fn title(&self) -> (r: String)
        ensures
            r@ == listing_title(*self),
    {
        match self {
            WriteupListing::Search(q) => {
                let mut s = String::from_str("Search: \"");
                s.append(q.as_str());
                s.append("\"");
                s
            },
            WriteupListing::Recent => String::from_str("Recent Writeups"),
            WriteupListing::Event(n) => {
                let mut s = String::from_str("Writeups for \"");
                s.append(n.as_str());
                s.append("\"");
                s
            },
            WriteupListing::Category(c) => {
                let mut s = String::from_str("Category: ");
                s.append(c.as_str());
                s
            },
            WriteupListing::Team(n) => {
                let mut s = String::from_str("Writeups for Team: ");
                s.append(n.as_str());
                s
            },
        }
    }

    /// The reply when the first page of this listing is empty.
    pub fn empty_message(&self) -> (r: String)
        ensures
            r@ == empty_text(*self),
    {
        match self {
            WriteupListing::Search(q) => {
                let mut s = String::from_str("No writeups found for \"");
                s.append(q.as_str());
                s.append("\".");
                s
            },
            WriteupListing::Recent => String::from_str("No recent writeups found."),
            WriteupListing::Event(n) => {
                let mut s = String::from_str("No writeups found for event \"");
                s.append(n.as_str());
                s.append("\".");
                s
            },
            WriteupListing::Category(c) => {
                let mut s = String::from_str("No writeups found in category \"");
                s.append(c.as_str());
                s.append("\".");
                s
            },
            WriteupListing::Team(n) => {
                let mut s = String::from_str("No writeups found for events participated by **");
                s.append(n.as_str());
                s.append("**.");
                s
            },
        }
    }
}

/// Whether a fetched page is the empty first page, which is answered with the
/// listing's empty message instead of a list.
pub fn is_empty_first_page(fetched: usize, page: i64) -> (r: bool)
    ensures
        r == (fetched == 0 && page == 1),
{
    fetched == 0 && page == 1
}

/// Whether a page was full, so that a next page may exist.
pub fn has_next_page(fetched: usize) -> (r: bool)
    ensures
        r == (fetched >= DEFAULT_PAGE_SIZE),
{
    fetched >= 5
}

/// The number of writeups before a page: `(page - 1) * 5`.
pub fn page_offset(page: i64) -> (r: i64)
    requires
        i64::MIN <= (page - 1) * DEFAULT_PAGE_SIZE <= i64::MAX,
    ensures
        r == (page - 1) * DEFAULT_PAGE_SIZE,
{
    (page - 1) * DEFAULT_PAGE_SIZE
}

// ── Page buttons ─────────────────────────────────────────────────────────────

/// The longest search text, in bytes, that a page button id carries.
pub const MAX_QUERY_LEN: usize = 50;

/// The first `n` bytes of `s` when it is longer (`&s[..n]`).
pub open spec fn byte_prefix(s: Seq<char>, n: nat) -> Seq<char> {
    if encode_utf8(s).len() > n {
        decode_utf8(encode_utf8(s).take(n as int))
    } else {
        s
    }
}

/// `writeups:page:<subcommand>:<page>:<query>`.
pub open spec fn page_button_id(sub: Seq<char>, page: int, query: Seq<char>) -> Seq<char> {
    "writeups:page:"@ + sub + ":"@ + int_text(page) + ":"@ + query
}

/// A page button: its label and its id.
pub struct PageButton {
    pub label: String,
    pub custom_id: String,
}

pub open spec fn prev_label() -> Seq<char> {
    "⬅️ Previous"@
}

pub open spec fn next_label() -> Seq<char> {
    "Next ➡️"@
}

/// The buttons of a page, as (label, id): back to the previous page after the
/// first, on to the next one when this page was full. The search text in the
/// ids is cut to its first 50 bytes.
pub open spec fn page_buttons(sub: Seq<char>, page: int, query: Seq<char>, has_next: bool) -> Seq<(Seq<char>, Seq<char>)> {
    let q = byte_prefix(query, MAX_QUERY_LEN as nat);
    (if page > 1 { seq![(prev_label(), page_button_id(sub, page - 1, q))] } else { seq![] })
        + (if has_next { seq![(next_label(), page_button_id(sub, page + 1, q))] } else { seq![] })
}

pub open spec fn button_views(bs: Seq<PageButton>) -> Seq<(Seq<char>, Seq<char>)> {
    Seq::new(bs.len(), |i: int| (bs[i].label@, bs[i].custom_id@))
}

fn byte_prefix_exec(s: &str, n: usize) -> (r: &str)
    requires
        cut_ok(s@, n as nat),
    ensures
        r@ == byte_prefix(s@, n as nat),
{
    if s.as_bytes().len() > n {
        let (head, _tail) = s.split_at(n);
        proof {
            vstd::utf8::encode_utf8_decode_utf8(head@);
            assert(encode_utf8(s@).take(n as int) =~= encode_utf8(s@).subrange(0, n as int));
            assert(head.spec_bytes() == encode_utf8(head@));
        }
        head
    } else {
        s
    }
}

fn page_button_id_exec(sub: &str, page: i64, query: &str) -> (r: String)
    ensures
        r@ == page_button_id(sub@, page as int, query@),
{
    let mut s = String::from_str("writeups:page:");
    s.append(sub);
    s.append(":");
    let p = string_of(&text_i64(page));
    s.append(p.as_str());
    s.append(":");
    s.append(query);
    s
}

/// The page buttons of a list page.
pub fn pagination_buttons(sub: &str, page: i64, query: &str, has_next: bool) -> (r: Vec<PageButton>)
    requires
        cut_ok(query@, MAX_QUERY_LEN as nat),
        has_next ==> page < i64::MAX,
    ensures
        button_views(r@) == page_buttons(sub@, page as int, query@, has_next),
{
    let q = byte_prefix_exec(query, MAX_QUERY_LEN);
    let mut out: Vec<PageButton> = Vec::new();
    if page > 1 {
        out.push(PageButton {
            label: String::from_str("⬅️ Previous"),
            custom_id: page_button_id_exec(sub, page - 1, q),
        });
    }
    if has_next {
        out.push(PageButton {
            label: String::from_str("Next ➡️"),
            custom_id: page_button_id_exec(sub, page + 1, q),
        });
    }
    let ghost q_view = byte_prefix(query@, MAX_QUERY_LEN as nat);
    assert(button_views(out@) =~= page_buttons(sub@, page as int, query@, has_next));
    out
}

/// What a page button asks for: the subcommand, the page (1 when it cannot be
/// read) and the search text. `None` when the id has fewer than four parts.
pub open spec fn page_request(id: Seq<char>) -> Option<(Seq<char>, int, Seq<char>)> {
    let parts = split_on(id, ':');
    if parts.len() < 4 {
        None
    } else {
        Some((
            parts[2],
            match parsed_i64(parts[3]) {
                Some(v) => v,
                None => 1,
            },
            if parts.len() > 4 { parts[4] } else { seq![] },
        ))
    }
}

/// A page asked for by a button.
pub struct PageRequest {
    pub subcommand: String,
    pub page: i64,
    pub query: String,
}

/// Reads the id of a page button.
pub fn parse_page_request(custom_id: &str) -> (r: Option<PageRequest>)
    ensures
        match page_request(custom_id@) {
            Some((sub, page, query)) => r matches Some(p) && p.subcommand@ == sub && p.page == page
                && p.query@ == query,
            None => r is None,
        },
{
    let chars = chars_of(custom_id);
    let parts = split_chars(&chars, ':');
    if parts.len() < 4 {
        return None;
    }
    assert(views(parts@)[2] == parts@[2]@);
    assert(views(parts@)[3] == parts@[3]@);
    let page = match parse_i64(&parts[3]) {
        Some(v) => v,
        None => 1,
    };
    let query = if parts.len() > 4 {
        assert(views(parts@)[4] == parts@[4]@);
        string_of(&parts[4])
    } else {
        String::new()
    };
    Some(PageRequest { subcommand: string_of(&parts[2]), page, query })
}

/// Where the writeups of a page come from.
#[derive(Clone, Copy, PartialEq, Eq, Structural)]
pub enum WriteupSource {
    Recent,
    Search,
    Event,
    Category,
    Team,
}

pub open spec fn source_named(sub: Seq<char>) -> Option<WriteupSource> {
    if sub == "recent"@ { Some(WriteupSource::Recent) }
    else if sub == "search"@ { Some(WriteupSource::Search) }
    else if sub == "event"@ { Some(WriteupSource::Event) }
    else if sub == "category"@ { Some(WriteupSource::Category) }
    else if sub == "team"@ { Some(WriteupSource::Team) }
    else { None }
}

/// The source of a page button's subcommand; `None` for an unknown one.
pub fn source_of(sub: &str) -> (r: Option<WriteupSource>)
    ensures
        r == source_named(sub@),
{
    if text_eq(sub, "recent") {
        Some(WriteupSource::Recent)
    } else if text_eq(sub, "search") {
        Some(WriteupSource::Search)
    } else if text_eq(sub, "event") {
        Some(WriteupSource::Event)
    } else if text_eq(sub, "category") {
        Some(WriteupSource::Category)
    } else if text_eq(sub, "team") {
        Some(WriteupSource::Team)
    } else {
        None
    }
}

/// Reading back the id of a page button gives its subcommand, page and search
/// text, when neither the subcommand nor the search text holds a `:`.
pub proof fn lemma_page_button_roundtrip(sub: Seq<char>, page: int, query: Seq<char>)
    requires
        i64::MIN <= page <= i64::MAX,
        !sub.contains(':'),
        !query.contains(':'),
    ensures
        page_request(page_button_id(sub, page, query)) == Some((sub, page, query)),
{
    reveal_strlit("writeups:page:");
    reveal_strlit(":");
    let w: Seq<char> = "writeups"@;
    let p: Seq<char> = "page"@;
    reveal_strlit("writeups");
    reveal_strlit("page");
    let pt = int_text(page);
    crate::event::lemma_no_colon_int_text(page);
    crate::num::lemma_parse_int_text(page, true, i64::MIN as int, i64::MAX as int);
    assert(!w.contains(':')) by {
        if w.contains(':') {
            let i = choose|i: int| 0 <= i < w.len() && w[i] == ':';
            assert(w[i] != ':');
        }
    }
    assert(!p.contains(':')) by {
        if p.contains(':') {
            let i = choose|i: int| 0 <= i < p.len() && p[i] == ':';
            assert(p[i] != ':');
        }
    }
    let r4 = query;
    let r3 = pt + seq![':'] + r4;
    let r2 = sub + seq![':'] + r3;
    let r1 = p + seq![':'] + r2;
    let id = w + seq![':'] + r1;
    assert(page_button_id(sub, page, query) =~= id);
    lemma_split_on_cons(w, ':', r1);
    lemma_split_on_cons(p, ':', r2);
    lemma_split_on_cons(sub, ':', r3);
    lemma_split_on_cons(pt, ':', r4);
    lemma_split_on_cons(query, ':', seq![]);
    let parts = split_on(id, ':');
    assert(parts =~= seq![w, p, sub, pt, query]);
}

// ── What a page button fetches ───────────────────────────────────────────────

/// The writeups query of a page, as values: the five most recent from an
/// offset, a text search (optionally within a category), the writeups of an
/// event by name, or a page of the writeups of a guild's followed team.
pub enum FetchSpec {
    Recent { limit: int, offset: int },
    Search { text: Seq<char>, category: Option<Seq<char>>, limit: int, offset: int },
    EventName { name: Seq<char>, limit: int, offset: int },
    Team { guild: Seq<char>, page: int },
}

/// The writeups query that a page of a source asks for: five writeups from
/// offset `(page - 1) * 5`; a category page searches all text within the
/// category; a team page passes the guild and the page on.
pub open spec fn fetch_spec(source: WriteupSource, page: int, query: Seq<char>) -> FetchSpec {
    let offset = (page - 1) * DEFAULT_PAGE_SIZE;
    match source {
        WriteupSource::Recent => FetchSpec::Recent { limit: DEFAULT_PAGE_SIZE as int, offset },
        WriteupSource::Search => FetchSpec::Search {
            text: query, category: None, limit: DEFAULT_PAGE_SIZE as int, offset },
        WriteupSource::Event => FetchSpec::EventName { name: query, limit: DEFAULT_PAGE_SIZE as int, offset },
        WriteupSource::Category => FetchSpec::Search {
            text: seq![], category: Some(query), limit: DEFAULT_PAGE_SIZE as int, offset },
        WriteupSource::Team => FetchSpec::Team { guild: query, page },
    }
}

/// A writeups query to run.
pub enum WriteupQuery {
    Recent { limit: i64, offset: i64 },
    Search { text: String, category: Option<String>, limit: i64, offset: i64 },
    EventName { name: String, limit: i64, offset: i64 },
    Team { guild: String, page: i64 },
}

impl View for WriteupQuery {
    type V = FetchSpec;

    open spec fn view(&self) -> FetchSpec {
        match self {
            WriteupQuery::Recent { limit, offset } => FetchSpec::Recent { limit: *limit as int, offset: *offset as int },
            WriteupQuery::Search { text, category, limit, offset } => FetchSpec::Search {
                text: text@,
                category: match category { Some(c) => Some(c@), None => None },
                limit: *limit as int,
                offset: *offset as int,
            },
            WriteupQuery::EventName { name, limit, offset } => FetchSpec::EventName {
                name: name@, limit: *limit as int, offset: *offset as int },
            WriteupQuery::Team { guild, page } => FetchSpec::Team { guild: guild@, page: *page as int },
        }
    }
}

/// What a page button asks to fetch: its source and the query of its page,
/// or `None` for an unknown subcommand.
pub open spec fn button_fetch(id: Seq<char>) -> Option<(WriteupSource, FetchSpec)> {
    match page_request(id) {
        Some((sub, page, query)) => match source_named(sub) {
            Some(source) => Some((source, fetch_spec(source, page, query))),
            None => None,
        },
        None => None,
    }
}

/// The query that a page request asks for; `None` for an unknown subcommand.
pub fn plan_fetch(req: &PageRequest) -> (r: Option<(WriteupSource, WriteupQuery)>)
    requires
        i64::MIN <= (req.page - 1) * DEFAULT_PAGE_SIZE <= i64::MAX,
    ensures
        match source_named(req.subcommand@) {
            None => r is None,
            Some(source) => r matches Some((s, w)) && s == source
                && w@ == fetch_spec(source, req.page as int, req.query@),
        },
{
    let source = match source_of(req.subcommand.as_str()) {
        Some(s) => s,
        None => return None,
    };
    let offset = page_offset(req.page);
    let q = req.query.as_str();
    let w = match source {
        WriteupSource::Recent => WriteupQuery::Recent { limit: 5, offset },
        WriteupSource::Search => WriteupQuery::Search {
            text: String::from_str(q), category: None, limit: 5, offset },
        WriteupSource::Event => WriteupQuery::EventName { name: String::from_str(q), limit: 5, offset },
        WriteupSource::Category => WriteupQuery::Search {
            text: String::new(), category: Some(String::from_str(q)), limit: 5, offset },
        WriteupSource::Team => WriteupQuery::Team { guild: String::from_str(q), page: req.page },
    };
    Some((source, w))
}

/// A page button leads to the neighbouring page of its listing: for a known
/// subcommand and a search text of at most 50 bytes without `:`, the Previous
/// button (after the first page) asks for page `page - 1` and the Next button
/// (after a full page) for page `page + 1`, of the same subcommand and text,
/// with that page's query: five writeups from offset `(page' - 1) * 5`.
pub proof fn lemma_page_button_fetch(sub: Seq<char>, page: int, query: Seq<char>, has_next: bool)
    requires
        source_named(sub) is Some,
        !query.contains(':'),
        encode_utf8(query).len() <= MAX_QUERY_LEN,
        i64::MIN < page < i64::MAX,
    ensures
        ({
            let bs = page_buttons(sub, page, query, has_next);
            let source = source_named(sub).unwrap();
            &&& bs.len() == (if page > 1 { 1int } else { 0 }) + (if has_next { 1int } else { 0 })
            &&& page > 1 ==> bs[0].0 == prev_label()
                && page_request(bs[0].1) == Some((sub, page - 1, query))
                && button_fetch(bs[0].1) == Some((source, fetch_spec(source, page - 1, query)))
            &&& has_next ==> bs.last().0 == next_label()
                && page_request(bs.last().1) == Some((sub, page + 1, query))
                && button_fetch(bs.last().1) == Some((source, fetch_spec(source, page + 1, query)))
        }),
{
    reveal_strlit("recent");
    reveal_strlit("search");
    reveal_strlit("event");
    reveal_strlit("category");
    reveal_strlit("team");
    assert(!sub.contains(':')) by {
        if sub.contains(':') {
            let i = choose|i: int| 0 <= i < sub.len() && sub[i] == ':';
            assert(sub[i] != ':');
        }
    }
    assert(byte_prefix(query, MAX_QUERY_LEN as nat) == query);
    lemma_page_button_roundtrip(sub, page - 1, query);
    lemma_page_button_roundtrip(sub, page + 1, query);
}

// ── What `/writeups` is asked to do ──────────────────────────────────────────

/// The first option that is a subcommand: its name and its options.
pub open spec fn first_subcommand(opts: Seq<CommandOption>) -> Option<(Seq<char>, Seq<CommandOption>)>
    decreases opts.len(),
{
    if opts.len() == 0 {
        None
    } else {
        match opts[0].value {
            OptionValue::SubCommand(v) => Some((opts[0].name@, v@)),
            _ => first_subcommand(opts.drop_first()),
        }
    }
}

/// What `/writeups` is asked to do.
pub enum WriteupsRequest {
    /// No subcommand was given.
    NoSubcommand,
    Search { query: String, category: Option<String> },
    Recent,
    Event { name: String },
    Category { name: String },
    Team,
    Notify { enabled: bool },
    /// `team` and `notify` outside a server.
    NeedsGuild,
    Unknown,
}

pub open spec fn text_or_empty(o: Option<Seq<char>>) -> Seq<char> {
    match o {
        Some(t) => t,
        None => seq![],
    }
}

/// The `enabled` flag of `notify`: the value of the first option so named when
/// it is a boolean, otherwise on.
pub open spec fn notify_flag(opts: Seq<CommandOption>) -> bool {
    match named(opts, "enabled"@) {
        Some(o) => match o.value {
            OptionValue::Boolean(b) => b,
            _ => true,
        },
        None => true,
    }
}

/// The request, as a view: a tag, then the texts and flag it carries.
pub open spec fn request_of(opts: Seq<CommandOption>, in_guild: bool) -> (int, Seq<char>, Option<Seq<char>>, bool) {
    match first_subcommand(opts) {
        None => (0, seq![], None, false),
        Some((name, sub)) => {
            if name == "search"@ {
                (1, text_or_empty(string_option(sub, "query"@)), string_option(sub, "category"@), false)
            } else if name == "recent"@ {
                (2, seq![], None, false)
            } else if name == "event"@ {
                (3, text_or_empty(string_option(sub, "name"@)), None, false)
            } else if name == "category"@ {
                (4, text_or_empty(string_option(sub, "category"@)), None, false)
            } else if name == "team"@ {
                if in_guild { (5, seq![], None, false) } else { (7, seq![], None, false) }
            } else if name == "notify"@ {
                if in_guild { (6, seq![], None, notify_flag(sub)) } else { (7, seq![], None, false) }
            } else {
                (8, seq![], None, false)
            }
        },
    }
}

pub open spec fn request_view(r: WriteupsRequest) -> (int, Seq<char>, Option<Seq<char>>, bool) {
    match r {
        WriteupsRequest::NoSubcommand => (0, seq![], None, false),
        WriteupsRequest::Search { query, category } => (1, query@, match category {
            Some(c) => Some(c@),
            None => None,
        }, false),
        WriteupsRequest::Recent => (2, seq![], None, false),
        WriteupsRequest::Event { name } => (3, name@, None, false),
        WriteupsRequest::Category { name } => (4, name@, None, false),
        WriteupsRequest::Team => (5, seq![], None, false),
        WriteupsRequest::Notify { enabled } => (6, seq![], None, enabled),
        WriteupsRequest::NeedsGuild => (7, seq![], None, false),
        WriteupsRequest::Unknown => (8, seq![], None, false),
    }
}

fn find_subcommand(opts: &Vec<CommandOption>) -> (r: Option<usize>)
    ensures
        match first_subcommand(opts@) {
            Some((name, sub)) => r is Some && r.unwrap() < opts.len()
                && opts@[r.unwrap() as int].name@ == name
                && opts@[r.unwrap() as int].value is SubCommand
                && sub_options(opts@[r.unwrap() as int]) == sub,
            None => r is None,
        },
{
    let mut i: usize = 0;
    assert(opts@.skip(0) == opts@);
    while i < opts.len()
        invariant
            i <= opts.len(),
            first_subcommand(opts@) == first_subcommand(opts@.skip(i as int)),
        decreases opts.len() - i,
    {
        assert(opts@.skip(i as int)[0] == opts@[i as int]);
        assert(opts@.skip(i as int).drop_first() == opts@.skip(i + 1));
        if let OptionValue::SubCommand(_) = &opts[i].value {
            return Some(i);
        }
        i = i + 1;
    }
    None
}

fn string_or_empty(o: Option<&str>) -> (r: String)
    ensures
        r@ == text_or_empty(match o { Some(t) => Some(t@), None => None }),
{
    match o {
        Some(t) => String::from_str(t),
        None => String::new(),
    }
}

fn notify_enabled(opts: &Vec<CommandOption>) -> (r: bool)
    ensures
        r == notify_flag(opts@),
{
    match crate::options::find_named(opts, "enabled") {
        Some(i) => match &opts[i].value {
            OptionValue::Boolean(b) => *b,
            _ => true,
        },
        None => true,
    }
}

/// Reads the options of `/writeups`; `team` and `notify` need a server.
pub fn parse_request(options: &Vec<CommandOption>, in_guild: bool) -> (r: WriteupsRequest)
    ensures
        request_view(r) == request_of(options@, in_guild),
{
    let i = match find_subcommand(options) {
        Some(i) => i,
        None => return WriteupsRequest::NoSubcommand,
    };
    let name = options[i].name.as_str();
    let sub = match &options[i].value {
        OptionValue::SubCommand(v) => v,
        _ => return WriteupsRequest::NoSubcommand,
    };
    if text_eq(name, "search") {
        let query = string_or_empty(get_string_option(sub, "query"));
        let category = match get_string_option(sub, "category") {
            Some(c) => Some(String::from_str(c)),
            None => None,
        };
        WriteupsRequest::Search { query, category }
    } else if text_eq(name, "recent") {
        WriteupsRequest::Recent
    } else if text_eq(name, "event") {
        WriteupsRequest::Event { name: string_or_empty(get_string_option(sub, "name")) }
    } else if text_eq(name, "category") {
        WriteupsRequest::Category { name: string_or_empty(get_string_option(sub, "category")) }
    } else if text_eq(name, "team") {
        if in_guild { WriteupsRequest::Team } else { WriteupsRequest::NeedsGuild }
    } else if text_eq(name, "notify") {
        if in_guild { WriteupsRequest::Notify { enabled: notify_enabled(sub) } } else { WriteupsRequest::NeedsGuild }
    } else {
        WriteupsRequest::Unknown
    }
}

/// The reply to `notify`.
pub fn notify_message(enabled: bool) -> (r: &'static str)
    ensures
        r@ == if enabled { "✅ Writeup notifications enabled for this guild."@ }
            else { "❌ Writeup notifications disabled for this guild."@ },
{
    if enabled {
        "✅ Writeup notifications enabled for this guild."
    } else {
        "❌ Writeup notifications disabled for this guild."
    }
}

/// The listing that a page button's source shows; the pages of a team are
/// titled with the word `Team`.
pub fn listing_for(source: WriteupSource, query: &str) -> (r: WriteupListing)
    ensures
        listing_subcommand(r) == match source {
            WriteupSource::Recent => "recent"@,
            WriteupSource::Search => "search"@,
            WriteupSource::Event => "event"@,
            WriteupSource::Category => "category"@,
            WriteupSource::Team => "team"@,
        },
        match r {
            WriteupListing::Search(q) => q@ == query@,
            WriteupListing::Event(q) => q@ == query@,
            WriteupListing::Category(q) => q@ == query@,
            WriteupListing::Team(n) => n@ == "Team"@,
            WriteupListing::Recent => true,
        },
{
    match source {
        WriteupSource::Recent => WriteupListing::Recent,
        WriteupSource::Search => WriteupListing::Search(String::from_str(query)),
        WriteupSource::Event => WriteupListing::Event(String::from_str(query)),
        WriteupSource::Category => WriteupListing::Category(String::from_str(query)),
        WriteupSource::Team => WriteupListing::Team(String::from_str("Team")),
    }
}

/// A list page: its title, its text and its buttons.
pub struct ListingView {
    pub title: String,
    pub description: String,
    pub buttons: Vec<PageButton>,
}

/// The page of a listing, from the writeups fetched for it.
pub fn listing_view(listing: &WriteupListing, results: &Vec<WriteupLine>, page: i64, query: &str) -> (r: ListingView)
    requires
        cut_ok(query@, MAX_QUERY_LEN as nat),
        results.len() >= DEFAULT_PAGE_SIZE ==> page < i64::MAX,
    ensures
        r.title@ == listing_title(*listing),
        r.description@ == list_description(results@),
        button_views(r.buttons@) == page_buttons(listing_subcommand(*listing), page as int, query@,
            results.len() >= DEFAULT_PAGE_SIZE),
{
    let has_next = has_next_page(results.len());
    ListingView {
        title: listing.title(),
        description: build_list_description(results),
        buttons: pagination_buttons(listing.subcommand(), page, query, has_next),
    }
}

// ── Autocomplete ─────────────────────────────────────────────────────────────

/// The first focused option of a list: its name and the text typed so far.
pub open spec fn first_focused(opts: Seq<CommandOption>) -> Option<(Seq<char>, Seq<char>)>
    decreases opts.len(),
{
    if opts.len() == 0 {
        None
    } else {
        match opts[0].value {
            OptionValue::Focused(v) => Some((opts[0].name@, v@)),
            _ => first_focused(opts.drop_first()),
        }
    }
}

/// The focused option that an option is or holds.
pub open spec fn focus_in(o: CommandOption) -> Option<(Seq<char>, Seq<char>)> {
    match o.value {
        OptionValue::Focused(v) => Some((o.name@, v@)),
        OptionValue::SubCommand(v) => first_focused(v@),
        _ => None,
    }
}

/// The focused option of an autocomplete request: in the first option that is
/// focused or is a subcommand holding a focused option.
pub open spec fn focused_option(opts: Seq<CommandOption>) -> Option<(Seq<char>, Seq<char>)>
    decreases opts.len(),
{
    if opts.len() == 0 {
        None
    } else {
        match focus_in(opts[0]) {
            Some(f) => Some(f),
            None => focused_option(opts.drop_first()),
        }
    }
}

/// The text to complete event names from: the focused option's text, when that
/// option is `name` or `event`. Nothing is suggested otherwise.
pub open spec fn autocomplete_text(opts: Seq<CommandOption>) -> Option<Seq<char>> {
    match focused_option(opts) {
        Some((name, text)) => if name == "name"@ || name == "event"@ { Some(text) } else { None },
        None => None,
    }
}

fn find_focused(opts: &Vec<CommandOption>) -> (r: Option<(String, String)>)
    ensures
        match first_focused(opts@) {
            Some((n, t)) => r matches Some((a, b)) && a@ == n && b@ == t,
            None => r is None,
        },
{
    let mut i: usize = 0;
    assert(opts@.skip(0) == opts@);
    while i < opts.len()
        invariant
            i <= opts.len(),
            first_focused(opts@) == first_focused(opts@.skip(i as int)),
        decreases opts.len() - i,
    {
        assert(opts@.skip(i as int)[0] == opts@[i as int]);
        assert(opts@.skip(i as int).drop_first() == opts@.skip(i + 1));
        if let OptionValue::Focused(v) = &opts[i].value {
            return Some((opts[i].name.clone(), v.clone()));
        }
        i = i + 1;
    }
    None
}

fn focus_of(o: &CommandOption) -> (r: Option<(String, String)>)
    ensures
        match focus_in(*o) {
            Some((n, t)) => r matches Some((a, b)) && a@ == n && b@ == t,
            None => r is None,
        },
{
    match &o.value {
        OptionValue::Focused(v) => Some((o.name.clone(), v.clone())),
        OptionValue::SubCommand(v) => find_focused(v),
        _ => None,
    }
}

/// The text to complete event names from, if the focused option asks for one.
pub fn autocomplete_query(options: &Vec<CommandOption>) -> (r: Option<String>)
    ensures
        match autocomplete_text(options@) {
            Some(t) => r matches Some(x) && x@ == t,
            None => r is None,
        },
{
    let mut i: usize = 0;
    assert(options@.skip(0) == options@);
    while i < options.len()
        invariant
            i <= options.len(),
            focused_option(options@) == focused_option(options@.skip(i as int)),
        decreases options.len() - i,
    {
        assert(options@.skip(i as int)[0] == options@[i as int]);
        assert(options@.skip(i as int).drop_first() == options@.skip(i + 1));
        match focus_of(&options[i]) {
            Some((name, text)) => {
                if text_eq(name.as_str(), "name") || text_eq(name.as_str(), "event") {
                    return Some(text);
                }
                return None;
            },
            None => {},
        }
        i = i + 1;
    }
    None
}

} // verus!
