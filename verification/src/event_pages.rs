//! The pages of `/event current` and `/event completed`, the details of
//! `/event info`, and how `/event` picks its subcommand.

use vstd::prelude::*;
use crate::options::{CommandOption, OptionValue, named, string_option};
use crate::event::{PaginationNav, CompletedFilter, total_pages, current_nav, completed_nav, page_id,
    completed_page_id, filter_qs, opt_view, place_text, place_label, relative_ts, relative_ts_exec, MAX_PAGE_SIZE};
use crate::text::{trim_end, trim_end_string, text_eq, chars_of, string_of, join, views, join_chars};
use crate::num::{int_text, text_i64};
use crate::util::{truncate, truncated};
use crate::writeups::PageButton;
use crate::team::{ReplyField, field_views};
use crate::time::Timestamp;
use crate::event::{info_status, event_status};

verus! {

// ── Rows of buttons ──────────────────────────────────────────────────────────

/// Buttons in a row.
pub const ROW_SIZE: usize = 5;

/// The buttons in rows of five, in order; the last row holds the rest.
pub open spec fn rows_of(n: int) -> int {
    (n + 4) / 5
}

pub open spec fn row_ok(bs: Seq<(Seq<char>, Seq<char>)>, rows: Seq<Seq<(Seq<char>, Seq<char>)>>) -> bool {
    &&& rows.len() == rows_of(bs.len() as int)
    &&& forall|r: int| 0 <= r < rows.len() ==> #[trigger] rows[r] == bs.subrange(
            ROW_SIZE * r, if ROW_SIZE * (r + 1) < bs.len() { ROW_SIZE * (r + 1) } else { bs.len() as int })
}

pub open spec fn button_views(bs: Seq<PageButton>) -> Seq<(Seq<char>, Seq<char>)> {
    Seq::new(bs.len(), |i: int| (bs[i].label@, bs[i].custom_id@))
}

pub open spec fn row_views(rows: Seq<Vec<PageButton>>) -> Seq<Seq<(Seq<char>, Seq<char>)>> {
    Seq::new(rows.len(), |r: int| button_views(rows[r]@))
}

fn copy_button(b: &PageButton) -> (r: PageButton)
    ensures
        r.label@ == b.label@,
        r.custom_id@ == b.custom_id@,
{
    PageButton { label: b.label.clone(), custom_id: b.custom_id.clone() }
}

/// Lays buttons out in rows of five.
pub fn into_rows(bs: &Vec<PageButton>) -> (rows: Vec<Vec<PageButton>>)
    ensures
        row_ok(button_views(bs@), row_views(rows@)),
{
    let ghost bv = button_views(bs@);
    let mut rows: Vec<Vec<PageButton>> = Vec::new();
    let mut start: usize = 0;
    while start < bs.len()
        invariant
            bv == button_views(bs@),
            start == ROW_SIZE * rows.len(),
            rows.len() == rows_of(start as int),
            start < bs.len() + ROW_SIZE,
            forall|r: int| 0 <= r < rows.len() ==> #[trigger] row_views(rows@)[r] == bv.subrange(
                ROW_SIZE * r, if ROW_SIZE * (r + 1) < bv.len() { ROW_SIZE * (r + 1) } else { bv.len() as int }),
        decreases bs.len() + ROW_SIZE - start,
    {
        let end = if start + ROW_SIZE < bs.len() { start + ROW_SIZE } else { bs.len() };
        let mut row: Vec<PageButton> = Vec::new();
        let mut k: usize = start;
        while k < end
            invariant
                start <= k <= end <= bs.len(),
                bv == button_views(bs@),
                button_views(row@) == bv.subrange(start as int, k as int),
            decreases end - k,
        {
            let b = copy_button(&bs[k]);
            let ghost before = button_views(row@);
            row.push(b);
            assert(bv[k as int] == (bs@[k as int].label@, bs@[k as int].custom_id@));
            assert(button_views(row@) =~= before.push(bv[k as int]));
            assert(bv.subrange(start as int, k + 1) =~= bv.subrange(start as int, k as int).push(bv[k as int]));
            k = k + 1;
        }
        let ghost old_rows = rows@;
        rows.push(row);
        proof {
            assert forall|r: int| 0 <= r < rows.len() implies #[trigger] row_views(rows@)[r] == bv.subrange(
                ROW_SIZE * r, if ROW_SIZE * (r + 1) < bv.len() { ROW_SIZE * (r + 1) } else { bv.len() as int }) by {
                if r < old_rows.len() {
                    assert(rows@[r] == old_rows[r]);
                    assert(row_views(rows@)[r] == row_views(old_rows)[r]);
                }
            }
            assert(rows_of(start + 5) == rows_of(start as int) + 1);
        }
        start = start + ROW_SIZE;
    }
    proof {
        assert(rows_of(bs.len() as int) == rows.len()) by {
            assert(start == ROW_SIZE * rows.len());
            assert(start < bs.len() + ROW_SIZE);
            assert(bs.len() <= start);
        }
    }
    rows
}

// ── `/event current` ─────────────────────────────────────────────────────────

/// A running event as the page of `/event current` shows it; `weight` is the
/// weight already written out.
pub struct CurrentEvent {
    pub ctftime_id: i64,
    pub title: String,
    pub url: String,
    pub end_secs: i64,
    pub format: Option<String>,
    pub weight: Option<String>,
    pub is_onsite: bool,
}

/// `<n>. **<title>**`, the URL, the end, then the format, weight and whether it
/// is on site.
pub open spec fn current_line(n: int, e: CurrentEvent) -> Seq<char> {
    int_text(n) + ". **"@ + e.title@ + "**\n"@ + e.url@ + "\nEnds: "@ + relative_ts(e.end_secs as int) + "\n"@
        + match e.format {
            Some(f) => "Format: "@ + f@,
            None => "Format: unknown"@,
        }
        + match e.weight {
            Some(w) => " | ⚖️ Weight: "@ + w@,
            None => seq![],
        }
        + if e.is_onsite { " | 📍 Onsite"@ } else { seq![] }
}

/// The number of the `i`-th event of a page, counting over all pages.
pub open spec fn global_number(page: int, limit: int, i: int) -> int {
    (page - 1) * limit + i + 1
}

pub open spec fn current_lines(es: Seq<CurrentEvent>, page: int, limit: int) -> Seq<char>
    decreases es.len(),
{
    if es.len() == 0 {
        seq![]
    } else {
        current_lines(es.drop_last(), page, limit)
            + current_line(global_number(page, limit, es.len() - 1), es.last()) + "\n\n"@
    }
}

/// The reminder button of the `i`-th event of a page: `#<n> <title cut to 12 characters>`.
pub open spec fn remind_button(e: CurrentEvent, n: int) -> (Seq<char>, Seq<char>) {
    ("#"@ + int_text(n) + " "@ + truncated(e.title@, 12), "remind:"@ + int_text(e.ctftime_id as int))
}

pub open spec fn remind_buttons(es: Seq<CurrentEvent>, page: int, limit: int) -> Seq<(Seq<char>, Seq<char>)> {
    Seq::new(es.len(), |i: int| remind_button(es[i], global_number(page, limit, i)))
}

/// A page of events: its title, text, footer, rows of buttons, and the page
/// buttons when there are any.
pub struct EventPage {
    pub title: String,
    pub description: String,
    pub footer: Option<String>,
    pub rows: Vec<Vec<PageButton>>,
    pub nav: Option<PaginationNav>,
}

/// Whether the numbers of a page fit in an `i64` (the numbers of its events and
/// the neighbouring pages).
pub open spec fn page_fits(page: int, limit: int, shown: int) -> bool {
    &&& 1 <= page < i64::MAX
    &&& i64::MIN <= (page - 1) * limit <= i64::MAX
    &&& i64::MIN <= (page - 1) * limit + shown + 1 <= i64::MAX
}

pub open spec fn footer_text(total: i64) -> Seq<char> {
    "Total: "@ + int_text(total as int) + " events"@
}

fn footer_exec(total: i64) -> (r: String)
    ensures
        r@ == footer_text(total),
{
    let mut s = String::from_str("Total: ");
    let t = string_of(&text_i64(total));
    s.append(t.as_str());
    s.append(" events");
    s
}

fn current_line_exec(n: i64, e: &CurrentEvent) -> (r: String)
    ensures
        r@ == current_line(n as int, *e),
{
    let mut s = string_of(&text_i64(n));
    s.append(". **");
    s.append(e.title.as_str());
    s.append("**\n");
    s.append(e.url.as_str());
    s.append("\nEnds: ");
    let end = relative_ts_exec(e.end_secs);
    s.append(end.as_str());
    s.append("\n");
    match &e.format {
        Some(f) => {
            s.append("Format: ");
            s.append(f.as_str());
        },
        None => s.append("Format: unknown"),
    }
    match &e.weight {
        Some(w) => {
            s.append(" | ⚖️ Weight: ");
            s.append(w.as_str());
        },
        None => {},
    }
    if e.is_onsite {
        s.append(" | 📍 Onsite");
    }
    s
}

fn remind_button_exec(e: &CurrentEvent, n: i64) -> (r: PageButton)
    ensures
        (r.label@, r.custom_id@) == remind_button(*e, n as int),
{
    let mut label = String::from_str("#");
    let num = string_of(&text_i64(n));
    label.append(num.as_str());
    label.append(" ");
    let t = truncate(e.title.as_str(), 12);
    label.append(t.as_str());
    let mut id = String::from_str("remind:");
    let i = string_of(&text_i64(e.ctftime_id));
    id.append(i.as_str());
    PageButton { label, custom_id: id }
}

/// The page of `/event current`: the events in progress, numbered over all
/// pages, each with a reminder button, or a note that none is running.
pub fn current_page(events: &Vec<CurrentEvent>, page: i64, limit: i64, has_prev: bool, has_next: bool,
    total: i64) -> (r: EventPage)
    requires
        page_fits(page as int, limit as int, events.len() as int),
        0 <= total <= 0x1_0000_0000_0000,
        1 <= limit <= MAX_PAGE_SIZE,
    ensures
        events.len() == 0 ==> r.title@ == "No CTFs currently running"@
            && r.description@ == "There are no CTF events in progress right now.\nUse `/event upcoming` to see what's coming up next."@
            && r.footer is None && r.rows.len() == 0 && r.nav is None,
        events.len() > 0 ==> {
            &&& r.title@ == "CTFs in progress — Page "@ + int_text(page as int) + " of "@
                + int_text((total + limit - 1) / (limit as int))
            &&& r.description@ == trim_end(current_lines(events@, page as int, limit as int))
            &&& r.footer matches Some(f) && f@ == footer_text(total)
            &&& row_ok(remind_buttons(events@, page as int, limit as int), row_views(r.rows@))
            &&& r.nav matches Some(nav) && nav.prev_id@ == page_id("event:current"@, page - 1, limit as int)
                && nav.next_id@ == page_id("event:current"@, page + 1, limit as int)
                && nav.has_prev == has_prev && nav.has_next == has_next
        },
{
    if events.len() == 0 {
        return EventPage {
            title: String::from_str("No CTFs currently running"),
            description: String::from_str("There are no CTF events in progress right now.\nUse `/event upcoming` to see what's coming up next."),
            footer: None,
            rows: Vec::new(),
            nav: None,
        };
    }
    let mut desc = String::new();
    let mut buttons: Vec<PageButton> = Vec::new();
    let mut i: usize = 0;
    while i < events.len()
        invariant
            i <= events.len(),
            page_fits(page as int, limit as int, events.len() as int),
            1 <= limit <= MAX_PAGE_SIZE,
            desc@ == current_lines(events@.take(i as int), page as int, limit as int),
            button_views(buttons@) == remind_buttons(events@, page as int, limit as int).take(i as int),
        decreases events.len() - i,
    {
        assert((page - 1) * limit >= 0) by (nonlinear_arith)
            requires
                page >= 1,
                limit >= 1;
        let n = (page - 1) * limit + (i as i64) + 1;
        let line = current_line_exec(n, &events[i]);
        desc.append(line.as_str());
        desc.append("\n\n");
        let ghost before = button_views(buttons@);
        buttons.push(remind_button_exec(&events[i], n));
        proof {
            assert(events@.take(i + 1).drop_last() == events@.take(i as int));
            assert(events@.take(i + 1).last() == events@[i as int]);
            assert(button_views(buttons@) =~= before.push(remind_button(events@[i as int], n as int)));
            assert(remind_buttons(events@, page as int, limit as int).take(i + 1)
                =~= remind_buttons(events@, page as int, limit as int).take(i as int).push(
                    remind_button(events@[i as int], global_number(page as int, limit as int, i as int))));
        }
        i = i + 1;
    }
    assert(events@.take(events.len() as int) == events@);
    assert(remind_buttons(events@, page as int, limit as int).take(events.len() as int)
        =~= remind_buttons(events@, page as int, limit as int));
    let mut title = String::from_str("CTFs in progress — Page ");
    let p = string_of(&text_i64(page));
    title.append(p.as_str());
    title.append(" of ");
    let tp = string_of(&text_i64(total_pages(total, limit)));
    title.append(tp.as_str());
    EventPage {
        title,
        description: trim_end_string(desc),
        footer: Some(footer_exec(total)),
        rows: into_rows(&buttons),
        nav: Some(current_nav(page, limit, has_prev, has_next)),
    }
}

// ── `/event completed` ───────────────────────────────────────────────────────

/// An ended event as the page of `/event completed` shows it; `weight` is the
/// weight already written out.
pub struct CompletedEvent {
    pub ctftime_id: i64,
    pub title: String,
    pub end_secs: i64,
    pub format: Option<String>,
    pub weight: Option<String>,
}

/// How the followed team did in an event; `score` is the score already
/// written out with two decimals.
pub struct TeamResultLine {
    pub event_id: i64,
    pub place: Option<i64>,
    pub total_teams: Option<i64>,
    pub score: Option<String>,
}

/// The result of the followed team in an event: the last one listed for it
/// (a map from event to result, filled in order, keeps that one).
pub open spec fn result_for(results: Seq<TeamResultLine>, event_id: i64) -> Option<TeamResultLine>
    decreases results.len(),
{
    if results.len() == 0 {
        None
    } else if results.last().event_id == event_id {
        Some(results.last())
    } else {
        result_for(results.drop_last(), event_id)
    }
}

/// `  › Team: <place>`, then ` / <n> teams` and ` — <score> pts` where known.
pub open spec fn team_line(r: TeamResultLine) -> Seq<char> {
    "  › Team: "@ + place_text(r.place)
        + match r.total_teams {
            Some(t) => " / "@ + int_text(t as int) + " teams"@,
            None => seq![],
        }
        + match r.score {
            Some(sc) => " — "@ + sc@ + " pts"@,
            None => seq![],
        }
        + "\n"@
}

/// The lines of one ended event: its title, end, format and weight, then the
/// followed team's result when there is one, then a blank line.
pub open spec fn completed_block(e: CompletedEvent, results: Seq<TeamResultLine>) -> Seq<char> {
    "**"@ + e.title@ + "** — ended "@ + relative_ts(e.end_secs as int) + " | "@
        + match e.format {
            Some(f) => f@,
            None => "unknown format"@,
        }
        + match e.weight {
            Some(w) => " | "@ + w@,
            None => seq![],
        }
        + "\n"@
        + match result_for(results, e.ctftime_id) {
            Some(r) => team_line(r),
            None => seq![],
        }
        + "\n"@
}

pub open spec fn completed_blocks(es: Seq<CompletedEvent>, results: Seq<TeamResultLine>) -> Seq<char>
    decreases es.len(),
{
    if es.len() == 0 {
        seq![]
    } else {
        completed_blocks(es.drop_last(), results) + completed_block(es.last(), results)
    }
}

fn find_result(results: &Vec<TeamResultLine>, event_id: i64) -> (r: Option<usize>)
    ensures
        match r {
            Some(i) => i < results.len() && result_for(results@, event_id) == Some(results@[i as int]),
            None => result_for(results@, event_id) is None,
        },
{
    let mut i: usize = results.len();
    assert(results@.take(i as int) == results@);
    while i > 0
        invariant
            i <= results.len(),
            result_for(results@, event_id) == result_for(results@.take(i as int), event_id),
        decreases i,
    {
        assert(results@.take(i as int).last() == results@[i - 1]);
        assert(results@.take(i as int).drop_last() == results@.take(i - 1));
        if results[i - 1].event_id == event_id {
            return Some(i - 1);
        }
        i = i - 1;
    }
    None
}

fn team_line_exec(r: &TeamResultLine) -> (s: String)
    ensures
        s@ == team_line(*r),
{
    let mut s = String::from_str("  › Team: ");
    let p = place_label(r.place);
    s.append(p.as_str());
    match r.total_teams {
        Some(t) => {
            s.append(" / ");
            let n = string_of(&text_i64(t));
            s.append(n.as_str());
            s.append(" teams");
        },
        None => {},
    }
    match &r.score {
        Some(sc) => {
            s.append(" — ");
            s.append(sc.as_str());
            s.append(" pts");
        },
        None => {},
    }
    s.append("\n");
    s
}

fn completed_block_exec(e: &CompletedEvent, results: &Vec<TeamResultLine>) -> (s: String)
    ensures
        s@ == completed_block(*e, results@),
{
    let mut s = String::from_str("**");
    s.append(e.title.as_str());
    s.append("** — ended ");
    let t = relative_ts_exec(e.end_secs);
    s.append(t.as_str());
    s.append(" | ");
    match &e.format {
        Some(f) => s.append(f.as_str()),
        None => s.append("unknown format"),
    }
    match &e.weight {
        Some(w) => {
            s.append(" | ");
            s.append(w.as_str());
        },
        None => {},
    }
    s.append("\n");
    match find_result(results, e.ctftime_id) {
        Some(i) => {
            let line = team_line_exec(&results[i]);
            s.append(line.as_str());
        },
        None => {},
    }
    s.append("\n");
    s
}

pub open spec fn completed_title(page: int, pages: int) -> Seq<char> {
    if pages > 0 {
        "Recently ended CTFs — Page "@ + int_text(page) + " of "@ + int_text(pages)
    } else {
        "Recently ended CTFs"@
    }
}

/// The page of `/event completed`: the ended events with the followed team's
/// results, and page buttons that keep the filter.
pub fn completed_page(events: &Vec<CompletedEvent>, results: &Vec<TeamResultLine>, page: i64, limit: i64,
    has_prev: bool, has_next: bool, total: i64, filter: &CompletedFilter) -> (r: EventPage)
    requires
        i64::MIN < page < i64::MAX,
        0 <= total <= 0x1_0000_0000_0000,
        1 <= limit <= MAX_PAGE_SIZE,
    ensures
        r.title@ == completed_title(page as int, (total + limit - 1) / (limit as int)),
        r.description@ == if events.len() == 0 { "No completed events found matching your filters."@ }
            else { trim_end(completed_blocks(events@, results@)) },
        r.footer matches Some(f) && f@ == footer_text(total),
        r.rows.len() == 0,
        r.nav matches Some(nav)
            && nav.prev_id@ == completed_page_id(page - 1, limit as int, filter_qs(opt_view(filter.format), opt_view(filter.min_weight)))
            && nav.next_id@ == completed_page_id(page + 1, limit as int, filter_qs(opt_view(filter.format), opt_view(filter.min_weight)))
            && nav.has_prev == has_prev && nav.has_next == has_next,
{
    let pages = total_pages(total, limit);
    let title = if pages > 0 {
        let mut t = String::from_str("Recently ended CTFs — Page ");
        let p = string_of(&text_i64(page));
        t.append(p.as_str());
        t.append(" of ");
        let n = string_of(&text_i64(pages));
        t.append(n.as_str());
        t
    } else {
        String::from_str("Recently ended CTFs")
    };
    let description = if events.len() == 0 {
        String::from_str("No completed events found matching your filters.")
    } else {
        let mut desc = String::new();
        let mut i: usize = 0;
        while i < events.len()
            invariant
                i <= events.len(),
                desc@ == completed_blocks(events@.take(i as int), results@),
            decreases events.len() - i,
        {
            let b = completed_block_exec(&events[i], results);
            desc.append(b.as_str());
            proof {
                assert(events@.take(i + 1).drop_last() == events@.take(i as int));
                assert(events@.take(i + 1).last() == events@[i as int]);
            }
            i = i + 1;
        }
        assert(events@.take(events.len() as int) == events@);
        trim_end_string(desc)
    };
    EventPage {
        title,
        description,
        footer: Some(footer_exec(total)),
        rows: Vec::new(),
        nav: Some(completed_nav(page, limit, filter, has_prev, has_next)),
    }
}

// ── `/event` ────────────────────────────────────────────────────────────────

/// The subcommands of `/event`.
#[derive(Clone, Copy, PartialEq, Eq, Structural)]
pub enum EventSubcommand {
    Upcoming,
    Current,
    Completed,
    Countdown,
    Info,
    Unknown,
}

pub open spec fn event_subcommand_named(name: Seq<char>) -> EventSubcommand {
    if name == "upcoming"@ { EventSubcommand::Upcoming }
    else if name == "current"@ { EventSubcommand::Current }
    else if name == "completed"@ { EventSubcommand::Completed }
    else if name == "countdown"@ { EventSubcommand::Countdown }
    else if name == "info"@ { EventSubcommand::Info }
    else { EventSubcommand::Unknown }
}

/// The subcommand that the first option names; `None` when there is no option.
pub fn event_subcommand(options: &Vec<CommandOption>) -> (r: Option<EventSubcommand>)
    ensures
        options.len() == 0 ==> r is None,
        options.len() > 0 ==> r == Some(event_subcommand_named(options@[0].name@)),
{
    if options.len() == 0 {
        return None;
    }
    let name = options[0].name.as_str();
    Some(if text_eq(name, "upcoming") {
        EventSubcommand::Upcoming
    } else if text_eq(name, "current") {
        EventSubcommand::Current
    } else if text_eq(name, "completed") {
        EventSubcommand::Completed
    } else if text_eq(name, "countdown") {
        EventSubcommand::Countdown
    } else if text_eq(name, "info") {
        EventSubcommand::Info
    } else {
        EventSubcommand::Unknown
    })
}

/// The options of the subcommand named by the first option, when it has any.
pub fn subcommand_options(options: &Vec<CommandOption>) -> (r: Option<&Vec<CommandOption>>)
    ensures
        match r {
            Some(v) => options.len() > 0 && options@[0].value is SubCommand
                && v@ == crate::digest::sub_options(options@[0]),
            None => options.len() == 0 || !(options@[0].value is SubCommand),
        },
{
    if options.len() == 0 {
        return None;
    }
    match &options[0].value {
        OptionValue::SubCommand(v) => Some(v),
        _ => None,
    }
}

// ── Finding an event by name ─────────────────────────────────────────────────

fn string_option_value(options: &Vec<CommandOption>, name: &str) -> (r: Option<String>)
    ensures
        match string_option(options@, name@) {
            Some(t) => r matches Some(s) && s@ == t,
            None => r is None,
        },
{
    match crate::util::get_string_option(options, name) {
        Some(t) => Some(String::from_str(t)),
        None => None,
    }
}

/// The event name that `/countdown` looks for: its `name` option.
pub fn countdown_query(options: &Vec<CommandOption>) -> (r: Option<String>)
    ensures
        match string_option(options@, "name"@) {
            Some(t) => r matches Some(s) && s@ == t,
            None => r is None,
        },
{
    string_option_value(options, "name")
}

/// The event name that `/event info` looks for: its `query` option.
pub fn info_query(options: &Vec<CommandOption>) -> (r: Option<String>)
    ensures
        match string_option(options@, "query"@) {
            Some(t) => r matches Some(s) && s@ == t,
            None => r is None,
        },
{
    string_option_value(options, "query")
}

/// The reply of `/countdown` when no event matches.
pub fn countdown_not_found(query: &str) -> (r: String)
    ensures
        r@ == "No CTF matching **\""@ + query@
            + "\"** was found among upcoming or ongoing events.\nTry `/upcoming` to browse the full list."@,
{
    let mut s = String::from_str("No CTF matching **\"");
    s.append(query);
    s.append("\"** was found among upcoming or ongoing events.\nTry `/upcoming` to browse the full list.");
    s
}

/// The reply of `/countdown` for an event that has ended.
pub fn countdown_ended(title: &str) -> (r: String)
    ensures
        r@ == "**"@ + title@ + "** has already ended."@,
{
    let mut s = String::from_str("**");
    s.append(title);
    s.append("** has already ended.");
    s
}

// ── `/event info` ───────────────────────────────────────────────────────────

/// An event as `/event info` shows it; `weight` is the weight already written
/// out, and each link is its label and its URL.
pub struct EventDetails {
    pub ctftime_id: i64,
    pub format: Option<String>,
    pub weight: Option<String>,
    pub organiser: Option<String>,
    pub description: Option<String>,
    pub links: Vec<(String, String)>,
}

pub open spec fn link_views(ls: Seq<(String, String)>) -> Seq<Seq<char>> {
    Seq::new(ls.len(), |i: int| "["@ + ls[i].0@ + "]("@ + ls[i].1@ + ")"@)
}

/// The fields of `/event info`: the format (or `Unknown`), then the weight,
/// the organiser, the description cut to 300 characters and the links joined
/// with ` | `, each where known.
pub open spec fn info_fields(d: EventDetails) -> Seq<(Seq<char>, Seq<char>, bool)> {
    seq![("Format"@, match d.format { Some(f) => f@, None => "Unknown"@ }, true)]
        + match d.weight { Some(w) => seq![("Weight"@, w@, true)], None => seq![] }
        + match d.organiser { Some(o) => seq![("Organiser"@, o@, true)], None => seq![] }
        + match d.description { Some(t) => seq![("Description"@, truncated(t@, 300), false)], None => seq![] }
        + if d.links@.len() > 0 { seq![("Social Links"@, join(link_views(d.links@), " | "@), false)] } else { seq![] }
}

fn links_text(links: &Vec<(String, String)>) -> (r: String)
    ensures
        r@ == join(link_views(links@), " | "@),
{
    let ghost lv = link_views(links@);
    let mut vs: Vec<Vec<char>> = Vec::new();
    let mut i: usize = 0;
    while i < links.len()
        invariant
            i <= links.len(),
            lv == link_views(links@),
            views(vs@) == lv.take(i as int),
        decreases links.len() - i,
    {
        let mut s = String::from_str("[");
        s.append(links[i].0.as_str());
        s.append("](");
        s.append(links[i].1.as_str());
        s.append(")");
        let ghost before = views(vs@);
        vs.push(chars_of(s.as_str()));
        assert(views(vs@) =~= before.push(lv[i as int]));
        assert(lv.take(i + 1) =~= lv.take(i as int).push(lv[i as int]));
        i = i + 1;
    }
    assert(lv.take(links.len() as int) =~= lv);
    let sep = chars_of(" | ");
    string_of(&join_chars(&vs, &sep))
}

pub fn info_field_list(d: &EventDetails) -> (r: Vec<ReplyField>)
    ensures
        field_views(r@) == info_fields(*d),
{
    let mut out: Vec<ReplyField> = Vec::new();
    let format = match &d.format {
        Some(f) => f.clone(),
        None => String::from_str("Unknown"),
    };
    out.push(ReplyField { name: String::from_str("Format"), value: format, inline: true });
    match &d.weight {
        Some(w) => out.push(ReplyField { name: String::from_str("Weight"), value: w.clone(), inline: true }),
        None => {},
    }
    match &d.organiser {
        Some(o) => out.push(ReplyField { name: String::from_str("Organiser"), value: o.clone(), inline: true }),
        None => {},
    }
    match &d.description {
        Some(t) => out.push(ReplyField { name: String::from_str("Description"), value: truncate(t.as_str(), 300), inline: false }),
        None => {},
    }
    if d.links.len() > 0 {
        out.push(ReplyField { name: String::from_str("Social Links"), value: links_text(&d.links), inline: false });
    }
    assert(field_views(out@) =~= info_fields(*d));
    out
}

/// `**Status:** <status>`, the description of `/event info`.
pub fn info_description(now: Timestamp, start: Timestamp, end: Timestamp) -> (r: String)
    requires
        now.wf(),
        start.wf(),
        end.wf(),
    ensures
        r@ == "**Status:** "@ + info_status(now, start, end),
{
    let mut s = String::from_str("**Status:** ");
    let st = event_status(now, start, end);
    s.append(st.as_str());
    s
}

/// `https://ctftime.org/event/<id>`, the page of an event.
pub fn event_page_url(ctftime_id: i64) -> (r: String)
    ensures
        r@ == "https://ctftime.org/event/"@ + int_text(ctftime_id as int),
{
    let mut s = String::from_str("https://ctftime.org/event/");
    let t = string_of(&text_i64(ctftime_id));
    s.append(t.as_str());
    s
}

// ── Community links ──────────────────────────────────────────────────────────

/// The reply listing the community links of an event: a button per link, at
/// most five.
pub struct CommunityReply {
    pub title: String,
    pub description: String,
    pub buttons: Vec<(String, String)>,
}

/// The reply to "join community", or the message when the event has no links
/// yet. Each link is its label and its URL.
pub fn join_community(title: &str, links: &Vec<(String, String)>) -> (r: Result<CommunityReply, String>)
    requires
        links.len() < 0x1_0000_0000,
    ensures
        links.len() == 0 ==> (r matches Err(m) && m@ == "No community links found yet for **"@ + title@
            + "**. Try checking back after the next enrichment cycle."@),
        links.len() > 0 ==> (r matches Ok(c)
            && c.title@ == "Join community — "@ + title@
            && c.description@ == "Found **"@ + int_text(links.len() as int) + "** community link(s). Click a button to join:"@
            && c.buttons.len() == (if links.len() > ROW_SIZE { ROW_SIZE as int } else { links.len() as int })
            && forall|i: int| 0 <= i < c.buttons.len() ==> (#[trigger] c.buttons@[i]).0@ == links@[i].0@
                && c.buttons@[i].1@ == links@[i].1@),
{
    if links.len() == 0 {
        let mut m = String::from_str("No community links found yet for **");
        m.append(title);
        m.append("**. Try checking back after the next enrichment cycle.");
        return Err(m);
    }
    let n = if links.len() > ROW_SIZE { ROW_SIZE } else { links.len() };
    let mut buttons: Vec<(String, String)> = Vec::new();
    let mut i: usize = 0;
    while i < n
        invariant
            i <= n <= links.len(),
            buttons.len() == i,
            forall|j: int| 0 <= j < i ==> (#[trigger] buttons@[j]).0@ == links@[j].0@ && buttons@[j].1@ == links@[j].1@,
        decreases n - i,
    {
        buttons.push((links[i].0.clone(), links[i].1.clone()));
        i = i + 1;
    }
    let mut t = String::from_str("Join community — ");
    t.append(title);
    let mut d = String::from_str("Found **");
    let c = string_of(&text_i64(links.len() as i64));
    d.append(c.as_str());
    d.append("** community link(s). Click a button to join:");
    Ok(CommunityReply { title: t, description: d, buttons })
}

} // verus!
