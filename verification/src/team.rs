//! The `/team` command: what it is asked to do, which search result it shows,
//! and the texts of its replies.

use vstd::prelude::*;
use crate::options::{CommandOption, OptionValue, named, find_named};

use crate::text::{trim_end_string, is_empty_text, text_eq, chars_of, string_of, join, trim_end,
    views, join_chars};
use crate::num::{int_text, text_i64};

verus! {

/// What `/team` is asked to do.
pub enum TeamRequest {
    Search { name: String },
    Follow { team_id: i64 },
    Unfollow,
    Following,
    /// The options are wrong; the message says how.
    Rejected { message: String },
}

/// The team name of `search`, or the message that rejects the options.
pub open spec fn search_name(o: CommandOption) -> Result<Seq<char>, Seq<char>> {
    match o.value {
        OptionValue::SubCommand(v) => match named(v@, "name"@) {
            Some(n) => match n.value {
                OptionValue::String(s) => Ok(s@),
                _ => Err("Invalid team name."@),
            },
            None => Err("Please provide a team name."@),
        },
        _ => Err("Invalid search options."@),
    }
}

/// The team id of `follow`, or the message that rejects the options.
pub open spec fn follow_id(o: CommandOption) -> Result<i64, Seq<char>> {
    match o.value {
        OptionValue::SubCommand(v) => match named(v@, "id"@) {
            Some(n) => match n.value {
                OptionValue::Integer(i) => Ok(i),
                _ => Err("Invalid team ID."@),
            },
            None => Err("Please provide a team ID."@),
        },
        _ => Err("Invalid follow options."@),
    }
}

/// The request as a view: a tag, then the name or id it carries, or the message.
pub open spec fn team_request(opts: Seq<CommandOption>) -> (int, Seq<char>, i64) {
    if opts.len() == 0 {
        (4, "Invalid subcommand."@, 0)
    } else {
        let o = opts[0];
        if o.name@ == "search"@ {
            match search_name(o) {
                Ok(n) => (0, n, 0),
                Err(m) => (4, m, 0),
            }
        } else if o.name@ == "follow"@ {
            match follow_id(o) {
                Ok(i) => (1, seq![], i),
                Err(m) => (4, m, 0),
            }
        } else if o.name@ == "unfollow"@ {
            (2, seq![], 0)
        } else if o.name@ == "following"@ {
            (3, seq![], 0)
        } else {
            (4, "Unknown subcommand."@, 0)
        }
    }
}

pub open spec fn team_request_view(r: TeamRequest) -> (int, Seq<char>, i64) {
    match r {
        TeamRequest::Search { name } => (0, name@, 0),
        TeamRequest::Follow { team_id } => (1, seq![], team_id),
        TeamRequest::Unfollow => (2, seq![], 0),
        TeamRequest::Following => (3, seq![], 0),
        TeamRequest::Rejected { message } => (4, message@, 0),
    }
}

fn rejected(m: &str) -> (r: TeamRequest)
    ensures
        team_request_view(r) == (4int, m@, 0i64),
{
    TeamRequest::Rejected { message: String::from_str(m) }
}

/// Reads the options of `/team`.
pub fn parse_team_request(options: &Vec<CommandOption>) -> (r: TeamRequest)
    ensures
        team_request_view(r) == team_request(options@),
{
    if options.len() == 0 {
        return rejected("Invalid subcommand.");
    }
    let o = &options[0];
    let name = o.name.as_str();
    if text_eq(name, "search") {
        let opts = match &o.value {
            OptionValue::SubCommand(v) => v,
            _ => return rejected("Invalid search options."),
        };
        match find_named(opts, "name") {
            Some(i) => match &opts[i].value {
                OptionValue::String(s) => TeamRequest::Search { name: s.clone() },
                _ => rejected("Invalid team name."),
            },
            None => rejected("Please provide a team name."),
        }
    } else if text_eq(name, "follow") {
        let opts = match &o.value {
            OptionValue::SubCommand(v) => v,
            _ => return rejected("Invalid follow options."),
        };
        match find_named(opts, "id") {
            Some(i) => match &opts[i].value {
                OptionValue::Integer(t) => TeamRequest::Follow { team_id: *t },
                _ => rejected("Invalid team ID."),
            },
            None => rejected("Please provide a team ID."),
        }
    } else if text_eq(name, "unfollow") {
        TeamRequest::Unfollow
    } else if text_eq(name, "following") {
        TeamRequest::Following
    } else {
        rejected("Unknown subcommand.")
    }
}

// ── Picking a search result ──────────────────────────────────────────────────

/// What `str::to_lowercase` gives (Unicode lowercase mapping).
pub uninterp spec fn unicode_lowercase(s: Seq<char>) -> Seq<char>;

pub open spec fn ascii_lower_char(c: char) -> char {
    if 'A' <= c && c <= 'Z' { ((c as int) + 32) as char } else { c }
}

pub open spec fn ascii_lower(s: Seq<char>) -> Seq<char> {
    Seq::new(s.len(), |i: int| ascii_lower_char(s[i]))
}

/// Lower-cases a string with `str::to_lowercase`; on ASCII text this maps
/// `A`..`Z` to `a`..`z` and keeps every other character.
#[verifier::external_body]
fn to_lowercase(s: &str) -> (r: String)
    ensures
        r@ == unicode_lowercase(s@),
        vstd::utf8::is_ascii_chars(s@) ==> r@ == ascii_lower(s@),
{
    s.to_lowercase()
}

/// The search results a reply lists when there is no single match.
pub const MAX_LISTED_TEAMS: usize = 5;

/// Which search result a reply shows.
#[derive(Clone, Copy, PartialEq, Eq, Structural)]
pub enum TeamPick {
    /// No team was found.
    NotFound,
    /// Show this result alone.
    One(usize),
    /// List the first of the results, this many.
    Several(usize),
}

/// The first result whose name equals the query, ignoring case.
pub open spec fn exact_match(query: Seq<char>, names: Seq<Seq<char>>) -> Option<int>
    decreases names.len(),
{
    if names.len() == 0 {
        None
    } else if unicode_lowercase(names[0]) == unicode_lowercase(query) {
        Some(0)
    } else {
        match exact_match(query, names.drop_first()) {
            Some(i) => Some(i + 1),
            None => None,
        }
    }
}

/// A result that matches the query exactly (ignoring case) is shown alone, as
/// is the only result; otherwise the first five results are listed.
pub open spec fn team_pick(query: Seq<char>, names: Seq<Seq<char>>) -> TeamPick {
    if names.len() == 0 {
        TeamPick::NotFound
    } else {
        match exact_match(query, names) {
            Some(i) => TeamPick::One(i as usize),
            None => if names.len() == 1 {
                TeamPick::One(0)
            } else {
                TeamPick::Several(if names.len() > MAX_LISTED_TEAMS { MAX_LISTED_TEAMS } else { names.len() as usize })
            },
        }
    }
}

/// Among search results, one whose name equals the query ignoring case is shown
/// alone, and it is the first such: when result `i` matches, the pick is result
/// `j <= i`, which matches, and no result before `j` matches.
pub proof fn lemma_exact_match_shown_alone(query: Seq<char>, names: Seq<Seq<char>>, i: int)
    requires
        0 <= i < names.len() <= usize::MAX,
        unicode_lowercase(names[i]) == unicode_lowercase(query),
    ensures
        team_pick(query, names) matches TeamPick::One(j)
            && j <= i
            && unicode_lowercase(names[j as int]) == unicode_lowercase(query)
            && forall|k: int| 0 <= k < j ==> unicode_lowercase(#[trigger] names[k]) != unicode_lowercase(query),
{
    lemma_exact_match_first(query, names, i);
}

/// Without a result that equals the query ignoring case, no team is found
/// among no results, a single result is shown alone, and otherwise the first
/// results are listed, at most five.
pub proof fn lemma_no_exact_match(query: Seq<char>, names: Seq<Seq<char>>)
    requires
        names.len() <= usize::MAX,
        forall|k: int| 0 <= k < names.len() ==> unicode_lowercase(#[trigger] names[k]) != unicode_lowercase(query),
    ensures
        names.len() == 0 ==> team_pick(query, names) == TeamPick::NotFound,
        names.len() == 1 ==> team_pick(query, names) == TeamPick::One(0),
        names.len() >= 2 ==> (team_pick(query, names) matches TeamPick::Several(n)
            && n as int == if names.len() < 5 { names.len() as int } else { 5 }),
{
    lemma_exact_match_none(query, names);
}

proof fn lemma_exact_match_none(query: Seq<char>, names: Seq<Seq<char>>)
    requires
        forall|k: int| 0 <= k < names.len() ==> unicode_lowercase(#[trigger] names[k]) != unicode_lowercase(query),
    ensures
        exact_match(query, names) is None,
    decreases names.len(),
{
    if names.len() > 0 {
        let rest = names.drop_first();
        assert forall|k: int| 0 <= k < rest.len() implies unicode_lowercase(#[trigger] rest[k]) != unicode_lowercase(query) by {
            assert(rest[k] == names[k + 1]);
        }
        assert(unicode_lowercase(names[0]) != unicode_lowercase(query));
        lemma_exact_match_none(query, rest);
    }
}

proof fn lemma_exact_match_first(query: Seq<char>, names: Seq<Seq<char>>, i: int)
    requires
        0 <= i < names.len(),
        unicode_lowercase(names[i]) == unicode_lowercase(query),
    ensures
        exact_match(query, names) matches Some(j)
            && 0 <= j <= i
            && unicode_lowercase(names[j]) == unicode_lowercase(query)
            && forall|k: int| 0 <= k < j ==> unicode_lowercase(#[trigger] names[k]) != unicode_lowercase(query),
    decreases i,
{
    if unicode_lowercase(names[0]) != unicode_lowercase(query) {
        let rest = names.drop_first();
        assert(rest[i - 1] == names[i]);
        lemma_exact_match_first(query, rest, i - 1);
        let j = exact_match(query, rest).unwrap();
        assert(rest[j] == names[j + 1]);
        assert forall|k: int| 0 <= k < j + 1 implies unicode_lowercase(#[trigger] names[k]) != unicode_lowercase(query) by {
            if k > 0 {
                assert(names[k] == rest[k - 1]);
            }
        }
    }
}

pub open spec fn string_views(s: Seq<String>) -> Seq<Seq<char>> {
    Seq::new(s.len(), |i: int| s[i]@)
}

/// Which of the search results for `query` to show.
pub fn pick_team(query: &str, names: &Vec<String>) -> (r: TeamPick)
    ensures
        r == team_pick(query@, string_views(names@)),
{
    let ghost nv = string_views(names@);
    if names.len() == 0 {
        return TeamPick::NotFound;
    }
    let q = to_lowercase(query);
    let mut i: usize = 0;
    assert(nv.skip(0) == nv);
    while i < names.len()
        invariant
            i <= names.len(),
            nv == string_views(names@),
            q@ == unicode_lowercase(query@),
            exact_match(query@, nv) == match exact_match(query@, nv.skip(i as int)) {
                Some(k) => Some(k + i),
                None => None::<int>,
            },
        decreases names.len() - i,
    {
        assert(nv.skip(i as int)[0] == names@[i as int]@);
        assert(nv.skip(i as int).drop_first() == nv.skip(i + 1));
        let n = to_lowercase(names[i].as_str());
        if text_eq(n.as_str(), q.as_str()) {
            return TeamPick::One(i);
        }
        i = i + 1;
    }
    assert(nv.skip(i as int).len() == 0);
    if names.len() == 1 {
        TeamPick::One(0)
    } else if names.len() > MAX_LISTED_TEAMS {
        TeamPick::Several(MAX_LISTED_TEAMS)
    } else {
        TeamPick::Several(names.len())
    }
}

// ── The texts of the replies ─────────────────────────────────────────────────

/// A team as a reply shows it; `rating` is the rating already written out.
pub struct TeamSummary {
    pub id: i64,
    pub name: String,
    pub country: String,
    pub rating: Option<String>,
    pub aliases: Vec<String>,
}

/// The entry of the `i`-th team (counting from 0) in the list of results.
pub open spec fn summary_entry(i: int, t: TeamSummary) -> Seq<char> {
    int_text(i + 1) + ". **"@ + t.name@ + "** (ID: "@ + int_text(t.id as int) + ")\n"@
        + (if t.country@.len() > 0 { "Country: "@ + t.country@ + "\n"@ } else { seq![] })
        + match t.rating {
            Some(r) => "Rating: "@ + r@ + "\n"@,
            None => seq![],
        }
        + "\n"@
}

pub open spec fn summary_entries(ts: Seq<TeamSummary>) -> Seq<char>
    decreases ts.len(),
{
    if ts.len() == 0 {
        seq![]
    } else {
        summary_entries(ts.drop_last()) + summary_entry(ts.len() - 1, ts.last())
    }
}

/// The list of the first `count` results, without its trailing whitespace.
pub open spec fn results_text(ts: Seq<TeamSummary>, count: nat) -> Seq<char> {
    trim_end(summary_entries(ts.take(count as int)))
}

fn summary_entry_exec(i: usize, t: &TeamSummary) -> (r: String)
    requires
        i < 0x1000,
    ensures
        r@ == summary_entry(i as int, *t),
{
    let mut s = string_of(&text_i64(i as i64 + 1));
    s.append(". **");
    s.append(t.name.as_str());
    s.append("** (ID: ");
    let id = string_of(&text_i64(t.id));
    s.append(id.as_str());
    s.append(")\n");
    if !is_empty_text(t.country.as_str()) {
        s.append("Country: ");
        s.append(t.country.as_str());
        s.append("\n");
    }
    match &t.rating {
        Some(r) => {
            s.append("Rating: ");
            s.append(r.as_str());
            s.append("\n");
        },
        None => {},
    }
    s.append("\n");
    s
}

/// The text listing several search results.
pub fn results_description(ts: &Vec<TeamSummary>, count: usize) -> (r: String)
    requires
        count <= ts.len(),
        count < 0x1000,
    ensures
        r@ == results_text(ts@, count as nat),
{
    let mut s = String::new();
    let mut i: usize = 0;
    while i < count
        invariant
            i <= count <= ts.len(),
            count < 0x1000,
            s@ == summary_entries(ts@.take(i as int)),
        decreases count - i,
    {
        let e = summary_entry_exec(i, &ts[i]);
        s.append(e.as_str());
        proof {
            assert(ts@.take(i + 1).drop_last() == ts@.take(i as int));
            assert(ts@.take(i + 1).last() == ts@[i as int]);
            assert(ts@.take(i + 1).len() - 1 == i);
        }
        i = i + 1;
    }
    trim_end_string(s)
}

/// `Multiple teams found matching '<query>'`.
pub fn results_title(query: &str) -> (r: String)
    ensures
        r@ == "Multiple teams found matching '"@ + query@ + "'"@,
{
    let mut s = String::from_str("Multiple teams found matching '");
    s.append(query);
    s.append("'");
    s
}

/// One field of a reply: its name, its text, and whether it sits inline.
pub struct ReplyField {
    pub name: String,
    pub value: String,
    pub inline: bool,
}

pub open spec fn field_views(fs: Seq<ReplyField>) -> Seq<(Seq<char>, Seq<char>, bool)> {
    Seq::new(fs.len(), |i: int| (fs[i].name@, fs[i].value@, fs[i].inline))
}

/// The fields of a single team: its country when known, its rating when it has
/// one, and its aliases joined with `, ` when it has any.
pub open spec fn team_fields(t: TeamSummary) -> Seq<(Seq<char>, Seq<char>, bool)> {
    (if t.country@.len() > 0 { seq![("Country"@, t.country@, true)] } else { seq![] })
        + match t.rating {
            Some(r) => seq![("Rating"@, r@, true)],
            None => seq![],
        }
        + (if t.aliases@.len() > 0 { seq![("Aliases"@, join(string_views(t.aliases@), ", "@), false)] } else { seq![] })
}

fn join_strings(parts: &Vec<String>, sep: &str) -> (r: String)
    ensures
        r@ == join(string_views(parts@), sep@),
{
    let mut vs: Vec<Vec<char>> = Vec::new();
    let mut i: usize = 0;
    while i < parts.len()
        invariant
            i <= parts.len(),
            views(vs@) == string_views(parts@).take(i as int),
        decreases parts.len() - i,
    {
        let ghost before = views(vs@);
        vs.push(chars_of(parts[i].as_str()));
        assert(views(vs@) =~= before.push(parts@[i as int]@));
        assert(string_views(parts@).take(i + 1) =~= string_views(parts@).take(i as int).push(parts@[i as int]@));
        i = i + 1;
    }
    assert(string_views(parts@).take(parts.len() as int) =~= string_views(parts@));
    let sep_chars = chars_of(sep);
    string_of(&join_chars(&vs, &sep_chars))
}

pub fn single_team_fields(t: &TeamSummary) -> (r: Vec<ReplyField>)
    ensures
        field_views(r@) == team_fields(*t),
{
    let mut out: Vec<ReplyField> = Vec::new();
    if !is_empty_text(t.country.as_str()) {
        out.push(ReplyField { name: String::from_str("Country"), value: t.country.clone(), inline: true });
    }
    match &t.rating {
        Some(r) => {
            out.push(ReplyField { name: String::from_str("Rating"), value: r.clone(), inline: true });
        },
        None => {},
    }
    if t.aliases.len() > 0 {
        out.push(ReplyField { name: String::from_str("Aliases"), value: join_strings(&t.aliases, ", "), inline: false });
    }
    assert(field_views(out@) =~= team_fields(*t));
    out
}

/// `Successfully followed **<name>** (ID: <id>). New results will be posted here.`
pub fn followed_message(name: &str, team_id: i64) -> (r: String)
    ensures
        r@ == "Successfully followed **"@ + name@ + "** (ID: "@ + int_text(team_id as int)
            + "). New results will be posted here."@,
{
    let mut s = String::from_str("Successfully followed **");
    s.append(name);
    s.append("** (ID: ");
    let id = string_of(&text_i64(team_id));
    s.append(id.as_str());
    s.append("). New results will be posted here.");
    s
}

/// The team a server follows: its name, its id, and since when (a Discord
/// relative timestamp of the Unix time `since`).
pub fn following_message(name: &str, team_id: i64, since: i64) -> (r: String)
    ensures
        r@ == "**Team:** "@ + name@ + "\n**ID:** "@ + int_text(team_id as int) + "\n**Since:** <t:"@
            + int_text(since as int) + ":R>"@,
{
    let mut s = String::from_str("**Team:** ");
    s.append(name);
    s.append("\n**ID:** ");
    let id = string_of(&text_i64(team_id));
    s.append(id.as_str());
    s.append("\n**Since:** <t:");
    let t = string_of(&text_i64(since));
    s.append(t.as_str());
    s.append(":R>");
    s
}

} // verus!
