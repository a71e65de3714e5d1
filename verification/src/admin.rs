//! The `/adminrole` command: reading its options and writing its replies.

use vstd::prelude::*;
use crate::commands::{AdminRole, RoleAssignment, role_name, named_role, assignment_views};
use crate::options::{CommandOption, OptionValue};
use crate::digest::sub_options;
use crate::text::{chars_of, string_of, text_eq, join, views, join_chars};
use crate::num::{parse_int, parse_u64};

verus! {

pub open spec fn snowflake_ok(s: Seq<char>) -> bool {
    parse_int(s, 10, false, 0, u64::MAX as int) is Some
}

pub open spec fn bad_snowflake() -> Seq<char> {
    "Role ID must be a valid snowflake."@
}

pub open spec fn role_required() -> Seq<char> {
    "Role ID is required."@
}

pub open spec fn bad_level() -> Seq<char> {
    "Admin level must be one of: owner, admin, moderator, analyst."@
}

pub open spec fn level_required() -> Seq<char> {
    "Admin level is required."@
}

/// The role id of `remove`: the first `role_id` option holding text, which
/// must be a number.
pub open spec fn role_id_of(opts: Seq<CommandOption>) -> Result<Seq<char>, Seq<char>>
    decreases opts.len(),
{
    if opts.len() == 0 {
        Err(role_required())
    } else {
        match opts[0].value {
            OptionValue::String(v) => if opts[0].name@ == "role_id"@ {
                if snowflake_ok(v@) { Ok(v@) } else { Err(bad_snowflake()) }
            } else {
                role_id_of(opts.drop_first())
            },
            _ => role_id_of(opts.drop_first()),
        }
    }
}

fn is_snowflake(s: &str) -> (r: bool)
    ensures
        r == snowflake_ok(s@),
{
    let chars = chars_of(s);
    parse_u64(&chars).is_some()
}

/// Reads the role id of `remove`, or the message that rejects it.
pub fn extract_role_id(subcmd: &CommandOption) -> (r: Result<String, String>)
    ensures
        match role_id_of(sub_options(*subcmd)) {
            Ok(v) => r matches Ok(x) && x@ == v,
            Err(m) => r matches Err(e) && e@ == m,
        },
{
    let opts = match &subcmd.value {
        OptionValue::SubCommand(v) => v,
        _ => return Err(String::from_str("Role ID is required.")),
    };
    let mut i: usize = 0;
    assert(opts@.skip(0) == opts@);
    while i < opts.len()
        invariant
            i <= opts.len(),
            opts@ == sub_options(*subcmd),
            role_id_of(opts@) == role_id_of(opts@.skip(i as int)),
        decreases opts.len() - i,
    {
        assert(opts@.skip(i as int)[0] == opts@[i as int]);
        assert(opts@.skip(i as int).drop_first() == opts@.skip(i + 1));
        if let OptionValue::String(v) = &opts[i].value {
            if text_eq(opts[i].name.as_str(), "role_id") {
                if !is_snowflake(v.as_str()) {
                    return Err(String::from_str("Role ID must be a valid snowflake."));
                }
                return Ok(v.clone());
            }
        }
        i = i + 1;
    }
    Err(String::from_str("Role ID is required."))
}

/// The role id and level of `add`, read in order: a later option replaces an
/// earlier one, and a role id that is not a number or an unknown level stops
/// the reading with its message.
pub open spec fn add_scan(opts: Seq<CommandOption>, role: Option<Seq<char>>, level: Option<AdminRole>)
    -> Result<(Option<Seq<char>>, Option<AdminRole>), Seq<char>>
    decreases opts.len(),
{
    if opts.len() == 0 {
        Ok((role, level))
    } else {
        let o = opts[0];
        if o.name@ == "role_id"@ {
            match o.value {
                OptionValue::String(v) => if snowflake_ok(v@) {
                    add_scan(opts.drop_first(), Some(v@), level)
                } else {
                    Err(bad_snowflake())
                },
                _ => add_scan(opts.drop_first(), role, level),
            }
        } else if o.name@ == "level"@ {
            match o.value {
                OptionValue::String(v) => match named_role(v@) {
                    Some(l) => add_scan(opts.drop_first(), role, Some(l)),
                    None => Err(bad_level()),
                },
                _ => add_scan(opts.drop_first(), role, level),
            }
        } else {
            add_scan(opts.drop_first(), role, level)
        }
    }
}

/// The role id and level of `add`, or the message that rejects them.
pub open spec fn role_and_level(opts: Seq<CommandOption>) -> Result<(Seq<char>, AdminRole), Seq<char>> {
    match add_scan(opts, None, None) {
        Ok((Some(r), Some(l))) => Ok((r, l)),
        Ok((None, _)) => Err(role_required()),
        Ok((Some(_), None)) => Err(level_required()),
        Err(m) => Err(m),
    }
}

/// Reads the role id and level of `add`, or the message that rejects them.
pub fn extract_role_and_level(subcmd: &CommandOption) -> (r: Result<(String, AdminRole), String>)
    ensures
        match role_and_level(sub_options(*subcmd)) {
            Ok((v, l)) => r matches Ok((x, y)) && x@ == v && y == l,
            Err(m) => r matches Err(e) && e@ == m,
        },
{
    let empty: Vec<CommandOption> = Vec::new();
    let opts = match &subcmd.value {
        OptionValue::SubCommand(v) => v,
        _ => &empty,
    };
    assert(opts@ == sub_options(*subcmd));
    let mut role: Option<String> = None;
    let mut level: Option<AdminRole> = None;
    let mut i: usize = 0;
    assert(opts@.skip(0) == opts@);
    while i < opts.len()
        invariant
            i <= opts.len(),
            opts@ == sub_options(*subcmd),
            add_scan(opts@, None, None) == add_scan(opts@.skip(i as int),
                match role { Some(x) => Some(x@), None => None }, level),
        decreases opts.len() - i,
    {
        let ghost rest = opts@.skip(i as int);
        assert(rest[0] == opts@[i as int]);
        assert(rest.drop_first() == opts@.skip(i + 1));
        proof {
            reveal_strlit("role_id");
            reveal_strlit("level");
            assert("role_id"@.len() != "level"@.len());
        }
        let o = &opts[i];
        if text_eq(o.name.as_str(), "role_id") {
            if let OptionValue::String(v) = &o.value {
                if !is_snowflake(v.as_str()) {
                    return Err(String::from_str("Role ID must be a valid snowflake."));
                }
                role = Some(v.clone());
            }
        } else if text_eq(o.name.as_str(), "level") {
            if let OptionValue::String(v) = &o.value {
                let parsed = AdminRole::parse(v.as_str());
                match parsed {
                    Some(l) => {
                        level = Some(l);
                    },
                    None => {
                        return Err(String::from_str("Admin level must be one of: owner, admin, moderator, analyst."));
                    },
                }
            }
        }
        i = i + 1;
    }
    assert(opts@.skip(i as int).len() == 0);
    match (role, level) {
        (Some(r), Some(l)) => Ok((r, l)),
        (None, _) => Err(String::from_str("Role ID is required.")),
        (Some(_), None) => Err(String::from_str("Admin level is required.")),
    }
}

/// What `/adminrole` is asked to do.
pub enum AdminRoleRequest {
    Add { role_id: String, level: AdminRole },
    Remove { role_id: String },
    List,
    /// No subcommand was given.
    Invalid,
    Unknown,
    /// The options are wrong; the message says how.
    Rejected { message: String },
}

pub open spec fn admin_request(opts: Seq<CommandOption>) -> (int, Seq<char>, Option<AdminRole>) {
    if opts.len() == 0 {
        (3, seq![], None)
    } else if opts[0].name@ == "add"@ {
        match role_and_level(sub_options(opts[0])) {
            Ok((r, l)) => (0, r, Some(l)),
            Err(m) => (5, m, None),
        }
    } else if opts[0].name@ == "remove"@ {
        match role_id_of(sub_options(opts[0])) {
            Ok(r) => (1, r, None),
            Err(m) => (5, m, None),
        }
    } else if opts[0].name@ == "list"@ {
        (2, seq![], None)
    } else {
        (4, seq![], None)
    }
}

pub open spec fn admin_request_view(r: AdminRoleRequest) -> (int, Seq<char>, Option<AdminRole>) {
    match r {
        AdminRoleRequest::Add { role_id, level } => (0, role_id@, Some(level)),
        AdminRoleRequest::Remove { role_id } => (1, role_id@, None),
        AdminRoleRequest::List => (2, seq![], None),
        AdminRoleRequest::Invalid => (3, seq![], None),
        AdminRoleRequest::Unknown => (4, seq![], None),
        AdminRoleRequest::Rejected { message } => (5, message@, None),
    }
}

/// Reads the options of `/adminrole`.
pub fn parse_admin_request(options: &Vec<CommandOption>) -> (r: AdminRoleRequest)
    ensures
        admin_request_view(r) == admin_request(options@),
{
    if options.len() == 0 {
        return AdminRoleRequest::Invalid;
    }
    let sub = &options[0];
    if text_eq(sub.name.as_str(), "add") {
        match extract_role_and_level(sub) {
            Ok((role_id, level)) => AdminRoleRequest::Add { role_id, level },
            Err(message) => AdminRoleRequest::Rejected { message },
        }
    } else if text_eq(sub.name.as_str(), "remove") {
        match extract_role_id(sub) {
            Ok(role_id) => AdminRoleRequest::Remove { role_id },
            Err(message) => AdminRoleRequest::Rejected { message },
        }
    } else if text_eq(sub.name.as_str(), "list") {
        AdminRoleRequest::List
    } else {
        AdminRoleRequest::Unknown
    }
}

/// `Mapped <@&<role>> to **<level>**.`
pub fn added_message(role_id: &str, level: AdminRole) -> (r: String)
    ensures
        r@ == "Mapped <@&"@ + role_id@ + "> to **"@ + role_name(level) + "**."@,
{
    let mut s = String::from_str("Mapped <@&");
    s.append(role_id);
    s.append("> to **");
    s.append(level.as_str());
    s.append("**.");
    s
}

/// The reply to `remove`: whether a mapping was removed.
pub fn removed_message(role_id: &str, removed: bool) -> (r: String)
    ensures
        r@ == if removed { "Removed mapping for <@&"@ + role_id@ + ">."@ }
            else { "No admin mapping exists for <@&"@ + role_id@ + ">."@ },
{
    let mut s = if removed {
        String::from_str("Removed mapping for <@&")
    } else {
        String::from_str("No admin mapping exists for <@&")
    };
    s.append(role_id);
    s.append(">.");
    s
}

/// `- <@&<role>>: **<level>**`.
pub open spec fn mapping_line(a: (Seq<char>, AdminRole)) -> Seq<char> {
    "- <@&"@ + a.0 + ">: **"@ + role_name(a.1) + "**"@
}

/// The list of mappings, one per line, or a note that there are none.
pub open spec fn mappings_text(a: Seq<(Seq<char>, AdminRole)>) -> Seq<char> {
    if a.len() == 0 {
        "No admin roles configured yet."@
    } else {
        join(Seq::new(a.len(), |i: int| mapping_line(a[i])), "\n"@)
    }
}

pub fn mappings_description(assignments: &Vec<RoleAssignment>) -> (r: String)
    ensures
        r@ == mappings_text(assignment_views(assignments@)),
{
    let ghost av = assignment_views(assignments@);
    if assignments.len() == 0 {
        return String::from_str("No admin roles configured yet.");
    }
    let ghost lines = Seq::new(av.len(), |i: int| mapping_line(av[i]));
    let mut vs: Vec<Vec<char>> = Vec::new();
    let mut i: usize = 0;
    while i < assignments.len()
        invariant
            i <= assignments.len(),
            av == assignment_views(assignments@),
            lines == Seq::new(av.len(), |i: int| mapping_line(av[i])),
            views(vs@) == lines.take(i as int),
        decreases assignments.len() - i,
    {
        let a = &assignments[i];
        let mut s = String::from_str("- <@&");
        s.append(a.role_id.as_str());
        s.append(">: **");
        s.append(a.role.as_str());
        s.append("**");
        let ghost before = views(vs@);
        vs.push(chars_of(s.as_str()));
        assert(views(vs@) =~= before.push(lines[i as int]));
        assert(lines.take(i + 1) =~= lines.take(i as int).push(lines[i as int]));
        i = i + 1;
    }
    assert(lines.take(assignments.len() as int) =~= lines);
    let sep = chars_of("\n");
    string_of(&join_chars(&vs, &sep))
}

} // verus!
