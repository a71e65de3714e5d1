//! Slash-command options as the commands read them: a name and a value.

use vstd::prelude::*;

verus! {

/// The value of one command option. `Number` holds the decimal text of the
/// number that the user entered; option kinds that no command reads are `Other`.
pub enum OptionValue {
    String(String),
    Integer(i64),
    Number(String),
    Boolean(bool),
    Channel(u64),
    SubCommand(Vec<CommandOption>),
    SubCommandGroup(Vec<CommandOption>),
    Focused(String),
    Other,
}

/// One named option of a command invocation.
pub struct CommandOption {
    pub name: String,
    pub value: OptionValue,
}

/// The first option with the given name.
pub open spec fn named(opts: Seq<CommandOption>, name: Seq<char>) -> Option<CommandOption>
    decreases opts.len(),
{
    if opts.len() == 0 {
        None
    } else if opts[0].name@ == name {
        Some(opts[0])
    } else {
        named(opts.drop_first(), name)
    }
}

/// Index of the first option with the given name.
pub fn find_named(opts: &Vec<CommandOption>, name: &str) -> (r: Option<usize>)
    ensures
        match r {
            Some(i) => i < opts.len() && named(opts@, name@) == Some(opts@[i as int]),
            None => named(opts@, name@) is None,
        },
{
    let mut i: usize = 0;
    assert(opts@.skip(0) == opts@);
    while i < opts.len()
        invariant
            i <= opts.len(),
            named(opts@, name@) == named(opts@.skip(i as int), name@),
        decreases opts.len() - i,
    {
        assert(opts@.skip(i as int)[0] == opts@[i as int]);
        assert(opts@.skip(i as int).drop_first() == opts@.skip(i + 1));
        if crate::text::text_eq(opts[i].name.as_str(), name) {
            return Some(i);
        }
        i = i + 1;
    }
    None
}

/// The string value of the first option named `name`, when that value is a string.
pub open spec fn string_option(opts: Seq<CommandOption>, name: Seq<char>) -> Option<Seq<char>> {
    match named(opts, name) {
        Some(o) => match o.value {
            OptionValue::String(v) => Some(v@),
            _ => None,
        },
        None => None,
    }
}

/// The integer value of the first option named `name`, when that value is an integer.
pub open spec fn integer_option(opts: Seq<CommandOption>, name: Seq<char>) -> Option<i64> {
    match named(opts, name) {
        Some(o) => match o.value {
            OptionValue::Integer(v) => Some(v),
            _ => None,
        },
        None => None,
    }
}

pub fn get_integer_option(opts: &Vec<CommandOption>, name: &str) -> (r: Option<i64>)
    ensures
        r == integer_option(opts@, name@),
{
    match find_named(opts, name) {
        Some(i) => match &opts[i].value {
            OptionValue::Integer(v) => Some(*v),
            _ => None,
        },
        None => None,
    }
}

/// The value of the last option named `name` whose value is a string (empty
/// when there is none): later options replace earlier ones.
pub open spec fn last_string(opts: Seq<CommandOption>, name: Seq<char>) -> Seq<char>
    decreases opts.len(),
{
    if opts.len() == 0 {
        seq![]
    } else if opts.last().name@ == name && opts.last().value is String {
        match opts.last().value {
            OptionValue::String(v) => v@,
            _ => seq![],
        }
    } else {
        last_string(opts.drop_last(), name)
    }
}

/// The value of the last option named `name` whose value is a string, or an
/// empty string.
pub fn last_string_value(opts: &Vec<CommandOption>, name: &str) -> (r: String)
    ensures
        r@ == last_string(opts@, name@),
{
    let mut out = String::new();
    let mut i: usize = 0;
    while i < opts.len()
        invariant
            i <= opts.len(),
            out@ == last_string(opts@.take(i as int), name@),
        decreases opts.len() - i,
    {
        let ghost pre = opts@.take(i as int);
        let ghost nxt = opts@.take(i + 1);
        assert(nxt.drop_last() == pre);
        assert(nxt.last() == opts@[i as int]);
        if let OptionValue::String(s) = &opts[i].value {
            if crate::text::text_eq(opts[i].name.as_str(), name) {
                out = s.clone();
            }
        }
        i = i + 1;
    }
    assert(opts@.take(opts.len() as int) == opts@);
    out
}

/// The last option with the given name: what a map from names to values,
/// filled in order, keeps for that name.
pub open spec fn last_named(opts: Seq<CommandOption>, name: Seq<char>) -> Option<CommandOption>
    decreases opts.len(),
{
    if opts.len() == 0 {
        None
    } else if opts.last().name@ == name {
        Some(opts.last())
    } else {
        last_named(opts.drop_last(), name)
    }
}

/// Index of the last option with the given name.
pub fn find_last_named(opts: &Vec<CommandOption>, name: &str) -> (r: Option<usize>)
    ensures
        match r {
            Some(i) => i < opts.len() && last_named(opts@, name@) == Some(opts@[i as int]),
            None => last_named(opts@, name@) is None,
        },
{
    let mut i: usize = opts.len();
    assert(opts@.take(i as int) == opts@);
    while i > 0
        invariant
            i <= opts.len(),
            last_named(opts@, name@) == last_named(opts@.take(i as int), name@),
        decreases i,
    {
        assert(opts@.take(i as int).last() == opts@[i - 1]);
        assert(opts@.take(i as int).drop_last() == opts@.take(i - 1));
        if crate::text::text_eq(opts[i - 1].name.as_str(), name) {
            return Some(i - 1);
        }
        i = i - 1;
    }
    None
}

/// The integer under `name`, when the last option so named holds one.
pub open spec fn int_under(opts: Seq<CommandOption>, name: Seq<char>) -> Option<i64> {
    match last_named(opts, name) {
        Some(o) => match o.value {
            OptionValue::Integer(v) => Some(v),
            _ => None,
        },
        None => None,
    }
}

/// The text under `name`, when the last option so named holds one.
pub open spec fn str_under(opts: Seq<CommandOption>, name: Seq<char>) -> Option<Seq<char>> {
    match last_named(opts, name) {
        Some(o) => match o.value {
            OptionValue::String(v) => Some(v@),
            _ => None,
        },
        None => None,
    }
}

/// The integer under `name` (the last option so named wins).
pub fn opt_int(opts: &Vec<CommandOption>, name: &str) -> (r: Option<i64>)
    ensures
        r == int_under(opts@, name@),
{
    match find_last_named(opts, name) {
        Some(i) => match &opts[i].value {
            OptionValue::Integer(v) => Some(*v),
            _ => None,
        },
        None => None,
    }
}

/// The text under `name` (the last option so named wins).
pub fn opt_str(opts: &Vec<CommandOption>, name: &str) -> (r: Option<String>)
    ensures
        match str_under(opts@, name@) {
            Some(t) => r matches Some(s) && s@ == t,
            None => r is None,
        },
{
    match find_last_named(opts, name) {
        Some(i) => match &opts[i].value {
            OptionValue::String(v) => Some(v.clone()),
            _ => None,
        },
        None => None,
    }
}

/// The integer under `name`, or 0.
pub fn opt_int_or_zero(opts: &Vec<CommandOption>, name: &str) -> (r: i64)
    ensures
        r == match int_under(opts@, name@) {
            Some(v) => v,
            None => 0,
        },
{
    match opt_int(opts, name) {
        Some(v) => v,
        None => 0,
    }
}

} // verus!
