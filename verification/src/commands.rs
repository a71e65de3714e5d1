//! The slash commands: their names and guards, the registry that finds them,
//! who may run them, and how button ids are routed.

use vstd::prelude::*;
use crate::text::{chars_of, string_of, text_eq, split_once, split_once_chars};
use crate::num::{int_text, text_i64, parse_int, parse_i64};

verus! {

/// Admin levels, from the highest (`Owner`) to the lowest (`Analyst`).
#[derive(Clone, Copy, PartialEq, Eq, Structural)]
pub enum AdminRole {
    Owner,
    Admin,
    Moderator,
    Analyst,
}

/// The rank of a level: a higher rank is a higher level.
pub open spec fn rank(r: AdminRole) -> int {
    match r {
        AdminRole::Owner => 3,
        AdminRole::Admin => 2,
        AdminRole::Moderator => 1,
        AdminRole::Analyst => 0,
    }
}

pub open spec fn role_name(r: AdminRole) -> Seq<char> {
    match r {
        AdminRole::Owner => "owner"@,
        AdminRole::Admin => "admin"@,
        AdminRole::Moderator => "moderator"@,
        AdminRole::Analyst => "analyst"@,
    }
}

/// The level with this name.
pub open spec fn named_role(s: Seq<char>) -> Option<AdminRole> {
    if s == "owner"@ { Some(AdminRole::Owner) }
    else if s == "admin"@ { Some(AdminRole::Admin) }
    else if s == "moderator"@ { Some(AdminRole::Moderator) }
    else if s == "analyst"@ { Some(AdminRole::Analyst) }
    else { None }
}

impl AdminRole {
    pub fn as_str(&self) -> (r: &'static str)
        ensures
            r@ == role_name(*self),
    {
        match self {
            AdminRole::Owner => "owner",
            AdminRole::Admin => "admin",
            AdminRole::Moderator => "moderator",
            AdminRole::Analyst => "analyst",
        }
    }

    /// Reads a level from its name.
    pub fn parse(s: &str) -> (r: Option<AdminRole>)
        ensures
            r == named_role(s@),
            r matches Some(role) ==> role_name(role) == s@,
            r is None ==> forall|role: AdminRole| role_name(role) != s@,
    {
        proof {
            reveal_strlit("owner");
            reveal_strlit("admin");
            reveal_strlit("moderator");
            reveal_strlit("analyst");
        }
        if text_eq(s, "owner") {
            Some(AdminRole::Owner)
        } else if text_eq(s, "admin") {
            Some(AdminRole::Admin)
        } else if text_eq(s, "moderator") {
            Some(AdminRole::Moderator)
        } else if text_eq(s, "analyst") {
            Some(AdminRole::Analyst)
        } else {
            proof {
                assert forall|role: AdminRole| role_name(role) != s@ by {
                    match role {
                        AdminRole::Owner => {},
                        AdminRole::Admin => {},
                        AdminRole::Moderator => {},
                        AdminRole::Analyst => {},
                    }
                }
            }
            None
        }
    }

    /// Whether holding this level is enough for a command that needs `required`:
    /// the level must be `required` or higher.
    pub fn allows(&self, required: AdminRole) -> (r: bool)
        ensures
            r == (rank(*self) >= rank(required)),
    {
        self.rank_value() >= required.rank_value()
    }

    fn rank_value(&self) -> (r: u8)
        ensures
            r == rank(*self),
    {
        match self {
            AdminRole::Owner => 3,
            AdminRole::Admin => 2,
            AdminRole::Moderator => 1,
            AdminRole::Analyst => 0,
        }
    }
}

/// The admin levels are totally ordered, owner highest: every level allows
/// itself, the owner level allows every level, and a level allows whatever a
/// level it allows allows.
pub proof fn lemma_allows_order(a: AdminRole, b: AdminRole, c: AdminRole)
    ensures
        rank(a) >= rank(a),
        rank(AdminRole::Owner) >= rank(b),
        rank(a) >= rank(b) || rank(b) >= rank(a),
        rank(a) >= rank(b) && rank(b) >= rank(c) ==> rank(a) >= rank(c),
        rank(a) == rank(b) ==> a == b,
{
}

/// Every slash command the bot offers.
#[derive(Clone, Copy, PartialEq, Eq, Structural)]
pub enum CommandKind {
    Ping,
    Help,
    Event,
    Cipher,
    Hash,
    Leaderboard,
    Writeups,
    Team,
    AdminRoles,
    Subscribe,
    Unsubscribe,
    Digest,
    Reminder,
    Countdown,
}

pub open spec fn command_name(k: CommandKind) -> Seq<char> {
    match k {
        CommandKind::Ping => "ping"@,
        CommandKind::Help => "help"@,
        CommandKind::Event => "event"@,
        CommandKind::Cipher => "cipher"@,
        CommandKind::Hash => "hash"@,
        CommandKind::Leaderboard => "leaderboard"@,
        CommandKind::Writeups => "writeups"@,
        CommandKind::Team => "team"@,
        CommandKind::AdminRoles => "adminrole"@,
        CommandKind::Subscribe => "subscribe"@,
        CommandKind::Unsubscribe => "unsubscribe"@,
        CommandKind::Digest => "digest"@,
        CommandKind::Reminder => "reminder"@,
        CommandKind::Countdown => "countdown"@,
    }
}

/// Commands that can only run in a server.
pub open spec fn needs_guild(k: CommandKind) -> bool {
    k == CommandKind::Team || k == CommandKind::AdminRoles || k == CommandKind::Subscribe
        || k == CommandKind::Unsubscribe || k == CommandKind::Digest
}

/// Commands that need the Manage Server permission.
pub open spec fn needs_manage_guild(k: CommandKind) -> bool {
    k == CommandKind::AdminRoles || k == CommandKind::Subscribe || k == CommandKind::Unsubscribe
        || k == CommandKind::Digest
}

/// The admin level a command needs, when admin roles are configured.
pub open spec fn needed_role(k: CommandKind) -> Option<AdminRole> {
    if k == CommandKind::AdminRoles || k == CommandKind::Unsubscribe {
        Some(AdminRole::Admin)
    } else {
        None
    }
}

impl CommandKind {
    pub fn name(&self) -> (r: &'static str)
        ensures
            r@ == command_name(*self),
    {
        match self {
            CommandKind::Ping => "ping",
            CommandKind::Help => "help",
            CommandKind::Event => "event",
            CommandKind::Cipher => "cipher",
            CommandKind::Hash => "hash",
            CommandKind::Leaderboard => "leaderboard",
            CommandKind::Writeups => "writeups",
            CommandKind::Team => "team",
            CommandKind::AdminRoles => "adminrole",
            CommandKind::Subscribe => "subscribe",
            CommandKind::Unsubscribe => "unsubscribe",
            CommandKind::Digest => "digest",
            CommandKind::Reminder => "reminder",
            CommandKind::Countdown => "countdown",
        }
    }

    pub fn requires_guild(&self) -> (r: bool)
        ensures
            r == needs_guild(*self),
    {
        match self {
            CommandKind::Team | CommandKind::AdminRoles | CommandKind::Subscribe
            | CommandKind::Unsubscribe | CommandKind::Digest => true,
            _ => false,
        }
    }

    pub fn requires_manage_guild(&self) -> (r: bool)
        ensures
            r == needs_manage_guild(*self),
    {
        match self {
            CommandKind::AdminRoles | CommandKind::Subscribe | CommandKind::Unsubscribe
            | CommandKind::Digest => true,
            _ => false,
        }
    }

    pub fn required_admin_role(&self) -> (r: Option<AdminRole>)
        ensures
            r == needed_role(*self),
    {
        match self {
            CommandKind::AdminRoles | CommandKind::Unsubscribe => Some(AdminRole::Admin),
            _ => None,
        }
    }
}

/// The commands that the registry holds, in the order it lists them.
pub open spec fn registered() -> Seq<CommandKind> {
    seq![CommandKind::Ping, CommandKind::Help, CommandKind::Event, CommandKind::Cipher,
        CommandKind::Hash, CommandKind::Leaderboard, CommandKind::Writeups, CommandKind::Team,
        CommandKind::AdminRoles, CommandKind::Subscribe, CommandKind::Unsubscribe,
        CommandKind::Digest, CommandKind::Reminder]
}

/// The registry of slash commands, found by name.
pub struct CommandRegistry {
    commands: Vec<CommandKind>,
}

impl View for CommandRegistry {
    type V = Seq<CommandKind>;

    /// The commands the registry holds, in order.
    closed spec fn view(&self) -> Seq<CommandKind> {
        self.commands@
    }
}

impl CommandRegistry {
    /// The registry holds exactly the registered commands, in order.
    #[verifier::type_invariant]
    spec fn holds_registered(&self) -> bool {
        self.commands@ == registered()
    }

    pub fn new() -> (r: CommandRegistry)
        ensures
            r@ == registered(),
    {
        let commands = vec![CommandKind::Ping, CommandKind::Help, CommandKind::Event,
            CommandKind::Cipher, CommandKind::Hash, CommandKind::Leaderboard, CommandKind::Writeups,
            CommandKind::Team, CommandKind::AdminRoles, CommandKind::Subscribe,
            CommandKind::Unsubscribe, CommandKind::Digest, CommandKind::Reminder];
        CommandRegistry { commands }
    }

    /// The registered command with this name.
    pub fn get(&self, name: &str) -> (r: Option<CommandKind>)
        ensures
            r matches Some(k) ==> registered().contains(k) && command_name(k) == name@,
            r is None ==> forall|k: CommandKind| registered().contains(k) ==> command_name(k) != name@,
    {
        proof { use_type_invariant(self); }
        let mut i: usize = 0;
        while i < self.commands.len()
            invariant
                self.commands@ == registered(),
                i <= self.commands.len(),
                forall|j: int| 0 <= j < i ==> command_name(#[trigger] self.commands@[j]) != name@,
            decreases self.commands.len() - i,
        {
            let k = self.commands[i];
            if text_eq(k.name(), name) {
                assert(registered()[i as int] == k);
                return Some(k);
            }
            i = i + 1;
        }
        proof {
            assert forall|k: CommandKind| registered().contains(k) implies command_name(k) != name@ by {
                let j = choose|j: int| 0 <= j < registered().len() && registered()[j] == k;
                assert(self.commands@[j] == k);
            }
        }
        None
    }

    /// The registered commands, in order.
    pub fn kinds(&self) -> (r: Vec<CommandKind>)
        ensures
            r@ == registered(),
    {
        proof { use_type_invariant(self); }
        let mut out: Vec<CommandKind> = Vec::new();
        let mut i: usize = 0;
        while i < self.commands.len()
            invariant
                self.commands@ == registered(),
                i <= self.commands.len(),
                out@ == registered().take(i as int),
            decreases self.commands.len() - i,
        {
            out.push(self.commands[i]);
            assert(registered().take(i + 1) == registered().take(i as int).push(registered()[i as int]));
            i = i + 1;
        }
        assert(registered().take(self.commands.len() as int) == registered());
        out
    }

    /// The names of the registered commands.
    pub fn names(&self) -> (r: Vec<&'static str>)
        ensures
            r@.len() == registered().len(),
            forall|i: int| 0 <= i < r@.len() ==> (#[trigger] r@[i])@ == command_name(registered()[i]),
    {
        proof { use_type_invariant(self); }
        let mut out: Vec<&'static str> = Vec::new();
        let mut i: usize = 0;
        while i < self.commands.len()
            invariant
                self.commands@ == registered(),
                i <= self.commands.len(),
                out@.len() == i,
                forall|j: int| 0 <= j < i ==> (#[trigger] out@[j])@ == command_name(registered()[j]),
            decreases self.commands.len() - i,
        {
            out.push(self.commands[i].name());
            i = i + 1;
        }
        out
    }
}

// ── Who may run a command ────────────────────────────────────────────────────

/// The first checks before a command runs.
#[derive(PartialEq, Eq, Structural)]
pub enum Precheck {
    /// The command must be used in a server.
    NeedsGuild,
    /// The member lacks the Manage Server permission.
    NeedsManageGuild,
    /// The member's admin roles must be checked against this level.
    CheckRoles { required: AdminRole },
    /// The command may run.
    Allowed,
}

pub open spec fn precheck_of(k: CommandKind, in_guild: bool, can_manage: bool) -> Precheck {
    if needs_guild(k) && !in_guild {
        Precheck::NeedsGuild
    } else if needs_manage_guild(k) && !can_manage {
        Precheck::NeedsManageGuild
    } else {
        match needed_role(k) {
            Some(required) => if in_guild { Precheck::CheckRoles { required } } else { Precheck::Allowed },
            None => Precheck::Allowed,
        }
    }
}

pub fn precheck(k: CommandKind, in_guild: bool, can_manage: bool) -> (r: Precheck)
    ensures
        r == precheck_of(k, in_guild, can_manage),
{
    if k.requires_guild() && !in_guild {
        Precheck::NeedsGuild
    } else if k.requires_manage_guild() && !can_manage {
        Precheck::NeedsManageGuild
    } else {
        match k.required_admin_role() {
            Some(required) => if in_guild { Precheck::CheckRoles { required } } else { Precheck::Allowed },
            None => Precheck::Allowed,
        }
    }
}

/// A server role mapped to an admin level.
pub struct RoleAssignment {
    pub role_id: String,
    pub role: AdminRole,
}

/// Whether a member with these roles may run a command needing `required`: any
/// configured role that the member has must grant `required` or higher; with no
/// roles configured the Manage Server permission suffices.
pub open spec fn roles_allow(required: AdminRole, member_roles: Seq<Seq<char>>, assignments: Seq<(Seq<char>, AdminRole)>) -> bool {
    assignments.len() == 0 || exists|i: int| 0 <= i < assignments.len()
        && member_roles.contains(#[trigger] assignments[i].0) && rank(assignments[i].1) >= rank(required)
}

pub open spec fn assignment_views(a: Seq<RoleAssignment>) -> Seq<(Seq<char>, AdminRole)> {
    Seq::new(a.len(), |i: int| (a[i].role_id@, a[i].role))
}

pub open spec fn string_views(s: Seq<String>) -> Seq<Seq<char>> {
    Seq::new(s.len(), |i: int| s[i]@)
}

fn has_role(member_roles: &Vec<String>, role_id: &String) -> (r: bool)
    ensures
        r == string_views(member_roles@).contains(role_id@),
{
    let mut i: usize = 0;
    while i < member_roles.len()
        invariant
            i <= member_roles.len(),
            forall|j: int| 0 <= j < i ==> member_roles@[j]@ != role_id@,
        decreases member_roles.len() - i,
    {
        if text_eq(member_roles[i].as_str(), role_id.as_str()) {
            assert(string_views(member_roles@)[i as int] == role_id@);
            return true;
        }
        i = i + 1;
    }
    proof {
        if string_views(member_roles@).contains(role_id@) {
            let j = choose|j: int| 0 <= j < member_roles@.len() && string_views(member_roles@)[j] == role_id@;
            assert(member_roles@[j]@ == role_id@);
        }
    }
    false
}

pub fn check_roles(required: AdminRole, member_roles: &Vec<String>, assignments: &Vec<RoleAssignment>) -> (r: bool)
    ensures
        r == roles_allow(required, string_views(member_roles@), assignment_views(assignments@)),
{
    if assignments.len() == 0 {
        return true;
    }
    let ghost av = assignment_views(assignments@);
    let ghost mv = string_views(member_roles@);
    let mut i: usize = 0;
    while i < assignments.len()
        invariant
            i <= assignments.len(),
            av == assignment_views(assignments@),
            mv == string_views(member_roles@),
            forall|j: int| 0 <= j < i ==> !(mv.contains(#[trigger] av[j].0) && rank(av[j].1) >= rank(required)),
        decreases assignments.len() - i,
    {
        let a = &assignments[i];
        if has_role(member_roles, &a.role_id) && a.role.allows(required) {
            assert(av[i as int].0 == a.role_id@);
            return true;
        }
        i = i + 1;
    }
    false
}

/// Giving a member more roles never takes away a permission.
pub proof fn lemma_roles_allow_monotone(required: AdminRole, roles: Seq<Seq<char>>, more: Seq<Seq<char>>,
    assignments: Seq<(Seq<char>, AdminRole)>)
    requires
        roles_allow(required, roles, assignments),
    ensures
        roles_allow(required, roles + more, assignments),
{
    if assignments.len() > 0 {
        let i = choose|i: int| 0 <= i < assignments.len()
            && roles.contains(#[trigger] assignments[i].0) && rank(assignments[i].1) >= rank(required);
        let j = choose|j: int| 0 <= j < roles.len() && roles[j] == assignments[i].0;
        assert((roles + more)[j] == assignments[i].0);
    }
}

/// A member allowed to run a command needing a level may also run every command
/// needing a lower one.
pub proof fn lemma_roles_allow_lower(required: AdminRole, lower: AdminRole, roles: Seq<Seq<char>>,
    assignments: Seq<(Seq<char>, AdminRole)>)
    requires
        roles_allow(required, roles, assignments),
        rank(lower) <= rank(required),
    ensures
        roles_allow(lower, roles, assignments),
{
    if assignments.len() > 0 {
        let i = choose|i: int| 0 <= i < assignments.len()
            && roles.contains(#[trigger] assignments[i].0) && rank(assignments[i].1) >= rank(required);
        assert(roles.contains(assignments[i].0) && rank(assignments[i].1) >= rank(lower));
    }
}

/// `You need an admin role of **<level>** or higher to use this command.`
pub fn role_denied_message(required: AdminRole) -> (r: String)
    ensures
        r@ == "You need an admin role of **"@ + role_name(required) + "** or higher to use this command."@,
{
    let mut s = String::from_str("You need an admin role of **");
    s.append(required.as_str());
    s.append("** or higher to use this command.");
    s
}

// ── Routing of buttons ───────────────────────────────────────────────────────

/// What a button press asks for, by the start of its id.
pub enum ComponentAction {
    Remind(String),
    ReminderList(String),
    Writeups,
    EventUpcoming(String),
    EventCurrent(String),
    EventCompleted(String),
}

/// The name and the rest of an id: the parts around its first `:`, or the
/// whole id and nothing.
pub open spec fn id_parts(s: Seq<char>) -> (Seq<char>, Seq<char>) {
    match split_once(s, ':') {
        Some((a, b)) => (a, b),
        None => (s, seq![]),
    }
}

/// The action of a button id, with the rest of the id where the action uses it.
pub open spec fn action_of(s: Seq<char>) -> Option<(int, Seq<char>)> {
    let (name, rest) = id_parts(s);
    if name == "remind"@ { Some((0, rest)) }
    else if name == "reminder_list"@ { Some((1, rest)) }
    else if name == "writeups"@ { Some((2, rest)) }
    else if name == "event_upcoming"@ { Some((3, rest)) }
    else if name == "event_current"@ { Some((4, rest)) }
    else if name == "event_completed"@ { Some((5, rest)) }
    else { None }
}

pub open spec fn action_view(a: ComponentAction) -> (int, Seq<char>) {
    match a {
        ComponentAction::Remind(r) => (0, r@),
        ComponentAction::ReminderList(r) => (1, r@),
        ComponentAction::Writeups => (2, seq![]),
        ComponentAction::EventUpcoming(r) => (3, r@),
        ComponentAction::EventCurrent(r) => (4, r@),
        ComponentAction::EventCompleted(r) => (5, r@),
    }
}

impl ComponentAction {
    /// Reads a button id.
    pub fn from_str(s: &str) -> (r: Result<ComponentAction, ()>)
        ensures
            match action_of(s@) {
                Some((k, rest)) => r matches Ok(a) && action_view(a).0 == k
                    && (k != 2 ==> action_view(a).1 == rest),
                None => r is Err,
            },
    {
        let chars = chars_of(s);
        let (name, rest) = match split_once_chars(&chars, ':') {
            Some((a, b)) => (string_of(&a), string_of(&b)),
            None => (string_of(&chars), String::new()),
        };
        if text_eq(name.as_str(), "remind") {
            Ok(ComponentAction::Remind(rest))
        } else if text_eq(name.as_str(), "reminder_list") {
            Ok(ComponentAction::ReminderList(rest))
        } else if text_eq(name.as_str(), "writeups") {
            Ok(ComponentAction::Writeups)
        } else if text_eq(name.as_str(), "event_upcoming") {
            Ok(ComponentAction::EventUpcoming(rest))
        } else if text_eq(name.as_str(), "event_current") {
            Ok(ComponentAction::EventCurrent(rest))
        } else if text_eq(name.as_str(), "event_completed") {
            Ok(ComponentAction::EventCompleted(rest))
        } else {
            Err(())
        }
    }
}

proof fn lemma_no_colon(s: Seq<char>)
    requires
        forall|i: int| 0 <= i < s.len() ==> s[i] != ':',
    ensures
        !s.contains(':'),
{
}

/// The reminder, list and writeup buttons that the bot makes are routed back
/// to the action that made them, with the rest of their id.
pub proof fn lemma_buttons_route_back(id: int, cursor: int, sub: Seq<char>, page: int, query: Seq<char>)
    ensures
        action_of("remind:"@ + int_text(id)) == Some((0int, int_text(id))),
        action_of("reminder_list:"@ + int_text(cursor)) == Some((1int, int_text(cursor))),
        action_of(crate::writeups::page_button_id(sub, page, query)) matches Some((k, _)) && k == 2,
{
    reveal_strlit("remind:");
    reveal_strlit("remind");
    reveal_strlit("reminder_list:");
    reveal_strlit("reminder_list");
    reveal_strlit("writeups:page:");
    reveal_strlit("writeups");
    reveal_strlit(":");
    let r: Seq<char> = "remind"@;
    let l: Seq<char> = "reminder_list"@;
    let w: Seq<char> = "writeups"@;
    lemma_no_colon(r);
    lemma_no_colon(l);
    lemma_no_colon(w);
    assert("remind:"@ + int_text(id) =~= r + seq![':'] + int_text(id));
    crate::event::lemma_split_once_at(r, int_text(id), ':');
    assert("reminder_list:"@ + int_text(cursor) =~= l + seq![':'] + int_text(cursor));
    crate::event::lemma_split_once_at(l, int_text(cursor), ':');
    let rest = "page:"@ + sub + ":"@ + int_text(page) + ":"@ + query;
    reveal_strlit("page:");
    assert(crate::writeups::page_button_id(sub, page, query) =~= w + seq![':'] + rest);
    crate::event::lemma_split_once_at(w, rest, ':');
    assert(l != r);
    assert(w != r);
    assert(w != l);
}

/// The name under which a button press is counted: its id up to the first `:`.
pub fn component_name(custom_id: &str) -> (r: String)
    ensures
        r@ == id_parts(custom_id@).0,
{
    let chars = chars_of(custom_id);
    match split_once_chars(&chars, ':') {
        Some((a, _)) => string_of(&a),
        None => string_of(&chars),
    }
}

// ── Routing a slash command ──────────────────────────────────────────────────

/// Where a slash command goes once its name and the invoking member are known.
pub enum Route {
    /// `/reminder`, which reads its own options.
    Reminder,
    /// Run the command.
    Run { kind: CommandKind },
    /// Check the member's admin roles against `required` before running it.
    CheckRoles { kind: CommandKind, required: AdminRole },
    /// Refuse the command with this message; `permission` tells a missing
    /// permission from a misuse.
    Rejected { message: String, permission: bool },
}

/// The route of a command, as a view: a tag, the command, the level, the
/// message and whether a permission is missing.
pub open spec fn route_of(name: Seq<char>, in_guild: bool, can_manage: bool) -> (int, Option<CommandKind>, Option<AdminRole>, Seq<char>, bool) {
    if name == "reminder"@ {
        (0, None, None, seq![], false)
    } else {
        match registered_named(name) {
            Some(k) => match precheck_of(k, in_guild, can_manage) {
                Precheck::NeedsGuild => (3, None, None, "This command must be used in a server."@, false),
                Precheck::NeedsManageGuild => (3, None, None,
                    "You need the **Manage Server** permission to use this command."@, true),
                Precheck::CheckRoles { required } => (2, Some(k), Some(required), seq![], false),
                Precheck::Allowed => (1, Some(k), None, seq![], false),
            },
            None => (3, None, None, "Command `"@ + name + "` is not recognized. Use `/help` to see available commands."@, false),
        }
    }
}

pub open spec fn route_view(r: Route) -> (int, Option<CommandKind>, Option<AdminRole>, Seq<char>, bool) {
    match r {
        Route::Reminder => (0, None, None, seq![], false),
        Route::Run { kind } => (1, Some(kind), None, seq![], false),
        Route::CheckRoles { kind, required } => (2, Some(kind), Some(required), seq![], false),
        Route::Rejected { message, permission } => (3, None, None, message@, permission),
    }
}

/// The registered command with this name.
pub open spec fn registered_named(name: Seq<char>) -> Option<CommandKind> {
    if exists|k: CommandKind| registered().contains(k) && command_name(k) == name {
        Some(choose|k: CommandKind| registered().contains(k) && command_name(k) == name)
    } else {
        None
    }
}

/// Registered commands have distinct names.
pub proof fn lemma_registered_names_distinct(a: CommandKind, b: CommandKind)
    requires
        registered().contains(a),
        registered().contains(b),
        command_name(a) == command_name(b),
    ensures
        a == b,
{
    reveal_strlit("ping");
    reveal_strlit("help");
    reveal_strlit("event");
    reveal_strlit("cipher");
    reveal_strlit("hash");
    reveal_strlit("leaderboard");
    reveal_strlit("writeups");
    reveal_strlit("team");
    reveal_strlit("adminrole");
    reveal_strlit("subscribe");
    reveal_strlit("unsubscribe");
    reveal_strlit("digest");
    reveal_strlit("reminder");
    let i = choose|i: int| 0 <= i < registered().len() && registered()[i] == a;
    let j = choose|j: int| 0 <= j < registered().len() && registered()[j] == b;
    let na = command_name(a);
    let nb = command_name(b);
    assert(na.len() == nb.len());
    assert(na[0] == nb[0]);
    if na.len() > 1 { assert(na[1] == nb[1]); }
    if na.len() > 2 { assert(na[2] == nb[2]); }
}

/// Where a slash command goes: `/reminder` to its own reader, an unknown
/// command to a refusal, and a known one through its guards.
pub fn route_command(registry: &CommandRegistry, name: &str, in_guild: bool, can_manage: bool) -> (r: Route)
    ensures
        route_view(r) == route_of(name@, in_guild, can_manage),
{
    if text_eq(name, "reminder") {
        return Route::Reminder;
    }
    match registry.get(name) {
        Some(k) => {
            proof {
                assert(registered_named(name@) == Some(k)) by {
                    let c = choose|c: CommandKind| registered().contains(c) && command_name(c) == name@;
                    lemma_registered_names_distinct(c, k);
                }
            }
            match precheck(k, in_guild, can_manage) {
                Precheck::NeedsGuild => Route::Rejected {
                    message: String::from_str("This command must be used in a server."),
                    permission: false,
                },
                Precheck::NeedsManageGuild => Route::Rejected {
                    message: String::from_str("You need the **Manage Server** permission to use this command."),
                    permission: true,
                },
                Precheck::CheckRoles { required } => Route::CheckRoles { kind: k, required },
                Precheck::Allowed => Route::Run { kind: k },
            }
        },
        None => {
            let mut m = String::from_str("Command `");
            m.append(name);
            m.append("` is not recognized. Use `/help` to see available commands.");
            Route::Rejected { message: m, permission: false }
        },
    }
}

/// The kind of an interaction, as its metrics name it.
pub fn interaction_kind(is_command: bool, is_component: bool) -> (r: &'static str)
    ensures
        r@ == if is_command { "slash"@ } else if is_component { "component"@ } else { "unknown"@ },
{
    if is_command {
        "slash"
    } else if is_component {
        "component"
    } else {
        "unknown"
    }
}

// ── The reminder button of an event ──────────────────────────────────────────

/// The event id carried by a reminder button, or the message that rejects it.
pub fn parse_remind_id(text: &str) -> (r: Result<i64, String>)
    ensures
        match parse_int(text@, 10, true, i64::MIN as int, i64::MAX as int) {
            Some(v) => r == Ok::<i64, String>(v as i64),
            None => r matches Err(m) && m@ == "Invalid CTFtime ID"@,
        },
{
    let chars = chars_of(text);
    match parse_i64(&chars) {
        Some(v) => Ok(v),
        None => Err(String::from_str("Invalid CTFtime ID")),
    }
}

/// What storing the reminder of a button gave.
#[derive(Clone, Copy, PartialEq, Eq, Structural)]
pub enum CreateOutcome {
    Created,
    AlreadyExists,
    QuotaExceeded,
}

/// The reply to a reminder button; `start` is the event's start as a Unix
/// timestamp.
pub fn remind_reply(outcome: CreateOutcome, title: &str, start: i64) -> (r: String)
    ensures
        r@ == match outcome {
            CreateOutcome::Created => "I'll remind you when **"@ + title@ + "** starts (<t:"@
                + int_text(start as int) + ":R>)."@,
            CreateOutcome::AlreadyExists => "You already have a reminder for this event."@,
            CreateOutcome::QuotaExceeded => "You have too many active reminders. Please delete some before adding more."@,
        },
{
    match outcome {
        CreateOutcome::Created => {
            let mut s = String::from_str("I'll remind you when **");
            s.append(title);
            s.append("** starts (<t:");
            let t = string_of(&text_i64(start));
            s.append(t.as_str());
            s.append(":R>).");
            s
        },
        CreateOutcome::AlreadyExists => String::from_str("You already have a reminder for this event."),
        CreateOutcome::QuotaExceeded => String::from_str("You have too many active reminders. Please delete some before adding more."),
    }
}

// ── The commands ─────────────────────────────────────────────────────────────

/// The `/ping` command.
pub struct PingCommand;

impl PingCommand {
    pub fn kind(&self) -> (r: CommandKind)
        ensures
            r == CommandKind::Ping,
    {
        CommandKind::Ping
    }

    pub fn name(&self) -> (r: &'static str)
        ensures
            r@ == "ping"@,
    {
        CommandKind::Ping.name()
    }
}

/// The `/help` command.
pub struct HelpCommand;

impl HelpCommand {
    pub fn kind(&self) -> (r: CommandKind)
        ensures
            r == CommandKind::Help,
    {
        CommandKind::Help
    }

    pub fn name(&self) -> (r: &'static str)
        ensures
            r@ == "help"@,
    {
        CommandKind::Help.name()
    }
}

/// The `/event` command.
pub struct EventCommand;

impl EventCommand {
    pub fn kind(&self) -> (r: CommandKind)
        ensures
            r == CommandKind::Event,
    {
        CommandKind::Event
    }

    pub fn name(&self) -> (r: &'static str)
        ensures
            r@ == "event"@,
    {
        CommandKind::Event.name()
    }
}

/// The `/cipher` command.
pub struct CipherCommand;

impl CipherCommand {
    pub fn kind(&self) -> (r: CommandKind)
        ensures
            r == CommandKind::Cipher,
    {
        CommandKind::Cipher
    }

    pub fn name(&self) -> (r: &'static str)
        ensures
            r@ == "cipher"@,
    {
        CommandKind::Cipher.name()
    }
}

/// The `/hash` command.
pub struct HashCommand;

impl HashCommand {
    pub fn kind(&self) -> (r: CommandKind)
        ensures
            r == CommandKind::Hash,
    {
        CommandKind::Hash
    }

    pub fn name(&self) -> (r: &'static str)
        ensures
            r@ == "hash"@,
    {
        CommandKind::Hash.name()
    }
}

/// The `/leaderboard` command.
pub struct LeaderboardCommand;

impl LeaderboardCommand {
    pub fn kind(&self) -> (r: CommandKind)
        ensures
            r == CommandKind::Leaderboard,
    {
        CommandKind::Leaderboard
    }

    pub fn name(&self) -> (r: &'static str)
        ensures
            r@ == "leaderboard"@,
    {
        CommandKind::Leaderboard.name()
    }
}

/// The `/writeups` command.
pub struct WriteupsCommand;

impl WriteupsCommand {
    pub fn kind(&self) -> (r: CommandKind)
        ensures
            r == CommandKind::Writeups,
    {
        CommandKind::Writeups
    }

    pub fn name(&self) -> (r: &'static str)
        ensures
            r@ == "writeups"@,
    {
        CommandKind::Writeups.name()
    }
}

/// The `/team` command.
pub struct TeamCommand;

impl TeamCommand {
    pub fn kind(&self) -> (r: CommandKind)
        ensures
            r == CommandKind::Team,
    {
        CommandKind::Team
    }

    pub fn name(&self) -> (r: &'static str)
        ensures
            r@ == "team"@,
    {
        CommandKind::Team.name()
    }
}

/// The `/adminrole` command.
pub struct AdminRoleCommand;

impl AdminRoleCommand {
    pub fn kind(&self) -> (r: CommandKind)
        ensures
            r == CommandKind::AdminRoles,
    {
        CommandKind::AdminRoles
    }

    pub fn name(&self) -> (r: &'static str)
        ensures
            r@ == "adminrole"@,
    {
        CommandKind::AdminRoles.name()
    }
}

/// The `/subscribe` command.
pub struct SubscribeCommand;

impl SubscribeCommand {
    pub fn kind(&self) -> (r: CommandKind)
        ensures
            r == CommandKind::Subscribe,
    {
        CommandKind::Subscribe
    }

    pub fn name(&self) -> (r: &'static str)
        ensures
            r@ == "subscribe"@,
    {
        CommandKind::Subscribe.name()
    }
}

/// The `/unsubscribe` command.
pub struct UnsubscribeCommand;

impl UnsubscribeCommand {
    pub fn kind(&self) -> (r: CommandKind)
        ensures
            r == CommandKind::Unsubscribe,
    {
        CommandKind::Unsubscribe
    }

    pub fn name(&self) -> (r: &'static str)
        ensures
            r@ == "unsubscribe"@,
    {
        CommandKind::Unsubscribe.name()
    }
}

/// The `/digest` command.
pub struct DigestCommand;

impl DigestCommand {
    pub fn kind(&self) -> (r: CommandKind)
        ensures
            r == CommandKind::Digest,
    {
        CommandKind::Digest
    }

    pub fn name(&self) -> (r: &'static str)
        ensures
            r@ == "digest"@,
    {
        CommandKind::Digest.name()
    }
}

/// The `/reminder` command.
pub struct ReminderCommand;

impl ReminderCommand {
    pub fn kind(&self) -> (r: CommandKind)
        ensures
            r == CommandKind::Reminder,
    {
        CommandKind::Reminder
    }

    pub fn name(&self) -> (r: &'static str)
        ensures
            r@ == "reminder"@,
    {
        CommandKind::Reminder.name()
    }
}

/// The `/countdown` command.
pub struct CountdownCommand;

impl CountdownCommand {
    pub fn kind(&self) -> (r: CommandKind)
        ensures
            r == CommandKind::Countdown,
    {
        CommandKind::Countdown
    }

    pub fn name(&self) -> (r: &'static str)
        ensures
            r@ == "countdown"@,
    {
        CommandKind::Countdown.name()
    }
}

} // verus!
