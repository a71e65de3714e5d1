use yotsuba::commands::{
    check_roles, component_name, interaction_kind, parse_remind_id, precheck, remind_reply, role_denied_message,
    route_command, AdminRole, CommandKind, CommandRegistry, ComponentAction, CountdownCommand, CreateOutcome,
    PingCommand, Precheck, RoleAssignment, Route,
};

#[test]
fn admin_levels_order() {
    assert!(AdminRole::Owner.allows(AdminRole::Admin));
    assert!(AdminRole::Admin.allows(AdminRole::Admin));
    assert!(!AdminRole::Moderator.allows(AdminRole::Admin));
    assert!(AdminRole::parse("analyst") == Some(AdminRole::Analyst));
    assert!(AdminRole::parse("Owner").is_none());
    assert_eq!(AdminRole::Moderator.as_str(), "moderator");
}

#[test]
fn registry_knows_thirteen_commands() {
    let reg = CommandRegistry::new();
    assert_eq!(reg.names().len(), 13);
    assert!(reg.get("ping") == Some(CommandKind::Ping));
    assert!(reg.get("countdown").is_none());
    assert!(reg.get("nope").is_none());
    assert_eq!(PingCommand.name(), "ping");
    assert!(CountdownCommand.kind() == CommandKind::Countdown);
}

#[test]
fn prechecks() {
    assert!(precheck(CommandKind::Subscribe, false, true) == Precheck::NeedsGuild);
    assert!(precheck(CommandKind::Subscribe, true, false) == Precheck::NeedsManageGuild);
    assert!(precheck(CommandKind::Unsubscribe, true, true) == Precheck::CheckRoles { required: AdminRole::Admin });
    assert!(precheck(CommandKind::Ping, false, false) == Precheck::Allowed);
}

#[test]
fn routes() {
    let reg = CommandRegistry::new();
    assert!(matches!(route_command(&reg, "reminder", false, false), Route::Reminder));
    assert!(matches!(route_command(&reg, "hash", false, false), Route::Run { kind: CommandKind::Hash }));
    match route_command(&reg, "adminrole", true, false) {
        Route::Rejected { message, permission } => {
            assert_eq!(message, "You need the **Manage Server** permission to use this command.");
            assert!(permission);
        }
        _ => panic!("expected a refusal"),
    }
    match route_command(&reg, "team", false, false) {
        Route::Rejected { message, permission } => {
            assert_eq!(message, "This command must be used in a server.");
            assert!(!permission);
        }
        _ => panic!("expected a refusal"),
    }
    assert!(matches!(route_command(&reg, "adminrole", true, true),
        Route::CheckRoles { kind: CommandKind::AdminRoles, required: AdminRole::Admin }));
    match route_command(&reg, "countdown", true, true) {
        Route::Rejected { message, .. } => assert_eq!(
            message,
            "Command `countdown` is not recognized. Use `/help` to see available commands."
        ),
        _ => panic!("expected a refusal"),
    }
}

#[test]
fn admin_roles_decide() {
    let member = vec!["10".to_string(), "20".to_string()];
    assert!(check_roles(AdminRole::Admin, &member, &vec![]));
    let roles = vec![
        RoleAssignment { role_id: "10".into(), role: AdminRole::Moderator },
        RoleAssignment { role_id: "30".into(), role: AdminRole::Owner },
    ];
    assert!(!check_roles(AdminRole::Admin, &member, &roles));
    assert!(check_roles(AdminRole::Moderator, &member, &roles));
    let more = vec!["10".to_string(), "30".to_string()];
    assert!(check_roles(AdminRole::Admin, &more, &roles));
    assert_eq!(
        role_denied_message(AdminRole::Admin),
        "You need an admin role of **admin** or higher to use this command."
    );
}

#[test]
fn component_ids_route() {
    assert!(matches!(ComponentAction::from_str("remind:123"), Ok(ComponentAction::Remind(r)) if r == "123"));
    assert!(matches!(ComponentAction::from_str("writeups:page:x:1"), Ok(ComponentAction::Writeups)));
    assert!(matches!(ComponentAction::from_str("event_current:page:2:5"), Ok(ComponentAction::EventCurrent(r)) if r == "page:2:5"));
    assert!(matches!(ComponentAction::from_str("reminder_list"), Ok(ComponentAction::ReminderList(r)) if r.is_empty()));
    assert!(ComponentAction::from_str("event:current:page:2:5").is_err());
    assert_eq!(component_name("writeups:page:x"), "writeups");
    assert_eq!(component_name("plain"), "plain");
    assert_eq!(interaction_kind(true, false), "slash");
    assert_eq!(interaction_kind(false, true), "component");
    assert_eq!(interaction_kind(false, false), "unknown");
}

#[test]
fn remind_button_replies() {
    assert_eq!(parse_remind_id("77"), Ok(77));
    assert_eq!(parse_remind_id("x"), Err("Invalid CTFtime ID".to_string()));
    assert_eq!(remind_reply(CreateOutcome::Created, "CTF", 100), "I'll remind you when **CTF** starts (<t:100:R>).");
    assert_eq!(remind_reply(CreateOutcome::AlreadyExists, "CTF", 100), "You already have a reminder for this event.");
}
