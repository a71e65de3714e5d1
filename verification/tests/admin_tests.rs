use yotsuba::admin::{added_message, mappings_description, parse_admin_request, removed_message, AdminRoleRequest};
use yotsuba::commands::{AdminRole, RoleAssignment};
use yotsuba::options::{CommandOption, OptionValue};

fn opt(name: &str, value: OptionValue) -> CommandOption {
    CommandOption { name: name.into(), value }
}

fn s(v: &str) -> OptionValue {
    OptionValue::String(v.into())
}

#[test]
fn add_reads_role_and_level() {
    let opts = vec![opt("add", OptionValue::SubCommand(vec![opt("role_id", s("123")), opt("level", s("moderator"))]))];
    match parse_admin_request(&opts) {
        AdminRoleRequest::Add { role_id, level } => {
            assert_eq!(role_id, "123");
            assert!(level == AdminRole::Moderator);
        }
        _ => panic!("expected add"),
    }
}

#[test]
fn add_rejections() {
    let bad_id = vec![opt("add", OptionValue::SubCommand(vec![opt("role_id", s("abc")), opt("level", s("admin"))]))];
    assert!(matches!(parse_admin_request(&bad_id), AdminRoleRequest::Rejected { message } if message == "Role ID must be a valid snowflake."));
    let bad_level = vec![opt("add", OptionValue::SubCommand(vec![opt("role_id", s("1")), opt("level", s("boss"))]))];
    assert!(matches!(parse_admin_request(&bad_level), AdminRoleRequest::Rejected { message }
        if message == "Admin level must be one of: owner, admin, moderator, analyst."));
    let no_level = vec![opt("add", OptionValue::SubCommand(vec![opt("role_id", s("1"))]))];
    assert!(matches!(parse_admin_request(&no_level), AdminRoleRequest::Rejected { message } if message == "Admin level is required."));
    let none = vec![opt("add", OptionValue::SubCommand(vec![]))];
    assert!(matches!(parse_admin_request(&none), AdminRoleRequest::Rejected { message } if message == "Role ID is required."));
}

#[test]
fn remove_and_list() {
    let remove = vec![opt("remove", OptionValue::SubCommand(vec![opt("role_id", s("55"))]))];
    assert!(matches!(parse_admin_request(&remove), AdminRoleRequest::Remove { role_id } if role_id == "55"));
    assert!(matches!(parse_admin_request(&vec![opt("list", OptionValue::Other)]), AdminRoleRequest::List));
    assert!(matches!(parse_admin_request(&vec![]), AdminRoleRequest::Invalid));
    assert!(matches!(parse_admin_request(&vec![opt("zap", OptionValue::Other)]), AdminRoleRequest::Unknown));
}

#[test]
fn admin_messages() {
    assert_eq!(added_message("5", AdminRole::Owner), "Mapped <@&5> to **owner**.");
    assert_eq!(removed_message("5", true), "Removed mapping for <@&5>.");
    assert_eq!(removed_message("5", false), "No admin mapping exists for <@&5>.");
    assert_eq!(mappings_description(&vec![]), "No admin roles configured yet.");
    let rs = vec![
        RoleAssignment { role_id: "1".into(), role: AdminRole::Admin },
        RoleAssignment { role_id: "2".into(), role: AdminRole::Analyst },
    ];
    assert_eq!(mappings_description(&rs), "- <@&1>: **admin**\n- <@&2>: **analyst**");
}
