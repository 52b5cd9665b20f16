use ycloud_console_cli::cli::Cli;
use ycloud_console_cli::http::{ApiError, DashboardApiError};
use ycloud_console_cli::json::JsonValue;
use ycloud_console_cli::permissions::{is_reauthorizable, plan, shell_arg};

fn permission_error(required: &str) -> DashboardApiError {
    DashboardApiError::from_api_error(
        403,
        ApiError {
            code: "permission_denied".to_string(),
            message: "Permission denied".to_string(),
            retryable: false,
            details: Some(JsonValue::Object(vec![(
                "requiredPermission".to_string(),
                JsonValue::Str(required.to_string()),
            )])),
        },
    )
}

fn typed_error(status: u16, code: &str) -> DashboardApiError {
    DashboardApiError::from_api_error(
        status,
        ApiError {
            code: code.to_string(),
            message: "failure".to_string(),
            retryable: false,
            details: None,
        },
    )
}

#[test]
fn combined_export_requests_both_permissions_and_preserves_existing_custom_permissions() {
    let cli =
        Cli::try_parse_from(&["ycloud", "inbox", "conversations", "export", "--no-wait"]).unwrap();
    let plan = plan(
        &cli,
        &vec!["yc.integration.status.read".to_string()],
        &permission_error("yc.inbox.conversation.export"),
    )
    .unwrap();

    assert_eq!(
        plan.requested_permissions,
        [
            "yc.contact.record.export",
            "yc.inbox.conversation.export",
            "yc.inbox.message.export",
            "yc.integration.status.read"
        ]
    );
    assert_eq!(
        plan.missing_permissions,
        [
            "yc.contact.record.export",
            "yc.inbox.conversation.export",
            "yc.inbox.message.export"
        ]
    );
}

#[test]
fn export_task_permission_comes_only_from_server_detail() {
    let cli = Cli::try_parse_from(&["ycloud", "exports", "query", "task-1"]).unwrap();
    let plan = plan(&cli, &vec![], &permission_error("yc.contact.record.export")).unwrap();

    assert_eq!(plan.requested_permissions, ["yc.contact.record.export"]);
    assert!(plan.login_command.contains("yc.contact.record.export"));
}

#[test]
fn only_exact_permission_denied_403_is_reauthorizable() {
    assert!(is_reauthorizable(&typed_error(403, "permission_denied")));
    assert!(!is_reauthorizable(&typed_error(401, "permission_denied")));
    assert!(!is_reauthorizable(&typed_error(403, "resource_forbidden")));
    assert!(!is_reauthorizable(&typed_error(429, "rate_limited")));
}

#[test]
fn remediation_command_preserves_dashboard_and_config_overrides() {
    let cli = Cli::try_parse_from(&[
        "ycloud",
        "--dashboard-url",
        "https://www-test-red.ycloud.com",
        "--config",
        "/tmp/ycloud profile.toml",
        "contacts",
        "list",
    ])
    .unwrap();
    let plan = plan(&cli, &vec![], &permission_error("yc.contact.record.read")).unwrap();

    assert_eq!(
        plan.login_command,
        "ycloud --dashboard-url https://www-test-red.ycloud.com --config '/tmp/ycloud profile.toml' login --profile custom --permission yc.contact.record.read"
    );
}

#[test]
fn waba_assignment_requests_all_three_atomic_permissions() {
    let cli = Cli::try_parse_from(&["ycloud", "whatsapp", "waba-assignment", "list"]).unwrap();
    let plan = plan(&cli, &vec![], &permission_error("yc.whatsapp.phone.read")).unwrap();

    assert_eq!(
        plan.requested_permissions,
        [
            "yc.inbox.assignment-rule.read",
            "yc.inbox.phone-assignment.read",
            "yc.whatsapp.phone.read"
        ]
    );
}

#[test]
fn no_plan_for_login_or_for_other_errors() {
    let login = Cli::try_parse_from(&["ycloud", "login"]).unwrap();
    assert!(plan(&login, &vec![], &permission_error("yc.contact.record.read")).is_none());
    let list = Cli::try_parse_from(&["ycloud", "contacts", "list"]).unwrap();
    assert!(plan(&list, &vec![], &typed_error(403, "resource_forbidden")).is_none());
}

#[test]
fn plan_keeps_current_and_reports_nothing_missing_when_all_requested() {
    let cli = Cli::try_parse_from(&["ycloud", "contacts", "list"]).unwrap();
    let current = vec![
        "zz.custom.read".to_string(),
        "yc.contact.record.read".to_string(),
        "yc.contact.record.read".to_string(),
    ];
    let plan = plan(&cli, &current, &permission_error("yc.contact.record.read")).unwrap();
    assert_eq!(
        plan.requested_permissions,
        ["yc.contact.record.read", "zz.custom.read"]
    );
    assert!(plan.missing_permissions.is_empty());
}

#[test]
fn unsafe_server_permission_is_not_requested() {
    let cli = Cli::try_parse_from(&["ycloud", "exports", "query", "task-1"]).unwrap();
    let plan = plan(&cli, &vec![], &permission_error("yc contact; rm -rf")).unwrap();
    assert!(plan.requested_permissions.is_empty());
}

#[test]
fn shell_words_are_quoted_only_when_needed() {
    assert_eq!(shell_arg("http://127.0.0.1:8036"), "http://127.0.0.1:8036");
    assert_eq!(
        shell_arg("/tmp/ycloud profile.toml"),
        "'/tmp/ycloud profile.toml'"
    );
    assert_eq!(shell_arg("it's"), "'it'\\''s'");
    assert_eq!(shell_arg(""), "''");
}
