use ycloud_console_cli::cli::{Cli, Command, InboxCommand, InboxConversationsCommand};
use ycloud_console_cli::http::{ApiError, DashboardApiError, InvocationMode};
use ycloud_console_cli::permissions::ReauthorizationPlan;
use ycloud_console_cli::{
    declined_notice, is_confirmation, login_dashboard_url, preserve_idempotency_key,
    reauthorization_notice, still_denied_notice, ReauthorizationStep,
};

#[test]
fn reauthorization_confirmation_defaults_to_no() {
    assert!(!is_confirmation(""));
    assert!(!is_confirmation("n"));
    assert!(is_confirmation("Y"));
    assert!(is_confirmation("yes"));
}

#[test]
fn confirmation_ignores_surrounding_whitespace() {
    assert!(is_confirmation("  YeS\n"));
    assert!(!is_confirmation("yes please"));
}

#[test]
fn generated_export_idempotency_key_survives_command_clone() {
    let mut cli =
        Cli::try_parse_from(&["ycloud", "inbox", "conversations", "export", "--no-wait"]).unwrap();

    preserve_idempotency_key(&mut cli.command).unwrap();
    let cloned = cli.command.clone();
    let Command::Inbox {
        command:
            InboxCommand::Conversations {
                command: InboxConversationsCommand::Export(first),
            },
    } = cli.command
    else {
        panic!("expected conversation export");
    };
    let Command::Inbox {
        command:
            InboxCommand::Conversations {
                command: InboxConversationsCommand::Export(second),
            },
    } = cloned
    else {
        panic!("expected cloned conversation export");
    };

    assert!(first.idempotency_key.is_some());
    assert_eq!(first.idempotency_key, second.idempotency_key);
}

#[test]
fn given_idempotency_key_is_kept_and_generated_keys_have_their_shape() {
    let mut cli = Cli::try_parse_from(&[
        "ycloud",
        "exports",
        "retry",
        "task-1",
        "--idempotency-key",
        "mine",
    ])
    .unwrap();
    preserve_idempotency_key(&mut cli.command).unwrap();
    let Command::Exports {
        command: ycloud_console_cli::cli::ExportsCommand::Retry(args),
    } = &cli.command
    else {
        panic!("expected export retry");
    };
    assert_eq!(args.idempotency_key.as_deref(), Some("mine"));

    let mut export = Cli::try_parse_from(&["ycloud", "contacts", "export"]).unwrap();
    preserve_idempotency_key(&mut export.command).unwrap();
    let Command::Contacts {
        command: ycloud_console_cli::cli::ContactsCommand::Export(args),
    } = &export.command
    else {
        panic!("expected contact export");
    };
    let key = args.idempotency_key.clone().unwrap();
    assert!(key.starts_with("ycloud-cli-"));
    assert_eq!(key.len(), "ycloud-cli-".len() + 32);
    let again = {
        let mut c = export.command.clone();
        preserve_idempotency_key(&mut c).unwrap();
        c
    };
    let Command::Contacts {
        command: ycloud_console_cli::cli::ContactsCommand::Export(args2),
    } = again
    else {
        panic!("expected contact export");
    };
    assert_eq!(args2.idempotency_key.as_deref(), Some(key.as_str()));

    let mut whoami = Cli::try_parse_from(&["ycloud", "whoami"]).unwrap();
    preserve_idempotency_key(&mut whoami.command).unwrap();
    assert!(matches!(whoami.command, Command::Whoami));
}

fn denial() -> DashboardApiError {
    let mut e = DashboardApiError::from_api_error(
        403,
        ApiError {
            code: "permission_denied".to_string(),
            message: "Permission denied".to_string(),
            retryable: false,
            details: None,
        },
    );
    e.request_id = Some("req-1".to_string());
    e.trace_id = Some("trace-1".to_string());
    e
}

fn plan_with(missing: Vec<&str>) -> ReauthorizationPlan {
    ReauthorizationPlan {
        requested_permissions: vec!["a.read".to_string(), "b.read".to_string()],
        missing_permissions: missing.into_iter().map(str::to_string).collect(),
        login_command: "ycloud login --profile custom --permission a.read --permission b.read"
            .to_string(),
    }
}

#[test]
fn reauthorization_notice_prompts_only_interactively() {
    let plan = plan_with(vec!["b.read"]);
    let interactive = reauthorization_notice(&plan, &denial(), InvocationMode::Interactive);
    assert_eq!(interactive.step, ReauthorizationStep::Prompt);
    assert_eq!(
        interactive.lines,
        [
            "Permission denied (requestId=req-1, traceId=trace-1).",
            "Missing permissions: b.read"
        ]
    );

    let automation = reauthorization_notice(&plan, &denial(), InvocationMode::Automation);
    assert_eq!(automation.step, ReauthorizationStep::GiveUp);
    assert_eq!(automation.lines.len(), 4);
    assert_eq!(automation.lines[2], "Run this command interactively, then retry:");
    assert_eq!(automation.lines[3], plan.login_command);
}

#[test]
fn reauthorization_notice_gives_up_when_nothing_is_missing() {
    let plan = plan_with(vec![]);
    let notice = reauthorization_notice(&plan, &denial(), InvocationMode::Interactive);
    assert_eq!(notice.step, ReauthorizationStep::GiveUp);
    assert_eq!(notice.lines[2], "Requested permissions: a.read,b.read");
    assert_eq!(
        declined_notice(&plan),
        [
            "Reauthorization cancelled. Run this command when ready:",
            plan.login_command.as_str()
        ]
    );
}

#[test]
fn still_denied_only_for_reauthorizable_errors() {
    assert!(still_denied_notice(&denial())
        .unwrap()
        .contains("(requestId=req-1, traceId=trace-1)"));
    let other = DashboardApiError::from_api_error(
        500,
        ApiError {
            code: "internal".to_string(),
            message: "boom".to_string(),
            retryable: false,
            details: None,
        },
    );
    assert_eq!(still_denied_notice(&other), None);
}

#[test]
fn login_uses_given_dashboard_or_default() {
    assert_eq!(login_dashboard_url(&None), "https://www.ycloud.com");
    assert_eq!(
        login_dashboard_url(&Some("http://127.0.0.1:8036".to_string())),
        "http://127.0.0.1:8036"
    );
}
