use ycloud_console_cli::cli::{
    Cli, Command, ContactsCommand, ExportArtifactType, ExportFormat, ExportsCommand, InboxCommand,
    InboxConversationsCommand, PermissionProfile, DEFAULT_DASHBOARD_URL,
};
use ycloud_console_cli::grammar::CliErrorKind;
use ycloud_console_cli::http::InvocationMode;

#[test]
fn dashboard_defaults_to_online() {
    assert_eq!(DEFAULT_DASHBOARD_URL, "https://www.ycloud.com");
}

#[test]
fn login_defaults_to_basic_profile_without_explicit_permissions() {
    let cli = Cli::try_parse_from(&["ycloud", "login", "--manual"]).unwrap();

    let Command::Login(args) = cli.command else {
        panic!("expected login command");
    };
    assert_eq!(args.profile, PermissionProfile::Basic);
    assert!(args.permissions.is_empty());
}

#[test]
fn login_accepts_profile_and_repeated_permission_flags() {
    let cli = Cli::try_parse_from(&[
        "ycloud",
        "login",
        "--profile",
        "analytics-read",
        "--permission",
        "yc.integration.status.read",
        "--permission",
        "yc.contact.record.read",
        "--manual",
    ])
    .unwrap();

    let Command::Login(args) = cli.command else {
        panic!("expected login command");
    };
    assert_eq!(args.profile, PermissionProfile::AnalyticsRead);
    assert_eq!(
        args.permissions,
        ["yc.integration.status.read", "yc.contact.record.read"]
    );
}

#[test]
fn explicit_automation_flag_selects_automation_mode() {
    let cli = Cli::try_parse_from(&["ycloud", "--automation", "whoami"]).unwrap();

    assert_eq!(
        cli.invocation_mode_with(None, true, true).unwrap(),
        InvocationMode::Automation
    );
}

#[test]
fn parses_combined_conversation_export_defaults() {
    let cli = Cli::try_parse_from(&[
        "ycloud",
        "inbox",
        "conversations",
        "export",
        "--inbox-id",
        "inbox-1,inbox-2",
        "--no-wait",
        "--idempotency-key",
        "conversation-export-1",
    ])
    .unwrap();
    let Command::Inbox {
        command:
            InboxCommand::Conversations {
                command: InboxConversationsCommand::Export(args),
            },
    } = cli.command
    else {
        panic!("expected conversation export");
    };
    assert_eq!(args.filter.inbox_ids, ["inbox-1", "inbox-2"]);
    assert!(!args.no_contacts);
    assert!(args.wait.no_wait);
    assert_eq!(args.format, ExportFormat::Auto);
    assert_eq!(
        args.idempotency_key.as_deref(),
        Some("conversation-export-1")
    );
}

#[test]
fn parses_independent_contact_export() {
    let cli = Cli::try_parse_from(&[
        "ycloud",
        "contacts",
        "export",
        "--condition",
        "vip",
        "--format",
        "csv",
        "--artifact",
        "contacts,manifest",
        "--idempotency-key",
        "contact-export-1",
    ])
    .unwrap();
    let Command::Contacts {
        command: ContactsCommand::Export(args),
    } = cli.command
    else {
        panic!("expected contact export");
    };
    assert_eq!(args.condition.as_deref(), Some("vip"));
    assert_eq!(args.format, ExportFormat::Csv);
    assert_eq!(args.wait.artifacts.len(), 2);
    assert_eq!(args.idempotency_key.as_deref(), Some("contact-export-1"));
}

#[test]
fn export_defaults_fill_unset_options() {
    let cli = Cli::try_parse_from(&["ycloud", "contacts", "export"]).unwrap();
    let Command::Contacts {
        command: ContactsCommand::Export(args),
    } = cli.command
    else {
        panic!("expected contact export");
    };
    assert_eq!(args.timezone, "GMT");
    assert_eq!(args.wait.output_dir, ".");
    assert_eq!(args.wait.timeout_seconds, 3600);
    assert!(args.wait.artifacts.is_empty());
    assert!(!args.archive);
    assert_eq!(args.blocked, None);
}

#[test]
fn global_options_are_accepted_after_the_subcommand() {
    let cli = Cli::try_parse_from(&[
        "ycloud",
        "whoami",
        "--dashboard-url=http://127.0.0.1:8036",
        "--config",
        "/tmp/profile.toml",
    ])
    .unwrap();
    assert_eq!(cli.dashboard_url.as_deref(), Some("http://127.0.0.1:8036"));
    assert_eq!(cli.config.as_deref(), Some("/tmp/profile.toml"));
    assert!(!cli.automation);
    assert!(matches!(cli.command, Command::Whoami));
}

#[test]
fn environment_fills_global_options_that_are_not_given() {
    let cli = Cli::try_parse_from_env(
        &["ycloud", "--config", "/given.toml", "logout"],
        Some("https://dashboard.example".to_string()),
        Some("/env.toml".to_string()),
    )
    .unwrap();
    assert_eq!(cli.dashboard_url.as_deref(), Some("https://dashboard.example"));
    assert_eq!(cli.config.as_deref(), Some("/given.toml"));
}

#[test]
fn task_commands_take_the_task_id_positionally() {
    let cli = Cli::try_parse_from(&[
        "ycloud",
        "exports",
        "download",
        "task-9",
        "--artifact",
        "messages",
        "--artifact=archive",
        "--output-dir",
        "out",
    ])
    .unwrap();
    let Command::Exports {
        command: ExportsCommand::Download(args),
    } = cli.command
    else {
        panic!("expected export download");
    };
    assert_eq!(args.task_id, "task-9");
    assert_eq!(
        args.artifacts,
        [ExportArtifactType::Messages, ExportArtifactType::Archive]
    );
    assert_eq!(args.output_dir, "out");
    assert!(!args.json);
}

#[test]
fn parse_errors_name_the_offending_argument() {
    let missing_sub = Cli::try_parse_from(&["ycloud"]).unwrap_err();
    assert_eq!(missing_sub.kind, CliErrorKind::MissingSubcommand);

    let unknown = Cli::try_parse_from(&["ycloud", "logn"]).unwrap_err();
    assert_eq!(unknown.kind, CliErrorKind::UnknownSubcommand);
    assert_eq!(unknown.argument, "logn");

    let repeated =
        Cli::try_parse_from(&["ycloud", "login", "--code", "a", "--code", "b"]).unwrap_err();
    assert_eq!(repeated.kind, CliErrorKind::RepeatedArgument);
    assert_eq!(repeated.argument, "code");

    let bad_limit = Cli::try_parse_from(&[
        "ycloud",
        "inbox",
        "conversations",
        "search",
        "--limit",
        "0",
    ])
    .unwrap_err();
    assert_eq!(bad_limit.kind, CliErrorKind::InvalidValue);
    assert_eq!(bad_limit.value, "0");

    let no_value = Cli::try_parse_from(&["ycloud", "login", "--state"]).unwrap_err();
    assert_eq!(no_value.kind, CliErrorKind::MissingValue);

    let flag_value = Cli::try_parse_from(&["ycloud", "login", "--manual=yes"]).unwrap_err();
    assert_eq!(flag_value.kind, CliErrorKind::UnexpectedValue);

    let misplaced = Cli::try_parse_from(&["ycloud", "--manual", "login"]).unwrap_err();
    assert_eq!(misplaced.kind, CliErrorKind::UnknownArgument);
    assert_eq!(misplaced.argument, "--manual");

    let no_task = Cli::try_parse_from(&["ycloud", "exports", "query"]).unwrap_err();
    assert_eq!(no_task.kind, CliErrorKind::MissingArgument);

    let help = Cli::try_parse_from(&["ycloud", "contacts", "--help"]).unwrap_err();
    assert_eq!(help.kind, CliErrorKind::Help);

    let version = Cli::try_parse_from(&["ycloud", "-V"]).unwrap_err();
    assert_eq!(version.kind, CliErrorKind::Version);
}

#[test]
fn numeric_options_are_range_checked() {
    let cli = Cli::try_parse_from(&[
        "ycloud",
        "analytics",
        "logs",
        "--start-time=-5",
        "--page-size",
        "+50",
        "--source",
        "smb",
    ])
    .unwrap();
    let Command::Analytics {
        command: ycloud_console_cli::cli::AnalyticsCommand::Logs(args),
    } = cli.command
    else {
        panic!("expected analytics logs");
    };
    assert_eq!(args.range.start_time, Some(-5));
    assert_eq!(args.page_size, 50);
    assert_eq!(args.page_no, 1);
    assert_eq!(args.direction, "OutBound");
    assert_eq!(args.timezone, "GMT+8");

    let negative = Cli::try_parse_from(&["ycloud", "contacts", "list", "--page-no=-1"]).unwrap_err();
    assert_eq!(negative.kind, CliErrorKind::InvalidValue);
}

#[test]
fn invocation_mode_follows_environment_then_terminals() {
    let cli = Cli::try_parse_from(&["ycloud", "whoami"]).unwrap();
    assert_eq!(
        cli.invocation_mode_with(Some(" Interactive ".to_string()), false, false)
            .unwrap(),
        InvocationMode::Interactive
    );
    assert!(cli
        .invocation_mode_with(Some("batch".to_string()), true, true)
        .is_err());
    assert_eq!(
        cli.invocation_mode_with(None, true, false).unwrap(),
        InvocationMode::Automation
    );
    assert_eq!(
        cli.invocation_mode_with(None, true, true).unwrap(),
        InvocationMode::Interactive
    );
}

#[test]
fn config_path_defaults_under_home() {
    let cli = Cli::try_parse_from(&["ycloud", "whoami"]).unwrap();
    assert_eq!(
        cli.config_path_with(Some("/home/user".to_string())).as_deref(),
        Some("/home/user/.ycloud/config.toml")
    );
    assert_eq!(cli.config_path_with(None), None);
    let given = Cli::try_parse_from(&["ycloud", "--config", "/x.toml", "whoami"]).unwrap();
    assert_eq!(given.config_path_with(None).as_deref(), Some("/x.toml"));
}

#[test]
fn wire_names_of_enumerations() {
    assert_eq!(PermissionProfile::IntegrationsRead.as_str(), "integrations-read");
    assert_eq!(PermissionProfile::Custom.to_display_string(), "custom");
    assert_eq!(ExportFormat::Xlsx.as_api_value(), "XLSX");
    assert_eq!(ExportFormat::Csv.to_display_string(), "csv");
    assert_eq!(ExportArtifactType::Manifest.as_api_value(), "MANIFEST");
}
