use ycloud_console_cli::http::{ApiEnvelope, ApiPagination, WhoamiData};
use ycloud_console_cli::json::JsonValue;
use ycloud_console_cli::waba_assignment::{
    assemble_report, assignment_label, ensure_effective_permissions, next_cursor, page,
    phone_id_batches, render_table, rule_label, AssignmentRule, PageCollector,
    PhoneAssignment, PhoneIdsSearchRequest, PhoneNumber,
};

fn phone(waba_id: &str, phone_number_id: &str) -> PhoneNumber {
    PhoneNumber {
        waba_id: waba_id.to_string(),
        waba_name: Some(format!("{waba_id}-name")),
        waba_status: Some("APPROVED".to_string()),
        phone_number_id: phone_number_id.to_string(),
        meta_phone_number_id: None,
        display_phone_number: Some(format!("+{phone_number_id}")),
        display_name: None,
        status: Some("CONNECTED".to_string()),
        quality_rating: None,
    }
}

#[test]
fn report_is_grouped_sorted_and_deduplicated_without_hiding_unknowns() {
    let phone_a = phone("waba-2", "phone-2");
    let phone_b = phone("waba-1", "phone-1");
    let unknown = PhoneAssignment {
        phone_number_id: "phone-1".to_string(),
        relation_id: Some("relation-1".to_string()),
        assignment_source: "DIRECT".to_string(),
        team_id: None,
        team_name: None,
        team_status: None,
        agent_id: Some("missing-agent".to_string()),
        agent_name: None,
        agent_email: None,
        member_status: "UNKNOWN".to_string(),
        resolution_status: "UNKNOWN".to_string(),
    };

    let report = assemble_report(
        vec![phone_a, phone_b.clone(), phone_b],
        vec![unknown.clone(), unknown],
        Vec::new(),
    );

    assert!(report.complete);
    assert_eq!(report.wabas[0].waba_id, "waba-1");
    assert_eq!(report.wabas[1].waba_id, "waba-2");
    assert_eq!(report.wabas[0].phone_numbers.len(), 1);
    assert_eq!(report.wabas[0].phone_numbers[0].assignments.len(), 1);
    assert_eq!(
        report.wabas[0].phone_numbers[0].assignments[0]
            .agent_id
            .as_deref(),
        Some("missing-agent")
    );
    assert_eq!(
        report.wabas[0].phone_numbers[0].assignments[0].resolution_status,
        "UNKNOWN"
    );
}

#[test]
fn table_identifies_assignment_source_team_email_and_status() {
    let mut assignment = PhoneAssignment {
        phone_number_id: "phone-1".to_string(),
        relation_id: Some("relation-1".to_string()),
        assignment_source: "TEAM".to_string(),
        team_id: Some("team-1".to_string()),
        team_name: Some("Support".to_string()),
        team_status: Some("ACTIVE".to_string()),
        agent_id: Some("agent-1".to_string()),
        agent_name: Some("Alice".to_string()),
        agent_email: Some("alice@example.com".to_string()),
        member_status: "ACTIVE".to_string(),
        resolution_status: "RESOLVED".to_string(),
    };
    let mut report = assemble_report(vec![phone("waba-1", "phone-1")], vec![], vec![]);
    report.wabas[0].phone_numbers[0]
        .assignments
        .push(assignment.clone());

    let table = render_table(&report);

    assert!(table.contains("TEAM Support: Alice <alice@example.com> [ACTIVE; RESOLVED]"));
    assignment.agent_email = None;
    assert!(!assignment_label(&assignment).contains('@'));
}

#[test]
fn pagination_requires_cursor_when_more_data_exists() {
    let pagination = ApiPagination {
        next_cursor: None,
        has_more: true,
        total: Some(100),
    };

    assert!(next_cursor(pagination, "operation")
        .unwrap_err()
        .contains("without nextCursor"));
}

fn unassigned_rule() -> AssignmentRule {
    AssignmentRule {
        phone_number_id: "phone-1".to_string(),
        mode: "BASIC".to_string(),
        sequence: 0,
        node_id: "basic".to_string(),
        node_type: "ACTION".to_string(),
        next: None,
        default_next: None,
        basic_assign_type: None,
        assign_owner: None,
        assign_last_assigned: None,
        auto_assign_unassigned: None,
        online_only: None,
        assign_type: Some("UNASSIGNED".to_string()),
        action_type: None,
        action_rule: None,
        conditions: vec![],
        targets: vec![],
    }
}

#[test]
fn table_keeps_unassigned_rule_action_visible() {
    assert_eq!(rule_label(&unassigned_rule()), "BASIC:0:ACTION:UNASSIGNED");
}

#[test]
fn blank_cursor_counts_as_missing_and_last_page_has_none() {
    let blank = ApiPagination {
        next_cursor: Some("  ".to_string()),
        has_more: true,
        total: None,
    };
    assert_eq!(
        next_cursor(blank, "inbox/assignment-rules/search").unwrap_err(),
        "inbox/assignment-rules/search response set hasMore=true without nextCursor"
    );
    let last = ApiPagination {
        next_cursor: Some("ignored".to_string()),
        has_more: false,
        total: None,
    };
    assert_eq!(next_cursor(last, "x"), Ok(None));
}

fn envelope(data: Option<Vec<u32>>, pagination: Option<ApiPagination>) -> ApiEnvelope<Vec<u32>> {
    ApiEnvelope {
        code: 0,
        message: None,
        data,
        error: None,
        request_id: None,
        trace_id: None,
        pagination,
        warnings: vec![],
    }
}

#[test]
fn pages_need_pagination_and_data() {
    assert_eq!(
        page(envelope(Some(vec![1]), None), "op").unwrap_err(),
        "op response omitted pagination"
    );
    let more = ApiPagination {
        next_cursor: Some("c2".to_string()),
        has_more: true,
        total: None,
    };
    assert_eq!(
        page(envelope(None, Some(more)), "op").unwrap_err(),
        "op response missing data"
    );
    let more = ApiPagination {
        next_cursor: Some("c2".to_string()),
        has_more: true,
        total: None,
    };
    let (data, next) = page(envelope(Some(vec![1, 2]), Some(more)), "op").unwrap();
    assert_eq!(data, [1, 2]);
    assert_eq!(next.as_deref(), Some("c2"));
}

#[test]
fn collector_gathers_pages_in_order_and_refuses_repeated_cursors() {
    let mut pages: PageCollector<u32> = PageCollector::new();
    assert_eq!(pages.cursor(), None);
    assert_eq!(pages.accept(vec![1, 2], Some("a".to_string()), "op"), Ok(true));
    assert_eq!(pages.cursor(), Some("a"));
    assert_eq!(pages.accept(vec![3], Some("b".to_string()), "op"), Ok(true));
    assert_eq!(
        pages.accept(vec![4], Some("a".to_string()), "op").unwrap_err(),
        "op returned a repeated cursor"
    );

    let mut done: PageCollector<u32> = PageCollector::new();
    assert_eq!(done.accept(vec![7], Some("x".to_string()), "op"), Ok(true));
    assert_eq!(done.accept(vec![8, 9], None, "op"), Ok(false));
    assert_eq!(done.into_records(), [7, 8, 9]);
}

#[test]
fn phone_ids_are_batched_by_one_hundred() {
    let phones: Vec<PhoneNumber> = (0..250)
        .map(|i| phone("waba-1", &format!("phone-{i}")))
        .collect();
    let batches = phone_id_batches(&phones);
    assert_eq!(batches.len(), 3);
    assert_eq!(batches[0].len(), 100);
    assert_eq!(batches[2].len(), 50);
    assert_eq!(batches[2][49], "phone-249");
    assert!(phone_id_batches(&vec![]).is_empty());
}

#[test]
fn search_body_carries_ids_cursor_and_limit() {
    let ids = vec!["phone-1".to_string(), "phone-2".to_string()];
    let request = PhoneIdsSearchRequest {
        phone_number_ids: &ids,
        cursor: None,
        limit: 100,
    };
    assert_eq!(
        request.body(),
        JsonValue::Object(vec![
            (
                "phoneNumberIds".to_string(),
                JsonValue::Array(vec![
                    JsonValue::Str("phone-1".to_string()),
                    JsonValue::Str("phone-2".to_string())
                ])
            ),
            ("limit".to_string(), JsonValue::Number("100".to_string())),
        ])
    );
    let paged = PhoneIdsSearchRequest {
        phone_number_ids: &ids,
        cursor: Some("c"),
        limit: 100,
    };
    assert_eq!(
        paged.body().get("cursor"),
        Some(&JsonValue::Str("c".to_string()))
    );
}

fn identity(requested: &[&str], effective: &[&str]) -> WhoamiData {
    WhoamiData {
        user_id: "user-1".to_string(),
        tenant_id: "tenant-1".to_string(),
        requested_permissions: requested.iter().map(|s| s.to_string()).collect(),
        effective_permissions: effective.iter().map(|s| s.to_string()).collect(),
    }
}

#[test]
fn preflight_requires_all_three_effective_permissions() {
    let all = [
        "yc.whatsapp.phone.read",
        "yc.inbox.phone-assignment.read",
        "yc.inbox.assignment-rule.read",
    ];
    assert!(ensure_effective_permissions(&identity(&all, &all)).is_ok());

    let error = ensure_effective_permissions(&identity(
        &["yc.whatsapp.phone.read", "yc.inbox.phone-assignment.read"],
        &["yc.whatsapp.phone.read"],
    ))
    .unwrap_err();
    assert_eq!(
        error,
        "WABA assignment requires all three effective permissions; not requested: yc.inbox.assignment-rule.read; requested but ineffective: yc.inbox.phone-assignment.read"
    );
    let none = ensure_effective_permissions(&identity(&[], &[])).unwrap_err();
    assert!(none.ends_with("requested but ineffective: -"));
}
