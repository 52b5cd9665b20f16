use ycloud_console_cli::http::{
    analytics_outline_path, analytics_v1_body, authorize_query, backoff_ceiling, base_url_text,
    failure_for_status, headers, identifier_from, is_success, millis_to_rfc3339,
    outcome_for_success, parse_retry_after, parse_u64, phone_numbers_path, query_string,
    random_identifier, read_route, refresh_body, relative_path, retry_delay, retry_delay_with,
    revoke_body, token_exchange_body, use_legacy_route, AnalyticsOverviewRequest,
    AnalyticsRangeRequest, ApiEnvelope, ApiError, ContactsSearchRequest, DashboardApiError,
    ExportTask, InvocationMode, ReadEndpoint, ResponseOutcome, RetryBudget,
};
use ycloud_console_cli::json::JsonValue;
use ycloud_console_cli::pkce::challenge_for_verifier;

fn query_pairs(query: &str) -> Vec<(String, String)> {
    url::form_urlencoded::parse(query.as_bytes())
        .into_owned()
        .collect()
}

fn lookup<'a>(pairs: &'a [(String, String)], key: &str) -> Option<&'a str> {
    pairs
        .iter()
        .find(|(k, _)| k == key)
        .map(|(_, v)| v.as_str())
}

#[test]
fn authorize_url_matches_backend_contract() {
    let pkce = challenge_for_verifier("verifier");
    let query = authorize_query(
        "analytics-read",
        &vec!["yc.integration.status.read".to_string()],
        "state-1",
        &pkce,
        None,
    );
    let pairs = query_pairs(&query);

    assert_eq!(lookup(&pairs, "responseType"), Some("code"));
    assert_eq!(lookup(&pairs, "profile"), Some("analytics-read"));
    assert_eq!(
        lookup(&pairs, "permissions"),
        Some("yc.integration.status.read")
    );
    assert_eq!(lookup(&pairs, "scope"), None);
    assert_eq!(lookup(&pairs, "state"), Some("state-1"));
    assert_eq!(lookup(&pairs, "codeChallengeMethod"), Some("S256"));
    assert_eq!(
        lookup(&pairs, "codeChallenge"),
        Some(pkce.code_challenge.as_str())
    );
    assert_eq!(lookup(&pairs, "redirectUri"), None);
}

#[test]
fn authorize_url_includes_redirect_uri_when_present() {
    let pkce = challenge_for_verifier("verifier");
    let query = authorize_query(
        "basic",
        &vec![],
        "state-1",
        &pkce,
        Some("http://127.0.0.1:39123/callback"),
    );
    let pairs = query_pairs(&query);

    assert_eq!(
        lookup(&pairs, "redirectUri"),
        Some("http://127.0.0.1:39123/callback")
    );
    assert_eq!(lookup(&pairs, "permissions"), None);
}

#[test]
fn query_strings_are_form_encoded() {
    let q = query_string(&vec![
        ("a b".to_string(), "x&y=z".to_string()),
        ("é".to_string(), "*-._~".to_string()),
    ]);
    assert_eq!(q, "a+b=x%26y%3Dz&%C3%A9=*-._%7E");
    assert_eq!(
        phone_numbers_path(Some("waba 1"), None, 100),
        "/api/cli/v1/whatsapp/phone-numbers?wabaId=waba+1&limit=100"
    );
    assert_eq!(
        phone_numbers_path(None, Some("c/2"), 5),
        "/api/cli/v1/whatsapp/phone-numbers?cursor=c%2F2&limit=5"
    );
}

#[test]
fn base_urls_and_paths_are_trimmed() {
    assert_eq!(base_url_text("http://127.0.0.1:8036/"), "http://127.0.0.1:8036");
    assert_eq!(base_url_text("https://x.example/a//"), "https://x.example/a");
    assert_eq!(relative_path("//api/cli/v1/whoami"), "api/cli/v1/whoami");
    assert_eq!(relative_path("api"), "api");
}

#[test]
fn analytics_times_are_rfc3339() {
    assert_eq!(millis_to_rfc3339(0).unwrap(), "1970-01-01T00:00:00.000Z");
    assert_eq!(millis_to_rfc3339(1000).unwrap(), "1970-01-01T00:00:01.000Z");
    assert_eq!(
        millis_to_rfc3339(1782921600000).unwrap(),
        "2026-07-01T16:00:00.000Z"
    );
    assert_eq!(
        millis_to_rfc3339(i64::MAX).unwrap_err(),
        format!("analytics time is outside the RFC 3339 range: {}", i64::MAX)
    );
    assert_eq!(
        analytics_outline_path(AnalyticsRangeRequest {
            start_time: 0,
            end_time: 1000
        })
        .unwrap(),
        "/api/cli/v1/whatsapp/analytics/outline?startTime=1970-01-01T00:00:00.000Z&endTime=1970-01-01T00:00:01.000Z"
    );
}

#[test]
fn analytics_v1_serializes_rfc3339_and_iana_timezone() {
    let request = AnalyticsOverviewRequest {
        start_time: 0,
        end_time: 1000,
        timezone: "UTC",
        from: None,
        region_code: Some("US"),
        message_category: Some("utility"),
    };
    let s = |v: &str| JsonValue::Str(v.to_string());
    assert_eq!(
        analytics_v1_body(&request).unwrap(),
        JsonValue::Object(vec![
            ("startTime".to_string(), s("1970-01-01T00:00:00.000Z")),
            ("endTime".to_string(), s("1970-01-01T00:00:01.000Z")),
            ("timezone".to_string(), s("UTC")),
            ("regionCode".to_string(), s("US")),
            ("messageCategory".to_string(), s("utility")),
        ])
    );
    assert_eq!(
        request.legacy_body().get("endTime"),
        Some(&JsonValue::Number("1000".to_string()))
    );
}

#[test]
fn token_bodies_follow_backend_contract() {
    let s = |v: &str| JsonValue::Str(v.to_string());
    assert_eq!(
        token_exchange_body("code-1", "verifier-1"),
        JsonValue::Object(vec![
            ("grantType".to_string(), s("authorization_code")),
            ("code".to_string(), s("code-1")),
            ("codeVerifier".to_string(), s("verifier-1")),
        ])
    );
    assert_eq!(
        refresh_body("YCLI.old-refresh"),
        JsonValue::Object(vec![
            ("grantType".to_string(), s("refresh_token")),
            ("refreshToken".to_string(), s("YCLI.old-refresh")),
        ])
    );
    assert_eq!(
        revoke_body("record-1"),
        JsonValue::Object(vec![("recordId".to_string(), s("record-1"))])
    );
    let contacts = ContactsSearchRequest {
        page_no: 1,
        page_size: 10,
        condition: None,
    };
    assert_eq!(
        contacts.body(),
        JsonValue::Object(vec![
            ("pageNo".to_string(), JsonValue::Number("1".to_string())),
            ("pageSize".to_string(), JsonValue::Number("10".to_string())),
        ])
    );
}

#[test]
fn retry_after_reads_seconds_or_dates() {
    assert_eq!(parse_retry_after(None), None);
    assert_eq!(parse_retry_after(Some(" 2 ")), Some(2000));
    assert_eq!(parse_retry_after(Some("+0")), Some(0));
    assert_eq!(parse_retry_after(Some("soon")), None);
    assert_eq!(
        parse_retry_after(Some("Wed, 21 Oct 2015 07:28:00 GMT")),
        Some(0)
    );
    assert_eq!(
        parse_retry_after(Some("18446744073709551615")),
        Some(u64::MAX)
    );
    assert_eq!(parse_u64("0042"), Some(42));
    assert_eq!(parse_u64("-1"), None);
    assert_eq!(parse_u64("18446744073709551616"), None);
    assert_eq!(parse_u64(""), None);
}

fn rate_limited(retry_after_ms: Option<u64>) -> DashboardApiError {
    let mut e = DashboardApiError::from_api_error(
        429,
        ApiError {
            code: "rate_limited".to_string(),
            message: "Too many CLI requests".to_string(),
            retryable: true,
            details: None,
        },
    );
    e.retry_after_ms = retry_after_ms;
    e
}

#[test]
fn only_typed_rate_limits_are_retried_within_budget() {
    let budget = InvocationMode::Interactive.retry_budget();
    assert_eq!(budget.max_attempts, 3);
    assert_eq!(retry_delay_with(&rate_limited(Some(0)), 1, 0, budget, 7), Some(0));
    assert_eq!(retry_delay_with(&rate_limited(None), 1, 0, budget, 7), Some(7));
    assert_eq!(retry_delay_with(&rate_limited(Some(10)), 3, 0, budget, 0), None);
    assert_eq!(
        retry_delay_with(&rate_limited(Some(1000)), 1, 4500, budget, 0),
        None
    );
    let mut not_retryable = rate_limited(Some(0));
    not_retryable.retryable = false;
    assert_eq!(retry_delay_with(&not_retryable, 1, 0, budget, 0), None);

    let d = retry_delay(&rate_limited(None), 2, 0, RetryBudget::new(4, 20000)).unwrap();
    assert!(d <= 500);
    assert_eq!(backoff_ceiling(1), 250);
    assert_eq!(backoff_ceiling(3), 1000);
    assert_eq!(backoff_ceiling(100), 16000);
    assert_eq!(InvocationMode::Interactive.overall_timeout(), 30);
    assert_eq!(InvocationMode::Automation.overall_timeout(), 30);
}

#[test]
fn failures_carry_typed_errors_or_the_status_reason() {
    let typed = failure_for_status(
        403,
        Some("Forbidden".to_string()),
        None,
        Some(ApiEnvelope {
            code: 403,
            message: Some("Permission denied".to_string()),
            data: None,
            error: Some(ApiError {
                code: "permission_denied".to_string(),
                message: "Permission denied".to_string(),
                retryable: false,
                details: None,
            }),
            request_id: Some("req-denied".to_string()),
            trace_id: Some("trace-denied".to_string()),
            pagination: None,
            warnings: vec![],
        }),
    );
    let text = typed.describe();
    assert!(text.contains("permission_denied"));
    assert!(text.contains("req-denied"));
    assert!(text.contains("trace-denied"));
    assert_eq!(
        text,
        "request failed with HTTP 403 Forbidden: permission_denied: Permission denied (requestId=req-denied, traceId=trace-denied)"
    );

    let plain = failure_for_status(502, None, None, None);
    assert_eq!(plain.code(), "http_error");
    assert_eq!(plain.message, "request failed");
    assert!(!is_success(502));
    assert!(is_success(204));

    let envelope: ApiEnvelope<JsonValue> = ApiEnvelope {
        code: -1,
        message: Some("forbidden".to_string()),
        data: None,
        error: None,
        request_id: None,
        trace_id: None,
        pagination: None,
        warnings: vec![],
    };
    match outcome_for_success(200, Some("OK".to_string()), None, envelope) {
        ResponseOutcome::Failure(e) => {
            assert_eq!(e.code, "-1");
            assert_eq!(e.message, "forbidden");
        }
        ResponseOutcome::Success(_) => panic!("a non-zero code is a failure"),
    }
}

#[test]
fn headers_identify_request_invocation_and_token() {
    let h = headers(Some("YCLI.access"), "req-1", "inv-1", InvocationMode::Automation).unwrap();
    assert_eq!(
        h,
        [
            ("content-type".to_string(), "application/json".to_string()),
            ("x-request-id".to_string(), "req-1".to_string()),
            ("x-ycloud-invocation-id".to_string(), "inv-1".to_string()),
            ("x-ycloud-invocation-mode".to_string(), "automation".to_string()),
            ("authorization".to_string(), "Bearer YCLI.access".to_string()),
        ]
    );
    assert!(headers(Some("bad\ntoken"), "req-1", "inv-1", InvocationMode::Interactive).is_err());
    let id = random_identifier("req").unwrap();
    assert!(id.starts_with("req-"));
    assert_eq!(id.len(), 4 + 32);
    assert_eq!(
        identifier_from("inv", 255),
        "inv-000000000000000000000000000000ff"
    );
}

#[test]
fn stable_reads_fall_back_only_on_404_or_405() {
    let (primary, legacy) = read_route(ReadEndpoint::IntegrationsStatus);
    assert_eq!(primary, "/api/cli/v1/integrations/status");
    assert_eq!(legacy, Some("/api/cli/read/integrations/status"));
    let not_found = DashboardApiError::from_api_error(
        404,
        ApiError {
            code: "http_error".to_string(),
            message: "Not Found".to_string(),
            retryable: false,
            details: None,
        },
    );
    assert_eq!(
        use_legacy_route(ReadEndpoint::Tenants, &not_found),
        Some("/api/cli/auth/tenants/list")
    );
    let denied = DashboardApiError::from_api_error(
        403,
        ApiError {
            code: "permission_denied".to_string(),
            message: "Permission denied".to_string(),
            retryable: false,
            details: None,
        },
    );
    assert_eq!(use_legacy_route(ReadEndpoint::IntegrationsStatus, &denied), None);
    assert_eq!(use_legacy_route(ReadEndpoint::ContactsSearch, &not_found), None);
    assert_eq!(
        read_route(ReadEndpoint::CallingLogs).0,
        "/api/cli/read/calling/logs/search"
    );
}

#[test]
fn envelopes_hand_over_data_or_name_the_missing_label() {
    let empty: ApiEnvelope<u32> = ApiEnvelope {
        code: 0,
        message: None,
        data: None,
        error: None,
        request_id: None,
        trace_id: None,
        pagination: None,
        warnings: vec![],
    };
    assert_eq!(empty.require_data("whoami").unwrap_err(), "whoami response missing data");
    let task = ExportTask {
        task_id: "t".to_string(),
        task_type: "X".to_string(),
        status: "partial_success".to_string(),
        progress: 0,
        record_count: None,
        previous_task_id: None,
        truncated: None,
        truncation_reason: None,
        artifacts: vec![],
        warnings: vec![],
        error_code: None,
        error_message: None,
    };
    assert!(task.terminal());
}
