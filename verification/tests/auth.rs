use ycloud_console_cli::auth::{
    analytics_range, analytics_range_at, apply_identity, apply_refreshed_token, callback_outcome,
    callback_response, callback_target, calling_logs_request, ensure_ycli_token,
    handle_callback_request, login_config, logs_request, millis_from_clock, now_millis,
    overview_output, prepare_login,
    smb_flag, whoami_text, CallbackReply, CallbackUrl,
};
use ycloud_console_cli::cli::{
    AnalyticsCallingLogsArgs, AnalyticsLogsArgs, AnalyticsRangeArgs, LoginArgs, PermissionProfile,
};
use ycloud_console_cli::http::{AnalyticsRangeRequest, TokenData, WhoamiData};
use ycloud_console_cli::json::JsonValue;
use ycloud_console_cli::pkce::challenge_for_verifier;

fn callback_request(target: &str) -> String {
    format!("GET {target} HTTP/1.1\r\nHost: 127.0.0.1\r\nConnection: close\r\n\r\n")
}

#[test]
fn callback_error_includes_decoded_description() {
    let outcome = handle_callback_request(
        &callback_request("/callback?error=invalid_scope&error_description=permission%20is%20not%20active%3A%20yc.member.list.read&state=expected"),
        "expected",
    );

    let error = outcome.result.expect_err("authorization rejection should fail");
    assert_eq!(
        error,
        "dashboard authorization failed: invalid_scope: permission is not active: yc.member.list.read"
    );
    let reply = outcome.reply.unwrap();
    let response = callback_response(reply.status, &reply.message);
    assert!(response.starts_with("HTTP/1.1 400 Bad Request"));
}

#[test]
fn callback_error_validates_state_before_reporting_authorization_error() {
    let outcome = handle_callback_request(
        &callback_request(
            "/callback?error=access_denied&error_description=permission%20denied&state=unexpected",
        ),
        "expected",
    );

    let error = outcome.result.expect_err("mismatched state should fail");
    assert_eq!(error, "browser callback state does not match login request");
    let reply = outcome.reply.unwrap();
    let response = callback_response(reply.status, &reply.message);
    assert!(response.contains("yc login state mismatch"));
}

#[test]
fn callback_with_code_succeeds_and_other_paths_are_refused() {
    let ok = handle_callback_request(&callback_request("/callback?code=abc+1&state=s"), "s");
    assert_eq!(ok.result.unwrap(), "abc 1");
    assert_eq!(
        ok.reply,
        Some(CallbackReply {
            status: 200,
            message: "yc login succeeded. You can close this browser tab.".to_string()
        })
    );

    let elsewhere = handle_callback_request(&callback_request("/favicon.ico"), "s");
    assert_eq!(
        elsewhere.result.unwrap_err(),
        "unexpected browser callback path: /favicon.ico"
    );
    assert_eq!(elsewhere.reply.unwrap().status, 404);

    let no_code = handle_callback_request(&callback_request("/callback?state=s"), "s");
    assert_eq!(
        no_code.result.unwrap_err(),
        "browser callback did not include authorization code"
    );
    assert!(no_code.reply.is_none());

    let blank = handle_callback_request(
        &callback_request("/callback?error=denied&error_description=%20&state=s"),
        "s",
    );
    assert_eq!(blank.result.unwrap_err(), "dashboard authorization failed: denied");
}

#[test]
fn callback_request_needs_a_target() {
    assert_eq!(callback_target("").unwrap_err(), "browser callback was empty");
    assert_eq!(
        callback_target("GET\r\n").unwrap_err(),
        "browser callback request target is missing"
    );
    assert_eq!(
        callback_target("  GET   /callback?x=1 HTTP/1.1\r\nHost: a\r\n").unwrap(),
        "/callback?x=1"
    );
    let none = callback_outcome(None, "s");
    assert_eq!(none.result.unwrap_err(), "failed to parse browser callback URL");
}

#[test]
fn last_query_value_wins() {
    let url = CallbackUrl {
        path: "/callback".to_string(),
        query: vec![
            ("state".to_string(), "wrong".to_string()),
            ("code".to_string(), "c1".to_string()),
            ("state".to_string(), "s".to_string()),
            ("code".to_string(), "c2".to_string()),
        ],
    };
    assert_eq!(callback_outcome(Some(url), "s").result.unwrap(), "c2");
}

#[test]
fn callback_response_counts_utf8_bytes() {
    let response = callback_response(200, "é");
    let body = "<!doctype html><html><head><meta charset=\"utf-8\"><title>yc login</title></head><body><p>é</p></body></html>";
    assert_eq!(
        response,
        format!(
            "HTTP/1.1 200 OK\r\nContent-Type: text/html; charset=utf-8\r\nContent-Length: {}\r\nConnection: close\r\n\r\n{}",
            body.len(),
            body
        )
    );
    assert!(callback_response(404, "x").starts_with("HTTP/1.1 404 Not Found\r\n"));
}

fn token() -> TokenData {
    TokenData {
        token_type: "Bearer".to_string(),
        access_token: "YCLI.access".to_string(),
        refresh_token: "YCLI.refresh".to_string(),
        record_id: "record-1".to_string(),
        requested_permissions: vec!["yc.identity.current.read".to_string()],
        permission_model_version: 1,
    }
}

#[test]
fn only_ycli_bearer_tokens_with_a_snapshot_are_accepted() {
    assert!(ensure_ycli_token(&token()).is_ok());
    let mut t = token();
    t.token_type = "MAC".to_string();
    assert_eq!(
        ensure_ycli_token(&t).unwrap_err(),
        "backend returned an unsupported token type"
    );
    let mut t = token();
    t.access_token = "other".to_string();
    assert_eq!(
        ensure_ycli_token(&t).unwrap_err(),
        "backend returned a non-YCLI access token"
    );
    let mut t = token();
    t.permission_model_version = 2;
    assert_eq!(
        ensure_ycli_token(&t).unwrap_err(),
        "unsupported CLI permission model version: 2"
    );
    let mut t = token();
    t.requested_permissions.clear();
    assert_eq!(
        ensure_ycli_token(&t).unwrap_err(),
        "backend returned an empty CLI permission snapshot"
    );
}

#[test]
fn login_setup_follows_the_arguments() {
    let args = LoginArgs {
        profile: PermissionProfile::Readonly,
        permissions: vec!["yc.a".to_string()],
        code: Some("code-1".to_string()),
        code_verifier: Some("verifier".to_string()),
        state: Some("state-1".to_string()),
        manual: false,
    };
    let setup = prepare_login(&args).unwrap();
    assert_eq!(setup.profile, "readonly");
    assert_eq!(setup.requested_permissions, ["yc.a"]);
    assert_eq!(setup.pkce, challenge_for_verifier("verifier"));
    assert_eq!(setup.state, "state-1");
    assert!(setup.manual);

    let fresh = prepare_login(&LoginArgs {
        profile: PermissionProfile::Basic,
        permissions: vec![],
        code: None,
        code_verifier: None,
        state: None,
        manual: false,
    })
    .expect("the random source is readable");
    assert!(fresh.state.starts_with("yc_cli_"));
    assert_eq!(fresh.state.len(), "yc_cli_".len() + 11);
    assert!(!fresh.manual);
    assert_eq!(fresh.pkce, challenge_for_verifier(&fresh.pkce.code_verifier));
}

fn identity() -> WhoamiData {
    WhoamiData {
        user_id: "user-1".to_string(),
        tenant_id: "tenant-1".to_string(),
        requested_permissions: vec!["a".to_string(), "b".to_string()],
        effective_permissions: vec!["a".to_string()],
    }
}

#[test]
fn profile_updates_keep_what_they_do_not_touch() {
    let mut config = login_config("http://127.0.0.1:8036".to_string(), &token(), None);
    assert_eq!(config.auth.tenant_id, None);
    apply_identity(&mut config, &identity());
    assert_eq!(config.auth.tenant_id.as_deref(), Some("tenant-1"));
    assert_eq!(config.auth.user_id.as_deref(), Some("user-1"));

    let mut refreshed = token();
    refreshed.access_token = "YCLI.new".to_string();
    refreshed.record_id = "record-2".to_string();
    apply_refreshed_token(&mut config, refreshed);
    assert_eq!(config.auth.access_token, "YCLI.new");
    assert_eq!(config.auth.record_id, "record-2");
    assert_eq!(config.auth.tenant_id.as_deref(), Some("tenant-1"));
    assert_eq!(config.dashboard.base_url, "http://127.0.0.1:8036");

    let with_identity = login_config("u".to_string(), &token(), Some(&identity()));
    assert_eq!(with_identity.auth.user_id.as_deref(), Some("user-1"));
}

#[test]
fn whoami_report_lists_identity_and_permissions() {
    assert_eq!(
        whoami_text(&identity()),
        "userId: user-1\ntenantId: tenant-1\nrequestedPermissions: a,b\neffectivePermissions: a\n"
    );
}

#[test]
fn analytics_range_defaults_to_seven_days_before_the_end() {
    let range = analytics_range_at(
        &AnalyticsRangeArgs {
            start_time: None,
            end_time: Some(1783526400000),
        },
        0,
    )
    .unwrap();
    assert_eq!(range.start_time, 1782921600000);
    assert_eq!(range.end_time, 1783526400000);

    let now = analytics_range_at(
        &AnalyticsRangeArgs {
            start_time: None,
            end_time: None,
        },
        1_000_000_000_000,
    )
    .unwrap();
    assert_eq!(now.end_time, 1_000_000_000_000);
    assert_eq!(now.start_time, 1_000_000_000_000 - 604_800_000);

    let backwards = analytics_range_at(
        &AnalyticsRangeArgs {
            start_time: Some(10),
            end_time: Some(10),
        },
        0,
    );
    assert_eq!(
        backwards.unwrap_err(),
        "start-time must be earlier than end-time"
    );

    let live = analytics_range(&AnalyticsRangeArgs {
        start_time: None,
        end_time: None,
    })
    .unwrap();
    assert_eq!(live.end_time - live.start_time, 604_800_000);
}

#[test]
fn smb_source_matches_business_app_or_smb() {
    assert_eq!(smb_flag(Some("WhatsApp Business App")), Some(true));
    assert_eq!(smb_flag(Some("SMB")), Some(true));
    assert_eq!(smb_flag(Some("WhatsApp Business API")), Some(false));
    assert_eq!(smb_flag(None), None);
}

#[test]
fn log_search_bodies_match_the_adapter_contract() {
    let args = AnalyticsLogsArgs {
        range: AnalyticsRangeArgs {
            start_time: Some(1782921600000),
            end_time: Some(1783526400000),
        },
        page_no: 1,
        page_size: 20,
        condition: Some("test".to_string()),
        direction: "OutBound".to_string(),
        from: None,
        business_phones: vec!["8613800138000".to_string()],
        to_region_codes: vec!["CN".to_string()],
        status: Some("sent,delivered".to_string()),
        source: Some("WhatsApp Business API".to_string()),
        pricing_category: vec!["marketing".to_string()],
        timezone: "GMT+8".to_string(),
    };
    let range = AnalyticsRangeRequest {
        start_time: 1782921600000,
        end_time: 1783526400000,
    };
    let body = logs_request(&args, range).body();
    let s = |v: &str| JsonValue::Str(v.to_string());
    let n = |v: &str| JsonValue::Number(v.to_string());
    assert_eq!(
        body,
        JsonValue::Object(vec![
            ("direction".to_string(), s("OutBound")),
            ("startTime".to_string(), n("1782921600000")),
            ("endTime".to_string(), n("1783526400000")),
            ("pageNo".to_string(), n("1")),
            ("pageSize".to_string(), n("20")),
            ("timezone".to_string(), s("GMT+8")),
            ("condition".to_string(), s("test")),
            ("businessPhones".to_string(), JsonValue::Array(vec![s("8613800138000")])),
            ("toRegionCodes".to_string(), JsonValue::Array(vec![s("CN")])),
            ("status".to_string(), s("sent,delivered")),
            ("smb".to_string(), JsonValue::Bool(false)),
            ("pricingCategory".to_string(), JsonValue::Array(vec![s("marketing")])),
        ])
    );

    let calling = AnalyticsCallingLogsArgs {
        range: AnalyticsRangeArgs {
            start_time: None,
            end_time: None,
        },
        page_no: 1,
        page_size: 20,
        condition: None,
        directions: vec!["BUSINESS_INITIATED".to_string()],
        region_codes: vec![],
        sources: vec![],
        status: vec!["COMPLETED".to_string()],
        phone_number_ids: vec![],
    };
    let body = calling_logs_request(&calling, range).body();
    assert_eq!(body.get("regionCodes"), None);
    assert_eq!(
        body.get("directions"),
        Some(&JsonValue::Array(vec![s("BUSINESS_INITIATED")]))
    );
}

#[test]
fn overview_report_wraps_the_three_reads() {
    let out = overview_output(
        AnalyticsRangeRequest {
            start_time: 1,
            end_time: 2,
        },
        "UTC",
        JsonValue::Null,
        JsonValue::Bool(true),
        JsonValue::Null,
    );
    assert_eq!(
        out.get("range").and_then(|r| r.get("timezone")),
        Some(&JsonValue::Str("UTC".to_string()))
    );
    assert_eq!(out.get("messageDetail"), Some(&JsonValue::Bool(true)));
}

#[test]
fn clock_readings_become_milliseconds_or_the_epoch_error() {
    assert_eq!(millis_from_clock(Some(1_782_921_600_000)), Ok(1_782_921_600_000));
    assert_eq!(
        millis_from_clock(None),
        Err("system clock is before unix epoch".to_string())
    );
    assert_eq!(millis_from_clock(Some((1u128 << 64) + 5)), Ok(5));
    assert!(now_millis().expect("the clock reads after the epoch") > 1_600_000_000_000);
}
