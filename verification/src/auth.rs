//! Signing in and using the stored token: the checks a new token must pass,
//! the login setup, the profile updates, the analytics time range and
//! request bodies, and the browser callback of the login.

use vstd::prelude::*;
use vstd::utf8::encode_utf8;

use crate::cli::{
    profile_name, AnalyticsCallingLogsArgs, AnalyticsLogsArgs, AnalyticsOverviewArgs,
    AnalyticsRangeArgs, ContactsListArgs, LoginArgs,
};
use crate::config::{AuthConfig, Config, DashboardConfig};
use crate::http::{
    clock_millis, pair_views, AnalyticsCallingLogsRequest, AnalyticsLogsRequest, AnalyticsOverviewRequest,
    AnalyticsRangeRequest, ContactsSearchRequest, TokenData, WhoamiData,
};
use crate::json::{members_model, model, push_member, JsonModel, JsonValue, json_i64, json_str};
use crate::pkce::{
    base64url, challenge_for_verifier, challenge_of, encode_base64url, generate_pkce_pair,
    os_random_bytes, PkcePair, RANDOM_UNAVAILABLE,
};
use crate::text::{
    clone_opt, clone_strings, concat2, decimal, has_prefix, join_seqs, join_strings, opt_str,
    opt_ref_view, opt_string_view, str_eq, str_eq_ignore_ascii_case, str_starts_with,
    eq_ignore_ascii_case, u64_to_decimal, views, chars_of, is_unicode_whitespace,
    is_whitespace_char, seq_trim, string_from_chars, trim_chars,
};

verus! {

// ---------------------------------------------------------------------------
// Token checks
// ---------------------------------------------------------------------------

/// What is wrong with a token the backend issued, if anything: it must be a
/// `Bearer` token, its access token must start with `YCLI.`, it must use
/// permission model version 1, and it must carry a permission snapshot.
pub open spec fn token_problem(t: TokenData) -> Option<Seq<char>> {
    if t.token_type@ != "Bearer"@ {
        Some("backend returned an unsupported token type"@)
    } else if !has_prefix(t.access_token@, "YCLI."@) {
        Some("backend returned a non-YCLI access token"@)
    } else if t.permission_model_version != 1 {
        Some(
            "unsupported CLI permission model version: "@ + decimal(
                t.permission_model_version as nat,
            ),
        )
    } else if t.requested_permissions@.len() == 0 {
        Some("backend returned an empty CLI permission snapshot"@)
    } else {
        None
    }
}

/// Accepts a token only when `token_problem` finds nothing, and otherwise
/// fails with the problem.
pub fn ensure_ycli_token(token: &TokenData) -> (r: Result<(), String>)
    ensures
        match token_problem(*token) {
            None => r is Ok,
            Some(m) => r is Err && r->Err_0@ == m,
        },
{
    if !str_eq(token.token_type.as_str(), "Bearer") {
        return Err("backend returned an unsupported token type".to_owned());
    }
    if !str_starts_with(token.access_token.as_str(), "YCLI.") {
        return Err("backend returned a non-YCLI access token".to_owned());
    }
    if token.permission_model_version != 1 {
        let v = u64_to_decimal(token.permission_model_version as u64);
        return Err(concat2("unsupported CLI permission model version: ", v.as_str()));
    }
    if token.requested_permissions.len() == 0 {
        return Err("backend returned an empty CLI permission snapshot".to_owned());
    }
    Ok(())
}

// ---------------------------------------------------------------------------
// Login setup and profile updates
// ---------------------------------------------------------------------------

/// What a login sends and how it receives the code.
#[derive(Debug, Clone)]
pub struct LoginSetup {
    pub profile: String,
    pub requested_permissions: Vec<String>,
    pub pkce: PkcePair,
    pub state: String,
    pub manual: bool,
}

/// The prefix of a generated login state.
pub open spec fn state_prefix() -> Seq<char> {
    "yc_cli_"@
}

/// Eleven URL-safe characters that encode 8 random bytes; fails with
/// `RANDOM_UNAVAILABLE` when the random source cannot be read.
pub fn random_state_suffix() -> (r: Result<String, String>)
    ensures
        r matches Ok(t) ==> exists|b: Seq<u8>| b.len() == 8 && t@ == base64url(b),
        r matches Err(e) ==> e@ == RANDOM_UNAVAILABLE@,
{
    match os_random_bytes(8) {
        Some(bytes) => Ok(encode_base64url(&bytes)),
        None => Err(RANDOM_UNAVAILABLE.to_owned()),
    }
}

/// The login setup: the profile's wire name, the extra permissions as
/// given, the PKCE pair of the given verifier (or a fresh one), the given
/// state (or `yc_cli_` and a random suffix), and the manual code flow when
/// it is asked for or a code is given. With a verifier and a state given
/// nothing random is needed and the setup is always made; otherwise it fails
/// with `RANDOM_UNAVAILABLE` when the random source cannot be read.
pub fn prepare_login(args: &LoginArgs) -> (r: Result<LoginSetup, String>)
    ensures
        args.code_verifier is Some && args.state is Some ==> r is Ok,
        r matches Err(e) ==> e@ == RANDOM_UNAVAILABLE@,
        r matches Ok(setup) ==> {
            &&& setup.profile@ == profile_name(args.profile)
            &&& setup.requested_permissions@ == args.permissions@
            &&& match args.code_verifier {
                Some(v) => setup.pkce.code_verifier@ == v@ && setup.pkce.code_challenge@
                    == challenge_of(v@),
                None => setup.pkce.code_challenge@ == challenge_of(setup.pkce.code_verifier@)
                    && setup.pkce.code_verifier@.len() == 43,
            }
            &&& match args.state {
                Some(st) => setup.state@ == st@,
                None => exists|b: Seq<u8>|
                    b.len() == 8 && setup.state@ == state_prefix() + base64url(b),
            }
            &&& setup.manual == (args.manual || args.code is Some)
        },
{
    let profile = args.profile.as_str().to_owned();
    let requested_permissions = clone_strings(&args.permissions);
    let pkce = match &args.code_verifier {
        Some(v) => challenge_for_verifier(v.as_str()),
        None => match generate_pkce_pair() {
            Ok(p) => p,
            Err(e) => {
                return Err(e);
            },
        },
    };
    let state = match &args.state {
        Some(s) => s.clone(),
        None => {
            let suffix = match random_state_suffix() {
                Ok(t) => t,
                Err(e) => {
                    return Err(e);
                },
            };
            concat2("yc_cli_", suffix.as_str())
        },
    };
    let manual = args.manual || args.code.is_some();
    Ok(LoginSetup { profile, requested_permissions, pkce, state, manual })
}

/// The profile saved after a login: the Dashboard, the new token pair and
/// its permissions, and the identity when it could be read.
pub fn login_config(base_url: String, token: &TokenData, identity: Option<&WhoamiData>) -> (r:
    Config)
    ensures
        r.dashboard.base_url == base_url,
        r.auth.token_type == token.token_type,
        r.auth.access_token == token.access_token,
        r.auth.refresh_token == token.refresh_token,
        r.auth.record_id == token.record_id,
        r.auth.requested_permissions@ == token.requested_permissions@,
        match identity {
            Some(i) => r.auth.tenant_id == Some(i.tenant_id) && r.auth.user_id == Some(i.user_id),
            None => r.auth.tenant_id is None && r.auth.user_id is None,
        },
{
    let (tenant_id, user_id) = match identity {
        Some(i) => (Some(i.tenant_id.clone()), Some(i.user_id.clone())),
        None => (None, None),
    };
    Config {
        dashboard: DashboardConfig { base_url },
        auth: AuthConfig {
            token_type: token.token_type.clone(),
            access_token: token.access_token.clone(),
            refresh_token: token.refresh_token.clone(),
            record_id: token.record_id.clone(),
            requested_permissions: clone_strings(&token.requested_permissions),
            tenant_id,
            user_id,
        },
    }
}

/// Records the identity read back for the profile; nothing else changes.
pub fn apply_identity(config: &mut Config, identity: &WhoamiData)
    ensures
        final(config).dashboard == old(config).dashboard,
        final(config).auth.token_type == old(config).auth.token_type,
        final(config).auth.access_token == old(config).auth.access_token,
        final(config).auth.refresh_token == old(config).auth.refresh_token,
        final(config).auth.record_id == old(config).auth.record_id,
        final(config).auth.requested_permissions == old(config).auth.requested_permissions,
        final(config).auth.tenant_id == Some(identity.tenant_id),
        final(config).auth.user_id == Some(identity.user_id),
{
    config.auth.tenant_id = Some(identity.tenant_id.clone());
    config.auth.user_id = Some(identity.user_id.clone());
}

/// Stores a refreshed token pair; the Dashboard and the identity stay.
pub fn apply_refreshed_token(config: &mut Config, token: TokenData)
    ensures
        final(config).dashboard == old(config).dashboard,
        final(config).auth.token_type == token.token_type,
        final(config).auth.access_token == token.access_token,
        final(config).auth.refresh_token == token.refresh_token,
        final(config).auth.record_id == token.record_id,
        final(config).auth.requested_permissions == token.requested_permissions,
        final(config).auth.tenant_id == old(config).auth.tenant_id,
        final(config).auth.user_id == old(config).auth.user_id,
{
    config.auth.token_type = token.token_type;
    config.auth.access_token = token.access_token;
    config.auth.refresh_token = token.refresh_token;
    config.auth.record_id = token.record_id;
    config.auth.requested_permissions = token.requested_permissions;
}

/// The identity report of `ycloud whoami`.
pub open spec fn whoami_report(i: WhoamiData) -> Seq<char> {
    "userId: "@ + i.user_id@ + "\ntenantId: "@ + i.tenant_id@ + "\nrequestedPermissions: "@
        + join_seqs(views(i.requested_permissions@), ","@) + "\neffectivePermissions: "@
        + join_seqs(views(i.effective_permissions@), ","@) + "\n"@
}

/// The identity report, one line per field.
pub fn whoami_text(identity: &WhoamiData) -> (r: String)
    ensures
        r@ == whoami_report(*identity),
{
    let mut r = concat2("userId: ", identity.user_id.as_str());
    r.append("\ntenantId: ");
    r.append(identity.tenant_id.as_str());
    r.append("\nrequestedPermissions: ");
    r.append(join_strings(&identity.requested_permissions, ",").as_str());
    r.append("\neffectivePermissions: ");
    r.append(join_strings(&identity.effective_permissions, ",").as_str());
    r.append("\n");
    r
}

// ---------------------------------------------------------------------------
// Analytics
// ---------------------------------------------------------------------------

/// The default length of an analytics range: seven days in milliseconds.
pub const DEFAULT_RANGE_MILLIS: i64 = 604800000;

/// The end of the range: the given end, else now.
pub open spec fn range_end(args: AnalyticsRangeArgs, now: i64) -> i64 {
    match args.end_time {
        Some(e) => e,
        None => now,
    }
}

/// The start of the range: the given start, else seven days before the end
/// (in wrapping `i64` arithmetic).
pub open spec fn range_start(args: AnalyticsRangeArgs, now: i64) -> i64 {
    match args.start_time {
        Some(s) => s,
        None => range_end(args, now).wrapping_sub(604800000i64),
    }
}

/// The analytics range at time `now` (milliseconds since the epoch): it
/// must start before it ends.
pub fn analytics_range_at(args: &AnalyticsRangeArgs, now: i64) -> (r: Result<
    AnalyticsRangeRequest,
    String,
>)
    ensures
        range_start(*args, now) < range_end(*args, now) ==> r is Ok && r->Ok_0.start_time
            == range_start(*args, now) && r->Ok_0.end_time == range_end(*args, now),
        range_start(*args, now) >= range_end(*args, now) ==> r is Err && r->Err_0@
            == "start-time must be earlier than end-time"@,
{
    let end_time = match args.end_time {
        Some(e) => e,
        None => now,
    };
    let start_time = match args.start_time {
        Some(s) => s,
        None => end_time.wrapping_sub(DEFAULT_RANGE_MILLIS),
    };
    if start_time >= end_time {
        return Err("start-time must be earlier than end-time".to_owned());
    }
    Ok(AnalyticsRangeRequest { start_time, end_time })
}

/// What a clock reading gives: its milliseconds as an `i64` (the cast that
/// truncates to 64 bits), or the error for a clock before the epoch.
pub open spec fn millis_since_epoch(clock: Option<u128>) -> Result<i64, Seq<char>> {
    match clock {
        Some(ms) => Ok(ms as i64),
        None => Err("system clock is before unix epoch"@),
    }
}

/// The view of a millisecond result: the error by its text.
pub open spec fn millis_result_view(r: Result<i64, String>) -> Result<i64, Seq<char>> {
    match r {
        Ok(v) => Ok(v),
        Err(e) => Err(e@),
    }
}

/// Turns a clock reading into milliseconds since the epoch; see
/// `millis_since_epoch`.
pub fn millis_from_clock(clock: Option<u128>) -> (r: Result<i64, String>)
    ensures
        millis_result_view(r) == millis_since_epoch(clock),
{
    match clock {
        Some(ms) => Ok(ms as i64),
        None => Err("system clock is before unix epoch".to_owned()),
    }
}

/// The current time in milliseconds since the Unix epoch; an error when the
/// clock reads before the epoch. The result is what `millis_from_clock`
/// makes of some reading of the clock; which reading, is the clock's
/// business.
pub fn now_millis() -> (r: Result<i64, String>)
    ensures
        exists|clock: Option<u128>| millis_result_view(r) == #[trigger] millis_since_epoch(clock),
        r is Err ==> r->Err_0@ == "system clock is before unix epoch"@,
{
    let clock = clock_millis();
    let r = millis_from_clock(clock);
    assert(millis_result_view(r) == millis_since_epoch(clock));
    r
}

/// The analytics range now. With an end given the clock is not read and the
/// range is `analytics_range_at`'s; otherwise the end is the clock's time.
pub fn analytics_range(args: &AnalyticsRangeArgs) -> (r: Result<AnalyticsRangeRequest, String>)
    ensures
        args.end_time is Some ==> (range_start(*args, 0) < range_end(*args, 0) ==> r is Ok
            && r->Ok_0.start_time == range_start(*args, 0) && r->Ok_0.end_time == range_end(
            *args,
            0,
        )),
        args.end_time is Some ==> (range_start(*args, 0) >= range_end(*args, 0) ==> r is Err
            && r->Err_0@ == "start-time must be earlier than end-time"@),
        r is Ok ==> r->Ok_0.start_time < r->Ok_0.end_time && r->Ok_0.start_time == range_start(
            *args,
            r->Ok_0.end_time,
        ),
        r is Err ==> r->Err_0@ == "start-time must be earlier than end-time"@ || r->Err_0@
            == "system clock is before unix epoch"@,
{
    match args.end_time {
        Some(_) => analytics_range_at(args, 0),
        None => match now_millis() {
            Ok(now) => analytics_range_at(args, now),
            Err(e) => Err(e),
        },
    }
}

/// Whether a message source names the WhatsApp Business App.
pub open spec fn smb_of(source: Option<Seq<char>>) -> Option<bool> {
    match source {
        Some(v) => Some(v == "WhatsApp Business App"@ || eq_ignore_ascii_case(v, "smb"@)),
        None => None,
    }
}

/// The `smb` filter of a log search, from the `--source` option.
pub fn smb_flag(source: Option<&str>) -> (r: Option<bool>)
    ensures
        r == smb_of(opt_ref_view(source)),
{
    match source {
        Some(v) => Some(str_eq(v, "WhatsApp Business App") || str_eq_ignore_ascii_case(v, "smb")),
        None => None,
    }
}

/// The borrowed views of a list of strings.
fn str_refs(v: &Vec<String>) -> (r: Vec<&str>)
    ensures
        r@.map_values(|s: &str| s@) == views(v@),
{
    let mut r: Vec<&str> = Vec::new();
    let mut i: usize = 0;
    while i < v.len()
        invariant
            0 <= i <= v@.len(),
            r@.map_values(|s: &str| s@) == views(v@.take(i as int)),
        decreases v@.len() - i,
    {
        let ghost before = r@;
        r.push(v[i].as_str());
        assert(r@.drop_last() == before);
        assert(r@.map_values(|s: &str| s@) =~= before.map_values(|s: &str| s@).push(v@[i as int]@));
        assert(v@.take(i as int + 1).drop_last() =~= v@.take(i as int));
        assert(views(v@.take(i as int + 1)) =~= views(v@.take(i as int)).push(v@[i as int]@));
        i = i + 1;
    }
    assert(v@.take(v@.len() as int) =~= v@);
    r
}

/// The contact search of `ycloud contacts list`.
pub fn contacts_search_request(args: &ContactsListArgs) -> (r: ContactsSearchRequest<'_>)
    ensures
        r.page_no == args.page_no,
        r.page_size == args.page_size,
        opt_ref_view(r.condition) == opt_string_view(args.condition),
{
    ContactsSearchRequest {
        page_no: args.page_no,
        page_size: args.page_size,
        condition: opt_str(&args.condition),
    }
}

/// The overview filters of `ycloud analytics overview` over a range.
pub fn overview_request(args: &AnalyticsOverviewArgs, range: AnalyticsRangeRequest) -> (r:
    AnalyticsOverviewRequest<'_>)
    ensures
        r.start_time == range.start_time,
        r.end_time == range.end_time,
        r.timezone@ == args.timezone@,
        opt_ref_view(r.from) == opt_string_view(args.from),
        opt_ref_view(r.region_code) == opt_string_view(args.region_code),
        opt_ref_view(r.message_category) == opt_string_view(args.message_category),
{
    AnalyticsOverviewRequest {
        start_time: range.start_time,
        end_time: range.end_time,
        timezone: args.timezone.as_str(),
        from: opt_str(&args.from),
        region_code: opt_str(&args.region_code),
        message_category: opt_str(&args.message_category),
    }
}

/// The log search of `ycloud analytics logs` over a range; `smb` comes from
/// the source.
pub fn logs_request(args: &AnalyticsLogsArgs, range: AnalyticsRangeRequest) -> (r:
    AnalyticsLogsRequest<'_>)
    ensures
        r.direction@ == args.direction@,
        r.start_time == range.start_time,
        r.end_time == range.end_time,
        r.page_no == args.page_no,
        r.page_size == args.page_size,
        r.timezone@ == args.timezone@,
        opt_ref_view(r.condition) == opt_string_view(args.condition),
        opt_ref_view(r.from) == opt_string_view(args.from),
        r.business_phones@.map_values(|s: &str| s@) == views(args.business_phones@),
        r.to_region_codes@.map_values(|s: &str| s@) == views(args.to_region_codes@),
        opt_ref_view(r.status) == opt_string_view(args.status),
        r.smb == smb_of(opt_string_view(args.source)),
        r.pricing_category@.map_values(|s: &str| s@) == views(args.pricing_category@),
{
    let source = opt_str(&args.source);
    AnalyticsLogsRequest {
        direction: args.direction.as_str(),
        start_time: range.start_time,
        end_time: range.end_time,
        page_no: args.page_no,
        page_size: args.page_size,
        timezone: args.timezone.as_str(),
        condition: opt_str(&args.condition),
        from: opt_str(&args.from),
        business_phones: str_refs(&args.business_phones),
        to_region_codes: str_refs(&args.to_region_codes),
        status: opt_str(&args.status),
        smb: smb_flag(source),
        pricing_category: str_refs(&args.pricing_category),
    }
}

/// The calling log search of `ycloud analytics calling-logs` over a range.
pub fn calling_logs_request(args: &AnalyticsCallingLogsArgs, range: AnalyticsRangeRequest) -> (r:
    AnalyticsCallingLogsRequest<'_>)
    ensures
        r.start_time == range.start_time,
        r.end_time == range.end_time,
        r.page_no == args.page_no,
        r.page_size == args.page_size,
        opt_ref_view(r.condition) == opt_string_view(args.condition),
        r.directions@.map_values(|s: &str| s@) == views(args.directions@),
        r.region_codes@.map_values(|s: &str| s@) == views(args.region_codes@),
        r.sources@.map_values(|s: &str| s@) == views(args.sources@),
        r.status@.map_values(|s: &str| s@) == views(args.status@),
        r.phone_number_ids@.map_values(|s: &str| s@) == views(args.phone_number_ids@),
{
    AnalyticsCallingLogsRequest {
        start_time: range.start_time,
        end_time: range.end_time,
        page_no: args.page_no,
        page_size: args.page_size,
        condition: opt_str(&args.condition),
        directions: str_refs(&args.directions),
        region_codes: str_refs(&args.region_codes),
        sources: str_refs(&args.sources),
        status: str_refs(&args.status),
        phone_number_ids: str_refs(&args.phone_number_ids),
    }
}

/// The report of `ycloud analytics overview`: the range with its timezone,
/// then the three analytics read for it.
pub open spec fn overview_model(
    range: AnalyticsRangeRequest,
    timezone: Seq<char>,
    delivery: JsonModel,
    detail: JsonModel,
    failure: JsonModel,
) -> JsonModel {
    JsonModel::Object(
        seq![
            ("range"@, JsonModel::Object(
                seq![
                    ("startTime"@, JsonModel::Number(crate::text::signed_decimal(range.start_time as int))),
                    ("endTime"@, JsonModel::Number(crate::text::signed_decimal(range.end_time as int))),
                    ("timezone"@, JsonModel::Str(timezone)),
                ],
            )),
            ("deliveryAnalytics"@, delivery),
            ("messageDetail"@, detail),
            ("failureReasonShare"@, failure),
        ],
    )
}

/// Builds the overview report.
pub fn overview_output(
    range: AnalyticsRangeRequest,
    timezone: &str,
    delivery: JsonValue,
    detail: JsonValue,
    failure: JsonValue,
) -> (r: JsonValue)
    ensures
        model(r) == overview_model(range, timezone@, model(delivery), model(detail), model(failure)),
{
    let ghost (md, mt, mf) = (model(delivery), model(detail), model(failure));
    let mut inner: Vec<(String, JsonValue)> = Vec::new();
    assert(members_model(inner@) =~= Seq::<(Seq<char>, JsonModel)>::empty());
    push_member(&mut inner, "startTime", json_i64(range.start_time));
    push_member(&mut inner, "endTime", json_i64(range.end_time));
    push_member(&mut inner, "timezone", json_str(timezone));
    assert(members_model(inner@) =~= seq![
        ("startTime"@, JsonModel::Number(crate::text::signed_decimal(range.start_time as int))),
        ("endTime"@, JsonModel::Number(crate::text::signed_decimal(range.end_time as int))),
        ("timezone"@, JsonModel::Str(timezone@)),
    ]);
    let range_value = JsonValue::Object(inner);
    let ghost mr = model(range_value);
    let mut outer: Vec<(String, JsonValue)> = Vec::new();
    assert(members_model(outer@) =~= Seq::<(Seq<char>, JsonModel)>::empty());
    push_member(&mut outer, "range", range_value);
    push_member(&mut outer, "deliveryAnalytics", delivery);
    push_member(&mut outer, "messageDetail", detail);
    push_member(&mut outer, "failureReasonShare", failure);
    assert(members_model(outer@) =~= seq![
        ("range"@, mr),
        ("deliveryAnalytics"@, md),
        ("messageDetail"@, mt),
        ("failureReasonShare"@, mf),
    ]);
    let r = JsonValue::Object(outer);
    assert(model(r) == overview_model(range, timezone@, md, mt, mf));
    r
}

// ---------------------------------------------------------------------------
// Browser callback
// ---------------------------------------------------------------------------

/// Where the line that starts at `i` ends: the first `\n` at or after `i`,
/// else the end of `s`.
pub open spec fn line_end(s: Seq<char>, i: int) -> int
    decreases s.len() - i,
{
    if i >= s.len() || (0 <= i && s[i] == '\n') {
        i
    } else {
        line_end(s, i + 1)
    }
}

/// The first index at or after `i` that is not whitespace (or the end).
pub open spec fn skip_space(s: Seq<char>, i: int) -> int
    decreases s.len() - i,
{
    if 0 <= i < s.len() && is_unicode_whitespace(s[i]) {
        skip_space(s, i + 1)
    } else {
        i
    }
}

/// The first index at or after `i` that is whitespace (or the end).
pub open spec fn word_end(s: Seq<char>, i: int) -> int
    decreases s.len() - i,
{
    if 0 <= i < s.len() && !is_unicode_whitespace(s[i]) {
        word_end(s, i + 1)
    } else {
        i
    }
}

/// The second whitespace-separated word of `s`, if there is one
/// (`s.split_whitespace().nth(1)`).
pub open spec fn second_word(s: Seq<char>) -> Option<Seq<char>> {
    let a = skip_space(s, 0);
    let b = word_end(s, a);
    let c = skip_space(s, b);
    let d = word_end(s, c);
    if c < s.len() {
        Some(s.subrange(c, d))
    } else {
        None
    }
}

/// The request target of a callback request: the second word of its first
/// line.
pub open spec fn callback_target_of(request: Seq<char>) -> Result<Seq<char>, Seq<char>> {
    if request.len() == 0 {
        Err("browser callback was empty"@)
    } else {
        match second_word(request.take(line_end(request, 0))) {
            Some(w) => Ok(w),
            None => Err("browser callback request target is missing"@),
        }
    }
}

/// The view of a text result.
pub open spec fn text_result_view(r: Result<String, String>) -> Result<Seq<char>, Seq<char>> {
    match r {
        Ok(v) => Ok(v@),
        Err(e) => Err(e@),
    }
}

/// The first index at or after `i` (and before `end`) that is not
/// whitespace, in `cs[..end]`.
fn skip_space_in(cs: &Vec<char>, end: usize, i: usize) -> (r: usize)
    requires
        i <= end <= cs@.len(),
    ensures
        r == skip_space(cs@.take(end as int), i as int),
        i <= r <= end,
{
    let ghost line = cs@.take(end as int);
    let mut k = i;
    while k < end && is_whitespace_char(cs[k])
        invariant
            i <= k <= end <= cs@.len(),
            line == cs@.take(end as int),
            skip_space(line, k as int) == skip_space(line, i as int),
        decreases end - k,
    {
        assert(line[k as int] == cs@[k as int]);
        k = k + 1;
    }
    assert(k < end ==> line[k as int] == cs@[k as int]);
    k
}

/// The first index at or after `i` (and before `end`) that is whitespace,
/// in `cs[..end]`.
fn word_end_in(cs: &Vec<char>, end: usize, i: usize) -> (r: usize)
    requires
        i <= end <= cs@.len(),
    ensures
        r == word_end(cs@.take(end as int), i as int),
        i <= r <= end,
{
    let ghost line = cs@.take(end as int);
    let mut k = i;
    while k < end && !is_whitespace_char(cs[k])
        invariant
            i <= k <= end <= cs@.len(),
            line == cs@.take(end as int),
            word_end(line, k as int) == word_end(line, i as int),
        decreases end - k,
    {
        assert(line[k as int] == cs@[k as int]);
        k = k + 1;
    }
    assert(k < end ==> line[k as int] == cs@[k as int]);
    k
}

/// The request target of a raw callback request.
pub fn callback_target(request: &str) -> (r: Result<String, String>)
    ensures
        text_result_view(r) == callback_target_of(request@),
{
    let cs = chars_of(request);
    let n = cs.len();
    if n == 0 {
        return Err("browser callback was empty".to_owned());
    }
    let mut e: usize = 0;
    while e < n && cs[e] != '\n'
        invariant
            0 <= e <= n,
            n == cs@.len(),
            line_end(cs@, e as int) == line_end(cs@, 0),
        decreases n - e,
    {
        e = e + 1;
    }
    let ghost line = cs@.take(e as int);
    let a = skip_space_in(&cs, e, 0);
    let b = word_end_in(&cs, e, a);
    let c = skip_space_in(&cs, e, b);
    let d = word_end_in(&cs, e, c);
    if c >= e {
        return Err("browser callback request target is missing".to_owned());
    }
    let mut w: Vec<char> = Vec::new();
    let mut k = c;
    while k < d
        invariant
            c <= k <= d <= e <= n,
            n == cs@.len(),
            line == cs@.take(e as int),
            w@ == line.subrange(c as int, k as int),
        decreases d - k,
    {
        w.push(cs[k]);
        assert(w@ =~= line.subrange(c as int, k + 1));
        k = k + 1;
    }
    Ok(string_from_chars(&w))
}

/// The parts of a callback URL that the login reads: its path and its query
/// pairs, decoded, in order.
#[derive(Debug, Clone)]
pub struct CallbackUrl {
    pub path: String,
    pub query: Vec<(String, String)>,
}

/// The path and the decoded query pairs of a URL as `url::Url::parse`,
/// `Url::path` and `Url::query_pairs` read them; `None` when the text does
/// not parse as a URL.
pub uninterp spec fn url_path_and_query(text: Seq<char>) -> Option<(Seq<char>, Seq<(Seq<char>, Seq<char>)>)>;

/// The view of a parsed callback URL.
pub open spec fn callback_url_view(u: Option<CallbackUrl>) -> Option<(Seq<char>, Seq<(Seq<char>, Seq<char>)>)> {
    match u {
        Some(v) => Some((v.path@, pair_views(v.query@))),
        None => None,
    }
}

/// Parses a URL with `url::Url::parse` and reads back its path and its
/// query pairs (`Url::query_pairs`, which decodes `+` and percent escapes).
/// The contract names the result and claims only that it is a function of
/// the text; what it is for a given text is the `url` crate's business.
#[verifier::external_body]
fn parse_callback_url(text: &str) -> (r: Option<CallbackUrl>)
    ensures
        callback_url_view(r) == url_path_and_query(text@),
{
    match url::Url::parse(text) {
        Ok(url) => Some(
            CallbackUrl {
                path: url.path().to_owned(),
                query: url.query_pairs().map(|(k, v)| (k.into_owned(), v.into_owned())).collect(),
            },
        ),
        Err(_) => None,
    }
}

/// The value of the last pair named `key`, if any (later pairs win).
pub open spec fn last_value(pairs: Seq<(Seq<char>, Seq<char>)>, key: Seq<char>) -> Option<Seq<char>>
    decreases pairs.len(),
{
    if pairs.len() == 0 {
        None
    } else if pairs.last().0 == key {
        Some(pairs.last().1)
    } else {
        last_value(pairs.drop_last(), key)
    }
}

/// The page the browser is shown, and its HTTP status.
#[derive(Debug, Clone, PartialEq, Eq)]
pub struct CallbackReply {
    pub status: u16,
    pub message: String,
}

/// What a callback request leads to: the reply to send (none when the
/// request is dropped unanswered) and the code or the error of the login.
#[derive(Debug)]
pub struct CallbackOutcome {
    pub reply: Option<CallbackReply>,
    pub result: Result<String, String>,
}

/// The view of a callback outcome.
pub open spec fn outcome_view(o: CallbackOutcome) -> (Option<(u16, Seq<char>)>, Result<
    Seq<char>,
    Seq<char>,
>) {
    (
        match o.reply {
            Some(r) => Some((r.status, r.message@)),
            None => None,
        },
        text_result_view(o.result),
    )
}

/// The outcome of a parsed callback: the path must be `/callback`; the
/// `state` must be the expected one, checked before anything else is read;
/// an `error` fails the login (with its description when that is not
/// blank); else the `code` is the result. A URL that does not parse, or a
/// callback without code, gets no reply.
pub open spec fn callback_outcome_of(
    url: Option<(Seq<char>, Seq<(Seq<char>, Seq<char>)>)>,
    expected_state: Seq<char>,
) -> (Option<(u16, Seq<char>)>, Result<Seq<char>, Seq<char>>) {
    match url {
        None => (None, Err("failed to parse browser callback URL"@)),
        Some((path, pairs)) => if path != "/callback"@ {
            (
                Some((404u16, "yc login callback not found"@)),
                Err("unexpected browser callback path: "@ + path),
            )
        } else if last_value(pairs, "state"@) != Some(expected_state) {
            (
                Some((400u16, "yc login state mismatch"@)),
                Err("browser callback state does not match login request"@),
            )
        } else {
            match last_value(pairs, "error"@) {
                Some(e) => (
                    Some((400u16, "yc login authorization failed"@)),
                    Err(
                        match last_value(pairs, "error_description"@) {
                            Some(d) => if seq_trim(d).len() > 0 {
                                "dashboard authorization failed: "@ + e + ": "@ + d
                            } else {
                                "dashboard authorization failed: "@ + e
                            },
                            None => "dashboard authorization failed: "@ + e,
                        },
                    ),
                ),
                None => match last_value(pairs, "code"@) {
                    Some(c) => (
                        Some((200u16, "yc login succeeded. You can close this browser tab."@)),
                        Ok(c),
                    ),
                    None => (None, Err("browser callback did not include authorization code"@)),
                },
            }
        },
    }
}

/// The login checks the callback's `state` before anything else: a callback
/// to the right path whose state is not the expected one fails with the
/// state mismatch, whatever error or code it carries.
pub proof fn callback_checks_state_first(
    pairs: Seq<(Seq<char>, Seq<char>)>,
    expected_state: Seq<char>,
)
    requires
        last_value(pairs, "state"@) != Some(expected_state),
    ensures
        callback_outcome_of(Some(("/callback"@, pairs)), expected_state) == (
            Some((400u16, "yc login state mismatch"@)),
            Err::<Seq<char>, Seq<char>>("browser callback state does not match login request"@),
        ),
{
}

/// A callback that reports an authorization error never yields a code, so
/// no token is exchanged after a rejection.
pub proof fn rejected_callback_yields_no_code(
    path: Seq<char>,
    pairs: Seq<(Seq<char>, Seq<char>)>,
    expected_state: Seq<char>,
)
    requires
        last_value(pairs, "error"@) is Some,
    ensures
        callback_outcome_of(Some((path, pairs)), expected_state).1 is Err,
{
}

/// The value of the last pair named `key`, if any.
fn last_value_of(pairs: &Vec<(String, String)>, key: &str) -> (r: Option<String>)
    ensures
        opt_string_view(r) == last_value(pair_views(pairs@), key@),
{
    let mut found: Option<String> = None;
    let mut i: usize = 0;
    while i < pairs.len()
        invariant
            0 <= i <= pairs@.len(),
            opt_string_view(found) == last_value(pair_views(pairs@.take(i as int)), key@),
        decreases pairs@.len() - i,
    {
        let ghost next = pair_views(pairs@.take(i as int + 1));
        assert(next.drop_last() =~= pair_views(pairs@.take(i as int)));
        assert(next.last() == (pairs@[i as int].0@, pairs@[i as int].1@));
        if str_eq(pairs[i].0.as_str(), key) {
            found = Some(pairs[i].1.clone());
        }
        i = i + 1;
    }
    assert(pairs@.take(pairs@.len() as int) =~= pairs@);
    found
}

/// A reply with a status and a message.
fn reply(status: u16, message: &str) -> (r: Option<CallbackReply>)
    ensures
        r == Some(CallbackReply { status, message: r->Some_0.message }),
        r->Some_0.message@ == message@,
{
    Some(CallbackReply { status, message: message.to_owned() })
}

/// Decides what to do with a parsed callback; see `callback_outcome_of`.
pub fn callback_outcome(url: Option<CallbackUrl>, expected_state: &str) -> (r: CallbackOutcome)
    ensures
        outcome_view(r) == callback_outcome_of(callback_url_view(url), expected_state@),
{
    let u = match url {
        Some(u) => u,
        None => {
            return CallbackOutcome {
                reply: None,
                result: Err("failed to parse browser callback URL".to_owned()),
            };
        },
    };
    if !str_eq(u.path.as_str(), "/callback") {
        return CallbackOutcome {
            reply: reply(404, "yc login callback not found"),
            result: Err(concat2("unexpected browser callback path: ", u.path.as_str())),
        };
    }
    let state = last_value_of(&u.query, "state");
    let state_ok = match &state {
        Some(s) => str_eq(s.as_str(), expected_state),
        None => false,
    };
    if !state_ok {
        return CallbackOutcome {
            reply: reply(400, "yc login state mismatch"),
            result: Err("browser callback state does not match login request".to_owned()),
        };
    }
    match last_value_of(&u.query, "error") {
        Some(e) => {
            let mut message = concat2("dashboard authorization failed: ", e.as_str());
            match last_value_of(&u.query, "error_description") {
                Some(d) => {
                    let t = trim_chars(d.as_str());
                    if t.len() > 0 {
                        message.append(": ");
                        message.append(d.as_str());
                    }
                },
                None => {},
            }
            CallbackOutcome { reply: reply(400, "yc login authorization failed"), result: Err(message) }
        },
        None => match last_value_of(&u.query, "code") {
            Some(c) => CallbackOutcome {
                reply: reply(200, "yc login succeeded. You can close this browser tab."),
                result: Ok(c),
            },
            None => CallbackOutcome {
                reply: None,
                result: Err("browser callback did not include authorization code".to_owned()),
            },
        },
    }
}

/// Handles a raw callback request: finds its target, parses
/// `http://127.0.0.1<target>` and decides; a request without a target gets
/// no reply.
pub fn handle_callback_request(request: &str, expected_state: &str) -> (r: CallbackOutcome)
    ensures
        match callback_target_of(request@) {
            Err(m) => outcome_view(r) == (None::<(u16, Seq<char>)>, Err::<Seq<char>, Seq<char>>(m)),
            Ok(t) => outcome_view(r) == callback_outcome_of(
                url_path_and_query("http://127.0.0.1"@ + t),
                expected_state@,
            ),
        },
{
    match callback_target(request) {
        Err(m) => CallbackOutcome { reply: None, result: Err(m) },
        Ok(target) => {
            let text = concat2("http://127.0.0.1", target.as_str());
            callback_outcome(parse_callback_url(text.as_str()), expected_state)
        },
    }
}

/// The reason phrase of a callback reply's status.
pub open spec fn reason_phrase(status: u16) -> Seq<char> {
    if status == 400 {
        "Bad Request"@
    } else if status == 404 {
        "Not Found"@
    } else {
        "OK"@
    }
}

/// The HTML page of a callback reply.
pub open spec fn callback_page(message: Seq<char>) -> Seq<char> {
    "<!doctype html><html><head><meta charset=\"utf-8\"><title>yc login</title></head><body><p>"@
        + message + "</p></body></html>"@
}

/// The HTTP response of a callback reply; its `Content-Length` counts the
/// page's UTF-8 bytes.
pub open spec fn callback_http_response(status: u16, message: Seq<char>) -> Seq<char> {
    "HTTP/1.1 "@ + decimal(status as nat) + " "@ + reason_phrase(status)
        + "\r\nContent-Type: text/html; charset=utf-8\r\nContent-Length: "@ + decimal(
        encode_utf8(callback_page(message)).len(),
    ) + "\r\nConnection: close\r\n\r\n"@ + callback_page(message)
}

/// Writes the HTTP response of a callback reply.
pub fn callback_response(status: u16, message: &str) -> (r: String)
    ensures
        r@ == callback_http_response(status, message@),
{
    let mut body = concat2(
        "<!doctype html><html><head><meta charset=\"utf-8\"><title>yc login</title></head><body><p>",
        message,
    );
    body.append("</p></body></html>");
    let reason = if status == 400 {
        "Bad Request"
    } else if status == 404 {
        "Not Found"
    } else {
        "OK"
    };
    assert(body@ =~= callback_page(message@));
    assert(reason@ == reason_phrase(status));
    let length = body.as_str().as_bytes().len();
    assert(length as nat == encode_utf8(body@).len());
    let mut r = concat2("HTTP/1.1 ", u64_to_decimal(status as u64).as_str());
    r.append(" ");
    r.append(reason);
    r.append("\r\nContent-Type: text/html; charset=utf-8\r\nContent-Length: ");
    r.append(u64_to_decimal(length as u64).as_str());
    r.append("\r\nConnection: close\r\n\r\n");
    r.append(body.as_str());
    assert(r@ =~= callback_http_response(status, message@));
    r
}

} // verus!
