//! The Dashboard API contract: response envelopes, typed API errors, the
//! retry policy for safe reads, request headers and request bodies.
//! Sending requests is left to the caller; this module decides what to send
//! and what a response means.

use vstd::prelude::*;

use rand::{Rng, SeedableRng};

use vstd::utf8::encode_utf8;

use crate::json::{
    json_i64, json_str, json_u64, members_model, model, opt_text_member, push_member,
    push_opt_text, push_texts, ref_views, texts_member, JsonModel, JsonValue,
};
use crate::pkce::{os_random_bytes, PkcePair, RANDOM_UNAVAILABLE};
use crate::text::{
    chars_of, concat2, decimal, hex32, i64_to_decimal, join_seqs, join_strings, opt_ref_view,
    opt_string_view, seq_ascii_upper, seq_trim, signed_decimal, str_eq, string_from_chars,
    trim_chars, u64_to_decimal, views,
};

verus! {

/// Whether the CLI runs for a person at a terminal or for automation. The
/// mode selects the retry budget and the overall timeout.
#[derive(Debug, Clone, Copy, PartialEq, Eq, Structural)]
pub enum InvocationMode {
    Interactive,
    Automation,
}

/// The header value of an invocation mode.
pub open spec fn mode_name(m: InvocationMode) -> Seq<char> {
    match m {
        InvocationMode::Interactive => "interactive"@,
        InvocationMode::Automation => "automation"@,
    }
}

/// How often and how long a safe read may be retried.
#[derive(Debug, Clone, Copy)]
pub struct RetryBudget {
    pub max_attempts: usize,
    pub max_wait_ms: u64,
}

impl RetryBudget {
    /// A budget of `max_attempts` attempts and `max_wait_ms` milliseconds of
    /// waiting in all.
    pub fn new(max_attempts: usize, max_wait_ms: u64) -> (r: Self)
        ensures
            r.max_attempts == max_attempts,
            r.max_wait_ms == max_wait_ms,
    {
        RetryBudget { max_attempts, max_wait_ms }
    }
}

impl InvocationMode {
    /// The value of the `x-ycloud-invocation-mode` header.
    pub fn as_str(self) -> (r: &'static str)
        ensures
            r@ == mode_name(self),
    {
        match self {
            InvocationMode::Interactive => "interactive",
            InvocationMode::Automation => "automation",
        }
    }

    /// The display text of the mode.
    pub fn to_display_string(self) -> (r: String)
        ensures
            r@ == mode_name(self),
    {
        self.as_str().to_owned()
    }

    /// Interactive runs try a read 3 times within 5 s of waiting; automation
    /// 4 times within 20 s.
    pub fn retry_budget(self) -> (r: RetryBudget)
        ensures
            self == InvocationMode::Interactive ==> r.max_attempts == 3 && r.max_wait_ms == 5000,
            self == InvocationMode::Automation ==> r.max_attempts == 4 && r.max_wait_ms == 20000,
    {
        match self {
            InvocationMode::Interactive => RetryBudget::new(3, 5000),
            InvocationMode::Automation => RetryBudget::new(4, 20000),
        }
    }

    /// The overall timeout of one API call, in seconds: 30 in either mode
    /// (every HTTP request has a 30-second total timeout).
    pub fn overall_timeout(self) -> (r: u64)
        ensures
            r == 30,
    {
        30
    }
}

// ---------------------------------------------------------------------------
// Envelopes
// ---------------------------------------------------------------------------

/// The envelope of every Dashboard response.
#[derive(Debug)]
pub struct ApiEnvelope<T> {
    pub code: i64,
    pub message: Option<String>,
    pub data: Option<T>,
    pub error: Option<ApiError>,
    pub request_id: Option<String>,
    pub trace_id: Option<String>,
    pub pagination: Option<ApiPagination>,
    pub warnings: Vec<ApiWarning>,
}

/// A typed API error.
#[derive(Debug)]
pub struct ApiError {
    pub code: String,
    pub message: String,
    pub retryable: bool,
    pub details: Option<JsonValue>,
}

/// Cursor pagination of a list response.
#[derive(Debug, Clone)]
pub struct ApiPagination {
    pub next_cursor: Option<String>,
    pub has_more: bool,
    pub total: Option<u64>,
}

/// A warning attached to a response.
#[derive(Debug, Clone)]
pub struct ApiWarning {
    pub code: String,
    pub message: String,
}

impl<T> ApiEnvelope<T> {
    /// The data of the response; an error naming `label` when it is missing.
    pub fn require_data(self, label: &str) -> (r: Result<T, String>)
        ensures
            match self.data {
                Some(d) => r == Ok::<T, String>(d),
                None => r is Err && r->Err_0@ == label@ + " response missing data"@,
            },
    {
        match self.data {
            Some(d) => Ok(d),
            None => Err(concat2(label, " response missing data")),
        }
    }
}

/// An export task.
#[derive(Debug, Clone)]
pub struct ExportTask {
    pub task_id: String,
    pub task_type: String,
    pub status: String,
    pub progress: u32,
    pub record_count: Option<u64>,
    pub previous_task_id: Option<String>,
    pub truncated: Option<bool>,
    pub truncation_reason: Option<String>,
    pub artifacts: Vec<ExportArtifact>,
    pub warnings: Vec<String>,
    pub error_code: Option<String>,
    pub error_message: Option<String>,
}

/// Whether an export status is final: `FINISHED`, `FAILED` or
/// `PARTIAL_SUCCESS`, in any ASCII case.
pub open spec fn terminal_status(status: Seq<char>) -> bool {
    let s = seq_ascii_upper(status);
    s == "FINISHED"@ || s == "FAILED"@ || s == "PARTIAL_SUCCESS"@
}

/// The ASCII upper-case form of a string.
pub fn upper_string(s: &str) -> (r: String)
    ensures
        r@ == seq_ascii_upper(s@),
{
    let cs = crate::text::chars_of(s);
    let up = crate::text::upper_chars(&cs);
    crate::text::string_from_chars(&up)
}

impl ExportTask {
    /// Whether the task has reached a final status.
    pub fn terminal(&self) -> (r: bool)
        ensures
            r == terminal_status(self.status@),
    {
        let s = upper_string(self.status.as_str());
        str_eq(s.as_str(), "FINISHED") || str_eq(s.as_str(), "FAILED") || str_eq(
            s.as_str(),
            "PARTIAL_SUCCESS",
        )
    }
}

/// One artifact of an export task. `artifact_type` is the wire field `type`.
#[derive(Debug, Clone)]
pub struct ExportArtifact {
    pub artifact_id: Option<String>,
    pub artifact_type: String,
    pub part_number: Option<u32>,
    pub format: Option<String>,
    pub file_name: Option<String>,
    pub status: String,
    pub record_count: Option<u64>,
    pub size: Option<u64>,
    pub checksum_sha256: Option<String>,
}

/// A signed download URL of an artifact.
#[derive(Debug, Clone)]
pub struct ArtifactUrl {
    pub task_id: String,
    pub artifact_id: Option<String>,
    pub artifact_type: String,
    pub part_number: Option<u32>,
    pub file_name: String,
    pub url: String,
    pub expires_at: i64,
    pub size: Option<u64>,
    pub checksum_sha256: Option<String>,
}

/// What a finished download wrote: its size and its SHA-256 in lower-case hex.
#[derive(Debug, Clone, PartialEq, Eq)]
pub struct DownloadReceipt {
    pub size: u64,
    pub checksum_sha256: String,
}

/// A token pair issued by the Dashboard.
#[derive(Debug, Clone, PartialEq, Eq)]
pub struct TokenData {
    pub token_type: String,
    pub access_token: String,
    pub refresh_token: String,
    pub record_id: String,
    pub requested_permissions: Vec<String>,
    pub permission_model_version: u32,
}

/// The identity behind a token.
#[derive(Debug, Clone, PartialEq, Eq)]
pub struct WhoamiData {
    pub user_id: String,
    pub tenant_id: String,
    pub requested_permissions: Vec<String>,
    pub effective_permissions: Vec<String>,
}

/// The tenants available to a token.
#[derive(Debug, PartialEq)]
pub struct TenantsData {
    pub tenants: Vec<JsonValue>,
}

/// The body of a contact search.
#[derive(Debug)]
pub struct ContactsSearchRequest<'a> {
    pub page_no: u32,
    pub page_size: u32,
    pub condition: Option<&'a str>,
}

/// A time range in milliseconds since the Unix epoch.
#[derive(Debug, Copy, Clone)]
pub struct AnalyticsRangeRequest {
    pub start_time: i64,
    pub end_time: i64,
}

/// The filters of the analytics overview.
#[derive(Debug, Copy, Clone)]
pub struct AnalyticsOverviewRequest<'a> {
    pub start_time: i64,
    pub end_time: i64,
    pub timezone: &'a str,
    pub from: Option<&'a str>,
    pub region_code: Option<&'a str>,
    pub message_category: Option<&'a str>,
}

/// The body of a WhatsApp message log search.
#[derive(Debug)]
pub struct AnalyticsLogsRequest<'a> {
    pub direction: &'a str,
    pub start_time: i64,
    pub end_time: i64,
    pub page_no: u32,
    pub page_size: u32,
    pub timezone: &'a str,
    pub condition: Option<&'a str>,
    pub from: Option<&'a str>,
    pub business_phones: Vec<&'a str>,
    pub to_region_codes: Vec<&'a str>,
    pub status: Option<&'a str>,
    pub smb: Option<bool>,
    pub pricing_category: Vec<&'a str>,
}

/// The body of a calling log search.
#[derive(Debug)]
pub struct AnalyticsCallingLogsRequest<'a> {
    pub start_time: i64,
    pub end_time: i64,
    pub page_no: u32,
    pub page_size: u32,
    pub condition: Option<&'a str>,
    pub directions: Vec<&'a str>,
    pub region_codes: Vec<&'a str>,
    pub sources: Vec<&'a str>,
    pub status: Vec<&'a str>,
    pub phone_number_ids: Vec<&'a str>,
}

// ---------------------------------------------------------------------------
// Typed API errors and response outcomes
// ---------------------------------------------------------------------------

/// A failed Dashboard call: the HTTP status (with its reason phrase, when
/// known) and the typed error of the body.
#[derive(Debug)]
pub struct DashboardApiError {
    pub status: u16,
    pub reason: Option<String>,
    pub code: String,
    pub message: String,
    pub retryable: bool,
    pub details: Option<JsonValue>,
    pub request_id: Option<String>,
    pub trace_id: Option<String>,
    pub retry_after_ms: Option<u64>,
}

impl DashboardApiError {
    /// An error with the given status and typed error and no correlation ids.
    pub fn from_api_error(status: u16, error: ApiError) -> (r: Self)
        ensures
            r.status == status,
            r.reason.is_none(),
            r.code == error.code,
            r.message == error.message,
            r.retryable == error.retryable,
            r.details == error.details,
            r.request_id.is_none(),
            r.trace_id.is_none(),
            r.retry_after_ms.is_none(),
    {
        DashboardApiError {
            status,
            reason: None,
            code: error.code,
            message: error.message,
            retryable: error.retryable,
            details: error.details,
            request_id: None,
            trace_id: None,
            retry_after_ms: None,
        }
    }

    /// The HTTP status.
    pub fn status(&self) -> (r: u16)
        ensures
            r == self.status,
    {
        self.status
    }

    /// The typed error code.
    pub fn code(&self) -> (r: &str)
        ensures
            r@ == self.code@,
    {
        self.code.as_str()
    }

    /// The error details.
    pub fn details(&self) -> (r: Option<&JsonValue>)
        ensures
            match r {
                Some(d) => self.details == Some(*d),
                None => self.details.is_none(),
            },
    {
        match &self.details {
            Some(d) => Some(d),
            None => None,
        }
    }

    /// The request id of the failed call.
    pub fn request_id(&self) -> (r: Option<&str>)
        ensures
            match r {
                Some(v) => self.request_id.is_some() && v@ == self.request_id.unwrap()@,
                None => self.request_id.is_none(),
            },
    {
        match &self.request_id {
            Some(v) => Some(v.as_str()),
            None => None,
        }
    }

    /// The trace id of the failed call.
    pub fn trace_id(&self) -> (r: Option<&str>)
        ensures
            match r {
                Some(v) => self.trace_id.is_some() && v@ == self.trace_id.unwrap()@,
                None => self.trace_id.is_none(),
            },
    {
        match &self.trace_id {
            Some(v) => Some(v.as_str()),
            None => None,
        }
    }

    /// The error message shown to the user:
    /// `request failed with HTTP <status> <reason>: <code>: <message>
    /// (requestId=<id>, traceId=<id>)`, absent parts empty.
    pub fn describe(&self) -> (r: String)
        ensures
            r@ == describe_text(*self),
    {
        let mut r = "request failed with HTTP ".to_owned();
        r.append(u64_to_decimal(self.status as u64).as_str());
        r.append(" ");
        match &self.reason {
            Some(reason) => r.append(reason.as_str()),
            None => r.append("<unknown status code>"),
        }
        r.append(": ");
        r.append(self.code.as_str());
        r.append(": ");
        r.append(self.message.as_str());
        r.append(" (requestId=");
        match &self.request_id {
            Some(v) => r.append(v.as_str()),
            None => {},
        }
        r.append(", traceId=");
        match &self.trace_id {
            Some(v) => r.append(v.as_str()),
            None => {},
        }
        r.append(")");
        r
    }
}

/// The text of `DashboardApiError::describe`.
pub open spec fn describe_text(e: DashboardApiError) -> Seq<char> {
    "request failed with HTTP "@ + decimal(e.status as nat) + " "@ + (match e.reason {
        Some(r) => r@,
        None => "<unknown status code>"@,
    }) + ": "@ + e.code@ + ": "@ + e.message@ + " (requestId="@ + crate::text::opt_text(
        e.request_id,
    ) + ", traceId="@ + crate::text::opt_text(e.trace_id) + ")"@
}

/// Whether an HTTP status is a success (2xx).
pub open spec fn success_status(status: u16) -> bool {
    200 <= status <= 299
}

/// What a response means: a successful envelope, or a typed failure.
#[derive(Debug)]
pub enum ResponseOutcome<T> {
    Success(ApiEnvelope<T>),
    Failure(DashboardApiError),
}

/// The failure for a non-success status. With a parsed body that carries a
/// typed error, that error and the body's correlation ids; otherwise the
/// generic `http_error` with the status' reason phrase (or
/// `request failed`).
pub fn failure_for_status(
    status: u16,
    reason: Option<String>,
    retry_after_ms: Option<u64>,
    body: Option<ApiEnvelope<JsonValue>>,
) -> (r: DashboardApiError)
    ensures
        r.status == status,
        r.reason == reason,
        r.retry_after_ms == retry_after_ms,
        match body {
            Some(env) if env.error.is_some() => {
                let e = env.error.unwrap();
                &&& r.code == e.code
                &&& r.message == e.message
                &&& r.retryable == e.retryable
                &&& r.details == e.details
                &&& r.request_id == env.request_id
                &&& r.trace_id == env.trace_id
            },
            _ => {
                &&& r.code@ == "http_error"@
                &&& r.message@ == (match reason {
                    Some(t) => t@,
                    None => "request failed"@,
                })
                &&& !r.retryable
                &&& r.details.is_none()
                &&& r.request_id.is_none()
                &&& r.trace_id.is_none()
            },
        },
{
    match body {
        Some(env) => {
            match env.error {
                Some(error) => {
                    return DashboardApiError {
                        status,
                        reason,
                        code: error.code,
                        message: error.message,
                        retryable: error.retryable,
                        details: error.details,
                        request_id: env.request_id,
                        trace_id: env.trace_id,
                        retry_after_ms,
                    };
                },
                None => {},
            }
        },
        None => {},
    }
    let message = match &reason {
        Some(t) => t.clone(),
        None => "request failed".to_owned(),
    };
    DashboardApiError {
        status,
        reason,
        code: "http_error".to_owned(),
        message,
        retryable: false,
        details: None,
        request_id: None,
        trace_id: None,
        retry_after_ms,
    }
}

/// The meaning of a parsed body under a success status: a nonzero `code`
/// is a failure, with the body's typed error when there is one and else the
/// code as text and the message; code 0 is success.
pub fn outcome_for_success<T>(
    status: u16,
    reason: Option<String>,
    retry_after_ms: Option<u64>,
    envelope: ApiEnvelope<T>,
) -> (r: ResponseOutcome<T>)
    ensures
        envelope.code == 0 ==> r == ResponseOutcome::Success(envelope),
        envelope.code != 0 ==> match r {
            ResponseOutcome::Failure(e) => {
                &&& e.status == status
                &&& e.reason == reason
                &&& e.retry_after_ms == retry_after_ms
                &&& e.request_id == envelope.request_id
                &&& e.trace_id == envelope.trace_id
                &&& match envelope.error {
                    Some(x) => e.code == x.code && e.message == x.message && e.retryable
                        == x.retryable && e.details == x.details,
                    None => e.code@ == signed_decimal(envelope.code as int) && e.message@
                        == crate::text::opt_text(envelope.message) && !e.retryable
                        && e.details.is_none(),
                }
            },
            ResponseOutcome::Success(_) => false,
        },
{
    if envelope.code == 0 {
        return ResponseOutcome::Success(envelope);
    }
    let code_text = i64_to_decimal(envelope.code);
    let message_text = crate::text::opt_text_owned(&envelope.message);
    match envelope.error {
        Some(error) => ResponseOutcome::Failure(
            DashboardApiError {
                status,
                reason,
                code: error.code,
                message: error.message,
                retryable: error.retryable,
                details: error.details,
                request_id: envelope.request_id,
                trace_id: envelope.trace_id,
                retry_after_ms,
            },
        ),
        None => ResponseOutcome::Failure(
            DashboardApiError {
                status,
                reason,
                code: code_text,
                message: message_text,
                retryable: false,
                details: None,
                request_id: envelope.request_id,
                trace_id: envelope.trace_id,
                retry_after_ms,
            },
        ),
    }
}

/// Whether an HTTP status is a success (2xx).
pub fn is_success(status: u16) -> (r: bool)
    ensures
        r == success_status(status),
{
    200 <= status && status <= 299
}

// ---------------------------------------------------------------------------
// Retries of safe reads
// ---------------------------------------------------------------------------

/// Whether a failure may be retried at all: HTTP 429 with the typed code
/// `rate_limited` marked retryable.
pub open spec fn retryable_failure(f: DashboardApiError) -> bool {
    f.status == 429 && f.code@ == "rate_limited"@ && f.retryable
}

/// The ceiling of the random backoff after `attempts` attempts:
/// 250 ms doubled per earlier attempt, at most 6 times.
pub open spec fn backoff_ceiling_ms(attempts: usize) -> u64 {
    let doublings: int = if attempts == 0 {
        0
    } else if attempts - 1 > 6 {
        6
    } else {
        attempts - 1
    };
    (250 * vstd::arithmetic::power2::pow2(doublings as nat)) as u64
}

/// The delay before the next attempt, given the random backoff `jitter_ms`
/// used when the server sent no `Retry-After`: none when the failure is not
/// retryable, the attempts are used up, or waiting would exceed the budget.
pub open spec fn retry_delay_choice(
    f: DashboardApiError,
    attempts: usize,
    waited_ms: u64,
    budget: RetryBudget,
    jitter_ms: u64,
) -> Option<u64> {
    if !retryable_failure(f) || attempts >= budget.max_attempts {
        None
    } else {
        let delay = match f.retry_after_ms {
            Some(d) => d,
            None => jitter_ms,
        };
        if waited_ms + delay > budget.max_wait_ms {
            None
        } else {
            Some(delay)
        }
    }
}

/// The ceiling of the random backoff after `attempts` attempts.
pub fn backoff_ceiling(attempts: usize) -> (r: u64)
    ensures
        r == backoff_ceiling_ms(attempts),
        r <= 16000,
{
    let doublings: usize = if attempts == 0 {
        0
    } else if attempts - 1 > 6 {
        6
    } else {
        attempts - 1
    };
    let mut ceiling: u64 = 250;
    let mut i: usize = 0;
    proof {
        vstd::arithmetic::power2::lemma2_to64();
    }
    while i < doublings
        invariant
            0 <= i <= doublings <= 6,
            ceiling == 250 * vstd::arithmetic::power2::pow2(i as nat),
        decreases doublings - i,
    {
        proof {
            vstd::arithmetic::power2::lemma2_to64();
            vstd::arithmetic::power2::lemma_pow2_adds(i as nat, 1);
            vstd::arithmetic::power2::lemma_pow2_strictly_increases(i as nat, 6);
        }
        ceiling = ceiling * 2;
        i = i + 1;
    }
    proof {
        vstd::arithmetic::power2::lemma2_to64();
        if doublings < 6 {
            vstd::arithmetic::power2::lemma_pow2_strictly_increases(doublings as nat, 6);
        }
    }
    ceiling
}

/// The delay before the next attempt of a safe read; see
/// `retry_delay_choice`.
pub fn retry_delay_with(
    failure: &DashboardApiError,
    attempts: usize,
    waited_ms: u64,
    budget: RetryBudget,
    jitter_ms: u64,
) -> (r: Option<u64>)
    ensures
        r == retry_delay_choice(*failure, attempts, waited_ms, budget, jitter_ms),
{
    if failure.status != 429 || !str_eq(failure.code.as_str(), "rate_limited") || !failure.retryable {
        return None;
    }
    if attempts >= budget.max_attempts {
        return None;
    }
    let delay = match failure.retry_after_ms {
        Some(d) => d,
        None => jitter_ms,
    };
    if waited_ms as u128 + delay as u128 > budget.max_wait_ms as u128 {
        return None;
    }
    Some(delay)
}

/// A random number from `0` to `ceiling`, both included: `gen_range(0..=ceiling)`
/// of a `rand::rngs::StdRng` seeded from the operating system's random
/// source (`SeedableRng::from_rng(OsRng)`); `None` when seeding fails.
#[verifier::external_body]
fn random_up_to(ceiling: u64) -> (r: Option<u64>)
    ensures
        r matches Some(v) ==> v <= ceiling,
{
    match rand::rngs::StdRng::from_rng(rand::rngs::OsRng) {
        Ok(mut rng) => Some(rng.gen_range(0..=ceiling)),
        Err(_) => None,
    }
}

/// The delay before the next attempt of a safe read. When the server sent no
/// `Retry-After`, the backoff is random between 0 and
/// `backoff_ceiling_ms(attempts)`; when the random source cannot be read it
/// is the ceiling itself.
pub fn retry_delay(
    failure: &DashboardApiError,
    attempts: usize,
    waited_ms: u64,
    budget: RetryBudget,
) -> (r: Option<u64>)
    ensures
        r is Some ==> retryable_failure(*failure) && attempts < budget.max_attempts && waited_ms
            + r->Some_0 <= budget.max_wait_ms,
        exists|jitter: u64|
            jitter <= backoff_ceiling_ms(attempts) && r == retry_delay_choice(
                *failure,
                attempts,
                waited_ms,
                budget,
                jitter,
            ),
{
    let jitter = if failure.retry_after_ms.is_none() && failure.status == 429 {
        let ceiling = backoff_ceiling(attempts);
        match random_up_to(ceiling) {
            Some(j) => j,
            None => ceiling,
        }
    } else {
        0
    };
    let r = retry_delay_with(failure, attempts, waited_ms, budget, jitter);
    proof {
        if !(failure.retry_after_ms.is_none() && failure.status == 429) {
            assert(jitter <= backoff_ceiling_ms(attempts));
        }
    }
    r
}

// ---------------------------------------------------------------------------
// Headers
// ---------------------------------------------------------------------------

/// Whether a text is a valid HTTP header value: every UTF-8 byte is a tab or
/// at least 32 and not 127.
pub open spec fn header_value_valid(s: Seq<char>) -> bool {
    forall|i: int|
        0 <= i < vstd::utf8::encode_utf8(s).len() ==> {
            let b = #[trigger] vstd::utf8::encode_utf8(s)[i];
            (b >= 32 && b != 127) || b == 9
        }
}

/// Checks a header value the way `http::HeaderValue::from_str` does.
#[verifier::external_body]
fn valid_header_value(s: &str) -> (r: bool)
    ensures
        r == header_value_valid(s@),
{
    reqwest::header::HeaderValue::from_str(s).is_ok()
}

/// The headers of one attempt, as `(name, value)` pairs in order: content
/// type, request id, invocation id, invocation mode and, with a token,
/// `authorization: Bearer <token>`.
pub open spec fn header_pairs(
    token: Option<Seq<char>>,
    request_id: Seq<char>,
    invocation_id: Seq<char>,
    mode: InvocationMode,
) -> Seq<(Seq<char>, Seq<char>)> {
    let base = seq![
        ("content-type"@, "application/json"@),
        ("x-request-id"@, request_id),
        ("x-ycloud-invocation-id"@, invocation_id),
        ("x-ycloud-invocation-mode"@, mode_name(mode)),
    ];
    match token {
        Some(t) => base.push(("authorization"@, "Bearer "@ + t)),
        None => base,
    }
}

/// The views of a sequence of string pairs.
pub open spec fn pair_views(v: Seq<(String, String)>) -> Seq<(Seq<char>, Seq<char>)> {
    v.map_values(|p: (String, String)| (p.0@, p.1@))
}

/// The headers of one attempt. Fails, naming the culprit, when the request
/// id, the invocation id or the bearer value is not a valid header value.
pub fn headers(
    token: Option<&str>,
    request_id: &str,
    invocation_id: &str,
    invocation_mode: InvocationMode,
) -> (r: Result<Vec<(String, String)>, String>)
    ensures
        match r {
            Ok(h) => {
                &&& header_value_valid(request_id@)
                &&& header_value_valid(invocation_id@)
                &&& (token matches Some(t) ==> header_value_valid("Bearer "@ + t@))
                &&& pair_views(h@) == header_pairs(
                    match token {
                        Some(t) => Some(t@),
                        None => None,
                    },
                    request_id@,
                    invocation_id@,
                    invocation_mode,
                )
            },
            Err(m) => {
                ||| !header_value_valid(request_id@) && m@ == "invalid generated request id"@
                ||| header_value_valid(request_id@) && !header_value_valid(invocation_id@) && m@
                    == "invalid generated invocation id"@
                ||| header_value_valid(request_id@) && header_value_valid(invocation_id@) && (
                token matches Some(t) && !header_value_valid("Bearer "@ + t@)) && m@
                    == "invalid access token header value"@
            },
        },
{
    if !valid_header_value(request_id) {
        return Err("invalid generated request id".to_owned());
    }
    if !valid_header_value(invocation_id) {
        return Err("invalid generated invocation id".to_owned());
    }
    let mut h: Vec<(String, String)> = Vec::new();
    h.push(("content-type".to_owned(), "application/json".to_owned()));
    h.push(("x-request-id".to_owned(), request_id.to_owned()));
    h.push(("x-ycloud-invocation-id".to_owned(), invocation_id.to_owned()));
    h.push(("x-ycloud-invocation-mode".to_owned(), invocation_mode.as_str().to_owned()));
    match token {
        Some(t) => {
            let bearer = concat2("Bearer ", t);
            if !valid_header_value(bearer.as_str()) {
                return Err("invalid access token header value".to_owned());
            }
            h.push(("authorization".to_owned(), bearer));
        },
        None => {},
    }
    assert(pair_views(h@) =~= header_pairs(
        match token {
            Some(t) => Some(t@),
            None => None,
        },
        request_id@,
        invocation_id@,
        invocation_mode,
    ));
    Ok(h)
}

// ---------------------------------------------------------------------------
// Identifiers
// ---------------------------------------------------------------------------

/// The largest number that `k` bytes can hold: `256^k - 1`.
pub open spec fn bytes_cap(k: nat) -> nat
    decreases k,
{
    if k == 0 {
        0
    } else {
        bytes_cap((k - 1) as nat) * 256 + 255
    }
}

proof fn lemma_bytes_cap_le(k: nat)
    requires
        k <= 16,
    ensures
        bytes_cap(k) <= bytes_cap(16),
    decreases 16 - k,
{
    if k < 16 {
        lemma_bytes_cap_le(k + 1);
    }
}

/// The number that bytes spell, most significant first.
pub open spec fn bytes_value(b: Seq<u8>) -> nat
    decreases b.len(),
{
    if b.len() == 0 {
        0
    } else {
        bytes_value(b.drop_last()) * 256 + b.last() as nat
    }
}

/// The number that 16 bytes spell, most significant first.
fn u128_from_bytes(b: &Vec<u8>) -> (r: u128)
    requires
        b@.len() == 16,
    ensures
        r == bytes_value(b@),
{
    assert(bytes_cap(16) == u128::MAX) by {
        reveal_with_fuel(bytes_cap, 17);
    }
    let mut v: u128 = 0;
    let mut i: usize = 0;
    while i < 16
        invariant
            0 <= i <= 16,
            b@.len() == 16,
            v == bytes_value(b@.take(i as int)),
            v <= bytes_cap(i as nat),
            bytes_cap(16) == u128::MAX,
        decreases 16 - i,
    {
        proof {
            lemma_bytes_cap_le((i + 1) as nat);
            assert(b@.take(i as int + 1).drop_last() =~= b@.take(i as int));
        }
        v = v * 256 + b[i] as u128;
        i = i + 1;
    }
    assert(b@.take(16) =~= b@);
    v
}

/// A random 128-bit number from 16 bytes of the operating system's random
/// source; `None` when the source fails.
pub(crate) fn random_u128() -> (r: Option<u128>) {
    match os_random_bytes(16) {
        Some(b) => Some(u128_from_bytes(&b)),
        None => None,
    }
}

/// `<prefix>-` followed by 32 lower-case hex digits of `value`.
pub fn identifier_from(prefix: &str, value: u128) -> (r: String)
    ensures
        r@ == prefix@ + "-"@ + crate::text::hex_fixed(value as nat, 32),
{
    let mut r = concat2(prefix, "-");
    r.append(hex32(value).as_str());
    r
}

/// A fresh identifier: `<prefix>-` and 32 random lower-case hex digits.
/// Fails with `RANDOM_UNAVAILABLE` when the random source cannot be read.
pub fn random_identifier(prefix: &str) -> (r: Result<String, String>)
    ensures
        r matches Ok(t) ==> exists|v: u128| t@ == prefix@ + "-"@ + crate::text::hex_fixed(
            v as nat,
            32,
        ),
        r matches Err(e) ==> e@ == RANDOM_UNAVAILABLE@,
{
    match random_u128() {
        Some(v) => Ok(identifier_from(prefix, v)),
        None => Err(RANDOM_UNAVAILABLE.to_owned()),
    }
}

// ---------------------------------------------------------------------------
// Form encoding, query strings and paths
// ---------------------------------------------------------------------------

/// Bytes that `application/x-www-form-urlencoded` leaves as they are:
/// `*`, `-`, `.`, digits, letters and `_`.
pub open spec fn form_byte_unchanged(b: u8) -> bool {
    b == 42 || b == 45 || b == 46 || (48 <= b && b <= 57) || (65 <= b && b <= 90) || b == 95 || (
    97 <= b && b <= 122)
}

/// An upper-case hexadecimal digit.
pub open spec fn hex_upper(d: int) -> char {
    if d < 10 {
        ((d + 48) as u32) as char
    } else {
        ((d + 55) as u32) as char
    }
}

/// The form encoding of one byte: itself when unchanged, `+` for a space,
/// else `%` and two upper-case hex digits.
pub open spec fn form_encode_byte(b: u8) -> Seq<char> {
    if form_byte_unchanged(b) {
        seq![(b as u32) as char]
    } else if b == 32 {
        seq!['+']
    } else {
        seq!['%', hex_upper(b as int / 16), hex_upper(b as int % 16)]
    }
}

/// The form encoding of a byte string, byte by byte.
pub open spec fn form_encode_bytes(bs: Seq<u8>) -> Seq<char>
    decreases bs.len(),
{
    if bs.len() == 0 {
        Seq::empty()
    } else {
        form_encode_byte(bs[0]) + form_encode_bytes(bs.drop_first())
    }
}

/// The form encoding of a text: of its UTF-8 bytes (the WHATWG
/// `application/x-www-form-urlencoded` byte serializer).
pub open spec fn form_encoded(s: Seq<char>) -> Seq<char> {
    form_encode_bytes(encode_utf8(s))
}

/// Form-encodes a text (`form_urlencoded::byte_serialize` of its UTF-8
/// bytes, collected). The crate's serializer keeps `*-._`, digits and
/// letters, writes a space as `+` and every other byte as `%XX` with
/// upper-case hex digits, which is what the contract states.
#[verifier::external_body]
fn form_urlencode(s: &str) -> (r: String)
    ensures
        r@ == form_encoded(s@),
{
    url::form_urlencoded::byte_serialize(s.as_bytes()).collect()
}

/// One `name=value` pair of a query string.
pub open spec fn pair_text(p: (Seq<char>, Seq<char>)) -> Seq<char> {
    form_encoded(p.0) + "="@ + form_encoded(p.1)
}

/// A query string: the encoded pairs joined by `&` (what
/// `form_urlencoded::Serializer::append_pair` builds, pair by pair).
pub open spec fn query_text(pairs: Seq<(Seq<char>, Seq<char>)>) -> Seq<char> {
    join_seqs(pairs.map_values(|p: (Seq<char>, Seq<char>)| pair_text(p)), "&"@)
}

/// Builds a query string from pairs.
pub fn query_string(pairs: &Vec<(String, String)>) -> (r: String)
    ensures
        r@ == query_text(pair_views(pairs@)),
{
    let mut parts: Vec<String> = Vec::new();
    let mut i: usize = 0;
    while i < pairs.len()
        invariant
            0 <= i <= pairs@.len(),
            views(parts@) == pair_views(pairs@.take(i as int)).map_values(
                |p: (Seq<char>, Seq<char>)| pair_text(p),
            ),
        decreases pairs@.len() - i,
    {
        let mut t = form_urlencode(pairs[i].0.as_str());
        t.append("=");
        t.append(form_urlencode(pairs[i].1.as_str()).as_str());
        let ghost before = parts@;
        assert(t@ == pair_text((pairs@[i as int].0@, pairs@[i as int].1@)));
        parts.push(t);
        proof {
            assert(parts@.drop_last() == before);
            assert(views(parts@) =~= views(before).push(pair_text((pairs@[i as int].0@, pairs@[i as int].1@))));
            assert(pair_views(pairs@.take(i as int + 1)) =~= pair_views(pairs@.take(i as int)).push(
                (pairs@[i as int].0@, pairs@[i as int].1@),
            ));
            assert(views(parts@) =~= pair_views(pairs@.take(i as int + 1)).map_values(
                |p: (Seq<char>, Seq<char>)| pair_text(p),
            ));
        }
        i = i + 1;
    }
    assert(pairs@.take(pairs@.len() as int) =~= pairs@);
    join_strings(&parts, "&")
}

/// Appends a pair of owned strings.
fn push_pair(pairs: &mut Vec<(String, String)>, name: &str, value: &str)
    ensures
        pair_views(final(pairs)@) == pair_views(old(pairs)@).push((name@, value@)),
{
    pairs.push((name.to_owned(), value.to_owned()));
    assert(pair_views(final(pairs)@) =~= pair_views(old(pairs)@).push((name@, value@)));
}

/// The query pairs of the authorization URL: response type, profile, state
/// and S256 challenge; then the extra permissions joined by commas, when
/// there are any; then the redirect URI, when there is one.
pub open spec fn authorize_pairs(
    profile: Seq<char>,
    permissions: Seq<Seq<char>>,
    state: Seq<char>,
    challenge: Seq<char>,
    redirect_uri: Option<Seq<char>>,
) -> Seq<(Seq<char>, Seq<char>)> {
    seq![
        ("responseType"@, "code"@),
        ("profile"@, profile),
        ("state"@, state),
        ("codeChallenge"@, challenge),
        ("codeChallengeMethod"@, "S256"@),
    ] + if permissions.len() > 0 {
        seq![("permissions"@, join_seqs(permissions, ","@))]
    } else {
        seq![]
    } + match redirect_uri {
        Some(u) => seq![("redirectUri"@, u)],
        None => seq![],
    }
}

/// The authorization request asks for every permission given, in order:
/// the query has a `permissions` pair whose value, split at its commas,
/// gives back exactly the permissions (none of which holds a comma, as no
/// permission code does). Without permissions there is no such pair.
pub proof fn authorize_pairs_carry_every_permission(
    profile: Seq<char>,
    permissions: Seq<Seq<char>>,
    state: Seq<char>,
    challenge: Seq<char>,
    redirect_uri: Option<Seq<char>>,
)
    requires
        forall|i: int, j: int|
            0 <= i < permissions.len() && 0 <= j < permissions[i].len() ==> #[trigger] permissions[i][j]
                != ',',
    ensures
        permissions.len() > 0 ==> exists|i: int|
            0 <= i < authorize_pairs(profile, permissions, state, challenge, redirect_uri).len()
                && (#[trigger] authorize_pairs(
                profile,
                permissions,
                state,
                challenge,
                redirect_uri,
            )[i]).0 == "permissions"@ && crate::grammar::split_commas(
                authorize_pairs(profile, permissions, state, challenge, redirect_uri)[i].1,
            ) == permissions,
        permissions.len() == 0 ==> forall|i: int|
            0 <= i < authorize_pairs(profile, permissions, state, challenge, redirect_uri).len()
                ==> (#[trigger] authorize_pairs(
                profile,
                permissions,
                state,
                challenge,
                redirect_uri,
            )[i]).0 != "permissions"@,
{
    let pairs = authorize_pairs(profile, permissions, state, challenge, redirect_uri);
    reveal_strlit("permissions");
    reveal_strlit("responseType");
    reveal_strlit("profile");
    reveal_strlit("state");
    reveal_strlit("codeChallenge");
    reveal_strlit("codeChallengeMethod");
    reveal_strlit("redirectUri");
    if permissions.len() > 0 {
        crate::grammar::lemma_split_join_commas(permissions);
        assert(pairs[5] == ("permissions"@, join_seqs(permissions, ","@)));
    } else {
        assert forall|i: int| 0 <= i < pairs.len() implies (#[trigger] pairs[i]).0
            != "permissions"@ by {
            if i == 0 {
                assert(pairs[0].0 == "responseType"@);
            } else if i == 1 {
                assert(pairs[1].0 == "profile"@);
            } else if i == 2 {
                assert(pairs[2].0 == "state"@);
            } else if i == 3 {
                assert(pairs[3].0 == "codeChallenge"@);
            } else if i == 4 {
                assert(pairs[4].0 == "codeChallengeMethod"@);
            } else {
                assert(pairs[5].0 == "redirectUri"@);
                assert(pairs[5].0[0] != "permissions"@[0]);
            }
        }
    }
}

/// The query string of the authorization URL (`/api/cli/auth/authorize`).
pub fn authorize_query(
    profile: &str,
    permissions: &Vec<String>,
    state: &str,
    pkce: &PkcePair,
    redirect_uri: Option<&str>,
) -> (r: String)
    ensures
        r@ == query_text(
            authorize_pairs(
                profile@,
                views(permissions@),
                state@,
                pkce.code_challenge@,
                opt_ref_view(redirect_uri),
            ),
        ),
{
    let mut pairs: Vec<(String, String)> = Vec::new();
    assert(pair_views(pairs@) =~= Seq::<(Seq<char>, Seq<char>)>::empty());
    push_pair(&mut pairs, "responseType", "code");
    push_pair(&mut pairs, "profile", profile);
    push_pair(&mut pairs, "state", state);
    push_pair(&mut pairs, "codeChallenge", pkce.code_challenge.as_str());
    push_pair(&mut pairs, "codeChallengeMethod", "S256");
    if permissions.len() > 0 {
        let joined = join_strings(permissions, ",");
        push_pair(&mut pairs, "permissions", joined.as_str());
    }
    match redirect_uri {
        Some(u) => push_pair(&mut pairs, "redirectUri", u),
        None => {},
    }
    assert(pair_views(pairs@) =~= authorize_pairs(
        profile@,
        views(permissions@),
        state@,
        pkce.code_challenge@,
        opt_ref_view(redirect_uri),
    ));
    query_string(&pairs)
}

/// The query pairs of a phone number page: the WABA and the cursor when
/// given, then the page limit.
pub open spec fn phone_number_pairs(waba_id: Option<Seq<char>>, cursor: Option<Seq<char>>, limit: u32) -> Seq<
    (Seq<char>, Seq<char>),
> {
    (match waba_id {
        Some(w) => seq![("wabaId"@, w)],
        None => seq![],
    }) + (match cursor {
        Some(c) => seq![("cursor"@, c)],
        None => seq![],
    }) + seq![("limit"@, decimal(limit as nat))]
}

/// The path of one page of WhatsApp phone numbers.
pub fn phone_numbers_path(waba_id: Option<&str>, cursor: Option<&str>, limit: u32) -> (r: String)
    ensures
        r@ == "/api/cli/v1/whatsapp/phone-numbers?"@ + query_text(
            phone_number_pairs(opt_ref_view(waba_id), opt_ref_view(cursor), limit),
        ),
{
    let mut pairs: Vec<(String, String)> = Vec::new();
    assert(pair_views(pairs@) =~= Seq::<(Seq<char>, Seq<char>)>::empty());
    match waba_id {
        Some(w) => push_pair(&mut pairs, "wabaId", w),
        None => {},
    }
    match cursor {
        Some(c) => push_pair(&mut pairs, "cursor", c),
        None => {},
    }
    let l = u64_to_decimal(limit as u64);
    push_pair(&mut pairs, "limit", l.as_str());
    assert(pair_views(pairs@) =~= phone_number_pairs(opt_ref_view(waba_id), opt_ref_view(cursor), limit));
    let q = query_string(&pairs);
    concat2("/api/cli/v1/whatsapp/phone-numbers?", q.as_str())
}

/// `s` without the trailing `c`s (`str::trim_end_matches` with a char).
pub open spec fn trim_end_char(s: Seq<char>, c: char) -> Seq<char>
    decreases s.len(),
{
    if s.len() > 0 && s.last() == c {
        trim_end_char(s.drop_last(), c)
    } else {
        s
    }
}

/// `s` without the leading `c`s (`str::trim_start_matches` with a char).
pub open spec fn trim_start_char(s: Seq<char>, c: char) -> Seq<char>
    decreases s.len(),
{
    if s.len() > 0 && s[0] == c {
        trim_start_char(s.drop_first(), c)
    } else {
        s
    }
}

/// The Dashboard base URL as shown and stored: without trailing slashes.
pub fn base_url_text(serialized: &str) -> (r: String)
    ensures
        r@ == trim_end_char(serialized@, '/'),
{
    let cs = chars_of(serialized);
    let mut n = cs.len();
    assert(cs@.take(n as int) =~= cs@);
    while n > 0 && cs[n - 1] == '/'
        invariant
            n <= cs@.len(),
            trim_end_char(cs@.take(n as int), '/') == trim_end_char(cs@, '/'),
        decreases n,
    {
        assert(cs@.take(n as int).drop_last() =~= cs@.take(n - 1));
        n = n - 1;
    }
    let mut out: Vec<char> = Vec::new();
    let mut i: usize = 0;
    while i < n
        invariant
            i <= n <= cs@.len(),
            out@ == cs@.take(i as int),
        decreases n - i,
    {
        out.push(cs[i]);
        assert(out@ =~= cs@.take(i + 1));
        i = i + 1;
    }
    assert(out@ =~= cs@.take(n as int));
    string_from_chars(&out)
}

/// An API path relative to the base URL: without leading slashes.
pub fn relative_path(path: &str) -> (r: String)
    ensures
        r@ == trim_start_char(path@, '/'),
{
    let cs = chars_of(path);
    let n = cs.len();
    let mut k: usize = 0;
    assert(cs@.skip(0) =~= cs@);
    while k < n && cs[k] == '/'
        invariant
            k <= n == cs@.len(),
            trim_start_char(cs@.skip(k as int), '/') == trim_start_char(cs@, '/'),
        decreases n - k,
    {
        assert(cs@.skip(k as int).drop_first() =~= cs@.skip(k + 1));
        k = k + 1;
    }
    let mut out: Vec<char> = Vec::new();
    let mut i: usize = k;
    while i < n
        invariant
            k <= i <= n == cs@.len(),
            out@ == cs@.subrange(k as int, i as int),
        decreases n - i,
    {
        out.push(cs[i]);
        assert(out@ =~= cs@.subrange(k as int, i + 1));
        i = i + 1;
    }
    assert(out@ =~= cs@.skip(k as int));
    string_from_chars(&out)
}

// ---------------------------------------------------------------------------
// Times
// ---------------------------------------------------------------------------

/// The RFC 3339 text, with milliseconds and `Z`, of a millisecond
/// timestamp, as `chrono` writes it; `None` when the timestamp is outside
/// `chrono`'s date range.
pub uninterp spec fn rfc3339_millis(value: i64) -> Option<Seq<char>>;

/// `chrono::DateTime::from_timestamp_millis`, written with
/// `to_rfc3339_opts(SecondsFormat::Millis, true)`. The contract names the
/// result; the calendar arithmetic behind it is `chrono`'s and is not
/// restated here.
#[verifier::external_body]
fn rfc3339_of_millis(value: i64) -> (r: Option<String>)
    ensures
        opt_string_view(r) == rfc3339_millis(value),
{
    chrono::DateTime::from_timestamp_millis(value).map(
        |t| t.to_rfc3339_opts(chrono::SecondsFormat::Millis, true),
    )
}

/// A millisecond timestamp as RFC 3339 text; an error naming the value when
/// it is out of range.
pub fn millis_to_rfc3339(value: i64) -> (r: Result<String, String>)
    ensures
        match rfc3339_millis(value) {
            Some(t) => r is Ok && r->Ok_0@ == t,
            None => r is Err && r->Err_0@ == "analytics time is outside the RFC 3339 range: "@
                + signed_decimal(value as int),
        },
{
    match rfc3339_of_millis(value) {
        Some(t) => Ok(t),
        None => {
            let v = i64_to_decimal(value);
            Err(concat2("analytics time is outside the RFC 3339 range: ", v.as_str()))
        },
    }
}

/// The path of the analytics outline for a range whose ends are given as
/// RFC 3339 text.
pub open spec fn outline_path_text(start: Seq<char>, end: Seq<char>) -> Seq<char> {
    "/api/cli/v1/whatsapp/analytics/outline?startTime="@ + start + "&endTime="@ + end
}

/// The path of the analytics outline for a range.
pub fn analytics_outline_path(range: AnalyticsRangeRequest) -> (r: Result<String, String>)
    ensures
        match (rfc3339_millis(range.start_time), rfc3339_millis(range.end_time)) {
            (Some(s), Some(e)) => r is Ok && r->Ok_0@ == outline_path_text(s, e),
            (None, _) => r is Err && r->Err_0@ == "analytics time is outside the RFC 3339 range: "@
                + signed_decimal(range.start_time as int),
            (Some(_), None) => r is Err && r->Err_0@
                == "analytics time is outside the RFC 3339 range: "@ + signed_decimal(
                range.end_time as int,
            ),
        },
{
    let start = match millis_to_rfc3339(range.start_time) {
        Ok(s) => s,
        Err(e) => {
            return Err(e);
        },
    };
    let end = match millis_to_rfc3339(range.end_time) {
        Ok(s) => s,
        Err(e) => {
            return Err(e);
        },
    };
    let mut r = concat2("/api/cli/v1/whatsapp/analytics/outline?startTime=", start.as_str());
    r.append("&endTime=");
    r.append(end.as_str());
    Ok(r)
}

/// The value of a run of ASCII digits.
pub open spec fn digits_value(s: Seq<char>) -> nat
    decreases s.len(),
{
    if s.len() == 0 {
        0
    } else {
        digits_value(s.drop_last()) * 10 + ((s.last() as int - 48) as nat)
    }
}

/// Whether every character is an ASCII digit.
pub open spec fn all_digits(s: Seq<char>) -> bool {
    forall|i: int| 0 <= i < s.len() ==> '0' <= #[trigger] s[i] && s[i] <= '9'
}

/// A `u64` as `str::parse::<u64>` reads it: an optional `+`, then one or
/// more ASCII digits whose value fits.
pub open spec fn parsed_u64(s: Seq<char>) -> Option<u64> {
    let d = if s.len() > 0 && s[0] == '+' {
        s.drop_first()
    } else {
        s
    };
    if d.len() > 0 && all_digits(d) && digits_value(d) <= u64::MAX {
        Some(digits_value(d) as u64)
    } else {
        None
    }
}

/// Parses a `u64` like `str::parse::<u64>`.
pub fn parse_u64(s: &str) -> (r: Option<u64>)
    ensures
        r == parsed_u64(s@),
{
    let cs = chars_of(s);
    let n = cs.len();
    let start: usize = if n > 0 && cs[0] == '+' {
        1
    } else {
        0
    };
    let ghost d = if s@.len() > 0 && s@[0] == '+' {
        s@.drop_first()
    } else {
        s@
    };
    assert(d =~= cs@.skip(start as int));
    if start >= n {
        return None;
    }
    let mut value: u64 = 0;
    let mut i: usize = start;
    while i < n
        invariant
            start <= i <= n == cs@.len(),
            cs@ == s@,
            d == (if s@.len() > 0 && s@[0] == '+' {
                s@.drop_first()
            } else {
                s@
            }),
            d == cs@.skip(start as int),
            all_digits(cs@.subrange(start as int, i as int)),
            value as nat == digits_value(cs@.subrange(start as int, i as int)),
        decreases n - i,
    {
        let c = cs[i];
        assert(cs@.subrange(start as int, i + 1).drop_last() =~= cs@.subrange(start as int, i as int));
        if c < '0' || c > '9' {
            assert(d[i - start] == c);
            return None;
        }
        let digit = (c as u32 - 48) as u64;
        proof {
            assert(d.take(i - start + 1) =~= cs@.subrange(start as int, i + 1));
            assert(digits_value(cs@.subrange(start as int, i + 1)) == digits_value(
                cs@.subrange(start as int, i as int),
            ) * 10 + digit);
        }
        match value.checked_mul(10) {
            Some(v) => match v.checked_add(digit) {
                Some(w) => {
                    value = w;
                },
                None => {
                    proof {
                        if all_digits(d) {
                            lemma_digits_monotone(d, i - start + 1);
                        }
                    }
                    return None;
                },
            },
            None => {
                proof {
                    if all_digits(d) {
                        lemma_digits_monotone(d, i - start + 1);
                    }
                }
                return None;
            },
        }
        i = i + 1;
    }
    assert(cs@.subrange(start as int, n as int) =~= d);
    Some(value)
}

/// A longer run of digits is worth at least as much as its prefix.
pub proof fn lemma_digits_monotone(d: Seq<char>, k: int)
    requires
        0 <= k <= d.len(),
        all_digits(d),
    ensures
        digits_value(d.take(k)) <= digits_value(d),
    decreases d.len(),
{
    if k < d.len() {
        assert(d.drop_last().take(k) =~= d.take(k));
        assert forall|i: int| 0 <= i < d.drop_last().len() implies '0' <= #[trigger] d.drop_last()[i]
            && d.drop_last()[i] <= '9' by {
            assert(d.drop_last()[i] == d[i]);
        }
        lemma_digits_monotone(d.drop_last(), k);
        assert(d[d.len() - 1] >= '0');
    } else {
        assert(d.take(k) =~= d);
    }
}

/// The millisecond timestamp of an RFC 2822 date, as `chrono` parses it;
/// `None` when it does not parse.
pub uninterp spec fn rfc2822_millis(text: Seq<char>) -> Option<i64>;

/// `chrono::DateTime::parse_from_rfc2822`, read back with
/// `timestamp_millis`. The contract names the result; the date grammar is
/// `chrono`'s and is not restated here.
#[verifier::external_body]
fn rfc2822_timestamp_millis(text: &str) -> (r: Option<i64>)
    ensures
        r == rfc2822_millis(text@),
{
    chrono::DateTime::parse_from_rfc2822(text).ok().map(|t| t.timestamp_millis())
}

/// Milliseconds since the Unix epoch by the system clock
/// (`SystemTime::now().duration_since(UNIX_EPOCH)`, then `as_millis`);
/// `None` when the clock reads before the epoch. Nothing is stated of the
/// value: it is the time.
#[verifier::external_body]
pub(crate) fn clock_millis() -> (r: Option<u128>) {
    std::time::SystemTime::now().duration_since(std::time::UNIX_EPOCH).ok().map(|d| d.as_millis())
}

/// The delay until a deadline, in milliseconds: none when it has passed.
pub open spec fn delay_until(deadline: i64, now: i64) -> u64 {
    if deadline - now <= 0 {
        0
    } else {
        (deadline - now) as u64
    }
}

/// The delay until `deadline` from `now`.
pub fn delay_until_deadline(deadline: i64, now: i64) -> (r: u64)
    ensures
        r == delay_until(deadline, now),
{
    let d = deadline as i128 - now as i128;
    if d <= 0 {
        0
    } else {
        d as u64
    }
}

/// Seconds as milliseconds, saturating (no delay that long is ever waited
/// for).
pub open spec fn seconds_millis(seconds: u64) -> u64 {
    if seconds * 1000 > u64::MAX {
        u64::MAX
    } else {
        (seconds * 1000) as u64
    }
}

/// The delay until an RFC 2822 date by a clock reading (milliseconds since
/// the epoch, as an `i64` by the cast that truncates to 64 bits); none when
/// the clock cannot be read.
pub open spec fn date_delay(deadline: i64, clock: Option<u128>) -> Option<u64> {
    match clock {
        Some(ms) => Some(delay_until(deadline, ms as i64)),
        None => None,
    }
}

/// The delay a `Retry-After` header asks for, in milliseconds: a number of
/// seconds, or an RFC 2822 date (the time until then, none when it has
/// passed). `None` without a header, when it reads as neither, or when the
/// clock that a date is measured against reads before the epoch.
pub fn parse_retry_after(value: Option<&str>) -> (r: Option<u64>)
    ensures
        match value {
            None => r is None,
            Some(v) => match parsed_u64(seq_trim(v@)) {
                Some(secs) => r == Some(seconds_millis(secs)),
                None => match rfc2822_millis(seq_trim(v@)) {
                    Some(deadline) => exists|clock: Option<u128>|
                        r == #[trigger] date_delay(deadline, clock),
                    None => r is None,
                },
            },
        },
{
    let v = match value {
        Some(v) => v,
        None => {
            return None;
        },
    };
    let t = string_from_chars(&trim_chars(v));
    match parse_u64(t.as_str()) {
        Some(secs) => Some(
            match secs.checked_mul(1000) {
                Some(ms) => ms,
                None => u64::MAX,
            },
        ),
        None => match rfc2822_timestamp_millis(t.as_str()) {
            Some(deadline) => {
                let clock = clock_millis();
                let r = match clock {
                    Some(ms) => Some(delay_until_deadline(deadline, ms as i64)),
                    None => None,
                };
                assert(r == date_delay(deadline, clock));
                r
            },
            None => None,
        },
    }
}

// ---------------------------------------------------------------------------
// Request bodies
// ---------------------------------------------------------------------------

/// A JSON number for an unsigned value.
pub open spec fn num(v: nat) -> JsonModel {
    JsonModel::Number(decimal(v))
}

/// A JSON number for a signed value.
pub open spec fn snum(v: int) -> JsonModel {
    JsonModel::Number(signed_decimal(v))
}

/// The body of the authorization code exchange.
pub fn token_exchange_body(code: &str, code_verifier: &str) -> (r: JsonValue)
    ensures
        model(r) == JsonModel::Object(
            seq![
                ("grantType"@, JsonModel::Str("authorization_code"@)),
                ("code"@, JsonModel::Str(code@)),
                ("codeVerifier"@, JsonModel::Str(code_verifier@)),
            ],
        ),
{
    let mut m: Vec<(String, JsonValue)> = Vec::new();
    assert(members_model(m@) =~= Seq::<(Seq<char>, JsonModel)>::empty());
    push_member(&mut m, "grantType", json_str("authorization_code"));
    push_member(&mut m, "code", json_str(code));
    push_member(&mut m, "codeVerifier", json_str(code_verifier));
    assert(members_model(m@) =~= seq![
        ("grantType"@, JsonModel::Str("authorization_code"@)),
        ("code"@, JsonModel::Str(code@)),
        ("codeVerifier"@, JsonModel::Str(code_verifier@)),
    ]);
    JsonValue::Object(m)
}

/// The body of a token refresh.
pub fn refresh_body(refresh_token: &str) -> (r: JsonValue)
    ensures
        model(r) == JsonModel::Object(
            seq![
                ("grantType"@, JsonModel::Str("refresh_token"@)),
                ("refreshToken"@, JsonModel::Str(refresh_token@)),
            ],
        ),
{
    let mut m: Vec<(String, JsonValue)> = Vec::new();
    assert(members_model(m@) =~= Seq::<(Seq<char>, JsonModel)>::empty());
    push_member(&mut m, "grantType", json_str("refresh_token"));
    push_member(&mut m, "refreshToken", json_str(refresh_token));
    assert(members_model(m@) =~= seq![
        ("grantType"@, JsonModel::Str("refresh_token"@)),
        ("refreshToken"@, JsonModel::Str(refresh_token@)),
    ]);
    JsonValue::Object(m)
}

/// The body of a token revocation.
pub fn revoke_body(record_id: &str) -> (r: JsonValue)
    ensures
        model(r) == JsonModel::Object(seq![("recordId"@, JsonModel::Str(record_id@))]),
{
    let mut m: Vec<(String, JsonValue)> = Vec::new();
    assert(members_model(m@) =~= Seq::<(Seq<char>, JsonModel)>::empty());
    push_member(&mut m, "recordId", json_str(record_id));
    assert(members_model(m@) =~= seq![("recordId"@, JsonModel::Str(record_id@))]);
    JsonValue::Object(m)
}

impl<'a> ContactsSearchRequest<'a> {
    /// The JSON body: page number and size, and the condition when set.
    pub fn body(&self) -> (r: JsonValue)
        ensures
            model(r) == JsonModel::Object(
                seq![("pageNo"@, num(self.page_no as nat)), ("pageSize"@, num(self.page_size as nat))]
                    + opt_text_member("condition"@, opt_ref_view(self.condition)),
            ),
    {
        let mut m: Vec<(String, JsonValue)> = Vec::new();
        assert(members_model(m@) =~= Seq::<(Seq<char>, JsonModel)>::empty());
        push_member(&mut m, "pageNo", json_u64(self.page_no as u64));
        push_member(&mut m, "pageSize", json_u64(self.page_size as u64));
        push_opt_text(&mut m, "condition", self.condition);
        assert(members_model(m@) =~= seq![
            ("pageNo"@, num(self.page_no as nat)),
            ("pageSize"@, num(self.page_size as nat)),
        ] + opt_text_member("condition"@, opt_ref_view(self.condition)));
        JsonValue::Object(m)
    }
}

/// The body of the stable analytics endpoints: the range as RFC 3339 text,
/// the timezone, and the filters that are set.
pub open spec fn analytics_v1_model(
    start: Seq<char>,
    end: Seq<char>,
    request: AnalyticsOverviewRequest,
) -> JsonModel {
    JsonModel::Object(
        seq![
            ("startTime"@, JsonModel::Str(start)),
            ("endTime"@, JsonModel::Str(end)),
            ("timezone"@, JsonModel::Str(request.timezone@)),
        ] + opt_text_member("from"@, opt_ref_view(request.from)) + opt_text_member(
            "regionCode"@,
            opt_ref_view(request.region_code),
        ) + opt_text_member("messageCategory"@, opt_ref_view(request.message_category)),
    )
}

/// The stable analytics body of an overview request; fails when a time is
/// outside the RFC 3339 range.
pub fn analytics_v1_body(request: &AnalyticsOverviewRequest) -> (r: Result<JsonValue, String>)
    ensures
        match (rfc3339_millis(request.start_time), rfc3339_millis(request.end_time)) {
            (Some(s), Some(e)) => r is Ok && model(r->Ok_0) == analytics_v1_model(s, e, *request),
            (None, _) => r is Err && r->Err_0@ == "analytics time is outside the RFC 3339 range: "@
                + signed_decimal(request.start_time as int),
            (Some(_), None) => r is Err && r->Err_0@
                == "analytics time is outside the RFC 3339 range: "@ + signed_decimal(
                request.end_time as int,
            ),
        },
{
    let start = match millis_to_rfc3339(request.start_time) {
        Ok(s) => s,
        Err(e) => {
            return Err(e);
        },
    };
    let end = match millis_to_rfc3339(request.end_time) {
        Ok(s) => s,
        Err(e) => {
            return Err(e);
        },
    };
    let mut m: Vec<(String, JsonValue)> = Vec::new();
    assert(members_model(m@) =~= Seq::<(Seq<char>, JsonModel)>::empty());
    push_member(&mut m, "startTime", json_str(start.as_str()));
    push_member(&mut m, "endTime", json_str(end.as_str()));
    push_member(&mut m, "timezone", json_str(request.timezone));
    push_opt_text(&mut m, "from", request.from);
    push_opt_text(&mut m, "regionCode", request.region_code);
    push_opt_text(&mut m, "messageCategory", request.message_category);
    assert(members_model(m@) =~= seq![
        ("startTime"@, JsonModel::Str(start@)),
        ("endTime"@, JsonModel::Str(end@)),
        ("timezone"@, JsonModel::Str(request.timezone@)),
    ] + opt_text_member("from"@, opt_ref_view(request.from)) + opt_text_member(
        "regionCode"@,
        opt_ref_view(request.region_code),
    ) + opt_text_member("messageCategory"@, opt_ref_view(request.message_category)));
    Ok(JsonValue::Object(m))
}

/// A member for an optional boolean, left out when absent.
pub open spec fn opt_bool_member(name: Seq<char>, v: Option<bool>) -> Seq<(Seq<char>, JsonModel)> {
    match v {
        Some(b) => seq![(name, JsonModel::Bool(b))],
        None => seq![],
    }
}

impl<'a> AnalyticsLogsRequest<'a> {
    /// The JSON body: direction, range, page, timezone, then the filters
    /// that are set (empty lists left out).
    pub fn body(&self) -> (r: JsonValue)
        ensures
            model(r) == JsonModel::Object(
                seq![
                    ("direction"@, JsonModel::Str(self.direction@)),
                    ("startTime"@, snum(self.start_time as int)),
                    ("endTime"@, snum(self.end_time as int)),
                    ("pageNo"@, num(self.page_no as nat)),
                    ("pageSize"@, num(self.page_size as nat)),
                    ("timezone"@, JsonModel::Str(self.timezone@)),
                ] + opt_text_member("condition"@, opt_ref_view(self.condition)) + opt_text_member(
                    "from"@,
                    opt_ref_view(self.from),
                ) + texts_member("businessPhones"@, ref_views(self.business_phones@))
                    + texts_member("toRegionCodes"@, ref_views(self.to_region_codes@))
                    + opt_text_member("status"@, opt_ref_view(self.status)) + opt_bool_member(
                    "smb"@,
                    self.smb,
                ) + texts_member("pricingCategory"@, ref_views(self.pricing_category@)),
            ),
    {
        let mut m: Vec<(String, JsonValue)> = Vec::new();
        assert(members_model(m@) =~= Seq::<(Seq<char>, JsonModel)>::empty());
        push_member(&mut m, "direction", json_str(self.direction));
        push_member(&mut m, "startTime", json_i64(self.start_time));
        push_member(&mut m, "endTime", json_i64(self.end_time));
        push_member(&mut m, "pageNo", json_u64(self.page_no as u64));
        push_member(&mut m, "pageSize", json_u64(self.page_size as u64));
        push_member(&mut m, "timezone", json_str(self.timezone));
        assert(members_model(m@) =~= seq![
            ("direction"@, JsonModel::Str(self.direction@)),
            ("startTime"@, snum(self.start_time as int)),
            ("endTime"@, snum(self.end_time as int)),
            ("pageNo"@, num(self.page_no as nat)),
            ("pageSize"@, num(self.page_size as nat)),
            ("timezone"@, JsonModel::Str(self.timezone@)),
        ]);
        push_opt_text(&mut m, "condition", self.condition);
        push_opt_text(&mut m, "from", self.from);
        push_texts(&mut m, "businessPhones", &self.business_phones);
        push_texts(&mut m, "toRegionCodes", &self.to_region_codes);
        push_opt_text(&mut m, "status", self.status);
        let ghost before_smb = members_model(m@);
        match self.smb {
            Some(b) => push_member(&mut m, "smb", JsonValue::Bool(b)),
            None => {},
        }
        assert(members_model(m@) =~= before_smb + opt_bool_member("smb"@, self.smb));
        push_texts(&mut m, "pricingCategory", &self.pricing_category);
        JsonValue::Object(m)
    }
}

impl<'a> AnalyticsCallingLogsRequest<'a> {
    /// The JSON body: range and page, then the filters that are set (empty
    /// lists left out).
    pub fn body(&self) -> (r: JsonValue)
        ensures
            model(r) == JsonModel::Object(
                seq![
                    ("startTime"@, snum(self.start_time as int)),
                    ("endTime"@, snum(self.end_time as int)),
                    ("pageNo"@, num(self.page_no as nat)),
                    ("pageSize"@, num(self.page_size as nat)),
                ] + opt_text_member("condition"@, opt_ref_view(self.condition)) + texts_member(
                    "directions"@,
                    ref_views(self.directions@),
                ) + texts_member("regionCodes"@, ref_views(self.region_codes@)) + texts_member(
                    "sources"@,
                    ref_views(self.sources@),
                ) + texts_member("status"@, ref_views(self.status@)) + texts_member(
                    "phoneNumberIds"@,
                    ref_views(self.phone_number_ids@),
                ),
            ),
    {
        let mut m: Vec<(String, JsonValue)> = Vec::new();
        assert(members_model(m@) =~= Seq::<(Seq<char>, JsonModel)>::empty());
        push_member(&mut m, "startTime", json_i64(self.start_time));
        push_member(&mut m, "endTime", json_i64(self.end_time));
        push_member(&mut m, "pageNo", json_u64(self.page_no as u64));
        push_member(&mut m, "pageSize", json_u64(self.page_size as u64));
        push_opt_text(&mut m, "condition", self.condition);
        push_texts(&mut m, "directions", &self.directions);
        push_texts(&mut m, "regionCodes", &self.region_codes);
        push_texts(&mut m, "sources", &self.sources);
        push_texts(&mut m, "status", &self.status);
        push_texts(&mut m, "phoneNumberIds", &self.phone_number_ids);
        assert(members_model(m@) =~= seq![
            ("startTime"@, snum(self.start_time as int)),
            ("endTime"@, snum(self.end_time as int)),
            ("pageNo"@, num(self.page_no as nat)),
            ("pageSize"@, num(self.page_size as nat)),
        ] + opt_text_member("condition"@, opt_ref_view(self.condition)) + texts_member(
            "directions"@,
            ref_views(self.directions@),
        ) + texts_member("regionCodes"@, ref_views(self.region_codes@)) + texts_member(
            "sources"@,
            ref_views(self.sources@),
        ) + texts_member("status"@, ref_views(self.status@)) + texts_member(
            "phoneNumberIds"@,
            ref_views(self.phone_number_ids@),
        ));
        JsonValue::Object(m)
    }
}

// ---------------------------------------------------------------------------
// Read routes
// ---------------------------------------------------------------------------

/// A Dashboard read the CLI makes.
#[derive(Debug, Clone, Copy, PartialEq, Eq, Structural)]
pub enum ReadEndpoint {
    Whoami,
    Tenants,
    ContactsMetadata,
    IntegrationsStatus,
    Delivery,
    MessageDetail,
    FailureReasons,
    ContactsSearch,
    MessagesSearch,
    CallingLogs,
}

/// The path a read goes to first: the stable `/api/cli/v1` contract for the
/// stable commands, the `/api/cli/read` adapter for the compatibility-only
/// ones (contact search, message logs, calling logs).
pub open spec fn primary_path(e: ReadEndpoint) -> Seq<char> {
    match e {
        ReadEndpoint::Whoami => "/api/cli/v1/whoami"@,
        ReadEndpoint::Tenants => "/api/cli/v1/tenants"@,
        ReadEndpoint::ContactsMetadata => "/api/cli/v1/contacts/metadata"@,
        ReadEndpoint::IntegrationsStatus => "/api/cli/v1/integrations/status"@,
        ReadEndpoint::Delivery => "/api/cli/v1/whatsapp/analytics/delivery"@,
        ReadEndpoint::MessageDetail => "/api/cli/v1/whatsapp/analytics/message-detail"@,
        ReadEndpoint::FailureReasons => "/api/cli/v1/whatsapp/analytics/failure-reasons"@,
        ReadEndpoint::ContactsSearch => "/api/cli/read/contacts/search"@,
        ReadEndpoint::MessagesSearch => "/api/cli/read/whatsapp/messages/search"@,
        ReadEndpoint::CallingLogs => "/api/cli/read/calling/logs/search"@,
    }
}

/// The compatibility adapter of a stable read, which serves it while the
/// stable contract is being rolled out; none for the compatibility-only
/// reads.
pub open spec fn legacy_path(e: ReadEndpoint) -> Option<Seq<char>> {
    match e {
        ReadEndpoint::Whoami => Some("/api/cli/auth/whoami"@),
        ReadEndpoint::Tenants => Some("/api/cli/auth/tenants/list"@),
        ReadEndpoint::ContactsMetadata => Some("/api/cli/read/contacts/metadata"@),
        ReadEndpoint::IntegrationsStatus => Some("/api/cli/read/integrations/status"@),
        ReadEndpoint::Delivery => Some("/api/cli/read/whatsapp/analytics/delivery"@),
        ReadEndpoint::MessageDetail => Some("/api/cli/read/whatsapp/analytics/message-detail"@),
        ReadEndpoint::FailureReasons => Some("/api/cli/read/whatsapp/analytics/failure-reasons"@),
        _ => None,
    }
}

/// The paths of a read: the one to try first and the compatibility adapter.
pub fn read_route(e: ReadEndpoint) -> (r: (&'static str, Option<&'static str>))
    ensures
        r.0@ == primary_path(e),
        opt_ref_view(r.1) == legacy_path(e),
{
    match e {
        ReadEndpoint::Whoami => ("/api/cli/v1/whoami", Some("/api/cli/auth/whoami")),
        ReadEndpoint::Tenants => ("/api/cli/v1/tenants", Some("/api/cli/auth/tenants/list")),
        ReadEndpoint::ContactsMetadata => (
            "/api/cli/v1/contacts/metadata",
            Some("/api/cli/read/contacts/metadata"),
        ),
        ReadEndpoint::IntegrationsStatus => (
            "/api/cli/v1/integrations/status",
            Some("/api/cli/read/integrations/status"),
        ),
        ReadEndpoint::Delivery => (
            "/api/cli/v1/whatsapp/analytics/delivery",
            Some("/api/cli/read/whatsapp/analytics/delivery"),
        ),
        ReadEndpoint::MessageDetail => (
            "/api/cli/v1/whatsapp/analytics/message-detail",
            Some("/api/cli/read/whatsapp/analytics/message-detail"),
        ),
        ReadEndpoint::FailureReasons => (
            "/api/cli/v1/whatsapp/analytics/failure-reasons",
            Some("/api/cli/read/whatsapp/analytics/failure-reasons"),
        ),
        ReadEndpoint::ContactsSearch => ("/api/cli/read/contacts/search", None),
        ReadEndpoint::MessagesSearch => ("/api/cli/read/whatsapp/messages/search", None),
        ReadEndpoint::CallingLogs => ("/api/cli/read/calling/logs/search", None),
    }
}

/// Whether a failed stable read may be tried again on its compatibility
/// adapter: only when the stable path answered HTTP 404 or 405, as during a
/// rolling upgrade. Authentication, authorization, validation and server
/// errors never are.
pub open spec fn falls_back(status: u16) -> bool {
    status == 404 || status == 405
}

/// Decides whether a failed read goes on to the compatibility adapter: it
/// must have one, and the failure must be a 404 or 405.
pub fn use_legacy_route(e: ReadEndpoint, failure: &DashboardApiError) -> (r: Option<&'static str>)
    ensures
        falls_back(failure.status) ==> opt_ref_view(r) == legacy_path(e),
        !falls_back(failure.status) ==> r is None,
{
    if failure.status == 404 || failure.status == 405 {
        read_route(e).1
    } else {
        None
    }
}

impl<'a> AnalyticsOverviewRequest<'a> {
    /// The body the compatibility adapters take: the range in milliseconds,
    /// the timezone and the filters that are set.
    pub fn legacy_body(&self) -> (r: JsonValue)
        ensures
            model(r) == JsonModel::Object(
                seq![
                    ("startTime"@, snum(self.start_time as int)),
                    ("endTime"@, snum(self.end_time as int)),
                    ("timezone"@, JsonModel::Str(self.timezone@)),
                ] + opt_text_member("from"@, opt_ref_view(self.from)) + opt_text_member(
                    "regionCode"@,
                    opt_ref_view(self.region_code),
                ) + opt_text_member("messageCategory"@, opt_ref_view(self.message_category)),
            ),
    {
        let mut m: Vec<(String, JsonValue)> = Vec::new();
        assert(members_model(m@) =~= Seq::<(Seq<char>, JsonModel)>::empty());
        push_member(&mut m, "startTime", json_i64(self.start_time));
        push_member(&mut m, "endTime", json_i64(self.end_time));
        push_member(&mut m, "timezone", json_str(self.timezone));
        assert(members_model(m@) =~= seq![
            ("startTime"@, snum(self.start_time as int)),
            ("endTime"@, snum(self.end_time as int)),
            ("timezone"@, JsonModel::Str(self.timezone@)),
        ]);
        push_opt_text(&mut m, "from", self.from);
        push_opt_text(&mut m, "regionCode", self.region_code);
        push_opt_text(&mut m, "messageCategory", self.message_category);
        JsonValue::Object(m)
    }
}

} // verus!
