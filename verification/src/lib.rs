//! Verified core of the YCloud Console CLI: the command-line grammar, the
//! Dashboard API contract, permission planning, PKCE, exports and the WABA
//! assignment report. Everything here computes; sending requests, reading
//! files and talking to the terminal are left to the caller.

pub mod text;
pub mod sorted;
pub mod json;
pub mod cli;
pub mod grammar;
pub mod http;
pub mod pkce;
pub mod config;
pub mod auth;
pub mod permissions;
pub mod export;
pub mod waba_assignment;

use vstd::prelude::*;

use crate::cli::{
    Command, ContactsCommand, ExportsCommand, InboxCommand, InboxConversationsCommand,
};
use crate::export::new_idempotency_key;
use crate::pkce::RANDOM_UNAVAILABLE;
use crate::http::{DashboardApiError, InvocationMode};
use crate::permissions::{is_reauthorizable, reauthorizable, ReauthorizationPlan};
use crate::text::{
    concat2, hex_fixed, join_seqs, join_strings, opt_text, opt_text_owned, seq_ascii_lower,
    seq_trim, str_eq, string_from_chars, trim_chars, lower_chars, views,
};

verus! {

// ---------------------------------------------------------------------------
// Confirmation
// ---------------------------------------------------------------------------

/// Whether an answer to the reauthorization prompt says yes: `y` or `yes`
/// once trimmed, in any ASCII case. Anything else, the empty answer
/// included, says no.
pub open spec fn confirms(answer: Seq<char>) -> bool {
    let t = seq_ascii_lower(seq_trim(answer));
    t == "y"@ || t == "yes"@
}

/// Reads an answer to the reauthorization prompt; see `confirms`.
pub fn is_confirmation(answer: &str) -> (r: bool)
    ensures
        r == confirms(answer@),
{
    let trimmed = trim_chars(answer);
    let lowered = lower_chars(&trimmed);
    let text = string_from_chars(&lowered);
    str_eq(text.as_str(), "y") || str_eq(text.as_str(), "yes")
}

// ---------------------------------------------------------------------------
// Idempotency keys
// ---------------------------------------------------------------------------

/// The idempotency key slot of a command: the key of a contact export, a
/// conversation export or an export retry; `None` for other commands.
pub open spec fn idempotency_slot(c: Command) -> Option<Option<String>> {
    match c {
        Command::Contacts { command: ContactsCommand::Export(a) } => Some(a.idempotency_key),
        Command::Inbox {
            command: InboxCommand::Conversations { command: InboxConversationsCommand::Export(a) },
        } => Some(a.idempotency_key),
        Command::Exports { command: ExportsCommand::Retry(a) } => Some(a.idempotency_key),
        _ => None,
    }
}

/// A command with its idempotency key set to `k` (other commands as they
/// are).
pub open spec fn with_idempotency_key(c: Command, k: String) -> Command {
    match c {
        Command::Contacts { command: ContactsCommand::Export(a) } => Command::Contacts {
            command: ContactsCommand::Export(
                crate::cli::ContactExportArgs { idempotency_key: Some(k), ..a },
            ),
        },
        Command::Inbox {
            command: InboxCommand::Conversations { command: InboxConversationsCommand::Export(a) },
        } => Command::Inbox {
            command: InboxCommand::Conversations {
                command: InboxConversationsCommand::Export(
                    crate::cli::ConversationExportArgs { idempotency_key: Some(k), ..a },
                ),
            },
        },
        Command::Exports { command: ExportsCommand::Retry(a) } => Command::Exports {
            command: ExportsCommand::Retry(
                crate::cli::ExportRetryArgs { idempotency_key: Some(k), ..a },
            ),
        },
        _ => c,
    }
}

/// Whether a text is a generated idempotency key: `ycloud-cli-` and 32
/// lower-case hex digits.
pub open spec fn generated_key(k: Seq<char>) -> bool {
    exists|v: u128| k == "ycloud-cli-"@ + #[trigger] hex_fixed(v as nat, 32)
}

/// A command with its key set (by value).
fn set_idempotency_key(c: Command, k: String) -> (r: Command)
    ensures
        r == with_idempotency_key(c, k),
{
    match c {
        Command::Contacts { command: ContactsCommand::Export(mut a) } => {
            a.idempotency_key = Some(k);
            Command::Contacts { command: ContactsCommand::Export(a) }
        },
        Command::Inbox {
            command: InboxCommand::Conversations {
                command: InboxConversationsCommand::Export(mut a),
            },
        } => {
            a.idempotency_key = Some(k);
            Command::Inbox {
                command: InboxCommand::Conversations {
                    command: InboxConversationsCommand::Export(a),
                },
            }
        },
        Command::Exports { command: ExportsCommand::Retry(mut a) } => {
            a.idempotency_key = Some(k);
            Command::Exports { command: ExportsCommand::Retry(a) }
        },
        other => other,
    }
}

/// Whether a command has an idempotency slot that is still empty.
fn needs_idempotency_key(c: &Command) -> (r: bool)
    ensures
        r == (idempotency_slot(*c) == Some(None::<String>)),
{
    match c {
        Command::Contacts { command: ContactsCommand::Export(a) } => a.idempotency_key.is_none(),
        Command::Inbox {
            command: InboxCommand::Conversations { command: InboxConversationsCommand::Export(a) },
        } => a.idempotency_key.is_none(),
        Command::Exports { command: ExportsCommand::Retry(a) } => a.idempotency_key.is_none(),
        _ => false,
    }
}

/// Gives an export command without an idempotency key a fresh one, before
/// the command is run (and possibly run again), so every attempt sends the
/// same key. A key already given is kept, and other commands are left as
/// they are. When a key is needed and the random source cannot be read, the
/// command is left as it is and the error is `RANDOM_UNAVAILABLE`.
pub fn preserve_idempotency_key(command: &mut Command) -> (r: Result<(), String>)
    ensures
        idempotency_slot(*old(command)) == Some(None::<String>) ==> match r {
            Ok(_) => exists|k: String|
                generated_key(k@) && *final(command) == #[trigger] with_idempotency_key(
                    *old(command),
                    k,
                ),
            Err(e) => e@ == RANDOM_UNAVAILABLE@ && *final(command) == *old(command),
        },
        idempotency_slot(*old(command)) != Some(None::<String>) ==> r is Ok && *final(command)
            == *old(command),
{
    if !needs_idempotency_key(command) {
        return Ok(());
    }
    let key = match new_idempotency_key() {
        Ok(k) => k,
        Err(e) => {
            return Err(e);
        },
    };
    let ghost k = key;
    let mut owned = Command::Whoami;
    core::mem::swap(&mut owned, command);
    *command = set_idempotency_key(owned, key);
    assert(generated_key(k@));
    Ok(())
}

/// Once an export command has a key, it keeps it: setting the key fills the
/// slot with that key, so preserving the key again leaves the command as it
/// is and every retry sends the same key.
pub proof fn keyed_command_keeps_its_key(c: Command, k: String)
    requires
        idempotency_slot(c) is Some,
    ensures
        idempotency_slot(with_idempotency_key(c, k)) == Some(Some(k)),
        idempotency_slot(with_idempotency_key(c, k)) != Some(None::<String>),
{
}

// ---------------------------------------------------------------------------
// Reauthorization
// ---------------------------------------------------------------------------

/// What follows a permission denial: give up, or ask whether to
/// reauthorize.
#[derive(Debug, Clone, Copy, PartialEq, Eq, Structural)]
pub enum ReauthorizationStep {
    GiveUp,
    Prompt,
}

/// The lines to print after a permission denial, and the step that follows.
#[derive(Debug, Clone)]
pub struct ReauthorizationNotice {
    pub lines: Vec<String>,
    pub step: ReauthorizationStep,
}

/// The line that names the denied call.
pub open spec fn denied_line(e: DashboardApiError) -> Seq<char> {
    "Permission denied (requestId="@ + opt_text(e.request_id) + ", traceId="@ + opt_text(
        e.trace_id,
    ) + ")."@
}

/// The advice when every permission is requested but one is not effective.
pub open spec fn ineffective_advice() -> Seq<char> {
    "The required permission is already requested but is not effective for this account. Ask a tenant administrator to update the account role or data range."@
}

/// The notice after a denial that a plan exists for: the denied call; then,
/// when nothing is missing, the advice and the requested permissions (give
/// up); else the missing permissions and, in automation, the login command
/// to run by hand (give up), or else a prompt.
pub open spec fn notice_of(
    plan: ReauthorizationPlan,
    e: DashboardApiError,
    mode: InvocationMode,
) -> (Seq<Seq<char>>, ReauthorizationStep) {
    if plan.missing_permissions@.len() == 0 {
        (
            seq![
                denied_line(e),
                ineffective_advice(),
                "Requested permissions: "@ + join_seqs(views(plan.requested_permissions@), ","@),
            ],
            ReauthorizationStep::GiveUp,
        )
    } else {
        let missing = "Missing permissions: "@ + join_seqs(views(plan.missing_permissions@), ","@);
        if mode == InvocationMode::Automation {
            (
                seq![
                    denied_line(e),
                    missing,
                    "Run this command interactively, then retry:"@,
                    plan.login_command@,
                ],
                ReauthorizationStep::GiveUp,
            )
        } else {
            (seq![denied_line(e), missing], ReauthorizationStep::Prompt)
        }
    }
}

/// Decides what to tell the user after a denial; see `notice_of`.
pub fn reauthorization_notice(
    plan: &ReauthorizationPlan,
    error: &DashboardApiError,
    mode: InvocationMode,
) -> (r: ReauthorizationNotice)
    ensures
        (views(r.lines@), r.step) == notice_of(*plan, *error, mode),
{
    let mut first = concat2("Permission denied (requestId=", opt_text_owned(&error.request_id).as_str());
    first.append(", traceId=");
    first.append(opt_text_owned(&error.trace_id).as_str());
    first.append(").");
    let mut lines: Vec<String> = Vec::new();
    lines.push(first);
    if plan.missing_permissions.len() == 0 {
        lines.push(
            "The required permission is already requested but is not effective for this account. Ask a tenant administrator to update the account role or data range.".to_owned(),
        );
        let requested = join_strings(&plan.requested_permissions, ",");
        lines.push(concat2("Requested permissions: ", requested.as_str()));
        assert(views(lines@) =~= notice_of(*plan, *error, mode).0);
        return ReauthorizationNotice { lines, step: ReauthorizationStep::GiveUp };
    }
    let missing = join_strings(&plan.missing_permissions, ",");
    lines.push(concat2("Missing permissions: ", missing.as_str()));
    if mode == InvocationMode::Automation {
        lines.push("Run this command interactively, then retry:".to_owned());
        lines.push(plan.login_command.clone());
        assert(views(lines@) =~= notice_of(*plan, *error, mode).0);
        ReauthorizationNotice { lines, step: ReauthorizationStep::GiveUp }
    } else {
        assert(views(lines@) =~= notice_of(*plan, *error, mode).0);
        ReauthorizationNotice { lines, step: ReauthorizationStep::Prompt }
    }
}

/// The lines after the user declines to reauthorize: the login command to
/// run when ready.
pub fn declined_notice(plan: &ReauthorizationPlan) -> (r: Vec<String>)
    ensures
        views(r@) == seq![
            "Reauthorization cancelled. Run this command when ready:"@,
            plan.login_command@,
        ],
{
    let mut lines: Vec<String> = Vec::new();
    lines.push("Reauthorization cancelled. Run this command when ready:".to_owned());
    lines.push(plan.login_command.clone());
    assert(views(lines@) =~= seq![
        "Reauthorization cancelled. Run this command when ready:"@,
        plan.login_command@,
    ]);
    lines
}

/// The line after a retry that is still denied: only for a denial that
/// reauthorizing could have fixed.
pub open spec fn still_denied_text(e: DashboardApiError) -> Option<Seq<char>> {
    if reauthorizable(e) {
        Some(
            "The command is still denied after reauthorization (requestId="@ + opt_text(
                e.request_id,
            ) + ", traceId="@ + opt_text(e.trace_id)
                + "). Ask a tenant administrator to verify the account role and data range."@,
        )
    } else {
        None
    }
}

/// The line to print when the retried command fails again.
pub fn still_denied_notice(error: &DashboardApiError) -> (r: Option<String>)
    ensures
        crate::text::opt_string_view(r) == still_denied_text(*error),
{
    if !is_reauthorizable(error) {
        return None;
    }
    let mut line = concat2(
        "The command is still denied after reauthorization (requestId=",
        opt_text_owned(&error.request_id).as_str(),
    );
    line.append(", traceId=");
    line.append(opt_text_owned(&error.trace_id).as_str());
    line.append("). Ask a tenant administrator to verify the account role and data range.");
    Some(line)
}

/// The Dashboard a login talks to: the one given, else the default.
pub fn login_dashboard_url(dashboard_url: &Option<String>) -> (r: String)
    ensures
        r@ == match dashboard_url {
            Some(u) => u@,
            None => crate::cli::DEFAULT_DASHBOARD_URL@,
        },
{
    match dashboard_url {
        Some(u) => u.clone(),
        None => crate::cli::DEFAULT_DASHBOARD_URL.to_owned(),
    }
}

} // verus!
