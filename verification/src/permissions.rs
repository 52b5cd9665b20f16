//! Reauthorization after a permission denial: which denials qualify, which
//! atomic permissions a command needs, the combined permission set to request
//! and the `ycloud login` command that requests it.

use vstd::prelude::*;

use crate::cli::{
    AnalyticsCommand, Cli, Command, ContactsCommand, ExportsCommand, InboxCommand,
    InboxConversationsCommand, IntegrationsCommand, TenantsCommand, WabaAssignmentCommand,
    WhatsappCommand,
};
use crate::http::DashboardApiError;
use crate::json::{member, string_of};
use crate::sorted::{collect_last, collects_last, last_with_key, lemma_last_exists, KeyOrder};
use crate::text::{chars_of, compare_str, lemma_seq_order_basic, lemma_seq_order_facts, push_char,
    seq_order, str_eq, views,
};

verus! {

/// The typed error code of a permission denial.
pub const PERMISSION_DENIED: &'static str = "permission_denied";

/// The three atomic permissions that the WABA assignment report reads with.
pub open spec fn waba_assignment_permission_texts() -> Seq<Seq<char>> {
    seq!["yc.whatsapp.phone.read"@, "yc.inbox.phone-assignment.read"@, "yc.inbox.assignment-rule.read"@]
}

/// The three atomic permissions that the WABA assignment report reads with.
pub fn waba_assignment_permissions() -> (r: Vec<&'static str>)
    ensures
        r@.map_values(|s: &str| s@) == waba_assignment_permission_texts(),
{
    let mut r: Vec<&'static str> = Vec::new();
    r.push("yc.whatsapp.phone.read");
    r.push("yc.inbox.phone-assignment.read");
    r.push("yc.inbox.assignment-rule.read");
    assert(r@.map_values(|s: &str| s@) =~= waba_assignment_permission_texts());
    r
}

/// What the CLI offers after a denial: the permissions to request, those of
/// them not requested yet, and the login command that requests them.
#[derive(Debug, Clone, PartialEq, Eq)]
pub struct ReauthorizationPlan {
    pub requested_permissions: Vec<String>,
    pub missing_permissions: Vec<String>,
    pub login_command: String,
}

/// Only a 403 with the typed code `permission_denied` can be fixed by
/// requesting more permissions.
pub open spec fn reauthorizable(e: DashboardApiError) -> bool {
    e.status == 403 && e.code@ == "permission_denied"@
}

/// Whether a denial of this error can be fixed by reauthorizing.
pub fn is_reauthorizable(error: &DashboardApiError) -> (r: bool)
    ensures
        r == reauthorizable(*error),
{
    error.status() == 403 && str_eq(error.code(), PERMISSION_DENIED)
}

/// Login, refresh and logout are not retried after reauthorization.
pub open spec fn supports(c: Command) -> bool {
    !(c is Login || c is Refresh || c is Logout)
}

fn supports_reauthorization(command: &Command) -> (r: bool)
    ensures
        r == supports(*command),
{
    match command {
        Command::Login(_) | Command::Refresh | Command::Logout => false,
        _ => true,
    }
}

/// An atomic permission code: `yc.` followed by lower-case ASCII letters,
/// digits, `.`, `-` and `_`, 128 characters at most. (All its characters are
/// ASCII, so this is also its length in bytes.)
pub open spec fn permission_code(s: Seq<char>) -> bool {
    &&& s.len() >= 3
    &&& s[0] == 'y' && s[1] == 'c' && s[2] == '.'
    &&& s.len() <= 128
    &&& forall|i: int| 0 <= i < s.len() ==> permission_char(#[trigger] s[i])
}

/// A character allowed in a permission code.
pub open spec fn permission_char(c: char) -> bool {
    ('a' <= c && c <= 'z') || ('0' <= c && c <= '9') || c == '.' || c == '-' || c == '_'
}

fn is_permission_char(c: char) -> (r: bool)
    ensures
        r == permission_char(c),
{
    ('a' <= c && c <= 'z') || ('0' <= c && c <= '9') || c == '.' || c == '-' || c == '_'
}

/// Whether a text is an atomic permission code.
pub fn is_permission_code(value: &str) -> (r: bool)
    ensures
        r == permission_code(value@),
{
    let cs = chars_of(value);
    if cs.len() < 3 || cs.len() > 128 {
        return false;
    }
    if !(cs[0] == 'y' && cs[1] == 'c' && cs[2] == '.') {
        return false;
    }
    let mut i: usize = 0;
    while i < cs.len()
        invariant
            0 <= i <= cs@.len(),
            cs@ == value@,
            forall|k: int| 0 <= k < i ==> permission_char(#[trigger] cs@[k]),
        decreases cs@.len() - i,
    {
        if !is_permission_char(cs[i]) {
            return false;
        }
        i = i + 1;
    }
    true
}

/// The permission that the server names in the error details
/// (`requiredPermission`), when it is a permission code.
pub open spec fn server_required(e: DashboardApiError) -> Option<Seq<char>> {
    match e.details {
        Some(d) => match member(d, "requiredPermission"@) {
            Some(v) => match string_of(v) {
                Some(s) => if permission_code(s) {
                    Some(s)
                } else {
                    None
                },
                None => None,
            },
            None => None,
        },
        None => None,
    }
}

/// The permission that the server names as required, if it is valid.
pub fn server_required_permission(error: &DashboardApiError) -> (r: Option<&str>)
    ensures
        match r {
            Some(s) => server_required(*error) == Some(s@),
            None => server_required(*error).is_none(),
        },
{
    let details = match error.details() {
        Some(d) => d,
        None => return None,
    };
    let value = match details.get("requiredPermission") {
        Some(v) => v,
        None => return None,
    };
    let text = match value.as_str() {
        Some(t) => t,
        None => return None,
    };
    if is_permission_code(text) {
        Some(text)
    } else {
        None
    }
}

/// The atomic permissions that a command needs, independent of the server.
pub open spec fn static_permission_texts(c: Command) -> Seq<Seq<char>> {
    match c {
        Command::Login(_) | Command::Refresh | Command::Logout => seq![],
        Command::Whoami => seq!["yc.identity.current.read"@],
        Command::Tenants { .. } => seq!["yc.tenant.list.read"@],
        Command::Integrations { .. } => seq!["yc.integration.status.read"@],
        Command::Contacts { command } => match command {
            ContactsCommand::List(_) => seq!["yc.contact.record.read"@],
            ContactsCommand::Metadata => seq!["yc.contact.metadata.read"@],
            ContactsCommand::Export(_) => seq!["yc.contact.record.export"@],
        },
        Command::Analytics { command } => match command {
            AnalyticsCommand::Outline(_) | AnalyticsCommand::Overview(_) => seq![
                "yc.whatsapp.analytics.read"@,
            ],
            AnalyticsCommand::Logs(_) => seq!["yc.whatsapp.message.read"@],
            AnalyticsCommand::CallingLogs(_) => seq!["yc.calling.log.read"@],
        },
        Command::Whatsapp { .. } => waba_assignment_permission_texts(),
        Command::Inbox { command } => match command {
            InboxCommand::Conversations { command } => match command {
                InboxConversationsCommand::Search(_) => seq!["yc.inbox.conversation.read"@],
                InboxConversationsCommand::Export(args) => if args.no_contacts {
                    seq!["yc.inbox.conversation.export"@, "yc.inbox.message.export"@]
                } else {
                    seq![
                        "yc.inbox.conversation.export"@,
                        "yc.inbox.message.export"@,
                        "yc.contact.record.export"@,
                    ]
                },
            },
        },
        Command::Exports { .. } => seq![],
    }
}

/// The atomic permissions that a command needs, independent of the server.
pub fn static_permissions(command: &Command) -> (r: Vec<&'static str>)
    ensures
        r@.map_values(|s: &str| s@) == static_permission_texts(*command),
{
    let mut r: Vec<&'static str> = Vec::new();
    match command {
        Command::Login(_) | Command::Refresh | Command::Logout => {},
        Command::Whoami => r.push("yc.identity.current.read"),
        Command::Tenants { command: TenantsCommand::List } => r.push("yc.tenant.list.read"),
        Command::Integrations { command: IntegrationsCommand::Status } => r.push(
            "yc.integration.status.read",
        ),
        Command::Contacts { command } => match command {
            ContactsCommand::List(_) => r.push("yc.contact.record.read"),
            ContactsCommand::Metadata => r.push("yc.contact.metadata.read"),
            ContactsCommand::Export(_) => r.push("yc.contact.record.export"),
        },
        Command::Analytics { command } => match command {
            AnalyticsCommand::Outline(_) | AnalyticsCommand::Overview(_) => r.push(
                "yc.whatsapp.analytics.read",
            ),
            AnalyticsCommand::Logs(_) => r.push("yc.whatsapp.message.read"),
            AnalyticsCommand::CallingLogs(_) => r.push("yc.calling.log.read"),
        },
        Command::Whatsapp {
            command: WhatsappCommand::WabaAssignment { command: WabaAssignmentCommand::List(_) },
        } => {
            r = waba_assignment_permissions();
        },
        Command::Inbox { command: InboxCommand::Conversations { command } } => match command {
            InboxConversationsCommand::Search(_) => r.push("yc.inbox.conversation.read"),
            InboxConversationsCommand::Export(args) => {
                r.push("yc.inbox.conversation.export");
                r.push("yc.inbox.message.export");
                if !args.no_contacts {
                    r.push("yc.contact.record.export");
                }
            },
        },
        Command::Exports { .. } => {},
    }
    assert(r@.map_values(|s: &str| s@) =~= static_permission_texts(*command));
    r
}

/// Every character of `s` from `i` on is allowed in a permission code.
pub open spec fn permission_chars_from(s: Seq<char>, i: int) -> bool
    decreases s.len() - i,
{
    if i < 0 || i >= s.len() {
        true
    } else {
        permission_char(s[i]) && permission_chars_from(s, i + 1)
    }
}

proof fn lemma_permission_chars_from(s: Seq<char>, i: int)
    requires
        0 <= i,
        permission_chars_from(s, i),
    ensures
        forall|k: int| i <= k < s.len() ==> permission_char(#[trigger] s[k]),
    decreases s.len() - i,
{
    if i < s.len() {
        lemma_permission_chars_from(s, i + 1);
    }
}

/// A text that starts `yc.`, is at most 128 characters long and whose
/// characters are all allowed, checked one by one, is a permission code.
proof fn lemma_checked_code(s: Seq<char>)
    requires
        3 <= s.len() <= 128,
        s[0] == 'y' && s[1] == 'c' && s[2] == '.',
        permission_chars_from(s, 0),
    ensures
        permission_code(s),
{
    lemma_permission_chars_from(s, 0);
}

proof fn lemma_code_0()
    ensures
        permission_code("yc.identity.current.read"@),
{
    reveal_strlit("yc.identity.current.read");
    reveal_with_fuel(permission_chars_from, 32);
    lemma_checked_code("yc.identity.current.read"@);
}

proof fn lemma_code_1()
    ensures
        permission_code("yc.tenant.list.read"@),
{
    reveal_strlit("yc.tenant.list.read");
    reveal_with_fuel(permission_chars_from, 32);
    lemma_checked_code("yc.tenant.list.read"@);
}

proof fn lemma_code_2()
    ensures
        permission_code("yc.integration.status.read"@),
{
    reveal_strlit("yc.integration.status.read");
    reveal_with_fuel(permission_chars_from, 32);
    lemma_checked_code("yc.integration.status.read"@);
}

proof fn lemma_code_3()
    ensures
        permission_code("yc.contact.record.read"@),
{
    reveal_strlit("yc.contact.record.read");
    reveal_with_fuel(permission_chars_from, 32);
    lemma_checked_code("yc.contact.record.read"@);
}

proof fn lemma_code_4()
    ensures
        permission_code("yc.contact.metadata.read"@),
{
    reveal_strlit("yc.contact.metadata.read");
    reveal_with_fuel(permission_chars_from, 32);
    lemma_checked_code("yc.contact.metadata.read"@);
}

proof fn lemma_code_5()
    ensures
        permission_code("yc.contact.record.export"@),
{
    reveal_strlit("yc.contact.record.export");
    reveal_with_fuel(permission_chars_from, 32);
    lemma_checked_code("yc.contact.record.export"@);
}

proof fn lemma_code_6()
    ensures
        permission_code("yc.whatsapp.analytics.read"@),
{
    reveal_strlit("yc.whatsapp.analytics.read");
    reveal_with_fuel(permission_chars_from, 32);
    lemma_checked_code("yc.whatsapp.analytics.read"@);
}

proof fn lemma_code_7()
    ensures
        permission_code("yc.whatsapp.message.read"@),
{
    reveal_strlit("yc.whatsapp.message.read");
    reveal_with_fuel(permission_chars_from, 32);
    lemma_checked_code("yc.whatsapp.message.read"@);
}

proof fn lemma_code_8()
    ensures
        permission_code("yc.calling.log.read"@),
{
    reveal_strlit("yc.calling.log.read");
    reveal_with_fuel(permission_chars_from, 32);
    lemma_checked_code("yc.calling.log.read"@);
}

proof fn lemma_code_9()
    ensures
        permission_code("yc.whatsapp.phone.read"@),
{
    reveal_strlit("yc.whatsapp.phone.read");
    reveal_with_fuel(permission_chars_from, 32);
    lemma_checked_code("yc.whatsapp.phone.read"@);
}

proof fn lemma_code_10()
    ensures
        permission_code("yc.inbox.phone-assignment.read"@),
{
    reveal_strlit("yc.inbox.phone-assignment.read");
    reveal_with_fuel(permission_chars_from, 32);
    lemma_checked_code("yc.inbox.phone-assignment.read"@);
}

proof fn lemma_code_11()
    ensures
        permission_code("yc.inbox.assignment-rule.read"@),
{
    reveal_strlit("yc.inbox.assignment-rule.read");
    reveal_with_fuel(permission_chars_from, 32);
    lemma_checked_code("yc.inbox.assignment-rule.read"@);
}

proof fn lemma_code_12()
    ensures
        permission_code("yc.inbox.conversation.read"@),
{
    reveal_strlit("yc.inbox.conversation.read");
    reveal_with_fuel(permission_chars_from, 32);
    lemma_checked_code("yc.inbox.conversation.read"@);
}

proof fn lemma_code_13()
    ensures
        permission_code("yc.inbox.conversation.export"@),
{
    reveal_strlit("yc.inbox.conversation.export");
    reveal_with_fuel(permission_chars_from, 32);
    lemma_checked_code("yc.inbox.conversation.export"@);
}

proof fn lemma_code_14()
    ensures
        permission_code("yc.inbox.message.export"@),
{
    reveal_strlit("yc.inbox.message.export");
    reveal_with_fuel(permission_chars_from, 32);
    lemma_checked_code("yc.inbox.message.export"@);
}

/// The table of the permissions each command needs, with no server
/// involved: reading message logs needs `yc.whatsapp.message.read`, the
/// analytics outline and overview need `yc.whatsapp.analytics.read`, and so
/// on for every command. So the plan after a denial of, say, `analytics logs`
/// requests exactly the message-log permission besides what is already
/// requested and what the server names.
pub proof fn static_permission_table(c: Command)
    ensures
        c is Login || c is Refresh || c is Logout || c is Exports ==> static_permission_texts(c)
            == Seq::<Seq<char>>::empty(),
        c is Whoami ==> static_permission_texts(c) == seq!["yc.identity.current.read"@],
        c is Tenants ==> static_permission_texts(c) == seq!["yc.tenant.list.read"@],
        c is Integrations ==> static_permission_texts(c) == seq!["yc.integration.status.read"@],
        c matches Command::Contacts { command: ContactsCommand::List(_) }
            ==> static_permission_texts(c) == seq!["yc.contact.record.read"@],
        c matches Command::Contacts { command: ContactsCommand::Metadata }
            ==> static_permission_texts(c) == seq!["yc.contact.metadata.read"@],
        c matches Command::Contacts { command: ContactsCommand::Export(_) }
            ==> static_permission_texts(c) == seq!["yc.contact.record.export"@],
        c matches Command::Analytics { command: AnalyticsCommand::Outline(_) }
            ==> static_permission_texts(c) == seq!["yc.whatsapp.analytics.read"@],
        c matches Command::Analytics { command: AnalyticsCommand::Overview(_) }
            ==> static_permission_texts(c) == seq!["yc.whatsapp.analytics.read"@],
        c matches Command::Analytics { command: AnalyticsCommand::Logs(_) }
            ==> static_permission_texts(c) == seq!["yc.whatsapp.message.read"@],
        c matches Command::Analytics { command: AnalyticsCommand::CallingLogs(_) }
            ==> static_permission_texts(c) == seq!["yc.calling.log.read"@],
        c is Whatsapp ==> static_permission_texts(c) == seq![
            "yc.whatsapp.phone.read"@,
            "yc.inbox.phone-assignment.read"@,
            "yc.inbox.assignment-rule.read"@,
        ],
        c matches Command::Inbox {
            command: InboxCommand::Conversations { command: InboxConversationsCommand::Search(_) },
        } ==> static_permission_texts(c) == seq!["yc.inbox.conversation.read"@],
        c matches Command::Inbox {
            command: InboxCommand::Conversations { command: InboxConversationsCommand::Export(a) },
        } ==> static_permission_texts(c) == if a.no_contacts {
            seq!["yc.inbox.conversation.export"@, "yc.inbox.message.export"@]
        } else {
            seq![
                "yc.inbox.conversation.export"@,
                "yc.inbox.message.export"@,
                "yc.contact.record.export"@,
            ]
        },
        forall|cli: Cli, e: DashboardApiError, x: Seq<char>|
            cli.command == c && server_required(e) is None ==> (wanted(
                Seq::empty(),
                cli,
                e,
                x,
            ) <==> static_permission_texts(c).contains(x)),
{
}

/// The permissions a command needs, with no server involved, are valid
/// atomic permission codes without repeats; the list is empty exactly for
/// login, refresh, logout and the export task commands. The WABA assignment
/// report needs its three reads, and a conversation export needs the contact
/// export permission exactly when it exports contacts.
pub proof fn static_permissions_are_distinct_codes(c: Command)
    ensures
        static_permission_texts(c).len() == 0 <==> (c is Login || c is Refresh || c is Logout
            || c is Exports),
        forall|i: int|
            0 <= i < static_permission_texts(c).len() ==> permission_code(
                #[trigger] static_permission_texts(c)[i],
            ),
        forall|i: int, j: int|
            0 <= i < j < static_permission_texts(c).len() ==> #[trigger] static_permission_texts(
                c,
            )[i] != #[trigger] static_permission_texts(c)[j],
        c is Whatsapp ==> static_permission_texts(c) == waba_assignment_permission_texts(),
        c matches Command::Inbox {
            command: InboxCommand::Conversations { command: InboxConversationsCommand::Export(a) },
        } ==> (static_permission_texts(c).contains("yc.contact.record.export"@)
            <==> !a.no_contacts),
{
    lemma_code_0();
    lemma_code_1();
    lemma_code_2();
    lemma_code_3();
    lemma_code_4();
    lemma_code_5();
    lemma_code_6();
    lemma_code_7();
    lemma_code_8();
    lemma_code_9();
    lemma_code_10();
    lemma_code_11();
    lemma_code_12();
    lemma_code_13();
    lemma_code_14();
    reveal_strlit("yc.identity.current.read");
    reveal_strlit("yc.tenant.list.read");
    reveal_strlit("yc.integration.status.read");
    reveal_strlit("yc.contact.record.read");
    reveal_strlit("yc.contact.metadata.read");
    reveal_strlit("yc.contact.record.export");
    reveal_strlit("yc.whatsapp.analytics.read");
    reveal_strlit("yc.whatsapp.message.read");
    reveal_strlit("yc.calling.log.read");
    reveal_strlit("yc.whatsapp.phone.read");
    reveal_strlit("yc.inbox.phone-assignment.read");
    reveal_strlit("yc.inbox.assignment-rule.read");
    reveal_strlit("yc.inbox.conversation.read");
    reveal_strlit("yc.inbox.conversation.export");
    reveal_strlit("yc.inbox.message.export");
    let t = static_permission_texts(c);
    if let Command::Inbox {
        command: InboxCommand::Conversations { command: InboxConversationsCommand::Export(a) },
    } = c {
        if a.no_contacts {
            assert(t[0] != "yc.contact.record.export"@);
            assert(t[1] != "yc.contact.record.export"@);
            assert(!t.contains("yc.contact.record.export"@));
        } else {
            assert(t[2] == "yc.contact.record.export"@);
        }
    }
}

// ---------------------------------------------------------------------------
// Shell quoting and the login command
// ---------------------------------------------------------------------------

/// A character that needs no shell quoting.
pub open spec fn shell_safe_char(c: char) -> bool {
    ||| ('a' <= c && c <= 'z')
    ||| ('A' <= c && c <= 'Z')
    ||| ('0' <= c && c <= '9')
    ||| c == '-' || c == '_' || c == '.' || c == '/' || c == ':' || c == '@' || c == '%'
    ||| c == '+' || c == '=' || c == ','
}

/// The body of a single-quoted shell word: each `'` becomes `'\''`.
pub open spec fn quote_body(s: Seq<char>) -> Seq<char>
    decreases s.len(),
{
    if s.len() == 0 {
        Seq::empty()
    } else {
        quote_body(s.drop_last()) + if s.last() == '\'' {
            seq!['\'', '\\', '\'', '\'']
        } else {
            seq![s.last()]
        }
    }
}

/// A text as one shell word: unchanged when it is non-empty and all its
/// characters are safe, else single-quoted.
pub open spec fn shell_word(s: Seq<char>) -> Seq<char> {
    if s.len() > 0 && forall|i: int| 0 <= i < s.len() ==> shell_safe_char(#[trigger] s[i]) {
        s
    } else {
        seq!['\''] + quote_body(s) + seq!['\'']
    }
}

/// How a POSIX shell reads a text that should be one word, from `s` on:
/// `quoted` says whether a single quote is open, `acc` holds the word read
/// so far and `started` whether any of it was seen. Inside single quotes
/// every character but `'` is literal and `'` closes them; outside, `'`
/// opens them, a backslash makes the next character literal (a backslash
/// before a newline joins lines instead, which is not one word's reading and
/// is refused here), and a safe character is literal. Any other unquoted
/// character would end the word or be expanded, so the text is not read as
/// one literal word (`None`); so is an unclosed quote or an empty text.
pub open spec fn shell_read_from(
    s: Seq<char>,
    quoted: bool,
    acc: Seq<char>,
    started: bool,
) -> Option<Seq<char>>
    decreases s.len(),
{
    if s.len() == 0 {
        if quoted || !started {
            None
        } else {
            Some(acc)
        }
    } else {
        let c = s[0];
        let rest = s.skip(1);
        if quoted {
            if c == '\'' {
                shell_read_from(rest, false, acc, true)
            } else {
                shell_read_from(rest, true, acc.push(c), true)
            }
        } else if c == '\'' {
            shell_read_from(rest, true, acc, true)
        } else if c == '\\' {
            if rest.len() == 0 || rest[0] == '\n' {
                None
            } else {
                shell_read_from(rest.skip(1), false, acc.push(rest[0]), true)
            }
        } else if shell_safe_char(c) {
            shell_read_from(rest, false, acc.push(c), true)
        } else {
            None
        }
    }
}

/// The single word a POSIX shell reads from a text, if it reads exactly one
/// literal word; see `shell_read_from`.
pub open spec fn shell_read(s: Seq<char>) -> Option<Seq<char>> {
    shell_read_from(s, false, Seq::empty(), false)
}

proof fn lemma_read_safe(s: Seq<char>, acc: Seq<char>, started: bool)
    requires
        forall|i: int| 0 <= i < s.len() ==> shell_safe_char(#[trigger] s[i]),
        started || s.len() > 0,
    ensures
        shell_read_from(s, false, acc, started) == Some(acc + s),
    decreases s.len(),
{
    if s.len() == 0 {
        assert(acc + s =~= acc);
    } else {
        let rest = s.skip(1);
        assert forall|i: int| 0 <= i < rest.len() implies shell_safe_char(#[trigger] rest[i]) by {
            assert(rest[i] == s[i + 1]);
        }
        assert(shell_safe_char(s[0]));
        lemma_read_safe(rest, acc.push(s[0]), true);
        assert(acc.push(s[0]) + rest =~= acc + s);
    }
}

proof fn lemma_read_quoted(v: Seq<char>, t: Seq<char>, acc: Seq<char>)
    ensures
        shell_read_from(quote_body(v) + t, true, acc, true) == shell_read_from(
            t,
            true,
            acc + v,
            true,
        ),
    decreases v.len(),
{
    if v.len() == 0 {
        assert(quote_body(v) + t =~= t);
        assert(acc + v =~= acc);
    } else {
        let c = v.last();
        let front = v.drop_last();
        let piece = if c == '\'' {
            seq!['\'', '\\', '\'', '\'']
        } else {
            seq![c]
        };
        assert(quote_body(v) + t =~= quote_body(front) + (piece + t));
        lemma_read_quoted(front, piece + t, acc);
        let a = acc + front;
        assert(a.push(c) =~= acc + v);
        if c == '\'' {
            let s0 = piece + t;
            assert(s0[0] == '\'');
            let s1 = s0.skip(1);
            assert(s1 =~= seq!['\\', '\'', '\''] + t);
            assert(s1[0] == '\\');
            let s2 = s1.skip(1);
            assert(s2 =~= seq!['\'', '\''] + t);
            assert(s2[0] == '\'');
            let s3 = s2.skip(1);
            assert(s3 =~= seq!['\''] + t);
            assert(s3[0] == '\'');
            assert(s3.skip(1) =~= t);
            assert(shell_read_from(s3, false, a.push(c), true) == shell_read_from(
                t,
                true,
                a.push(c),
                true,
            ));
            assert(shell_read_from(s1, false, a, true) == shell_read_from(
                s3,
                false,
                a.push(c),
                true,
            ));
            assert(shell_read_from(s0, true, a, true) == shell_read_from(s1, false, a, true));
        } else {
            let s0 = piece + t;
            assert(s0[0] == c);
            assert(s0.skip(1) =~= t);
        }
    }
}

/// A POSIX shell reads the quoted form of any text back as exactly one word
/// equal to the text: the command line printed for the user carries every
/// value unchanged.
pub proof fn shell_word_reads_back(v: Seq<char>)
    ensures
        shell_read(shell_word(v)) == Some(v),
{
    if v.len() > 0 && forall|i: int| 0 <= i < v.len() ==> shell_safe_char(#[trigger] v[i]) {
        lemma_read_safe(v, Seq::empty(), false);
        assert(Seq::<char>::empty() + v =~= v);
    } else {
        let w = shell_word(v);
        assert(w =~= seq!['\''] + (quote_body(v) + seq!['\'']));
        assert(w[0] == '\'');
        assert(w.skip(1) =~= quote_body(v) + seq!['\'']);
        lemma_read_quoted(v, seq!['\''], Seq::empty());
        let e = Seq::<char>::empty() + v;
        assert(e =~= v);
        let q = seq!['\''];
        assert(q[0] == '\'');
        assert(q.skip(1) =~= Seq::<char>::empty());
        assert(shell_read_from(q, true, e, true) == shell_read_from(
            Seq::<char>::empty(),
            false,
            e,
            true,
        ));
    }
}

fn is_shell_safe_char(c: char) -> (r: bool)
    ensures
        r == shell_safe_char(c),
{
    ('a' <= c && c <= 'z') || ('A' <= c && c <= 'Z') || ('0' <= c && c <= '9') || c == '-' || c
        == '_' || c == '.' || c == '/' || c == ':' || c == '@' || c == '%' || c == '+' || c
        == '=' || c == ','
}

/// Quotes a text as one shell word.
pub fn shell_arg(value: &str) -> (r: String)
    ensures
        r@ == shell_word(value@),
        shell_read(r@) == Some(value@),
{
    proof {
        shell_word_reads_back(value@);
    }
    let cs = chars_of(value);
    let n = cs.len();
    let mut safe = n > 0;
    let mut i: usize = 0;
    while i < n
        invariant
            0 <= i <= n,
            n == cs@.len(),
            cs@ == value@,
            safe == (n > 0 && forall|k: int| 0 <= k < i ==> shell_safe_char(#[trigger] cs@[k])),
        decreases n - i,
    {
        if !is_shell_safe_char(cs[i]) {
            safe = false;
        }
        i = i + 1;
    }
    if safe {
        return value.to_owned();
    }
    let mut r = String::new();
    push_char(&mut r, '\'');
    let mut j: usize = 0;
    while j < n
        invariant
            0 <= j <= n,
            n == cs@.len(),
            cs@ == value@,
            r@ == seq!['\''] + quote_body(cs@.take(j as int)),
        decreases n - j,
    {
        let c = cs[j];
        if c == '\'' {
            push_char(&mut r, '\'');
            push_char(&mut r, '\\');
            push_char(&mut r, '\'');
            push_char(&mut r, '\'');
        } else {
            push_char(&mut r, c);
        }
        assert(cs@.take(j as int + 1).drop_last() =~= cs@.take(j as int));
        assert(r@ =~= seq!['\''] + quote_body(cs@.take(j as int + 1)));
        j = j + 1;
    }
    push_char(&mut r, '\'');
    assert(cs@.take(n as int) =~= cs@);
    assert(r@ =~= seq!['\''] + quote_body(value@) + seq!['\'']);
    r
}

/// ` --permission <word>` for each permission, in order.
pub open spec fn permission_flags(perms: Seq<Seq<char>>) -> Seq<char>
    decreases perms.len(),
{
    if perms.len() == 0 {
        Seq::empty()
    } else {
        permission_flags(perms.drop_last()) + " --permission "@ + shell_word(perms.last())
    }
}

/// The login command that requests `perms` with the custom profile, keeping
/// the Dashboard and config overrides of the failed command.
pub open spec fn login_command_text(cli: Cli, perms: Seq<Seq<char>>) -> Seq<char> {
    let url = match cli.dashboard_url {
        Some(u) => " --dashboard-url "@ + shell_word(u@),
        None => Seq::empty(),
    };
    let config = match cli.config {
        Some(c) => " --config "@ + shell_word(c@),
        None => Seq::empty(),
    };
    "ycloud"@ + url + config + " login --profile custom"@ + permission_flags(perms)
}

/// The login command that requests `permissions`.
pub fn login_command(cli: &Cli, permissions: &Vec<String>) -> (r: String)
    ensures
        r@ == login_command_text(*cli, views(permissions@)),
{
    let mut command = "ycloud".to_owned();
    match &cli.dashboard_url {
        Some(url) => {
            command.append(" --dashboard-url ");
            command.append(shell_arg(url.as_str()).as_str());
        },
        None => {},
    }
    match &cli.config {
        Some(config) => {
            command.append(" --config ");
            command.append(shell_arg(config.as_str()).as_str());
        },
        None => {},
    }
    command.append(" login --profile custom");
    let ghost head = command@;
    let mut i: usize = 0;
    while i < permissions.len()
        invariant
            0 <= i <= permissions@.len(),
            command@ == head + permission_flags(views(permissions@.take(i as int))),
        decreases permissions@.len() - i,
    {
        command.append(" --permission ");
        command.append(shell_arg(permissions[i].as_str()).as_str());
        assert(views(permissions@.take(i as int + 1)).drop_last() =~= views(
            permissions@.take(i as int),
        ));
        i = i + 1;
    }
    assert(permissions@.take(permissions@.len() as int) =~= permissions@);
    command
}

// ---------------------------------------------------------------------------
// The plan
// ---------------------------------------------------------------------------

impl KeyOrder for String {
    open spec fn key_order(a: Self, b: Self) -> int {
        seq_order(a@, b@)
    }

    proof fn lemma_key_order(a: Self, b: Self, c: Self) {
        lemma_seq_order_facts(a@, b@, c@);
    }

    fn compare_keys(&self, other: &Self) -> (r: i8) {
        compare_str(self.as_str(), other.as_str())
    }
}

/// Strictly increasing texts.
pub open spec fn strictly_sorted(s: Seq<Seq<char>>) -> bool {
    forall|a: int, b: int| 0 <= a < b < s.len() ==> seq_order(#[trigger] s[a], #[trigger] s[b]) < 0
}

/// The permissions to request after a denial: the ones requested now, the
/// ones the command needs, and the one the server names.
pub open spec fn wanted(
    current: Seq<Seq<char>>,
    cli: Cli,
    e: DashboardApiError,
    x: Seq<char>,
) -> bool {
    current.contains(x) || static_permission_texts(cli.command).contains(x) || server_required(e)
        == Some(x)
}

/// The sorted set of the texts of `s`.
proof fn lemma_collected_texts(r: Seq<String>, s: Seq<String>)
    requires
        collects_last(r, s),
    ensures
        strictly_sorted(views(r)),
        forall|x: Seq<char>| views(r).contains(x) <==> views(s).contains(x),
{
    assert forall|a: int, b: int| 0 <= a < b < views(r).len() implies seq_order(
        #[trigger] views(r)[a],
        #[trigger] views(r)[b],
    ) < 0 by {
        assert(String::key_order(r[a], r[b]) < 0);
    }
    assert forall|x: Seq<char>| views(r).contains(x) implies views(s).contains(x) by {
        let j = choose|j: int| 0 <= j < views(r).len() && views(r)[j] == x;
        assert(crate::sorted::is_last_of(r[j], s));
        let i = choose|i: int| #![trigger s[i]] last_with_key(s, i) && r[j] == s[i];
        assert(views(s)[i] == x);
    }
    assert forall|x: Seq<char>| views(s).contains(x) implies views(r).contains(x) by {
        let i = choose|i: int| 0 <= i < views(s).len() && views(s)[i] == x;
        lemma_last_exists(s, i);
        let k = choose|k: int| i <= k < s.len() && last_with_key(s, k) && String::key_order(#[trigger] s[k], s[i]) == 0;
        lemma_seq_order_basic(s[k]@, s[i]@);
        assert(crate::sorted::has_elem(r, s[k]));
        let j = choose|j: int| #![trigger r[j]] 0 <= j < r.len() && r[j] == s[k];
        assert(views(r)[j] == x);
    }
}

/// Plans the reauthorization of a denied command. There is a plan only for
/// a reauthorizable denial of a command other than login, refresh and
/// logout. Its requested permissions are, sorted and without repetition,
/// the permissions requested now, those the command needs and the one the
/// server names; the missing ones are those of them not requested now, in
/// the same order; and the login command requests all of them.
pub fn plan(cli: &Cli, current_requested: &Vec<String>, error: &DashboardApiError) -> (r: Option<
    ReauthorizationPlan,
>)
    ensures
        r.is_some() <==> reauthorizable(*error) && supports(cli.command),
        r matches Some(p) ==> {
            &&& strictly_sorted(views(p.requested_permissions@))
            &&& forall|x: Seq<char>|
                views(p.requested_permissions@).contains(x) <==> wanted(
                    views(current_requested@),
                    *cli,
                    *error,
                    x,
                )
            &&& views(p.missing_permissions@) == views(p.requested_permissions@).filter(
                |x: Seq<char>| !views(current_requested@).contains(x),
            )
            &&& p.login_command@ == login_command_text(*cli, views(p.requested_permissions@))
            &&& forall|x: Seq<char>|
                views(current_requested@).contains(x) ==> views(
                    p.requested_permissions@,
                ).contains(x)
            &&& forall|x: Seq<char>|
                views(p.missing_permissions@).contains(x) ==> views(
                    p.requested_permissions@,
                ).contains(x) && !views(current_requested@).contains(x)
        },
{
    if !is_reauthorizable(error) || !supports_reauthorization(&cli.command) {
        return None;
    }
    let mut all: Vec<String> = crate::text::clone_strings(current_requested);
    let statics = static_permissions(&cli.command);
    let mut i: usize = 0;
    let ghost cur = views(current_requested@);
    let ghost st = static_permission_texts(cli.command);
    assert(views(all@) =~= cur);
    while i < statics.len()
        invariant
            0 <= i <= statics@.len(),
            statics@.map_values(|s: &str| s@) == st,
            views(all@) == cur + st.take(i as int),
        decreases statics@.len() - i,
    {
        let ghost before = all@;
        let item: String = statics[i].to_owned();
        assert(item@ == statics@[i as int]@);
        all.push(item);
        assert(all@ == before.push(item));
        assert(views(all@) =~= views(before).push(item@));
        assert(statics@.map_values(|s: &str| s@)[i as int] == statics@[i as int]@);
        assert(st.take(i as int + 1) =~= st.take(i as int).push(st[i as int]));
        assert(views(all@) =~= cur + st.take(i as int + 1));
        i = i + 1;
    }
    assert(st.take(st.len() as int) =~= st);
    let required = server_required_permission(error);
    match required {
        Some(p) => all.push(p.to_owned()),
        None => {},
    }
    let ghost all_views = views(all@);
    proof {
        assert forall|x: Seq<char>| all_views.contains(x) <==> wanted(cur, *cli, *error, x) by {
            match server_required(*error) {
                Some(q) => {
                    assert(all_views =~= cur + st + seq![q]);
                    if all_views.contains(x) {
                        let k = choose|k: int| 0 <= k < all_views.len() && all_views[k] == x;
                        if k < cur.len() {
                            assert(cur[k] == x);
                        } else if k < cur.len() + st.len() {
                            assert(st[k - cur.len()] == x);
                        }
                    }
                    if cur.contains(x) {
                        let k = choose|k: int| 0 <= k < cur.len() && cur[k] == x;
                        assert(all_views[k] == x);
                    }
                    if st.contains(x) {
                        let k = choose|k: int| 0 <= k < st.len() && st[k] == x;
                        assert(all_views[cur.len() + k] == x);
                    }
                    if q == x {
                        assert(all_views[(cur.len() + st.len()) as int] == x);
                    }
                },
                None => {
                    assert(all_views =~= cur + st);
                    if all_views.contains(x) {
                        let k = choose|k: int| 0 <= k < all_views.len() && all_views[k] == x;
                        if k < cur.len() {
                            assert(cur[k] == x);
                        } else {
                            assert(st[k - cur.len()] == x);
                        }
                    }
                    if cur.contains(x) {
                        let k = choose|k: int| 0 <= k < cur.len() && cur[k] == x;
                        assert(all_views[k] == x);
                    }
                    if st.contains(x) {
                        let k = choose|k: int| 0 <= k < st.len() && st[k] == x;
                        assert(all_views[cur.len() + k] == x);
                    }
                },
            }
        }
    }
    let ghost all_seq = all@;
    let requested = collect_last(all);
    proof {
        lemma_collected_texts(requested@, all_seq);
    }
    let missing = missing_permissions(&requested, current_requested);
    proof {
        let req = views(requested@);
        let cur = views(current_requested@);
        let pred = |x: Seq<char>| !cur.contains(x);
        assert forall|x: Seq<char>| views(missing@).contains(x) implies req.contains(x)
            && !cur.contains(x) by {
            req.lemma_filter_contains_rev(pred, x);
            let k = choose|k: int| 0 <= k < req.filter(pred).len() && req.filter(pred)[k] == x;
            req.lemma_filter_pred(pred, k);
        }
    }
    let login = login_command(cli, &requested);
    Some(
        ReauthorizationPlan {
            requested_permissions: requested,
            missing_permissions: missing,
            login_command: login,
        },
    )
}

/// Whether a text is one of `v`.
pub fn contains_text(v: &Vec<String>, x: &str) -> (r: bool)
    ensures
        r == views(v@).contains(x@),
{
    let mut i: usize = 0;
    while i < v.len()
        invariant
            0 <= i <= v@.len(),
            forall|k: int| 0 <= k < i ==> (#[trigger] v@[k])@ != x@,
        decreases v@.len() - i,
    {
        if str_eq(v[i].as_str(), x) {
            assert(views(v@)[i as int] == x@);
            return true;
        }
        i = i + 1;
    }
    assert forall|k: int| 0 <= k < views(v@).len() implies views(v@)[k] != x@ by {
        assert(views(v@)[k] == v@[k]@);
    }
    false
}

/// The permissions of `requested` that are not in `current`, in order.
fn missing_permissions(requested: &Vec<String>, current: &Vec<String>) -> (r: Vec<String>)
    ensures
        views(r@) == views(requested@).filter(|x: Seq<char>| !views(current@).contains(x)),
{
    let ghost pred = |x: Seq<char>| !views(current@).contains(x);
    let mut r: Vec<String> = Vec::new();
    let mut i: usize = 0;
    while i < requested.len()
        invariant
            0 <= i <= requested@.len(),
            pred == (|x: Seq<char>| !views(current@).contains(x)),
            views(r@) == views(requested@).take(i as int).filter(pred),
        decreases requested@.len() - i,
    {
        let ghost before = views(r@);
        if !contains_text(current, requested[i].as_str()) {
            r.push(requested[i].clone());
        }
        proof {
            let t = views(requested@).take(i as int + 1);
            assert(t.drop_last() =~= views(requested@).take(i as int));
            assert(t.last() == requested@[i as int]@);
            reveal_with_fuel(Seq::<Seq<char>>::filter, 1);
            assert(views(r@) =~= t.filter(pred));
        }
        i = i + 1;
    }
    assert(views(requested@).take(requested@.len() as int) =~= views(requested@));
    r
}

} // verus!
