//! The command-line grammar of `ycloud`: which subcommands exist, which
//! options each accepts and what values those take, and how an argument
//! list is read into a `Cli`.
//!
//! Options are written `--name value` or `--name=value`; a separate value
//! may not start with `-` (but may be `-` itself). Global options
//! (`--dashboard-url`, `--config`, `--automation`) are accepted at every
//! level; the others only after the subcommand they belong to. An option
//! that takes one value, or a flag, may be given once; list options may be
//! repeated and split their values at commas. `-h`/`--help` asks for help
//! anywhere, `-V`/`--version` for the version before any subcommand, and
//! `--` makes every later argument positional. Problems are reported at the
//! first argument that shows them.

use vstd::prelude::*;

use crate::cli::{
    AnalyticsCallingLogsArgs, AnalyticsCommand, AnalyticsLogsArgs, AnalyticsOverviewArgs,
    AnalyticsRangeArgs, Cli, Command, ContactExportArgs, ContactsCommand, ContactsListArgs,
    ConversationExportArgs, ConversationFilterArgs, ConversationSearchArgs, ExportArtifactType,
    ExportDownloadArgs, ExportFormat, ExportRetryArgs, ExportTaskArgs, ExportWaitArgs,
    ExportsCommand, InboxCommand, InboxConversationsCommand, IntegrationsCommand, LoginArgs,
    PermissionProfile, TenantsCommand, WabaAssignmentCommand, WabaAssignmentListArgs,
    WhatsappCommand,
};
use crate::http::{all_digits, digits_value};
use crate::text::{chars_of, concat2, join_seqs, opt_string_view, str_eq, string_from_chars, views};

verus! {

// ---------------------------------------------------------------------------
// Commands and options
// ---------------------------------------------------------------------------

/// A place in the command tree: a group of subcommands or a command.
#[derive(Debug, Clone, Copy, PartialEq, Eq, Structural)]
pub enum Node {
    Top,
    Analytics,
    Contacts,
    Whatsapp,
    WabaAssignment,
    Inbox,
    Conversations,
    Exports,
    Integrations,
    Tenants,
    Login,
    Whoami,
    Refresh,
    Logout,
    Outline,
    Overview,
    Logs,
    CallingLogs,
    ContactsList,
    Metadata,
    ContactsExport,
    WabaList,
    Search,
    ConversationsExport,
    Query,
    Retry,
    Download,
    IntegrationsStatus,
    TenantsList,
}

/// What an option takes.
#[derive(Debug, Clone, Copy, PartialEq, Eq, Structural)]
pub enum ValueKind {
    /// No value.
    Flag,
    /// One text.
    Text,
    /// A text per occurrence, repeatable.
    Texts,
    /// Comma-separated texts, repeatable.
    List,
    /// One `i64`.
    Int64,
    /// One `i32`.
    Int32,
    /// One `u32`.
    Nat32,
    /// One `u64`.
    Nat64,
    /// One page size from 1 to 1000.
    Limit,
    /// `true` or `false`.
    Boolean,
    /// One permission profile.
    Profile,
    /// One export format.
    Format,
    /// Comma-separated artifact types, repeatable.
    Artifacts,
}

/// Whether an option of this kind may be given more than once.
pub open spec fn repeatable(k: ValueKind) -> bool {
    k == ValueKind::Texts || k == ValueKind::List || k == ValueKind::Artifacts
}

/// The subcommands of a group, by name.
pub open spec fn children(node: Node) -> Seq<(Seq<char>, Node)> {
    match node {
        Node::Top => seq![
            ("login"@, Node::Login),
            ("whoami"@, Node::Whoami),
            ("analytics"@, Node::Analytics),
            ("contacts"@, Node::Contacts),
            ("whatsapp"@, Node::Whatsapp),
            ("inbox"@, Node::Inbox),
            ("exports"@, Node::Exports),
            ("integrations"@, Node::Integrations),
            ("tenants"@, Node::Tenants),
            ("refresh"@, Node::Refresh),
            ("logout"@, Node::Logout),
        ],
        Node::Analytics => seq![
            ("outline"@, Node::Outline),
            ("overview"@, Node::Overview),
            ("logs"@, Node::Logs),
            ("calling-logs"@, Node::CallingLogs),
        ],
        Node::Contacts => seq![
            ("list"@, Node::ContactsList),
            ("metadata"@, Node::Metadata),
            ("export"@, Node::ContactsExport),
        ],
        Node::Whatsapp => seq![("waba-assignment"@, Node::WabaAssignment)],
        Node::WabaAssignment => seq![("list"@, Node::WabaList)],
        Node::Inbox => seq![("conversations"@, Node::Conversations)],
        Node::Conversations => seq![("search"@, Node::Search), ("export"@, Node::ConversationsExport)],
        Node::Exports => seq![
            ("query"@, Node::Query),
            ("retry"@, Node::Retry),
            ("download"@, Node::Download),
        ],
        Node::Integrations => seq![("status"@, Node::IntegrationsStatus)],
        Node::Tenants => seq![("list"@, Node::TenantsList)],
        _ => seq![],
    }
}

/// Whether a node is a group of subcommands (one must follow).
pub open spec fn is_group(node: Node) -> bool {
    match node {
        Node::Top | Node::Analytics | Node::Contacts | Node::Whatsapp | Node::WabaAssignment
        | Node::Inbox | Node::Conversations | Node::Exports | Node::Integrations
        | Node::Tenants => true,
        _ => false,
    }
}

/// Whether a command takes the task id as its positional argument.
pub open spec fn takes_task_id(node: Node) -> bool {
    node == Node::Query || node == Node::Retry || node == Node::Download
}

/// The options every level accepts.
pub open spec fn global_options() -> Seq<(Seq<char>, ValueKind)> {
    seq![
        ("dashboard-url"@, ValueKind::Text),
        ("config"@, ValueKind::Text),
        ("automation"@, ValueKind::Flag),
    ]
}

/// The analytics time range options.
pub open spec fn range_options() -> Seq<(Seq<char>, ValueKind)> {
    seq![("start-time"@, ValueKind::Int64), ("end-time"@, ValueKind::Int64)]
}

/// The conversation filter options.
pub open spec fn filter_options() -> Seq<(Seq<char>, ValueKind)> {
    seq![
        ("inbox-id"@, ValueKind::List),
        ("assignee-id"@, ValueKind::List),
        ("conversation-tag-id"@, ValueKind::List),
        ("contact-tag-id"@, ValueKind::List),
        ("status"@, ValueKind::Int32),
        ("condition"@, ValueKind::Text),
        ("start-time"@, ValueKind::Int64),
        ("end-time"@, ValueKind::Int64),
        ("close-start-time"@, ValueKind::Int64),
        ("close-end-time"@, ValueKind::Int64),
        ("csat"@, ValueKind::Int32),
        ("customer"@, ValueKind::Boolean),
    ]
}

/// The options of waiting for an export.
pub open spec fn wait_options() -> Seq<(Seq<char>, ValueKind)> {
    seq![
        ("no-wait"@, ValueKind::Flag),
        ("output-dir"@, ValueKind::Text),
        ("artifact"@, ValueKind::Artifacts),
        ("timeout-seconds"@, ValueKind::Nat64),
        ("json"@, ValueKind::Flag),
    ]
}

/// The options of a command (besides the global ones).
pub open spec fn command_options(node: Node) -> Seq<(Seq<char>, ValueKind)> {
    match node {
        Node::Login => seq![
            ("profile"@, ValueKind::Profile),
            ("permission"@, ValueKind::Texts),
            ("code"@, ValueKind::Text),
            ("code-verifier"@, ValueKind::Text),
            ("state"@, ValueKind::Text),
            ("manual"@, ValueKind::Flag),
        ],
        Node::Outline => range_options(),
        Node::Overview => range_options() + seq![
            ("timezone"@, ValueKind::Text),
            ("from"@, ValueKind::Text),
            ("region-code"@, ValueKind::Text),
            ("message-category"@, ValueKind::Text),
        ],
        Node::Logs => range_options() + seq![
            ("page-no"@, ValueKind::Nat32),
            ("page-size"@, ValueKind::Nat32),
            ("condition"@, ValueKind::Text),
            ("direction"@, ValueKind::Text),
            ("from"@, ValueKind::Text),
            ("business-phones"@, ValueKind::List),
            ("to-region-codes"@, ValueKind::List),
            ("status"@, ValueKind::Text),
            ("source"@, ValueKind::Text),
            ("pricing-category"@, ValueKind::List),
            ("timezone"@, ValueKind::Text),
        ],
        Node::CallingLogs => range_options() + seq![
            ("page-no"@, ValueKind::Nat32),
            ("page-size"@, ValueKind::Nat32),
            ("condition"@, ValueKind::Text),
            ("directions"@, ValueKind::List),
            ("region-codes"@, ValueKind::List),
            ("sources"@, ValueKind::List),
            ("status"@, ValueKind::List),
            ("phone-number-ids"@, ValueKind::List),
        ],
        Node::ContactsList => seq![
            ("page-no"@, ValueKind::Nat32),
            ("page-size"@, ValueKind::Nat32),
            ("condition"@, ValueKind::Text),
        ],
        Node::ContactsExport => seq![
            ("condition"@, ValueKind::Text),
            ("segment-id"@, ValueKind::Text),
            ("blocked"@, ValueKind::Boolean),
            ("columns"@, ValueKind::List),
            ("format"@, ValueKind::Format),
            ("archive"@, ValueKind::Flag),
            ("timezone"@, ValueKind::Text),
            ("file-name"@, ValueKind::Text),
            ("idempotency-key"@, ValueKind::Text),
        ] + wait_options(),
        Node::WabaList => seq![("waba-id"@, ValueKind::Text), ("json"@, ValueKind::Flag)],
        Node::Search => filter_options() + seq![
            ("cursor"@, ValueKind::Text),
            ("limit"@, ValueKind::Limit),
            ("json"@, ValueKind::Flag),
        ],
        Node::ConversationsExport => filter_options() + seq![
            ("columns"@, ValueKind::List),
            ("format"@, ValueKind::Format),
            ("no-contacts"@, ValueKind::Flag),
            ("archive"@, ValueKind::Flag),
            ("timezone"@, ValueKind::Text),
            ("file-name"@, ValueKind::Text),
            ("idempotency-key"@, ValueKind::Text),
        ] + wait_options(),
        Node::Query => seq![("json"@, ValueKind::Flag)],
        Node::Retry => seq![("idempotency-key"@, ValueKind::Text)] + wait_options(),
        Node::Download => seq![
            ("artifact"@, ValueKind::Artifacts),
            ("output-dir"@, ValueKind::Text),
            ("json"@, ValueKind::Flag),
        ],
        _ => seq![],
    }
}

/// Every option a node accepts: the global ones, then its own.
pub open spec fn options_of(node: Node) -> Seq<(Seq<char>, ValueKind)> {
    global_options() + command_options(node)
}

/// The first entry of a table named `name`, if any.
pub open spec fn lookup<T>(table: Seq<(Seq<char>, T)>, name: Seq<char>) -> Option<T>
    decreases table.len(),
{
    if table.len() == 0 {
        None
    } else if table[0].0 == name {
        Some(table[0].1)
    } else {
        lookup(table.drop_first(), name)
    }
}

/// What the option `name` takes at `node`; `None` when `node` does not
/// accept it.
pub open spec fn option_kind(node: Node, name: Seq<char>) -> Option<ValueKind> {
    lookup(options_of(node), name)
}

/// The subcommand of a group named `word`.
pub open spec fn child(node: Node, word: Seq<char>) -> Option<Node> {
    lookup(children(node), word)
}

/// The view of a table of names.
pub open spec fn table_view<T>(t: Seq<(&str, T)>) -> Seq<(Seq<char>, T)> {
    t.map_values(|e: (&str, T)| (e.0@, e.1))
}

/// Looks `name` up in a table.
fn find<T: Copy>(table: &Vec<(&str, T)>, name: &str) -> (r: Option<T>)
    ensures
        r == lookup(table_view(table@), name@),
{
    let mut i: usize = 0;
    assert(table@.skip(0) =~= table@);
    while i < table.len()
        invariant
            0 <= i <= table@.len(),
            lookup(table_view(table@), name@) == lookup(table_view(table@.skip(i as int)), name@),
        decreases table@.len() - i,
    {
        assert(table_view(table@.skip(i as int)).drop_first() =~= table_view(table@.skip(i + 1)));
        let (n, v) = table[i];
        if str_eq(n, name) {
            return Some(v);
        }
        i = i + 1;
    }
    assert(table_view(table@.skip(i as int)) =~= Seq::<(Seq<char>, T)>::empty());
    None
}

/// Appends one option to a table.
fn add_option(t: &mut Vec<(&'static str, ValueKind)>, name: &'static str, k: ValueKind)
    ensures
        table_view(final(t)@) == table_view(old(t)@).push((name@, k)),
{
    t.push((name, k));
    assert(table_view(final(t)@) =~= table_view(old(t)@).push((name@, k)));
}

/// Appends the global options.
fn add_globals(t: &mut Vec<(&'static str, ValueKind)>)
    ensures
        table_view(final(t)@) == table_view(old(t)@) + global_options(),
{
    add_option(t, "dashboard-url", ValueKind::Text);
    add_option(t, "config", ValueKind::Text);
    add_option(t, "automation", ValueKind::Flag);
    assert(table_view(t@) =~= table_view(old(t)@) + global_options());
}

/// Appends the range options.
fn add_range(t: &mut Vec<(&'static str, ValueKind)>)
    ensures
        table_view(final(t)@) == table_view(old(t)@) + range_options(),
{
    add_option(t, "start-time", ValueKind::Int64);
    add_option(t, "end-time", ValueKind::Int64);
    assert(table_view(t@) =~= table_view(old(t)@) + range_options());
}

/// Appends the conversation filter options.
fn add_filter(t: &mut Vec<(&'static str, ValueKind)>)
    ensures
        table_view(final(t)@) == table_view(old(t)@) + filter_options(),
{
    add_option(t, "inbox-id", ValueKind::List);
    add_option(t, "assignee-id", ValueKind::List);
    add_option(t, "conversation-tag-id", ValueKind::List);
    add_option(t, "contact-tag-id", ValueKind::List);
    add_option(t, "status", ValueKind::Int32);
    add_option(t, "condition", ValueKind::Text);
    add_option(t, "start-time", ValueKind::Int64);
    add_option(t, "end-time", ValueKind::Int64);
    add_option(t, "close-start-time", ValueKind::Int64);
    add_option(t, "close-end-time", ValueKind::Int64);
    add_option(t, "csat", ValueKind::Int32);
    add_option(t, "customer", ValueKind::Boolean);
    assert(table_view(t@) =~= table_view(old(t)@) + filter_options());
}

/// Appends the export wait options.
fn add_wait(t: &mut Vec<(&'static str, ValueKind)>)
    ensures
        table_view(final(t)@) == table_view(old(t)@) + wait_options(),
{
    add_option(t, "no-wait", ValueKind::Flag);
    add_option(t, "output-dir", ValueKind::Text);
    add_option(t, "artifact", ValueKind::Artifacts);
    add_option(t, "timeout-seconds", ValueKind::Nat64);
    add_option(t, "json", ValueKind::Flag);
    assert(table_view(t@) =~= table_view(old(t)@) + wait_options());
}

/// Appends the options of `Login`.
#[verifier::rlimit(30)]
fn add_login_options(t: &mut Vec<(&'static str, ValueKind)>)
    ensures
        table_view(final(t)@) == table_view(old(t)@) + command_options(Node::Login),
{
    let ghost start = table_view(t@);
        add_option(t, "profile", ValueKind::Profile);
        add_option(t, "permission", ValueKind::Texts);
        add_option(t, "code", ValueKind::Text);
        add_option(t, "code-verifier", ValueKind::Text);
        add_option(t, "state", ValueKind::Text);
        add_option(t, "manual", ValueKind::Flag);
    assert(table_view(t@) =~= start + command_options(Node::Login));
}

/// Appends the options of `Outline`.
#[verifier::rlimit(30)]
fn add_outline_options(t: &mut Vec<(&'static str, ValueKind)>)
    ensures
        table_view(final(t)@) == table_view(old(t)@) + command_options(Node::Outline),
{
    let ghost start = table_view(t@);
        add_range(t);
    assert(table_view(t@) =~= start + command_options(Node::Outline));
}

/// Appends the options of `Overview`.
#[verifier::rlimit(30)]
fn add_overview_options(t: &mut Vec<(&'static str, ValueKind)>)
    ensures
        table_view(final(t)@) == table_view(old(t)@) + command_options(Node::Overview),
{
    let ghost start = table_view(t@);
        add_range(t);
        add_option(t, "timezone", ValueKind::Text);
        add_option(t, "from", ValueKind::Text);
        add_option(t, "region-code", ValueKind::Text);
        add_option(t, "message-category", ValueKind::Text);
    assert(table_view(t@) =~= start + command_options(Node::Overview));
}

/// Appends the options of `Logs`.
#[verifier::rlimit(30)]
fn add_logs_options(t: &mut Vec<(&'static str, ValueKind)>)
    ensures
        table_view(final(t)@) == table_view(old(t)@) + command_options(Node::Logs),
{
    let ghost start = table_view(t@);
        add_range(t);
        add_option(t, "page-no", ValueKind::Nat32);
        add_option(t, "page-size", ValueKind::Nat32);
        add_option(t, "condition", ValueKind::Text);
        add_option(t, "direction", ValueKind::Text);
        add_option(t, "from", ValueKind::Text);
        add_option(t, "business-phones", ValueKind::List);
        add_option(t, "to-region-codes", ValueKind::List);
        add_option(t, "status", ValueKind::Text);
        add_option(t, "source", ValueKind::Text);
        add_option(t, "pricing-category", ValueKind::List);
        add_option(t, "timezone", ValueKind::Text);
    assert(table_view(t@) =~= start + command_options(Node::Logs));
}

/// Appends the options of `CallingLogs`.
#[verifier::rlimit(30)]
fn add_calling_logs_options(t: &mut Vec<(&'static str, ValueKind)>)
    ensures
        table_view(final(t)@) == table_view(old(t)@) + command_options(Node::CallingLogs),
{
    let ghost start = table_view(t@);
        add_range(t);
        add_option(t, "page-no", ValueKind::Nat32);
        add_option(t, "page-size", ValueKind::Nat32);
        add_option(t, "condition", ValueKind::Text);
        add_option(t, "directions", ValueKind::List);
        add_option(t, "region-codes", ValueKind::List);
        add_option(t, "sources", ValueKind::List);
        add_option(t, "status", ValueKind::List);
        add_option(t, "phone-number-ids", ValueKind::List);
    assert(table_view(t@) =~= start + command_options(Node::CallingLogs));
}

/// Appends the options of `ContactsList`.
#[verifier::rlimit(30)]
fn add_contacts_list_options(t: &mut Vec<(&'static str, ValueKind)>)
    ensures
        table_view(final(t)@) == table_view(old(t)@) + command_options(Node::ContactsList),
{
    let ghost start = table_view(t@);
        add_option(t, "page-no", ValueKind::Nat32);
        add_option(t, "page-size", ValueKind::Nat32);
        add_option(t, "condition", ValueKind::Text);
    assert(table_view(t@) =~= start + command_options(Node::ContactsList));
}

/// Appends the options of `ContactsExport`.
#[verifier::rlimit(30)]
fn add_contacts_export_options(t: &mut Vec<(&'static str, ValueKind)>)
    ensures
        table_view(final(t)@) == table_view(old(t)@) + command_options(Node::ContactsExport),
{
    let ghost start = table_view(t@);
        add_option(t, "condition", ValueKind::Text);
        add_option(t, "segment-id", ValueKind::Text);
        add_option(t, "blocked", ValueKind::Boolean);
        add_option(t, "columns", ValueKind::List);
        add_option(t, "format", ValueKind::Format);
        add_option(t, "archive", ValueKind::Flag);
        add_option(t, "timezone", ValueKind::Text);
        add_option(t, "file-name", ValueKind::Text);
        add_option(t, "idempotency-key", ValueKind::Text);
        add_wait(t);
    assert(table_view(t@) =~= start + command_options(Node::ContactsExport));
}

/// Appends the options of `WabaList`.
#[verifier::rlimit(30)]
fn add_waba_list_options(t: &mut Vec<(&'static str, ValueKind)>)
    ensures
        table_view(final(t)@) == table_view(old(t)@) + command_options(Node::WabaList),
{
    let ghost start = table_view(t@);
        add_option(t, "waba-id", ValueKind::Text);
        add_option(t, "json", ValueKind::Flag);
    assert(table_view(t@) =~= start + command_options(Node::WabaList));
}

/// Appends the options of `Search`.
#[verifier::rlimit(30)]
fn add_search_options(t: &mut Vec<(&'static str, ValueKind)>)
    ensures
        table_view(final(t)@) == table_view(old(t)@) + command_options(Node::Search),
{
    let ghost start = table_view(t@);
        add_filter(t);
        add_option(t, "cursor", ValueKind::Text);
        add_option(t, "limit", ValueKind::Limit);
        add_option(t, "json", ValueKind::Flag);
    assert(table_view(t@) =~= start + command_options(Node::Search));
}

/// Appends the options of `ConversationsExport`.
#[verifier::rlimit(30)]
fn add_conversations_export_options(t: &mut Vec<(&'static str, ValueKind)>)
    ensures
        table_view(final(t)@) == table_view(old(t)@) + command_options(Node::ConversationsExport),
{
    let ghost start = table_view(t@);
        add_filter(t);
        add_option(t, "columns", ValueKind::List);
        add_option(t, "format", ValueKind::Format);
        add_option(t, "no-contacts", ValueKind::Flag);
        add_option(t, "archive", ValueKind::Flag);
        add_option(t, "timezone", ValueKind::Text);
        add_option(t, "file-name", ValueKind::Text);
        add_option(t, "idempotency-key", ValueKind::Text);
        add_wait(t);
    assert(table_view(t@) =~= start + command_options(Node::ConversationsExport));
}

/// Appends the options of `Query`.
#[verifier::rlimit(30)]
fn add_query_options(t: &mut Vec<(&'static str, ValueKind)>)
    ensures
        table_view(final(t)@) == table_view(old(t)@) + command_options(Node::Query),
{
    let ghost start = table_view(t@);
        add_option(t, "json", ValueKind::Flag);
    assert(table_view(t@) =~= start + command_options(Node::Query));
}

/// Appends the options of `Retry`.
#[verifier::rlimit(30)]
fn add_retry_options(t: &mut Vec<(&'static str, ValueKind)>)
    ensures
        table_view(final(t)@) == table_view(old(t)@) + command_options(Node::Retry),
{
    let ghost start = table_view(t@);
        add_option(t, "idempotency-key", ValueKind::Text);
        add_wait(t);
    assert(table_view(t@) =~= start + command_options(Node::Retry));
}

/// Appends the options of `Download`.
#[verifier::rlimit(30)]
fn add_download_options(t: &mut Vec<(&'static str, ValueKind)>)
    ensures
        table_view(final(t)@) == table_view(old(t)@) + command_options(Node::Download),
{
    let ghost start = table_view(t@);
        add_option(t, "artifact", ValueKind::Artifacts);
        add_option(t, "output-dir", ValueKind::Text);
        add_option(t, "json", ValueKind::Flag);
    assert(table_view(t@) =~= start + command_options(Node::Download));
}

/// Appends the options of a command.
fn add_command_options(t: &mut Vec<(&'static str, ValueKind)>, node: Node)
    ensures
        table_view(final(t)@) == table_view(old(t)@) + command_options(node),
{
    match node {
        Node::Login => add_login_options(t),
        Node::Outline => add_outline_options(t),
        Node::Overview => add_overview_options(t),
        Node::Logs => add_logs_options(t),
        Node::CallingLogs => add_calling_logs_options(t),
        Node::ContactsList => add_contacts_list_options(t),
        Node::ContactsExport => add_contacts_export_options(t),
        Node::WabaList => add_waba_list_options(t),
        Node::Search => add_search_options(t),
        Node::ConversationsExport => add_conversations_export_options(t),
        Node::Query => add_query_options(t),
        Node::Retry => add_retry_options(t),
        Node::Download => add_download_options(t),
        _ => {
            assert(table_view(t@) =~= table_view(t@) + command_options(node));
        },
    }
}

/// The options a node accepts, as a table.
fn options_table(node: Node) -> (r: Vec<(&'static str, ValueKind)>)
    ensures
        table_view(r@) == options_of(node),
{
    let mut t: Vec<(&'static str, ValueKind)> = Vec::new();
    assert(table_view(t@) =~= Seq::<(Seq<char>, ValueKind)>::empty());
    add_globals(&mut t);
    add_command_options(&mut t, node);
    assert(table_view(t@) =~= options_of(node));
    t
}

/// Appends one subcommand to a table.
fn add_child(t: &mut Vec<(&'static str, Node)>, name: &'static str, n: Node)
    ensures
        table_view(final(t)@) == table_view(old(t)@).push((name@, n)),
{
    t.push((name, n));
    assert(table_view(final(t)@) =~= table_view(old(t)@).push((name@, n)));
}

/// The subcommands of a group, as a table.
fn children_table(node: Node) -> (r: Vec<(&'static str, Node)>)
    ensures
        table_view(r@) == children(node),
{
    let mut t: Vec<(&'static str, Node)> = Vec::new();
    assert(table_view(t@) =~= Seq::<(Seq<char>, Node)>::empty());
    match node {
        Node::Top => {
            add_child(&mut t, "login", Node::Login);
            add_child(&mut t, "whoami", Node::Whoami);
            add_child(&mut t, "analytics", Node::Analytics);
            add_child(&mut t, "contacts", Node::Contacts);
            add_child(&mut t, "whatsapp", Node::Whatsapp);
            add_child(&mut t, "inbox", Node::Inbox);
            add_child(&mut t, "exports", Node::Exports);
            add_child(&mut t, "integrations", Node::Integrations);
            add_child(&mut t, "tenants", Node::Tenants);
            add_child(&mut t, "refresh", Node::Refresh);
            add_child(&mut t, "logout", Node::Logout);
        },
        Node::Analytics => {
            add_child(&mut t, "outline", Node::Outline);
            add_child(&mut t, "overview", Node::Overview);
            add_child(&mut t, "logs", Node::Logs);
            add_child(&mut t, "calling-logs", Node::CallingLogs);
        },
        Node::Contacts => {
            add_child(&mut t, "list", Node::ContactsList);
            add_child(&mut t, "metadata", Node::Metadata);
            add_child(&mut t, "export", Node::ContactsExport);
        },
        Node::Whatsapp => {
            add_child(&mut t, "waba-assignment", Node::WabaAssignment);
        },
        Node::WabaAssignment => {
            add_child(&mut t, "list", Node::WabaList);
        },
        Node::Inbox => {
            add_child(&mut t, "conversations", Node::Conversations);
        },
        Node::Conversations => {
            add_child(&mut t, "search", Node::Search);
            add_child(&mut t, "export", Node::ConversationsExport);
        },
        Node::Exports => {
            add_child(&mut t, "query", Node::Query);
            add_child(&mut t, "retry", Node::Retry);
            add_child(&mut t, "download", Node::Download);
        },
        Node::Integrations => {
            add_child(&mut t, "status", Node::IntegrationsStatus);
        },
        Node::Tenants => {
            add_child(&mut t, "list", Node::TenantsList);
        },
        _ => {},
    }
    assert(table_view(t@) =~= children(node));
    t
}

// ---------------------------------------------------------------------------
// Values
// ---------------------------------------------------------------------------

/// The index of the first comma in `s`, if any.
pub open spec fn comma_at(s: Seq<char>, i: int) -> int
    decreases s.len() - i,
{
    if i >= s.len() || (0 <= i && s[i] == ',') {
        i
    } else {
        comma_at(s, i + 1)
    }
}

/// `s` split at every comma (`str::split(',')`): one piece more than
/// there are commas, empty pieces included.
pub open spec fn split_commas(s: Seq<char>) -> Seq<Seq<char>>
    decreases s.len(),
{
    proof {
        lemma_comma_at(s, 0);
    }
    let k = comma_at(s, 0);
    if k >= s.len() {
        seq![s]
    } else {
        seq![s.take(k)] + split_commas(s.skip(k + 1))
    }
}

/// `comma_at` stays within the text.
pub proof fn lemma_comma_at(s: Seq<char>, i: int)
    requires
        0 <= i <= s.len(),
    ensures
        i <= comma_at(s, i) <= s.len(),
        comma_at(s, i) < s.len() ==> s[comma_at(s, i)] == ',',
        forall|j: int| i <= j < comma_at(s, i) ==> s[j] != ',',
    decreases s.len() - i,
{
    if i < s.len() && s[i] != ',' {
        lemma_comma_at(s, i + 1);
    }
}

/// Splits a text at every comma.
pub fn split_at_commas(s: &str) -> (r: Vec<String>)
    ensures
        crate::text::views(r@) == split_commas(s@),
{
    let cs = chars_of(s);
    let n = cs.len();
    let mut r: Vec<String> = Vec::new();
    let mut piece: Vec<char> = Vec::new();
    let mut start: usize = 0;
    let mut i: usize = 0;
    proof {
        lemma_comma_at(cs@, 0);
        assert(cs@.skip(0) =~= cs@);
        assert(crate::text::views(r@) + split_commas(cs@.skip(0)) =~= split_commas(cs@));
    }
    while i < n
        invariant
            start <= i <= n == cs@.len(),
            cs@ == s@,
            piece@ == cs@.subrange(start as int, i as int),
            forall|j: int| start <= j < i ==> cs@[j] != ',',
            crate::text::views(r@) + split_commas(cs@.skip(start as int)) == split_commas(cs@),
        decreases n - i,
    {
        if cs[i] == ',' {
            proof {
                let rest = cs@.skip(start as int);
                lemma_comma_at(rest, 0);
                assert forall|j: int| 0 <= j < i - start implies rest[j] != ',' by {
                    assert(rest[j] == cs@[start + j]);
                }
                lemma_first_comma(rest, (i - start) as int);
                assert(rest.take(i - start) =~= piece@);
                assert(rest.skip(i - start + 1) =~= cs@.skip(i + 1));
            }
            let ghost before = r@;
            r.push(string_from_chars(&piece));
            assert(crate::text::views(r@) =~= crate::text::views(before).push(piece@));
            piece = Vec::new();
            start = i + 1;
        } else {
            piece.push(cs[i]);
            assert(piece@ =~= cs@.subrange(start as int, i + 1));
        }
        i = i + 1;
    }
    proof {
        let rest = cs@.skip(start as int);
        assert forall|j: int| 0 <= j < rest.len() implies rest[j] != ',' by {
            assert(rest[j] == cs@[start + j]);
        }
        lemma_no_comma(rest, 0);
        assert(rest =~= piece@);
    }
    let ghost before = r@;
    r.push(string_from_chars(&piece));
    assert(crate::text::views(r@) =~= crate::text::views(before).push(piece@));
    assert(crate::text::views(r@) =~= split_commas(cs@));
    r
}

/// The first comma of `s` is at `k` when `s[k]` is a comma and none comes
/// before.
proof fn lemma_first_comma(s: Seq<char>, k: int)
    requires
        0 <= k < s.len(),
        s[k] == ',',
        forall|j: int| 0 <= j < k ==> s[j] != ',',
    ensures
        comma_at(s, 0) == k,
{
    lemma_comma_from(s, 0, k);
}

/// Walking from `i` finds the comma at `k`.
proof fn lemma_comma_from(s: Seq<char>, i: int, k: int)
    requires
        0 <= i <= k < s.len(),
        s[k] == ',',
        forall|j: int| i <= j < k ==> s[j] != ',',
    ensures
        comma_at(s, i) == k,
    decreases k - i,
{
    if i < k {
        lemma_comma_from(s, i + 1, k);
    }
}

/// Without a comma, the text is one piece.
proof fn lemma_no_comma(s: Seq<char>, i: int)
    requires
        0 <= i <= s.len(),
        forall|j: int| 0 <= j < s.len() ==> s[j] != ',',
    ensures
        comma_at(s, i) == s.len(),
    decreases s.len() - i,
{
    if i < s.len() {
        lemma_no_comma(s, i + 1);
    }
}

/// Joining two or more texts puts the first one, a separator, then the
/// rest joined.
proof fn lemma_join_front(ps: Seq<Seq<char>>, sep: Seq<char>)
    requires
        ps.len() >= 2,
    ensures
        join_seqs(ps, sep) == ps[0] + sep + join_seqs(ps.skip(1), sep),
    decreases ps.len(),
{
    if ps.len() == 2 {
        assert(ps.drop_last().len() == 1);
        assert(ps.skip(1).len() == 1);
        assert(join_seqs(ps.drop_last(), sep) == ps[0]);
        assert(join_seqs(ps.skip(1), sep) == ps[1]);
    } else {
        lemma_join_front(ps.drop_last(), sep);
        assert(ps.drop_last().skip(1) =~= ps.skip(1).drop_last());
        assert(ps.skip(1).last() == ps.last());
        assert(ps.drop_last()[0] == ps[0]);
        assert(ps[0] + sep + join_seqs(ps.skip(1), sep) =~= ps[0] + sep + join_seqs(
            ps.drop_last().skip(1),
            sep,
        ) + sep + ps.last());
    }
}

/// Splitting texts joined with commas at every comma gives them back, when
/// none of them holds a comma itself.
pub proof fn lemma_split_join_commas(ps: Seq<Seq<char>>)
    requires
        ps.len() >= 1,
        forall|i: int, j: int| 0 <= i < ps.len() && 0 <= j < ps[i].len() ==> #[trigger] ps[i][j]
            != ',',
    ensures
        split_commas(join_seqs(ps, ","@)) == ps,
    decreases ps.len(),
{
    reveal_strlit(",");
    let s = join_seqs(ps, ","@);
    if ps.len() == 1 {
        assert(s == ps[0]);
        assert forall|j: int| 0 <= j < s.len() implies s[j] != ',' by {
            assert(ps[0][j] != ',');
        }
        lemma_no_comma(s, 0);
        assert(split_commas(s) =~= ps);
    } else {
        lemma_join_front(ps, ","@);
        let rest = ps.skip(1);
        assert forall|i: int, j: int| 0 <= i < rest.len() && 0 <= j < rest[i].len() implies #[trigger] rest[i][j]
            != ',' by {
            assert(rest[i] == ps[i + 1]);
        }
        lemma_split_join_commas(rest);
        let k = ps[0].len() as int;
        assert(s[k] == ',');
        assert forall|j: int| 0 <= j < k implies s[j] != ',' by {
            assert(s[j] == ps[0][j]);
        }
        lemma_first_comma(s, k);
        assert(s.take(k) =~= ps[0]);
        assert(s.skip(k + 1) =~= join_seqs(rest, ","@));
        assert(split_commas(s) =~= seq![ps[0]] + rest);
        assert(seq![ps[0]] + rest =~= ps);
    }
}

/// An `i64` as `str::parse::<i64>` reads it: an optional sign, then one or
/// more ASCII digits whose value fits.
pub open spec fn parsed_i64(s: Seq<char>) -> Option<i64> {
    let neg = s.len() > 0 && s[0] == '-';
    let d = if s.len() > 0 && (s[0] == '+' || s[0] == '-') {
        s.drop_first()
    } else {
        s
    };
    let v: int = if neg {
        -(digits_value(d) as int)
    } else {
        digits_value(d) as int
    };
    if d.len() > 0 && all_digits(d) && i64::MIN <= v <= i64::MAX {
        Some(v as i64)
    } else {
        None
    }
}

/// The value of the digits of `cs` from `start` on, when they are all
/// digits and the value fits a `u64`.
fn digit_run(cs: &Vec<char>, start: usize) -> (r: Option<u64>)
    requires
        start <= cs@.len(),
    ensures
        match r {
            Some(v) => all_digits(cs@.skip(start as int)) && v as nat == digits_value(
                cs@.skip(start as int),
            ),
            None => !all_digits(cs@.skip(start as int)) || digits_value(cs@.skip(start as int))
                > u64::MAX,
        },
{
    let n = cs.len();
    let ghost d = cs@.skip(start as int);
    let mut value: u64 = 0;
    let mut i: usize = start;
    while i < n
        invariant
            start <= i <= n == cs@.len(),
            d == cs@.skip(start as int),
            all_digits(cs@.subrange(start as int, i as int)),
            value as nat == digits_value(cs@.subrange(start as int, i as int)),
        decreases n - i,
    {
        let c = cs[i];
        assert(cs@.subrange(start as int, i + 1).drop_last() =~= cs@.subrange(start as int, i as int));
        if c < '0' || c > '9' {
            assert(d[i - start] == c);
            return None;
        }
        let digit = (c as u32 - 48) as u64;
        proof {
            assert(d.take(i - start + 1) =~= cs@.subrange(start as int, i + 1));
        }
        match value.checked_mul(10) {
            Some(v) => match v.checked_add(digit) {
                Some(w) => {
                    value = w;
                },
                None => {
                    proof {
                        if all_digits(d) {
                            crate::http::lemma_digits_monotone(d, i - start + 1);
                        }
                    }
                    return None;
                },
            },
            None => {
                proof {
                    if all_digits(d) {
                        crate::http::lemma_digits_monotone(d, i - start + 1);
                    }
                }
                return None;
            },
        }
        i = i + 1;
    }
    assert(cs@.subrange(start as int, n as int) =~= d);
    Some(value)
}

/// Parses an `i64` like `str::parse::<i64>`.
pub fn parse_i64(s: &str) -> (r: Option<i64>)
    ensures
        r == parsed_i64(s@),
{
    let cs = chars_of(s);
    let n = cs.len();
    if n == 0 {
        return None;
    }
    let neg = cs[0] == '-';
    let start: usize = if cs[0] == '+' || cs[0] == '-' {
        1
    } else {
        0
    };
    assert(cs@.skip(start as int) =~= if s@.len() > 0 && (s@[0] == '+' || s@[0] == '-') {
        s@.drop_first()
    } else {
        s@
    });
    if start >= n {
        return None;
    }
    match digit_run(&cs, start) {
        None => None,
        Some(m) => {
            if neg {
                if m <= 9223372036854775808 {
                    Some((0i128 - m as i128) as i64)
                } else {
                    None
                }
            } else {
                if m <= 9223372036854775807 {
                    Some(m as i64)
                } else {
                    None
                }
            }
        },
    }
}

/// The permission profile named `v` (its kebab-case name).
pub open spec fn profile_of(v: Seq<char>) -> Option<PermissionProfile> {
    if v == "basic"@ {
        Some(PermissionProfile::Basic)
    } else if v == "contacts-read"@ {
        Some(PermissionProfile::ContactsRead)
    } else if v == "analytics-read"@ {
        Some(PermissionProfile::AnalyticsRead)
    } else if v == "integrations-read"@ {
        Some(PermissionProfile::IntegrationsRead)
    } else if v == "readonly"@ {
        Some(PermissionProfile::Readonly)
    } else if v == "custom"@ {
        Some(PermissionProfile::Custom)
    } else {
        None
    }
}

/// Reads a permission profile name.
pub fn parse_profile(v: &str) -> (r: Option<PermissionProfile>)
    ensures
        r == profile_of(v@),
{
    if str_eq(v, "basic") {
        Some(PermissionProfile::Basic)
    } else if str_eq(v, "contacts-read") {
        Some(PermissionProfile::ContactsRead)
    } else if str_eq(v, "analytics-read") {
        Some(PermissionProfile::AnalyticsRead)
    } else if str_eq(v, "integrations-read") {
        Some(PermissionProfile::IntegrationsRead)
    } else if str_eq(v, "readonly") {
        Some(PermissionProfile::Readonly)
    } else if str_eq(v, "custom") {
        Some(PermissionProfile::Custom)
    } else {
        None
    }
}

/// The export format named `v`.
pub open spec fn format_of(v: Seq<char>) -> Option<ExportFormat> {
    if v == "auto"@ {
        Some(ExportFormat::Auto)
    } else if v == "csv"@ {
        Some(ExportFormat::Csv)
    } else if v == "xlsx"@ {
        Some(ExportFormat::Xlsx)
    } else {
        None
    }
}

/// Reads an export format name.
pub fn parse_format(v: &str) -> (r: Option<ExportFormat>)
    ensures
        r == format_of(v@),
{
    if str_eq(v, "auto") {
        Some(ExportFormat::Auto)
    } else if str_eq(v, "csv") {
        Some(ExportFormat::Csv)
    } else if str_eq(v, "xlsx") {
        Some(ExportFormat::Xlsx)
    } else {
        None
    }
}

/// The artifact type named `v`.
pub open spec fn artifact_of(v: Seq<char>) -> Option<ExportArtifactType> {
    if v == "conversations"@ {
        Some(ExportArtifactType::Conversations)
    } else if v == "contacts"@ {
        Some(ExportArtifactType::Contacts)
    } else if v == "messages"@ {
        Some(ExportArtifactType::Messages)
    } else if v == "manifest"@ {
        Some(ExportArtifactType::Manifest)
    } else if v == "archive"@ {
        Some(ExportArtifactType::Archive)
    } else {
        None
    }
}

/// Reads an artifact type name.
pub fn parse_artifact(v: &str) -> (r: Option<ExportArtifactType>)
    ensures
        r == artifact_of(v@),
{
    if str_eq(v, "conversations") {
        Some(ExportArtifactType::Conversations)
    } else if str_eq(v, "contacts") {
        Some(ExportArtifactType::Contacts)
    } else if str_eq(v, "messages") {
        Some(ExportArtifactType::Messages)
    } else if str_eq(v, "manifest") {
        Some(ExportArtifactType::Manifest)
    } else if str_eq(v, "archive") {
        Some(ExportArtifactType::Archive)
    } else {
        None
    }
}

/// Whether a text is a valid value for an option of this kind.
pub open spec fn valid_value(k: ValueKind, v: Seq<char>) -> bool {
    match k {
        ValueKind::Int64 => parsed_i64(v) is Some,
        ValueKind::Int32 => parsed_i64(v) is Some && i32::MIN <= parsed_i64(v)->Some_0
            <= i32::MAX,
        ValueKind::Nat32 => parsed_i64(v) is Some && 0 <= parsed_i64(v)->Some_0 <= u32::MAX,
        ValueKind::Nat64 => crate::http::parsed_u64(v) is Some,
        ValueKind::Limit => parsed_i64(v) is Some && 1 <= parsed_i64(v)->Some_0 <= 1000,
        ValueKind::Boolean => v == "true"@ || v == "false"@,
        ValueKind::Profile => profile_of(v) is Some,
        ValueKind::Format => format_of(v) is Some,
        ValueKind::Artifacts => forall|i: int|
            0 <= i < split_commas(v).len() ==> (#[trigger] artifact_of(split_commas(v)[i])) is Some,
        _ => true,
    }
}

/// Checks a value for an option of this kind.
pub fn check_value(k: ValueKind, v: &str) -> (r: bool)
    ensures
        r == valid_value(k, v@),
{
    match k {
        ValueKind::Int64 => parse_i64(v).is_some(),
        ValueKind::Int32 => match parse_i64(v) {
            Some(x) => -2147483648 <= x && x <= 2147483647,
            None => false,
        },
        ValueKind::Nat32 => match parse_i64(v) {
            Some(x) => 0 <= x && x <= 4294967295,
            None => false,
        },
        ValueKind::Nat64 => crate::http::parse_u64(v).is_some(),
        ValueKind::Limit => match parse_i64(v) {
            Some(x) => 1 <= x && x <= 1000,
            None => false,
        },
        ValueKind::Boolean => str_eq(v, "true") || str_eq(v, "false"),
        ValueKind::Profile => parse_profile(v).is_some(),
        ValueKind::Format => parse_format(v).is_some(),
        ValueKind::Artifacts => {
            let pieces = split_at_commas(v);
            let mut i: usize = 0;
            while i < pieces.len()
                invariant
                    0 <= i <= pieces@.len(),
                    k == ValueKind::Artifacts,
                    crate::text::views(pieces@) == split_commas(v@),
                    forall|j: int| 0 <= j < i ==> (#[trigger] artifact_of(split_commas(v@)[j])) is Some,
                decreases pieces@.len() - i,
            {
                assert(crate::text::views(pieces@)[i as int] == pieces@[i as int]@);
                if parse_artifact(pieces[i].as_str()).is_none() {
                    assert(artifact_of(split_commas(v@)[i as int]) is None);
                    return false;
                }
                i = i + 1;
            }
            true
        },
        _ => true,
    }
}

// ---------------------------------------------------------------------------
// Reading the arguments
// ---------------------------------------------------------------------------

/// A kind of command-line problem, or a request for help or the version.
#[derive(Debug, Clone, Copy, PartialEq, Eq, Structural)]
pub enum CliErrorKind {
    Help,
    Version,
    UnknownArgument,
    MissingValue,
    UnexpectedValue,
    InvalidValue,
    RepeatedArgument,
    UnknownSubcommand,
    MissingSubcommand,
    MissingArgument,
}

/// Why an argument list was not read into a command: the kind, the
/// argument or option concerned, and the offending value (both empty when
/// they do not apply).
#[derive(Debug, Clone)]
pub struct CliError {
    pub kind: CliErrorKind,
    pub argument: String,
    pub value: String,
}

/// The view of a command-line problem.
pub open spec fn error_view(e: CliError) -> (CliErrorKind, Seq<char>, Seq<char>) {
    (e.kind, e.argument@, e.value@)
}

/// A problem with no argument or value.
pub open spec fn bare(k: CliErrorKind) -> (CliErrorKind, Seq<char>, Seq<char>) {
    (k, Seq::empty(), Seq::empty())
}

/// What has been read so far: where in the command tree, the options in
/// the order given (name and value, none for a flag), the task id, and
/// whether `--` was seen.
pub struct ScanState {
    pub node: Node,
    pub options: Seq<(Seq<char>, Option<Seq<char>>)>,
    pub task_id: Option<Seq<char>>,
    pub raw: bool,
}

/// Before the first argument.
pub open spec fn initial_state() -> ScanState {
    ScanState { node: Node::Top, options: Seq::empty(), task_id: None, raw: false }
}

/// The index of the first `c` in `s` at or after `i` (or the end).
pub open spec fn find_char(s: Seq<char>, c: char, i: int) -> int
    decreases s.len() - i,
{
    if i >= s.len() || (0 <= i && s[i] == c) {
        i
    } else {
        find_char(s, c, i + 1)
    }
}

/// Whether an option named `name` was given already.
pub open spec fn has_option(options: Seq<(Seq<char>, Option<Seq<char>>)>, name: Seq<char>) -> bool {
    exists|j: int| 0 <= j < options.len() && (#[trigger] options[j]).0 == name
}

/// Whether a separate argument can be an option's value: it does not look
/// like an option.
pub open spec fn value_like(t: Seq<char>) -> bool {
    !(t.len() >= 2 && t[0] == '-')
}

/// Whether an argument is a long option (`--name` or `--name=value`).
pub open spec fn is_long(t: Seq<char>) -> bool {
    t.len() > 2 && t[0] == '-' && t[1] == '-'
}

/// Reads a long option at `i`: returns the new state and whether the next
/// argument was its value.
pub open spec fn long_step(toks: Seq<Seq<char>>, i: int, st: ScanState) -> Result<
    (ScanState, bool),
    (CliErrorKind, Seq<char>, Seq<char>),
> {
    let body = toks[i].skip(2);
    let e = find_char(body, '=', 0);
    let name = body.take(e);
    let inline: Option<Seq<char>> = if e < body.len() {
        Some(body.skip(e + 1))
    } else {
        None
    };
    if name == "help"@ {
        Err(bare(CliErrorKind::Help))
    } else if name == "version"@ && st.node == Node::Top {
        Err(bare(CliErrorKind::Version))
    } else {
        match option_kind(st.node, name) {
            None => Err((CliErrorKind::UnknownArgument, "--"@ + name, Seq::empty())),
            Some(ValueKind::Flag) => match inline {
                Some(v) => Err((CliErrorKind::UnexpectedValue, name, v)),
                None => if has_option(st.options, name) {
                    Err((CliErrorKind::RepeatedArgument, name, Seq::empty()))
                } else {
                    Ok((ScanState { options: st.options.push((name, None)), ..st }, false))
                },
            },
            Some(k) => {
                let taken: Option<(Seq<char>, bool)> = match inline {
                    Some(v) => Some((v, false)),
                    None => if i + 1 < toks.len() && value_like(toks[i + 1]) {
                        Some((toks[i + 1], true))
                    } else {
                        None
                    },
                };
                match taken {
                    None => Err((CliErrorKind::MissingValue, name, Seq::empty())),
                    Some((v, two)) => if !repeatable(k) && has_option(st.options, name) {
                        Err((CliErrorKind::RepeatedArgument, name, Seq::empty()))
                    } else if !valid_value(k, v) {
                        Err((CliErrorKind::InvalidValue, name, v))
                    } else {
                        Ok((ScanState { options: st.options.push((name, Some(v))), ..st }, two))
                    },
                }
            },
        }
    }
}

/// Reads a word (a subcommand name or the task id).
pub open spec fn word_step(w: Seq<char>, st: ScanState) -> Result<
    (ScanState, bool),
    (CliErrorKind, Seq<char>, Seq<char>),
> {
    if is_group(st.node) {
        match child(st.node, w) {
            Some(c) => Ok((ScanState { node: c, ..st }, false)),
            None => if w == "help"@ {
                Err(bare(CliErrorKind::Help))
            } else {
                Err((CliErrorKind::UnknownSubcommand, w, Seq::empty()))
            },
        }
    } else if takes_task_id(st.node) && st.task_id is None {
        Ok((ScanState { task_id: Some(w), ..st }, false))
    } else {
        Err((CliErrorKind::UnknownArgument, w, Seq::empty()))
    }
}

/// Reads the argument at `i`.
pub open spec fn step(toks: Seq<Seq<char>>, i: int, st: ScanState) -> Result<
    (ScanState, bool),
    (CliErrorKind, Seq<char>, Seq<char>),
> {
    let t = toks[i];
    if !st.raw && t == "--"@ {
        Ok((ScanState { raw: true, ..st }, false))
    } else if !st.raw && is_long(t) {
        long_step(toks, i, st)
    } else if !st.raw && t.len() >= 2 && t[0] == '-' {
        if t == "-h"@ {
            Err(bare(CliErrorKind::Help))
        } else if t == "-V"@ && st.node == Node::Top {
            Err(bare(CliErrorKind::Version))
        } else {
            Err((CliErrorKind::UnknownArgument, t, Seq::empty()))
        }
    } else {
        word_step(t, st)
    }
}

/// Reads the arguments from `i` on.
pub open spec fn scan(toks: Seq<Seq<char>>, i: int, st: ScanState) -> Result<
    ScanState,
    (CliErrorKind, Seq<char>, Seq<char>),
>
    decreases toks.len() - i,
{
    if i < 0 || i >= toks.len() {
        Ok(st)
    } else {
        match step(toks, i, st) {
            Err(e) => Err(e),
            Ok((st2, two)) => if two && i + 1 < toks.len() {
                scan(toks, i + 2, st2)
            } else {
                scan(toks, i + 1, st2)
            },
        }
    }
}

/// What is still missing once every argument is read: a subcommand, or the
/// task id.
pub open spec fn finish(st: ScanState) -> Result<ScanState, (CliErrorKind, Seq<char>, Seq<char>)> {
    if is_group(st.node) {
        Err(bare(CliErrorKind::MissingSubcommand))
    } else if takes_task_id(st.node) && st.task_id is None {
        Err((CliErrorKind::MissingArgument, "TASK_ID"@, Seq::empty()))
    } else {
        Ok(st)
    }
}

/// Reads an argument list (the program name first).
pub open spec fn read_args(args: Seq<Seq<char>>) -> Result<
    ScanState,
    (CliErrorKind, Seq<char>, Seq<char>),
> {
    let toks = if args.len() > 0 {
        args.drop_first()
    } else {
        args
    };
    match scan(toks, 0, initial_state()) {
        Err(e) => Err(e),
        Ok(st) => finish(st),
    }
}

/// The views of the arguments.
pub open spec fn arg_views(args: Seq<&str>) -> Seq<Seq<char>> {
    args.map_values(|a: &str| a@)
}

/// The reader's state.
struct Scanner {
    node: Node,
    options: Vec<(String, Option<String>)>,
    task_id: Option<String>,
    raw: bool,
}

/// The views of read options.
pub open spec fn option_views(v: Seq<(String, Option<String>)>) -> Seq<(Seq<char>, Option<Seq<char>>)> {
    v.map_values(|o: (String, Option<String>)| (o.0@, crate::text::opt_string_view(o.1)))
}

impl Scanner {
    spec fn state(&self) -> ScanState {
        ScanState {
            node: self.node,
            options: option_views(self.options@),
            task_id: crate::text::opt_string_view(self.task_id),
            raw: self.raw,
        }
    }
}

/// An error with its parts.
fn cli_error(kind: CliErrorKind, argument: &str, value: &str) -> (r: CliError)
    ensures
        error_view(r) == (kind, argument@, value@),
{
    CliError { kind, argument: argument.to_owned(), value: value.to_owned() }
}

/// An error with no argument or value.
fn bare_error(kind: CliErrorKind) -> (r: CliError)
    ensures
        error_view(r) == bare(kind),
{
    let r = CliError { kind, argument: String::new(), value: String::new() };
    assert(r.argument@ =~= Seq::<char>::empty());
    r
}

/// The characters `cs[a..b]` as a string.
fn chars_between(cs: &Vec<char>, a: usize, b: usize) -> (r: String)
    requires
        a <= b <= cs@.len(),
    ensures
        r@ == cs@.subrange(a as int, b as int),
{
    let mut out: Vec<char> = Vec::new();
    let mut i = a;
    while i < b
        invariant
            a <= i <= b <= cs@.len(),
            out@ == cs@.subrange(a as int, i as int),
        decreases b - i,
    {
        out.push(cs[i]);
        assert(out@ =~= cs@.subrange(a as int, i + 1));
        i = i + 1;
    }
    string_from_chars(&out)
}

/// The index of the first `c` in `cs` at or after `i`.
fn find_char_in(cs: &Vec<char>, c: char, i: usize) -> (r: usize)
    requires
        i <= cs@.len(),
    ensures
        r == find_char(cs@, c, i as int),
        i <= r <= cs@.len(),
        r < cs@.len() ==> cs@[r as int] == c,
{
    let mut k = i;
    while k < cs.len() && cs[k] != c
        invariant
            i <= k <= cs@.len(),
            find_char(cs@, c, k as int) == find_char(cs@, c, i as int),
        decreases cs@.len() - k,
    {
        k = k + 1;
    }
    k
}

/// Whether an option named `name` was read already.
fn has_option_in(options: &Vec<(String, Option<String>)>, name: &str) -> (r: bool)
    ensures
        r == has_option(option_views(options@), name@),
{
    let mut j: usize = 0;
    while j < options.len()
        invariant
            0 <= j <= options@.len(),
            forall|m: int| 0 <= m < j ==> (#[trigger] option_views(options@)[m]).0 != name@,
        decreases options@.len() - j,
    {
        if str_eq(options[j].0.as_str(), name) {
            assert(option_views(options@)[j as int].0 == name@);
            return true;
        }
        j = j + 1;
    }
    false
}

/// Records an option.
fn record(sc: &mut Scanner, name: &str, value: Option<String>)
    ensures
        final(sc).state() == (ScanState {
            options: old(sc).state().options.push((name@, crate::text::opt_string_view(value))),
            ..old(sc).state()
        }),
{
    sc.options.push((name.to_owned(), value));
    assert(option_views(sc.options@) =~= option_views(old(sc).options@).push(
        (name@, crate::text::opt_string_view(value)),
    ));
}

/// Reads a long option at `i`; see `long_step`.
fn read_long(toks: &Vec<&str>, i: usize, sc: &mut Scanner) -> (r: Result<bool, CliError>)
    requires
        i < toks@.len(),
        is_long(toks@[i as int]@),
    ensures
        match long_step(arg_views(toks@), i as int, old(sc).state()) {
            Err(e) => r is Err && error_view(r->Err_0) == e,
            Ok((st2, two)) => r == Ok::<bool, CliError>(two) && final(sc).state() == st2,
        },
{
    proof {
        reveal_strlit("");
    }
    let ghost toks_v = arg_views(toks@);
    let cs = chars_of(toks[i]);
    assert(toks_v[i as int] == toks@[i as int]@);
    let n = cs.len();
    let e = find_char_in(&cs, '=', 2);
    let ghost body = cs@.skip(2);
    proof {
        lemma_find_shift(cs@, '=', 2);
    }
    let name = chars_between(&cs, 2, e);
    assert(name@ =~= body.take(e - 2));
    let inline: Option<String> = if e < n {
        let v = chars_between(&cs, e + 1, n);
        assert(v@ =~= body.skip(e - 2 + 1));
        Some(v)
    } else {
        None
    };
    if str_eq(name.as_str(), "help") {
        return Err(bare_error(CliErrorKind::Help));
    }
    if str_eq(name.as_str(), "version") && sc.node == Node::Top {
        return Err(bare_error(CliErrorKind::Version));
    }
    let table = options_table(sc.node);
    match find(&table, name.as_str()) {
        None => {
            let shown = concat2("--", name.as_str());
            Err(cli_error(CliErrorKind::UnknownArgument, shown.as_str(), ""))
        },
        Some(ValueKind::Flag) => match inline {
            Some(v) => Err(cli_error(CliErrorKind::UnexpectedValue, name.as_str(), v.as_str())),
            None => {
                if has_option_in(&sc.options, name.as_str()) {
                    return Err(cli_error(CliErrorKind::RepeatedArgument, name.as_str(), ""));
                }
                record(sc, name.as_str(), None);
                Ok(false)
            },
        },
        Some(k) => {
            let (v, two) = match inline {
                Some(v) => (v, false),
                None => {
                    if toks.len() - i > 1 {
                        let next = toks[i + 1];
                        assert(toks_v[i + 1] == next@);
                        let ncs = chars_of(next);
                        if !(ncs.len() >= 2 && ncs[0] == '-') {
                            (next.to_owned(), true)
                        } else {
                            return Err(cli_error(CliErrorKind::MissingValue, name.as_str(), ""));
                        }
                    } else {
                        return Err(cli_error(CliErrorKind::MissingValue, name.as_str(), ""));
                    }
                },
            };
            let repeatable_kind = k == ValueKind::Texts || k == ValueKind::List || k
                == ValueKind::Artifacts;
            if !repeatable_kind && has_option_in(&sc.options, name.as_str()) {
                return Err(cli_error(CliErrorKind::RepeatedArgument, name.as_str(), ""));
            }
            if !check_value(k, v.as_str()) {
                return Err(cli_error(CliErrorKind::InvalidValue, name.as_str(), v.as_str()));
            }
            record(sc, name.as_str(), Some(v));
            Ok(two)
        },
    }
}

/// Searching a suffix for a character finds what searching the whole from
/// there finds, shifted.
proof fn lemma_find_shift(s: Seq<char>, c: char, k: int)
    requires
        0 <= k <= s.len(),
    ensures
        find_char(s.skip(k), c, 0) == find_char(s, c, k) - k,
{
    lemma_find_shift_from(s, c, k, 0);
}

proof fn lemma_find_shift_from(s: Seq<char>, c: char, k: int, j: int)
    requires
        0 <= k <= s.len(),
        0 <= j <= s.len() - k,
    ensures
        find_char(s.skip(k), c, j) == find_char(s, c, k + j) - k,
    decreases s.len() - k - j,
{
    if j < s.len() - k {
        assert(s.skip(k)[j] == s[k + j]);
        if s[k + j] != c {
            lemma_find_shift_from(s, c, k, j + 1);
        }
    }
}

/// Whether a node is a group (exec form of `is_group`).
fn node_is_group(n: Node) -> (r: bool)
    ensures
        r == is_group(n),
{
    match n {
        Node::Top | Node::Analytics | Node::Contacts | Node::Whatsapp | Node::WabaAssignment
        | Node::Inbox | Node::Conversations | Node::Exports | Node::Integrations
        | Node::Tenants => true,
        _ => false,
    }
}

/// Reads a word; see `word_step`.
fn read_word(w: &str, sc: &mut Scanner) -> (r: Result<bool, CliError>)
    ensures
        match word_step(w@, old(sc).state()) {
            Err(e) => r is Err && error_view(r->Err_0) == e,
            Ok((st2, two)) => r == Ok::<bool, CliError>(two) && final(sc).state() == st2,
        },
{
    proof {
        reveal_strlit("");
    }
    if node_is_group(sc.node) {
        let table = children_table(sc.node);
        match find(&table, w) {
            Some(c) => {
                sc.node = c;
                Ok(false)
            },
            None => {
                if str_eq(w, "help") {
                    Err(bare_error(CliErrorKind::Help))
                } else {
                    Err(cli_error(CliErrorKind::UnknownSubcommand, w, ""))
                }
            },
        }
    } else if (sc.node == Node::Query || sc.node == Node::Retry || sc.node == Node::Download)
        && sc.task_id.is_none() {
        sc.task_id = Some(w.to_owned());
        Ok(false)
    } else {
        Err(cli_error(CliErrorKind::UnknownArgument, w, ""))
    }
}

/// Reads the argument at `i`; see `step`.
fn read_step(toks: &Vec<&str>, i: usize, sc: &mut Scanner) -> (r: Result<bool, CliError>)
    requires
        i < toks@.len(),
    ensures
        match step(arg_views(toks@), i as int, old(sc).state()) {
            Err(e) => r is Err && error_view(r->Err_0) == e,
            Ok((st2, two)) => r == Ok::<bool, CliError>(two) && final(sc).state() == st2,
        },
{
    proof {
        reveal_strlit("");
        reveal_strlit("--");
        reveal_strlit("-h");
        reveal_strlit("-V");
    }
    let t = toks[i];
    assert(arg_views(toks@)[i as int] == t@);
    let cs = chars_of(t);
    let n = cs.len();
    if !sc.raw && str_eq(t, "--") {
        sc.raw = true;
        return Ok(false);
    }
    if !sc.raw && n > 2 && cs[0] == '-' && cs[1] == '-' {
        return read_long(toks, i, sc);
    }
    if !sc.raw && n >= 2 && cs[0] == '-' {
        if str_eq(t, "-h") {
            return Err(bare_error(CliErrorKind::Help));
        }
        if str_eq(t, "-V") && sc.node == Node::Top {
            return Err(bare_error(CliErrorKind::Version));
        }
        return Err(cli_error(CliErrorKind::UnknownArgument, t, ""));
    }
    read_word(t, sc)
}

/// Reads a whole argument list (the program name first); see `read_args`.
fn read_all(args: &[&str]) -> (r: Result<Scanner, CliError>)
    ensures
        match read_args(arg_views(args@)) {
            Err(e) => r is Err && error_view(r->Err_0) == e,
            Ok(st) => r is Ok && r->Ok_0.state() == st,
        },
{
    proof {
        reveal_strlit("");
        reveal_strlit("TASK_ID");
    }
    let mut toks: Vec<&str> = Vec::new();
    let mut j: usize = 1;
    while j < args.len()
        invariant
            1 <= j,
            args@.len() > 0 ==> j <= args@.len(),
            args@.len() > 0 ==> arg_views(toks@) == arg_views(args@).drop_first().take(j - 1),
            args@.len() == 0 ==> toks@.len() == 0,
        decreases args@.len() - j,
    {
        toks.push(args[j]);
        assert(arg_views(toks@) =~= arg_views(args@).drop_first().take(j as int));
        j = j + 1;
    }
    let ghost tv = arg_views(toks@);
    proof {
        if args@.len() > 0 {
            assert(tv =~= arg_views(args@).drop_first());
        } else {
            assert(tv =~= arg_views(args@));
        }
    }
    let mut sc = Scanner { node: Node::Top, options: Vec::new(), task_id: None, raw: false };
    assert(sc.state().options =~= initial_state().options);
    let mut i: usize = 0;
    while i < toks.len()
        invariant
            i <= toks@.len(),
            tv == arg_views(toks@),
            args@.len() > 0 ==> tv == arg_views(args@).drop_first(),
            args@.len() == 0 ==> tv == arg_views(args@),
            scan(tv, 0, initial_state()) == scan(tv, i as int, sc.state()),
        decreases toks@.len() - i,
    {
        let ghost before = sc.state();
        match read_step(&toks, i, &mut sc) {
            Err(e) => {
                return Err(e);
            },
            Ok(two) => {
                if two && toks.len() - i > 1 {
                    i = i + 2;
                } else {
                    i = i + 1;
                }
            },
        }
    }
    if node_is_group(sc.node) {
        return Err(bare_error(CliErrorKind::MissingSubcommand));
    }
    if (sc.node == Node::Query || sc.node == Node::Retry || sc.node == Node::Download)
        && sc.task_id.is_none() {
        return Err(cli_error(CliErrorKind::MissingArgument, "TASK_ID", ""));
    }
    Ok(sc)
}

// ---------------------------------------------------------------------------
// From options to arguments
// ---------------------------------------------------------------------------

/// The options read, in order.
pub type Opts = Seq<(Seq<char>, Option<Seq<char>>)>;

/// The value of the option `name` (the last one given; an option that
/// takes one value is given at most once).
pub open spec fn value_of(o: Opts, name: Seq<char>) -> Option<Seq<char>>
    decreases o.len(),
{
    if o.len() == 0 {
        None
    } else if o.last().0 == name {
        o.last().1
    } else {
        value_of(o.drop_last(), name)
    }
}

/// The value of an occurrence, empty for a flag.
pub open spec fn value_text(v: Option<Seq<char>>) -> Seq<char> {
    match v {
        Some(t) => t,
        None => Seq::empty(),
    }
}

/// The values of every occurrence of `name`, in order.
pub open spec fn texts_of(o: Opts, name: Seq<char>) -> Seq<Seq<char>>
    decreases o.len(),
{
    if o.len() == 0 {
        Seq::empty()
    } else if o.last().0 == name {
        texts_of(o.drop_last(), name).push(value_text(o.last().1))
    } else {
        texts_of(o.drop_last(), name)
    }
}

/// The comma-separated pieces of every occurrence of `name`, in order.
pub open spec fn list_of(o: Opts, name: Seq<char>) -> Seq<Seq<char>>
    decreases o.len(),
{
    if o.len() == 0 {
        Seq::empty()
    } else if o.last().0 == name {
        list_of(o.drop_last(), name) + split_commas(value_text(o.last().1))
    } else {
        list_of(o.drop_last(), name)
    }
}

/// The `i64` value of `name`, when given.
pub open spec fn i64_of(o: Opts, name: Seq<char>) -> Option<i64> {
    match value_of(o, name) {
        Some(v) => parsed_i64(v),
        None => None,
    }
}

/// The `i32` value of `name`, when given.
pub open spec fn i32_of(o: Opts, name: Seq<char>) -> Option<i32> {
    match i64_of(o, name) {
        Some(x) => Some(x as i32),
        None => None,
    }
}

/// The `u32` value of `name`, or the default.
pub open spec fn u32_of(o: Opts, name: Seq<char>, default: u32) -> u32 {
    match i64_of(o, name) {
        Some(x) => x as u32,
        None => default,
    }
}

/// The `u64` value of `name`, or the default.
pub open spec fn u64_of(o: Opts, name: Seq<char>, default: u64) -> u64 {
    match value_of(o, name) {
        Some(v) => match crate::http::parsed_u64(v) {
            Some(x) => x,
            None => default,
        },
        None => default,
    }
}

/// The boolean value of `name`, when given.
pub open spec fn bool_of(o: Opts, name: Seq<char>) -> Option<bool> {
    match value_of(o, name) {
        Some(v) => Some(v == "true"@),
        None => None,
    }
}

/// The text value of `name`, or the default.
pub open spec fn text_or(o: Opts, name: Seq<char>, default: Seq<char>) -> Seq<char> {
    match value_of(o, name) {
        Some(v) => v,
        None => default,
    }
}

/// The profile given, `basic` by default.
pub open spec fn profile_given(o: Opts) -> PermissionProfile {
    match value_of(o, "profile"@) {
        Some(v) => match profile_of(v) {
            Some(p) => p,
            None => PermissionProfile::Basic,
        },
        None => PermissionProfile::Basic,
    }
}

/// The export format given, `auto` by default.
pub open spec fn format_given(o: Opts) -> ExportFormat {
    match value_of(o, "format"@) {
        Some(v) => match format_of(v) {
            Some(f) => f,
            None => ExportFormat::Auto,
        },
        None => ExportFormat::Auto,
    }
}

/// The artifact type a checked name stands for.
pub open spec fn artifact_named(v: Seq<char>) -> ExportArtifactType {
    match artifact_of(v) {
        Some(a) => a,
        None => ExportArtifactType::Conversations,
    }
}

/// The artifact types given, in order.
pub open spec fn artifacts_given(o: Opts) -> Seq<ExportArtifactType> {
    list_of(o, "artifact"@).map_values(|v: Seq<char>| artifact_named(v))
}

/// The value of an option read (exec form of `value_of`).
fn value_in(options: &Vec<(String, Option<String>)>, name: &str) -> (r: Option<String>)
    ensures
        crate::text::opt_string_view(r) == value_of(option_views(options@), name@),
{
    let mut k = options.len();
    assert(options@.take(k as int) =~= options@);
    while k > 0
        invariant
            k <= options@.len(),
            value_of(option_views(options@), name@) == value_of(
                option_views(options@.take(k as int)),
                name@,
            ),
        decreases k,
    {
        let ghost o = option_views(options@.take(k as int));
        assert(o.drop_last() =~= option_views(options@.take(k - 1)));
        assert(o.last() == (options@[k - 1].0@, crate::text::opt_string_view(options@[k - 1].1)));
        if str_eq(options[k - 1].0.as_str(), name) {
            return crate::text::clone_opt(&options[k - 1].1);
        }
        k = k - 1;
    }
    None
}

/// The values of every occurrence of an option (exec form of `texts_of`).
fn texts_in(options: &Vec<(String, Option<String>)>, name: &str) -> (r: Vec<String>)
    ensures
        crate::text::views(r@) == texts_of(option_views(options@), name@),
{
    let mut r: Vec<String> = Vec::new();
    let mut i: usize = 0;
    while i < options.len()
        invariant
            i <= options@.len(),
            crate::text::views(r@) == texts_of(option_views(options@.take(i as int)), name@),
        decreases options@.len() - i,
    {
        let ghost o = option_views(options@.take(i + 1));
        assert(o.drop_last() =~= option_views(options@.take(i as int)));
        assert(o.last() == (options@[i as int].0@, crate::text::opt_string_view(options@[i as int].1)));
        if str_eq(options[i].0.as_str(), name) {
            let v = crate::text::opt_text_owned(&options[i].1);
            let ghost before = r@;
            r.push(v);
            assert(crate::text::views(r@) =~= crate::text::views(before).push(v@));
        }
        i = i + 1;
    }
    assert(options@.take(options@.len() as int) =~= options@);
    r
}

/// The comma-separated pieces of every occurrence of an option (exec form
/// of `list_of`).
fn list_in(options: &Vec<(String, Option<String>)>, name: &str) -> (r: Vec<String>)
    ensures
        crate::text::views(r@) == list_of(option_views(options@), name@),
{
    let mut r: Vec<String> = Vec::new();
    let mut i: usize = 0;
    while i < options.len()
        invariant
            i <= options@.len(),
            crate::text::views(r@) == list_of(option_views(options@.take(i as int)), name@),
        decreases options@.len() - i,
    {
        let ghost o = option_views(options@.take(i + 1));
        assert(o.drop_last() =~= option_views(options@.take(i as int)));
        assert(o.last() == (options@[i as int].0@, crate::text::opt_string_view(options@[i as int].1)));
        if str_eq(options[i].0.as_str(), name) {
            let v = crate::text::opt_text_owned(&options[i].1);
            let mut pieces = split_at_commas(v.as_str());
            let ghost before = crate::text::views(r@);
            let ghost added = crate::text::views(pieces@);
            r.append(&mut pieces);
            assert(crate::text::views(r@) =~= before + added);
        }
        i = i + 1;
    }
    assert(options@.take(options@.len() as int) =~= options@);
    r
}

/// The `i64` value of an option.
fn i64_in(options: &Vec<(String, Option<String>)>, name: &str) -> (r: Option<i64>)
    ensures
        r == i64_of(option_views(options@), name@),
{
    match value_in(options, name) {
        Some(v) => parse_i64(v.as_str()),
        None => None,
    }
}

/// The `i32` value of an option.
fn i32_in(options: &Vec<(String, Option<String>)>, name: &str) -> (r: Option<i32>)
    ensures
        r == i32_of(option_views(options@), name@),
{
    match i64_in(options, name) {
        Some(x) => Some(x as i32),
        None => None,
    }
}

/// The `u32` value of an option, or the default.
fn u32_in(options: &Vec<(String, Option<String>)>, name: &str, default: u32) -> (r: u32)
    ensures
        r == u32_of(option_views(options@), name@, default),
{
    match i64_in(options, name) {
        Some(x) => x as u32,
        None => default,
    }
}

/// The `u64` value of an option, or the default.
fn u64_in(options: &Vec<(String, Option<String>)>, name: &str, default: u64) -> (r: u64)
    ensures
        r == u64_of(option_views(options@), name@, default),
{
    match value_in(options, name) {
        Some(v) => match crate::http::parse_u64(v.as_str()) {
            Some(x) => x,
            None => default,
        },
        None => default,
    }
}

/// The boolean value of an option.
fn bool_in(options: &Vec<(String, Option<String>)>, name: &str) -> (r: Option<bool>)
    ensures
        r == bool_of(option_views(options@), name@),
{
    match value_in(options, name) {
        Some(v) => Some(str_eq(v.as_str(), "true")),
        None => None,
    }
}

/// The text value of an option, or the default.
fn text_in(options: &Vec<(String, Option<String>)>, name: &str, default: &str) -> (r: String)
    ensures
        r@ == text_or(option_views(options@), name@, default@),
{
    match value_in(options, name) {
        Some(v) => v,
        None => default.to_owned(),
    }
}

/// The profile given.
fn profile_in(options: &Vec<(String, Option<String>)>) -> (r: PermissionProfile)
    ensures
        r == profile_given(option_views(options@)),
{
    match value_in(options, "profile") {
        Some(v) => match parse_profile(v.as_str()) {
            Some(p) => p,
            None => PermissionProfile::Basic,
        },
        None => PermissionProfile::Basic,
    }
}

/// The export format given.
fn format_in(options: &Vec<(String, Option<String>)>) -> (r: ExportFormat)
    ensures
        r == format_given(option_views(options@)),
{
    match value_in(options, "format") {
        Some(v) => match parse_format(v.as_str()) {
            Some(f) => f,
            None => ExportFormat::Auto,
        },
        None => ExportFormat::Auto,
    }
}

/// The artifact types given.
fn artifacts_in(options: &Vec<(String, Option<String>)>) -> (r: Vec<ExportArtifactType>)
    ensures
        r@ == artifacts_given(option_views(options@)),
{
    let names = list_in(options, "artifact");
    let mut r: Vec<ExportArtifactType> = Vec::new();
    let mut i: usize = 0;
    while i < names.len()
        invariant
            i <= names@.len(),
            crate::text::views(names@) == list_of(option_views(options@), "artifact"@),
            r@ == crate::text::views(names@).take(i as int).map_values(
                |v: Seq<char>| artifact_named(v),
            ),
        decreases names@.len() - i,
    {
        let a = match parse_artifact(names[i].as_str()) {
            Some(a) => a,
            None => ExportArtifactType::Conversations,
        };
        r.push(a);
        assert(crate::text::views(names@)[i as int] == names@[i as int]@);
        assert(r@ =~= crate::text::views(names@).take(i + 1).map_values(
            |v: Seq<char>| artifact_named(v),
        ));
        i = i + 1;
    }
    assert(crate::text::views(names@).take(names@.len() as int) =~= crate::text::views(names@));
    r
}

/// The arguments of `login` read from the options.
pub open spec fn login_built(a: LoginArgs, o: Opts) -> bool {
    &&& a.profile == profile_given(o)
    &&& views(a.permissions@) == texts_of(o, "permission"@)
    &&& opt_string_view(a.code) == value_of(o, "code"@)
    &&& opt_string_view(a.code_verifier) == value_of(o, "code-verifier"@)
    &&& opt_string_view(a.state) == value_of(o, "state"@)
    &&& a.manual == has_option(o, "manual"@)
}

/// A time range read from the options.
pub open spec fn range_built(a: AnalyticsRangeArgs, o: Opts) -> bool {
    &&& a.start_time == i64_of(o, "start-time"@)
    &&& a.end_time == i64_of(o, "end-time"@)
}

/// The arguments of `analytics overview`.
pub open spec fn overview_built(a: AnalyticsOverviewArgs, o: Opts) -> bool {
    &&& range_built(a.range, o)
    &&& a.timezone@ == text_or(o, "timezone"@, "Asia/Shanghai"@)
    &&& opt_string_view(a.from) == value_of(o, "from"@)
    &&& opt_string_view(a.region_code) == value_of(o, "region-code"@)
    &&& opt_string_view(a.message_category) == value_of(o, "message-category"@)
}

/// The arguments of `analytics logs`.
pub open spec fn logs_built(a: AnalyticsLogsArgs, o: Opts) -> bool {
    &&& range_built(a.range, o)
    &&& a.page_no == u32_of(o, "page-no"@, 1)
    &&& a.page_size == u32_of(o, "page-size"@, 20)
    &&& opt_string_view(a.condition) == value_of(o, "condition"@)
    &&& a.direction@ == text_or(o, "direction"@, "OutBound"@)
    &&& opt_string_view(a.from) == value_of(o, "from"@)
    &&& views(a.business_phones@) == list_of(o, "business-phones"@)
    &&& views(a.to_region_codes@) == list_of(o, "to-region-codes"@)
    &&& opt_string_view(a.status) == value_of(o, "status"@)
    &&& opt_string_view(a.source) == value_of(o, "source"@)
    &&& views(a.pricing_category@) == list_of(o, "pricing-category"@)
    &&& a.timezone@ == text_or(o, "timezone"@, "GMT+8"@)
}

/// The arguments of `analytics calling-logs`.
pub open spec fn calling_logs_built(a: AnalyticsCallingLogsArgs, o: Opts) -> bool {
    &&& range_built(a.range, o)
    &&& a.page_no == u32_of(o, "page-no"@, 1)
    &&& a.page_size == u32_of(o, "page-size"@, 20)
    &&& opt_string_view(a.condition) == value_of(o, "condition"@)
    &&& views(a.directions@) == list_of(o, "directions"@)
    &&& views(a.region_codes@) == list_of(o, "region-codes"@)
    &&& views(a.sources@) == list_of(o, "sources"@)
    &&& views(a.status@) == list_of(o, "status"@)
    &&& views(a.phone_number_ids@) == list_of(o, "phone-number-ids"@)
}

/// The arguments of `contacts list`.
pub open spec fn contacts_list_built(a: ContactsListArgs, o: Opts) -> bool {
    &&& a.page_no == u32_of(o, "page-no"@, 1)
    &&& a.page_size == u32_of(o, "page-size"@, 10)
    &&& opt_string_view(a.condition) == value_of(o, "condition"@)
}

/// The conversation filter.
pub open spec fn filter_built(f: ConversationFilterArgs, o: Opts) -> bool {
    &&& views(f.inbox_ids@) == list_of(o, "inbox-id"@)
    &&& views(f.assignee_ids@) == list_of(o, "assignee-id"@)
    &&& views(f.conversation_tag_ids@) == list_of(o, "conversation-tag-id"@)
    &&& views(f.contact_tag_ids@) == list_of(o, "contact-tag-id"@)
    &&& f.status == i32_of(o, "status"@)
    &&& opt_string_view(f.condition) == value_of(o, "condition"@)
    &&& f.start_time == i64_of(o, "start-time"@)
    &&& f.end_time == i64_of(o, "end-time"@)
    &&& f.close_start_time == i64_of(o, "close-start-time"@)
    &&& f.close_end_time == i64_of(o, "close-end-time"@)
    &&& f.csat == i32_of(o, "csat"@)
    &&& f.customer == bool_of(o, "customer"@)
}

/// How to wait for an export.
pub open spec fn wait_built(w: ExportWaitArgs, o: Opts) -> bool {
    &&& w.no_wait == has_option(o, "no-wait"@)
    &&& w.output_dir@ == text_or(o, "output-dir"@, "."@)
    &&& w.artifacts@ == artifacts_given(o)
    &&& w.timeout_seconds == u64_of(o, "timeout-seconds"@, 3600)
    &&& w.json == has_option(o, "json"@)
}

/// The arguments of `contacts export`.
pub open spec fn contact_export_built(a: ContactExportArgs, o: Opts) -> bool {
    &&& opt_string_view(a.condition) == value_of(o, "condition"@)
    &&& opt_string_view(a.segment_id) == value_of(o, "segment-id"@)
    &&& a.blocked == bool_of(o, "blocked"@)
    &&& views(a.columns@) == list_of(o, "columns"@)
    &&& a.format == format_given(o)
    &&& a.archive == has_option(o, "archive"@)
    &&& a.timezone@ == text_or(o, "timezone"@, "GMT"@)
    &&& opt_string_view(a.file_name) == value_of(o, "file-name"@)
    &&& opt_string_view(a.idempotency_key) == value_of(o, "idempotency-key"@)
    &&& wait_built(a.wait, o)
}

/// The arguments of `inbox conversations search`.
pub open spec fn search_built(a: ConversationSearchArgs, o: Opts) -> bool {
    &&& filter_built(a.filter, o)
    &&& opt_string_view(a.cursor) == value_of(o, "cursor"@)
    &&& a.limit == u32_of(o, "limit"@, 100)
    &&& a.json == has_option(o, "json"@)
}

/// The arguments of `inbox conversations export`.
pub open spec fn conversation_export_built(a: ConversationExportArgs, o: Opts) -> bool {
    &&& filter_built(a.filter, o)
    &&& views(a.columns@) == list_of(o, "columns"@)
    &&& a.format == format_given(o)
    &&& a.no_contacts == has_option(o, "no-contacts"@)
    &&& a.archive == has_option(o, "archive"@)
    &&& a.timezone@ == text_or(o, "timezone"@, "GMT"@)
    &&& opt_string_view(a.file_name) == value_of(o, "file-name"@)
    &&& opt_string_view(a.idempotency_key) == value_of(o, "idempotency-key"@)
    &&& wait_built(a.wait, o)
}

/// The task id read.
pub open spec fn task_id_text(st: ScanState) -> Seq<char> {
    value_text(st.task_id)
}

/// The command read.
pub open spec fn command_built(c: Command, st: ScanState) -> bool {
    let o = st.options;
    match st.node {
        Node::Login => c matches Command::Login(a) && login_built(a, o),
        Node::Whoami => c is Whoami,
        Node::Refresh => c is Refresh,
        Node::Logout => c is Logout,
        Node::Outline => c matches Command::Analytics { command: AnalyticsCommand::Outline(a) }
            && range_built(a, o),
        Node::Overview => c matches Command::Analytics { command: AnalyticsCommand::Overview(a) }
            && overview_built(a, o),
        Node::Logs => c matches Command::Analytics { command: AnalyticsCommand::Logs(a) }
            && logs_built(a, o),
        Node::CallingLogs => c matches Command::Analytics {
            command: AnalyticsCommand::CallingLogs(a),
        } && calling_logs_built(a, o),
        Node::ContactsList => c matches Command::Contacts { command: ContactsCommand::List(a) }
            && contacts_list_built(a, o),
        Node::Metadata => c matches Command::Contacts { command: ContactsCommand::Metadata },
        Node::ContactsExport => c matches Command::Contacts {
            command: ContactsCommand::Export(a),
        } && contact_export_built(a, o),
        Node::WabaList => c matches Command::Whatsapp {
            command: WhatsappCommand::WabaAssignment { command: WabaAssignmentCommand::List(a) },
        } && opt_string_view(a.waba_id) == value_of(o, "waba-id"@) && a.json == has_option(
            o,
            "json"@,
        ),
        Node::Search => c matches Command::Inbox {
            command: InboxCommand::Conversations { command: InboxConversationsCommand::Search(a) },
        } && search_built(a, o),
        Node::ConversationsExport => c matches Command::Inbox {
            command: InboxCommand::Conversations { command: InboxConversationsCommand::Export(a) },
        } && conversation_export_built(a, o),
        Node::Query => c matches Command::Exports { command: ExportsCommand::Query(a) }
            && a.task_id@ == task_id_text(st) && a.json == has_option(o, "json"@),
        Node::Retry => c matches Command::Exports { command: ExportsCommand::Retry(a) }
            && a.task_id@ == task_id_text(st) && opt_string_view(a.idempotency_key) == value_of(
            o,
            "idempotency-key"@,
        ) && wait_built(a.wait, o),
        Node::Download => c matches Command::Exports { command: ExportsCommand::Download(a) }
            && a.task_id@ == task_id_text(st) && a.artifacts@ == artifacts_given(o)
            && a.output_dir@ == text_or(o, "output-dir"@, "."@) && a.json == has_option(o, "json"@),
        Node::IntegrationsStatus => c matches Command::Integrations {
            command: IntegrationsCommand::Status,
        },
        Node::TenantsList => c matches Command::Tenants { command: TenantsCommand::List },
        _ => false,
    }
}

/// The command line read, with the environment's values for the options
/// that read one when they are not given.
pub open spec fn cli_built(
    cli: Cli,
    st: ScanState,
    dashboard_env: Option<Seq<char>>,
    config_env: Option<Seq<char>>,
) -> bool {
    &&& opt_string_view(cli.dashboard_url) == match value_of(st.options, "dashboard-url"@) {
        Some(v) => Some(v),
        None => dashboard_env,
    }
    &&& opt_string_view(cli.config) == match value_of(st.options, "config"@) {
        Some(v) => Some(v),
        None => config_env,
    }
    &&& cli.automation == has_option(st.options, "automation"@)
    &&& command_built(cli.command, st)
}

/// The wait arguments.
fn build_wait(o: &Vec<(String, Option<String>)>) -> (r: ExportWaitArgs)
    ensures
        wait_built(r, option_views(o@)),
{
    ExportWaitArgs {
        no_wait: has_option_in(o, "no-wait"),
        output_dir: text_in(o, "output-dir", "."),
        artifacts: artifacts_in(o),
        timeout_seconds: u64_in(o, "timeout-seconds", 3600),
        json: has_option_in(o, "json"),
    }
}

/// The conversation filter.
fn build_filter(o: &Vec<(String, Option<String>)>) -> (r: ConversationFilterArgs)
    ensures
        filter_built(r, option_views(o@)),
{
    ConversationFilterArgs {
        inbox_ids: list_in(o, "inbox-id"),
        assignee_ids: list_in(o, "assignee-id"),
        conversation_tag_ids: list_in(o, "conversation-tag-id"),
        contact_tag_ids: list_in(o, "contact-tag-id"),
        status: i32_in(o, "status"),
        condition: value_in(o, "condition"),
        start_time: i64_in(o, "start-time"),
        end_time: i64_in(o, "end-time"),
        close_start_time: i64_in(o, "close-start-time"),
        close_end_time: i64_in(o, "close-end-time"),
        csat: i32_in(o, "csat"),
        customer: bool_in(o, "customer"),
    }
}

/// A time range.
fn build_range(o: &Vec<(String, Option<String>)>) -> (r: AnalyticsRangeArgs)
    ensures
        range_built(r, option_views(o@)),
{
    AnalyticsRangeArgs { start_time: i64_in(o, "start-time"), end_time: i64_in(o, "end-time") }
}

/// The task id read.
fn task_id_of(sc: &Scanner) -> (r: String)
    ensures
        r@ == task_id_text(sc.state()),
{
    crate::text::opt_text_owned(&sc.task_id)
}

/// The command a finished read stands for.
fn build_command(sc: &Scanner) -> (r: Command)
    requires
        !is_group(sc.state().node),
    ensures
        command_built(r, sc.state()),
{
    let o = &sc.options;
    match sc.node {
        Node::Login => Command::Login(
            LoginArgs {
                profile: profile_in(o),
                permissions: texts_in(o, "permission"),
                code: value_in(o, "code"),
                code_verifier: value_in(o, "code-verifier"),
                state: value_in(o, "state"),
                manual: has_option_in(o, "manual"),
            },
        ),
        Node::Whoami => Command::Whoami,
        Node::Refresh => Command::Refresh,
        Node::Logout => Command::Logout,
        Node::Outline => Command::Analytics { command: AnalyticsCommand::Outline(build_range(o)) },
        Node::Overview => Command::Analytics {
            command: AnalyticsCommand::Overview(
                AnalyticsOverviewArgs {
                    range: build_range(o),
                    timezone: text_in(o, "timezone", "Asia/Shanghai"),
                    from: value_in(o, "from"),
                    region_code: value_in(o, "region-code"),
                    message_category: value_in(o, "message-category"),
                },
            ),
        },
        Node::Logs => Command::Analytics {
            command: AnalyticsCommand::Logs(
                AnalyticsLogsArgs {
                    range: build_range(o),
                    page_no: u32_in(o, "page-no", 1),
                    page_size: u32_in(o, "page-size", 20),
                    condition: value_in(o, "condition"),
                    direction: text_in(o, "direction", "OutBound"),
                    from: value_in(o, "from"),
                    business_phones: list_in(o, "business-phones"),
                    to_region_codes: list_in(o, "to-region-codes"),
                    status: value_in(o, "status"),
                    source: value_in(o, "source"),
                    pricing_category: list_in(o, "pricing-category"),
                    timezone: text_in(o, "timezone", "GMT+8"),
                },
            ),
        },
        Node::CallingLogs => Command::Analytics {
            command: AnalyticsCommand::CallingLogs(
                AnalyticsCallingLogsArgs {
                    range: build_range(o),
                    page_no: u32_in(o, "page-no", 1),
                    page_size: u32_in(o, "page-size", 20),
                    condition: value_in(o, "condition"),
                    directions: list_in(o, "directions"),
                    region_codes: list_in(o, "region-codes"),
                    sources: list_in(o, "sources"),
                    status: list_in(o, "status"),
                    phone_number_ids: list_in(o, "phone-number-ids"),
                },
            ),
        },
        Node::ContactsList => Command::Contacts {
            command: ContactsCommand::List(
                ContactsListArgs {
                    page_no: u32_in(o, "page-no", 1),
                    page_size: u32_in(o, "page-size", 10),
                    condition: value_in(o, "condition"),
                },
            ),
        },
        Node::Metadata => Command::Contacts { command: ContactsCommand::Metadata },
        Node::ContactsExport => Command::Contacts {
            command: ContactsCommand::Export(
                ContactExportArgs {
                    condition: value_in(o, "condition"),
                    segment_id: value_in(o, "segment-id"),
                    blocked: bool_in(o, "blocked"),
                    columns: list_in(o, "columns"),
                    format: format_in(o),
                    archive: has_option_in(o, "archive"),
                    timezone: text_in(o, "timezone", "GMT"),
                    file_name: value_in(o, "file-name"),
                    idempotency_key: value_in(o, "idempotency-key"),
                    wait: build_wait(o),
                },
            ),
        },
        Node::WabaList => Command::Whatsapp {
            command: WhatsappCommand::WabaAssignment {
                command: WabaAssignmentCommand::List(
                    WabaAssignmentListArgs {
                        waba_id: value_in(o, "waba-id"),
                        json: has_option_in(o, "json"),
                    },
                ),
            },
        },
        Node::Search => Command::Inbox {
            command: InboxCommand::Conversations {
                command: InboxConversationsCommand::Search(
                    ConversationSearchArgs {
                        filter: build_filter(o),
                        cursor: value_in(o, "cursor"),
                        limit: u32_in(o, "limit", 100),
                        json: has_option_in(o, "json"),
                    },
                ),
            },
        },
        Node::ConversationsExport => Command::Inbox {
            command: InboxCommand::Conversations {
                command: InboxConversationsCommand::Export(
                    ConversationExportArgs {
                        filter: build_filter(o),
                        columns: list_in(o, "columns"),
                        format: format_in(o),
                        no_contacts: has_option_in(o, "no-contacts"),
                        archive: has_option_in(o, "archive"),
                        timezone: text_in(o, "timezone", "GMT"),
                        file_name: value_in(o, "file-name"),
                        idempotency_key: value_in(o, "idempotency-key"),
                        wait: build_wait(o),
                    },
                ),
            },
        },
        Node::Query => Command::Exports {
            command: ExportsCommand::Query(
                ExportTaskArgs { task_id: task_id_of(sc), json: has_option_in(o, "json") },
            ),
        },
        Node::Retry => Command::Exports {
            command: ExportsCommand::Retry(
                ExportRetryArgs {
                    task_id: task_id_of(sc),
                    idempotency_key: value_in(o, "idempotency-key"),
                    wait: build_wait(o),
                },
            ),
        },
        Node::Download => Command::Exports {
            command: ExportsCommand::Download(
                ExportDownloadArgs {
                    task_id: task_id_of(sc),
                    artifacts: artifacts_in(o),
                    output_dir: text_in(o, "output-dir", "."),
                    json: has_option_in(o, "json"),
                },
            ),
        },
        Node::IntegrationsStatus => Command::Integrations { command: IntegrationsCommand::Status },
        _ => Command::Tenants { command: TenantsCommand::List },
    }
}

impl Cli {
    /// Reads an argument list, the program name first, with the values of
    /// `YCLOUD_DASHBOARD_URL` and `YCLOUD_CONFIG` for the options that are
    /// not given. See the module documentation for the grammar.
    pub fn try_parse_from_env(
        args: &[&str],
        dashboard_env: Option<String>,
        config_env: Option<String>,
    ) -> (r: Result<Cli, CliError>)
        ensures
            match read_args(arg_views(args@)) {
                Err(e) => r is Err && error_view(r->Err_0) == e,
                Ok(st) => r is Ok && cli_built(
                    r->Ok_0,
                    st,
                    opt_string_view(dashboard_env),
                    opt_string_view(config_env),
                ),
            },
    {
        let sc = match read_all(args) {
            Ok(sc) => sc,
            Err(e) => {
                return Err(e);
            },
        };
        let dashboard_url = match value_in(&sc.options, "dashboard-url") {
            Some(v) => Some(v),
            None => dashboard_env,
        };
        let config = match value_in(&sc.options, "config") {
            Some(v) => Some(v),
            None => config_env,
        };
        let automation = has_option_in(&sc.options, "automation");
        let command = build_command(&sc);
        Ok(Cli { dashboard_url, config, automation, command })
    }

    /// Reads an argument list, the program name first, without consulting
    /// the environment.
    pub fn try_parse_from(args: &[&str]) -> (r: Result<Cli, CliError>)
        ensures
            match read_args(arg_views(args@)) {
                Err(e) => r is Err && error_view(r->Err_0) == e,
                Ok(st) => r is Ok && cli_built(r->Ok_0, st, None, None),
            },
    {
        Cli::try_parse_from_env(args, None, None)
    }
}

} // verus!
