//! The command-line interface: parsed commands and their arguments, the
//! wire names of the enumerations, and the choice of invocation mode.

use vstd::prelude::*;

use crate::http::InvocationMode;

verus! {

/// The Dashboard that `ycloud` talks to when none is given.
pub const DEFAULT_DASHBOARD_URL: &'static str = "https://www.ycloud.com";

/// A parsed command line. Paths are kept as text.
#[derive(Debug, Clone)]
pub struct Cli {
    pub dashboard_url: Option<String>,
    pub config: Option<String>,
    pub automation: bool,
    pub command: Command,
}

/// The subcommands.
#[derive(Debug, Clone)]
#[allow(inconsistent_fields)]
pub enum Command {
    Login(LoginArgs),
    Whoami,
    Analytics { command: AnalyticsCommand },
    Contacts { command: ContactsCommand },
    Whatsapp { command: WhatsappCommand },
    Inbox { command: InboxCommand },
    Exports { command: ExportsCommand },
    Integrations { command: IntegrationsCommand },
    Tenants { command: TenantsCommand },
    Refresh,
    Logout,
}

/// `ycloud tenants ...`
#[derive(Debug, Clone)]
pub enum TenantsCommand {
    List,
}

/// `ycloud analytics ...`
#[derive(Debug, Clone)]
pub enum AnalyticsCommand {
    Outline(AnalyticsRangeArgs),
    Overview(AnalyticsOverviewArgs),
    Logs(AnalyticsLogsArgs),
    CallingLogs(AnalyticsCallingLogsArgs),
}

/// `ycloud whatsapp ...`
#[derive(Debug, Clone)]
pub enum WhatsappCommand {
    WabaAssignment { command: WabaAssignmentCommand },
}

/// `ycloud whatsapp waba-assignment ...`
#[derive(Debug, Clone)]
pub enum WabaAssignmentCommand {
    List(WabaAssignmentListArgs),
}

/// Arguments of `ycloud whatsapp waba-assignment list`.
#[derive(Debug, Clone)]
pub struct WabaAssignmentListArgs {
    pub waba_id: Option<String>,
    pub json: bool,
}

/// Arguments of `ycloud login`.
#[derive(Debug, Clone)]
pub struct LoginArgs {
    pub profile: PermissionProfile,
    pub permissions: Vec<String>,
    pub code: Option<String>,
    pub code_verifier: Option<String>,
    pub state: Option<String>,
    pub manual: bool,
}

/// A permission profile that the backend expands into atomic permissions.
#[derive(Debug, Clone, Copy, PartialEq, Eq)]
pub enum PermissionProfile {
    Basic,
    ContactsRead,
    AnalyticsRead,
    IntegrationsRead,
    Readonly,
    Custom,
}

/// The wire name of a permission profile.
pub open spec fn profile_name(p: PermissionProfile) -> Seq<char> {
    match p {
        PermissionProfile::Basic => "basic"@,
        PermissionProfile::ContactsRead => "contacts-read"@,
        PermissionProfile::AnalyticsRead => "analytics-read"@,
        PermissionProfile::IntegrationsRead => "integrations-read"@,
        PermissionProfile::Readonly => "readonly"@,
        PermissionProfile::Custom => "custom"@,
    }
}

impl PermissionProfile {
    /// The wire name of the profile, also its command-line spelling.
    pub fn as_str(self) -> (r: &'static str)
        ensures
            r@ == profile_name(self),
    {
        match self {
            PermissionProfile::Basic => "basic",
            PermissionProfile::ContactsRead => "contacts-read",
            PermissionProfile::AnalyticsRead => "analytics-read",
            PermissionProfile::IntegrationsRead => "integrations-read",
            PermissionProfile::Readonly => "readonly",
            PermissionProfile::Custom => "custom",
        }
    }

    /// The profile's display text (its wire name).
    pub fn to_display_string(self) -> (r: String)
        ensures
            r@ == profile_name(self),
    {
        self.as_str().to_owned()
    }
}

/// `ycloud contacts ...`
#[derive(Debug, Clone)]
pub enum ContactsCommand {
    List(ContactsListArgs),
    Metadata,
    Export(ContactExportArgs),
}

/// `ycloud inbox ...`
#[derive(Debug, Clone)]
pub enum InboxCommand {
    Conversations { command: InboxConversationsCommand },
}

/// `ycloud inbox conversations ...`
#[derive(Debug, Clone)]
pub enum InboxConversationsCommand {
    Search(ConversationSearchArgs),
    Export(ConversationExportArgs),
}

/// `ycloud exports ...`
#[derive(Debug, Clone)]
pub enum ExportsCommand {
    Query(ExportTaskArgs),
    Retry(ExportRetryArgs),
    Download(ExportDownloadArgs),
}

/// The file format of an export.
#[derive(Debug, Clone, Copy, PartialEq, Eq)]
pub enum ExportFormat {
    Auto,
    Csv,
    Xlsx,
}

/// The API value of an export format.
pub open spec fn export_format_api(f: ExportFormat) -> Seq<char> {
    match f {
        ExportFormat::Auto => "AUTO"@,
        ExportFormat::Csv => "CSV"@,
        ExportFormat::Xlsx => "XLSX"@,
    }
}

/// The display text of an export format: its command-line spelling.
pub open spec fn export_format_display(f: ExportFormat) -> Seq<char> {
    match f {
        ExportFormat::Auto => "auto"@,
        ExportFormat::Csv => "csv"@,
        ExportFormat::Xlsx => "xlsx"@,
    }
}

impl ExportFormat {
    /// The value the API expects.
    pub fn as_api_value(self) -> (r: &'static str)
        ensures
            r@ == export_format_api(self),
    {
        match self {
            ExportFormat::Auto => "AUTO",
            ExportFormat::Csv => "CSV",
            ExportFormat::Xlsx => "XLSX",
        }
    }

    /// The display text: the API value in lower case.
    pub fn to_display_string(self) -> (r: String)
        ensures
            r@ == export_format_display(self),
            r@ == crate::text::seq_ascii_lower(export_format_api(self)),
    {
        let r = match self {
            ExportFormat::Auto => "auto".to_owned(),
            ExportFormat::Csv => "csv".to_owned(),
            ExportFormat::Xlsx => "xlsx".to_owned(),
        };
        proof {
            reveal_strlit("auto");
            reveal_strlit("AUTO");
            reveal_strlit("csv");
            reveal_strlit("CSV");
            reveal_strlit("xlsx");
            reveal_strlit("XLSX");
            assert(r@ =~= crate::text::seq_ascii_lower(export_format_api(self)));
        }
        r
    }
}

/// A kind of export artifact.
#[derive(Debug, Clone, Copy, PartialEq, Eq)]
pub enum ExportArtifactType {
    Conversations,
    Contacts,
    Messages,
    Manifest,
    Archive,
}

/// The API value of an artifact type.
pub open spec fn artifact_type_api(t: ExportArtifactType) -> Seq<char> {
    match t {
        ExportArtifactType::Conversations => "CONVERSATIONS"@,
        ExportArtifactType::Contacts => "CONTACTS"@,
        ExportArtifactType::Messages => "MESSAGES"@,
        ExportArtifactType::Manifest => "MANIFEST"@,
        ExportArtifactType::Archive => "ARCHIVE"@,
    }
}

impl ExportArtifactType {
    /// The value the API uses for this artifact type.
    pub fn as_api_value(self) -> (r: &'static str)
        ensures
            r@ == artifact_type_api(self),
    {
        match self {
            ExportArtifactType::Conversations => "CONVERSATIONS",
            ExportArtifactType::Contacts => "CONTACTS",
            ExportArtifactType::Messages => "MESSAGES",
            ExportArtifactType::Manifest => "MANIFEST",
            ExportArtifactType::Archive => "ARCHIVE",
        }
    }
}

/// Filters shared by conversation search and export.
#[derive(Debug, Clone)]
pub struct ConversationFilterArgs {
    pub inbox_ids: Vec<String>,
    pub assignee_ids: Vec<String>,
    pub conversation_tag_ids: Vec<String>,
    pub contact_tag_ids: Vec<String>,
    pub status: Option<i32>,
    pub condition: Option<String>,
    pub start_time: Option<i64>,
    pub end_time: Option<i64>,
    pub close_start_time: Option<i64>,
    pub close_end_time: Option<i64>,
    pub csat: Option<i32>,
    pub customer: Option<bool>,
}

/// The filter with nothing set.
pub open spec fn empty_filter(f: ConversationFilterArgs) -> bool {
    &&& f.inbox_ids@.len() == 0
    &&& f.assignee_ids@.len() == 0
    &&& f.conversation_tag_ids@.len() == 0
    &&& f.contact_tag_ids@.len() == 0
    &&& f.status.is_none()
    &&& f.condition.is_none()
    &&& f.start_time.is_none()
    &&& f.end_time.is_none()
    &&& f.close_start_time.is_none()
    &&& f.close_end_time.is_none()
    &&& f.csat.is_none()
    &&& f.customer.is_none()
}

impl Default for ConversationFilterArgs {
    fn default() -> (r: Self)
        ensures
            empty_filter(r),
    {
        ConversationFilterArgs {
            inbox_ids: Vec::new(),
            assignee_ids: Vec::new(),
            conversation_tag_ids: Vec::new(),
            contact_tag_ids: Vec::new(),
            status: None,
            condition: None,
            start_time: None,
            end_time: None,
            close_start_time: None,
            close_end_time: None,
            csat: None,
            customer: None,
        }
    }
}

/// Arguments of `ycloud inbox conversations search`.
#[derive(Debug, Clone)]
pub struct ConversationSearchArgs {
    pub filter: ConversationFilterArgs,
    pub cursor: Option<String>,
    pub limit: u32,
    pub json: bool,
}

/// Arguments of `ycloud inbox conversations export`.
#[derive(Debug, Clone)]
pub struct ConversationExportArgs {
    pub filter: ConversationFilterArgs,
    pub columns: Vec<String>,
    pub format: ExportFormat,
    pub no_contacts: bool,
    pub archive: bool,
    pub timezone: String,
    pub file_name: Option<String>,
    pub idempotency_key: Option<String>,
    pub wait: ExportWaitArgs,
}

/// Arguments of `ycloud contacts export`.
#[derive(Debug, Clone)]
pub struct ContactExportArgs {
    pub condition: Option<String>,
    pub segment_id: Option<String>,
    pub blocked: Option<bool>,
    pub columns: Vec<String>,
    pub format: ExportFormat,
    pub archive: bool,
    pub timezone: String,
    pub file_name: Option<String>,
    pub idempotency_key: Option<String>,
    pub wait: ExportWaitArgs,
}

/// How to wait for an export and where to put its artifacts.
#[derive(Debug, Clone)]
pub struct ExportWaitArgs {
    pub no_wait: bool,
    pub output_dir: String,
    pub artifacts: Vec<ExportArtifactType>,
    pub timeout_seconds: u64,
    pub json: bool,
}

/// Arguments of `ycloud exports query`.
#[derive(Debug, Clone)]
pub struct ExportTaskArgs {
    pub task_id: String,
    pub json: bool,
}

/// Arguments of `ycloud exports retry`.
#[derive(Debug, Clone)]
pub struct ExportRetryArgs {
    pub task_id: String,
    pub idempotency_key: Option<String>,
    pub wait: ExportWaitArgs,
}

/// Arguments of `ycloud exports download`.
#[derive(Debug, Clone)]
pub struct ExportDownloadArgs {
    pub task_id: String,
    pub artifacts: Vec<ExportArtifactType>,
    pub output_dir: String,
    pub json: bool,
}

/// `ycloud integrations ...`
#[derive(Debug, Clone)]
pub enum IntegrationsCommand {
    Status,
}

/// Arguments of `ycloud contacts list`.
#[derive(Debug, Clone)]
pub struct ContactsListArgs {
    pub page_no: u32,
    pub page_size: u32,
    pub condition: Option<String>,
}

/// A time range in milliseconds since the Unix epoch.
#[derive(Debug, Clone)]
pub struct AnalyticsRangeArgs {
    pub start_time: Option<i64>,
    pub end_time: Option<i64>,
}

/// Arguments of `ycloud analytics overview`.
#[derive(Debug, Clone)]
pub struct AnalyticsOverviewArgs {
    pub range: AnalyticsRangeArgs,
    pub timezone: String,
    pub from: Option<String>,
    pub region_code: Option<String>,
    pub message_category: Option<String>,
}

/// Arguments of `ycloud analytics logs`.
#[derive(Debug, Clone)]
pub struct AnalyticsLogsArgs {
    pub range: AnalyticsRangeArgs,
    pub page_no: u32,
    pub page_size: u32,
    pub condition: Option<String>,
    pub direction: String,
    pub from: Option<String>,
    pub business_phones: Vec<String>,
    pub to_region_codes: Vec<String>,
    pub status: Option<String>,
    pub source: Option<String>,
    pub pricing_category: Vec<String>,
    pub timezone: String,
}

/// Arguments of `ycloud analytics calling-logs`.
#[derive(Debug, Clone)]
pub struct AnalyticsCallingLogsArgs {
    pub range: AnalyticsRangeArgs,
    pub page_no: u32,
    pub page_size: u32,
    pub condition: Option<String>,
    pub directions: Vec<String>,
    pub region_codes: Vec<String>,
    pub sources: Vec<String>,
    pub status: Vec<String>,
    pub phone_number_ids: Vec<String>,
}

/// The invocation mode chosen from the `--automation` flag, the value of
/// `YCLOUD_INVOCATION_MODE` (when set) and whether stdin and stdout are
/// terminals: the flag wins; then the variable, which must read
/// `interactive` or `automation` (trimmed, in any ASCII case); then
/// automation unless both streams are terminals.
pub open spec fn invocation_mode_choice(
    automation: bool,
    env_value: Option<Seq<char>>,
    stdin_terminal: bool,
    stdout_terminal: bool,
) -> Result<InvocationMode, ()> {
    if automation {
        Ok(InvocationMode::Automation)
    } else {
        match env_value {
            Some(v) => {
                let t = crate::text::seq_ascii_lower(crate::text::seq_trim(v));
                if t == "interactive"@ {
                    Ok(InvocationMode::Interactive)
                } else if t == "automation"@ {
                    Ok(InvocationMode::Automation)
                } else {
                    Err(())
                }
            },
            None => if !stdin_terminal || !stdout_terminal {
                Ok(InvocationMode::Automation)
            } else {
                Ok(InvocationMode::Interactive)
            },
        }
    }
}

impl Cli {
    /// Chooses the invocation mode; see `invocation_mode_choice`. The error
    /// is the message for an unknown `YCLOUD_INVOCATION_MODE`.
    pub fn invocation_mode_with(
        &self,
        env_value: Option<String>,
        stdin_terminal: bool,
        stdout_terminal: bool,
    ) -> (r: Result<InvocationMode, String>)
        ensures
            match invocation_mode_choice(
                self.automation,
                match env_value {
                    Some(v) => Some(v@),
                    None => None,
                },
                stdin_terminal,
                stdout_terminal,
            ) {
                Ok(m) => r == Ok::<InvocationMode, String>(m),
                Err(_) => r is Err && r->Err_0@
                    == "YCLOUD_INVOCATION_MODE must be interactive or automation"@,
            },
    {
        if self.automation {
            return Ok(InvocationMode::Automation);
        }
        match env_value {
            Some(value) => {
                let trimmed = crate::text::trim_chars(value.as_str());
                let lowered = crate::text::lower_chars(&trimmed);
                let text = crate::text::string_from_chars(&lowered);
                if crate::text::str_eq(text.as_str(), "interactive") {
                    Ok(InvocationMode::Interactive)
                } else if crate::text::str_eq(text.as_str(), "automation") {
                    Ok(InvocationMode::Automation)
                } else {
                    Err("YCLOUD_INVOCATION_MODE must be interactive or automation".to_owned())
                }
            },
            None => {
                if !stdin_terminal || !stdout_terminal {
                    Ok(InvocationMode::Automation)
                } else {
                    Ok(InvocationMode::Interactive)
                }
            },
        }
    }
}

/// The config path when none is given: `.ycloud/config.toml` under the home
/// directory.
pub open spec fn default_config_path(home: Seq<char>) -> Seq<char> {
    if home.len() == 0 || home.last() == '/' {
        home + ".ycloud/config.toml"@
    } else {
        home + "/.ycloud/config.toml"@
    }
}

impl Cli {
    /// The config path: the `--config` value, else `.ycloud/config.toml`
    /// under `home` (`None` when the home directory is unknown).
    pub fn config_path_with(&self, home: Option<String>) -> (r: Option<String>)
        ensures
            match self.config {
                Some(c) => r == Some(c),
                None => match home {
                    Some(h) => r is Some && r->Some_0@ == default_config_path(h@),
                    None => r is None,
                },
            },
    {
        match &self.config {
            Some(path) => Some(path.clone()),
            None => match home {
                Some(h) => {
                    let n = h.as_str().unicode_len();
                    if n == 0 || h.as_str().get_char(n - 1) == '/' {
                        Some(crate::text::concat2(h.as_str(), ".ycloud/config.toml"))
                    } else {
                        Some(crate::text::concat2(h.as_str(), "/.ycloud/config.toml"))
                    }
                },
                None => None,
            },
        }
    }
}

} // verus!
