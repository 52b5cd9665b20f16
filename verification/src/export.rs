//! Asynchronous exports: request bodies, which artifacts to download, where
//! to put them, and the checks that a download must pass.

use vstd::prelude::*;

use crate::cli::{
    artifact_type_api, export_format_api, ContactExportArgs, ConversationExportArgs,
    ConversationFilterArgs, ConversationSearchArgs, ExportArtifactType,
};
use crate::pkce::RANDOM_UNAVAILABLE;
use crate::http::{random_u128, ArtifactUrl, DownloadReceipt, ExportTask, upper_string};
use crate::json::{
    elements_model, json_i64, json_opt_str, json_str, json_str_array, json_u64, members_model, model,
    opt_str_model, push_member, str_array_model, JsonModel, JsonValue,
};
use crate::text::{
    concat2, decimal, eq_ignore_ascii_case, hex32, seq_ascii_upper, signed_decimal,
    str_eq, str_eq_ignore_ascii_case, u64_to_decimal,
};

verus! {

// ---------------------------------------------------------------------------
// Request bodies
// ---------------------------------------------------------------------------

/// A member for a list of strings, left out when the list is empty.
pub open spec fn vec_member(name: Seq<char>, v: Seq<String>) -> Seq<(Seq<char>, JsonModel)> {
    if v.len() == 0 {
        seq![]
    } else {
        seq![(name, str_array_model(v))]
    }
}

/// A member for an optional number given as its decimal text, left out when
/// absent.
pub open spec fn opt_number_member(name: Seq<char>, v: Option<int>) -> Seq<(Seq<char>, JsonModel)> {
    match v {
        Some(n) => seq![(name, JsonModel::Number(signed_decimal(n)))],
        None => seq![],
    }
}

/// A member for an optional string, left out when absent.
pub open spec fn opt_str_member(name: Seq<char>, v: Option<String>) -> Seq<(Seq<char>, JsonModel)> {
    match v {
        Some(s) => seq![(name, JsonModel::Str(s@))],
        None => seq![],
    }
}

/// A member for an optional boolean, left out when absent.
pub open spec fn opt_bool_member(name: Seq<char>, v: Option<bool>) -> Seq<(Seq<char>, JsonModel)> {
    match v {
        Some(b) => seq![(name, JsonModel::Bool(b))],
        None => seq![],
    }
}

/// An optional `i32` as an integer.
pub open spec fn opt_i32(v: Option<i32>) -> Option<int> {
    match v {
        Some(n) => Some(n as int),
        None => None,
    }
}

/// An optional `i64` as an integer.
pub open spec fn opt_i64(v: Option<i64>) -> Option<int> {
    match v {
        Some(n) => Some(n as int),
        None => None,
    }
}

/// The members of a conversation filter: each set filter, in a fixed order,
/// empty lists and absent values left out.
pub open spec fn filter_members(a: ConversationFilterArgs) -> Seq<(Seq<char>, JsonModel)> {
    vec_member("inboxIds"@, a.inbox_ids@) + vec_member("assigneeIds"@, a.assignee_ids@)
        + vec_member("conversationTagIds"@, a.conversation_tag_ids@) + vec_member(
        "contactTagIds"@,
        a.contact_tag_ids@,
    ) + opt_number_member("status"@, opt_i32(a.status)) + opt_str_member(
        "condition"@,
        a.condition,
    ) + opt_number_member("startTime"@, opt_i64(a.start_time)) + opt_number_member(
        "endTime"@,
        opt_i64(a.end_time),
    ) + opt_number_member("closeStartTime"@, opt_i64(a.close_start_time)) + opt_number_member(
        "closeEndTime"@,
        opt_i64(a.close_end_time),
    ) + opt_number_member("csat"@, opt_i32(a.csat)) + opt_bool_member("customer"@, a.customer)
}

fn insert_vec(target: &mut Vec<(String, JsonValue)>, name: &str, value: &Vec<String>)
    ensures
        members_model(final(target)@) == members_model(old(target)@) + vec_member(name@, value@),
{
    if value.len() > 0 {
        push_member(target, name, json_str_array(value));
    } else {
        assert(members_model(old(target)@) + vec_member(name@, value@) =~= members_model(
            old(target)@,
        ));
    }
    assert(members_model(final(target)@) =~= members_model(old(target)@) + vec_member(
        name@,
        value@,
    ));
}

fn insert_number(target: &mut Vec<(String, JsonValue)>, name: &str, value: Option<i64>)
    ensures
        members_model(final(target)@) == members_model(old(target)@) + opt_number_member(
            name@,
            opt_i64(value),
        ),
{
    match value {
        Some(v) => push_member(target, name, json_i64(v)),
        None => {},
    }
    assert(members_model(final(target)@) =~= members_model(old(target)@) + opt_number_member(
        name@,
        opt_i64(value),
    ));
}

fn insert_small_number(target: &mut Vec<(String, JsonValue)>, name: &str, value: Option<i32>)
    ensures
        members_model(final(target)@) == members_model(old(target)@) + opt_number_member(
            name@,
            opt_i32(value),
        ),
{
    match value {
        Some(v) => push_member(target, name, json_i64(v as i64)),
        None => {},
    }
    assert(members_model(final(target)@) =~= members_model(old(target)@) + opt_number_member(
        name@,
        opt_i32(value),
    ));
}

fn insert_text(target: &mut Vec<(String, JsonValue)>, name: &str, value: &Option<String>)
    ensures
        members_model(final(target)@) == members_model(old(target)@) + opt_str_member(
            name@,
            *value,
        ),
{
    match value {
        Some(v) => push_member(target, name, json_str(v.as_str())),
        None => {},
    }
    assert(members_model(final(target)@) =~= members_model(old(target)@) + opt_str_member(
        name@,
        *value,
    ));
}

fn insert_flag(target: &mut Vec<(String, JsonValue)>, name: &str, value: Option<bool>)
    ensures
        members_model(final(target)@) == members_model(old(target)@) + opt_bool_member(
            name@,
            value,
        ),
{
    match value {
        Some(v) => push_member(target, name, JsonValue::Bool(v)),
        None => {},
    }
    assert(members_model(final(target)@) =~= members_model(old(target)@) + opt_bool_member(
        name@,
        value,
    ));
}

/// The JSON filter of a conversation search or export.
pub fn conversation_filter(args: &ConversationFilterArgs) -> (r: JsonValue)
    ensures
        model(r) == JsonModel::Object(filter_members(*args)),
{
    let mut filter: Vec<(String, JsonValue)> = Vec::new();
    assert(members_model(filter@) =~= Seq::<(Seq<char>, JsonModel)>::empty());
    insert_vec(&mut filter, "inboxIds", &args.inbox_ids);
    insert_vec(&mut filter, "assigneeIds", &args.assignee_ids);
    insert_vec(&mut filter, "conversationTagIds", &args.conversation_tag_ids);
    insert_vec(&mut filter, "contactTagIds", &args.contact_tag_ids);
    insert_small_number(&mut filter, "status", args.status);
    insert_text(&mut filter, "condition", &args.condition);
    insert_number(&mut filter, "startTime", args.start_time);
    insert_number(&mut filter, "endTime", args.end_time);
    insert_number(&mut filter, "closeStartTime", args.close_start_time);
    insert_number(&mut filter, "closeEndTime", args.close_end_time);
    insert_small_number(&mut filter, "csat", args.csat);
    insert_flag(&mut filter, "customer", args.customer);
    assert(members_model(filter@) =~= filter_members(*args));
    JsonValue::Object(filter)
}

/// The body of a conversation search: the filter, the cursor (or `null`) and
/// the page size.
pub fn conversation_search_request(args: &ConversationSearchArgs) -> (r: JsonValue)
    ensures
        model(r) == JsonModel::Object(
            seq![
                ("filter"@, JsonModel::Object(filter_members(args.filter))),
                ("cursor"@, opt_str_model(args.cursor)),
                ("limit"@, JsonModel::Number(decimal(args.limit as nat))),
            ],
        ),
{
    let mut body: Vec<(String, JsonValue)> = Vec::new();
    assert(members_model(body@) =~= Seq::<(Seq<char>, JsonModel)>::empty());
    push_member(&mut body, "filter", conversation_filter(&args.filter));
    push_member(&mut body, "cursor", json_opt_str(&args.cursor));
    push_member(&mut body, "limit", json_u64(args.limit as u64));
    assert(members_model(body@) =~= seq![
        ("filter"@, JsonModel::Object(filter_members(args.filter))),
        ("cursor"@, opt_str_model(args.cursor)),
        ("limit"@, JsonModel::Number(decimal(args.limit as nat))),
    ]);
    JsonValue::Object(body)
}

/// The body of a conversation export. Messages are always included; the
/// related contacts unless `--no-contacts`.
pub open spec fn conversation_export_members(a: ConversationExportArgs) -> Seq<
    (Seq<char>, JsonModel),
> {
    seq![
        ("filter"@, JsonModel::Object(filter_members(a.filter))),
        ("columns"@, str_array_model(a.columns@)),
        ("format"@, JsonModel::Str(export_format_api(a.format))),
        ("includeContacts"@, JsonModel::Bool(!a.no_contacts)),
        ("includeMessages"@, JsonModel::Bool(true)),
        ("archive"@, JsonModel::Bool(a.archive)),
        ("timezone"@, JsonModel::Str(a.timezone@)),
        ("fileName"@, opt_str_model(a.file_name)),
    ]
}

/// A conversation export body has exactly one `includeContacts` member, and
/// it is `true` unless `--no-contacts` was given: contacts are exported
/// exactly when they were not refused.
pub proof fn export_includes_contacts_unless_refused(a: ConversationExportArgs)
    ensures
        exists|i: int|
            0 <= i < conversation_export_members(a).len() && #[trigger] conversation_export_members(
                a,
            )[i] == ("includeContacts"@, JsonModel::Bool(!a.no_contacts)) && forall|k: int|
                0 <= k < conversation_export_members(a).len() && k != i
                    ==> (#[trigger] conversation_export_members(a)[k]).0 != "includeContacts"@,
{
    let m = conversation_export_members(a);
    reveal_strlit("includeContacts");
    reveal_strlit("filter");
    reveal_strlit("columns");
    reveal_strlit("format");
    reveal_strlit("includeMessages");
    reveal_strlit("archive");
    reveal_strlit("timezone");
    reveal_strlit("fileName");
    assert(m[3] == ("includeContacts"@, JsonModel::Bool(!a.no_contacts)));
    assert(m[4].0 != "includeContacts"@) by {
        assert(m[4].0[7] != "includeContacts"@[7]);
    }
}

/// The body of a conversation export.
pub fn conversation_export_request(args: &ConversationExportArgs) -> (r: JsonValue)
    ensures
        model(r) == JsonModel::Object(conversation_export_members(*args)),
{
    let mut body: Vec<(String, JsonValue)> = Vec::new();
    assert(members_model(body@) =~= Seq::<(Seq<char>, JsonModel)>::empty());
    push_member(&mut body, "filter", conversation_filter(&args.filter));
    push_member(&mut body, "columns", json_str_array(&args.columns));
    push_member(&mut body, "format", json_str(args.format.as_api_value()));
    push_member(&mut body, "includeContacts", JsonValue::Bool(!args.no_contacts));
    push_member(&mut body, "includeMessages", JsonValue::Bool(true));
    push_member(&mut body, "archive", JsonValue::Bool(args.archive));
    push_member(&mut body, "timezone", json_str(args.timezone.as_str()));
    push_member(&mut body, "fileName", json_opt_str(&args.file_name));
    assert(members_model(body@) =~= conversation_export_members(*args));
    JsonValue::Object(body)
}

/// An optional boolean, or `null`.
pub open spec fn opt_bool_model(v: Option<bool>) -> JsonModel {
    match v {
        Some(b) => JsonModel::Bool(b),
        None => JsonModel::Null,
    }
}

/// The body of a contact export.
pub open spec fn contact_export_members(a: ContactExportArgs) -> Seq<(Seq<char>, JsonModel)> {
    seq![
        ("condition"@, opt_str_model(a.condition)),
        ("segmentId"@, opt_str_model(a.segment_id)),
        ("blocked"@, opt_bool_model(a.blocked)),
        ("columns"@, str_array_model(a.columns@)),
        ("format"@, JsonModel::Str(export_format_api(a.format))),
        ("archive"@, JsonModel::Bool(a.archive)),
        ("timezone"@, JsonModel::Str(a.timezone@)),
        ("fileName"@, opt_str_model(a.file_name)),
    ]
}

/// The body of a contact export.
pub fn contact_export_request(args: &ContactExportArgs) -> (r: JsonValue)
    ensures
        model(r) == JsonModel::Object(contact_export_members(*args)),
{
    let mut body: Vec<(String, JsonValue)> = Vec::new();
    assert(members_model(body@) =~= Seq::<(Seq<char>, JsonModel)>::empty());
    push_member(&mut body, "condition", json_opt_str(&args.condition));
    push_member(&mut body, "segmentId", json_opt_str(&args.segment_id));
    let blocked = match args.blocked {
        Some(b) => JsonValue::Bool(b),
        None => JsonValue::Null,
    };
    push_member(&mut body, "blocked", blocked);
    push_member(&mut body, "columns", json_str_array(&args.columns));
    push_member(&mut body, "format", json_str(args.format.as_api_value()));
    push_member(&mut body, "archive", JsonValue::Bool(args.archive));
    push_member(&mut body, "timezone", json_str(args.timezone.as_str()));
    push_member(&mut body, "fileName", json_opt_str(&args.file_name));
    assert(members_model(body@) =~= contact_export_members(*args));
    JsonValue::Object(body)
}

/// The body that names an export task.
pub fn task_request(task_id: &str) -> (r: JsonValue)
    ensures
        model(r) == JsonModel::Object(seq![("taskId"@, JsonModel::Str(task_id@))]),
{
    let mut body: Vec<(String, JsonValue)> = Vec::new();
    assert(members_model(body@) =~= Seq::<(Seq<char>, JsonModel)>::empty());
    push_member(&mut body, "taskId", json_str(task_id));
    assert(members_model(body@) =~= seq![("taskId"@, JsonModel::Str(task_id@))]);
    JsonValue::Object(body)
}

/// An optional `u32`, or `null`.
pub open spec fn opt_u32_model(v: Option<u32>) -> JsonModel {
    match v {
        Some(n) => JsonModel::Number(decimal(n as nat)),
        None => JsonModel::Null,
    }
}

/// The body that asks for the signed URL of one artifact.
pub fn artifact_url_request(
    task_id: &str,
    artifact_type: &str,
    artifact_id: &Option<String>,
    part_number: Option<u32>,
) -> (r: JsonValue)
    ensures
        model(r) == JsonModel::Object(
            seq![
                ("taskId"@, JsonModel::Str(task_id@)),
                ("artifactType"@, JsonModel::Str(artifact_type@)),
                ("artifactId"@, opt_str_model(*artifact_id)),
                ("partNumber"@, opt_u32_model(part_number)),
            ],
        ),
{
    let mut body: Vec<(String, JsonValue)> = Vec::new();
    assert(members_model(body@) =~= Seq::<(Seq<char>, JsonModel)>::empty());
    push_member(&mut body, "taskId", json_str(task_id));
    push_member(&mut body, "artifactType", json_str(artifact_type));
    push_member(&mut body, "artifactId", json_opt_str(artifact_id));
    let part = match part_number {
        Some(n) => json_u64(n as u64),
        None => JsonValue::Null,
    };
    push_member(&mut body, "partNumber", part);
    assert(members_model(body@) =~= seq![
        ("taskId"@, JsonModel::Str(task_id@)),
        ("artifactType"@, JsonModel::Str(artifact_type@)),
        ("artifactId"@, opt_str_model(*artifact_id)),
        ("partNumber"@, opt_u32_model(part_number)),
    ]);
    JsonValue::Object(body)
}

// ---------------------------------------------------------------------------
// Downloads
// ---------------------------------------------------------------------------

/// The error of `ensure_downloadable` for a task, if any: finished and
/// partially successful tasks can be downloaded; a failed one reports its
/// error message; any other status is not ready yet.
pub open spec fn download_refusal(task: ExportTask) -> Option<Seq<char>> {
    let s = seq_ascii_upper(task.status@);
    if s == "FINISHED"@ || s == "PARTIAL_SUCCESS"@ {
        None
    } else if s == "FAILED"@ {
        Some(
            "export task "@ + task.task_id@ + " failed: "@ + match task.error_message {
                Some(m) => m@,
                None => "unknown export failure"@,
            },
        )
    } else {
        Some("export task "@ + task.task_id@ + " is not ready: "@ + s)
    }
}

/// Checks that a task's artifacts can be downloaded.
pub fn ensure_downloadable(task: &ExportTask) -> (r: Result<(), String>)
    ensures
        match download_refusal(*task) {
            None => r is Ok,
            Some(m) => r is Err && r->Err_0@ == m,
        },
{
    let status = upper_string(task.status.as_str());
    if str_eq(status.as_str(), "FINISHED") || str_eq(status.as_str(), "PARTIAL_SUCCESS") {
        return Ok(());
    }
    let mut message = concat2("export task ", task.task_id.as_str());
    if str_eq(status.as_str(), "FAILED") {
        message.append(" failed: ");
        match &task.error_message {
            Some(m) => message.append(m.as_str()),
            None => message.append("unknown export failure"),
        }
    } else {
        message.append(" is not ready: ");
        message.append(status.as_str());
    }
    Err(message)
}

/// Whether an artifact is downloadable and wanted: it is ready, and either
/// it is of a selected type or, with nothing selected, not the archive.
pub open spec fn artifact_chosen(a: crate::http::ExportArtifact, selected: Seq<ExportArtifactType>) -> bool {
    &&& eq_ignore_ascii_case(a.status@, "READY"@)
    &&& if selected.len() == 0 {
        !eq_ignore_ascii_case(a.artifact_type@, "ARCHIVE"@)
    } else {
        exists|i: int|
            0 <= i < selected.len() && eq_ignore_ascii_case(
                artifact_type_api(#[trigger] selected[i]),
                a.artifact_type@,
            )
    }
}

fn artifact_is_chosen(a: &crate::http::ExportArtifact, selected: &Vec<ExportArtifactType>) -> (r: bool)
    ensures
        r == artifact_chosen(*a, selected@),
{
    if !str_eq_ignore_ascii_case(a.status.as_str(), "READY") {
        return false;
    }
    if selected.len() == 0 {
        return !str_eq_ignore_ascii_case(a.artifact_type.as_str(), "ARCHIVE");
    }
    let mut i: usize = 0;
    while i < selected.len()
        invariant
            0 <= i <= selected@.len(),
            selected@.len() > 0,
            eq_ignore_ascii_case(a.status@, "READY"@),
            forall|k: int|
                0 <= k < i ==> !eq_ignore_ascii_case(
                    artifact_type_api(#[trigger] selected@[k]),
                    a.artifact_type@,
                ),
        decreases selected@.len() - i,
    {
        let t = selected[i];
        if str_eq_ignore_ascii_case(t.as_api_value(), a.artifact_type.as_str()) {
            assert(eq_ignore_ascii_case(artifact_type_api(selected@[i as int]), a.artifact_type@));
            return true;
        }
        i = i + 1;
    }
    false
}

/// Picks the artifacts to download, by index, in the task's order. Fails
/// when none is chosen.
pub fn select_artifacts(task: &ExportTask, selected: &Vec<ExportArtifactType>) -> (r: Result<
    Vec<usize>,
    String,
>)
    ensures
        match r {
            Ok(idx) => {
                &&& idx@.len() > 0
                &&& forall|j: int|
                    0 <= j < idx@.len() ==> (#[trigger] idx@[j]) < task.artifacts@.len()
                        && artifact_chosen(task.artifacts@[idx@[j] as int], selected@)
                &&& forall|a: int, b: int| 0 <= a < b < idx@.len() ==> idx@[a] < idx@[b]
                &&& forall|k: int|
                    0 <= k < task.artifacts@.len() && artifact_chosen(
                        #[trigger] task.artifacts@[k],
                        selected@,
                    ) ==> idx@.contains(k as usize)
            },
            Err(m) => {
                &&& forall|k: int|
                    0 <= k < task.artifacts@.len() ==> !artifact_chosen(
                        #[trigger] task.artifacts@[k],
                        selected@,
                    )
                &&& m@ == "export task "@ + task.task_id@ + " has no ready artifacts"@
            },
        },
{
    let mut idx: Vec<usize> = Vec::new();
    let mut k: usize = 0;
    while k < task.artifacts.len()
        invariant
            0 <= k <= task.artifacts@.len(),
            forall|j: int|
                0 <= j < idx@.len() ==> (#[trigger] idx@[j]) < k && artifact_chosen(
                    task.artifacts@[idx@[j] as int],
                    selected@,
                ),
            forall|a: int, b: int| 0 <= a < b < idx@.len() ==> idx@[a] < idx@[b],
            forall|m: int|
                0 <= m < k && artifact_chosen(#[trigger] task.artifacts@[m], selected@)
                    ==> idx@.contains(m as usize),
        decreases task.artifacts@.len() - k,
    {
        if artifact_is_chosen(&task.artifacts[k], selected) {
            let ghost before = idx@;
            idx.push(k);
            proof {
                assert forall|m: int|
                    0 <= m < k + 1 && artifact_chosen(#[trigger] task.artifacts@[m], selected@)
                        implies idx@.contains(m as usize) by {
                    if m == k {
                        assert(idx@[before.len() as int] == k);
                    } else {
                        let p = choose|p: int| 0 <= p < before.len() && before[p] == m as usize;
                        assert(idx@[p] == m as usize);
                    }
                }
            }
        }
        k = k + 1;
    }
    if idx.len() == 0 {
        proof {
            assert forall|m: int| 0 <= m < task.artifacts@.len() implies !artifact_chosen(
                #[trigger] task.artifacts@[m],
                selected@,
            ) by {
                if artifact_chosen(task.artifacts@[m], selected@) {
                    assert(idx@.contains(m as usize));
                }
            }
        }
        let mut message = concat2("export task ", task.task_id.as_str());
        message.append(" has no ready artifacts");
        return Err(message);
    }
    Ok(idx)
}

/// Whether a file name from the server names a file directly inside the
/// output directory: non-empty, without `/`, and neither `.` nor `..` (a
/// name that is its own last path component). These are Unix path rules,
/// where `/` alone separates components: the CLI is released for macOS and
/// Linux. On Windows a `\` would separate components too, and this test
/// does not refuse it.
pub open spec fn safe_name(v: Seq<char>) -> bool {
    &&& v.len() > 0
    &&& forall|i: int| 0 <= i < v.len() ==> #[trigger] v[i] != '/'
    &&& v != "."@
    &&& v != ".."@
}

/// Accepts a file name from the server only when it is safe.
pub fn safe_file_name(value: &str) -> (r: Result<&str, String>)
    ensures
        match r {
            Ok(v) => safe_name(value@) && v@ == value@,
            Err(m) => !safe_name(value@) && m@ == "server returned an unsafe artifact file name"@,
        },
{
    let cs = crate::text::chars_of(value);
    let mut ok = cs.len() > 0;
    let mut i: usize = 0;
    while i < cs.len()
        invariant
            0 <= i <= cs@.len(),
            cs@ == value@,
            ok == (cs@.len() > 0 && forall|k: int| 0 <= k < i ==> #[trigger] cs@[k] != '/'),
        decreases cs@.len() - i,
    {
        if cs[i] == '/' {
            ok = false;
        }
        i = i + 1;
    }
    if !ok || str_eq(value, ".") || str_eq(value, "..") {
        return Err("server returned an unsafe artifact file name".to_owned());
    }
    Ok(value)
}

/// The path of the partial download next to its destination: the
/// destination with `.part` appended.
pub fn partial_path(destination: &str) -> (r: String)
    ensures
        r@ == destination@ + ".part"@,
{
    concat2(destination, ".part")
}

/// The error of `check_download`, if any: a size different from the
/// announced size, or a checksum different (ignoring ASCII case) from the
/// announced checksum.
pub open spec fn download_mismatch(m: ArtifactUrl, r: DownloadReceipt) -> Option<Seq<char>> {
    if m.size is Some && r.size != m.size->Some_0 {
        Some(
            "artifact size mismatch for "@ + m.file_name@ + ": expected "@ + decimal(
                m.size->Some_0 as nat,
            ) + ", got "@ + decimal(r.size as nat),
        )
    } else if m.checksum_sha256 is Some && !eq_ignore_ascii_case(
        r.checksum_sha256@,
        m.checksum_sha256->Some_0@,
    ) {
        Some("artifact checksum mismatch for "@ + m.file_name@)
    } else {
        None
    }
}

/// Checks a finished download against what the server announced.
pub fn check_download(metadata: &ArtifactUrl, receipt: &DownloadReceipt) -> (r: Result<(), String>)
    ensures
        match download_mismatch(*metadata, *receipt) {
            None => r is Ok,
            Some(m) => r is Err && r->Err_0@ == m,
        },
{
    match metadata.size {
        Some(expected) => {
            if receipt.size != expected {
                let mut message = concat2("artifact size mismatch for ", metadata.file_name.as_str());
                message.append(": expected ");
                message.append(u64_to_decimal(expected).as_str());
                message.append(", got ");
                message.append(u64_to_decimal(receipt.size).as_str());
                return Err(message);
            }
        },
        None => {},
    }
    match &metadata.checksum_sha256 {
        Some(expected) => {
            if !str_eq_ignore_ascii_case(receipt.checksum_sha256.as_str(), expected.as_str()) {
                return Err(concat2("artifact checksum mismatch for ", metadata.file_name.as_str()));
            }
        },
        None => {},
    }
    Ok(())
}

/// A fresh idempotency key: `ycloud-cli-` and 32 random lower-case hex
/// digits; fails with `RANDOM_UNAVAILABLE` when the random source cannot be
/// read.
pub fn new_idempotency_key() -> (r: Result<String, String>)
    ensures
        r matches Ok(k) ==> exists|v: u128| k@ == "ycloud-cli-"@ + crate::text::hex_fixed(
            v as nat,
            32,
        ),
        r matches Err(e) ==> e@ == RANDOM_UNAVAILABLE@,
{
    match random_u128() {
        Some(v) => {
            let mut r = "ycloud-cli-".to_owned();
            r.append(hex32(v).as_str());
            Ok(r)
        },
        None => Err(RANDOM_UNAVAILABLE.to_owned()),
    }
}

/// Whether a task completed with partial success (ignoring ASCII case).
pub fn partial_success(task: &ExportTask) -> (r: bool)
    ensures
        r == eq_ignore_ascii_case(task.status@, "PARTIAL_SUCCESS"@),
{
    str_eq_ignore_ascii_case(task.status.as_str(), "PARTIAL_SUCCESS")
}

/// A downloaded artifact and where it went.
#[derive(Debug, Clone)]
pub struct DownloadedArtifact {
    pub artifact_id: Option<String>,
    pub artifact_type: String,
    pub part_number: Option<u32>,
    pub path: String,
    pub size: u64,
    pub checksum_sha256: String,
}

/// The JSON form of a download.
pub open spec fn download_model(d: DownloadedArtifact) -> JsonModel {
    JsonModel::Object(
        seq![
            ("artifactId"@, opt_str_model(d.artifact_id)),
            ("artifactType"@, JsonModel::Str(d.artifact_type@)),
            ("partNumber"@, opt_u32_model(d.part_number)),
            ("path"@, JsonModel::Str(d.path@)),
            ("size"@, JsonModel::Number(decimal(d.size as nat))),
            ("checksumSha256"@, JsonModel::Str(d.checksum_sha256@)),
        ],
    )
}

impl DownloadedArtifact {
    /// The JSON form of a download.
    pub fn json(&self) -> (r: JsonValue)
        ensures
            model(r) == download_model(*self),
    {
        let mut body: Vec<(String, JsonValue)> = Vec::new();
        assert(members_model(body@) =~= Seq::<(Seq<char>, JsonModel)>::empty());
        push_member(&mut body, "artifactId", json_opt_str(&self.artifact_id));
        push_member(&mut body, "artifactType", json_str(self.artifact_type.as_str()));
        let part = match self.part_number {
            Some(n) => json_u64(n as u64),
            None => JsonValue::Null,
        };
        push_member(&mut body, "partNumber", part);
        push_member(&mut body, "path", json_str(self.path.as_str()));
        push_member(&mut body, "size", json_u64(self.size));
        push_member(&mut body, "checksumSha256", json_str(self.checksum_sha256.as_str()));
        assert(members_model(body@) =~= seq![
            ("artifactId"@, opt_str_model(self.artifact_id)),
            ("artifactType"@, JsonModel::Str(self.artifact_type@)),
            ("partNumber"@, opt_u32_model(self.part_number)),
            ("path"@, JsonModel::Str(self.path@)),
            ("size"@, JsonModel::Number(decimal(self.size as nat))),
            ("checksumSha256"@, JsonModel::Str(self.checksum_sha256@)),
        ]);
        JsonValue::Object(body)
    }

    /// The text line of a download:
    /// `<type>: <path> (<size> bytes, sha256=<checksum>)`.
    pub fn line(&self) -> (r: String)
        ensures
            r@ == self.artifact_type@ + ": "@ + self.path@ + " ("@ + decimal(self.size as nat)
                + " bytes, sha256="@ + self.checksum_sha256@ + ")"@,
    {
        let mut r = concat2(self.artifact_type.as_str(), ": ");
        r.append(self.path.as_str());
        r.append(" (");
        r.append(u64_to_decimal(self.size).as_str());
        r.append(" bytes, sha256=");
        r.append(self.checksum_sha256.as_str());
        r.append(")");
        r
    }
}

/// What to do after reading a task while waiting for it: stop with it when
/// it reached a final status; else fail once the deadline has passed; else
/// read it again (`Ok(false)`).
pub open spec fn poll_result(task: ExportTask, deadline_passed: bool) -> Result<bool, Seq<char>> {
    if crate::http::terminal_status(task.status@) {
        Ok(true)
    } else if deadline_passed {
        Err("timed out waiting for export task "@ + task.task_id@)
    } else {
        Ok(false)
    }
}

/// Decides one round of waiting for an export; see `poll_result`.
pub fn poll_decision(task: &ExportTask, deadline_passed: bool) -> (r: Result<bool, String>)
    ensures
        match poll_result(*task, deadline_passed) {
            Ok(done) => r == Ok::<bool, String>(done),
            Err(m) => r is Err && r->Err_0@ == m,
        },
{
    if task.terminal() {
        Ok(true)
    } else if deadline_passed {
        Err(concat2("timed out waiting for export task ", task.task_id.as_str()))
    } else {
        Ok(false)
    }
}

/// The text report of finished downloads: the task id, its status, then a
/// line per download.
pub open spec fn downloads_report(task: ExportTask, downloads: Seq<DownloadedArtifact>) -> Seq<char>
    decreases downloads.len(),
{
    if downloads.len() == 0 {
        "taskId: "@ + task.task_id@ + "\nstatus: "@ + task.status@ + "\n"@
    } else {
        let d = downloads.last();
        downloads_report(task, downloads.drop_last()) + d.artifact_type@ + ": "@ + d.path@ + " ("@
            + decimal(d.size as nat) + " bytes, sha256="@ + d.checksum_sha256@ + ")\n"@
    }
}

/// Writes the text report of finished downloads.
pub fn downloads_text(task: &ExportTask, downloads: &Vec<DownloadedArtifact>) -> (r: String)
    ensures
        r@ == downloads_report(*task, downloads@),
{
    let mut r = concat2("taskId: ", task.task_id.as_str());
    r.append("\nstatus: ");
    r.append(task.status.as_str());
    r.append("\n");
    let mut i: usize = 0;
    assert(downloads@.take(0) =~= Seq::<DownloadedArtifact>::empty());
    while i < downloads.len()
        invariant
            i <= downloads@.len(),
            r@ == downloads_report(*task, downloads@.take(i as int)),
        decreases downloads@.len() - i,
    {
        let ghost before = r@;
        let line = downloads[i].line();
        r.append(line.as_str());
        r.append("\n");
        assert(downloads@.take(i + 1).drop_last() =~= downloads@.take(i as int));
        assert(downloads@.take(i + 1).last() == downloads@[i as int]);
        proof {
            reveal_strlit(")\n");
            reveal_strlit(")");
            reveal_strlit("\n");
        }
        assert(r@ =~= before + line@ + "\n"@);
        assert(r@ =~= downloads_report(*task, downloads@.take(i + 1)));
        i = i + 1;
    }
    assert(downloads@.take(downloads@.len() as int) =~= downloads@);
    r
}

/// The JSON report of finished downloads: the task (as the caller renders
/// it) and the downloads.
pub fn downloads_json(task: JsonValue, downloads: &Vec<DownloadedArtifact>) -> (r: JsonValue)
    ensures
        model(r) == JsonModel::Object(
            seq![
                ("task"@, model(task)),
                ("downloads"@, JsonModel::Array(
                    downloads@.map_values(|d: DownloadedArtifact| download_model(d)),
                )),
            ],
        ),
{
    let ghost mt = model(task);
    let mut items: Vec<JsonValue> = Vec::new();
    let mut i: usize = 0;
    assert(elements_model(items@) =~= downloads@.take(0).map_values(
        |d: DownloadedArtifact| download_model(d),
    ));
    while i < downloads.len()
        invariant
            i <= downloads@.len(),
            items@.len() == i,
            elements_model(items@) == downloads@.take(i as int).map_values(
                |d: DownloadedArtifact| download_model(d),
            ),
        decreases downloads@.len() - i,
    {
        let ghost before = items@;
        items.push(downloads[i].json());
        assert(items@.subrange(0, items@.len() - 1) =~= before);
        assert(elements_model(items@) =~= downloads@.take(i + 1).map_values(
            |d: DownloadedArtifact| download_model(d),
        ));
        i = i + 1;
    }
    assert(downloads@.take(downloads@.len() as int) =~= downloads@);
    let mut m: Vec<(String, JsonValue)> = Vec::new();
    assert(members_model(m@) =~= Seq::<(Seq<char>, JsonModel)>::empty());
    push_member(&mut m, "task", task);
    push_member(&mut m, "downloads", JsonValue::Array(items));
    assert(members_model(m@) =~= seq![
        ("task"@, mt),
        ("downloads"@, JsonModel::Array(
            downloads@.map_values(|d: DownloadedArtifact| download_model(d)),
        )),
    ]);
    JsonValue::Object(m)
}

} // verus!
