use ycloud_console_cli::cli::{
    ConversationExportArgs, ConversationFilterArgs, ExportArtifactType, ExportFormat,
    ExportWaitArgs,
};
use ycloud_console_cli::export::{
    check_download, conversation_export_request, conversation_filter, downloads_text,
    ensure_downloadable, partial_path, poll_decision, safe_file_name, select_artifacts,
    task_request, DownloadedArtifact,
};
use ycloud_console_cli::http::{ArtifactUrl, DownloadReceipt, ExportArtifact, ExportTask};
use ycloud_console_cli::json::JsonValue;

fn wait_args() -> ExportWaitArgs {
    ExportWaitArgs {
        no_wait: true,
        output_dir: ".".to_string(),
        artifacts: Vec::new(),
        timeout_seconds: 3600,
        json: false,
    }
}

#[test]
fn rejects_path_traversal_from_server_file_name() {
    assert!(safe_file_name("../contacts.csv").is_err());
    assert!(safe_file_name("nested/contacts.csv").is_err());
    assert_eq!(safe_file_name("contacts.csv").unwrap(), "contacts.csv");
}

#[test]
fn filter_omits_empty_values() {
    let value = conversation_filter(&ConversationFilterArgs {
        condition: Some("vip".to_string()),
        ..ConversationFilterArgs::default()
    });
    assert_eq!(
        value,
        JsonValue::Object(vec![(
            "condition".to_string(),
            JsonValue::Str("vip".to_string())
        )])
    );
}

#[test]
fn conversation_export_always_requests_messages() {
    let request = conversation_export_request(&ConversationExportArgs {
        filter: ConversationFilterArgs::default(),
        columns: Vec::new(),
        format: ExportFormat::Auto,
        no_contacts: false,
        archive: false,
        timezone: "GMT".to_string(),
        file_name: None,
        idempotency_key: None,
        wait: wait_args(),
    });

    assert_eq!(request.get("includeMessages"), Some(&JsonValue::Bool(true)));
    assert_eq!(request.get("includeContacts"), Some(&JsonValue::Bool(true)));
}

#[test]
fn task_requests_name_the_task() {
    assert_eq!(
        task_request("task-1"),
        JsonValue::Object(vec![(
            "taskId".to_string(),
            JsonValue::Str("task-1".to_string())
        )])
    );
}

fn artifact(kind: &str, status: &str) -> ExportArtifact {
    ExportArtifact {
        artifact_id: None,
        artifact_type: kind.to_string(),
        part_number: None,
        format: None,
        file_name: None,
        status: status.to_string(),
        record_count: None,
        size: None,
        checksum_sha256: None,
    }
}

fn task(status: &str, artifacts: Vec<ExportArtifact>) -> ExportTask {
    ExportTask {
        task_id: "task-1".to_string(),
        task_type: "CONVERSATION_EXPORT".to_string(),
        status: status.to_string(),
        progress: 100,
        record_count: None,
        previous_task_id: None,
        truncated: None,
        truncation_reason: None,
        artifacts,
        warnings: Vec::new(),
        error_code: None,
        error_message: None,
    }
}

#[test]
fn default_selection_skips_archive_and_unready_artifacts() {
    let t = task(
        "FINISHED",
        vec![
            artifact("CONVERSATIONS", "READY"),
            artifact("ARCHIVE", "READY"),
            artifact("CONTACTS", "FAILED"),
            artifact("messages", "ready"),
        ],
    );
    assert_eq!(select_artifacts(&t, &vec![]).unwrap(), [0, 3]);
    assert_eq!(
        select_artifacts(&t, &vec![ExportArtifactType::Archive]).unwrap(),
        [1]
    );
    let err = select_artifacts(&t, &vec![ExportArtifactType::Contacts]).unwrap_err();
    assert_eq!(err, "export task task-1 has no ready artifacts");
}

#[test]
fn only_finished_tasks_are_downloadable() {
    assert!(ensure_downloadable(&task("finished", vec![])).is_ok());
    assert!(ensure_downloadable(&task("PARTIAL_SUCCESS", vec![])).is_ok());
    let mut failed = task("FAILED", vec![]);
    assert_eq!(
        ensure_downloadable(&failed).unwrap_err(),
        "export task task-1 failed: unknown export failure"
    );
    failed.error_message = Some("quota".to_string());
    assert_eq!(
        ensure_downloadable(&failed).unwrap_err(),
        "export task task-1 failed: quota"
    );
    assert_eq!(
        ensure_downloadable(&task("running", vec![])).unwrap_err(),
        "export task task-1 is not ready: RUNNING"
    );
}

#[test]
fn downloads_are_checked_against_metadata() {
    let metadata = ArtifactUrl {
        task_id: "task-1".to_string(),
        artifact_id: None,
        artifact_type: "CONTACTS".to_string(),
        part_number: None,
        file_name: "contacts.csv".to_string(),
        url: "https://example.invalid/contacts.csv".to_string(),
        expires_at: 0,
        size: Some(10),
        checksum_sha256: Some("ABCDEF".to_string()),
    };
    let good = DownloadReceipt {
        size: 10,
        checksum_sha256: "abcdef".to_string(),
    };
    assert!(check_download(&metadata, &good).is_ok());
    let short = DownloadReceipt {
        size: 9,
        checksum_sha256: "abcdef".to_string(),
    };
    assert_eq!(
        check_download(&metadata, &short).unwrap_err(),
        "artifact size mismatch for contacts.csv: expected 10, got 9"
    );
    let tampered = DownloadReceipt {
        size: 10,
        checksum_sha256: "abcdee".to_string(),
    };
    assert_eq!(
        check_download(&metadata, &tampered).unwrap_err(),
        "artifact checksum mismatch for contacts.csv"
    );
    assert_eq!(partial_path("out/contacts.csv"), "out/contacts.csv.part");
}

#[test]
fn waiting_stops_at_final_status_or_deadline() {
    assert_eq!(poll_decision(&task("PARTIAL_SUCCESS", vec![]), true), Ok(true));
    assert_eq!(poll_decision(&task("RUNNING", vec![]), false), Ok(false));
    assert_eq!(
        poll_decision(&task("RUNNING", vec![]), true).unwrap_err(),
        "timed out waiting for export task task-1"
    );
}

#[test]
fn download_report_lists_each_artifact() {
    let downloads = vec![DownloadedArtifact {
        artifact_id: None,
        artifact_type: "CONTACTS".to_string(),
        part_number: None,
        path: "./contacts.csv".to_string(),
        size: 12,
        checksum_sha256: "ff".to_string(),
    }];
    assert_eq!(
        downloads_text(&task("FINISHED", vec![]), &downloads),
        "taskId: task-1\nstatus: FINISHED\nCONTACTS: ./contacts.csv (12 bytes, sha256=ff)\n"
    );
}
