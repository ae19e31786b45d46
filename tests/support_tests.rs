use circle9::audit_log::{AuditEntry, AuditLog, AuditOperation};
use circle9::case_agent::{CaseAgent, CaseResolution};
use circle9::error::Circle9Error;
use circle9::paths::{display_file_name, validate_path};
use circle9::secure_storage::SecureStorage;
use circle9::types::TaskId;

#[test]
fn password_files_are_named_per_service_and_user() {
    assert_eq!(SecureStorage::key_file_path("circle9", "bob"), "secure/circle9_bob.key");
}

#[test]
fn passwords_are_stored_as_base64() {
    assert_eq!(SecureStorage::encode_password("hunter2"), "aHVudGVyMg==");
    assert_eq!(SecureStorage::decode_password("aHVudGVyMg==").unwrap(), "hunter2");
    let stored = SecureStorage::encode_password("pässwörd");
    assert_eq!(SecureStorage::decode_password(&stored).unwrap(), "pässwörd");
}

#[test]
fn undecodable_passwords_are_refused() {
    assert!(matches!(SecureStorage::decode_password("!!!"), Err(Circle9Error::InvalidPath(_))));
    assert!(matches!(SecureStorage::decode_password("/w=="), Err(Circle9Error::InvalidPath(_))));
}

#[test]
fn traversal_is_rejected() {
    assert!(matches!(validate_path("a/../b"), Err(Circle9Error::InvalidPath(_))));
    assert!(validate_path("..").is_err());
    assert!(validate_path("/srv/data/..").is_err());
    assert!(validate_path("/srv/..data/x..").is_ok());
    assert!(validate_path("/srv/data/./file").is_ok());
    assert!(validate_path("").is_ok());
}

#[test]
fn shown_file_names() {
    assert_eq!(display_file_name("/a/b/report.bin"), "report.bin");
    assert_eq!(display_file_name("/"), "unknown");
    assert_eq!(display_file_name("/a/.."), "unknown");
}

#[test]
fn unique_names_skip_taken_ones() {
    let taken = vec!["Report_1.TXT".to_string(), "Report_2.TXT".to_string()];
    assert_eq!(CaseAgent::generate_unique_name("/dst/Report.TXT", &taken).unwrap(), "Report_3.TXT");
    assert_eq!(CaseAgent::generate_unique_name("/dst/Makefile", &vec![]).unwrap(), "Makefile_1");
    let all: Vec<String> = (1..=1000).map(|n| format!("x_{}.y", n)).collect();
    assert!(matches!(CaseAgent::generate_unique_name("/d/x.y", &all), Err(Circle9Error::InvalidPath(_))));
}

#[test]
fn names_differing_only_in_case_conflict() {
    let mut agent = CaseAgent::new();
    let c = agent
        .check_windows_to_linux_conflict("/src/README.md", "/dst/readme.md", &vec![])
        .unwrap()
        .unwrap();
    assert_eq!(c.original_name, "README.md");
    assert_eq!(c.conflict_name, "readme.md");
    assert!(matches!(c.resolution, CaseResolution::AutoRename(ref n) if n == "readme_1.md"));
    assert!(agent.check_windows_to_linux_conflict("/src/a.txt", "/dst/a.txt", &vec![]).unwrap().is_none());
    assert!(agent.check_windows_to_linux_conflict("/src/a.txt", "/dst/b.txt", &vec![]).unwrap().is_none());
    let log = agent.get_conflict_log();
    assert_eq!(log.total_conflicts, 1);
    assert_eq!(log.auto_resolved, 1);
    assert_eq!(log.user_prompts, 0);
}

#[test]
fn existing_windows_destination_asks_the_user() {
    let mut agent = CaseAgent::new();
    assert!(agent.check_linux_to_windows_conflict("/src/a", "C/dst/A", false).is_none());
    let c = agent.check_linux_to_windows_conflict("/src/a", "/dst/A", true).unwrap();
    assert!(matches!(c.resolution, CaseResolution::UserPrompt));
    assert_eq!(agent.get_conflict_log().user_prompts, 1);
    assert_eq!(agent.get_conflict_log().conflicts.len(), 1);
    agent.clear_conflict_log();
    assert_eq!(agent.get_conflict_log().total_conflicts, 0);
    assert!(agent.get_conflict_log().conflicts.is_empty());
}

#[test]
fn resolutions_are_recorded_and_replaced() {
    let mut agent = CaseAgent::new();
    assert_eq!(agent.get_resolved_name("a.txt"), None);
    agent.record_resolution("a.txt".to_string(), "a_1.txt".to_string());
    agent.record_resolution("a.txt".to_string(), "a_2.txt".to_string());
    agent.record_resolution("b.txt".to_string(), "b_1.txt".to_string());
    assert_eq!(agent.get_resolved_name("a.txt"), Some("a_2.txt".to_string()));
    assert_eq!(agent.get_resolved_name("b.txt"), Some("b_1.txt".to_string()));
}

#[test]
fn names_compare_without_case() {
    assert_eq!(CaseAgent::normalize_filename("ReadMe.TXT"), "readme.txt");
    assert!(CaseAgent::filenames_equal_ignore_case("ÄBC.txt", "äbc.TXT"));
    assert!(!CaseAgent::filenames_equal_ignore_case("a.txt", "b.txt"));
}

#[test]
fn audit_operation_names() {
    assert_eq!(AuditOperation::from_name("ssh_connect"), Some(AuditOperation::SSHConnect));
    assert_eq!(AuditOperation::from_name("transfer_failed"), Some(AuditOperation::TransferFailed));
    assert_eq!(AuditOperation::from_name("file_copy"), Some(AuditOperation::FileCopy));
    assert_eq!(AuditOperation::from_name("FILE_COPY"), None);
}

#[test]
fn audit_statistics_count_outcomes() {
    let entry = |ok: bool| {
        AuditEntry::new(
            AuditOperation::FileCopy,
            Some("/a".to_string()),
            None,
            Some(3),
            ok,
            None,
            "alice".to_string(),
            "s1".to_string(),
        )
    };
    let e = entry(true);
    assert_eq!(e.id.len(), 36);
    assert_eq!(e.user, "alice");
    assert_eq!(e.session_id, "s1");
    let log = AuditLog::from_entries(vec![entry(true), entry(false), entry(true)], 42);
    assert_eq!(log.total_operations, 3);
    assert_eq!(log.successful_operations, 2);
    assert_eq!(log.failed_operations, 1);
    assert_eq!(log.last_updated, 42);
    let empty = AuditLog::from_entries(vec![], 0);
    assert_eq!(empty.total_operations, 0);
}

#[test]
fn error_messages() {
    assert_eq!(Circle9Error::Timeout.message(), "Operation timeout");
    assert_eq!(Circle9Error::MutexPoisoned.message(), "Mutex poisoned");
    assert_eq!(Circle9Error::InvalidPath("x".to_string()).message(), "Invalid path: x");
    assert_eq!(
        Circle9Error::AuthenticationError("no key".to_string()).message(),
        "Authentication failed: no key"
    );
    assert_eq!(Circle9Error::TransportError("t".to_string()).message(), "Transport error: t");
    assert_eq!(Circle9Error::SourceUnavailable("s".to_string()).message(), "Source unavailable: s");
    assert_eq!(
        Circle9Error::InvalidStateTransition("i".to_string()).message(),
        "Invalid state transition: i"
    );
    assert_eq!(Circle9Error::TransferError("f".to_string()).message(), "File transfer failed: f");
}

#[test]
fn task_ids_are_random_uuids() {
    let a = TaskId::new();
    let b = TaskId::new();
    assert_eq!(a.as_str().len(), 36);
    assert_ne!(a.as_str(), b.as_str());
    let c: TaskId = TaskId::from("fixed".to_string());
    assert_eq!(c.as_str(), "fixed");
}

#[test]
fn traversal_through_backslashes_is_rejected() {
    assert!(validate_path("..\\x").is_err());
    assert!(validate_path("a\\..\\b").is_err());
    assert!(validate_path("a/..\\b").is_err());
    assert!(validate_path("a\\..b").is_ok());
}
