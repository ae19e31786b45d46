use vstd::prelude::*;
use crate::types::{now_millis, random_id};

verus! {

/// The kinds of operation the audit trail records.
#[derive(Debug, Clone, Copy, PartialEq, Eq, Structural)]
pub enum AuditOperation {
    FileCopy,
    FileMove,
    FileDelete,
    DirectoryCreate,
    DirectoryDelete,
    PermissionChange,
    SSHConnect,
    SSHDisconnect,
    CaseConflictResolved,
    TransferStarted,
    TransferCompleted,
    TransferFailed,
}

/// The name that stands for an operation in requests.
pub open spec fn operation_name(op: AuditOperation) -> Seq<char> {
    match op {
        AuditOperation::FileCopy => "file_copy"@,
        AuditOperation::FileMove => "file_move"@,
        AuditOperation::FileDelete => "file_delete"@,
        AuditOperation::DirectoryCreate => "directory_create"@,
        AuditOperation::DirectoryDelete => "directory_delete"@,
        AuditOperation::PermissionChange => "permission_change"@,
        AuditOperation::SSHConnect => "ssh_connect"@,
        AuditOperation::SSHDisconnect => "ssh_disconnect"@,
        AuditOperation::CaseConflictResolved => "case_conflict_resolved"@,
        AuditOperation::TransferStarted => "transfer_started"@,
        AuditOperation::TransferCompleted => "transfer_completed"@,
        AuditOperation::TransferFailed => "transfer_failed"@,
    }
}

impl AuditOperation {
    /// The operation named `name` (`file_copy`, `ssh_connect`, ...), or
    /// `None` for a name that is not one of them.
    pub fn from_name(name: &str) -> (r: Option<AuditOperation>)
        ensures
            r matches Some(op) ==> operation_name(op) == name@,
            r is None ==> forall|op: AuditOperation| operation_name(op) != name@,
    {
        let s = String::from_str(name);
        if s == String::from_str("file_copy") {
            return Some(AuditOperation::FileCopy);
        }
        if s == String::from_str("file_move") {
            return Some(AuditOperation::FileMove);
        }
        if s == String::from_str("file_delete") {
            return Some(AuditOperation::FileDelete);
        }
        if s == String::from_str("directory_create") {
            return Some(AuditOperation::DirectoryCreate);
        }
        if s == String::from_str("directory_delete") {
            return Some(AuditOperation::DirectoryDelete);
        }
        if s == String::from_str("permission_change") {
            return Some(AuditOperation::PermissionChange);
        }
        if s == String::from_str("ssh_connect") {
            return Some(AuditOperation::SSHConnect);
        }
        if s == String::from_str("ssh_disconnect") {
            return Some(AuditOperation::SSHDisconnect);
        }
        if s == String::from_str("case_conflict_resolved") {
            return Some(AuditOperation::CaseConflictResolved);
        }
        if s == String::from_str("transfer_started") {
            return Some(AuditOperation::TransferStarted);
        }
        if s == String::from_str("transfer_completed") {
            return Some(AuditOperation::TransferCompleted);
        }
        if s == String::from_str("transfer_failed") {
            return Some(AuditOperation::TransferFailed);
        }
        None
    }
}

/// One record of the audit trail. `timestamp` is in milliseconds since the
/// Unix epoch.
#[derive(Debug, Clone)]
pub struct AuditEntry {
    pub id: String,
    pub timestamp: i64,
    pub operation: AuditOperation,
    pub user: String,
    pub source_path: Option<String>,
    pub dest_path: Option<String>,
    pub file_size: Option<u64>,
    pub success: bool,
    pub error_message: Option<String>,
    pub session_id: String,
}

impl AuditEntry {
    /// A record of `operation` by `user` in session `session_id`, under a
    /// fresh random id and stamped with the current time.
    pub fn new(
        operation: AuditOperation,
        source_path: Option<String>,
        dest_path: Option<String>,
        file_size: Option<u64>,
        success: bool,
        error_message: Option<String>,
        user: String,
        session_id: String,
    ) -> (r: AuditEntry)
        ensures
            r.operation == operation,
            r.source_path == source_path,
            r.dest_path == dest_path,
            r.file_size == file_size,
            r.success == success,
            r.error_message == error_message,
            r.user == user,
            r.session_id == session_id,
    {
        AuditEntry {
            id: random_id(),
            timestamp: now_millis(),
            operation,
            user,
            source_path,
            dest_path,
            file_size,
            success,
            error_message,
            session_id,
        }
    }
}

/// How many of `entries` record a success.
pub open spec fn count_successes(entries: Seq<AuditEntry>) -> nat
    decreases entries.len(),
{
    if entries.len() == 0 {
        0
    } else {
        count_successes(entries.drop_last()) + if entries.last().success {
            1nat
        } else {
            0nat
        }
    }
}

proof fn lemma_successes_le_len(entries: Seq<AuditEntry>)
    ensures
        count_successes(entries) <= entries.len(),
    decreases entries.len(),
{
    if entries.len() > 0 {
        lemma_successes_le_len(entries.drop_last());
    }
}

/// The audit trail with its counts. `last_updated` is in milliseconds since
/// the Unix epoch.
#[derive(Debug, Clone)]
pub struct AuditLog {
    pub entries: Vec<AuditEntry>,
    pub total_operations: usize,
    pub successful_operations: usize,
    pub failed_operations: usize,
    pub last_updated: i64,
}

impl AuditLog {
    /// The statistics of `entries` as of `now`: how many there are, and how
    /// many succeeded and failed.
    pub fn from_entries(entries: Vec<AuditEntry>, now: i64) -> (r: AuditLog)
        ensures
            r.entries == entries,
            r.total_operations == entries@.len(),
            r.successful_operations == count_successes(entries@),
            r.failed_operations == entries@.len() - count_successes(entries@),
            r.last_updated == now,
    {
        let mut successes: usize = 0;
        let mut i: usize = 0;
        while i < entries.len()
            invariant
                i <= entries@.len(),
                successes == count_successes(entries@.subrange(0, i as int)),
            decreases entries@.len() - i,
        {
            proof {
                assert(entries@.subrange(0, i as int + 1).drop_last() =~= entries@.subrange(
                    0,
                    i as int,
                ));
                lemma_successes_le_len(entries@.subrange(0, i as int));
            }
            if entries[i].success {
                successes = successes + 1;
            }
            i = i + 1;
        }
        proof {
            assert(entries@.subrange(0, i as int) =~= entries@);
            lemma_successes_le_len(entries@);
        }
        let total: usize = entries.len();
        AuditLog {
            entries,
            total_operations: total,
            successful_operations: successes,
            failed_operations: total - successes,
            last_updated: now,
        }
    }
}

} // verus!
