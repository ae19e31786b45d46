use vstd::prelude::*;
use crate::error::Circle9Error;
use crate::types::{lemma_remove_keeps_no_dup, now_millis, random_id, string_views};
use crate::paths::{display_file_name, display_name};

verus! {

/// Bytes moved per read/write step of a copy loop.
pub const CHUNK_SIZE: usize = 8192;

/// How many transfers may run at once unless configured otherwise.
pub const DEFAULT_MAX_CONCURRENT_TRANSFERS: usize = 3;

#[derive(Debug, Clone, Copy, PartialEq, Eq, Structural)]
pub enum TransferDirection {
    /// Local machine to remote host (an upload).
    WindowsToLinux,
    /// Remote host to local machine (a download).
    LinuxToWindows,
}

#[derive(Debug, Clone, Copy, PartialEq, Eq, Structural)]
pub enum TransferStatus {
    Pending,
    InProgress,
    Completed,
    Failed,
    Cancelled,
}

/// The direction that `name` stands for in requests, if any.
pub open spec fn direction_named(name: Seq<char>) -> Option<TransferDirection> {
    if name == "windows_to_linux"@ {
        Some(TransferDirection::WindowsToLinux)
    } else if name == "linux_to_windows"@ {
        Some(TransferDirection::LinuxToWindows)
    } else {
        None
    }
}

impl TransferDirection {
    /// The direction named `windows_to_linux` or `linux_to_windows`, or
    /// `None` for any other name.
    pub fn from_name(name: &str) -> (r: Option<TransferDirection>)
        ensures
            r == direction_named(name@),
    {
        let s = String::from_str(name);
        if s == String::from_str("windows_to_linux") {
            Some(TransferDirection::WindowsToLinux)
        } else if s == String::from_str("linux_to_windows") {
            Some(TransferDirection::LinuxToWindows)
        } else {
            None
        }
    }
}

/// The lifecycle moves a task may make in one operation: a status may stay,
/// or move along `Pending -> InProgress -> {Completed | Failed | Cancelled}`,
/// `Pending -> Cancelled`, or back from `Failed` to `Pending` on retry.
pub open spec fn legal_transition(from: TransferStatus, to: TransferStatus) -> bool {
    ||| from == to
    ||| (from == TransferStatus::Pending && to == TransferStatus::InProgress)
    ||| (from == TransferStatus::InProgress && to == TransferStatus::Completed)
    ||| (from == TransferStatus::InProgress && to == TransferStatus::Failed)
    ||| (from == TransferStatus::InProgress && to == TransferStatus::Cancelled)
    ||| (from == TransferStatus::Pending && to == TransferStatus::Cancelled)
    ||| (from == TransferStatus::Failed && to == TransferStatus::Pending)
}

/// One file-copy job. Times are milliseconds since the Unix epoch.
#[derive(Debug, Clone)]
pub struct TransferTask {
    pub id: String,
    pub source_path: String,
    pub dest_path: String,
    pub direction: TransferDirection,
    pub status: TransferStatus,
    pub total_bytes: u64,
    pub transferred_bytes: u64,
    pub created_at: i64,
    pub started_at: Option<i64>,
    pub completed_at: Option<i64>,
    pub error: Option<String>,
}

impl TransferTask {
    /// Progress never passes the total, a completed task has moved every
    /// byte, a pending task has moved none, and only a failed or cancelled
    /// task can carry an error.
    pub open spec fn progress_ok(&self) -> bool {
        &&& self.transferred_bytes <= self.total_bytes
        &&& (self.status == TransferStatus::Completed ==> self.transferred_bytes
            == self.total_bytes)
        &&& (self.status == TransferStatus::Pending ==> self.transferred_bytes == 0)
        &&& (self.status == TransferStatus::Pending || self.status == TransferStatus::InProgress
            || self.status == TransferStatus::Completed ==> self.error is None)
    }

    /// A field-by-field copy.
    pub fn duplicate(&self) -> (r: TransferTask)
        ensures
            r == *self,
    {
        let error = match &self.error {
            Some(e) => Some(e.clone()),
            None => None,
        };
        TransferTask {
            id: self.id.clone(),
            source_path: self.source_path.clone(),
            dest_path: self.dest_path.clone(),
            direction: self.direction,
            status: self.status,
            total_bytes: self.total_bytes,
            transferred_bytes: self.transferred_bytes,
            created_at: self.created_at,
            started_at: self.started_at,
            completed_at: self.completed_at,
            error,
        }
    }
}

/// How many of `tasks` are in progress.
pub open spec fn count_in_progress(tasks: Seq<TransferTask>) -> nat
    decreases tasks.len(),
{
    if tasks.len() == 0 {
        0
    } else {
        count_in_progress(tasks.drop_last()) + if tasks.last().status
            == TransferStatus::InProgress {
            1nat
        } else {
            0nat
        }
    }
}

/// How many times `x` occurs in `q`.
pub open spec fn occurrences(q: Seq<Seq<char>>, x: Seq<char>) -> nat
    decreases q.len(),
{
    if q.len() == 0 {
        0
    } else {
        occurrences(q.drop_last(), x) + if q.last() == x {
            1nat
        } else {
            0nat
        }
    }
}

/// Whether some task carries the id `id`.
pub open spec fn has_task(tasks: Seq<TransferTask>, id: Seq<char>) -> bool {
    exists|i: int| 0 <= i < tasks.len() && #[trigger] tasks[i].id@ == id
}

/// Every task of `before` keeps its place, its id and every field in `after`,
/// except the task whose id is `id`.
pub open spec fn others_unchanged(
    before: Seq<TransferTask>,
    after: Seq<TransferTask>,
    id: Seq<char>,
) -> bool {
    &&& after.len() == before.len()
    &&& forall|i: int| 0 <= i < before.len() && before[i].id@ != id ==> #[trigger] after[i] == before[i]
}

/// Each task keeps its place and id, and each status moves legally; tasks
/// past the old length are new and pending.
pub open spec fn evolves(before: Seq<TransferTask>, after: Seq<TransferTask>) -> bool {
    &&& after.len() >= before.len()
    &&& forall|i: int|
        0 <= i < before.len() ==> (#[trigger] after[i]).id@ == before[i].id@ && legal_transition(
            before[i].status,
            after[i].status,
        )
    &&& forall|i: int| before.len() <= i < after.len() ==> (#[trigger] after[i]).status
        == TransferStatus::Pending
}

/// The task as it is once started at time `now`.
pub open spec fn started(t: TransferTask, now: i64) -> TransferTask {
    TransferTask { status: TransferStatus::InProgress, started_at: Some(now), ..t }
}

/// The task as it is after a cancel request: pending and running tasks are
/// cancelled, others stay as they are.
pub open spec fn cancelled(t: TransferTask) -> TransferTask {
    if t.status == TransferStatus::Pending || t.status == TransferStatus::InProgress {
        TransferTask { status: TransferStatus::Cancelled, ..t }
    } else {
        t
    }
}

/// The task as it is after a retry: pending again, with no progress and no
/// error.
pub open spec fn reset_for_retry(t: TransferTask) -> TransferTask {
    TransferTask { status: TransferStatus::Pending, transferred_bytes: 0, error: None, ..t }
}

/// The error detail of a task whose source did not match its recorded size.
pub open spec fn size_changed_message() -> Seq<char> {
    "the source's size changed during the transfer"@
}

/// `after` is `before` failed with the detail `message`.
pub open spec fn failed_with(before: TransferTask, after: TransferTask, message: Seq<char>) -> bool {
    &&& after == TransferTask { status: TransferStatus::Failed, error: after.error, ..before }
    &&& after.error is Some
    &&& after.error->Some_0@ == message
}

/// Whether some task with id `id` has status `status`.
pub open spec fn has_task_with_status(
    tasks: Seq<TransferTask>,
    id: Seq<char>,
    status: TransferStatus,
) -> bool {
    exists|i: int| 0 <= i < tasks.len() && #[trigger] tasks[i].id@ == id && tasks[i].status == status
}

/// A point-in-time progress readout for one task. The percentage is given
/// in hundredths of a percent; speed is the average over the whole time since
/// the task started.
#[derive(Debug, Clone)]
pub struct TransferProgress {
    pub task_id: String,
    pub filename: String,
    pub direction: String,
    pub bytes_transferred: u64,
    pub total_bytes: u64,
    pub percentage_basis_points: u64,
    pub speed_bytes_per_sec: u64,
    pub estimated_remaining_secs: u64,
}

/// `transferred` as a share of `total` in hundredths of a percent, rounded
/// down; 0 for an empty total.
pub open spec fn basis_points(transferred: nat, total: nat) -> nat {
    if total == 0 {
        0
    } else {
        transferred * 10000 / total
    }
}

/// Bytes per second over `elapsed_ms` milliseconds, rounded down and held
/// to what a `u64` can hold; 0 when no time has passed.
pub open spec fn speed_of(transferred: nat, elapsed_ms: nat) -> nat {
    if elapsed_ms == 0 {
        0
    } else if transferred * 1000 / elapsed_ms > u64::MAX {
        u64::MAX as nat
    } else {
        transferred * 1000 / elapsed_ms
    }
}

/// Seconds left for `remaining` bytes at `speed` bytes per second; 0 when the
/// speed is 0.
pub open spec fn remaining_secs(remaining: nat, speed: nat) -> nat {
    if speed == 0 {
        0
    } else {
        remaining / speed
    }
}

/// Milliseconds since the task started, 0 before it has.
pub open spec fn elapsed_ms(t: TransferTask, now: i64) -> nat {
    match t.started_at {
        Some(s) => if now > s {
            (now - s) as nat
        } else {
            0
        },
        None => 0,
    }
}

/// The label of a direction.
pub open spec fn direction_label(d: TransferDirection) -> Seq<char> {
    match d {
        TransferDirection::WindowsToLinux => "upload"@,
        TransferDirection::LinuxToWindows => "download"@,
    }
}

/// `p` is the readout of task `t` at time `now`.
pub open spec fn progress_matches(p: TransferProgress, t: TransferTask, now: i64) -> bool {
    let speed = speed_of(t.transferred_bytes as nat, elapsed_ms(t, now));
    &&& p.task_id@ == t.id@
    &&& p.filename@ == display_name(t.source_path@)
    &&& p.direction@ == direction_label(t.direction)
    &&& p.bytes_transferred == t.transferred_bytes
    &&& p.total_bytes == t.total_bytes
    &&& p.percentage_basis_points == basis_points(t.transferred_bytes as nat, t.total_bytes as nat)
    &&& p.speed_bytes_per_sec == speed
    &&& p.estimated_remaining_secs == remaining_secs(
        (t.total_bytes - t.transferred_bytes) as nat,
        speed,
    )
}

/// `transferred` of `total` bytes in hundredths of a percent.
pub fn percent_basis_points(transferred: u64, total: u64) -> (r: u64)
    requires
        transferred <= total,
    ensures
        r == basis_points(transferred as nat, total as nat),
        r <= 10000,
{
    if total == 0 {
        return 0;
    }
    proof {
        assert(transferred as nat * 10000 <= total as nat * 10000) by (nonlinear_arith)
            requires transferred <= total;
        assert(transferred as nat * 10000 / total as nat <= 10000) by (nonlinear_arith)
            requires transferred as nat * 10000 <= total as nat * 10000, total > 0;
    }
    let r: u128 = (transferred as u128 * 10000) / (total as u128);
    r as u64
}

/// Average speed in bytes per second of `transferred` bytes moved in
/// `elapsed_ms` milliseconds.
pub fn transfer_speed(transferred: u64, elapsed_ms: u64) -> (r: u64)
    ensures
        r == speed_of(transferred as nat, elapsed_ms as nat),
{
    if elapsed_ms == 0 {
        return 0;
    }
    proof {
        assert(transferred as nat * 1000 <= u64::MAX as nat * 1000) by (nonlinear_arith)
            requires transferred <= u64::MAX;
    }
    let r: u128 = (transferred as u128 * 1000) / (elapsed_ms as u128);
    if r > u64::MAX as u128 {
        u64::MAX
    } else {
        r as u64
    }
}

/// Seconds left for `remaining` bytes at `speed` bytes per second.
pub fn estimated_remaining_secs(remaining: u64, speed: u64) -> (r: u64)
    ensures
        r == remaining_secs(remaining as nat, speed as nat),
{
    if speed == 0 {
        0
    } else {
        remaining / speed
    }
}

/// The label of a direction: `upload` or `download`.
pub fn direction_name(d: TransferDirection) -> (r: String)
    ensures
        r@ == direction_label(d),
{
    match d {
        TransferDirection::WindowsToLinux => String::from_str("upload"),
        TransferDirection::LinuxToWindows => String::from_str("download"),
    }
}

proof fn lemma_count_update(tasks: Seq<TransferTask>, i: int, t: TransferTask)
    requires
        0 <= i < tasks.len(),
    ensures
        count_in_progress(tasks.update(i, t)) + (if tasks[i].status == TransferStatus::InProgress {
            1int
        } else {
            0int
        }) == count_in_progress(tasks) + (if t.status == TransferStatus::InProgress {
            1int
        } else {
            0int
        }),
    decreases tasks.len(),
{
    let u = tasks.update(i, t);
    if i == tasks.len() - 1 {
        assert(u.drop_last() =~= tasks.drop_last());
    } else {
        assert(u.drop_last() =~= tasks.drop_last().update(i, t));
        lemma_count_update(tasks.drop_last(), i, t);
    }
}

proof fn lemma_count_push(tasks: Seq<TransferTask>, t: TransferTask)
    requires
        t.status != TransferStatus::InProgress,
    ensures
        count_in_progress(tasks.push(t)) == count_in_progress(tasks),
{
    assert(tasks.push(t).drop_last() =~= tasks);
}

proof fn lemma_count_le_len(tasks: Seq<TransferTask>)
    ensures
        count_in_progress(tasks) <= tasks.len(),
    decreases tasks.len(),
{
    if tasks.len() > 0 {
        lemma_count_le_len(tasks.drop_last());
    }
}

proof fn lemma_occurrences_absent(q: Seq<Seq<char>>, x: Seq<char>)
    requires
        !q.contains(x),
    ensures
        occurrences(q, x) == 0,
    decreases q.len(),
{
    if q.len() > 0 {
        assert(!q.drop_last().contains(x)) by {
            if q.drop_last().contains(x) {
                let k = choose|k: int| 0 <= k < q.drop_last().len() && q.drop_last()[k] == x;
                assert(q[k] == x);
            }
        }
        lemma_occurrences_absent(q.drop_last(), x);
    }
}

proof fn lemma_occurrences_push_new(q: Seq<Seq<char>>, x: Seq<char>)
    requires
        !q.contains(x),
    ensures
        occurrences(q.push(x), x) == 1,
{
    lemma_occurrences_absent(q, x);
    assert(q.push(x).drop_last() =~= q);
}

/// The store of transfer tasks and the queue of tasks waiting to start.
///
/// Every task ever submitted stays in the store; ids are unique. The queue
/// holds the id of each pending task exactly once, in order of submission or
/// retry, and nothing else. No more than the configured number of tasks are
/// in progress at any time.
pub struct CopyAgent {
    tasks: Vec<TransferTask>,
    queue: Vec<String>,
    max_concurrent_transfers: usize,
}

impl CopyAgent {
    /// The tasks of the store, in order of submission.
    pub closed spec fn tasks(&self) -> Seq<TransferTask> {
        self.tasks@
    }

    /// The ids of the tasks waiting to start, first to start first.
    pub closed spec fn queue(&self) -> Seq<Seq<char>> {
        string_views(self.queue@)
    }

    /// The most tasks that may be in progress at once.
    pub closed spec fn max_concurrent(&self) -> nat {
        self.max_concurrent_transfers as nat
    }

    pub closed spec fn wf(&self) -> bool {
        let tasks = self.tasks@;
        let queue = self.queue();
        &&& forall|i: int, j: int|
            0 <= i < j < tasks.len() ==> (#[trigger] tasks[i]).id@ != (#[trigger] tasks[j]).id@
        &&& forall|i: int| 0 <= i < tasks.len() ==> (#[trigger] tasks[i]).progress_ok()
        &&& count_in_progress(tasks) <= self.max_concurrent_transfers
        &&& queue.no_duplicates()
        &&& forall|k: int|
            0 <= k < queue.len() ==> exists|i: int|
                0 <= i < tasks.len() && (#[trigger] tasks[i]).id@ == #[trigger] queue[k]
                    && tasks[i].status == TransferStatus::Pending
        &&& forall|i: int|
            0 <= i < tasks.len() && (#[trigger] tasks[i]).status == TransferStatus::Pending
                ==> queue.contains(tasks[i].id@)
    }

    /// An empty store that runs up to three transfers at once.
    pub fn new() -> (r: CopyAgent)
        ensures
            r.wf(),
            r.tasks().len() == 0,
            r.queue().len() == 0,
            r.max_concurrent() == DEFAULT_MAX_CONCURRENT_TRANSFERS,
    {
        CopyAgent::with_limit(DEFAULT_MAX_CONCURRENT_TRANSFERS)
    }

    /// An empty store that runs up to `max_concurrent_transfers` at once.
    pub fn with_limit(max_concurrent_transfers: usize) -> (r: CopyAgent)
        ensures
            r.wf(),
            r.tasks().len() == 0,
            r.queue().len() == 0,
            r.max_concurrent() == max_concurrent_transfers,
    {
        let r = CopyAgent { tasks: Vec::new(), queue: Vec::new(), max_concurrent_transfers };
        assert(r.queue() =~= Seq::<Seq<char>>::empty());
        r
    }

    /// The most tasks that may be in progress at once.
    pub fn max_concurrent_transfers(&self) -> (r: usize)
        ensures
            r == self.max_concurrent(),
    {
        self.max_concurrent_transfers
    }

    /// The position of the task with id `id`, if there is one.
    fn find(&self, id: &String) -> (r: Option<usize>)
        ensures
            match r {
                Some(i) => i < self.tasks@.len() && self.tasks@[i as int].id@ == id@,
                None => !has_task(self.tasks@, id@),
            },
    {
        let mut i: usize = 0;
        while i < self.tasks.len()
            invariant
                i <= self.tasks@.len(),
                forall|j: int| 0 <= j < i ==> self.tasks@[j].id@ != id@,
            decreases self.tasks@.len() - i,
        {
            if self.tasks[i].id == *id {
                return Some(i);
            }
            i = i + 1;
        }
        None
    }

    /// The position of `id` in the queue, if it is queued.
    fn queue_position(&self, id: &String) -> (r: Option<usize>)
        ensures
            match r {
                Some(k) => k < self.queue@.len() && self.queue()[k as int] == id@,
                None => !self.queue().contains(id@),
            },
    {
        let mut k: usize = 0;
        while k < self.queue.len()
            invariant
                k <= self.queue@.len(),
                forall|m: int| 0 <= m < k ==> self.queue()[m] != id@,
            decreases self.queue@.len() - k,
        {
            if self.queue[k] == *id {
                return Some(k);
            }
            k = k + 1;
        }
        None
    }

    /// The number of tasks in progress.
    pub fn in_progress_count(&self) -> (r: usize)
        ensures
            r == count_in_progress(self.tasks()),
    {
        let mut n: usize = 0;
        let mut i: usize = 0;
        while i < self.tasks.len()
            invariant
                i <= self.tasks@.len(),
                n == count_in_progress(self.tasks@.subrange(0, i as int)),
            decreases self.tasks@.len() - i,
        {
            proof {
                let s = self.tasks@.subrange(0, i as int + 1);
                assert(s.drop_last() =~= self.tasks@.subrange(0, i as int));
                lemma_count_le_len(self.tasks@.subrange(0, i as int));
            }
            if self.tasks[i].status == TransferStatus::InProgress {
                n = n + 1;
            }
            i = i + 1;
        }
        assert(self.tasks@.subrange(0, i as int) =~= self.tasks@);
        n
    }

    /// Adds a pending task under `task_id` and queues it.
    ///
    /// Fails with `InvalidStateTransition`, changing nothing, when a task
    /// with that id exists already.
    pub fn submit_task(
        &mut self,
        task_id: String,
        source_path: String,
        dest_path: String,
        direction: TransferDirection,
        total_bytes: u64,
        created_at: i64,
    ) -> (r: Result<(), Circle9Error>)
        requires
            old(self).wf(),
        ensures
            count_in_progress(final(self).tasks()) == count_in_progress(old(self).tasks()),
            final(self).wf(),
            evolves(old(self).tasks(), final(self).tasks()),
            final(self).max_concurrent() == old(self).max_concurrent(),
            r is Err <==> has_task(old(self).tasks(), task_id@),
            r is Err ==> r->Err_0 is InvalidStateTransition && *final(self) == *old(self),
            r is Ok ==> final(self).tasks() == old(self).tasks().push(
                TransferTask {
                    id: task_id,
                    source_path,
                    dest_path,
                    direction,
                    status: TransferStatus::Pending,
                    total_bytes,
                    transferred_bytes: 0,
                    created_at,
                    started_at: None,
                    completed_at: None,
                    error: None,
                },
            ) && final(self).queue() == old(self).queue().push(task_id@),
    {
        if let Some(_) = self.find(&task_id) {
            return Err(
                Circle9Error::InvalidStateTransition(String::from_str("a task with this id exists")),
            );
        }
        let ghost old_tasks = self.tasks@;
        let ghost old_queue = self.queue();
        proof {
            // a queued id belongs to a stored task, so the new id is not queued
            if old_queue.contains(task_id@) {
                let k = choose|k: int| 0 <= k < old_queue.len() && old_queue[k] == task_id@;
                let i = choose|i: int|
                    0 <= i < old_tasks.len() && (#[trigger] old_tasks[i]).id@ == old_queue[k]
                        && old_tasks[i].status == TransferStatus::Pending;
                assert(has_task(old_tasks, task_id@));
            }
        }
        let queued = task_id.clone();
        let task = TransferTask {
            id: task_id,
            source_path,
            dest_path,
            direction,
            status: TransferStatus::Pending,
            total_bytes,
            transferred_bytes: 0,
            created_at,
            started_at: None,
            completed_at: None,
            error: None,
        };
        self.tasks.push(task);
        self.queue.push(queued);
        proof {
            lemma_count_push(old_tasks, task);
            assert(self.queue() =~= old_queue.push(task_id@));
            let tasks = self.tasks@;
            let queue = self.queue();
            assert forall|k: int| 0 <= k < queue.len() implies exists|i: int|
                0 <= i < tasks.len() && (#[trigger] tasks[i]).id@ == #[trigger] queue[k]
                    && tasks[i].status == TransferStatus::Pending by {
                if k < old_queue.len() {
                    let i = choose|i: int|
                        0 <= i < old_tasks.len() && (#[trigger] old_tasks[i]).id@ == old_queue[k]
                            && old_tasks[i].status == TransferStatus::Pending;
                    assert(tasks[i] == old_tasks[i]);
                } else {
                    assert(tasks[old_tasks.len() as int].id@ == queue[k]);
                }
            }
            assert forall|i: int|
                0 <= i < tasks.len() && (#[trigger] tasks[i]).status == TransferStatus::Pending
                    implies queue.contains(tasks[i].id@) by {
                if i < old_tasks.len() {
                    assert(tasks[i] == old_tasks[i]);
                    let k = choose|k: int| 0 <= k < old_queue.len() && old_queue[k] == old_tasks[i].id@;
                    assert(queue[k] == old_queue[k]);
                } else {
                    assert(queue[old_queue.len() as int] == task_id@);
                }
            }
        }
        Ok(())
    }

    /// Submits a transfer of a source of `source_size` bytes under a fresh
    /// random id, stamped with the current time, and returns the id.
    ///
    /// `source_size` is `None` when the source's metadata could not be read:
    /// that fails with `SourceUnavailable` and changes nothing. Otherwise the
    /// task is added as `submit_task` does, which fails only if the random id
    /// is taken.
    pub fn create_transfer_task(
        &mut self,
        source_path: String,
        dest_path: String,
        direction: TransferDirection,
        source_size: Option<u64>,
    ) -> (r: Result<String, Circle9Error>)
        requires
            old(self).wf(),
        ensures
            count_in_progress(final(self).tasks()) == count_in_progress(old(self).tasks()),
            final(self).wf(),
            evolves(old(self).tasks(), final(self).tasks()),
            final(self).max_concurrent() == old(self).max_concurrent(),
            source_size is None ==> r is Err && r->Err_0 is SourceUnavailable,
            source_size is Some && r is Err ==> r->Err_0 is InvalidStateTransition,
            source_size is Some && old(self).tasks().len() == 0 ==> r is Ok,
            r is Err ==> *final(self) == *old(self),
            r is Ok ==> {
                let id = r->Ok_0;
                let t = final(self).tasks().last();
                &&& final(self).tasks().drop_last() == old(self).tasks()
                &&& final(self).tasks().len() == old(self).tasks().len() + 1
                &&& t.id@ == id@ && t.source_path == source_path && t.dest_path == dest_path
                &&& t.direction == direction && t.status == TransferStatus::Pending
                &&& t.total_bytes == source_size->Some_0 && t.transferred_bytes == 0
                &&& t.started_at is None && t.completed_at is None && t.error is None
                &&& final(self).queue() == old(self).queue().push(id@)
            },
    {
        let total_bytes = match source_size {
            Some(n) => n,
            None => {
                return Err(
                    Circle9Error::SourceUnavailable(
                        String::from_str("the source's metadata could not be read"),
                    ),
                );
            },
        };
        let task_id = random_id();
        let created_at: i64 = now_millis();
        let returned = task_id.clone();
        match self.submit_task(task_id, source_path, dest_path, direction, total_bytes, created_at) {
            Ok(()) => {
                proof {
                    assert(self.tasks().drop_last() =~= old(self).tasks());
                }
                Ok(returned)
            },
            Err(e) => Err(e),
        }
    }

    /// Changes the task at `i` to `t`, which keeps its id and progress
    /// invariant, and shows that the other tasks and the id order are kept.
    fn replace_task(&mut self, i: usize, t: TransferTask)
        requires
            i < old(self).tasks@.len(),
            t.id@ == old(self).tasks@[i as int].id@,
            t.progress_ok(),
            forall|i: int, j: int|
                0 <= i < j < old(self).tasks@.len() ==> (#[trigger] old(self).tasks@[i]).id@
                    != (#[trigger] old(self).tasks@[j]).id@,
        ensures
            final(self).tasks@ == old(self).tasks@.update(i as int, t),
            final(self).queue == old(self).queue,
            final(self).max_concurrent_transfers == old(self).max_concurrent_transfers,
            others_unchanged(old(self).tasks@, final(self).tasks@, t.id@),
            forall|j: int|
                0 <= j < old(self).tasks@.len() && old(self).tasks@[j].id@ == t.id@ ==> j == i,
            count_in_progress(final(self).tasks@) + (if old(self).tasks@[i as int].status
                == TransferStatus::InProgress {
                1int
            } else {
                0int
            }) == count_in_progress(old(self).tasks@) + (if t.status == TransferStatus::InProgress {
                1int
            } else {
                0int
            }),
            forall|i: int, j: int|
                0 <= i < j < final(self).tasks@.len() ==> (#[trigger] final(self).tasks@[i]).id@
                    != (#[trigger] final(self).tasks@[j]).id@,
            forall|j: int|
                0 <= j < final(self).tasks@.len() && old(self).tasks@[j].progress_ok()
                    ==> (#[trigger] final(self).tasks@[j]).progress_ok(),
    {
        proof {
            lemma_count_update(self.tasks@, i as int, t);
            let old_tasks = self.tasks@;
            assert forall|j: int|
                0 <= j < old_tasks.len() && old_tasks[j].id@ == t.id@ implies j == i by {
                if j != i {
                    if j < i {
                        assert(old_tasks[j].id@ != old_tasks[i as int].id@);
                    } else {
                        assert(old_tasks[i as int].id@ != old_tasks[j].id@);
                    }
                }
            }
        }
        self.tasks.set(i, t);
    }

    /// The next queued task is started at time `now` and its id returned,
    /// when the queue is not empty and fewer tasks than the limit are in
    /// progress. Otherwise nothing changes: a task that cannot start yet
    /// stays queued.
    pub fn start_next_transfer(&mut self, now: i64) -> (r: Option<String>)
        requires
            old(self).wf(),
        ensures
            r is Some ==> count_in_progress(final(self).tasks()) == count_in_progress(
                old(self).tasks(),
            ) + 1,
            final(self).wf(),
            evolves(old(self).tasks(), final(self).tasks()),
            final(self).max_concurrent() == old(self).max_concurrent(),
            r is None <==> (old(self).queue().len() == 0 || count_in_progress(old(self).tasks())
                >= old(self).max_concurrent()),
            r is None ==> *final(self) == *old(self),
            r is Some ==> {
                let id = r->Some_0@;
                &&& id == old(self).queue()[0]
                &&& final(self).queue() == old(self).queue().drop_first()
                &&& others_unchanged(old(self).tasks(), final(self).tasks(), id)
                &&& forall|i: int|
                    0 <= i < old(self).tasks().len() && (#[trigger] old(self).tasks()[i]).id@ == id
                        ==> old(self).tasks()[i].status == TransferStatus::Pending
                        && final(self).tasks()[i] == started(old(self).tasks()[i], now)
            },
    {
        if self.queue.len() == 0 {
            return None;
        }
        if self.in_progress_count() >= self.max_concurrent_transfers {
            return None;
        }
        let ghost old_queue = self.queue();
        let ghost old_tasks = self.tasks@;
        let id = self.queue.remove(0);
        proof {
            assert(self.queue() =~= old_queue.drop_first());
            assert(id@ == old_queue[0]);
        }
        let i = match self.find(&id) {
            Some(i) => i,
            None => {
                proof {
                    let j = choose|j: int|
                        0 <= j < old_tasks.len() && (#[trigger] old_tasks[j]).id@ == old_queue[0]
                            && old_tasks[j].status == TransferStatus::Pending;
                    assert(has_task(old_tasks, id@));
                }
                return None;
            },
        };
        proof {
            let j = choose|j: int|
                0 <= j < old_tasks.len() && (#[trigger] old_tasks[j]).id@ == old_queue[0]
                    && old_tasks[j].status == TransferStatus::Pending;
            if j != i {
                if j < i {
                    assert(old_tasks[j].id@ != old_tasks[i as int].id@);
                } else {
                    assert(old_tasks[i as int].id@ != old_tasks[j].id@);
                }
            }
        }
        let mut t = self.tasks[i].duplicate();
        t.status = TransferStatus::InProgress;
        t.started_at = Some(now);
        self.replace_task(i, t);
        proof {
            let tasks = self.tasks@;
            let queue = self.queue();
            assert(t == started(old_tasks[i as int], now));
            assert forall|k: int| 0 <= k < queue.len() implies exists|j: int|
                0 <= j < tasks.len() && (#[trigger] tasks[j]).id@ == #[trigger] queue[k]
                    && tasks[j].status == TransferStatus::Pending by {
                assert(queue[k] == old_queue[k + 1]);
                let j = choose|j: int|
                    0 <= j < old_tasks.len() && (#[trigger] old_tasks[j]).id@ == old_queue[k + 1]
                        && old_tasks[j].status == TransferStatus::Pending;
                assert(old_queue[k + 1] != old_queue[0]);
                assert(tasks[j] == old_tasks[j]);
            }
            assert forall|j: int|
                0 <= j < tasks.len() && (#[trigger] tasks[j]).status == TransferStatus::Pending
                    implies queue.contains(tasks[j].id@) by {
                assert(j != i);
                assert(tasks[j] == old_tasks[j]);
                let k = choose|k: int| 0 <= k < old_queue.len() && old_queue[k] == old_tasks[j].id@;
                if k == 0 {
                    if j < i {
                        assert(old_tasks[j].id@ != old_tasks[i as int].id@);
                    } else {
                        assert(old_tasks[i as int].id@ != old_tasks[j].id@);
                    }
                }
                assert(queue[k - 1] == old_queue[k]);
            }
        }
        Some(id)
    }

    /// Records `bytes` more bytes copied for the task `id` and says whether
    /// its copy loop should go on.
    ///
    /// Only a task in progress takes bytes; for any other (cancelled, say) the
    /// answer is to stop and nothing changes. Bytes past the task's total fail
    /// the task, since its source no longer matches the size it was submitted
    /// with.
    pub fn record_chunk(&mut self, id: &str, bytes: u64) -> (r: bool)
        requires
            old(self).wf(),
        ensures
            count_in_progress(final(self).tasks()) <= count_in_progress(old(self).tasks()),
            final(self).wf(),
            evolves(old(self).tasks(), final(self).tasks()),
            final(self).max_concurrent() == old(self).max_concurrent(),
            final(self).queue() == old(self).queue(),
            r <==> has_task_with_status(old(self).tasks(), id@, TransferStatus::InProgress) && exists|
                i: int,
            |
                0 <= i < old(self).tasks().len() && #[trigger] old(self).tasks()[i].id@ == id@
                    && bytes <= old(self).tasks()[i].total_bytes
                    - old(self).tasks()[i].transferred_bytes,
            !has_task_with_status(old(self).tasks(), id@, TransferStatus::InProgress) ==> *final(self) == *old(self),
            others_unchanged(old(self).tasks(), final(self).tasks(), id@),
            forall|i: int|
                0 <= i < old(self).tasks().len() && (#[trigger] old(self).tasks()[i]).id@ == id@
                    && old(self).tasks()[i].status == TransferStatus::InProgress ==> {
                    let before = old(self).tasks()[i];
                    let after = final(self).tasks()[i];
                    if bytes <= before.total_bytes - before.transferred_bytes {
                        after == TransferTask {
                            transferred_bytes: (before.transferred_bytes + bytes) as u64,
                            ..before
                        }
                    } else {
                        failed_with(before, after, size_changed_message())
                    }
                },
    {
        let key = String::from_str(id);
        let i = match self.find(&key) {
            Some(i) => i,
            None => return false,
        };
        if self.tasks[i].status != TransferStatus::InProgress {
            proof {
                assert forall|j: int| 0 <= j < self.tasks@.len() && self.tasks@[j].id@ == id@
                    implies self.tasks@[j].status != TransferStatus::InProgress by {
                    if j != i {
                        if j < i {
                            assert(self.tasks@[j].id@ != self.tasks@[i as int].id@);
                        } else {
                            assert(self.tasks@[i as int].id@ != self.tasks@[j].id@);
                        }
                    }
                }
            }
            return false;
        }
        let ghost old_tasks = self.tasks@;
        let mut t = self.tasks[i].duplicate();
        let room: u64 = t.total_bytes - t.transferred_bytes;
        let go_on = bytes <= room;
        if go_on {
            t.transferred_bytes = t.transferred_bytes + bytes;
        } else {
            t.status = TransferStatus::Failed;
            t.error = Some(String::from_str("the source's size changed during the transfer"));
        }
        self.replace_task(i, t);
        proof {
            let tasks = self.tasks@;
            let queue = self.queue();
            assert forall|k: int| 0 <= k < queue.len() implies exists|j: int|
                0 <= j < tasks.len() && (#[trigger] tasks[j]).id@ == #[trigger] queue[k]
                    && tasks[j].status == TransferStatus::Pending by {
                let j = choose|j: int|
                    0 <= j < old_tasks.len() && (#[trigger] old_tasks[j]).id@ == queue[k]
                        && old_tasks[j].status == TransferStatus::Pending;
                assert(j != i);
                assert(tasks[j] == old_tasks[j]);
            }
            assert forall|j: int|
                0 <= j < tasks.len() && (#[trigger] tasks[j]).status == TransferStatus::Pending
                    implies queue.contains(tasks[j].id@) by {
                assert(j != i);
                assert(tasks[j] == old_tasks[j]);
            }
        }
        go_on
    }

    /// Closes the copy loop of the task `id`: `Ok` when every byte was read
    /// and written, `Err` with the failure's detail otherwise.
    ///
    /// A task in progress completes at time `now` when it has moved exactly
    /// its total, and fails otherwise; a task in any other state (cancelled
    /// while its last chunk was in flight, say) is left as it is.
    pub fn finish_transfer(&mut self, id: &str, outcome: Result<(), String>, now: i64)
        requires
            old(self).wf(),
        ensures
            count_in_progress(final(self).tasks()) <= count_in_progress(old(self).tasks()),
            final(self).wf(),
            evolves(old(self).tasks(), final(self).tasks()),
            final(self).max_concurrent() == old(self).max_concurrent(),
            final(self).queue() == old(self).queue(),
            !has_task_with_status(old(self).tasks(), id@, TransferStatus::InProgress) ==> *final(self) == *old(self),
            others_unchanged(old(self).tasks(), final(self).tasks(), id@),
            forall|i: int|
                0 <= i < old(self).tasks().len() && (#[trigger] old(self).tasks()[i]).id@ == id@
                    && old(self).tasks()[i].status == TransferStatus::InProgress ==> {
                    let before = old(self).tasks()[i];
                    let after = final(self).tasks()[i];
                    match outcome {
                        Ok(_) => if before.transferred_bytes == before.total_bytes {
                            after == TransferTask {
                                status: TransferStatus::Completed,
                                completed_at: Some(now),
                                ..before
                            }
                        } else {
                            failed_with(before, after, size_changed_message())
                        },
                        Err(m) => after == TransferTask {
                            status: TransferStatus::Failed,
                            error: Some(m),
                            ..before
                        },
                    }
                },
    {
        let key = String::from_str(id);
        let i = match self.find(&key) {
            Some(i) => i,
            None => return,
        };
        if self.tasks[i].status != TransferStatus::InProgress {
            proof {
                assert forall|j: int| 0 <= j < self.tasks@.len() && self.tasks@[j].id@ == id@
                    implies self.tasks@[j].status != TransferStatus::InProgress by {
                    if j != i {
                        if j < i {
                            assert(self.tasks@[j].id@ != self.tasks@[i as int].id@);
                        } else {
                            assert(self.tasks@[i as int].id@ != self.tasks@[j].id@);
                        }
                    }
                }
            }
            return;
        }
        let ghost old_tasks = self.tasks@;
        let mut t = self.tasks[i].duplicate();
        match outcome {
            Ok(()) => {
                if t.transferred_bytes == t.total_bytes {
                    t.status = TransferStatus::Completed;
                    t.completed_at = Some(now);
                } else {
                    t.status = TransferStatus::Failed;
                    t.error = Some(String::from_str("the source's size changed during the transfer"));
                }
            },
            Err(m) => {
                t.status = TransferStatus::Failed;
                t.error = Some(m);
            },
        }
        self.replace_task(i, t);
        proof {
            let tasks = self.tasks@;
            let queue = self.queue();
            assert forall|k: int| 0 <= k < queue.len() implies exists|j: int|
                0 <= j < tasks.len() && (#[trigger] tasks[j]).id@ == #[trigger] queue[k]
                    && tasks[j].status == TransferStatus::Pending by {
                let j = choose|j: int|
                    0 <= j < old_tasks.len() && (#[trigger] old_tasks[j]).id@ == queue[k]
                        && old_tasks[j].status == TransferStatus::Pending;
                assert(j != i);
                assert(tasks[j] == old_tasks[j]);
            }
            assert forall|j: int|
                0 <= j < tasks.len() && (#[trigger] tasks[j]).status == TransferStatus::Pending
                    implies queue.contains(tasks[j].id@) by {
                assert(j != i);
                assert(tasks[j] == old_tasks[j]);
            }
        }
    }

    /// Cancels the task `id` if it is pending or in progress; a pending task
    /// also leaves the queue. A task in any other state, or an unknown id,
    /// changes nothing. A running copy loop learns of the cancel from
    /// `record_chunk` at its next chunk boundary.
    pub fn cancel_transfer(&mut self, id: &str)
        requires
            old(self).wf(),
        ensures
            count_in_progress(final(self).tasks()) <= count_in_progress(old(self).tasks()),
            final(self).wf(),
            evolves(old(self).tasks(), final(self).tasks()),
            final(self).max_concurrent() == old(self).max_concurrent(),
            others_unchanged(old(self).tasks(), final(self).tasks(), id@),
            forall|i: int|
                0 <= i < old(self).tasks().len() && (#[trigger] old(self).tasks()[i]).id@ == id@
                    ==> final(self).tasks()[i] == cancelled(old(self).tasks()[i]),
            has_task_with_status(old(self).tasks(), id@, TransferStatus::Pending) ==> exists|k: int|
                0 <= k < old(self).queue().len() && old(self).queue()[k] == id@ && final(self).queue() == old(self).queue().remove(k),
            !has_task_with_status(old(self).tasks(), id@, TransferStatus::Pending) ==> final(self).queue() == old(self).queue(),
    {
        let key = String::from_str(id);
        let i = match self.find(&key) {
            Some(i) => i,
            None => return,
        };
        let ghost old_tasks = self.tasks@;
        let ghost old_queue = self.queue();
        proof {
            assert forall|j: int| 0 <= j < old_tasks.len() && old_tasks[j].id@ == id@ implies j
                == i by {
                if j != i {
                    if j < i {
                        assert(old_tasks[j].id@ != old_tasks[i as int].id@);
                    } else {
                        assert(old_tasks[i as int].id@ != old_tasks[j].id@);
                    }
                }
            }
        }
        let status = self.tasks[i].status;
        if status != TransferStatus::Pending && status != TransferStatus::InProgress {
            return;
        }
        let mut t = self.tasks[i].duplicate();
        t.status = TransferStatus::Cancelled;
        self.replace_task(i, t);
        if status == TransferStatus::Pending {
            // the id is queued: find it and take it out
            proof {
                assert(old_queue.contains(id@));
            }
            let k = match self.queue_position(&key) {
                Some(k) => k,
                None => {
                    proof {
                        assert(false);
                    }
                    return;
                },
            };
            self.queue.remove(k);
            proof {
                assert(self.queue() =~= old_queue.remove(k as int));
                lemma_remove_keeps_no_dup(old_queue, k as int);
                let tasks = self.tasks@;
                let queue = self.queue();
                assert forall|m: int| 0 <= m < queue.len() implies exists|j: int|
                    0 <= j < tasks.len() && (#[trigger] tasks[j]).id@ == #[trigger] queue[m]
                        && tasks[j].status == TransferStatus::Pending by {
                    let om = if m < k { m } else { m + 1 };
                    assert(queue[m] == old_queue[om]);
                    assert(old_queue[om] != old_queue[k as int]);
                    let j = choose|j: int|
                        0 <= j < old_tasks.len() && (#[trigger] old_tasks[j]).id@ == old_queue[om]
                            && old_tasks[j].status == TransferStatus::Pending;
                    assert(j != i);
                    assert(tasks[j] == old_tasks[j]);
                }
                assert forall|j: int|
                    0 <= j < tasks.len() && (#[trigger] tasks[j]).status == TransferStatus::Pending
                        implies queue.contains(tasks[j].id@) by {
                    assert(j != i);
                    assert(tasks[j] == old_tasks[j]);
                    let m = choose|m: int| 0 <= m < old_queue.len() && old_queue[m] == old_tasks[j].id@;
                    assert(m != k);
                    if m < k {
                        assert(queue[m] == old_queue[m]);
                    } else {
                        assert(queue[m - 1] == old_queue[m]);
                    }
                }
            }
        } else {
            proof {
                let tasks = self.tasks@;
                let queue = self.queue();
                assert forall|m: int| 0 <= m < queue.len() implies exists|j: int|
                    0 <= j < tasks.len() && (#[trigger] tasks[j]).id@ == #[trigger] queue[m]
                        && tasks[j].status == TransferStatus::Pending by {
                    let j = choose|j: int|
                        0 <= j < old_tasks.len() && (#[trigger] old_tasks[j]).id@ == queue[m]
                            && old_tasks[j].status == TransferStatus::Pending;
                    assert(j != i);
                    assert(tasks[j] == old_tasks[j]);
                }
                assert forall|j: int|
                    0 <= j < tasks.len() && (#[trigger] tasks[j]).status == TransferStatus::Pending
                        implies queue.contains(tasks[j].id@) by {
                    assert(j != i);
                    assert(tasks[j] == old_tasks[j]);
                }
                assert(!has_task_with_status(old_tasks, id@, TransferStatus::Pending));
            }
        }
    }

    /// Retries the failed task `id`: it becomes pending with no progress and
    /// no error, and its id joins the end of the queue once.
    ///
    /// Only a failed task can be retried: for an unknown id or a task in any
    /// other state this fails with `InvalidStateTransition` and changes
    /// nothing.
    pub fn retry_transfer(&mut self, id: &str) -> (r: Result<(), Circle9Error>)
        requires
            old(self).wf(),
        ensures
            count_in_progress(final(self).tasks()) == count_in_progress(old(self).tasks()),
            final(self).wf(),
            evolves(old(self).tasks(), final(self).tasks()),
            final(self).max_concurrent() == old(self).max_concurrent(),
            r is Ok <==> has_task_with_status(old(self).tasks(), id@, TransferStatus::Failed),
            r is Err ==> r->Err_0 is InvalidStateTransition && *final(self) == *old(self),
            r is Ok ==> {
                &&& others_unchanged(old(self).tasks(), final(self).tasks(), id@)
                &&& forall|i: int|
                    0 <= i < old(self).tasks().len() && (#[trigger] old(self).tasks()[i]).id@
                        == id@ ==> final(self).tasks()[i] == reset_for_retry(old(self).tasks()[i])
                &&& !old(self).queue().contains(id@)
                &&& final(self).queue() == old(self).queue().push(id@)
                &&& occurrences(final(self).queue(), id@) == 1
            },
    {
        let key = String::from_str(id);
        let i = match self.find(&key) {
            Some(i) => i,
            None => {
                return Err(
                    Circle9Error::InvalidStateTransition(String::from_str("no such task")),
                );
            },
        };
        let ghost old_tasks = self.tasks@;
        let ghost old_queue = self.queue();
        proof {
            assert forall|j: int| 0 <= j < old_tasks.len() && old_tasks[j].id@ == id@ implies j
                == i by {
                if j != i {
                    if j < i {
                        assert(old_tasks[j].id@ != old_tasks[i as int].id@);
                    } else {
                        assert(old_tasks[i as int].id@ != old_tasks[j].id@);
                    }
                }
            }
        }
        if self.tasks[i].status != TransferStatus::Failed {
            return Err(
                Circle9Error::InvalidStateTransition(
                    String::from_str("only a failed transfer can be retried"),
                ),
            );
        }
        proof {
            if old_queue.contains(id@) {
                let m = choose|m: int| 0 <= m < old_queue.len() && old_queue[m] == id@;
                let j = choose|j: int|
                    0 <= j < old_tasks.len() && (#[trigger] old_tasks[j]).id@ == old_queue[m]
                        && old_tasks[j].status == TransferStatus::Pending;
                assert(j == i);
            }
        }
        let mut t = self.tasks[i].duplicate();
        t.status = TransferStatus::Pending;
        t.transferred_bytes = 0;
        t.error = None;
        self.replace_task(i, t);
        self.queue.push(key);
        proof {
            assert(self.queue() =~= old_queue.push(id@));
            lemma_occurrences_push_new(old_queue, id@);
            let tasks = self.tasks@;
            let queue = self.queue();
            assert(queue.no_duplicates()) by {
                assert forall|a: int, b: int| 0 <= a < queue.len() && 0 <= b < queue.len() && a
                    != b implies queue[a] != queue[b] by {
                    if a == old_queue.len() {
                        assert(queue[b] == old_queue[b]);
                    } else if b == old_queue.len() {
                        assert(queue[a] == old_queue[a]);
                    } else {
                        assert(queue[a] == old_queue[a]);
                        assert(queue[b] == old_queue[b]);
                    }
                }
            }
            assert forall|m: int| 0 <= m < queue.len() implies exists|j: int|
                0 <= j < tasks.len() && (#[trigger] tasks[j]).id@ == #[trigger] queue[m]
                    && tasks[j].status == TransferStatus::Pending by {
                if m == old_queue.len() {
                    assert(tasks[i as int].id@ == queue[m]);
                } else {
                    assert(queue[m] == old_queue[m]);
                    let j = choose|j: int|
                        0 <= j < old_tasks.len() && (#[trigger] old_tasks[j]).id@ == old_queue[m]
                            && old_tasks[j].status == TransferStatus::Pending;
                    assert(j != i);
                    assert(tasks[j] == old_tasks[j]);
                }
            }
            assert forall|j: int|
                0 <= j < tasks.len() && (#[trigger] tasks[j]).status == TransferStatus::Pending
                    implies queue.contains(tasks[j].id@) by {
                if j == i {
                    assert(queue[old_queue.len() as int] == id@);
                } else {
                    assert(tasks[j] == old_tasks[j]);
                    let m = choose|m: int| 0 <= m < old_queue.len() && old_queue[m] == old_tasks[j].id@;
                    assert(queue[m] == old_queue[m]);
                }
            }
        }
        Ok(())
    }

    /// A copy of every task in the store, whatever its status.
    pub fn get_active_transfers(&self) -> (r: Vec<TransferTask>)
        ensures
            r@ == self.tasks(),
    {
        let mut r: Vec<TransferTask> = Vec::new();
        let mut i: usize = 0;
        while i < self.tasks.len()
            invariant
                i <= self.tasks@.len(),
                r@ == self.tasks@.subrange(0, i as int),
            decreases self.tasks@.len() - i,
        {
            r.push(self.tasks[i].duplicate());
            i = i + 1;
            assert(r@ =~= self.tasks@.subrange(0, i as int));
        }
        assert(self.tasks@.subrange(0, i as int) =~= self.tasks@);
        r
    }

    /// The progress readout of the task `id` at time `now`, or `None` for an
    /// unknown id.
    pub fn get_transfer_progress(&self, id: &str, now: i64) -> (r: Option<TransferProgress>)
        requires
            self.wf(),
        ensures
            r is Some <==> has_task(self.tasks(), id@),
            r is Some ==> forall|i: int|
                0 <= i < self.tasks().len() && (#[trigger] self.tasks()[i]).id@ == id@
                    ==> progress_matches(r->Some_0, self.tasks()[i], now),
    {
        let key = String::from_str(id);
        let i = match self.find(&key) {
            Some(i) => i,
            None => return None,
        };
        proof {
            assert forall|j: int| 0 <= j < self.tasks@.len() && self.tasks@[j].id@ == id@ implies j
                == i by {
                if j != i {
                    if j < i {
                        assert(self.tasks@[j].id@ != self.tasks@[i as int].id@);
                    } else {
                        assert(self.tasks@[i as int].id@ != self.tasks@[j].id@);
                    }
                }
            }
        }
        let t = &self.tasks[i];
        let elapsed: u64 = match t.started_at {
            Some(s) => if now > s {
                (now as i128 - s as i128) as u64
            } else {
                0
            },
            None => 0,
        };
        let speed: u64 = transfer_speed(t.transferred_bytes, elapsed);
        let remaining: u64 = t.total_bytes - t.transferred_bytes;
        Some(
            TransferProgress {
                task_id: t.id.clone(),
                filename: display_file_name(t.source_path.as_str()),
                direction: direction_name(t.direction),
                bytes_transferred: t.transferred_bytes,
                total_bytes: t.total_bytes,
                percentage_basis_points: percent_basis_points(t.transferred_bytes, t.total_bytes),
                speed_bytes_per_sec: speed,
                estimated_remaining_secs: estimated_remaining_secs(remaining, speed),
            },
        )
    }
}

/// Every task of a store has `0 <= transferred_bytes <= total_bytes`; a
/// completed task has moved all its bytes; a pending task has moved none;
/// and pending, running and completed tasks carry no error.
pub proof fn lemma_progress_bounded(agent: &CopyAgent)
    requires
        agent.wf(),
    ensures
        forall|i: int|
            0 <= i < agent.tasks().len() ==> 0 <= (#[trigger] agent.tasks()[i]).transferred_bytes
                <= agent.tasks()[i].total_bytes && (agent.tasks()[i].status
                == TransferStatus::Completed ==> agent.tasks()[i].transferred_bytes
                == agent.tasks()[i].total_bytes) && (agent.tasks()[i].status
                == TransferStatus::Pending ==> agent.tasks()[i].transferred_bytes == 0) && (
            agent.tasks()[i].status != TransferStatus::Failed && agent.tasks()[i].status
                != TransferStatus::Cancelled ==> agent.tasks()[i].error is None),
{
    assert forall|i: int| 0 <= i < agent.tasks().len() implies (#[trigger] agent.tasks()[i]).progress_ok() by {
        assert(agent.tasks@[i].progress_ok());
    }
}

/// No two tasks of a store share an id, so an id names at most one task.
pub proof fn lemma_task_ids_unique(agent: &CopyAgent)
    requires
        agent.wf(),
    ensures
        forall|i: int, j: int|
            0 <= i < agent.tasks().len() && 0 <= j < agent.tasks().len() && i != j
                ==> (#[trigger] agent.tasks()[i]).id@ != (#[trigger] agent.tasks()[j]).id@,
{
    assert forall|i: int, j: int|
        0 <= i < agent.tasks().len() && 0 <= j < agent.tasks().len() && i != j implies (
    #[trigger] agent.tasks()[i]).id@ != (#[trigger] agent.tasks()[j]).id@ by {
        if i < j {
            assert(agent.tasks@[i].id@ != agent.tasks@[j].id@);
        } else {
            assert(agent.tasks@[j].id@ != agent.tasks@[i].id@);
        }
    }
}

/// No submitted task is lost: while a task is pending and the limit is not
/// reached, the queue is not empty, so `start_next_transfer` starts a task.
pub proof fn lemma_pending_task_can_start(agent: &CopyAgent, i: int)
    requires
        agent.wf(),
        0 <= i < agent.tasks().len(),
        agent.tasks()[i].status == TransferStatus::Pending,
        count_in_progress(agent.tasks()) < agent.max_concurrent(),
    ensures
        agent.queue().len() > 0,
        agent.queue().contains(agent.tasks()[i].id@),
{
    assert(agent.tasks@[i].status == TransferStatus::Pending);
}

/// No more tasks are in progress than the store's limit.
pub proof fn lemma_concurrency_bound(agent: &CopyAgent)
    requires
        agent.wf(),
    ensures
        count_in_progress(agent.tasks()) <= agent.max_concurrent(),
{
}

/// Every pending task is queued, and the queue holds no id twice.
pub proof fn lemma_pending_tasks_queued_once(agent: &CopyAgent)
    requires
        agent.wf(),
    ensures
        agent.queue().no_duplicates(),
        forall|i: int|
            0 <= i < agent.tasks().len() && (#[trigger] agent.tasks()[i]).status
                == TransferStatus::Pending ==> agent.queue().contains(agent.tasks()[i].id@),
{
    assert forall|i: int|
        0 <= i < agent.tasks().len() && (#[trigger] agent.tasks()[i]).status
            == TransferStatus::Pending implies agent.queue().contains(agent.tasks()[i].id@) by {
        assert(agent.tasks@[i].status == TransferStatus::Pending);
    }
}

/// Completed and cancelled tasks stay so through any operation of the store,
/// and a task leaves `Failed` only for `Pending`.
pub proof fn lemma_settled_tasks_stay(before: Seq<TransferTask>, after: Seq<TransferTask>)
    requires
        evolves(before, after),
    ensures
        forall|i: int|
            0 <= i < before.len() && (#[trigger] before[i]).status == TransferStatus::Completed
                ==> after[i].status == TransferStatus::Completed,
        forall|i: int|
            0 <= i < before.len() && (#[trigger] before[i]).status == TransferStatus::Cancelled
                ==> after[i].status == TransferStatus::Cancelled,
        forall|i: int|
            0 <= i < before.len() && (#[trigger] before[i]).status == TransferStatus::Failed
                ==> after[i].status == TransferStatus::Failed || after[i].status
                == TransferStatus::Pending,
{
    assert forall|i: int| 0 <= i < before.len() implies legal_transition(before[i].status, (#[trigger] after[i]).status) by {
    }
}

} // verus!
