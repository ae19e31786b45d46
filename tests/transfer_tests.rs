use circle9::error::Circle9Error;
use circle9::transfer::{
    estimated_remaining_secs, percent_basis_points, transfer_speed, CopyAgent, TransferDirection,
    TransferStatus, CHUNK_SIZE,
};

fn submit(agent: &mut CopyAgent, id: &str, size: u64) {
    agent
        .submit_task(
            id.to_string(),
            format!("/data/{}.bin", id),
            format!("/remote/{}.bin", id),
            TransferDirection::WindowsToLinux,
            size,
            0,
        )
        .unwrap();
}

fn status_of(agent: &CopyAgent, id: &str) -> TransferStatus {
    agent.get_active_transfers().into_iter().find(|t| t.id == id).unwrap().status
}

fn transferred_of(agent: &CopyAgent, id: &str) -> u64 {
    agent.get_active_transfers().into_iter().find(|t| t.id == id).unwrap().transferred_bytes
}

fn in_progress(agent: &CopyAgent) -> usize {
    agent.get_active_transfers().iter().filter(|t| t.status == TransferStatus::InProgress).count()
}

#[test]
fn chunked_upload_reports_three_updates_and_completes() {
    let mut agent = CopyAgent::new();
    let id = agent
        .create_transfer_task(
            "/data/report.bin".to_string(),
            "/remote/report.bin".to_string(),
            TransferDirection::WindowsToLinux,
            Some(24000),
        )
        .unwrap();
    assert_eq!(agent.start_next_transfer(1_000), Some(id.clone()));
    let mut left: u64 = 24000;
    let mut updates = Vec::new();
    let mut now: i64 = 1_000;
    while left > 0 {
        let chunk = left.min(CHUNK_SIZE as u64);
        left -= chunk;
        now += 500;
        assert!(agent.record_chunk(&id, chunk));
        let p = agent.get_transfer_progress(&id, now).unwrap();
        updates.push(p.percentage_basis_points);
    }
    assert_eq!(updates, vec![3413, 6826, 10000]);
    agent.finish_transfer(&id, Ok(()), now);
    assert_eq!(status_of(&agent, &id), TransferStatus::Completed);
    assert_eq!(transferred_of(&agent, &id), 24000);
}

#[test]
fn five_transfers_with_limit_three_never_exceed_it() {
    let mut agent = CopyAgent::with_limit(3);
    for i in 0..5 {
        submit(&mut agent, &format!("t{}", i), 100);
    }
    let mut started = Vec::new();
    while let Some(id) = agent.start_next_transfer(10) {
        started.push(id);
        assert!(in_progress(&agent) <= 3);
    }
    assert_eq!(started, vec!["t0", "t1", "t2"]);
    let mut now: i64 = 20;
    while started.len() < 5 || in_progress(&agent) > 0 {
        let running: Vec<String> = agent
            .get_active_transfers()
            .into_iter()
            .filter(|t| t.status == TransferStatus::InProgress)
            .map(|t| t.id)
            .collect();
        let first = &running[0];
        assert!(agent.record_chunk(first, 100));
        agent.finish_transfer(first, Ok(()), now);
        now += 10;
        while let Some(id) = agent.start_next_transfer(now) {
            started.push(id);
        }
        assert!(in_progress(&agent) <= 3);
    }
    assert_eq!(started.len(), 5);
    assert!(agent.get_active_transfers().iter().all(|t| t.status == TransferStatus::Completed));
}

#[test]
fn cancelling_a_running_transfer_stops_its_progress() {
    let mut agent = CopyAgent::new();
    submit(&mut agent, "big", 50_000);
    agent.start_next_transfer(0).unwrap();
    assert!(agent.record_chunk("big", 8192));
    agent.cancel_transfer("big");
    assert_eq!(status_of(&agent, "big"), TransferStatus::Cancelled);
    assert!(!agent.record_chunk("big", 8192));
    assert_eq!(transferred_of(&agent, "big"), 8192);
    agent.finish_transfer("big", Ok(()), 5);
    assert_eq!(status_of(&agent, "big"), TransferStatus::Cancelled);
}

#[test]
fn cancelling_a_pending_transfer_takes_it_off_the_queue() {
    let mut agent = CopyAgent::new();
    submit(&mut agent, "a", 10);
    submit(&mut agent, "b", 10);
    agent.cancel_transfer("a");
    assert_eq!(status_of(&agent, "a"), TransferStatus::Cancelled);
    assert_eq!(agent.start_next_transfer(1), Some("b".to_string()));
    assert_eq!(agent.start_next_transfer(1), None);
}

#[test]
fn cancel_leaves_completed_and_unknown_tasks_alone() {
    let mut agent = CopyAgent::new();
    submit(&mut agent, "done", 4);
    agent.start_next_transfer(0);
    agent.record_chunk("done", 4);
    agent.finish_transfer("done", Ok(()), 1);
    agent.cancel_transfer("done");
    agent.cancel_transfer("nobody");
    assert_eq!(status_of(&agent, "done"), TransferStatus::Completed);
    assert_eq!(agent.get_active_transfers().len(), 1);
}

#[test]
fn retry_resets_a_failed_transfer_and_queues_it_once() {
    let mut agent = CopyAgent::new();
    submit(&mut agent, "f", 100);
    agent.start_next_transfer(0);
    agent.record_chunk("f", 40);
    agent.finish_transfer("f", Err("connection reset".to_string()), 1);
    let failed = agent.get_active_transfers().remove(0);
    assert_eq!(failed.status, TransferStatus::Failed);
    assert_eq!(failed.error.as_deref(), Some("connection reset"));
    agent.retry_transfer("f").unwrap();
    let t = agent.get_active_transfers().remove(0);
    assert_eq!(t.status, TransferStatus::Pending);
    assert_eq!(t.transferred_bytes, 0);
    assert_eq!(t.error, None);
    assert_eq!(agent.start_next_transfer(2), Some("f".to_string()));
    assert_eq!(agent.start_next_transfer(2), None);
}

#[test]
fn retry_of_a_task_that_has_not_failed_is_refused() {
    let mut agent = CopyAgent::new();
    submit(&mut agent, "p", 100);
    assert!(matches!(agent.retry_transfer("p"), Err(Circle9Error::InvalidStateTransition(_))));
    assert!(matches!(agent.retry_transfer("zz"), Err(Circle9Error::InvalidStateTransition(_))));
    assert_eq!(status_of(&agent, "p"), TransferStatus::Pending);
}

#[test]
fn unreadable_source_is_reported() {
    let mut agent = CopyAgent::new();
    let r = agent.create_transfer_task(
        "/missing".to_string(),
        "/remote/missing".to_string(),
        TransferDirection::WindowsToLinux,
        None,
    );
    assert!(matches!(r, Err(Circle9Error::SourceUnavailable(_))));
    assert!(agent.get_active_transfers().is_empty());
}

#[test]
fn created_tasks_get_distinct_random_ids() {
    let mut agent = CopyAgent::new();
    let a = agent
        .create_transfer_task("/a".into(), "/b".into(), TransferDirection::LinuxToWindows, Some(1))
        .unwrap();
    let b = agent
        .create_transfer_task("/a".into(), "/b".into(), TransferDirection::LinuxToWindows, Some(1))
        .unwrap();
    assert_ne!(a, b);
    assert_eq!(a.len(), 36);
    let tasks = agent.get_active_transfers();
    assert_eq!(tasks.len(), 2);
    assert_eq!(tasks[0].status, TransferStatus::Pending);
    assert_eq!(tasks[0].total_bytes, 1);
    assert!(tasks[0].created_at > 1_600_000_000_000);
}

#[test]
fn a_second_task_with_the_same_id_is_refused() {
    let mut agent = CopyAgent::new();
    submit(&mut agent, "same", 5);
    let r = agent.submit_task(
        "same".to_string(),
        "/x".to_string(),
        "/y".to_string(),
        TransferDirection::WindowsToLinux,
        7,
        0,
    );
    assert!(matches!(r, Err(Circle9Error::InvalidStateTransition(_))));
    assert_eq!(agent.get_active_transfers().len(), 1);
}

#[test]
fn bytes_past_the_total_fail_the_task() {
    let mut agent = CopyAgent::new();
    submit(&mut agent, "grow", 10);
    agent.start_next_transfer(0);
    assert!(agent.record_chunk("grow", 8));
    assert!(!agent.record_chunk("grow", 8));
    let t = agent.get_active_transfers().remove(0);
    assert_eq!(t.status, TransferStatus::Failed);
    assert_eq!(t.transferred_bytes, 8);
    assert_eq!(t.error.as_deref(), Some("the source's size changed during the transfer"));
}

#[test]
fn a_short_copy_does_not_complete() {
    let mut agent = CopyAgent::new();
    submit(&mut agent, "short", 10);
    agent.start_next_transfer(0);
    agent.record_chunk("short", 6);
    agent.finish_transfer("short", Ok(()), 1);
    assert_eq!(status_of(&agent, "short"), TransferStatus::Failed);
}

#[test]
fn an_empty_source_completes_with_no_chunks() {
    let mut agent = CopyAgent::new();
    submit(&mut agent, "empty", 0);
    agent.start_next_transfer(0);
    agent.finish_transfer("empty", Ok(()), 3);
    let t = agent.get_active_transfers().remove(0);
    assert_eq!(t.status, TransferStatus::Completed);
    assert_eq!(t.completed_at, Some(3));
    assert_eq!(agent.get_transfer_progress("empty", 3).unwrap().percentage_basis_points, 0);
}

#[test]
fn progress_readout_has_speed_and_remaining_time() {
    let mut agent = CopyAgent::new();
    agent
        .submit_task(
            "dl".to_string(),
            "/srv/logs/app.log".to_string(),
            "/tmp/app.log".to_string(),
            TransferDirection::LinuxToWindows,
            24000,
            0,
        )
        .unwrap();
    let before = agent.get_transfer_progress("dl", 500).unwrap();
    assert_eq!(before.speed_bytes_per_sec, 0);
    assert_eq!(before.estimated_remaining_secs, 0);
    agent.start_next_transfer(1_000);
    agent.record_chunk("dl", 8192);
    let p = agent.get_transfer_progress("dl", 3_000).unwrap();
    assert_eq!(p.task_id, "dl");
    assert_eq!(p.filename, "app.log");
    assert_eq!(p.direction, "download");
    assert_eq!(p.bytes_transferred, 8192);
    assert_eq!(p.total_bytes, 24000);
    assert_eq!(p.percentage_basis_points, 3413);
    assert_eq!(p.speed_bytes_per_sec, 4096);
    assert_eq!(p.estimated_remaining_secs, 3);
    assert!(agent.get_transfer_progress("other", 3_000).is_none());
}

#[test]
fn progress_arithmetic_exact_values() {
    assert_eq!(percent_basis_points(1, 3), 3333);
    assert_eq!(percent_basis_points(0, 0), 0);
    assert_eq!(percent_basis_points(u64::MAX, u64::MAX), 10000);
    assert_eq!(transfer_speed(8192, 2000), 4096);
    assert_eq!(transfer_speed(100, 0), 0);
    assert_eq!(transfer_speed(u64::MAX, 1), u64::MAX);
    assert_eq!(estimated_remaining_secs(15808, 4096), 3);
    assert_eq!(estimated_remaining_secs(15808, 0), 0);
}

#[test]
fn direction_names_parse_and_print() {
    assert_eq!(TransferDirection::from_name("windows_to_linux"), Some(TransferDirection::WindowsToLinux));
    assert_eq!(TransferDirection::from_name("linux_to_windows"), Some(TransferDirection::LinuxToWindows));
    assert_eq!(TransferDirection::from_name("sideways"), None);
    assert_eq!(circle9::transfer::direction_name(TransferDirection::WindowsToLinux), "upload");
}

#[test]
fn nothing_starts_while_the_limit_is_reached() {
    let mut agent = CopyAgent::with_limit(1);
    submit(&mut agent, "one", 1);
    submit(&mut agent, "two", 1);
    assert_eq!(agent.start_next_transfer(0), Some("one".to_string()));
    assert_eq!(agent.start_next_transfer(0), None);
    assert_eq!(status_of(&agent, "two"), TransferStatus::Pending);
    agent.cancel_transfer("one");
    assert_eq!(agent.start_next_transfer(0), Some("two".to_string()));
    assert_eq!(agent.max_concurrent_transfers(), 1);
}

#[test]
fn pending_tasks_have_no_progress_and_no_error() {
    let mut agent = CopyAgent::new();
    let id = agent
        .create_transfer_task("/s".into(), "/d".into(), TransferDirection::WindowsToLinux, Some(24000))
        .unwrap();
    let t = agent.get_active_transfers().remove(0);
    assert_eq!(t.id, id);
    assert_eq!(t.total_bytes, 24000);
    assert_eq!(t.transferred_bytes, 0);
    assert_eq!(t.status, TransferStatus::Pending);
    assert_eq!(t.error, None);
    assert_eq!(t.started_at, None);
}
