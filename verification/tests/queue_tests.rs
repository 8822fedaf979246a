use ytapp::codec::parse_queue;
use ytapp::queue::{Job, JobStatus, QueueItem, QueueService};

fn gen_job(params: &str, dest: &str) -> Job {
    Job::Generate { params: params.to_string(), dest: dest.to_string() }
}

fn reload(q: &mut QueueService) {
    let saved = q.serialized();
    let items = parse_queue(&saved).expect("own serialization must parse");
    q.import_items(items, false);
}

fn dest_of(item: &QueueItem) -> String {
    match &item.job {
        Job::Generate { dest, .. } => dest.clone(),
        Job::GenerateUpload { dest, .. } => dest.clone(),
    }
}

#[test]
fn persist_and_retry() {
    let mut q = QueueService::new();
    q.enqueue(gen_job("a.mp3", "a.mp4"));
    reload(&mut q);
    assert_eq!(q.peek_all().len(), 1);
    q.mark_failed(0, "err".to_string());
    reload(&mut q);
    let item = q.peek_all()[0].clone();
    assert_eq!(item.retries, 1);
    assert_eq!(item.status, JobStatus::Failed);
}

#[test]
fn clear_failed_only_removes_failed_jobs() {
    let mut q = QueueService::new();
    q.enqueue(gen_job("a.mp3", "a.mp4"));
    q.enqueue(gen_job("a.mp3", "b.mp4"));
    q.mark_failed(0, "err".to_string());
    q.clear_failed();
    let all = q.peek_all();
    assert_eq!(all.len(), 1);
    match &all[0].job {
        Job::Generate { dest, .. } => assert_eq!(dest, "b.mp4"),
        _ => panic!("unexpected job type"),
    }
}

#[test]
fn export_and_import() {
    let mut q = QueueService::new();
    q.enqueue(gen_job("a.mp3", "a.mp4"));
    let exported = q.serialized();
    q.clear_queue();
    assert_eq!(q.peek_all().len(), 0);
    let items = parse_queue(&exported).expect("exported queue must parse");
    q.import_items(items, false);
    let all = q.peek_all();
    assert_eq!(all.len(), 1);
    match &all[0].job {
        Job::Generate { dest, .. } => assert_eq!(dest, "a.mp4"),
        _ => panic!("unexpected job type"),
    }
}

#[test]
fn enqueue_keeps_fifo_order() {
    let mut q = QueueService::new();
    q.enqueue(gen_job("a", "job-a"));
    q.enqueue(gen_job("b", "job-b"));
    let all = q.peek_all();
    assert_eq!(all.len(), 2);
    assert_eq!(dest_of(&all[0]), "job-a");
    assert_eq!(dest_of(&all[1]), "job-b");
    assert_eq!(all[0].status, JobStatus::Pending);
    assert_eq!(all[1].status, JobStatus::Pending);
    assert_eq!(all[0].retries, 0);
    assert!(all[0].error.is_none());
}

#[test]
fn mark_failed_records_error_and_retry_allows_requeue() {
    let mut q = QueueService::new();
    q.enqueue(gen_job("a", "a.mp4"));
    q.mark_failed(0, "boom".to_string());
    let item = q.peek_all()[0].clone();
    assert_eq!(item.status, JobStatus::Failed);
    assert_eq!(item.retries, 1);
    assert_eq!(item.error.as_deref(), Some("boom"));
    let got = q.dequeue(true, 3);
    let (idx, snap) = got.expect("failed item under the retry bound is selected");
    assert_eq!(idx, 0);
    assert_eq!(snap.status, JobStatus::Running);
    assert_eq!(q.peek_all()[0].status, JobStatus::Running);
}

#[test]
fn dequeue_without_retry_skips_failed() {
    let mut q = QueueService::new();
    q.enqueue(gen_job("a", "a.mp4"));
    q.mark_failed(0, "boom".to_string());
    assert!(q.dequeue(false, 3).is_none());
}

#[test]
fn dequeue_picks_first_pending() {
    let mut q = QueueService::new();
    q.enqueue(gen_job("a", "one"));
    q.enqueue(gen_job("b", "two"));
    let (idx, item) = q.dequeue(true, 3).unwrap();
    assert_eq!(idx, 0);
    assert_eq!(dest_of(&item), "one");
    let (idx2, item2) = q.dequeue(true, 3).unwrap();
    assert_eq!(idx2, 1);
    assert_eq!(dest_of(&item2), "two");
    assert!(q.dequeue(true, 3).is_none());
}

#[test]
fn paused_gate_blocks_dequeue() {
    let mut q = QueueService::new();
    q.enqueue(gen_job("a", "a.mp4"));
    q.set_paused(true);
    assert!(q.is_paused());
    assert!(q.dequeue(true, 3).is_none());
    assert_eq!(q.peek_all()[0].status, JobStatus::Pending);
    q.set_paused(false);
    q.fire_wake();
    assert!(q.take_wake());
    let got = q.dequeue(true, 3);
    assert!(got.is_some());
}

#[test]
fn stale_index_ops_are_noops() {
    let mut q = QueueService::new();
    q.enqueue(gen_job("a", "a.mp4"));
    q.mark_failed(5, "late".to_string());
    q.remove_job(7);
    q.move_job(0, 9);
    q.move_job(9, 0);
    q.mark_complete(3);
    let all = q.peek_all();
    assert_eq!(all.len(), 1);
    assert_eq!(all[0].status, JobStatus::Pending);
    assert_eq!(all[0].retries, 0);
    assert!(all[0].error.is_none());
}

#[test]
fn move_job_reorders() {
    let mut q = QueueService::new();
    q.enqueue(gen_job("a", "one"));
    q.enqueue(gen_job("b", "two"));
    q.enqueue(gen_job("c", "three"));
    q.move_job(0, 2);
    let all = q.peek_all();
    assert_eq!(dest_of(&all[0]), "two");
    assert_eq!(dest_of(&all[1]), "three");
    assert_eq!(dest_of(&all[2]), "one");
    q.move_job(1, 1);
    assert_eq!(dest_of(&q.peek_all()[1]), "three");
}

#[test]
fn clear_completed_retains_pending_and_running() {
    let mut q = QueueService::new();
    q.enqueue(gen_job("a", "one"));
    q.enqueue(gen_job("b", "two"));
    q.enqueue(gen_job("c", "three"));
    let (idx, _) = q.dequeue(true, 3).unwrap();
    assert_eq!(idx, 0);
    q.mark_failed(1, "x".to_string());
    q.clear_completed();
    let all = q.peek_all();
    assert_eq!(all.len(), 2);
    assert_eq!(all[0].status, JobStatus::Running);
    assert_eq!(dest_of(&all[1]), "three");
}

#[test]
fn mark_complete_removes_entry() {
    let mut q = QueueService::new();
    q.enqueue(gen_job("a", "one"));
    q.enqueue(gen_job("b", "two"));
    q.mark_complete(0);
    let all = q.peek_all();
    assert_eq!(all.len(), 1);
    assert_eq!(dest_of(&all[0]), "two");
}

#[test]
fn always_failing_job_is_attempted_max_retries_times() {
    let max_retries: u32 = 3;
    let mut q = QueueService::new();
    q.enqueue(gen_job("a", "doomed"));
    let mut attempts = 0;
    while let Some((idx, _)) = q.dequeue(true, max_retries) {
        attempts += 1;
        assert!(attempts <= 16, "retry bound not enforced");
        q.mark_failed(idx, "always fails".to_string());
    }
    assert_eq!(attempts, 3);
    let item = q.peek_all()[0].clone();
    assert_eq!(item.status, JobStatus::Failed);
    assert_eq!(item.retries, 3);
    assert!(q.dequeue(true, max_retries).is_none());
}

#[test]
fn zero_max_retries_still_attempts_pending_once() {
    let mut q = QueueService::new();
    q.enqueue(gen_job("a", "once"));
    let mut attempts = 0;
    while let Some((idx, _)) = q.dequeue(true, 0) {
        attempts += 1;
        assert!(attempts <= 4);
        q.mark_failed(idx, "fails".to_string());
    }
    assert_eq!(attempts, 1);
}

#[test]
fn failed_entry_is_retried_in_its_original_position() {
    let mut q = QueueService::new();
    q.enqueue(gen_job("a", "first"));
    q.enqueue(gen_job("b", "second"));
    q.mark_failed(0, "e".to_string());
    let (idx, item) = q.dequeue(true, 3).unwrap();
    assert_eq!(idx, 0);
    assert_eq!(dest_of(&item), "first");
}

#[test]
fn import_append_extends_queue() {
    let mut q = QueueService::new();
    q.enqueue(gen_job("a", "one"));
    let exported = q.serialized();
    let items = parse_queue(&exported).unwrap();
    q.import_items(items, true);
    let all = q.peek_all();
    assert_eq!(all.len(), 2);
    assert_eq!(dest_of(&all[0]), "one");
    assert_eq!(dest_of(&all[1]), "one");
}

#[test]
fn enqueue_fires_wake_signal() {
    let mut q = QueueService::new();
    assert!(!q.take_wake());
    q.enqueue(gen_job("a", "one"));
    assert!(q.take_wake());
    assert!(!q.take_wake());
}
