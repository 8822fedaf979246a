use ytapp::queue::{Job, JobStatus, QueueService};
use ytapp::registry::ProcessRegistry;
use ytapp::worker::{record_outcome, WorkerGate};

#[test]
fn worker_gate_starts_only_once() {
    let mut gate = WorkerGate::new();
    assert!(gate.try_start());
    assert!(!gate.try_start());
    assert!(!gate.try_start());
}

#[test]
fn success_outcome_removes_entry() {
    let mut q = QueueService::new();
    q.enqueue(Job::Generate { params: "a".to_string(), dest: "one".to_string() });
    q.enqueue(Job::Generate { params: "b".to_string(), dest: "two".to_string() });
    let (idx, _) = q.dequeue(true, 3).unwrap();
    record_outcome(&mut q, idx, Ok("one".to_string()));
    let all = q.peek_all();
    assert_eq!(all.len(), 1);
    assert_eq!(all[0].status, JobStatus::Pending);
}

#[test]
fn failure_outcome_marks_failed() {
    let mut q = QueueService::new();
    q.enqueue(Job::Generate { params: "a".to_string(), dest: "one".to_string() });
    let (idx, _) = q.dequeue(true, 3).unwrap();
    record_outcome(&mut q, idx, Err("render exploded".to_string()));
    let item = q.peek_all()[0].clone();
    assert_eq!(item.status, JobStatus::Failed);
    assert_eq!(item.retries, 1);
    assert_eq!(item.error.as_deref(), Some("render exploded"));
}

#[test]
fn stale_outcome_is_noop() {
    let mut q = QueueService::new();
    q.enqueue(Job::Generate { params: "a".to_string(), dest: "one".to_string() });
    record_outcome(&mut q, 9, Ok("gone".to_string()));
    record_outcome(&mut q, 9, Err("gone".to_string()));
    assert_eq!(q.peek_all().len(), 1);
    assert_eq!(q.peek_all()[0].status, JobStatus::Pending);
}

#[test]
fn registry_holds_one_render_handle() {
    let mut reg: ProcessRegistry<u64, u64> = ProcessRegistry::new();
    assert!(reg.cancel_render().is_none());
    reg.register_render(7);
    reg.register_render(8);
    assert_eq!(reg.cancel_render(), Some(8));
    assert!(reg.cancel_render().is_none());
}

#[test]
fn registry_clears_and_cancels_upload_token() {
    let mut reg: ProcessRegistry<u64, String> = ProcessRegistry::new();
    reg.register_upload("abort-1".to_string());
    reg.clear_upload();
    assert!(reg.cancel_upload().is_none());
    reg.register_upload("abort-2".to_string());
    assert_eq!(reg.cancel_upload().as_deref(), Some("abort-2"));
    assert!(reg.cancel_upload().is_none());
}

#[test]
fn registry_slots_are_independent() {
    let mut reg: ProcessRegistry<u32, u32> = ProcessRegistry::new();
    reg.register_render(1);
    reg.register_upload(2);
    assert_eq!(reg.cancel_upload(), Some(2));
    assert_eq!(reg.cancel_render(), Some(1));
}
