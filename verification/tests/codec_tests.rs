use ytapp::codec::parse_queue;
use ytapp::queue::{Job, JobStatus, QueueService};

#[test]
fn serialized_text_is_exact() {
    let mut q = QueueService::new();
    q.enqueue(Job::Generate { params: "p".to_string(), dest: "d".to_string() });
    let text = q.serialized();
    assert_eq!(
        text,
        "[{\"job\":{\"Generate\":{\"params\":\"p\",\"dest\":\"d\"}},\"status\":\"Pending\",\"retries\":0,\"error\":null}]"
    );
}

#[test]
fn empty_queue_serializes_to_empty_array() {
    let q = QueueService::new();
    assert_eq!(q.serialized(), "[]");
    let items = parse_queue("[]").expect("empty array parses");
    assert_eq!(items.len(), 0);
}

#[test]
fn upload_job_with_thumbnail_round_trips() {
    let mut q = QueueService::new();
    q.enqueue(Job::GenerateUpload {
        params: "payload".to_string(),
        dest: "out.mp4".to_string(),
        thumbnail: Some("thumb.png".to_string()),
    });
    q.enqueue(Job::GenerateUpload {
        params: "payload2".to_string(),
        dest: "out2.mp4".to_string(),
        thumbnail: None,
    });
    let text = q.serialized();
    let items = parse_queue(&text).expect("round trip");
    assert_eq!(items.len(), 2);
    match &items[0].job {
        Job::GenerateUpload { params, dest, thumbnail } => {
            assert_eq!(params, "payload");
            assert_eq!(dest, "out.mp4");
            assert_eq!(thumbnail.as_deref(), Some("thumb.png"));
        },
        _ => panic!("unexpected job type"),
    }
    match &items[1].job {
        Job::GenerateUpload { thumbnail, .. } => assert!(thumbnail.is_none()),
        _ => panic!("unexpected job type"),
    }
}

#[test]
fn quotes_and_backslashes_round_trip() {
    let tricky = "a \"quoted\" name \\ with \\\\ slashes and a \n newline";
    let mut q = QueueService::new();
    q.enqueue(Job::Generate { params: tricky.to_string(), dest: "d\\e\"f".to_string() });
    q.mark_failed(0, "err \"msg\"".to_string());
    let text = q.serialized();
    let items = parse_queue(&text).expect("escaped text round trips");
    assert_eq!(items.len(), 1);
    match &items[0].job {
        Job::Generate { params, dest } => {
            assert_eq!(params, tricky);
            assert_eq!(dest, "d\\e\"f");
        },
        _ => panic!("unexpected job type"),
    }
    assert_eq!(items[0].error.as_deref(), Some("err \"msg\""));
}

#[test]
fn status_and_retries_round_trip() {
    let mut q = QueueService::new();
    q.enqueue(Job::Generate { params: "a".to_string(), dest: "one".to_string() });
    q.enqueue(Job::Generate { params: "b".to_string(), dest: "two".to_string() });
    q.enqueue(Job::Generate { params: "c".to_string(), dest: "three".to_string() });
    q.dequeue(true, 5).unwrap();
    q.mark_failed(1, "e1".to_string());
    q.mark_failed(1, "e2".to_string());
    let text = q.serialized();
    let items = parse_queue(&text).expect("round trip");
    assert_eq!(items[0].status, JobStatus::Running);
    assert_eq!(items[1].status, JobStatus::Failed);
    assert_eq!(items[1].retries, 2);
    assert_eq!(items[1].error.as_deref(), Some("e2"));
    assert_eq!(items[2].status, JobStatus::Pending);
}

#[test]
fn large_retry_count_round_trips() {
    let mut q = QueueService::new();
    let item = ytapp::queue::QueueItem {
        job: Job::Generate { params: "p".to_string(), dest: "d".to_string() },
        status: JobStatus::Failed,
        retries: 4294967295,
        error: Some("worn out".to_string()),
    };
    q.import_items(vec![item], false);
    let text = q.serialized();
    let items = parse_queue(&text).expect("round trip");
    assert_eq!(items[0].retries, 4294967295);
}

#[test]
fn legacy_array_imports_as_pending() {
    let legacy = "[{\"Generate\":{\"params\":\"p1\",\"dest\":\"d1\"}},{\"GenerateUpload\":{\"params\":\"p2\",\"dest\":\"d2\",\"thumbnail\":\"t2\"}}]";
    let items = parse_queue(legacy).expect("legacy array parses");
    assert_eq!(items.len(), 2);
    for item in &items {
        assert_eq!(item.status, JobStatus::Pending);
        assert_eq!(item.retries, 0);
        assert!(item.error.is_none());
    }
    match &items[0].job {
        Job::Generate { params, dest } => {
            assert_eq!(params, "p1");
            assert_eq!(dest, "d1");
        },
        _ => panic!("unexpected job type"),
    }
    match &items[1].job {
        Job::GenerateUpload { thumbnail, .. } => assert_eq!(thumbnail.as_deref(), Some("t2")),
        _ => panic!("unexpected job type"),
    }
}

#[test]
fn malformed_text_is_rejected() {
    assert!(parse_queue("").is_none());
    assert!(parse_queue("not json").is_none());
    assert!(parse_queue("{}").is_none());
    assert!(parse_queue("[").is_none());
    assert!(parse_queue("[]]").is_none());
    assert!(parse_queue("[{\"job\":]").is_none());
    assert!(parse_queue("[{\"Generate\":{\"params\":\"p\",\"dest\":\"d\"}}").is_none());
    let valid = "[{\"Generate\":{\"params\":\"p\",\"dest\":\"d\"}}]";
    assert!(parse_queue(valid).is_some());
    let trailing = "[{\"Generate\":{\"params\":\"p\",\"dest\":\"d\"}}] ";
    assert!(parse_queue(trailing).is_none());
}
