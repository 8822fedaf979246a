use ytapp::queue::Job;
use ytapp::watch::plan_watch_job;

#[test]
fn audio_file_becomes_generate_job() {
    let job = plan_watch_job("/music/in/song.mp3", "payload".to_string(), false, None)
        .expect("mp3 files are watched");
    match job {
        Job::Generate { params, dest } => {
            assert_eq!(params, "payload");
            assert_eq!(dest, "/music/in/song.mp4");
        },
        _ => panic!("unexpected job type"),
    }
}

#[test]
fn auto_upload_becomes_upload_job_with_thumbnail() {
    let job = plan_watch_job(
        "clips/take.flac",
        "payload".to_string(),
        true,
        Some("cover.png".to_string()),
    )
    .expect("flac files are watched");
    match job {
        Job::GenerateUpload { params, dest, thumbnail } => {
            assert_eq!(params, "payload");
            assert_eq!(dest, "clips/take.mp4");
            assert_eq!(thumbnail.as_deref(), Some("cover.png"));
        },
        _ => panic!("unexpected job type"),
    }
}

#[test]
fn extension_match_ignores_case() {
    let job = plan_watch_job("A/B.MP3", "p".to_string(), false, None);
    assert!(job.is_some());
    match job.unwrap() {
        Job::Generate { dest, .. } => assert_eq!(dest, "A/B.mp4"),
        _ => panic!("unexpected job type"),
    }
    assert!(plan_watch_job("x/y.WaV", "p".to_string(), false, None).is_some());
}

#[test]
fn non_audio_files_are_ignored() {
    assert!(plan_watch_job("notes.txt", "p".to_string(), false, None).is_none());
    assert!(plan_watch_job("archive.mp3.bak", "p".to_string(), false, None).is_none());
    assert!(plan_watch_job("noextension", "p".to_string(), false, None).is_none());
    assert!(plan_watch_job("dir.mp3/file.txt", "p".to_string(), false, None).is_none());
}

#[test]
fn hidden_files_without_second_dot_are_ignored() {
    assert!(plan_watch_job("/watch/.mp3", "p".to_string(), false, None).is_none());
    assert!(plan_watch_job(".aac", "p".to_string(), false, None).is_none());
    let job = plan_watch_job("/watch/.hidden.m4a", "p".to_string(), false, None);
    assert!(job.is_some());
}
