use online_media_ingest::models::{
    CreateTaskRequest, OutputFile, Progress, TargetFolderConfigSnapshot, TaskMetadataInput, TaskState,
};
use online_media_ingest::task_manager::TaskManager;

fn request() -> CreateTaskRequest {
    CreateTaskRequest {
        record_id: "r".into(),
        url: "https://x".into(),
        normalized_url: None,
        provider_id: None,
        auth: None,
        audio_only: None,
        audio_container: None,
        target_library_id: "lib".into(),
        target_folder_config_snapshot: TargetFolderConfigSnapshot {
            id: "f".into(),
            content_type: "movie".into(),
            download_path: "/d".into(),
            target_path: "/t".into(),
            link_mode: "copy".into(),
            organize_lang: None,
        },
        metadata: TaskMetadataInput {
            title: None,
            media_title: None,
            media_year: None,
            thumbnail_url: None,
            duration_seconds: None,
            uploader: None,
            artist: None,
            album_artist: None,
            album: None,
            track_title: None,
            track_number: None,
            disc_number: None,
            genre: None,
            release_date: None,
            source_id: None,
            external_id: None,
            source_site: None,
            generate_nfo: None,
            raw_metadata: None,
        },
    }
}

#[test]
fn task_lifecycle_to_completion() {
    let mut tasks = TaskManager::new();
    let id = tasks.create_task(request());
    assert_eq!(id.len(), 36);
    let t = tasks.get_task(&id).unwrap();
    assert_eq!(t.status, TaskState::Pending);
    tasks.update_stage(&id, "downloading", 10);
    assert_eq!(tasks.get_task(&id).unwrap().status, TaskState::Running);
    tasks.update_download_progress(&id, None, Some(50), Some(100), Some(5), Some(10));
    let t = tasks.get_task(&id).unwrap();
    assert_eq!(t.downloaded_bytes, Some(50));
    assert_eq!(t.progress, Some(Progress::Ratio(50, 100)));
    let files = vec![
        OutputFile { path: "/a".into(), size_bytes: Some(7), mime_type: None },
        OutputFile { path: "/b".into(), size_bytes: Some(9), mime_type: None },
    ];
    tasks.complete(&id, Some("/m.json".into()), Some("/t".into()), files);
    let t = tasks.get_task(&id).unwrap();
    assert_eq!(t.status, TaskState::Completed);
    assert_eq!(t.progress, Some(Progress::Percent(100)));
    assert_eq!(t.total_bytes, Some(9));
    let response = t.to_response();
    assert_eq!(response.output_files.len(), 2);
    assert_eq!(response.stage.as_deref(), Some("completed"));
}

#[test]
fn cancelled_task_stays_cancelled() {
    let mut tasks = TaskManager::new();
    let id = tasks.create_task(request());
    assert!(tasks.request_cancel(&id));
    assert!(tasks.is_cancel_requested(&id));
    tasks.fail(&id, "boom".into());
    assert_eq!(tasks.get_task(&id).unwrap().status, TaskState::Cancelled);
    tasks.complete(&id, None, None, vec![]);
    assert_eq!(tasks.get_task(&id).unwrap().status, TaskState::Cancelled);
    assert!(!tasks.request_cancel("unknown"));
    assert!(!tasks.is_cancel_requested("unknown"));
}

#[test]
fn failed_task_reports_its_error() {
    let mut tasks = TaskManager::new();
    let id = tasks.create_task(request());
    tasks.fail(&id, "boom".into());
    let t = tasks.get_task(&id).unwrap();
    assert_eq!(t.status, TaskState::Failed);
    assert_eq!(t.error.as_deref(), Some("boom"));
}

#[test]
fn task_ids_are_uuid_v4_text() {
    let mut tasks = TaskManager::new();
    let id = tasks.create_task(request());
    assert_eq!(id.len(), 36);
    for (i, c) in id.chars().enumerate() {
        if [8, 13, 18, 23].contains(&i) {
            assert_eq!(c, '-');
        } else {
            assert!(c.is_ascii_digit() || ('a'..='f').contains(&c));
        }
    }
    assert_eq!(id.chars().nth(14), Some('4'));
    assert!("89ab".contains(id.chars().nth(19).unwrap()));
}
