use yuukips_launcher::download::{ActivityType, DownloadManager, DownloadStatus, ResumeAction};
use yuukips_launcher::download_flow::{
    should_auto_save, trigger_queue_management_on_settings_change, validate_max_simultaneous_downloads,
    QueueChange,
};

fn status_of(m: &DownloadManager, id: &String) -> DownloadStatus {
    m.get_download(id).unwrap().status
}

fn add(m: &mut DownloadManager, path: &str, max: u32, now: u64) -> String {
    m.add_download(" https://example.com/file.zip;,, ", path.to_string(), None, max, now)
}

#[test]
fn add_download_fills_fields_and_logs() {
    let mut m = DownloadManager::new("downloads".to_string());
    let id = add(&mut m, "games/data/file.zip", 3, 100);
    assert_eq!(id.len(), 36);
    assert_eq!(id.chars().nth(14), Some('4'));
    let d = m.get_download(&id).unwrap();
    assert_eq!(d.url, "https://example.com/file.zip");
    assert_eq!(d.file_name, "file.zip");
    assert_eq!(d.file_extension, ".zip");
    assert_eq!(d.status, DownloadStatus::Downloading);
    assert_eq!(d.start_time, 100);
    let acts = m.get_activities();
    assert_eq!(acts.len(), 2);
    assert_eq!(acts[1].action_type, ActivityType::FileAdded);
    assert_eq!(acts[1].details.as_deref(), Some("Added download from URL: https://example.com/file.zip"));
    assert_eq!(acts[0].action_type, ActivityType::DownloadStarted);
    assert_eq!(acts[0].details.as_deref(), Some("Download started for file: games/data/file.zip"));
}

#[test]
fn add_download_queues_past_the_limit() {
    let mut m = DownloadManager::new("d".to_string());
    let a = add(&mut m, "a.bin", 1, 1);
    let b = m.add_download("u", "b".to_string(), Some("named".to_string()), 1, 2);
    assert_eq!(status_of(&m, &a), DownloadStatus::Downloading);
    assert_eq!(status_of(&m, &b), DownloadStatus::Queued);
    let d = m.get_download(&b).unwrap();
    assert_eq!(d.file_name, "named");
    assert_eq!(d.file_extension, "");
    let acts = m.get_activities();
    assert_eq!(acts[0].status.as_deref(), Some("queued"));
    assert_eq!(acts[0].details.as_deref(), Some("Download queued (max 1 simultaneous downloads reached): b"));
    let c = m.add_download("u", "dl.d/setup".to_string(), None, 1, 3);
    let d = m.get_download(&c).unwrap();
    assert_eq!(d.file_name, "setup");
    assert_eq!(d.file_extension, "");
}

#[test]
fn queue_starts_oldest_first_and_trims_newest() {
    let mut m = DownloadManager::new("d".to_string());
    let ids: Vec<String> = (0..5).map(|i| add(&mut m, &format!("f{}.bin", i), 1, 10 + i as u64)).collect();
    assert_eq!(m.count_downloading_only(), 1);
    let started = m.start_next_queued_download(3);
    assert_eq!(started, vec![ids[1].clone(), ids[2].clone()]);
    assert_eq!(m.count_downloading_only(), 3);
    // filling again starts nothing
    assert!(m.start_next_queued_download(3).is_empty());
    let queued = m.enforce_download_limit(1);
    assert_eq!(queued.len(), 2);
    assert!(queued.contains(&ids[1]) && queued.contains(&ids[2]));
    assert_eq!(status_of(&m, &ids[0]), DownloadStatus::Downloading);
    assert!(m.enforce_download_limit(1).is_empty());
}

#[test]
fn settings_change_trims_or_fills() {
    let mut m = DownloadManager::new("d".to_string());
    for i in 0..4 {
        add(&mut m, &format!("f{}", i), 4, i);
    }
    match trigger_queue_management_on_settings_change(&mut m, 2, 4) {
        QueueChange::Trimmed(q) => assert_eq!(q.len(), 2),
        _ => panic!("expected a trim"),
    }
    assert_eq!(m.count_downloading_only(), 2);
    match trigger_queue_management_on_settings_change(&mut m, 3, 2) {
        QueueChange::Filled(q) => assert_eq!(q.len(), 1),
        _ => panic!("expected a fill"),
    }
    assert!(matches!(trigger_queue_management_on_settings_change(&mut m, 3, 3), QueueChange::Unchanged));
    assert!(validate_max_simultaneous_downloads(0).is_err());
    assert_eq!(
        validate_max_simultaneous_downloads(65),
        Err("Max simultaneous downloads must be between 1 and 64".to_string())
    );
    assert!(validate_max_simultaneous_downloads(64).is_ok());
    assert!(should_auto_save(true, Some(30)));
    assert!(!should_auto_save(true, Some(29)));
    assert!(should_auto_save(true, None));
    assert!(!should_auto_save(false, None));
}

#[test]
fn status_changes_log_and_free_slots() {
    let mut m = DownloadManager::new("d".to_string());
    let a = add(&mut m, "a", 1, 1);
    let b = add(&mut m, "b", 1, 2);
    let started = m.set_download_status(&a, DownloadStatus::Completed, None, 50, 1);
    assert_eq!(started, vec![b.clone()]);
    let d = m.get_download(&a).unwrap();
    assert_eq!(d.end_time, Some(50));
    let acts = m.get_activities();
    assert_eq!(acts[0].action_type, ActivityType::DownloadCompleted);
    assert_eq!(acts[0].details.as_deref(), Some("Status changed to completed"));
    m.set_download_status(&b, DownloadStatus::Error, Some("boom".to_string()), 60, 1);
    assert_eq!(m.get_activities()[0].details.as_deref(), Some("Status changed to error - boom"));
    assert_eq!(m.get_download(&b).unwrap().error_message.as_deref(), Some("boom"));
}

#[test]
fn pause_resume_restart_cancel() {
    let mut m = DownloadManager::new("d".to_string());
    let a = add(&mut m, "a", 1, 1);
    let b = add(&mut m, "b", 1, 2);
    assert_eq!(m.pause_download(&b, 1), Err("Download is not active".to_string()));
    let started = m.pause_download(&a, 1).unwrap();
    assert_eq!(started, vec![b.clone()]);
    assert!(m.get_download(&a).unwrap().user_paused);
    assert!(matches!(m.resume_download(&a, 1), ResumeAction::Queued));
    assert_eq!(status_of(&m, &a), DownloadStatus::Queued);
    let started = m.cancel_download(&b, 9, 1);
    assert_eq!(started, vec![a.clone()]);
    assert_eq!(status_of(&m, &b), DownloadStatus::Cancelled);
    assert_eq!(m.restart_download(&b), Some(("https://example.com/file.zip".to_string(), "b".to_string())));
    assert_eq!(status_of(&m, &b), DownloadStatus::Downloading);
    assert_eq!(m.cancel_and_delete_download(&b), "b");
    assert!(m.get_download(&b).is_none());
    assert_eq!(m.cancel_and_delete_download(&b), "");
}

#[test]
fn progress_partial_records_and_stats() {
    let mut m = DownloadManager::new("d".to_string());
    let a = add(&mut m, "a", 3, 1);
    let b = add(&mut m, "b", 3, 2);
    m.update_download_progress(&a, 500, 1000, 100);
    m.update_download_progress(&b, 10, 0, 50);
    let d = m.get_download(&a).unwrap();
    assert_eq!(d.time_remaining, 5);
    assert_eq!(m.partial_downloads.len(), 2);
    let s = m.get_stats();
    assert_eq!(s.total_downloads, 2);
    assert_eq!(s.active_downloads, 2);
    assert_eq!(s.total_downloaded_size, 510);
    assert_eq!(s.average_speed, 75);
    m.set_download_status(&a, DownloadStatus::Completed, None, 5, 3);
    assert_eq!(m.partial_downloads.len(), 1);
    m.clear_completed_downloads();
    assert!(m.get_download(&a).is_none());
    assert_eq!(m.all_downloads().len(), 1);
}

#[test]
fn interrupted_downloads_are_paused_for_resume() {
    let mut m = DownloadManager::new("d".to_string());
    let a = add(&mut m, "a", 3, 1);
    let b = add(&mut m, "b", 3, 2);
    let c = add(&mut m, "c", 3, 3);
    m.update_download_progress(&a, 10, 100, 0);
    m.set_download_status_no_cleanup(&c, DownloadStatus::Paused, None);
    let ids = m.resume_interrupted_downloads();
    assert_eq!(ids, vec![a.clone(), c.clone()]);
    assert_eq!(status_of(&m, &a), DownloadStatus::Paused);
    assert_eq!(status_of(&m, &b), DownloadStatus::Downloading);
    let acts = m.get_activities();
    assert_eq!(acts[0].details.as_deref(), Some("Download was interrupted and will be auto-resumed."));
}

#[test]
fn activity_log_is_newest_first() {
    let mut m = DownloadManager::new("d".to_string());
    m.add_user_interaction_activity("clicked".to_string(), None);
    m.add_user_interaction_activity("x".to_string(), Some("details".to_string()));
    let acts = m.get_activities();
    assert_eq!(acts[0].details.as_deref(), Some("details"));
    assert_eq!(acts[1].details.as_deref(), Some("clicked"));
    m.clear_activities();
    assert!(m.get_activities().is_empty());
}

#[test]
fn restoring_state_keeps_one_download_per_id() {
    let mut m = DownloadManager::new("d".to_string());
    let a = add(&mut m, "a", 3, 1);
    let mut items = m.all_downloads();
    let mut again = items[0].clone();
    again.file_path = "moved".to_string();
    items.push(again);
    let mut n = DownloadManager::new("other".to_string());
    n.restore_state(items, "restored".to_string(), 7);
    assert_eq!(n.all_downloads().len(), 1);
    assert_eq!(n.get_download(&a).unwrap().file_path, "moved");
    assert_eq!(n.download_directory, "restored");
    assert_eq!(n.state_version, 7);
}

#[test]
fn saved_table_restores_unchanged() {
    let mut m = DownloadManager::new("d".to_string());
    let ids: Vec<String> = (0..4).map(|i| add(&mut m, &format!("f{}", i), 2, i)).collect();
    m.set_download_status(&ids[0], DownloadStatus::Completed, None, 9, 2);
    let saved = m.all_downloads();
    let mut n = DownloadManager::new("x".to_string());
    n.restore_state(saved.clone(), "d".to_string(), 1);
    let back = n.all_downloads();
    assert_eq!(back.len(), saved.len());
    for (a, b) in back.iter().zip(saved.iter()) {
        assert_eq!(a.id, b.id);
        assert_eq!(a.status, b.status);
        assert_eq!(a.file_path, b.file_path);
    }
    n.clear_completed_downloads();
    assert_eq!(n.count_with_status(DownloadStatus::Completed), 0);
    assert_eq!(n.all_downloads().len(), 3);
}
