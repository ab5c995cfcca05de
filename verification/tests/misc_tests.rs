use yuukips_launcher::digest::{
    md5_hex, progress_md5_chunk_size, md5_pause_ms, sha256_hex, verify_state_checksum, Md5Stream,
};
use yuukips_launcher::game::{
    kill_after_force, kill_after_graceful, kill_after_listing, pid_already_gone, stop_game_outcome,
    stop_process_outcome, tasklist_lists_process, GameMonitor, KillStep, MonitorAction,
    patch_check_result, game_installation_path, close_guard,
};
use yuukips_launcher::hoyoplay::{
    get_game_executable_names, get_game_folder, get_game_name, should_delete_hoyo_pass_value, JsonNumber,
};
use yuukips_launcher::patch::{
    md5_matches, patch_api_url, patch_cache_file_name, patch_plan, patch_summary, PatchPlan,
    backup_path, cleanup_summary, patched_copy_path,
};
use yuukips_launcher::proxy::{ca_install_script, default_proxy_domains, proxy_server_setting, ProxyConfig, RequestRoute};
use yuukips_launcher::system::{
    after_proxy_query, certificate_listed, cleared_summary, is_preserved, is_task_manager_running,
    ProxyCheckStep, TaskManagerWatch, WatchStep,
};
use yuukips_launcher::transfer::{
    file_size_from_head, file_size_from_range, plan_chunk, resolve_total_size, stall_check, ChunkPlan,
    RetryDecision, RetryState, StallAction, integrity_verdict, IntegrityVerdict, repaired_message,
    completes_after_transfer, final_size_check, head_retry_delay, marks_completed_after, response_verdict,
    ResponseVerdict, TransferOrigin, range_header_value,
};
use yuukips_launcher::download::DownloadStatus;
use yuukips_launcher::system::{log_level_from, LogLevel};
use yuukips_launcher::update::{client_error_message, installer_kind, update_file_name, InstallerKind};

fn num(n: u64) -> JsonNumber {
    JsonNumber::from_u64(n)
}

#[test]
fn proxy_domains_and_logs() {
    let mut p = ProxyConfig::new();
    assert_eq!(p.server, "https://ps.yuuki.me");
    assert_eq!(p.port, 8080);
    assert_eq!(p.add_proxy_domain("a.com".to_string()), "Domain 'a.com' added successfully");
    assert_eq!(p.add_proxy_domain("a.com".to_string()), "Domain 'a.com' already exists");
    assert!(p.should_intercept_uri("https://x.a.com/path"));
    assert!(!p.should_intercept_uri("https://b.com/"));
    assert_eq!(p.remove_proxy_domain("a.com".to_string()), "Domain 'a.com' removed successfully");
    assert_eq!(p.remove_proxy_domain("a.com".to_string()), "Domain 'a.com' not found");
    assert!(p.user_domains.is_empty());
    let init = p.initialize_user_domains_if_empty();
    assert_eq!(init.len(), 9);
    assert_eq!(init, default_proxy_domains());
    assert_eq!(p.get_all_proxy_domains().len(), 18);
    for i in 0..150 {
        p.log_proxy_redirection(format!("o{}", i), format!("r{}", i));
    }
    let logs = p.get_proxy_logs();
    assert_eq!(logs.len(), 100);
    assert_eq!(logs[0].original_url, "o50");
    assert_eq!(logs[99].redirected_url, "r149");
    assert_eq!(p.redirect_uri("/query?a=1"), "https://ps.yuuki.me/query?a=1");
    assert_eq!(p.clear_proxy_logs(), "Proxy logs cleared successfully");
    assert_eq!(p.set_proxy_port(9000), "Proxy port set to: 9000");
    assert_eq!(p.start_proxy(), "Proxy started successfully on port 9000");
    assert_eq!(p.stop_proxy(), Ok("Proxy stopped successfully".to_string()));
    assert_eq!(p.stop_proxy(), Err("Proxy is not running".to_string()));
    assert_eq!(p.force_stop_proxy(), "Proxy was not running");
    assert_eq!(proxy_server_setting(8080), "http=127.0.0.1:8080;https=127.0.0.1:8080");
}

#[test]
fn process_list_parsing() {
    let out = "\"Image Name\",\"PID\"\r\n\"GenshinImpact.exe\",\"1234\",\"Console\"\r\n";
    assert!(tasklist_lists_process(out, "GenshinImpact.exe"));
    assert!(!tasklist_lists_process(out, "YuanShen.exe"));
    // the header line does not count
    assert!(!tasklist_lists_process("\"GenshinImpact.exe\",\"1\"", "GenshinImpact.exe"));
    // a mention in another field does not count
    assert!(!tasklist_lists_process("h\n\"x.exe\",\"GenshinImpact.exe\"\n", "GenshinImpact.exe"));
    assert!(!tasklist_lists_process("INFO: No tasks are running", "GenshinImpact.exe"));
}

#[test]
fn stopping_processes() {
    assert_eq!(pid_already_gone(42, "PID 42"), None);
    assert_eq!(
        pid_already_gone(42, "INFO: none"),
        Some("Process with PID 42 is not running (already terminated)".to_string())
    );
    assert_eq!(stop_process_outcome(7, true, ""), Ok("Successfully terminated process with PID: 7".to_string()));
    assert_eq!(
        stop_process_outcome(7, false, "ERROR: process not found"),
        Ok("Process with PID 7 was not running (already terminated)".to_string())
    );
    assert_eq!(stop_process_outcome(7, false, "denied"), Err("Failed to terminate process: denied".to_string()));
    assert_eq!(stop_game_outcome("G.exe", false, "x"), Err("Failed to terminate G.exe: x".to_string()));
    assert!(matches!(kill_after_listing("G.exe", true, "h\n\"G.exe\",\"1\"\n", ""), KillStep::CloseGracefully));
    match kill_after_listing("G.exe", true, "h\n", "") {
        KillStep::Finished(Ok(m)) => assert_eq!(m, "No game processes were running"),
        _ => panic!(),
    }
    assert!(matches!(kill_after_graceful("G.exe", false), KillStep::ForceClose));
    assert_eq!(kill_after_force("G.exe", false, "e"), Err("Failed to kill G.exe: e".to_string()));
    assert_eq!(game_installation_path("7"), "C:\\Games\\7\\game.exe");
    let r = patch_check_result(Some("hello".to_string()));
    assert!(r.has_message && r.can_proceed && r.message == "hello");
    assert!(!patch_check_result(None).has_message);
}

#[test]
fn game_monitor_follows_a_game() {
    let mut m = GameMonitor::new();
    for _ in 0..3 {
        assert!(m.before_startup_check(false).is_none());
        assert!(matches!(m.after_startup_check(Some(false), None), MonitorAction::WaitAndCheck(1)));
    }
    assert!(m.before_startup_check(false).is_none());
    assert!(matches!(
        m.after_startup_check(Some(true), Some(false)),
        MonitorAction::GameStarted { start_proxy: false }
    ));
    m.proxy_started();
    assert!(matches!(m.after_running_check(None, true), MonitorAction::WaitAndCheck(3)));
    assert!(matches!(m.after_running_check(Some(true), true), MonitorAction::WaitAndCheck(3)));
    assert!(matches!(
        m.after_running_check(Some(false), true),
        MonitorAction::Stop { cleanup: true, stop_proxy: true }
    ));
    let mut w = GameMonitor::new();
    let mut stopped = false;
    for _ in 0..31 {
        match w.before_startup_check(false) {
            Some(MonitorAction::Stop { cleanup, .. }) => {
                assert!(!cleanup);
                stopped = true;
                break;
            }
            _ => {
                w.after_startup_check(None, None);
            }
        }
    }
    assert!(stopped);
    let mut e = GameMonitor::new();
    e.before_startup_check(false);
    e.after_startup_check(Some(true), None);
    for _ in 0..4 {
        assert!(matches!(e.after_running_check(None, false), MonitorAction::WaitAndCheck(3)));
    }
    assert!(matches!(e.after_running_check(None, false), MonitorAction::Stop { cleanup: false, stop_proxy: false }));
}

#[test]
fn game_monitor_stops_only_its_own_proxy() {
    let mut m = GameMonitor::new();
    m.before_startup_check(true);
    m.after_startup_check(Some(true), None);
    for _ in 0..4 {
        assert!(matches!(m.after_running_check(None, true), MonitorAction::WaitAndCheck(3)));
        assert!(!m.proxy_started_by_us);
    }
    assert!(matches!(m.after_running_check(None, true), MonitorAction::Stop { cleanup: false, stop_proxy: false }));
    assert!(!m.proxy_started_by_us);
    assert!(!m.proxy_left_running(true));

    let mut w = GameMonitor::new();
    w.proxy_started();
    for _ in 0..30 {
        assert!(w.before_startup_check(true).is_none());
    }
    assert!(matches!(w.before_startup_check(true), Some(MonitorAction::Stop { cleanup: false, stop_proxy: true })));
    assert!(!w.proxy_started_by_us);
    assert!(!w.proxy_left_running(true));

    let mut r = GameMonitor::new();
    r.before_startup_check(false);
    r.after_startup_check(Some(true), None);
    r.proxy_started();
    assert!(matches!(r.after_running_check(Some(false), false), MonitorAction::Stop { cleanup: true, stop_proxy: false }));
    assert!(r.proxy_started_by_us);
}

#[test]
fn transfer_decisions() {
    assert_eq!(file_size_from_head(Some("1234".to_string())), Ok(1234));
    assert_eq!(file_size_from_head(None), Err("Content-Length header not found".to_string()));
    assert!(file_size_from_head(Some("x".to_string())).unwrap_err().starts_with("Failed to parse content-length: "));
    assert_eq!(file_size_from_range(Some("bytes 0-0/5000".to_string())), Ok(5000));
    assert_eq!(
        file_size_from_range(Some("bytes 0-0".to_string())),
        Err("Could not determine file size from range request".to_string())
    );
    assert_eq!(resolve_total_size(0, true, Some("bytes 10-99/100".to_string()), Some(90), 10), 100);
    assert_eq!(resolve_total_size(0, true, Some("bytes 10-99/*".to_string()), Some(90), 10), 100);
    assert_eq!(resolve_total_size(0, false, None, Some(77), 0), 77);
    assert_eq!(resolve_total_size(5, false, None, Some(77), 0), 5);
    assert!(matches!(plan_chunk(100, 90, 20), ChunkPlan::WriteFinal(10)));
    assert!(matches!(plan_chunk(100, 100, 20), ChunkPlan::Done));
    assert!(matches!(plan_chunk(0, 90, 20), ChunkPlan::Write));
    assert!(matches!(plan_chunk(100, 0, 0), ChunkPlan::Skip));
    assert!(matches!(stall_check(100, 0, 100), StallAction::Complete));
    assert!(matches!(stall_check(0, 0, 2000), StallAction::UpdateProgress));
    assert!(matches!(stall_check(0, 1000, 2000), StallAction::Nothing));
    assert!(matches!(integrity_verdict(10, 10), Ok(IntegrityVerdict::Intact)));
    assert!(matches!(integrity_verdict(10, 12), Ok(IntegrityVerdict::Repair(10))));
    assert!(integrity_verdict(0, 12).is_err());
    assert_eq!(repaired_message(10), "File repaired successfully - size corrected to 10 bytes");
}

#[test]
fn retries_back_off_and_give_up() {
    let mut r = RetryState::new();
    let mut delays = Vec::new();
    loop {
        match r.on_request_error() {
            RetryDecision::Retry(d) => delays.push(d),
            RetryDecision::TooManyConsecutive => break,
            RetryDecision::TooManyTotal => panic!(),
        }
    }
    assert_eq!(delays, vec![1100, 2200, 4300, 16400]);
    let mut c = RetryState::new();
    match c.on_chunk_error_with(0) {
        RetryDecision::Retry(d) => assert_eq!(d, 1500),
        _ => panic!(),
    }
    c.on_chunk_ok();
    let mut t = RetryState::new();
    let mut n = 0;
    loop {
        match t.on_request_error() {
            RetryDecision::Retry(_) => {
                n += 1;
                if n % 3 == 0 {
                    t.on_response_ok();
                }
            }
            RetryDecision::TooManyTotal => break,
            RetryDecision::TooManyConsecutive => panic!(),
        }
    }
    assert_eq!(n, 14);
    let mut h = RetryState::new();
    match h.on_chunk_error() {
        RetryDecision::Retry(ms) => assert!((1500..=2500).contains(&ms)),
        _ => panic!(),
    }
    assert_eq!(h.base_delay_ms, 1000);
    h.on_chunk_error();
    match h.on_chunk_error() {
        RetryDecision::Retry(ms) => assert!((6000..=10000).contains(&ms)),
        _ => panic!(),
    }
    assert_eq!(h.base_delay_ms, 2000);
    assert_eq!(h.success_count, 0);
}

#[test]
fn patch_bookkeeping() {
    assert_eq!(
        patch_api_url("1", "5.0.0", "2", "abc"),
        "https://ps.yuuki.me/game/patch/1/5.0.0/2/abc.json"
    );
    assert_eq!(patch_cache_file_name("a/b\\c.dll"), "a_b_c.dll.patch");
    assert!(md5_matches("ABCDEF", "abcdef"));
    assert!(!md5_matches("abc", "abd"));
    assert!(matches!(patch_plan(0), Ok(PatchPlan::NothingToPatch)));
    assert!(matches!(patch_plan(1), Ok(PatchPlan::ApplyFiles)));
    assert_eq!(patch_plan(7).err(), Some("Unsupported patch method: 7".to_string()));
    assert_eq!(patch_summary(0), "No patches applied");
    assert_eq!(patch_summary(3), "Applied 3 patches successfully");
    assert_eq!(cleanup_summary(0), "");
    assert_eq!(backup_path("game/x.dll"), "game/x.dll.backup");
    assert_eq!(backup_path("game/x"), "game/x..backup");
    assert_eq!(backup_path("game.d/x"), "game.d/x..backup");
    assert_eq!(backup_path("a/.hidden"), "a/.hidden..backup");
    assert_eq!(patched_copy_path("game/UnityPlayer.dll"), "game/UnityPlayer.dll.patch");
    assert_eq!(patched_copy_path("game/data"), "game/data..patch");
}

#[test]
fn games_and_checksums() {
    assert_eq!(get_game_executable_names(&num(1), &num(2)), Ok("YuanShen.exe".to_string()));
    assert_eq!(get_game_folder(&num(2), &num(2)), Ok("StarRail_Data".to_string()));
    assert_eq!(
        get_game_executable_names(&num(9), &num(1)),
        Err("Unsupported game ID: 9 with channel ID: 1".to_string())
    );
    let odd = JsonNumber { as_u64: None, text: "1.5".to_string() };
    assert_eq!(get_game_name(&odd), Err("Unsupported game ID: 1.5".to_string()));
    assert_eq!(get_game_name(&num(4)), Ok("Stella Sora".to_string()));
    assert!(should_delete_hoyo_pass_value("xHOYO_PASS_ENABLEy"));
    assert!(!should_delete_hoyo_pass_value("OTHER"));
    assert_eq!(md5_hex(b""), "d41d8cd98f00b204e9800998ecf8427e");
    assert_eq!(md5_hex(b"abc"), "900150983cd24fb0d6963f7d28e17f72");
    assert_eq!(sha256_hex(b"abc"), "ba7816bf8f01cfea414140de5dae2223b00361a396177a9cb410ff61f20015ad");
    assert!(verify_state_checksum("ba7816bf8f01cfea414140de5dae2223b00361a396177a9cb410ff61f20015ad", b"abc").is_ok());
    assert_eq!(verify_state_checksum("00", b"abc"), Err("State file checksum verification failed".to_string()));
    assert_eq!(progress_md5_chunk_size(600 * 1024 * 1024), 256 * 1024);
    assert_eq!(md5_pause_ms(600 * 1024 * 1024, 10), 25);
    assert_eq!(md5_pause_ms(1024, 3), 0);
}

#[test]
fn system_and_update_checks() {
    assert_eq!(is_task_manager_running(true, "Taskmgr.exe 12"), Ok(true));
    assert_eq!(is_task_manager_running(true, "none"), Ok(false));
    assert_eq!(is_task_manager_running(false, ""), Err("Failed to execute tasklist command".to_string()));
    assert!(matches!(after_proxy_query(true, "ProxyEnable REG_DWORD 0x1", ""), ProxyCheckStep::SwitchOff));
    assert!(matches!(after_proxy_query(true, "ProxyEnable REG_DWORD 0x0", ""), ProxyCheckStep::Finished(Ok(_))));
    assert!(certificate_listed(true, "Issuer: CN=YuukiPS"));
    assert!(!certificate_listed(false, "yuukips"));
    assert!(is_preserved("uninstall.exe", &vec!["yuukips-launcher.exe", "uninstall.exe"]));
    assert!(!is_preserved("x", &vec!["EBWebView"]));
    assert_eq!(cleared_summary(&vec![]), "No launcher data found to clear");
    assert_eq!(
        cleared_summary(&vec!["a".to_string(), "b".to_string()]),
        "Successfully cleared: a, b"
    );
    let mut w = TaskManagerWatch::new();
    assert!(matches!(w.step(true, true), WatchStep::Continue { warn: true }));
    assert!(matches!(w.step(true, true), WatchStep::Continue { warn: false }));
    assert!(matches!(w.step(true, false), WatchStep::Continue { warn: false }));
    assert!(matches!(w.step(true, true), WatchStep::Continue { warn: true }));
    assert!(matches!(w.step(false, true), WatchStep::Stop));
    assert_eq!(update_file_name("https://x/y/setup.msi"), "setup.msi");
    assert_eq!(update_file_name("https://x/y/"), "");
    assert!(matches!(installer_kind("a.msi"), Ok(InstallerKind::Msi)));
    assert!(matches!(installer_kind("a.exe"), Ok(InstallerKind::Exe)));
    assert_eq!(installer_kind("a.zip").err(), Some("Unsupported update file format".to_string()));
    assert_eq!(client_error_message("boom"), "Failed to create HTTP client: boom");
}

#[test]
fn log_levels_from_setting() {
    assert_eq!(log_level_from(Some("DEBUG")), LogLevel::Debug);
    assert_eq!(log_level_from(Some("off")), LogLevel::Off);
    assert_eq!(log_level_from(Some("loud")), LogLevel::Info);
    assert_eq!(log_level_from(None), LogLevel::Info);
}

#[test]
fn http_errors_count_in_a_row_only() {
    let mut r = RetryState::new();
    assert_eq!(r.on_http_error(), Some(1000));
    assert_eq!(r.on_http_error(), Some(2000));
    assert_eq!(r.total_retries, 0);
    r.on_response_ok();
    for _ in 0..4 {
        assert!(r.on_http_error().is_some());
    }
    assert_eq!(r.on_http_error(), None);
}

#[test]
fn proxy_routes_requests() {
    let mut p = ProxyConfig::new();
    p.add_proxy_domain("hoyoverse.com".to_string());
    assert!(matches!(p.route_request("GET", "https://example.org/x", "/x"), RequestRoute::Pass));
    assert!(matches!(p.route_request("CONNECT", "sdk.hoyoverse.com:443", ""), RequestRoute::AnswerConnect));
    match p.route_request("GET", "https://sdk.hoyoverse.com/login?a=1", "/login?a=1") {
        RequestRoute::Redirect(t) => assert_eq!(t, "https://ps.yuuki.me/login?a=1"),
        _ => panic!("expected a redirect"),
    }
    let logs = p.get_proxy_logs();
    assert_eq!(logs.len(), 1);
    assert_eq!(logs[0].original_url, "https://sdk.hoyoverse.com/login?a=1");
    let script = ca_install_script("/x/cert.crt");
    assert!(script.starts_with("#!/bin/bash\n\nset -e\n"));
    assert_eq!(script.matches("cp /x/cert.crt ").count(), 3);
}

#[test]
fn md5_read_in_pieces_is_md5_of_the_whole() {
    let data: Vec<u8> = (0..1000u32).map(|i| (i * 7 % 251) as u8).collect();
    let mut stream = Md5Stream::new(data.len() as u64);
    let mut pauses = Vec::new();
    for piece in data.chunks(64 * 3 + 5) {
        pauses.push(stream.take_chunk(piece));
    }
    assert_eq!(stream.bytes_read(), 1000);
    assert_eq!(stream.chunks(), 6);
    assert_eq!(pauses, vec![0, 0, 0, 0, 0, 0]);
    assert_eq!(stream.md5_text(), md5_hex(&data));

    let empty = Md5Stream::new(0);
    assert_eq!(empty.md5_text(), "d41d8cd98f00b204e9800998ecf8427e");

    let mut s = Md5Stream::new(3);
    for _ in 0..9 {
        s.take_chunk(b"a");
    }
    assert_eq!(s.take_chunk(b"bc"), 5);
    assert_eq!(s.md5_text(), md5_hex(b"aaaaaaaaabc"));

    let mut r = Md5Stream::new(3);
    assert_eq!(r.take_chunk_reporting(b"abc", 1000), (0, true));
    assert_eq!(r.take_chunk_reporting(b"d", 10), (0, false));
    assert_eq!(r.md5_text(), md5_hex(b"abcd"));
}

#[test]
fn transfer_endings_by_command() {
    assert!(completes_after_transfer(DownloadStatus::Downloading, 10, 10));
    assert!(completes_after_transfer(DownloadStatus::Paused, 11, 10));
    assert!(!completes_after_transfer(DownloadStatus::Downloading, 10, 0));
    assert!(!completes_after_transfer(DownloadStatus::Error, 10, 10));
    assert!(marks_completed_after(TransferOrigin::Started, Some(DownloadStatus::Downloading), 3, 0));
    assert!(!marks_completed_after(TransferOrigin::Started, None, 3, 0));
    assert!(marks_completed_after(TransferOrigin::Resumed, Some(DownloadStatus::Downloading), 5, 5));
    assert!(!marks_completed_after(TransferOrigin::Resumed, Some(DownloadStatus::Downloading), 5, 0));
    assert!(!marks_completed_after(TransferOrigin::Resumed, Some(DownloadStatus::Completed), 5, 5));
    assert!(marks_completed_after(TransferOrigin::Restarted, Some(DownloadStatus::Downloading), 0, 0));
    assert!(!marks_completed_after(TransferOrigin::Restarted, Some(DownloadStatus::Paused), 5, 5));
    assert!(!marks_completed_after(TransferOrigin::Restarted, Some(DownloadStatus::Downloading), 4, 5));
    assert!(!marks_completed_after(TransferOrigin::Queued, Some(DownloadStatus::Downloading), 5, 5));
    assert!(matches!(response_verdict(200), ResponseVerdict::Proceed));
    assert!(matches!(response_verdict(206), ResponseVerdict::Proceed));
    assert!(matches!(response_verdict(416), ResponseVerdict::RestartFresh));
    assert!(matches!(response_verdict(404), ResponseVerdict::HttpError));
    assert!(matches!(response_verdict(302), ResponseVerdict::HttpError));
    assert_eq!(final_size_check(10, 10), Ok(()));
    assert_eq!(final_size_check(10, 7), Err("File size mismatch: expected 10 bytes, got 7 bytes".to_string()));
    assert_eq!(head_retry_delay(1), Some(2));
    assert_eq!(head_retry_delay(2), Some(2));
    assert_eq!(head_retry_delay(3), None);
    assert_eq!(range_header_value(0), None);
    assert_eq!(range_header_value(1024), Some("bytes=1024-".to_string()));
}

#[test]
fn closing_is_refused_while_a_game_runs() {
    let (title, text) = close_guard(Some(true)).unwrap();
    assert_eq!(title, "Game Running - Cannot Close Launcher");
    assert!(text.starts_with("Cannot close launcher while a game is running.\n\n"));
    assert!(text.contains("\u{2022} Remaining patch files not to be deleted\n"));
    assert!(text.ends_with("Please close the game first, then close the launcher."));
    assert!(close_guard(Some(false)).is_none());
    assert!(close_guard(None).is_none());
}
