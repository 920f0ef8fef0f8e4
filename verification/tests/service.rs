use rudder::service::{compute_id, split_cmd, strip_ansi, ChildPoll, Service, SpawnError, Status};

fn started(name: &str, cmd: &str, pid: u32) -> Service {
    let mut s = Service::new(name, cmd);
    let req = s.start_with("/proj", true, true);
    assert!(req.is_some());
    s.record_spawn(Ok(pid));
    s
}

#[test]
fn stop_background_sets_stopped_when_no_child() {
    let mut s = Service::new("ghost", "echo hi");
    assert_eq!(s.status, Status::Stopped);

    s.stop_background();

    assert_eq!(s.status, Status::Stopped);
}

#[test]
fn new_service_waits_to_start() {
    let s = Service::new("ghost", "echo hi");
    assert_eq!(s.id, "ghost");
    assert_eq!(s.executable, "echo");
    assert_eq!(s.args, vec!["hi".to_string()]);
    assert_eq!(s.dir, None);
    assert_eq!(s.url, None);
    assert_eq!(s.log, vec!["Waiting to start...".to_string()]);
    assert_eq!(s.child_pid(), None);
}

#[test]
fn new_with_dir_prefixes_the_id() {
    let s = Service::new_with_dir("Frontend", "npm run dev", "frontend");
    assert_eq!(s.id, "frontend::Frontend");
    assert_eq!(s.dir.as_deref(), Some("frontend"));
    assert_eq!(s.work_dir("/proj"), "/proj/frontend");
    assert_eq!(s.work_dir("/proj/"), "/proj/frontend");
}

#[test]
fn compute_id_ignores_an_empty_dir() {
    assert_eq!(compute_id("Dev", None), "Dev");
    assert_eq!(compute_id("Dev", Some("")), "Dev");
    assert_eq!(compute_id("Dev", Some("api")), "api::Dev");
}

#[test]
fn update_id_follows_name_and_dir() {
    let mut s = Service::new("Dev", "cargo run");
    s.name = "Backend".to_string();
    s.dir = Some("backend".to_string());
    s.update_id();
    assert_eq!(s.id, "backend::Backend");
}

#[test]
fn split_cmd_uses_posix_quoting() {
    let (exe, args) = split_cmd("sh -c 'echo done'");
    assert_eq!(exe, "sh");
    assert_eq!(args, vec!["-c".to_string(), "echo done".to_string()]);
    let (exe, args) = split_cmd("");
    assert_eq!(exe, "");
    assert!(args.is_empty());
    let (exe, args) = split_cmd("echo 'unterminated");
    assert_eq!(exe, "");
    assert!(args.is_empty());
}

#[test]
fn cmd_string_quotes_arguments_with_spaces() {
    let s = Service::new("oneshot", "sh -c 'echo done'");
    assert_eq!(s.cmd_string(), "sh -c 'echo done'");
    let s = Service::new("Dev", "npm run dev");
    assert_eq!(s.cmd_string(), "npm run dev");
}

#[test]
fn strip_ansi_removes_escapes_and_carriage_returns() {
    assert_eq!(strip_ansi("\x1b[32mready\x1b[0m\r"), "ready");
    assert_eq!(strip_ansi("plain text"), "plain text");
    assert_eq!(strip_ansi("a\x1b[1~b"), "ab");
    assert_eq!(strip_ansi("cut\x1b[12"), "cut");
}

#[test]
fn start_refused_while_active() {
    let mut s = started("web", "sleep 60", 42);
    assert_eq!(s.status, Status::Starting);
    let before_log = s.log.clone();
    assert!(s.start_with("/proj", true, true).is_none());
    assert_eq!(s.status, Status::Starting);
    assert_eq!(s.log, before_log);
    assert_eq!(s.child_pid(), Some(42));
}

#[test]
fn start_refused_during_stopping() {
    let mut s = started("web", "sleep 60", 42);
    assert_eq!(s.stop_background(), Some(42));
    assert_eq!(s.status, Status::Stopping);
    assert!(s.start_with("/proj", true, true).is_none());
    assert_eq!(s.status, Status::Stopping);
    assert_eq!(s.child_pid(), Some(42));
}

#[test]
fn start_asks_to_spawn_in_the_work_dir() {
    let mut s = Service::new_with_dir("Api", "go run .", "api");
    let req = s.start_with("/proj", true, true).expect("spawn owed");
    assert_eq!(req.program, "go");
    assert_eq!(req.args, vec!["run".to_string(), ".".to_string()]);
    assert_eq!(req.dir, "/proj/api");
    assert_eq!(s.status, Status::Stopped);
}

#[test]
fn start_fails_when_the_directory_is_missing() {
    let mut s = Service::new_with_dir("Api", "go run .", "api");
    assert!(s.start_with("/proj", false, true).is_none());
    let msg = "Working directory does not exist: /proj/api".to_string();
    assert_eq!(s.status, Status::Failed(msg.clone()));
    assert_eq!(s.log.last().unwrap(), &format!("[err] {}", msg));
}

#[test]
fn start_fails_when_the_executable_is_not_in_path() {
    let mut s = Service::new("Tool", "some-nonexistent-binary --flag");
    assert!(s.start_with("/proj", true, false).is_none());
    assert_eq!(
        s.status,
        Status::Failed("Executable not found: some-nonexistent-binary (not in PATH)".to_string())
    );
}

#[test]
fn a_path_like_executable_skips_the_path_lookup() {
    let mut s = Service::new("Script", "./run.sh");
    let req = s.start_with("/proj", true, false).expect("no lookup for a path");
    assert_eq!(req.program, "./run.sh");
}

#[test]
fn start_looks_up_a_missing_executable() {
    let mut s = Service::new("Tool", "rudder-no-such-binary-anywhere");
    assert!(s.start("/proj", true).is_none());
    assert_eq!(
        s.status,
        Status::Failed("Executable not found: rudder-no-such-binary-anywhere (not in PATH)".to_string())
    );
}

#[test]
fn start_finds_an_executable_in_path() {
    let mut s = Service::new("Shell", "sh -c true");
    let req = s.start("/proj", true).expect("sh is in PATH");
    assert_eq!(req.program, "sh");
}

#[test]
fn record_spawn_resets_url_and_log() {
    let mut s = Service::new("stale", "sleep 30");
    s.url = Some("http://localhost:3000".to_string());
    s.log.push("http://localhost:3000".to_string());
    assert!(s.start_with("/tmp", true, true).is_some());
    s.record_spawn(Ok(7));
    assert_eq!(s.url, None);
    assert_eq!(s.log, vec!["[sys] Started".to_string()]);
    assert_eq!(s.status, Status::Starting);
    assert_eq!(s.child_pid(), Some(7));
}

#[test]
fn record_spawn_reports_each_error() {
    let mut s = Service::new("a", "tool x");
    s.record_spawn(Err(SpawnError::NotFound));
    assert_eq!(s.status, Status::Failed("Executable not found: tool".to_string()));
    let mut s = Service::new("a", "tool x");
    s.record_spawn(Err(SpawnError::PermissionDenied));
    assert_eq!(s.status, Status::Failed("Permission denied: tool".to_string()));
    let mut s = Service::new("a", "tool x");
    s.record_spawn(Err(SpawnError::Other("boom".to_string())));
    assert_eq!(s.status, Status::Failed("Failed to spawn: tool (boom)".to_string()));
    assert_eq!(s.log.last().unwrap(), "[err] Failed to spawn: tool (boom)");
}

#[test]
fn refresh_marks_a_live_process_running() {
    let mut s = started("web", "sleep 60", 9);
    s.refresh(Some(ChildPoll::Running));
    assert_eq!(s.status, Status::Running);
    s.refresh(Some(ChildPoll::Running));
    assert_eq!(s.status, Status::Running);
}

#[test]
fn quick_clean_exit_marks_stopped_not_failed() {
    let mut s = started("oneshot", "sh -c 'echo done'", 11);
    s.push_output("done");
    s.refresh(Some(ChildPoll::Exited(Some(0))));
    assert_eq!(s.status, Status::Stopped);
    assert_eq!(s.child_pid(), None);
    assert_eq!(s.log.last().unwrap(), "[sys] Process exited (code 0)");
}

#[test]
fn non_zero_exit_fails() {
    let mut s = started("web", "npm run dev", 12);
    s.refresh(Some(ChildPoll::Exited(Some(127))));
    assert_eq!(s.status, Status::Failed("exit code 127".to_string()));
    assert_eq!(s.log.last().unwrap(), "[sys] Process exited (code 127)");
    let mut s = started("web", "npm run dev", 12);
    s.refresh(Some(ChildPoll::Exited(None)));
    assert_eq!(s.status, Status::Failed("exit code signal".to_string()));
    assert_eq!(s.log.last().unwrap(), "[sys] Process killed by signal");
}

#[test]
fn negative_exit_code_is_written_with_its_sign() {
    let mut s = started("web", "npm run dev", 12);
    s.refresh(Some(ChildPoll::Exited(Some(-3))));
    assert_eq!(s.status, Status::Failed("exit code -3".to_string()));
}

#[test]
fn poll_error_fails_the_service() {
    let mut s = started("web", "npm run dev", 12);
    s.refresh(Some(ChildPoll::Error("no child".to_string())));
    assert_eq!(s.status, Status::Failed("process error: no child".to_string()));
    assert_eq!(s.child_pid(), None);
    assert_eq!(s.log.last().unwrap(), "[err] no child");
}

#[test]
fn refresh_reaps_stopping_child() {
    let mut s = started("test", "sleep 60", 5);
    s.refresh(Some(ChildPoll::Running));
    assert_eq!(s.stop_background(), Some(5));
    assert_eq!(s.status, Status::Stopping);
    assert_eq!(s.child_pid(), Some(5));
    s.refresh(Some(ChildPoll::Exited(None)));
    assert_eq!(s.status, Status::Stopped);
    assert_eq!(s.child_pid(), None);
}

#[test]
fn stop_background_sets_stopping_when_child_exists() {
    let mut s = started("test", "sleep 60", 5);
    s.refresh(Some(ChildPoll::Running));
    assert!(matches!(s.status, Status::Running | Status::Starting));
    assert_eq!(s.stop_background(), Some(5));
    assert_eq!(s.status, Status::Stopping);
    assert!(s.child_pid().is_some());
    assert_eq!(s.log.last().unwrap(), "[sys] Stopping...");
}

#[test]
fn full_lifecycle_start_stopbackground_refresh() {
    let mut s = Service::new("test", "sleep 60");
    let req = s.start_with("/tmp", true, true).expect("spawn owed");
    assert_eq!(req.program, "sleep");
    assert_eq!(req.args, vec!["60".to_string()]);
    assert_eq!(req.dir, "/tmp");
    s.record_spawn(Ok(99));
    s.refresh(Some(ChildPoll::Running));
    assert_eq!(s.status, Status::Running);
    assert_eq!(s.stop_background(), Some(99));
    assert_eq!(s.status, Status::Stopping);
    assert!(s.child_pid().is_some());
    s.refresh(Some(ChildPoll::Running));
    assert_eq!(s.status, Status::Stopping);
    s.refresh(Some(ChildPoll::Exited(None)));
    assert_eq!(s.status, Status::Stopped);
    assert!(s.child_pid().is_none());
}

#[test]
fn stop_detaches_and_logs() {
    let mut s = started("test", "sleep 60", 5);
    assert_eq!(s.stop(), Some(5));
    assert_eq!(s.status, Status::Stopped);
    assert_eq!(s.child_pid(), None);
    assert_eq!(s.log.last().unwrap(), "[sys] Stopped");
    assert_eq!(s.stop(), None);
}

#[test]
fn refresh_detects_a_local_url() {
    let mut s = started("web", "npm run dev", 3);
    s.push_output("\x1b[32m  Local:   http://localhost:5173/\x1b[0m");
    s.refresh(Some(ChildPoll::Running));
    assert_eq!(s.url.as_deref(), Some("http://localhost:5173"));
}

#[test]
fn refresh_keeps_a_known_url() {
    let mut s = started("web", "npm run dev", 3);
    s.push_output("listening on http://127.0.0.1:8080/api");
    s.refresh(None);
    assert_eq!(s.url.as_deref(), Some("http://127.0.0.1:8080/api"));
    s.push_output("now on http://localhost:9999");
    s.refresh(None);
    assert_eq!(s.url.as_deref(), Some("http://127.0.0.1:8080/api"));
}

#[test]
fn refresh_ignores_remote_urls() {
    let mut s = started("web", "npm run dev", 3);
    s.push_output("docs at https://example.com/guide");
    s.refresh(None);
    assert_eq!(s.url, None);
}

#[test]
fn refresh_warns_once_about_a_port_conflict() {
    let mut s = started("web", "npm run dev", 3);
    s.push_output("Error: listen EADDRINUSE: address already in use :::3000");
    s.refresh(None);
    let warn = "[warn] Port in use — service may be on a different port";
    assert_eq!(s.log.last().unwrap(), warn);
    s.refresh(None);
    assert_eq!(s.log.iter().filter(|l| l.as_str() == warn).count(), 1);
}

#[test]
fn refresh_trims_the_log_to_the_newest_lines() {
    let mut s = started("chatty", "yes", 3);
    for i in 0..700 {
        s.push_output(&format!("line {}", i));
    }
    s.refresh(None);
    assert_eq!(s.log.len(), 500);
    assert_eq!(s.log.first().unwrap(), "line 200");
    assert_eq!(s.log.last().unwrap(), "line 699");
}

#[test]
fn refresh_without_process_ignores_the_poll() {
    let mut s = Service::new("idle", "sleep 1");
    s.refresh(Some(ChildPoll::Exited(Some(1))));
    assert_eq!(s.status, Status::Stopped);
    assert_eq!(s.log, vec!["Waiting to start...".to_string()]);
}

#[test]
fn restart_clears_stale_url_and_log() {
    let mut s = started("stale", "sh -c 'sleep 30'", 21);
    s.push_output("http://localhost:3000");
    s.refresh(Some(ChildPoll::Running));
    assert_eq!(s.url.as_deref(), Some("http://localhost:3000"));
    assert_eq!(s.stop(), Some(21));
    assert!(s.start_with("/tmp", true, true).is_some());
    s.record_spawn(Ok(22));
    s.refresh(Some(ChildPoll::Running));
    assert_eq!(s.url, None);
    assert!(!s.log.iter().any(|l| l.contains("localhost:3000")));
    assert!(s.log.iter().any(|l| l.contains("Started")));
}

#[test]
fn status_helpers_agree_with_the_status() {
    assert!(Status::Running.is_active());
    assert!(Status::Starting.is_active());
    assert!(Status::Stopping.is_active());
    assert!(!Status::Stopped.is_active());
    assert!(!Status::Failed("x".to_string()).is_active());
    assert_eq!(Status::Failed("x".to_string()).duplicate(), Status::Failed("x".to_string()));
}

#[test]
fn stripping_twice_changes_nothing() {
    for t in ["\x1b[1;31merror\x1b[0m: boom\r", "plain", "a\x1b[2Kb\x1b", ""] {
        let once = strip_ansi(t);
        assert_eq!(strip_ansi(&once), once);
        assert!(!once.contains('\x1b') && !once.contains('\r'));
    }
    assert_eq!(strip_ansi("no escapes here"), "no escapes here");
}
