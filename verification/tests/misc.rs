use rudder::app::App;
use rudder::config::generate_config_toml;
use rudder::input::{action_for, Action, Key, Modifiers};
use rudder::logger::{home_dir, latest_log_path, log_dir, log_file_name, log_line, new_log_file_name, super_basic_time, ts_short};
use rudder::process::{
    any_alive, down_summary, kill_step, mark_running, parse_pid, parse_u32, pid_dir, pid_text,
    ps_alive, service_summary, KillAction, KillPhase, PidEntry,
};
use rudder::service::{Service, Status};
use rudder::text::{lines, trim, words};
use rudder::ui::{command_bar, header_text, log_offset, log_text, project_name, service_label, status_dot};

#[test]
fn timestamps_are_utc_clock_times() {
    assert_eq!(ts_short(0), "00:00:00");
    assert_eq!(ts_short(3661), "01:01:01");
    assert_eq!(ts_short(86399), "23:59:59");
    assert_eq!(ts_short(86400 + 45296), "12:34:56");
    assert_eq!(log_line("12:00:00", "[sys] Session started"), "12:00:00 [sys] Session started\n");
}

#[test]
fn clock_reads_as_a_time_of_day() {
    let t = super_basic_time();
    let b = t.as_bytes();
    assert_eq!(b.len(), 8);
    assert_eq!(b[2], b':');
    assert_eq!(b[5], b':');
    assert!(t.chars().filter(|c| *c != ':').all(|c| c.is_ascii_digit()));
}

#[test]
fn session_log_locations() {
    assert_eq!(home_dir(Some("/home/u".to_string()), Some("C:\\u".to_string())), "/home/u");
    assert_eq!(home_dir(None, Some("C:\\u".to_string())), "C:\\u");
    assert_eq!(home_dir(None, None), ".");
    assert_eq!(log_dir("/home/u"), "/home/u/.rudder/logs");
    assert_eq!(latest_log_path("/home/u/"), "/home/u/.rudder/logs/latest.log");
    assert_eq!(log_file_name(1700000000), "1700000000.log");
}

#[test]
fn pid_files_round_trip() {
    assert_eq!(pid_dir("/proj"), "/proj/.rudder/pids");
    assert_eq!(pid_text(12345), "12345");
    assert_eq!(pid_text(0), "0");
    assert_eq!(parse_pid(&pid_text(4294967295)), Some(4294967295));
    assert_eq!(parse_pid(" 42\n"), Some(42));
    assert_eq!(parse_pid("+7"), Some(7));
    assert_eq!(parse_pid("4294967296"), None);
    assert_eq!(parse_pid("-1"), None);
    assert_eq!(parse_pid(""), None);
    assert_eq!(parse_u32("12a"), None);
    assert_eq!(parse_u32("+"), None);
}

#[test]
fn ps_output_tells_whether_a_process_lives() {
    assert!(ps_alive(true, "S+\n"));
    assert!(ps_alive(true, "  R "));
    assert!(!ps_alive(true, "Z\n"));
    assert!(!ps_alive(true, "   \n"));
    assert!(!ps_alive(false, "S"));
}

#[test]
fn kill_sequence_terminates_then_kills() {
    assert_eq!(kill_step(KillPhase::Start, false, false), (KillPhase::Start, KillAction::Done(false)));
    assert_eq!(kill_step(KillPhase::Start, true, false), (KillPhase::Terminating, KillAction::SendTerm));
    assert_eq!(kill_step(KillPhase::Terminating, true, false), (KillPhase::Terminating, KillAction::Wait));
    assert_eq!(kill_step(KillPhase::Terminating, false, false), (KillPhase::Terminating, KillAction::Done(true)));
    assert_eq!(kill_step(KillPhase::Terminating, true, true), (KillPhase::Killing, KillAction::SendKill));
    assert_eq!(kill_step(KillPhase::Killing, true, false), (KillPhase::Killing, KillAction::Wait));
    assert_eq!(kill_step(KillPhase::Killing, false, true), (KillPhase::Killing, KillAction::Done(true)));
    assert_eq!(kill_step(KillPhase::Killing, true, true), (KillPhase::Killing, KillAction::Done(false)));
}

#[test]
fn up_waits_while_a_service_is_active() {
    let mut v = vec![Service::new("a", "x"), Service::new("b", "y")];
    assert!(!any_alive(&v));
    v[1].status = Status::Stopping;
    assert!(any_alive(&v));
    v[1].status = Status::Failed("exit code 1".to_string());
    assert!(!any_alive(&v));
}

#[test]
fn services_command_lines() {
    let mut s = Service::new_with_dir("Frontend", "npm run dev", "frontend");
    assert_eq!(service_summary(&s), "  ○  Frontend  (npm run dev)  [frontend]");
    s.dir = None;
    assert_eq!(service_summary(&s), "  ○  Frontend  (npm run dev)  [.]");
    s.status = Status::Running;
    assert_eq!(service_summary(&s), "  ✓  Frontend  (running: npm run dev)");
    s.status = Status::Starting;
    assert_eq!(service_summary(&s), "  ◐  Frontend  (starting)");
    s.status = Status::Stopping;
    assert_eq!(service_summary(&s), "  ↓  Frontend  (stopping: npm run dev)");
    s.status = Status::Failed("exit code 1".to_string());
    assert_eq!(service_summary(&s), "  ✕  Frontend  (failed: exit code 1)");
}

#[test]
fn pid_files_mark_services_running() {
    let mut v = vec![Service::new("Dev", "x"), Service::new("Db", "y"), Service::new("Web", "z")];
    let pids = vec![
        PidEntry { name: "Dev".to_string(), alive: true },
        PidEntry { name: "Db".to_string(), alive: false },
    ];
    mark_running(&mut v, &pids);
    assert_eq!(v[0].status, Status::Running);
    assert_eq!(v[1].status, Status::Stopped);
    assert_eq!(v[2].status, Status::Stopped);
}

#[test]
fn down_summaries_in_singular_and_plural() {
    assert_eq!(down_summary(1, 2), vec!["Cleaned up 1 stale PID entry".to_string(), "Stopped 2 services".to_string()]);
    assert_eq!(down_summary(3, 1), vec!["Cleaned up 3 stale PID entries".to_string(), "Stopped 1 service".to_string()]);
    assert!(down_summary(0, 0).is_empty());
}

#[test]
fn config_text_quotes_values() {
    let mut a = Service::new_with_dir("Frontend", "npm run dev", "frontend");
    a.url = Some("http://localhost:5173".to_string());
    let b = Service::new("Say \"hi\"", "sh -c 'echo hi'");
    let text = generate_config_toml(&vec![a, b]);
    assert_eq!(
        text,
        "[[service]]\nname = \"Frontend\"\ncmd = \"npm run dev\"\ndir = \"frontend\"\nurl = \"http://localhost:5173\"\n\n\
[[service]]\nname = \"Say \\\"hi\\\"\"\ncmd = \"sh -c 'echo hi'\"\n\n"
    );
    assert_eq!(generate_config_toml(&vec![]), "");
}

#[test]
fn keys_map_to_actions() {
    assert_eq!(action_for(Key::Char('c'), Modifiers::Control), Action::Quit);
    assert_eq!(action_for(Key::Char('d'), Modifiers::Control), Action::Quit);
    assert_eq!(action_for(Key::Char('c'), Modifiers::Other), Action::Char('c'));
    assert_eq!(action_for(Key::Char(':'), Modifiers::Other), Action::ModeSwitch);
    assert_eq!(action_for(Key::Esc, Modifiers::Other), Action::ModeSwitch);
    assert_eq!(action_for(Key::Up, Modifiers::Shift), Action::PageUp);
    assert_eq!(action_for(Key::Down, Modifiers::Shift), Action::PageDown);
    assert_eq!(action_for(Key::Up, Modifiers::Other), Action::Up);
    assert_eq!(action_for(Key::Enter, Modifiers::Other), Action::Confirm);
    assert_eq!(action_for(Key::F(12), Modifiers::Other), Action::OpenLog);
    assert_eq!(action_for(Key::F(5), Modifiers::Other), Action::Ignore);
    assert_eq!(action_for(Key::Other, Modifiers::Control), Action::Ignore);
}

#[test]
fn status_dots_and_labels() {
    assert_eq!(status_dot(&Status::Running), "✓");
    assert_eq!(status_dot(&Status::Starting), "◐");
    assert_eq!(status_dot(&Status::Stopping), "↓");
    assert_eq!(status_dot(&Status::Stopped), "○");
    assert_eq!(status_dot(&Status::Failed(String::new())), "✕");
    let mut s = Service::new("Dev", "npm run dev");
    assert_eq!(service_label(&s), " ○  Dev");
    s.url = Some("http://localhost:3000".to_string());
    s.status = Status::Running;
    assert_eq!(service_label(&s), " ✓  Dev  →  http://localhost:3000");
}

#[test]
fn header_and_command_bar() {
    let mut app = App::new("/home/u/shop");
    assert_eq!(header_text(&app), " NORMAL [Projects]  │  /home/u/shop");
    assert_eq!(command_bar(&app), ":init —  generate config for  shop");
    app.services.push(Service::new("Dev", "x"));
    assert_eq!(command_bar(&app), ":start / :stop / :cd  —  shop");
    app.switch_mode();
    app.push_char('l');
    app.push_char('s');
    assert_eq!(command_bar(&app), ":ls");
    assert_eq!(project_name("/"), "project");
    assert_eq!(project_name("/a/b/"), "b");
}

#[test]
fn log_pane_shows_the_newest_lines() {
    let log: Vec<String> = (0..250).map(|i| format!("l{}", i)).collect();
    let text = log_text(&log);
    assert!(text.starts_with("l50\nl51\n"));
    assert!(text.ends_with("\nl249"));
    assert_eq!(text.matches('\n').count(), 199);
    assert_eq!(log_text(&vec![]), "");
    assert_eq!(log_offset(&text, 22, 0), 180);
    assert_eq!(log_offset(&text, 22, 30), 150);
    assert_eq!(log_offset(&text, 22, 500), 0);
    assert_eq!(log_offset("one line", 10, 0), 0);
    assert_eq!(log_offset("a\nb\nc", 1, 0), 3);
}

#[test]
fn text_helpers() {
    assert_eq!(trim("  a b \t\n"), "a b");
    assert_eq!(words(" start  all\tnow "), vec!["start".to_string(), "all".to_string(), "now".to_string()]);
    assert_eq!(lines("a\r\nb\n\nc"), vec!["a".to_string(), "b".to_string(), "".to_string(), "c".to_string()]);
    assert_eq!(lines("a\n"), vec!["a".to_string()]);
    assert!(lines("").is_empty());
}

#[test]
fn new_session_log_is_named_by_the_clock() {
    let name = new_log_file_name();
    let stem = name.strip_suffix(".log").expect("ends in .log");
    assert!(!stem.is_empty() && stem.chars().all(|c| c.is_ascii_digit()));
}
