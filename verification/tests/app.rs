use rudder::app::{App, Effect, Mode, Pane};
use rudder::browser::FsEntry;
use rudder::commands::{parse_command, resolve_targets, Command};
use rudder::input::Action;
use rudder::service::{ChildPoll, Service, Status};

fn show(e: &Effect) -> String {
    match e {
        Effect::Log(s) => format!("log {}", s),
        Effect::Kill(p) => format!("kill {}", p),
        Effect::KillInBackground(p) => format!("kill-bg {}", p),
        Effect::Start(i) => format!("start {}", i),
        Effect::Relocate => "relocate".to_string(),
        Effect::CheckDir(p) => format!("check-dir {}", p),
        Effect::Init => "init".to_string(),
        Effect::WriteConfig(p, t) => format!("write {} {}", p, t),
        Effect::ExportLog(p) => format!("export {}", p),
        Effect::OpenLog => "open-log".to_string(),
        Effect::Redetect => "redetect".to_string(),
    }
}

fn effects(app: &mut App) -> Vec<String> {
    app.take_effects().iter().map(show).collect()
}

fn app_with(services: Vec<Service>) -> App {
    let mut app = App::new("/proj");
    let _ = app.take_effects();
    app.browser.refresh(Ok(vec![
        FsEntry { name: "api".to_string(), is_dir: true },
        FsEntry { name: "web".to_string(), is_dir: true },
    ]));
    app.restore_services(services);
    app
}

fn run(app: &mut App, i: usize, pid: u32) {
    let cwd = app.browser.current_dir.clone();
    assert!(app.services[i].start_with(&cwd, true, true).is_some());
    app.services[i].record_spawn(Ok(pid));
}

fn type_command(app: &mut App, text: &str) {
    app.handle_action(Action::ModeSwitch);
    for c in text.chars() {
        app.handle_action(Action::Char(c));
    }
    app.handle_action(Action::Confirm);
}

#[test]
fn new_app_asks_to_list_its_directory() {
    let mut app = App::new("/proj/./x/..");
    assert_eq!(app.browser.current_dir, "/proj");
    assert_eq!(app.mode, Mode::Normal);
    assert_eq!(app.focused_pane, Pane::Browser);
    assert!(app.services.is_empty());
    assert_eq!(effects(&mut app), vec!["relocate"]);
}

#[test]
fn enter_toggles_the_selected_service() {
    let mut app = app_with(vec![Service::new("Dev", "cargo run")]);
    app.handle_action(Action::Tab);
    assert_eq!(app.focused_pane, Pane::Services);
    app.handle_action(Action::Confirm);
    assert_eq!(effects(&mut app), vec!["start 0", "log [launch] Started service: Dev"]);
    run(&mut app, 0, 77);
    app.handle_action(Action::Confirm);
    assert_eq!(app.services[0].status, Status::Stopping);
    assert_eq!(effects(&mut app), vec!["kill-bg 77", "log [sys] Stopping service: Dev"]);
    app.handle_action(Action::Confirm);
    assert!(effects(&mut app).is_empty());
}

#[test]
fn refresh_logs_status_changes() {
    let mut app = app_with(vec![Service::new("Dev", "cargo run"), Service::new("Db", "docker compose up db")]);
    run(&mut app, 0, 5);
    run(&mut app, 1, 6);
    app.refresh_services(vec![Some(ChildPoll::Running), Some(ChildPoll::Exited(Some(2)))]);
    assert_eq!(app.services[0].status, Status::Running);
    assert_eq!(app.services[1].status, Status::Failed("exit code 2".to_string()));
    assert_eq!(effects(&mut app), vec!["log [sys] Running: Dev", "log [err] Db exited (exit code 2)"]);
    app.refresh_services(vec![]);
    assert!(effects(&mut app).is_empty());
}

#[test]
fn selection_moves_within_the_services() {
    let mut app = app_with(vec![Service::new("A", "a"), Service::new("B", "b")]);
    app.switch_pane();
    app.handle_action(Action::Char('j'));
    assert_eq!(app.service_selected, 1);
    app.handle_action(Action::Down);
    assert_eq!(app.service_selected, 1);
    app.handle_action(Action::Char('k'));
    assert_eq!(app.service_selected, 0);
    app.handle_action(Action::Up);
    assert_eq!(app.service_selected, 0);
}

#[test]
fn log_scrolling_stays_at_or_above_zero() {
    let mut app = app_with(vec![Service::new("A", "a")]);
    app.handle_action(Action::PageUp);
    assert_eq!(app.log_scroll, 0);
    app.switch_pane();
    app.handle_action(Action::PageUp);
    app.handle_action(Action::PageUp);
    assert_eq!(app.log_scroll, 20);
    app.handle_action(Action::PageDown);
    assert_eq!(app.log_scroll, 10);
    app.handle_action(Action::PageDown);
    app.handle_action(Action::PageDown);
    assert_eq!(app.log_scroll, 0);
}

#[test]
fn command_mode_edits_and_escape_clears() {
    let mut app = app_with(vec![]);
    app.handle_action(Action::ModeSwitch);
    assert_eq!(app.mode, Mode::Command);
    for c in "stat".chars() {
        app.handle_action(Action::Char(c));
    }
    app.handle_action(Action::Backspace);
    assert_eq!(app.command, "sta");
    app.handle_action(Action::ModeSwitch);
    assert_eq!(app.mode, Mode::Normal);
    assert_eq!(app.command, "");
}

#[test]
fn quit_command_and_key() {
    let mut app = app_with(vec![]);
    type_command(&mut app, "q");
    assert!(app.should_quit);
    assert_eq!(effects(&mut app), vec!["log [sys] Quit requested"]);
    let mut app = app_with(vec![]);
    app.handle_action(Action::Quit);
    assert!(app.should_quit);
}

#[test]
fn start_all_and_stop_by_name() {
    let mut app = app_with(vec![Service::new("Dev", "cargo run"), Service::new_with_dir("Web", "npm run dev", "web")]);
    type_command(&mut app, "start all");
    assert_eq!(app.focused_pane, Pane::Services);
    assert_eq!(
        effects(&mut app),
        vec!["log [launch] Starting service: Dev", "start 0", "log [launch] Starting service: Web", "start 1"]
    );
    run(&mut app, 1, 31);
    type_command(&mut app, "stop web::Web");
    assert_eq!(app.services[1].status, Status::Stopping);
    assert_eq!(effects(&mut app), vec!["log [sys] Stopping service: Web", "kill-bg 31"]);
    type_command(&mut app, "stop nope");
    assert_eq!(effects(&mut app), vec!["log [err] Service not found: nope"]);
}

#[test]
fn restart_stops_then_starts() {
    let mut app = app_with(vec![Service::new("Dev", "cargo run")]);
    run(&mut app, 0, 8);
    type_command(&mut app, "restart");
    assert_eq!(app.services[0].status, Status::Stopped);
    assert_eq!(effects(&mut app), vec!["log [sys] Restarting service: Dev", "kill 8", "start 0"]);
}

#[test]
fn bare_start_without_services_does_nothing() {
    let mut app = app_with(vec![]);
    type_command(&mut app, "start");
    assert!(effects(&mut app).is_empty());
    assert_eq!(app.focused_pane, Pane::Browser);
}

#[test]
fn cd_checks_then_moves_and_keeps_service_state() {
    let mut app = app_with(vec![Service::new("Dev", "cargo run")]);
    run(&mut app, 0, 12);
    app.services[0].push_output("compiling");
    type_command(&mut app, "cd api");
    assert_eq!(effects(&mut app), vec!["log [sys] cd: api", "check-dir /proj/api"]);
    app.finish_change_dir("/proj/api", true);
    assert_eq!(app.browser.current_dir, "/proj/api");
    assert_eq!(
        effects(&mut app),
        vec!["log [sys] Changed directory to: /proj/api", "kill 12", "relocate"]
    );
    assert_eq!(app.services[0].status, Status::Stopped);
    app.restore_services(vec![]);
    app.finish_change_dir("/proj", true);
    let _ = effects(&mut app);
    app.restore_services(vec![Service::new("Dev", "cargo run"), Service::new("Other", "x")]);
    assert_eq!(app.services[0].status, Status::Stopped);
    assert_eq!(app.services[0].log, vec!["[sys] Started".to_string(), "compiling".to_string()]);
    assert_eq!(app.services[1].status, Status::Stopped);
}

#[test]
fn cd_to_a_file_changes_nothing() {
    let mut app = app_with(vec![Service::new("Dev", "cargo run")]);
    type_command(&mut app, "cd /etc/hosts");
    assert_eq!(effects(&mut app), vec!["log [sys] cd: /etc/hosts", "check-dir /etc/hosts"]);
    app.finish_change_dir("/etc/hosts", false);
    assert!(effects(&mut app).is_empty());
    assert_eq!(app.browser.current_dir, "/proj");
}

#[test]
fn entering_a_directory_stops_the_services() {
    let mut app = app_with(vec![Service::new("Dev", "cargo run")]);
    run(&mut app, 0, 40);
    app.handle_action(Action::Down);
    assert_eq!(app.browser.entries[app.browser.selected].name, "api");
    app.handle_action(Action::Char('l'));
    assert_eq!(app.browser.current_dir, "/proj/api");
    assert_eq!(
        effects(&mut app),
        vec!["log [sys] Entered directory: /proj/api", "kill 40", "relocate"]
    );
    app.handle_action(Action::Backspace);
    assert_eq!(app.browser.current_dir, "/proj");
    assert_eq!(effects(&mut app), vec!["log [sys] Moved up to: /proj", "relocate"]);
}

#[test]
fn init_writes_the_configuration() {
    let mut app = app_with(vec![Service::new("Dev", "cargo run")]);
    run(&mut app, 0, 3);
    type_command(&mut app, "init");
    assert_eq!(effects(&mut app), vec!["init"]);
    app.init_with(vec![Service::new("Dev", "cargo run")]);
    assert_eq!(
        effects(&mut app),
        vec!["write /proj/rudder.toml [[service]]\nname = \"Dev\"\ncmd = \"cargo run\"\n\n"]
    );
    app.config_written("/proj/rudder.toml", Ok(()));
    assert_eq!(
        effects(&mut app),
        vec!["log [sys] Config written to /proj/rudder.toml", "kill 3", "redetect"]
    );
    app.config_written("/proj/rudder.toml", Err("read-only".to_string()));
    assert_eq!(effects(&mut app), vec!["log [err] Failed to write config: read-only"]);
    app.init_with(vec![]);
    assert_eq!(effects(&mut app), vec!["log [sys] No services detected; nothing to init"]);
}

#[test]
fn export_and_open_log() {
    let mut app = app_with(vec![]);
    type_command(&mut app, "export-log");
    assert_eq!(effects(&mut app), vec!["export rudder-session.log"]);
    app.log_exported("rudder-session.log", Ok(()));
    app.log_exported("rudder-session.log", Err("Failed to export log: denied".to_string()));
    assert_eq!(
        effects(&mut app),
        vec!["log [sys] Log exported to rudder-session.log", "log [err] Failed to export log: denied"]
    );
    type_command(&mut app, "logs");
    assert_eq!(effects(&mut app), vec!["log [sys] Opening session log", "open-log"]);
    app.handle_action(Action::OpenLog);
    assert_eq!(effects(&mut app), vec!["log [sys] Opening session log (F12)", "open-log"]);
}

#[test]
fn parse_command_words() {
    assert!(matches!(parse_command("  quit "), Command::Quit));
    assert!(matches!(parse_command("ls"), Command::Services));
    assert!(matches!(parse_command(""), Command::Nothing));
    assert!(matches!(parse_command("frobnicate"), Command::Nothing));
    match parse_command("cd   my dir ") {
        Command::Cd(rest) => assert_eq!(rest, "my dir"),
        _ => panic!("expected cd"),
    }
    match parse_command("start web extra") {
        Command::Start(Some(n)) => assert_eq!(n, "web"),
        _ => panic!("expected start"),
    }
    assert!(matches!(parse_command("restart"), Command::Restart(None)));
    assert!(matches!(parse_command("L"), Command::ExportLog));
    assert!(matches!(parse_command("open-log"), Command::OpenLog));
}

#[test]
fn targets_resolve_by_name_id_all_or_selection() {
    let mut app = app_with(vec![Service::new("Dev", "a"), Service::new_with_dir("Web", "b", "web")]);
    assert_eq!(resolve_targets(&app, Some("all")), vec![0, 1]);
    assert_eq!(resolve_targets(&app, Some("Web")), vec![1]);
    assert_eq!(resolve_targets(&app, Some("web::Web")), vec![1]);
    assert!(resolve_targets(&app, Some("nope")).is_empty());
    assert_eq!(resolve_targets(&app, None), vec![0]);
    app.service_selected = 5;
    assert!(resolve_targets(&app, None).is_empty());
}

#[test]
fn a_failed_service_comes_back_failed() {
    let mut app = app_with(vec![Service::new("Dev", "cargo run"), Service::new("Web", "npm run dev")]);
    run(&mut app, 0, 3);
    app.refresh_services(vec![Some(ChildPoll::Exited(Some(1)))]);
    run(&mut app, 1, 4);
    app.finish_change_dir("/proj/api", true);
    app.restore_services(vec![]);
    app.finish_change_dir("/proj", true);
    let _ = effects(&mut app);
    app.restore_services(vec![Service::new("Dev", "cargo run"), Service::new("Web", "npm run dev")]);
    assert_eq!(app.services[0].status, Status::Failed("exit code 1".to_string()));
    assert_eq!(app.services[1].status, Status::Stopped);
    assert_eq!(app.services[1].child_pid(), None);
}
