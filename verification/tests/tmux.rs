use std::path::PathBuf;

use celestia::commands::start::{self, launch_options, scan_start_log, start_precheck, start_report};
use celestia::commands::stop::{self, scan_stop_log, stop_keys, stop_report};
use celestia::context::TmuxContext;
use celestia::notifier::Action;
use celestia::tmux::{exit_outcome, CreateSessionOptions, CreateWindowOptions, Server, Session, TmuxError, Window};
use celestia::text::lines_of;
use celestia::watcher::{watch_begin, watch_round, watch_step, InvalidLogText, LogScan, Status, WatchAction, WatchEvent, DEFAULT_ATTEMPTS};

fn strings(items: &[&str]) -> Vec<String> {
    items.iter().map(|s| (*s).to_owned()).collect()
}

#[test]
fn names_are_kept() {
    assert_eq!(Server::new("celestia".to_owned()).id(), "celestia");
    let session = Session::new("servers".to_owned());
    assert_eq!(session.id(), "servers");
    assert_eq!(session.into_inner(), "servers");
    let window = Window::new("survival".to_owned());
    assert_eq!(window.id(), "survival");
    assert_eq!(window.into_inner(), "survival");
}

#[test]
fn session_arguments() {
    let server = Server::new("celestia".to_owned());
    let opts = CreateSessionOptions {
        detached: true,
        current_dir: Some(PathBuf::from("/srv/mc/server")),
        command: Some("./start.sh".to_owned()),
    };
    assert_eq!(
        server.new_session_args("servers", Some("survival"), &opts).unwrap(),
        strings(&["-L", "celestia", "new-session", "-c", "/srv/mc/server", "-d", "-s", "servers", "-n", "survival", "./start.sh"])
    );
    assert_eq!(
        server.new_session_args("servers", None, &CreateSessionOptions::default()).unwrap(),
        strings(&["-L", "celestia", "new-session", "-s", "servers"])
    );
}

#[test]
fn window_arguments() {
    let server = Server::new("celestia".to_owned());
    let session = Session::new("servers".to_owned());
    let opts = CreateWindowOptions {
        detached: true,
        current_dir: Some(PathBuf::from("/srv")),
        command: None,
    };
    assert_eq!(
        session.new_window_args(&server, "survival", &opts).unwrap(),
        strings(&["-L", "celestia", "new-window", "-c", "/srv", "-d", "-t", "=servers", "-n", "survival"])
    );
    assert_eq!(
        session.has_session_args(&server),
        strings(&["-L", "celestia", "has-session", "-t", "=servers"])
    );
    let window = Window::new("survival".to_owned());
    assert_eq!(
        window.exists_args(&server, &session),
        strings(&["-L", "celestia", "has-session", "-t", "=servers:survival"])
    );
    assert_eq!(
        window.send_keys_args(&server, &session, "stop"),
        strings(&["-L", "celestia", "send-keys", "-t", "=servers:survival", "stop", "Enter"])
    );
    let _ = CreateWindowOptions::default();
}

#[test]
fn invalid_path_message() {
    assert_eq!(TmuxError::InvalidPath.message(), "path contains invalid unicode");
}

#[test]
fn exit_codes() {
    assert_eq!(exit_outcome(Some(0)), Ok(()));
    assert_eq!(exit_outcome(Some(1)), Err(TmuxError::NonZeroExit(1)));
    assert_eq!(exit_outcome(None), Err(TmuxError::Signal));
    assert_eq!(TmuxError::NonZeroExit(-3).message(), "process returned a non-zero exit code: -3");
    assert_eq!(TmuxError::NonZeroExit(127).message(), "process returned a non-zero exit code: 127");
    assert_eq!(TmuxError::Signal.message(), "process terminated via signal");
}

#[test]
fn launch() {
    let (window, session) = launch_options(PathBuf::from("/srv/mc/server"));
    assert!(window.detached && session.detached);
    assert_eq!(window.current_dir, Some(PathBuf::from("/srv/mc/server")));
    assert_eq!(session.current_dir, Some(PathBuf::from("/srv/mc/server")));
    assert_eq!(window.command.as_deref(), Some("./start.sh"));
    assert_eq!(session.command.as_deref(), Some("./start.sh"));
}

#[test]
fn tmux_context() {
    let TmuxContext { server, session } = celestia::context::Context {
        package: celestia::package::Package::new(PathBuf::from("/srv")),
        paper: celestia::paper::PaperClient { http: reqwest::Client::new() },
        notifier: celestia::notifier::Notifier::new(std::io::stdout()),
    }
    .tmux_ctx();
    assert_eq!(server.id(), "celestia");
    assert_eq!(session.id(), "servers");
}

#[test]
fn start_log_lines() {
    assert_eq!(
        start::handler("[12:00:00 INFO]: Done (5.012s)! For help, type \"help\""),
        Some(Status::Success)
    );
    assert_eq!(
        start::handler("[12:00:00 ERROR]: Failed to start the minecraft server"),
        Some(Status::Failure)
    );
    assert_eq!(start::handler("[12:00:00 INFO]: Preparing level \"world\""), None);
    let lines = strings(&["Loading", "Failed to start the minecraft server", "Done (1s)! For help, type \"help\""]);
    assert_eq!(scan_start_log(&lines), Some(Status::Failure));
    assert_eq!(scan_start_log(&strings(&["a", "b"])), None);
    assert_eq!(scan_start_log(&Vec::new()), None);
}

#[test]
fn stop_log_lines() {
    assert_eq!(stop_keys(), "stop");
    assert_eq!(stop::handler("[12:00:00 INFO]: Stopping server"), Some(Status::Success));
    assert_eq!(stop::handler("[12:00:00 INFO]: Saving chunks"), None);
    assert_eq!(scan_stop_log(&strings(&["x", "Stopping server", "y"])), Some(Status::Success));
}

#[test]
fn reports() {
    assert_eq!(start_report(Status::Success), Ok((Action::Finished, "Server is listening for connections")));
    assert_eq!(start_report(Status::TimeOut), Ok((Action::Warning, "Timed out while waiting for server to start")));
    assert_eq!(start_report(Status::PreHook), Err("tmux window closed; start.sh ended early"));
    assert_eq!(start_report(Status::Failure), Err("failed to start the server; see server/logs/latest.log"));
    assert_eq!(stop_report(Status::Success), (Action::Finished, "Server is listening for connections"));
    assert_eq!(stop_report(Status::TimeOut), (Action::Warning, "Timed out while waiting for server to start"));
}

#[test]
fn watch_steps() {
    assert_eq!(watch_begin(0), WatchAction::Finish(Status::TimeOut));
    assert_eq!(watch_begin(DEFAULT_ATTEMPTS), WatchAction::Attempt(60));
    assert_eq!(watch_step(3, WatchEvent::PreHookFired), WatchAction::Finish(Status::PreHook));
    assert_eq!(watch_step(3, WatchEvent::Read(Some(Status::Failure))), WatchAction::Finish(Status::Failure));
    assert_eq!(watch_step(3, WatchEvent::Read(None)), WatchAction::Sleep(2));
}

#[test]
fn quiet_watch_times_out() {
    let mut reads = 0;
    let mut action = watch_begin(5);
    let outcome = loop {
        match action {
            WatchAction::Attempt(left) => {
                reads += 1;
                action = watch_step(left, WatchEvent::Read(None));
            }
            WatchAction::Sleep(left) => action = watch_begin(left),
            WatchAction::Finish(status) => break status,
        }
    };
    assert_eq!(outcome, Status::TimeOut);
    assert_eq!(reads, 5);
}

#[test]
fn split_into_lines() {
    assert_eq!(lines_of("a\r\nb\n\nc"), vec!["a", "b", "", "c"]);
    assert_eq!(lines_of("a\n"), vec!["a"]);
    assert_eq!(lines_of("x\r"), vec!["x\r"]);
    assert!(lines_of("").is_empty());
}

#[test]
fn log_rounds() {
    let first = b"Loading libraries\nPreparing level\n";
    assert_eq!(watch_round(LogScan::Start, 0, first), Ok((None, 34)));
    let second = b"Done (2.5s)! For help, type \"help\"\n";
    assert_eq!(watch_round(LogScan::Start, 34, second), Ok((Some(Status::Success), 34)));
    assert_eq!(watch_round(LogScan::Stop, 10, b"Stopping server\n"), Ok((Some(Status::Success), 10)));
    assert_eq!(watch_round(LogScan::Stop, 10, b""), Ok((None, 10)));
    assert_eq!(watch_round(LogScan::Start, 0, &[0xff, b'\n']), Err(InvalidLogText));
}

#[test]
fn prechecks() {
    assert_eq!(
        start_precheck(false, true, true),
        Err("server directory not found; try running the `build` command first")
    );
    assert_eq!(start_precheck(true, false, true), Err("start.sh not found"));
    assert_eq!(start_precheck(true, true, true), Ok(Some((Action::Warning, "Server is already running"))));
    assert_eq!(start_precheck(true, true, false), Ok(None));
    assert_eq!(
        stop::stop_precheck(false, true),
        Err("server directory not found; try running the `build` command first")
    );
    assert_eq!(stop::stop_precheck(true, false), Ok(Some((Action::Warning, "Server is not running"))));
    assert_eq!(stop::stop_precheck(true, true), Ok(None));
}
