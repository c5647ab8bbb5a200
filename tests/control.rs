use poke_me::controller::{add_command, remove_command, toggle_command};
use poke_me::job::PokeError;
use poke_me::signals::{finish_stop, signal_refresh, stop_service, stop_target, SignalFiles};
use poke_me::store::{add_poke, JobTable};

fn daemon_files(pid: &str) -> SignalFiles {
    SignalFiles { pid: Some(pid.to_string()), control: true, refresh: false }
}

#[test]
fn remove_without_daemon_succeeds_with_advisory() {
    let mut store = JobTable::new();
    add_poke(&mut store, "water-plants".to_string(), "0 0 9 * * *".to_string(), None, false).unwrap();
    let mut files = SignalFiles::absent();
    let r = remove_command(&mut store, &mut files, "water-plants");
    assert_eq!(r, Ok(Some(PokeError::NotRunning)));
    assert_eq!(store.len(), 0);
    assert!(!files.refresh);
}

#[test]
fn add_with_daemon_signals_refresh() {
    let mut store = JobTable::new();
    let mut files = daemon_files("77");
    let r = add_command(&mut store, &mut files, "standup".to_string(), "0 0 10 * * 1-5".to_string(), Some("daily standup".to_string()), false);
    assert_eq!(r, Ok(None));
    assert!(files.refresh);
    assert_eq!(store.len(), 1);
}

#[test]
fn failed_add_does_not_signal() {
    let mut store = JobTable::new();
    let mut files = daemon_files("77");
    let r = add_command(&mut store, &mut files, "x".to_string(), "bad".to_string(), None, false);
    assert_eq!(r, Err(PokeError::InvalidSchedule));
    assert!(!files.refresh);
    add_command(&mut store, &mut files, "x".to_string(), "0 0 9 * * *".to_string(), None, false).unwrap();
    files.refresh = false;
    let r = add_command(&mut store, &mut files, "x".to_string(), "0 0 9 * * *".to_string(), None, false);
    assert_eq!(r, Err(PokeError::DuplicateName));
    assert!(!files.refresh);
}

#[test]
fn toggle_command_reports_new_flag() {
    let mut store = JobTable::new();
    add_poke(&mut store, "a".to_string(), "0 0 9 * * *".to_string(), None, false).unwrap();
    let mut files = daemon_files("77");
    assert_eq!(toggle_command(&mut store, &mut files, "a"), Ok((true, None)));
    assert!(files.refresh);
    assert_eq!(toggle_command(&mut store, &mut files, "b"), Err(PokeError::NotFound));
}

#[test]
fn refresh_needs_a_pid_file() {
    let mut files = SignalFiles::absent();
    assert_eq!(signal_refresh(&mut files), Err(PokeError::NotRunning));
    assert!(!files.refresh);
    let mut files = daemon_files("5");
    assert_eq!(signal_refresh(&mut files), Ok(()));
    assert!(files.refresh);
}

#[test]
fn stop_without_pid_is_not_running() {
    assert_eq!(stop_target(&SignalFiles::absent()), Err(PokeError::NotRunning));
    for alive in [false, true] {
        let mut files = SignalFiles { pid: None, control: true, refresh: true };
        assert_eq!(stop_service(&mut files, alive), Err(PokeError::NotRunning));
        assert!(files.pid.is_none() && files.control && files.refresh);
    }
}

#[test]
fn stop_with_garbage_pid_is_invalid() {
    assert_eq!(stop_target(&daemon_files("abc")), Err(PokeError::InvalidPid));
    let mut files = daemon_files("abc");
    assert_eq!(stop_service(&mut files, false), Err(PokeError::InvalidPid));
    assert!(files.control);
    assert_eq!(files.pid.as_deref(), Some("abc"));
}

#[test]
fn stop_on_dead_process_is_stale_and_cleans_up() {
    let mut files = daemon_files("31337\n");
    files.refresh = true;
    assert_eq!(stop_target(&files), Ok(31337));
    assert_eq!(stop_service(&mut files, false), Err(PokeError::StaleState));
    assert!(files.pid.is_none() && !files.control && !files.refresh);
}

#[test]
fn stop_on_live_process_requests_shutdown_then_cleans_up() {
    let mut files = daemon_files("31337");
    assert_eq!(stop_service(&mut files, true), Ok(31337));
    assert!(!files.control);
    assert_eq!(files.pid.as_deref(), Some("31337"));
    assert!(finish_stop(&mut files, true));
    assert!(files.pid.is_none() && !files.control && !files.refresh);
}

#[test]
fn stop_after_graceful_exit_does_not_terminate() {
    let mut files = daemon_files("31337");
    assert_eq!(stop_service(&mut files, true), Ok(31337));
    assert!(!finish_stop(&mut files, false));
    assert!(files.pid.is_none() && !files.control && !files.refresh);
}

#[test]
fn stop_without_control_file_still_terminates_a_live_daemon() {
    let mut files = daemon_files("31337");
    files.control = false;
    assert_eq!(stop_service(&mut files, true), Ok(31337));
    assert!(finish_stop(&mut files, true));
    assert!(files.pid.is_none());
}
