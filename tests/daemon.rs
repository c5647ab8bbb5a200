use poke_me::controller::add_command;
use poke_me::daemon::{Daemon, DaemonState, TickAction};
use poke_me::engine::{load_jobs_into_scheduler, ArmedTimer, SchedulerEngine};
use poke_me::job::{Poke, PokeError};
use poke_me::signals::{signal_refresh, SignalFiles};
use poke_me::store::{add_poke, JobTable};

fn timer_names(d: &Daemon) -> Vec<String> {
    d.timers().unwrap().iter().map(|t| t.name.clone()).collect()
}

fn running_daemon(jobs: &JobTable, files: &mut SignalFiles) -> Daemon {
    let mut d = Daemon::new();
    d.boot(files, "4242".to_string());
    let failed = d.load(jobs.rows());
    assert!(failed.is_empty());
    d
}

#[test]
fn boot_writes_pid_and_control() {
    let mut files = SignalFiles::absent();
    let mut d = Daemon::new();
    assert_eq!(d.current_state(), DaemonState::Starting);
    d.boot(&mut files, "4242".to_string());
    assert_eq!(files.pid.as_deref(), Some("4242"));
    assert!(files.control);
    assert!(!files.refresh);
    assert!(d.timers().is_none());
}

#[test]
fn refresh_after_add_reloads_both_jobs() {
    let mut store = JobTable::new();
    add_poke(&mut store, "water-plants".to_string(), "0 0 9 * * *".to_string(), None, false).unwrap();
    let mut files = SignalFiles::absent();
    let mut d = running_daemon(&store, &mut files);
    assert_eq!(d.current_state(), DaemonState::Running);
    assert_eq!(timer_names(&d), vec!["water-plants"]);
    assert_eq!(poke_me::store::list_pokes(&store, None).len(), 1);

    let added = add_command(&mut store, &mut files, "standup".to_string(), "0 0 10 * * 1-5".to_string(), Some("daily standup".to_string()), false);
    assert_eq!(added, Ok(None));
    assert!(files.refresh);

    assert_eq!(d.tick(&mut files), TickAction::Reload);
    assert!(!files.refresh);
    assert_eq!(d.current_state(), DaemonState::Reloading);
    assert_eq!(timer_names(&d), vec!["water-plants"]);
    let failed = d.load(store.rows());
    assert!(failed.is_empty());
    assert_eq!(d.current_state(), DaemonState::Running);
    let mut names = timer_names(&d);
    names.sort();
    assert_eq!(names, vec!["standup", "water-plants"]);
    let standup = &d.timers().unwrap()[1];
    assert_eq!(standup.schedule, "0 0 10 * * 1-5");
    assert_eq!(standup.message.as_deref(), Some("daily standup"));
}

#[test]
fn two_refreshes_give_one_reload() {
    let mut store = JobTable::new();
    add_poke(&mut store, "a".to_string(), "0 0 9 * * *".to_string(), None, false).unwrap();
    let mut files = SignalFiles::absent();
    let mut d = running_daemon(&store, &mut files);
    assert_eq!(signal_refresh(&mut files), Ok(()));
    assert_eq!(signal_refresh(&mut files), Ok(()));
    assert_eq!(d.tick(&mut files), TickAction::Reload);
    d.load(store.rows());
    assert_eq!(d.tick(&mut files), TickAction::Continue);
    assert_eq!(d.tick(&mut files), TickAction::Continue);
}

#[test]
fn idle_tick_keeps_running() {
    let store = JobTable::new();
    let mut files = SignalFiles::absent();
    let mut d = running_daemon(&store, &mut files);
    assert_eq!(d.tick(&mut files), TickAction::Continue);
    assert_eq!(d.current_state(), DaemonState::Running);
    assert!(files.control);
}

#[test]
fn missing_control_wins_over_refresh() {
    let store = JobTable::new();
    let mut files = SignalFiles::absent();
    let mut d = running_daemon(&store, &mut files);
    files.control = false;
    files.refresh = true;
    assert_eq!(d.tick(&mut files), TickAction::Stop);
    assert_eq!(d.current_state(), DaemonState::Stopping);
    assert!(files.refresh);
    assert_eq!(d.tick(&mut files), TickAction::Exit);
    assert_eq!(d.current_state(), DaemonState::Terminated);
    assert!(files.pid.is_none() && !files.control && !files.refresh);
    assert_eq!(d.tick(&mut files), TickAction::Exit);
    assert_eq!(d.current_state(), DaemonState::Terminated);
}

#[test]
fn reload_skips_a_job_that_fails_to_arm() {
    let rows = vec![
        Poke { id: 1, name: "good".to_string(), cron: "0 0 9 * * *".to_string(), detail: None, sound_enabled: true, created: 0 },
        Poke { id: 2, name: "broken".to_string(), cron: "whenever".to_string(), detail: None, sound_enabled: false, created: 0 },
        Poke { id: 3, name: "later".to_string(), cron: "0 30 17 * * *".to_string(), detail: None, sound_enabled: false, created: 0 },
    ];
    let mut d = Daemon::new();
    let mut files = SignalFiles::absent();
    d.boot(&mut files, "1".to_string());
    let failed = d.load(&rows);
    assert_eq!(failed, vec!["broken"]);
    assert_eq!(timer_names(&d), vec!["good", "later"]);
}

#[test]
fn engine_arms_valid_schedules_only() {
    let mut e = SchedulerEngine::create();
    let t = |s: &str| ArmedTimer { name: "n".to_string(), schedule: s.to_string(), message: None, sound_enabled: false };
    assert_eq!(e.arm(t("0 0 9 * * *")), Ok(()));
    assert_eq!(e.arm(t("0 9 * * *")), Err(PokeError::InvalidSchedule));
    assert_eq!(e.arm(t("junk")), Err(PokeError::InvalidSchedule));
    assert_eq!(e.timers().len(), 1);
    e.start();
    assert_eq!(e.timers().len(), 1);
    e.shutdown();
}

#[test]
fn load_appends_to_engine_in_store_order() {
    let mut store = JobTable::new();
    add_poke(&mut store, "b".to_string(), "0 0 9 * * *".to_string(), Some("m".to_string()), true).unwrap();
    add_poke(&mut store, "a".to_string(), "0 0 8 * * *".to_string(), None, false).unwrap();
    let mut e = SchedulerEngine::create();
    let failed = load_jobs_into_scheduler(store.rows(), &mut e);
    assert!(failed.is_empty());
    let names: Vec<&str> = e.timers().iter().map(|t| t.name.as_str()).collect();
    assert_eq!(names, vec!["b", "a"]);
    assert!(e.timers()[0].sound_enabled);
    assert_eq!(e.timers()[0].message.as_deref(), Some("m"));
}

#[test]
fn failed_store_read_keeps_the_old_timers() {
    let mut store = JobTable::new();
    add_poke(&mut store, "a".to_string(), "0 0 9 * * *".to_string(), None, false).unwrap();
    let mut files = SignalFiles::absent();
    let mut d = running_daemon(&store, &mut files);
    signal_refresh(&mut files).unwrap();
    assert_eq!(d.tick(&mut files), TickAction::Reload);
    d.reload_failed();
    assert_eq!(d.current_state(), DaemonState::Running);
    assert_eq!(timer_names(&d), vec!["a"]);
    assert_eq!(d.tick(&mut files), TickAction::Continue);
}

#[test]
fn abort_terminates_and_deletes_the_files() {
    let mut store = JobTable::new();
    add_poke(&mut store, "a".to_string(), "0 0 9 * * *".to_string(), None, false).unwrap();
    let mut files = SignalFiles::absent();
    let mut d = running_daemon(&store, &mut files);
    files.refresh = true;
    d.abort(&mut files);
    assert_eq!(d.current_state(), DaemonState::Terminated);
    assert!(d.timers().is_none());
    assert!(files.pid.is_none() && !files.control && !files.refresh);
    assert_eq!(d.tick(&mut files), TickAction::Exit);

    let mut starting = Daemon::new();
    let mut files = SignalFiles::absent();
    starting.boot(&mut files, "9".to_string());
    starting.abort(&mut files);
    assert_eq!(starting.current_state(), DaemonState::Terminated);
    assert!(files.pid.is_none() && !files.control);
}
