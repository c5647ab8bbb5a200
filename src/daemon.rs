use vstd::prelude::*;
use crate::engine::{
    armed_from, failed_from, load_jobs_into_scheduler, names_view, schedulable, timer_of,
    SchedulerEngine, TimerView,
};
use crate::job::{Poke, PokeView};
use crate::signals::{after_refresh, cleanup_service_files, cleared, SignalFiles, SignalView};
use crate::store::{names_unique, view_all};

verus! {

/// Where the daemon is in its life.
#[derive(Debug, Clone, Copy, PartialEq, Eq, Structural)]
pub enum DaemonState {
    /// Signal files written, jobs not loaded yet.
    Starting,
    /// Timers armed and firing; the signal files are polled.
    Running,
    /// A reload was requested: the jobs are to be read and loaded into a new
    /// engine, which replaces the current one.
    Reloading,
    /// A shutdown was requested; the files are to be deleted.
    Stopping,
    /// Done: no further transition.
    Terminated,
}

/// What the caller of `tick` does next.
#[derive(Debug, Clone, Copy, PartialEq, Eq, Structural)]
pub enum TickAction {
    /// Nothing changed: sleep one poll interval and tick again.
    Continue,
    /// Read the store and call `load`, or `reload_failed` when it cannot be read.
    Reload,
    /// The engine was discarded for good: tick again to finish.
    Stop,
    /// The daemon is terminated and its files deleted: leave the loop.
    Exit,
}

/// One poll of the signal files: the next state, the files after it, and
/// what the caller does next. A missing `CONTROL` wins over a `REFRESH`.
pub open spec fn tick_spec(s: DaemonState, f: SignalView) -> (DaemonState, SignalView, TickAction) {
    match s {
        DaemonState::Running => if !f.control {
            (DaemonState::Stopping, f, TickAction::Stop)
        } else if f.refresh {
            (DaemonState::Reloading, SignalView { refresh: false, ..f }, TickAction::Reload)
        } else {
            (DaemonState::Running, f, TickAction::Continue)
        },
        DaemonState::Stopping => (DaemonState::Terminated, cleared(), TickAction::Exit),
        DaemonState::Terminated => (DaemonState::Terminated, f, TickAction::Exit),
        DaemonState::Starting => (DaemonState::Starting, f, TickAction::Reload),
        DaemonState::Reloading => (DaemonState::Reloading, f, TickAction::Reload),
    }
}

/// The daemon's loop as a state machine. It owns the engine of the current
/// generation, which exists exactly while the daemon is running or reloading.
pub struct Daemon {
    state: DaemonState,
    engine: Option<SchedulerEngine>,
}

impl Daemon {
    pub closed spec fn state(&self) -> DaemonState {
        self.state
    }

    /// The armed timers of the current generation; empty when none runs.
    pub closed spec fn armed(&self) -> Seq<TimerView> {
        match self.engine {
            Some(e) => e@,
            None => Seq::empty(),
        }
    }

    pub closed spec fn wf(&self) -> bool {
        match self.engine {
            Some(e) => (self.state == DaemonState::Running || self.state == DaemonState::Reloading)
                && e.is_started(),
            None => self.state != DaemonState::Running && self.state != DaemonState::Reloading,
        }
    }

    /// A daemon that has not started.
    pub fn new() -> (r: Daemon)
        ensures
            r.wf(),
            r.state() == DaemonState::Starting,
            r.armed() == Seq::<TimerView>::empty(),
    {
        Daemon { state: DaemonState::Starting, engine: None }
    }

    /// Announces the daemon: writes `PID` with its process id and `CONTROL`.
    pub fn boot(&mut self, files: &mut SignalFiles, pid_text: String)
        requires
            old(self).wf(),
            old(self).state() == DaemonState::Starting,
        ensures
            final(self).wf(),
            final(self).state() == DaemonState::Starting,
            final(files)@ == (SignalView { pid: Some(pid_text@), control: true, ..old(files)@ }),
    {
        files.pid = Some(pid_text);
        files.control = true;
    }

    /// Loads the store's jobs into a brand-new engine and starts it: the
    /// first load, and each reload, where the new engine replaces the old one,
    /// which is shut down. A job whose schedule does not parse is skipped and
    /// its name returned; the others are all armed.
    pub fn load(&mut self, jobs: &Vec<Poke>) -> (failed: Vec<String>)
        requires
            old(self).wf(),
            old(self).state() == DaemonState::Starting || old(self).state()
                == DaemonState::Reloading,
        ensures
            final(self).wf(),
            final(self).state() == DaemonState::Running,
            final(self).armed() == armed_from(view_all(jobs@)),
            names_view(failed@) == failed_from(view_all(jobs@)),
    {
        self.stop_engine();
        let mut engine = SchedulerEngine::create();
        let failed = load_jobs_into_scheduler(jobs, &mut engine);
        assert(Seq::<TimerView>::empty() + armed_from(view_all(jobs@)) =~= armed_from(
            view_all(jobs@),
        ));
        engine.start();
        self.engine = Some(engine);
        self.state = DaemonState::Running;
        failed
    }

    /// One poll of the signal files. Running, a missing `CONTROL` stops the
    /// daemon (even with `REFRESH` present) and shuts its engine down; else a
    /// present `REFRESH` is consumed and a reload begins, the current timers
    /// firing until `load` replaces them. Stopping, the three files are
    /// deleted and the daemon terminates.
    pub fn tick(&mut self, files: &mut SignalFiles) -> (action: TickAction)
        requires
            old(self).wf(),
        ensures
            final(self).wf(),
            (final(self).state(), final(files)@, action) == tick_spec(old(self).state(), old(files)@),
            final(self).state() == DaemonState::Running || final(self).state()
                == DaemonState::Reloading ==> final(self).armed() == old(self).armed(),
            final(self).state() != DaemonState::Running && final(self).state()
                != DaemonState::Reloading ==> final(self).armed() == Seq::<TimerView>::empty(),
    {
        match self.state {
            DaemonState::Running => {
                if !files.control {
                    self.stop_engine();
                    self.state = DaemonState::Stopping;
                    TickAction::Stop
                } else if files.refresh {
                    files.refresh = false;
                    self.state = DaemonState::Reloading;
                    TickAction::Reload
                } else {
                    TickAction::Continue
                }
            },
            DaemonState::Stopping => {
                cleanup_service_files(files);
                self.state = DaemonState::Terminated;
                TickAction::Exit
            },
            DaemonState::Terminated => TickAction::Exit,
            DaemonState::Starting => TickAction::Reload,
            DaemonState::Reloading => TickAction::Reload,
        }
    }

    /// The store could not be read during a reload: the error is only
    /// logged, and the daemon goes on running with the timers it had.
    pub fn reload_failed(&mut self)
        requires
            old(self).wf(),
            old(self).state() == DaemonState::Reloading,
        ensures
            final(self).wf(),
            final(self).state() == DaemonState::Running,
            final(self).armed() == old(self).armed(),
    {
        self.state = DaemonState::Running;
    }

    /// A fatal error (the scheduler could not be created or started, or the
    /// store could not be opened at start): the engine is shut down, the
    /// three signal files are deleted and the daemon terminates.
    pub fn abort(&mut self, files: &mut SignalFiles)
        requires
            old(self).wf(),
        ensures
            final(self).wf(),
            final(self).state() == DaemonState::Terminated,
            final(self).armed() == Seq::<TimerView>::empty(),
            final(files)@ == cleared(),
    {
        self.stop_engine();
        cleanup_service_files(files);
        self.state = DaemonState::Terminated;
    }

    fn stop_engine(&mut self)
        ensures
            final(self).state == old(self).state,
            final(self).engine is None,
    {
        let engine = self.engine.take();
        match engine {
            Some(e) => e.shutdown(),
            None => {},
        }
    }

    /// Where the daemon is in its life.
    pub fn current_state(&self) -> (r: DaemonState)
        ensures
            r == self.state(),
    {
        self.state
    }

    /// The timers of the current generation, to be handed to the clock that
    /// fires them; `None` when no generation runs.
    pub fn timers(&self) -> (r: Option<&Vec<crate::engine::ArmedTimer>>)
        requires
            self.wf(),
        ensures
            r is Some <==> (self.state() == DaemonState::Running || self.state()
                == DaemonState::Reloading),
            r matches Some(v) ==> crate::engine::timers_view(v@) == self.armed(),
    {
        match &self.engine {
            Some(e) => Some(e.timers()),
            None => None,
        }
    }
}

proof fn lemma_split_len(jobs: Seq<PokeView>)
    ensures
        jobs.filter(|p: PokeView| schedulable(p)).len() + jobs.filter(|p: PokeView| !schedulable(p)).len()
            == jobs.len(),
    decreases jobs.len(),
{
    reveal(Seq::filter);
    if jobs.len() > 0 {
        lemma_split_len(jobs.drop_last());
    }
}

proof fn lemma_filter_names_unique(jobs: Seq<PokeView>)
    requires
        names_unique(jobs),
    ensures
        names_unique(jobs.filter(|p: PokeView| schedulable(p))),
    decreases jobs.len(),
{
    reveal(Seq::filter);
    if jobs.len() > 0 {
        let pre = jobs.drop_last();
        assert(names_unique(pre)) by {
            assert forall|a: int, b: int| 0 <= a < b < pre.len() implies #[trigger] pre[a].name
                != #[trigger] pre[b].name by {
                assert(jobs[a].name != jobs[b].name);
            }
        }
        lemma_filter_names_unique(pre);
        let g = pre.filter(|p: PokeView| schedulable(p));
        if schedulable(jobs.last()) {
            let g2 = g.push(jobs.last());
            assert forall|a: int, b: int| 0 <= a < b < g2.len() implies #[trigger] g2[a].name
                != #[trigger] g2[b].name by {
                if b == g.len() {
                    assert(g.contains(g[a]));
                    pre.lemma_filter_contains_rev(|p: PokeView| schedulable(p), g[a]);
                    let k = choose|k: int| 0 <= k < pre.len() && pre[k] == g[a];
                    assert(jobs[k].name != jobs[jobs.len() - 1].name);
                }
            }
        }
    }
}

/// A load arms exactly the store's jobs: every job whose schedule parses has
/// its timer, every other job is reported by name, every timer belongs to a
/// job, and each job is counted once; when the job names are unique, so are
/// the timers' names. Since `load` puts a new engine in place of the old
/// one, nothing of the old timer set survives a reload.
pub proof fn lemma_reload_exact(jobs: Seq<PokeView>)
    ensures
        names_unique(jobs) ==> forall|a: int, b: int| 0 <= a < b < armed_from(jobs).len()
            ==> #[trigger] armed_from(jobs)[a].name != #[trigger] armed_from(jobs)[b].name,
        forall|i: int| 0 <= i < jobs.len() && schedulable(jobs[i]) ==> #[trigger] armed_from(jobs).contains(timer_of(jobs[i])),
        forall|i: int| 0 <= i < jobs.len() && !schedulable(jobs[i]) ==> #[trigger] failed_from(jobs).contains(jobs[i].name),
        forall|t: TimerView| #[trigger] armed_from(jobs).contains(t) ==> exists|i: int| 0 <= i < jobs.len() && schedulable(jobs[i]) && #[trigger] timer_of(jobs[i]) == t,
        armed_from(jobs).len() + failed_from(jobs).len() == jobs.len(),
{
    let good = jobs.filter(|p: PokeView| schedulable(p));
    let bad = jobs.filter(|p: PokeView| !schedulable(p));
    assert forall|i: int| 0 <= i < jobs.len() && schedulable(jobs[i]) implies #[trigger] armed_from(jobs).contains(timer_of(jobs[i])) by {
        jobs.lemma_filter_contains(|p: PokeView| schedulable(p), i);
        let k = choose|k: int| 0 <= k < good.len() && good[k] == jobs[i];
        assert(armed_from(jobs)[k] == timer_of(jobs[i]));
    }
    assert forall|i: int| 0 <= i < jobs.len() && !schedulable(jobs[i]) implies #[trigger] failed_from(jobs).contains(jobs[i].name) by {
        jobs.lemma_filter_contains(|p: PokeView| !schedulable(p), i);
        let k = choose|k: int| 0 <= k < bad.len() && bad[k] == jobs[i];
        assert(failed_from(jobs)[k] == jobs[i].name);
    }
    assert forall|t: TimerView| #[trigger] armed_from(jobs).contains(t) implies exists|i: int| 0 <= i < jobs.len() && schedulable(jobs[i]) && #[trigger] timer_of(jobs[i]) == t by {
        let k = choose|k: int| 0 <= k < armed_from(jobs).len() && armed_from(jobs)[k] == t;
        jobs.lemma_filter_pred(|p: PokeView| schedulable(p), k);
        assert(good.contains(good[k]));
        jobs.lemma_filter_contains_rev(|p: PokeView| schedulable(p), good[k]);
        let i = choose|i: int| 0 <= i < jobs.len() && jobs[i] == good[k];
        assert(timer_of(jobs[i]) == t);
    }
    lemma_split_len(jobs);
    if names_unique(jobs) {
        lemma_filter_names_unique(jobs);
        assert forall|a: int, b: int| 0 <= a < b < armed_from(jobs).len() implies #[trigger] armed_from(
            jobs,
        )[a].name != #[trigger] armed_from(jobs)[b].name by {
            assert(good[a].name != good[b].name);
        }
    }
}

/// Two refresh requests before the daemon looks give one reload: the second
/// request changes nothing, the tick that sees `REFRESH` consumes it, and the
/// tick after the reload finds none.
pub proof fn lemma_two_refreshes_one_reload(f: SignalView)
    requires
        f.pid is Some,
        f.control,
    ensures
        after_refresh(after_refresh(f)) == after_refresh(f),
        tick_spec(DaemonState::Running, after_refresh(after_refresh(f))).2 == TickAction::Reload,
        tick_spec(DaemonState::Running, after_refresh(after_refresh(f))).0 == DaemonState::Reloading,
        tick_spec(
            DaemonState::Running,
            tick_spec(DaemonState::Running, after_refresh(after_refresh(f))).1,
        ).2 == TickAction::Continue,
{
}

/// Shutdown wins: with `CONTROL` gone, a running daemon stops whether or not
/// `REFRESH` is present, and the next tick deletes all three files.
pub proof fn lemma_shutdown_wins(f: SignalView)
    requires
        !f.control,
    ensures
        tick_spec(DaemonState::Running, f).2 == TickAction::Stop,
        tick_spec(DaemonState::Running, f).0 == DaemonState::Stopping,
        tick_spec(DaemonState::Stopping, tick_spec(DaemonState::Running, f).1) == (
        DaemonState::Terminated,
        cleared(),
        TickAction::Exit,
        ),
{
}

/// The daemon never terminates by a tick without deleting all three
/// signal files (`abort` deletes them too).
pub proof fn lemma_termination_clears(s: DaemonState, f: SignalView)
    requires
        s != DaemonState::Terminated,
        tick_spec(s, f).0 == DaemonState::Terminated,
    ensures
        tick_spec(s, f).1 == cleared(),
{
}

} // verus!
