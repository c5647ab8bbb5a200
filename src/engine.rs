use vstd::prelude::*;
use crate::job::{copy_opt, opt_view, Poke, PokeError, PokeView};
use crate::schedule::{cron_accepts, is_valid_cron};
use crate::store::add_result;

verus! {

/// One armed timer: a schedule and the snapshot of the job that its callback
/// notifies with, taken when the timer was armed and never changed after.
pub struct ArmedTimer {
    pub name: String,
    pub schedule: String,
    pub message: Option<String>,
    pub sound_enabled: bool,
}

/// The mathematical value of an armed timer.
pub struct TimerView {
    pub name: Seq<char>,
    pub schedule: Seq<char>,
    pub message: Option<Seq<char>>,
    pub sound_enabled: bool,
}

impl View for ArmedTimer {
    type V = TimerView;

    open spec fn view(&self) -> TimerView {
        TimerView {
            name: self.name@,
            schedule: self.schedule@,
            message: opt_view(self.message),
            sound_enabled: self.sound_enabled,
        }
    }
}

/// The timer that a job arms.
pub open spec fn timer_of(p: PokeView) -> TimerView {
    TimerView { name: p.name, schedule: p.cron, message: p.detail, sound_enabled: p.sound_enabled }
}

/// Whether a job can be armed: its schedule parses.
pub open spec fn schedulable(p: PokeView) -> bool {
    cron_accepts(p.cron)
}

/// The timers that loading `jobs` arms, in order: one per job whose schedule
/// parses.
pub open spec fn armed_from(jobs: Seq<PokeView>) -> Seq<TimerView> {
    jobs.filter(|p: PokeView| schedulable(p)).map_values(|p: PokeView| timer_of(p))
}

/// The names of the jobs whose schedule does not parse, in order.
pub open spec fn failed_from(jobs: Seq<PokeView>) -> Seq<Seq<char>> {
    jobs.filter(|p: PokeView| !schedulable(p)).map_values(|p: PokeView| p.name)
}

/// What arming a timer with this schedule gives.
pub open spec fn arm_result(schedule: Seq<char>) -> Result<(), PokeError> {
    if cron_accepts(schedule) {
        Ok(())
    } else {
        Err(PokeError::InvalidSchedule)
    }
}

pub open spec fn timers_view(v: Seq<ArmedTimer>) -> Seq<TimerView> {
    v.map_values(|t: ArmedTimer| t@)
}

pub open spec fn names_view(v: Seq<String>) -> Seq<Seq<char>> {
    v.map_values(|s: String| s@)
}

/// The scheduler engine of one daemon generation: a set of armed timers that
/// is filled before it starts and never changed after. It has no operation
/// that removes one timer: a changed job set gets a new engine.
pub struct SchedulerEngine {
    timers: Vec<ArmedTimer>,
    started: bool,
}

impl View for SchedulerEngine {
    type V = Seq<TimerView>;

    closed spec fn view(&self) -> Seq<TimerView> {
        timers_view(self.timers@)
    }
}

impl SchedulerEngine {
    pub closed spec fn is_started(&self) -> bool {
        self.started
    }

    /// A fresh engine with no timer.
    pub fn create() -> (r: SchedulerEngine)
        ensures
            r@ == Seq::<TimerView>::empty(),
            !r.is_started(),
    {
        let r = SchedulerEngine { timers: Vec::new(), started: false };
        assert(r@ =~= Seq::<TimerView>::empty());
        r
    }

    /// Arms one timer, or fails with `InvalidSchedule` when its schedule does
    /// not parse, the engine unchanged.
    pub fn arm(&mut self, timer: ArmedTimer) -> (r: Result<(), PokeError>)
        requires
            !old(self).is_started(),
        ensures
            !final(self).is_started(),
            r == arm_result(timer@.schedule),
            r is Ok ==> final(self)@ == old(self)@.push(timer@),
            r is Err ==> final(self)@ == old(self)@,
    {
        if !is_valid_cron(timer.schedule.as_str()) {
            return Err(PokeError::InvalidSchedule);
        }
        let ghost tv = timer@;
        self.timers.push(timer);
        assert(self@ =~= old(self)@.push(tv));
        Ok(())
    }

    /// Begins firing: from now on the timer set is fixed.
    pub fn start(&mut self)
        requires
            !old(self).is_started(),
        ensures
            final(self).is_started(),
            final(self)@ == old(self)@,
    {
        self.started = true;
    }

    /// Stops all firing and releases the engine; it cannot be used again.
    pub fn shutdown(self) {
    }

    /// The armed timers, in the order they were armed.
    pub fn timers(&self) -> (r: &Vec<ArmedTimer>)
        ensures
            timers_view(r@) == self@,
    {
        &self.timers
    }
}

/// Arms the timer of one job, or fails with `InvalidSchedule`.
pub fn setup_notification(poke: &Poke, engine: &mut SchedulerEngine) -> (r: Result<(), PokeError>)
    requires
        !old(engine).is_started(),
    ensures
        !final(engine).is_started(),
        cron_accepts(poke@.cron) ==> r is Ok && final(engine)@ == old(engine)@.push(timer_of(poke@)),
        !cron_accepts(poke@.cron) ==> r == Err::<(), PokeError>(PokeError::InvalidSchedule)
            && final(engine)@ == old(engine)@,
{
    let timer = ArmedTimer {
        name: poke.name.clone(),
        schedule: poke.cron.clone(),
        message: copy_opt(&poke.detail),
        sound_enabled: poke.sound_enabled,
    };
    engine.arm(timer)
}

/// Arms one timer per job; a job whose schedule does not parse is skipped
/// and its name returned, and loading goes on with the rest.
pub fn load_jobs_into_scheduler(jobs: &Vec<Poke>, engine: &mut SchedulerEngine) -> (failed: Vec<
    String,
>)
    requires
        !old(engine).is_started(),
    ensures
        !final(engine).is_started(),
        final(engine)@ == old(engine)@ + armed_from(crate::store::view_all(jobs@)),
        names_view(failed@) == failed_from(crate::store::view_all(jobs@)),
{
    let ghost all = crate::store::view_all(jobs@);
    let mut failed: Vec<String> = Vec::new();
    let mut i: usize = 0;
    assert(all.take(0) =~= Seq::<PokeView>::empty());
    assert(old(engine)@ + Seq::<TimerView>::empty() =~= old(engine)@);
    assert(names_view(failed@) =~= Seq::<Seq<char>>::empty());
    while i < jobs.len()
        invariant
            all == crate::store::view_all(jobs@),
            0 <= i <= jobs@.len(),
            !engine.is_started(),
            engine@ == old(engine)@ + armed_from(all.take(i as int)),
            names_view(failed@) == failed_from(all.take(i as int)),
        decreases jobs@.len() - i,
    {
        let poke = &jobs[i];
        assert(all[i as int] == poke@);
        let ghost pre = all.take(i as int);
        let ghost nxt = all.take(i + 1);
        proof {
            reveal(Seq::filter);
            assert(nxt.drop_last() =~= pre);
            assert(nxt.last() == poke@);
            let good = pre.filter(|p: PokeView| schedulable(p));
            let bad = pre.filter(|p: PokeView| !schedulable(p));
            assert(good.push(poke@).map_values(|p: PokeView| timer_of(p)) =~= good.map_values(
                |p: PokeView| timer_of(p),
            ).push(timer_of(poke@)));
            assert(bad.push(poke@).map_values(|p: PokeView| p.name) =~= bad.map_values(
                |p: PokeView| p.name,
            ).push(poke@.name));
        }
        let r = setup_notification(poke, engine);
        if r.is_err() {
            let ghost names_before = failed@;
            failed.push(poke.name.clone());
            assert(names_view(failed@) =~= names_view(names_before).push(poke@.name));
        } else {
            assert(engine@ =~= old(engine)@ + armed_from(nxt));
        }
        i = i + 1;
    }
    assert(all.take(jobs@.len() as int) =~= all);
    failed
}

/// The store and the engine judge a schedule alike: a schedule that parses
/// is armed, and one that does not is refused with `InvalidSchedule` both by
/// the store, whatever it holds, and by the engine.
pub proof fn lemma_schedule_judged_alike(t: Seq<PokeView>, p: PokeView)
    ensures
        cron_accepts(p.cron) ==> arm_result(p.cron) is Ok && add_result(t, p) != Err::<(), PokeError>(
            PokeError::InvalidSchedule,
        ),
        !cron_accepts(p.cron) ==> arm_result(p.cron) == Err::<(), PokeError>(PokeError::InvalidSchedule)
            && add_result(t, p) == Err::<(), PokeError>(PokeError::InvalidSchedule),
{
}

} // verus!
