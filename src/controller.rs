use vstd::prelude::*;
use crate::job::PokeError;
use crate::schedule::cron_accepts;
use crate::signals::{after_refresh, refresh_result, signal_refresh, SignalFiles, SignalView};
use crate::store::{add_poke, has_name, remove_poke, toggle_poke_sound, JobTable};

verus! {

/// The note that goes with a successful change when the daemon could not be
/// signalled: the change stands, the daemon picks it up only when restarted.
pub open spec fn advisory_of(f: SignalView) -> Option<PokeError> {
    match refresh_result(f) {
        Err(e) => Some(e),
        Ok(()) => None,
    }
}

fn notify_daemon(files: &mut SignalFiles) -> (advisory: Option<PokeError>)
    ensures
        advisory == advisory_of(old(files)@),
        final(files)@ == after_refresh(old(files)@),
{
    match signal_refresh(files) {
        Ok(()) => None,
        Err(e) => Some(e),
    }
}

/// Adds a job, then asks the daemon to reload. The refresh is attempted only
/// after the add succeeded, and its failure is an advisory, never an error.
pub fn add_command(
    table: &mut JobTable,
    files: &mut SignalFiles,
    name: String,
    cron: String,
    detail: Option<String>,
    sound_enabled: bool,
) -> (r: Result<Option<PokeError>, PokeError>)
    requires
        old(table).wf(),
    ensures
        final(table).wf(),
        !cron_accepts(cron@) ==> r == Err::<Option<PokeError>, PokeError>(PokeError::InvalidSchedule),
        cron_accepts(cron@) && has_name(old(table)@, name@) ==> r == Err::<Option<PokeError>, PokeError>(PokeError::DuplicateName),
        r is Err ==> final(table)@ == old(table)@ && final(files)@ == old(files)@,
        r matches Ok(a) ==> a == advisory_of(old(files)@) && final(files)@ == after_refresh(old(files)@)
            && final(table)@.len() == old(table)@.len() + 1 && final(table)@.drop_last() == old(table)@
            && final(table)@.last().name == name@ && final(table)@.last().cron == cron@
            && final(table)@.last().detail == crate::job::opt_view(detail)
            && final(table)@.last().sound_enabled == sound_enabled,
        cron_accepts(cron@) && !has_name(old(table)@, name@) ==> r is Ok,
{
    match add_poke(table, name, cron, detail, sound_enabled) {
        Ok(()) => Ok(notify_daemon(files)),
        Err(e) => Err(e),
    }
}

/// Removes a job, then asks the daemon to reload; `NotFound` when no job has
/// that name. The refresh failure is an advisory, never an error.
pub fn remove_command(table: &mut JobTable, files: &mut SignalFiles, name: &str) -> (r: Result<
    Option<PokeError>,
    PokeError,
>)
    requires
        old(table).wf(),
    ensures
        final(table).wf(),
        !has_name(old(table)@, name@) <==> r == Err::<Option<PokeError>, PokeError>(PokeError::NotFound),
        has_name(old(table)@, name@) ==> r is Ok,
        r is Err ==> final(table)@ == old(table)@ && final(files)@ == old(files)@,
        r matches Ok(a) ==> a == advisory_of(old(files)@) && final(files)@ == after_refresh(old(files)@)
            && exists|i: int| 0 <= i < old(table)@.len() && #[trigger] old(table)@[i].name == name@
            && final(table)@ == old(table)@.remove(i),
{
    match remove_poke(table, name) {
        Ok(()) => Ok(notify_daemon(files)),
        Err(e) => Err(e),
    }
}

/// Flips a job's sound flag, then asks the daemon to reload; returns the new
/// flag, or `NotFound` when no job has that name.
pub fn toggle_command(table: &mut JobTable, files: &mut SignalFiles, name: &str) -> (r: Result<
    (bool, Option<PokeError>),
    PokeError,
>)
    requires
        old(table).wf(),
    ensures
        final(table).wf(),
        !has_name(old(table)@, name@) <==> r == Err::<(bool, Option<PokeError>), PokeError>(PokeError::NotFound),
        has_name(old(table)@, name@) ==> r is Ok,
        r is Err ==> final(table)@ == old(table)@ && final(files)@ == old(files)@,
        r matches Ok((s, a)) ==> a == advisory_of(old(files)@) && final(files)@ == after_refresh(old(files)@)
            && exists|i: int| 0 <= i < old(table)@.len() && #[trigger] old(table)@[i].name == name@
            && s == !old(table)@[i].sound_enabled && final(table)@ == old(table)@.update(
            i,
            crate::job::PokeView { sound_enabled: s, ..old(table)@[i] },
        ),
{
    match toggle_poke_sound(table, name) {
        Ok(s) => Ok((s, notify_daemon(files))),
        Err(e) => Err(e),
    }
}

} // verus!
