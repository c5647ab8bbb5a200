use vstd::prelude::*;

verus! {

/// Whether the cron evaluator accepts `s` as a six-field expression
/// (second, minute, hour, day of month, month, day of week).
pub uninterp spec fn cron_accepts(s: Seq<char>) -> bool;

/// Relies on `tokio_cron_scheduler::Job::new`: it builds a job exactly when the
/// text parses as a six-field cron expression, and whether it parses depends on
/// the text alone.
#[verifier::external_body]
pub(crate) fn is_valid_cron(cron: &str) -> (r: bool)
    ensures
        r == cron_accepts(cron@),
{
    tokio_cron_scheduler::Job::new(cron, |_, _| {}).is_ok()
}

} // verus!
