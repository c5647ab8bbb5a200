use vstd::prelude::*;
use crate::schedule::{cron_accepts, is_valid_cron};

verus! {

/// Why an operation of the library was refused.
#[derive(Debug, Clone, Copy, PartialEq, Eq, Structural)]
pub enum PokeError {
    /// The schedule is not a valid six-field cron expression.
    InvalidSchedule,
    /// A job with that name already exists.
    DuplicateName,
    /// No job has that name.
    NotFound,
    /// No daemon claims to be running (the PID file is absent).
    NotRunning,
    /// The PID file names a process that is not alive.
    StaleState,
    /// The PID file does not hold a process id.
    InvalidPid,
}

/// A persisted job: a named recurring notification.
pub struct Poke {
    /// Identifier given by the store; 0 until stored.
    pub id: i64,
    pub name: String,
    pub cron: String,
    pub detail: Option<String>,
    pub sound_enabled: bool,
    /// Creation time, in seconds since the Unix epoch (UTC).
    pub created: i64,
}

/// The mathematical value of a job.
pub struct PokeView {
    pub id: i64,
    pub name: Seq<char>,
    pub cron: Seq<char>,
    pub detail: Option<Seq<char>>,
    pub sound_enabled: bool,
    pub created: i64,
}

pub open spec fn opt_view(o: Option<String>) -> Option<Seq<char>> {
    match o {
        Some(s) => Some(s@),
        None => None,
    }
}

impl View for Poke {
    type V = PokeView;

    open spec fn view(&self) -> PokeView {
        PokeView {
            id: self.id,
            name: self.name@,
            cron: self.cron@,
            detail: opt_view(self.detail),
            sound_enabled: self.sound_enabled,
            created: self.created,
        }
    }
}

pub fn copy_opt(o: &Option<String>) -> (r: Option<String>)
    ensures
        opt_view(r) == opt_view(*o),
{
    match o {
        Some(s) => Some(s.clone()),
        None => None,
    }
}

/// Relies on `chrono::Utc::now`: the current time as seconds since the Unix epoch.
#[verifier::external_body]
fn now_seconds() -> (r: i64) {
    chrono::Utc::now().timestamp()
}

impl Poke {
    /// A new job created now, or `InvalidSchedule` when the schedule does not parse.
    pub fn new(name: String, cron: String, detail: Option<String>, sound_enabled: bool) -> (r:
        Result<Poke, PokeError>)
        ensures
            cron_accepts(cron@) <==> r is Ok,
            r is Err ==> r == Err::<Poke, PokeError>(PokeError::InvalidSchedule),
            r matches Ok(p) ==> p.id == 0 && p@.name == name@ && p@.cron == cron@ && p@.detail
                == opt_view(detail) && p.sound_enabled == sound_enabled,
    {
        let created = now_seconds();
        Poke::created_at(name, cron, detail, sound_enabled, created)
    }

    /// A new job with the given creation time, or `InvalidSchedule` when the
    /// schedule does not parse.
    pub fn created_at(
        name: String,
        cron: String,
        detail: Option<String>,
        sound_enabled: bool,
        created: i64,
    ) -> (r: Result<Poke, PokeError>)
        ensures
            cron_accepts(cron@) ==> (r matches Ok(p) && p@ == (PokeView {
                id: 0,
                name: name@,
                cron: cron@,
                detail: opt_view(detail),
                sound_enabled,
                created,
            })),
            !cron_accepts(cron@) ==> r == Err::<Poke, PokeError>(PokeError::InvalidSchedule),
    {
        if !is_valid_cron(cron.as_str()) {
            return Err(PokeError::InvalidSchedule);
        }
        Ok(Poke { id: 0, name, cron, detail, sound_enabled, created })
    }

    /// A field-by-field copy.
    pub fn copy(&self) -> (r: Poke)
        ensures
            r@ == self@,
    {
        Poke {
            id: self.id,
            name: self.name.clone(),
            cron: self.cron.clone(),
            detail: copy_opt(&self.detail),
            sound_enabled: self.sound_enabled,
            created: self.created,
        }
    }
}

} // verus!
