use vstd::prelude::*;

verus! {

/// The parsed command line: one subcommand.
pub struct Cli {
    pub command: Commands,
}

/// What a single invocation asks for.
pub enum Commands {
    /// Start the background notification service.
    Service { daemon: bool },
    /// Add a new scheduled notification job.
    Add { name: String, cron: String, detail: Option<String>, sound: bool },
    /// List the scheduled jobs, at most `head` of them when given.
    List { head: Option<i32> },
    /// Show one job by its exact name.
    Detail { name: String },
    /// Search for jobs whose name contains a term.
    Search { term: String },
    /// Remove a job by name.
    Remove { name: String },
    /// Toggle the sound of an existing job.
    ToggleSound { name: String },
    /// Stop the running service.
    Stop,
    /// Ask the running service to reload its jobs.
    Refresh,
}

} // verus!
