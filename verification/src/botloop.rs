//! Decisions of the two long-running loops. The loops' outside work — polling
//! updates, accepting connections — is the caller's; what is decided here is
//! that a per-update failure is logged and never fatal to the bot loop, and
//! that an HTTP server task's death is logged without touching the bot loop.

use vstd::prelude::*;
use vstd::string::StringExecFns;

verus! {

/// The outcome of dispatching one inbound bot update.
pub enum UpdateOutcome {
    /// The update's handler chain succeeded.
    Handled,
    /// The update's handler chain failed with this error text.
    Failed { message: String },
}

/// What the bot update loop does after one update.
pub struct LoopDirective {
    /// The error to log, if the update failed.
    pub log_error: Option<String>,
    /// Always true: a per-update failure is never fatal to the loop.
    pub keep_running: bool,
}

/// The bot update loop's only failure-recovery rule: log the error of a
/// failed update and carry on with the next update, whatever happened.
pub fn update_loop_step(outcome: UpdateOutcome) -> (d: LoopDirective)
    ensures
        d.keep_running,
        match outcome {
            UpdateOutcome::Handled => d.log_error is None,
            UpdateOutcome::Failed { message } => d.log_error matches Some(l) && l@ == message@,
        },
{
    match outcome {
        UpdateOutcome::Handled => LoopDirective { log_error: None, keep_running: true },
        UpdateOutcome::Failed { message } => LoopDirective {
            log_error: Some(message),
            keep_running: true,
        },
    }
}

/// The log line for an HTTP server task that stopped with an error. The bot
/// update loop is left alone: after startup the two loops are independent.
pub fn server_exit_log(err: &str) -> (r: String)
    ensures
        r@ == "Server error: "@ + err@,
{
    let mut l = String::from_str("Server error: ");
    l.append(err);
    l
}

} // verus!
