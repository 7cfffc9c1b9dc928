//! What the harness does once a watch over a container's log has ended.

use vstd::prelude::*;
use crate::log_watch::WatchOutcome;

verus! {

/// How a container is watched for readiness.
pub struct ReadinessProbe {
    /// The log line that shows the service is ready holds this text.
    pub marker: String,
    /// How long to wait for it, in seconds.
    pub timeout_secs: u64,
    /// Print each log line while waiting.
    pub echo_lines: bool,
    /// Printed when the marker is found.
    pub found_note: String,
}

/// What to do with a container once its watch has ended.
pub enum StartupAction {
    /// Print the note and hand the running container to the caller.
    Ready(String),
    /// Give up on the test run: panic with this message.
    Abort(String),
    /// Stop the container and report this error to the caller.
    Cancel(String),
}

/// The message of a watch that ended with `outcome` without the marker:
/// `None` when the marker was found.
pub open spec fn failure_text(outcome: WatchOutcome) -> Option<Seq<char>> {
    match outcome {
        WatchOutcome::Found => None,
        WatchOutcome::StreamEnded => Some("Log stream ended before expected message"@),
        WatchOutcome::TimedOut => Some("Timeout while waiting for log message."@),
        WatchOutcome::Interrupted => Some("Ctrl-C detected."@),
    }
}

impl ReadinessProbe {
    /// What starting a service does once its watch ended with `outcome`: a
    /// found marker hands the container over with the probe's note; a
    /// stream that ended or a deadline that passed abort the run; an
    /// interrupt stops the container and reports that it was cleaned up.
    pub fn startup_action(&self, outcome: WatchOutcome) -> (a: StartupAction)
        ensures
            match outcome {
                WatchOutcome::Found => a matches StartupAction::Ready(note) && note@ == self.found_note@,
                WatchOutcome::StreamEnded => a matches StartupAction::Abort(msg)
                    && msg@ == "Error: Log stream ended before expected message"@,
                WatchOutcome::TimedOut => a matches StartupAction::Abort(msg)
                    && msg@ == "Timeout while waiting for log message."@,
                WatchOutcome::Interrupted => a matches StartupAction::Cancel(msg)
                    && msg@ == "Received Ctrl+C. Cleaning up..."@,
            },
    {
        match outcome {
            WatchOutcome::Found => StartupAction::Ready(self.found_note.clone()),
            WatchOutcome::StreamEnded => StartupAction::Abort(
                "Error: Log stream ended before expected message".to_owned(),
            ),
            WatchOutcome::TimedOut => StartupAction::Abort("Timeout while waiting for log message.".to_owned()),
            WatchOutcome::Interrupted => StartupAction::Cancel("Received Ctrl+C. Cleaning up...".to_owned()),
        }
    }
}

/// The report of a wait for a log message that ended with `outcome`:
/// `Ok` with "Log message found." when the marker came, otherwise `Err`
/// with the reason the wait ended.
pub fn wait_report(outcome: WatchOutcome) -> (r: Result<String, String>)
    ensures
        match failure_text(outcome) {
            None => r matches Ok(s) && s@ == "Log message found."@,
            Some(t) => r matches Err(e) && e@ == t,
        },
        outcome == WatchOutcome::Found ==> (r matches Ok(s) && s@ == "Log message found."@),
        outcome == WatchOutcome::StreamEnded ==> (r matches Err(e) && e@
            == "Log stream ended before expected message"@),
        outcome == WatchOutcome::TimedOut ==> (r matches Err(e) && e@ == "Timeout while waiting for log message."@),
        outcome == WatchOutcome::Interrupted ==> (r matches Err(e) && e@ == "Ctrl-C detected."@),
{
    match outcome {
        WatchOutcome::Found => Ok("Log message found.".to_owned()),
        WatchOutcome::StreamEnded => Err("Log stream ended before expected message".to_owned()),
        WatchOutcome::TimedOut => Err("Timeout while waiting for log message.".to_owned()),
        WatchOutcome::Interrupted => Err("Ctrl-C detected.".to_owned()),
    }
}

} // verus!
