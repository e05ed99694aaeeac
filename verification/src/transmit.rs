//! The order of one transmission: bind a socket, enable broadcast on it,
//! send the packet once. The socket calls themselves are the caller's; what
//! follows each of them is decided here.

use vstd::prelude::*;
use vstd::string::StringExecFns;
use crate::destination::Destination;

verus! {

/// The local address the socket is bound to: any interface, any free port.
pub const LOCAL_ADDRESS: &'static str = "0.0.0.0:0";

/// Exit code after the packet was sent.
pub const EXIT_SENT: i32 = 0;

/// Exit code after any of the three operations failed.
pub const EXIT_FAILED: i32 = 1;

/// The socket operations of a transmission, in the order in which they run.
#[derive(Clone, Copy, PartialEq, Eq, Structural, Debug)]
pub enum Stage {
    /// Bind a UDP socket to `LOCAL_ADDRESS`.
    Bind,
    /// Allow the socket to send to broadcast addresses.
    EnableBroadcast,
    /// Send the packet to the destination, once.
    Send,
}

/// An operation that failed, with the system's description of the cause.
#[derive(Debug)]
pub struct SendError {
    /// The operation that failed.
    pub stage: Stage,
    /// What the system said of the failure.
    pub cause: String,
}

/// What to do once an operation has returned.
#[derive(Debug)]
pub enum Step {
    /// Run this operation next.
    Run(Stage),
    /// The packet is out; nothing is left to do.
    Sent,
    /// Give up: nothing is retried.
    Failed(SendError),
}

/// The operation that follows `stage` when it succeeds, or `None` after the
/// last one.
pub open spec fn following(stage: Stage) -> Option<Stage> {
    match stage {
        Stage::Bind => Some(Stage::EnableBroadcast),
        Stage::EnableBroadcast => Some(Stage::Send),
        Stage::Send => None,
    }
}

/// The step that the outcome of `stage` leads to: on success the following
/// operation, or `Sent` after the last; on failure `Failed`, naming the
/// operation and the cause.
pub open spec fn step_after(stage: Stage, outcome: Result<(), String>) -> Step {
    match outcome {
        Ok(_) => match following(stage) {
            Some(next) => Step::Run(next),
            None => Step::Sent,
        },
        Err(cause) => Step::Failed(SendError { stage, cause }),
    }
}

/// How many operations are still to run when `stage` is about to.
pub open spec fn stages_left(stage: Stage) -> nat {
    match stage {
        Stage::Bind => 3,
        Stage::EnableBroadcast => 2,
        Stage::Send => 1,
    }
}

/// The first operation of a transmission.
pub fn first_stage() -> (stage: Stage)
    ensures
        stage == Stage::Bind,
{
    Stage::Bind
}

/// Decides what follows the operation `stage`, given how it ended.
pub fn next_step(stage: Stage, outcome: Result<(), String>) -> (step: Step)
    ensures
        step == step_after(stage, outcome),
{
    match outcome {
        Ok(_) => match stage {
            Stage::Bind => Step::Run(Stage::EnableBroadcast),
            Stage::EnableBroadcast => Step::Run(Stage::Send),
            Stage::Send => Step::Sent,
        },
        Err(cause) => Step::Failed(SendError { stage, cause }),
    }
}

/// Every operation runs at most once: a step never leads back, and the third
/// success in a row ends the transmission.
pub proof fn lemma_steps_advance(stage: Stage, outcome: Result<(), String>)
    ensures
        step_after(stage, outcome) matches Step::Run(next) ==> stages_left(next) + 1 == stages_left(
            stage,
        ),
        step_after(stage, outcome) is Sent <==> outcome is Ok && stage == Stage::Send,
        step_after(stage, outcome) is Failed <==> outcome is Err,
{
}

/// The line that reports `error` for a transmission to `destination`.
pub open spec fn diagnostic_text(error: SendError, destination: Destination) -> Seq<char> {
    match error.stage {
        Stage::Bind => "Error: failed to bind socket: "@ + error.cause@,
        Stage::EnableBroadcast => "Error: failed to enable broadcast: "@ + error.cause@,
        Stage::Send => "Error: failed to send packet to "@ + destination.text() + ": "@
            + error.cause@,
    }
}

/// The line that confirms a transmission to the device with address `mac`.
pub open spec fn confirmation_text(mac: Seq<char>) -> Seq<char> {
    "Wake up packet sent to "@ + mac
}

impl SendError {
    /// Writes the diagnostic for this failure: which operation failed, for
    /// a failed send to which destination, and the cause.
    pub fn diagnostic(&self, destination: &Destination) -> (line: String)
        ensures
            line@ == diagnostic_text(*self, *destination),
    {
        let mut line = String::new();
        match self.stage {
            Stage::Bind => {
                line.append("Error: failed to bind socket: ");
            },
            Stage::EnableBroadcast => {
                line.append("Error: failed to enable broadcast: ");
            },
            Stage::Send => {
                line.append("Error: failed to send packet to ");
                line.append(destination.to_text().as_str());
                line.append(": ");
            },
        }
        line.append(self.cause.as_str());
        assert(line@ =~= diagnostic_text(*self, *destination));
        line
    }
}

/// Writes the line that confirms a transmission to the device with
/// address `mac`.
pub fn confirmation(mac: &str) -> (line: String)
    ensures
        line@ == confirmation_text(mac@),
{
    let mut line = String::from_str("Wake up packet sent to ");
    line.append(mac);
    line
}

/// The exit code that goes with a final step: `EXIT_SENT` after `Sent`,
/// `EXIT_FAILED` after `Failed`. A step that runs an operation ends nothing.
pub fn exit_code(step: &Step) -> (code: Option<i32>)
    ensures
        code == match *step {
            Step::Run(_) => None::<i32>,
            Step::Sent => Some(EXIT_SENT),
            Step::Failed(_) => Some(EXIT_FAILED),
        },
{
    match step {
        Step::Run(_) => None,
        Step::Sent => Some(EXIT_SENT),
        Step::Failed(_) => Some(EXIT_FAILED),
    }
}

} // verus!
