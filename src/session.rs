//! The session: two forwarding loops, ended by the first one that finishes.
use vstd::prelude::*;

use crate::forward::LoopError;

verus! {

/// The direction of a forwarding loop.
#[derive(Clone, Copy, Debug, PartialEq, Eq, Structural)]
pub enum Direction {
    /// From the console to the device.
    ToDevice,
    /// From the device to the console.
    ToConsole,
}

/// How a session ended: the loop that finished first, and its result.
#[derive(Clone, Copy, Debug)]
pub struct SessionOutcome {
    pub from: Direction,
    pub result: Result<(), LoopError>,
}

/// The outcome after the loop `from` finished with `result`, given the
/// outcome `o` so far: the first completion decides, later ones change
/// nothing.
pub open spec fn record(
    o: Option<SessionOutcome>,
    from: Direction,
    result: Result<(), LoopError>,
) -> Option<SessionOutcome> {
    match o {
        Some(_) => o,
        None => Some(SessionOutcome { from, result }),
    }
}

/// Runs a session to its end: `Running` while no loop has finished,
/// `Terminated` with the first completion's result after that.
pub struct Coordinator {
    outcome: Option<SessionOutcome>,
}

impl Coordinator {
    /// The outcome of the session; `None` while it runs.
    pub closed spec fn reported(&self) -> Option<SessionOutcome> {
        self.outcome
    }

    /// A session in which no loop has finished.
    pub fn new() -> (r: Self)
        ensures
            r.reported() is None,
    {
        Coordinator { outcome: None }
    }

    /// Whether the session has ended.
    pub fn is_terminated(&self) -> (r: bool)
        ensures
            r == self.reported() is Some,
    {
        self.outcome.is_some()
    }

    /// Takes the completion of the loop `from`; returns whether this
    /// completion ended the session.
    pub fn loop_finished(&mut self, from: Direction, result: Result<(), LoopError>) -> (r: bool)
        ensures
            final(self).reported() == record(old(self).reported(), from, result),
            r == old(self).reported() is None,
    {
        if self.outcome.is_none() {
            self.outcome = Some(SessionOutcome { from, result });
            true
        } else {
            false
        }
    }

    /// The outcome of the session, once it has ended.
    pub fn outcome(&self) -> (r: Option<SessionOutcome>)
        ensures
            r == self.reported(),
    {
        self.outcome
    }
}

/// Once a loop has failed, the session's outcome is that failure: the loop
/// that finishes after it, with success or not, does not override it.
pub proof fn lemma_first_failure_wins(
    failed: Direction,
    e: LoopError,
    other: Direction,
    later: Result<(), LoopError>,
)
    ensures
        record(record(None, failed, Err(e)), other, later) == Some(
            SessionOutcome { from: failed, result: Err(e) },
        ),
{
}

/// A session that has ended keeps its outcome, whatever completes later.
pub proof fn lemma_outcome_final(o: SessionOutcome, from: Direction, result: Result<(), LoopError>)
    ensures
        record(Some(o), from, result) == Some(o),
{
}

} // verus!
