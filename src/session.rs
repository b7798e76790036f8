//! The lifecycle of a terminal session: created, running, then exited or
//! terminated for good.
use vstd::prelude::*;

verus! {

#[derive(Clone, Copy, Debug, PartialEq, Eq, Structural)]
pub enum SessionState {
    /// The pseudo-terminal is open; the child has not been started.
    Created,
    /// The child runs; input and output flow.
    Running,
    /// The child's output ended.
    Exited,
    /// The session was released and its child killed.
    Terminated,
}

#[derive(Clone, Copy, Debug, PartialEq, Eq, Structural)]
pub enum SessionEvent {
    /// The child was started.
    Spawned,
    /// A read found the end of the output.
    StreamEnded,
    /// The owner let the session go.
    Released,
}

pub open spec fn is_final_spec(s: SessionState) -> bool {
    s == SessionState::Exited || s == SessionState::Terminated
}

/// The state after `e`. A final state stays as it is; a release ends any
/// other state; a start only leaves `Created`; an end of stream only leaves
/// `Running`.
pub open spec fn step(s: SessionState, e: SessionEvent) -> SessionState {
    if is_final_spec(s) {
        s
    } else {
        match e {
            SessionEvent::Released => SessionState::Terminated,
            SessionEvent::Spawned => if s == SessionState::Created { SessionState::Running } else { s },
            SessionEvent::StreamEnded => if s == SessionState::Running { SessionState::Exited } else { s },
        }
    }
}

/// The state after each of `es` in turn.
pub open spec fn steps(s: SessionState, es: Seq<SessionEvent>) -> SessionState
    decreases es.len(),
{
    if es.len() == 0 {
        s
    } else {
        step(steps(s, es.drop_last()), es.last())
    }
}

pub fn next_state(s: SessionState, e: SessionEvent) -> (r: SessionState)
    ensures
        r == step(s, e),
{
    match s {
        SessionState::Exited | SessionState::Terminated => s,
        SessionState::Created => match e {
            SessionEvent::Released => SessionState::Terminated,
            SessionEvent::Spawned => SessionState::Running,
            SessionEvent::StreamEnded => s,
        },
        SessionState::Running => match e {
            SessionEvent::Released => SessionState::Terminated,
            SessionEvent::Spawned => s,
            SessionEvent::StreamEnded => SessionState::Exited,
        },
    }
}

/// Whether reads, writes and resizes are meant for the session.
pub fn accepts_io(s: SessionState) -> (r: bool)
    ensures
        r == (s == SessionState::Running),
{
    match s {
        SessionState::Running => true,
        _ => false,
    }
}

/// Whether the session has ended for good.
pub fn is_final(s: SessionState) -> (r: bool)
    ensures
        r == is_final_spec(s),
{
    match s {
        SessionState::Exited | SessionState::Terminated => true,
        _ => false,
    }
}

/// No event leads out of a final state.
pub proof fn lemma_final_is_kept(s: SessionState, es: Seq<SessionEvent>)
    requires
        is_final_spec(s),
    ensures
        steps(s, es) == s,
    decreases es.len(),
{
    if es.len() > 0 {
        lemma_final_is_kept(s, es.drop_last());
    }
}

} // verus!
