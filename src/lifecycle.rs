use vstd::prelude::*;

verus! {

/// Lifecycle of an actor.
#[derive(Clone, Copy, Debug, PartialEq, Eq, Structural)]
pub enum ActorState {
    Running,
    Draining,
    Stopped,
}

/// What an actor's select loop observed.
#[derive(Clone, Copy, Debug, PartialEq, Eq, Structural)]
pub enum ActorEvent {
    /// The cancellation signal fired.
    Cancelled,
    /// A message arrived and was handled.
    Message,
    /// The subscriber fell behind by this many messages.
    Lagged(u64),
    /// The input channel closed.
    Closed,
    /// The in-flight iteration completed.
    IterationDone,
}

/// Transitions: cancellation moves a running actor to draining, and a
/// draining one stops once its iteration is done; channel closure stops it;
/// messages and lag keep it as it is; a stopped actor stays stopped.
pub open spec fn transition(s: ActorState, e: ActorEvent) -> ActorState {
    match (s, e) {
        (ActorState::Stopped, _) => ActorState::Stopped,
        (_, ActorEvent::Closed) => ActorState::Stopped,
        (ActorState::Running, ActorEvent::Cancelled) => ActorState::Draining,
        (ActorState::Draining, ActorEvent::IterationDone) => ActorState::Stopped,
        (s, _) => s,
    }
}

/// The next lifecycle state.
pub fn next_state(s: ActorState, e: ActorEvent) -> (r: ActorState)
    ensures
        r == transition(s, e),
{
    match (s, e) {
        (ActorState::Stopped, _) => ActorState::Stopped,
        (_, ActorEvent::Closed) => ActorState::Stopped,
        (ActorState::Running, ActorEvent::Cancelled) => ActorState::Draining,
        (ActorState::Draining, ActorEvent::IterationDone) => ActorState::Stopped,
        (s, _) => s,
    }
}

/// Whether the actor takes new work: only while running.
pub fn accepts_work(s: ActorState) -> (r: bool)
    ensures
        r == (s == ActorState::Running),
{
    match s {
        ActorState::Running => true,
        _ => false,
    }
}

/// Lag never stops an actor; only closure or cancellation (followed by the
/// end of the in-flight iteration) does.
pub proof fn lemma_only_close_or_cancel_stops(s: ActorState, e: ActorEvent)
    ensures
        s == ActorState::Running && transition(s, e) == ActorState::Stopped ==> e == ActorEvent::Closed,
        transition(transition(ActorState::Running, ActorEvent::Cancelled), ActorEvent::IterationDone)
            == ActorState::Stopped,
        forall|n: u64| transition(s, ActorEvent::Lagged(n)) == s,
{
}

} // verus!
