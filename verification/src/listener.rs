//! The change-listener state machine.
//!
//! Listen mode subscribes to clipboard-change notifications and emits one
//! fixed line per change until a termination signal arrives. Shutdown is
//! two-staged: the first termination signal only arms a flag, the second
//! one exits with status 1, so a single stray signal never kills a
//! long-running listener. The decisions live here; the surrounding binary
//! registers the subscription and the signal handlers, performs each
//! returned action, and feeds the next event back in.

use vstd::prelude::*;

verus! {

/// Where the listener stands in its life cycle.
#[derive(Clone, Copy, Debug, PartialEq, Eq, Structural)]
pub enum ListenPhase {
    Idle,
    Watching,
    Stopped,
}

/// The listener's whole state: its phase and the shutdown-arming flag
/// written by the signal handler.
#[derive(Clone, Copy, Debug, PartialEq, Eq, Structural)]
pub struct ListenerState {
    pub phase: ListenPhase,
    pub armed: bool,
}

/// What the outside world reports to the listener.
#[derive(Clone, Copy, Debug, PartialEq, Eq, Structural)]
pub enum ListenEvent {
    Subscribed,
    ChangeNotification,
    NotificationError,
    TermSignal,
}

/// What the listener asks the outside world to do next.
#[derive(Clone, Copy, Debug, PartialEq, Eq, Structural)]
pub enum ListenAction {
    Nothing,
    EmitChangeLine,
    ReportError,
    Exit(i32),
}

impl ListenerState {
    /// A listener that has not subscribed yet, with shutdown disarmed.
    pub open spec fn spec_initial() -> ListenerState {
        ListenerState { phase: ListenPhase::Idle, armed: false }
    }

    /// A listener that has not subscribed yet, with shutdown disarmed.
    pub fn initial() -> (r: ListenerState)
        ensures
            r == ListenerState::spec_initial(),
    {
        ListenerState { phase: ListenPhase::Idle, armed: false }
    }
}

/// One transition of the listener: the next state and the action owed.
///
/// A change notification emits exactly one line and keeps watching; a
/// notification error is reported and watching continues; the first
/// termination signal arms shutdown without any output; a second one
/// while armed stops the listener with exit status 1. Every other event
/// changes nothing.
pub open spec fn spec_step(s: ListenerState, e: ListenEvent) -> (ListenerState, ListenAction) {
    match (s.phase, e) {
        (ListenPhase::Idle, ListenEvent::Subscribed) => (
            ListenerState { phase: ListenPhase::Watching, armed: s.armed },
            ListenAction::Nothing,
        ),
        (ListenPhase::Watching, ListenEvent::ChangeNotification) => (s, ListenAction::EmitChangeLine),
        (ListenPhase::Watching, ListenEvent::NotificationError) => (s, ListenAction::ReportError),
        (ListenPhase::Watching, ListenEvent::TermSignal) => if s.armed {
            (ListenerState { phase: ListenPhase::Stopped, armed: true }, ListenAction::Exit(1))
        } else {
            (ListenerState { phase: ListenPhase::Watching, armed: true }, ListenAction::Nothing)
        },
        _ => (s, ListenAction::Nothing),
    }
}

/// One transition of the listener: the next state and the action owed.
pub fn step(s: ListenerState, e: ListenEvent) -> (r: (ListenerState, ListenAction))
    ensures
        r == spec_step(s, e),
{
    match (s.phase, e) {
        (ListenPhase::Idle, ListenEvent::Subscribed) => (
            ListenerState { phase: ListenPhase::Watching, armed: s.armed },
            ListenAction::Nothing,
        ),
        (ListenPhase::Watching, ListenEvent::ChangeNotification) => (
            s,
            ListenAction::EmitChangeLine,
        ),
        (ListenPhase::Watching, ListenEvent::NotificationError) => (s, ListenAction::ReportError),
        (ListenPhase::Watching, ListenEvent::TermSignal) => if s.armed {
            (ListenerState { phase: ListenPhase::Stopped, armed: true }, ListenAction::Exit(1))
        } else {
            (ListenerState { phase: ListenPhase::Watching, armed: true }, ListenAction::Nothing)
        },
        _ => (s, ListenAction::Nothing),
    }
}

/// The fixed line emitted on every clipboard change.
pub fn change_line() -> (r: String)
    ensures
        r@ == "CBCHANGED"@,
{
    "CBCHANGED".to_owned()
}

/// Each change notification while watching yields exactly one emitted
/// line, and the listener keeps watching.
pub proof fn lemma_change_emits_one_line(s: ListenerState)
    requires
        s.phase is Watching,
    ensures
        spec_step(s, ListenEvent::ChangeNotification) == (s, ListenAction::EmitChangeLine),
{
}

/// A notification error never stops the listener: it is reported and
/// watching continues unchanged.
pub proof fn lemma_error_keeps_watching(s: ListenerState)
    requires
        s.phase is Watching,
    ensures
        spec_step(s, ListenEvent::NotificationError) == (s, ListenAction::ReportError),
{
}

/// The first termination signal only arms shutdown: no output, no exit,
/// the listener keeps watching.
pub proof fn lemma_first_signal_only_arms(s: ListenerState)
    requires
        s.phase is Watching,
        !s.armed,
    ensures
        spec_step(s, ListenEvent::TermSignal) == (
            ListenerState { phase: ListenPhase::Watching, armed: true },
            ListenAction::Nothing,
        ),
{
}

/// A termination signal while armed stops the listener at once, with
/// exit status 1.
pub proof fn lemma_second_signal_stops(s: ListenerState)
    requires
        s.phase is Watching,
        s.armed,
    ensures
        spec_step(s, ListenEvent::TermSignal) == (
            ListenerState { phase: ListenPhase::Stopped, armed: true },
            ListenAction::Exit(1),
        ),
{
}

/// The only transition that ever stops the listener is a termination
/// signal arriving while shutdown is armed, and the only exit it orders
/// has status 1.
pub proof fn lemma_only_double_signal_stops(s: ListenerState, e: ListenEvent)
    requires
        !(s.phase is Stopped),
    ensures
        spec_step(s, e).0.phase is Stopped <==> s.phase is Watching && s.armed && e
            is TermSignal,
        spec_step(s, e).1 is Exit ==> spec_step(s, e).1 == ListenAction::Exit(1),
{
}

} // verus!
