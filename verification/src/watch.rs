//! The engine's reaction to change notifications. The watcher itself is an
//! external collaborator that emits a stream of events for a directory
//! subtree; the engine's whole policy is: on any change event, rerun the
//! full pipeline over the entire source tree, and on a failed event, report
//! it and keep listening. Nothing in the event's payload is consulted.

use vstd::prelude::*;

verus! {

/// One notification from the file watcher: a change somewhere under the
/// watched tree, or a failure of the watcher itself.
#[derive(Debug)]
pub enum WatchEvent {
    Change { path: String },
    Failure { message: String },
}

/// What the engine does with a notification: rebuild the whole output tree,
/// or report the failure and continue.
#[derive(Clone, Copy, Debug, PartialEq, Eq, Structural)]
pub enum WatchAction {
    Rebuild,
    Report,
}

/// The reaction to a notification: every change event, whatever file it
/// names, asks for a full rebuild; every failure is reported and the loop
/// goes on.
pub open spec fn spec_react(e: WatchEvent) -> WatchAction {
    match e {
        WatchEvent::Change { .. } => WatchAction::Rebuild,
        WatchEvent::Failure { .. } => WatchAction::Report,
    }
}

/// Decides what to do with one notification.
pub fn react(e: &WatchEvent) -> (r: WatchAction)
    ensures
        r == spec_react(*e),
        (r is Rebuild) == (*e is Change),
{
    match e {
        WatchEvent::Change { .. } => WatchAction::Rebuild,
        WatchEvent::Failure { .. } => WatchAction::Report,
    }
}

/// The reaction to a change ignores the event's payload entirely: any two
/// change events ask for the same full rebuild.
pub proof fn lemma_change_payload_ignored(a: WatchEvent, b: WatchEvent)
    requires
        a is Change,
        b is Change,
    ensures
        spec_react(a) == spec_react(b),
        spec_react(a) is Rebuild,
{
}

} // verus!
