//! The tagged outcome of applying one mutation, and the capability
//! interface every state component implements.

use vstd::prelude::*;
use crate::events::{Event, EventView};

verus! {

/// Outcome of one mutation attempt.
///
/// A `Reversible` outcome carries the externally observable delta and the
/// (perform, reverse) pair to be recorded for undo. An `Irreversible`
/// outcome must not be recorded. A `Restart` outcome means the action
/// decomposes into primitive sub-actions which must be replayed, in the
/// given order, through the same dispatch path; the state was not changed.
pub enum Consumed {
    Reversible { state_change: Event, perform_reverse: (Event, Event) },
    Irreversible { state_change: Event },
    Restart { sub_events: Vec<Event> },
}

/// Mathematical content of a `Consumed`.
#[verifier::ext_equal]
pub enum ConsumedView {
    Reversible { state_change: EventView, perform: EventView, reverse: EventView },
    Irreversible { state_change: EventView },
    Restart { sub_events: Seq<EventView> },
}

impl View for Consumed {
    type V = ConsumedView;

    open spec fn view(&self) -> ConsumedView {
        match self {
            Consumed::Reversible { state_change, perform_reverse } => ConsumedView::Reversible {
                state_change: state_change@,
                perform: perform_reverse.0@,
                reverse: perform_reverse.1@,
            },
            Consumed::Irreversible { state_change } => ConsumedView::Irreversible {
                state_change: state_change@,
            },
            Consumed::Restart { sub_events } => ConsumedView::Restart {
                sub_events: sub_events.deep_view(),
            },
        }
    }
}

/// The capability every state component implements: consume a mutating
/// action addressed by a path suffix, or answer a read-only query. An error
/// must leave the component's observable state unchanged, and `refresh`
/// never mutates at all.
pub trait SessionState: Sized {
    /// The component's internal invariant; constructors establish it and
    /// every operation preserves it.
    spec fn inv(self) -> bool;

    /// Consume a mutating action; on error the state is unchanged.
    fn consume_event(&mut self, path: &[String], action: &Event) -> (r: Result<Consumed, String>)
        requires
            old(self).inv(),
        ensures
            final(self).inv(),
            r is Err ==> *final(self) == *old(self),
    ;

    /// Answer a read-only query.
    fn refresh(&self, full_path: &[String], at_path: &[String]) -> (r: Result<Event, String>);
}

} // verus!
