//! Addressed messages exchanged between the dispatcher and state components.

use vstd::prelude::*;

verus! {

/// An addressed message: a hierarchical path of segments and an optional
/// serialized payload. Each routing layer consumes a prefix of `path` and
/// forwards the suffix to the component it selects.
#[derive(Clone, Debug, PartialEq, Eq)]
pub struct Event {
    pub path: Vec<String>,
    pub payload: Option<String>,
}

/// Mathematical content of an event: its path segments and payload as
/// character sequences.
#[verifier::ext_equal]
pub struct EventView {
    pub path: Seq<Seq<char>>,
    pub payload: Option<Seq<char>>,
}

impl DeepView for Event {
    type V = EventView;

    open spec fn deep_view(&self) -> EventView {
        self.view()
    }
}

impl View for Event {
    type V = EventView;

    open spec fn view(&self) -> EventView {
        EventView {
            path: self.path.deep_view(),
            payload: match self.payload {
                Some(p) => Some(p@),
                None => None,
            },
        }
    }
}

/// An event in its role as a request to mutate state.
#[derive(Clone, Debug, PartialEq, Eq)]
pub struct UserAction {
    pub event: Event,
}

impl View for UserAction {
    type V = EventView;

    open spec fn view(&self) -> EventView {
        self.event@
    }
}

impl core::convert::From<Event> for UserAction {
    fn from(event: Event) -> (r: UserAction) {
        UserAction { event }
    }
}

impl vstd::std_specs::convert::FromSpecImpl<Event> for UserAction {
    open spec fn obeys_from_spec() -> bool {
        true
    }

    open spec fn from_spec(event: Event) -> UserAction {
        UserAction { event }
    }
}

/// An event in its role as an already-applied mutation's observable delta.
#[derive(Clone, Debug, PartialEq, Eq)]
pub struct StateChange {
    pub event: Event,
}

impl View for StateChange {
    type V = EventView;

    open spec fn view(&self) -> EventView {
        self.event@
    }
}

impl core::convert::From<Event> for StateChange {
    fn from(event: Event) -> (r: StateChange) {
        StateChange { event }
    }
}

impl vstd::std_specs::convert::FromSpecImpl<Event> for StateChange {
    open spec fn obeys_from_spec() -> bool {
        true
    }

    open spec fn from_spec(event: Event) -> StateChange {
        StateChange { event }
    }
}

/// Length, in characters, of the payload an event carries (0 when absent).
pub open spec fn spec_payload_size(e: Event) -> nat {
    match e.payload {
        Some(p) => p@.len(),
        None => 0,
    }
}

impl Event {
    /// Build an event from path segments and an optional payload.
    pub fn build(path: &[String], payload: Option<&str>) -> (r: Event)
        ensures
            r@.path == path.deep_view(),
            r@.payload == match payload {
                Some(p) => Some(p@),
                None => None::<Seq<char>>,
            },
    {
        let mut segments: Vec<String> = Vec::new();
        let mut i: usize = 0;
        while i < path.len()
            invariant
                i <= path.len(),
                segments.len() == i,
                forall|j: int| 0 <= j < i ==> segments.deep_view()[j] == path.deep_view()[j],
            decreases path.len() - i,
        {
            segments.push(path[i].clone());
            i += 1;
        }
        proof {
            assert(segments.deep_view() =~= path.deep_view());
        }
        let pl = match payload {
            Some(p) => Some(String::from_str(p)),
            None => None,
        };
        Event { path: segments, payload: pl }
    }

    /// A copy of this event with the same content.
    pub fn duplicate(&self) -> (r: Event)
        ensures
            r@ == self@,
    {
        let mut segments: Vec<String> = Vec::new();
        let mut i: usize = 0;
        while i < self.path.len()
            invariant
                i <= self.path.len(),
                segments@.len() == i,
                forall|j: int| 0 <= j < i ==> segments@[j] == self.path@[j],
            decreases self.path.len() - i,
        {
            segments.push(self.path[i].clone());
            i += 1;
        }
        proof {
            assert(segments@ =~= self.path@);
        }
        let pl = match &self.payload {
            Some(p) => Some(p.clone()),
            None => None,
        };
        let r = Event { path: segments, payload: pl };
        proof {
            assert(r@ =~= self@);
        }
        r
    }

    /// Number of characters in the payload, or 0 when there is none.
    pub fn payload_size(&self) -> (r: usize)
        ensures
            r == spec_payload_size(*self),
    {
        match &self.payload {
            Some(p) => p.as_str().unicode_len(),
            None => 0,
        }
    }
}

} // verus!
