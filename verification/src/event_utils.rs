//! Shorthands for building protocol events and outcomes for the components
//! of a sketch session.

use vstd::prelude::*;
use crate::consumed::Consumed;
use crate::events::Event;

verus! {

/// Create a `Consumed::Reversible` outcome from its components.
pub fn make_reversible(state_change: Event, original_event: &Event, reverse_event: Event) -> (r:
    Consumed)
    ensures
        r@ matches crate::consumed::ConsumedView::Reversible { state_change: sc, perform, reverse }
            && sc == state_change@ && perform == original_event@ && reverse == reverse_event@,
{
    Consumed::Reversible {
        state_change,
        perform_reverse: (original_event.duplicate(), reverse_event),
    }
}

/// Create an event under the given prefix segments: the prefix, then
/// `at_path`, with the payload.
fn make_prefixed_event(prefix: &[&str], at_path: &[String], payload: Option<&str>) -> (r: Event)
    ensures
        r@.path == prefix.deep_view() + at_path.deep_view(),
        r@.payload == match payload {
            Some(p) => Some(p@),
            None => None::<Seq<char>>,
        },
{
    let mut path: Vec<String> = Vec::new();
    let mut i: usize = 0;
    while i < prefix.len()
        invariant
            i <= prefix@.len(),
            path@.len() == i,
            forall|j: int| 0 <= j < i ==> (#[trigger] path@[j])@ == prefix@[j]@,
        decreases prefix@.len() - i,
    {
        path.push(String::from_str(prefix[i]));
        i += 1;
    }
    let mut k: usize = 0;
    while k < at_path.len()
        invariant
            k <= at_path@.len(),
            path@.len() == prefix@.len() + k,
            forall|j: int| 0 <= j < prefix@.len() ==> (#[trigger] path@[j])@ == prefix@[j]@,
            forall|j: int|
                prefix@.len() <= j < prefix@.len() + k ==> (#[trigger] path@[j])@ == at_path@[j
                    - prefix@.len()]@,
        decreases at_path@.len() - k,
    {
        path.push(at_path[k].clone());
        k += 1;
    }
    let r = Event::build(path.as_slice(), payload);
    proof {
        assert(path.deep_view() =~= prefix.deep_view() + at_path.deep_view());
    }
    r
}

/// Create a state-change event for an already-serialized payload.
pub fn make_state_change(path: &[String], payload: &str) -> (r: Event)
    ensures
        r@.path == path.deep_view(),
        r@.payload == Some(payload@),
{
    Event::build(path, Some(payload))
}

/// A state-change event for the `model` component of the sketch.
pub fn mk_model_state_change(at_path: &[String], payload: &str) -> (r: Event)
    ensures
        r@.path == seq!["sketch"@, "model"@] + at_path.deep_view(),
        r@.payload == Some(payload@),
{
    let prefix: [&str; 2] = ["sketch", "model"];
    let ps = prefix.as_slice();
    let r = make_prefixed_event(ps, at_path, Some(payload));
    proof {
        assert(ps.deep_view() =~= seq!["sketch"@, "model"@]);
    }
    r
}

/// A state-change event for the `observations` component of the sketch.
pub fn mk_obs_state_change(at_path: &[String], payload: &str) -> (r: Event)
    ensures
        r@.path == seq!["sketch"@, "observations"@] + at_path.deep_view(),
        r@.payload == Some(payload@),
{
    let prefix: [&str; 2] = ["sketch", "observations"];
    let ps = prefix.as_slice();
    let r = make_prefixed_event(ps, at_path, Some(payload));
    proof {
        assert(ps.deep_view() =~= seq!["sketch"@, "observations"@]);
    }
    r
}

/// A state-change event for the dynamic-properties component of the sketch.
pub fn mk_dyn_prop_state_change(at_path: &[String], payload: &str) -> (r: Event)
    ensures
        r@.path == seq!["sketch"@, "properties"@, "dynamic"@] + at_path.deep_view(),
        r@.payload == Some(payload@),
{
    let prefix: [&str; 3] = ["sketch", "properties", "dynamic"];
    let ps = prefix.as_slice();
    let r = make_prefixed_event(ps, at_path, Some(payload));
    proof {
        assert(ps.deep_view() =~= seq!["sketch"@, "properties"@, "dynamic"@]);
    }
    r
}

/// A state-change event for the static-properties component of the sketch.
pub fn mk_stat_prop_state_change(at_path: &[String], payload: &str) -> (r: Event)
    ensures
        r@.path == seq!["sketch"@, "properties"@, "static"@] + at_path.deep_view(),
        r@.payload == Some(payload@),
{
    let prefix: [&str; 3] = ["sketch", "properties", "static"];
    let ps = prefix.as_slice();
    let r = make_prefixed_event(ps, at_path, Some(payload));
    proof {
        assert(ps.deep_view() =~= seq!["sketch"@, "properties"@, "static"@]);
    }
    r
}

/// An action event for the `model` component of the sketch.
pub fn mk_model_event(at_path: &[String], payload: Option<&str>) -> (r: Event)
    ensures
        r@.path == seq!["sketch"@, "model"@] + at_path.deep_view(),
        r@.payload == match payload {
            Some(p) => Some(p@),
            None => None::<Seq<char>>,
        },
{
    let prefix: [&str; 2] = ["sketch", "model"];
    let ps = prefix.as_slice();
    let r = make_prefixed_event(ps, at_path, payload);
    proof {
        assert(ps.deep_view() =~= seq!["sketch"@, "model"@]);
    }
    r
}

/// An action event for the `observations` component of the sketch.
pub fn mk_obs_event(at_path: &[String], payload: Option<&str>) -> (r: Event)
    ensures
        r@.path == seq!["sketch"@, "observations"@] + at_path.deep_view(),
        r@.payload == match payload {
            Some(p) => Some(p@),
            None => None::<Seq<char>>,
        },
{
    let prefix: [&str; 2] = ["sketch", "observations"];
    let ps = prefix.as_slice();
    let r = make_prefixed_event(ps, at_path, payload);
    proof {
        assert(ps.deep_view() =~= seq!["sketch"@, "observations"@]);
    }
    r
}

/// An action event for the dynamic-properties component of the sketch.
pub fn mk_dyn_prop_event(at_path: &[String], payload: Option<&str>) -> (r: Event)
    ensures
        r@.path == seq!["sketch"@, "properties"@, "dynamic"@] + at_path.deep_view(),
        r@.payload == match payload {
            Some(p) => Some(p@),
            None => None::<Seq<char>>,
        },
{
    let prefix: [&str; 3] = ["sketch", "properties", "dynamic"];
    let ps = prefix.as_slice();
    let r = make_prefixed_event(ps, at_path, payload);
    proof {
        assert(ps.deep_view() =~= seq!["sketch"@, "properties"@, "dynamic"@]);
    }
    r
}

/// An action event for the static-properties component of the sketch.
pub fn mk_stat_prop_event(at_path: &[String], payload: Option<&str>) -> (r: Event)
    ensures
        r@.path == seq!["sketch"@, "properties"@, "static"@] + at_path.deep_view(),
        r@.payload == match payload {
            Some(p) => Some(p@),
            None => None::<Seq<char>>,
        },
{
    let prefix: [&str; 3] = ["sketch", "properties", "static"];
    let ps = prefix.as_slice();
    let r = make_prefixed_event(ps, at_path, payload);
    proof {
        assert(ps.deep_view() =~= seq!["sketch"@, "properties"@, "static"@]);
    }
    r
}

} // verus!
