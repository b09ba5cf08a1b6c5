//! The model component's event protocol: consuming addressed mutating
//! actions, synthesizing exact reverse actions, and decomposing cascading
//! removals into primitive sub-actions.
//!
//! Every outcome of [`ModelState::perform_event`] is pinned, at the view
//! level, by the spec transition [`spec_perform`]: the new state, the tag of
//! the outcome, and the exact paths and payloads of the synthesized events.

use vstd::prelude::*;
use crate::consumed::{Consumed, ConsumedView};
use crate::data_structs::{LayoutNodeData, RegulationData, VariableData, spec_change_essential_json,
    spec_change_mono_json, spec_layout_node_data_json, spec_parse_change_essential,
    spec_parse_change_mono, spec_parse_layout_node_data, spec_parse_regulation_data,
    spec_parse_variable_data, spec_regulation_data_json, spec_variable_data_json,
    ChangeArgEssentialData, ChangeArgMonotoneData};
use crate::events::{Event, EventView};
use crate::ids::{VarId, LayoutId, is_valid_id};
use crate::model::{ModelState, ModelV, RegV, default_position, layouts_add_node,
    layouts_move_node, layouts_remove_node, node_at_default, references_var, regs_referencing,
    spec_reg_key};
use crate::table::{lemma_get_some_contains, tbl_contains, tbl_get, tbl_insert, tbl_remove, tbl_update};
use crate::text::str_eq;

verus! {

/// An event without payload.
pub open spec fn ev_plain(path: Seq<Seq<char>>) -> EventView {
    EventView { path: path, payload: None }
}

/// An event with a payload.
pub open spec fn ev_payload(path: Seq<Seq<char>>, payload: Seq<char>) -> EventView {
    EventView { path: path, payload: Some(payload) }
}

/// The state-change event broadcast for a consumed action: the action's
/// path (with the component's own segment restored) and its payload.
pub open spec fn spec_state_change(ev: EventView, at: Seq<Seq<char>>) -> EventView {
    EventView { path: seq!["model"@] + at, payload: ev.payload }
}

/// Reposition events for every layout whose node for `id` is away from the
/// default position.
pub open spec fn reposition_events(
    ls: Seq<(Seq<char>, crate::model::LayoutV)>,
    id: Seq<char>,
) -> Seq<EventView>
    decreases ls.len(),
{
    if ls.len() == 0 {
        Seq::empty()
    } else {
        let rest = reposition_events(ls.drop_first(), id);
        if tbl_get(ls.first().1.1, id) == Some(default_position()) {
            rest
        } else {
            seq![
                ev_payload(
                    seq!["model"@, "layout"@, ls.first().0, "update_position"@],
                    spec_layout_node_data_json(ls.first().0, id, "0"@, "0"@),
                ),
            ] + rest
        }
    }
}

/// The ordered primitive sub-actions a cascading variable removal
/// decomposes into: remove every referencing regulation, reset every
/// out-of-place node, then remove the now-plain variable.
pub open spec fn spec_removal_plan(m: ModelV, id: Seq<char>) -> Seq<EventView> {
    regs_referencing(m.regulations, id).map_values(
        |v: RegV| ev_plain(seq!["model"@, "regulation"@, v.0, v.1, "remove"@]),
    ) + reposition_events(m.layouts, id) + seq![
        ev_plain(seq!["model"@, "variable"@, id, "remove"@]),
    ]
}

/// The transition for `variable` actions.
pub open spec fn spec_variable_transition(m: ModelV, ev: EventView, at: Seq<Seq<char>>) -> Option<
    (ModelV, ConsumedView),
> {
    if at.len() == 2 && at[1] == "add"@ {
        match ev.payload {
            Some(p) => match spec_parse_variable_data(p) {
                Some((id, name, ufn)) => {
                    if is_valid_id(id) && !tbl_contains(m.variables, id) {
                        let m1 = ModelV {
                            variables: tbl_insert(m.variables, id, (name, ufn)),
                            layouts: layouts_add_node(m.layouts, id),
                            ..m
                        };
                        Some(
                            (
                                m1,
                                ConsumedView::Reversible {
                                    state_change: spec_state_change(ev, at),
                                    perform: ev,
                                    reverse: ev_plain(seq!["model"@, "variable"@, id, "remove"@]),
                                },
                            ),
                        )
                    } else {
                        None
                    }
                },
                None => None,
            },
            None => None,
        }
    } else if at.len() == 3 && at[2] == "remove"@ {
        let id = at[1];
        if !tbl_contains(m.variables, id) {
            None
        } else if !references_var(m.regulations, id) && node_at_default(m.layouts, id) {
            match tbl_get(m.variables, id) {
                Some(v) => {
                    let m1 = ModelV {
                        variables: tbl_remove(m.variables, id),
                        layouts: layouts_remove_node(m.layouts, id),
                        ..m
                    };
                    Some(
                        (
                            m1,
                            ConsumedView::Reversible {
                                state_change: spec_state_change(ev, at),
                                perform: ev,
                                reverse: ev_payload(
                                    seq!["model"@, "variable"@, "add"@],
                                    spec_variable_data_json(id, v.0, v.1),
                                ),
                            },
                        ),
                    )
                },
                None => None,
            }
        } else {
            Some((m, ConsumedView::Restart { sub_events: spec_removal_plan(m, id) }))
        }
    } else if at.len() == 3 && at[2] == "set_name"@ {
        let id = at[1];
        match ev.payload {
            Some(new_name) => match tbl_get(m.variables, id) {
                Some(v) => {
                    let m1 = ModelV {
                        variables: tbl_update(m.variables, id, (new_name, v.1)),
                        ..m
                    };
                    Some(
                        (
                            m1,
                            ConsumedView::Reversible {
                                state_change: spec_state_change(ev, at),
                                perform: ev,
                                reverse: ev_payload(
                                    seq!["model"@, "variable"@, id, "set_name"@],
                                    v.0,
                                ),
                            },
                        ),
                    )
                },
                None => None,
            },
            None => None,
        }
    } else if at.len() == 3 && at[2] == "set_id"@ {
        let id = at[1];
        match ev.payload {
            Some(new_id) => {
                if tbl_contains(m.variables, id) && is_valid_id(new_id) && !tbl_contains(
                    m.variables,
                    new_id,
                ) && !references_var(m.regulations, id) {
                    match tbl_get(m.variables, id) {
                        Some(v) => {
                            let m1 = ModelV {
                                variables: tbl_insert(tbl_remove(m.variables, id), new_id, v),
                                layouts: layouts_move_node(m.layouts, id, new_id),
                                ..m
                            };
                            Some(
                                (
                                    m1,
                                    ConsumedView::Reversible {
                                        state_change: spec_state_change(ev, at),
                                        perform: ev,
                                        reverse: ev_payload(
                                            seq!["model"@, "variable"@, new_id, "set_id"@],
                                            id,
                                        ),
                                    },
                                ),
                            )
                        },
                        None => None,
                    }
                } else {
                    None
                }
            },
            None => None,
        }
    } else if at.len() == 3 && at[2] == "set_update_fn"@ {
        let id = at[1];
        match ev.payload {
            Some(expr) => match tbl_get(m.variables, id) {
                Some(v) => {
                    let m1 = ModelV { variables: tbl_update(m.variables, id, (v.0, expr)), ..m };
                    Some(
                        (
                            m1,
                            ConsumedView::Reversible {
                                state_change: spec_state_change(ev, at),
                                perform: ev,
                                reverse: ev_payload(
                                    seq!["model"@, "variable"@, id, "set_update_fn"@],
                                    v.1,
                                ),
                            },
                        ),
                    )
                },
                None => None,
            },
            None => None,
        }
    } else {
        None
    }
}

/// The transition for `regulation` actions.
pub open spec fn spec_regulation_transition(m: ModelV, ev: EventView, at: Seq<Seq<char>>) -> Option<
    (ModelV, ConsumedView),
> {
    if at.len() == 2 && at[1] == "add"@ {
        match ev.payload {
            Some(p) => match spec_parse_regulation_data(p) {
                Some((r, t, sign, obs)) => {
                    if is_valid_id(r) && is_valid_id(t) && tbl_contains(m.variables, r)
                        && tbl_contains(m.variables, t) && !tbl_contains(
                        m.regulations,
                        spec_reg_key(r, t),
                    ) {
                        let m1 = ModelV {
                            regulations: tbl_insert(
                                m.regulations,
                                spec_reg_key(r, t),
                                (r, t, sign, obs),
                            ),
                            ..m
                        };
                        Some(
                            (
                                m1,
                                ConsumedView::Reversible {
                                    state_change: spec_state_change(ev, at),
                                    perform: ev,
                                    reverse: ev_plain(
                                        seq!["model"@, "regulation"@, r, t, "remove"@],
                                    ),
                                },
                            ),
                        )
                    } else {
                        None
                    }
                },
                None => None,
            },
            None => None,
        }
    } else if at.len() == 4 && at[3] == "remove"@ {
        let r = at[1];
        let t = at[2];
        match tbl_get(m.regulations, spec_reg_key(r, t)) {
            Some(v) => {
                let m1 = ModelV {
                    regulations: tbl_remove(m.regulations, spec_reg_key(r, t)),
                    ..m
                };
                Some(
                    (
                        m1,
                        ConsumedView::Reversible {
                            state_change: spec_state_change(ev, at),
                            perform: ev,
                            reverse: ev_payload(
                                seq!["model"@, "regulation"@, "add"@],
                                spec_regulation_data_json(v.0, v.1, v.2, v.3),
                            ),
                        },
                    ),
                )
            },
            None => None,
        }
    } else {
        None
    }
}

/// The transition for `layout` actions.
pub open spec fn spec_layout_transition(m: ModelV, ev: EventView, at: Seq<Seq<char>>) -> Option<
    (ModelV, ConsumedView),
> {
    if at.len() == 3 && at[2] == "update_position"@ {
        let lid = at[1];
        match ev.payload {
            Some(p) => match spec_parse_layout_node_data(p) {
                Some((_l, var, px, py)) => match tbl_get(m.layouts, lid) {
                    Some(l) => match tbl_get(l.1, var) {
                        Some(old_pos) => {
                            let m1 = ModelV {
                                layouts: tbl_update(
                                    m.layouts,
                                    lid,
                                    (l.0, tbl_update(l.1, var, (px, py))),
                                ),
                                ..m
                            };
                            Some(
                                (
                                    m1,
                                    ConsumedView::Reversible {
                                        state_change: spec_state_change(ev, at),
                                        perform: ev,
                                        reverse: ev_payload(
                                            seq!["model"@, "layout"@, lid, "update_position"@],
                                            spec_layout_node_data_json(
                                                lid,
                                                var,
                                                old_pos.0,
                                                old_pos.1,
                                            ),
                                        ),
                                    },
                                ),
                            )
                        },
                        None => None,
                    },
                    None => None,
                },
                None => None,
            },
            None => None,
        }
    } else {
        None
    }
}

/// The transition for `uninterpreted_fn` actions.
pub open spec fn spec_ufn_transition(m: ModelV, ev: EventView, at: Seq<Seq<char>>) -> Option<
    (ModelV, ConsumedView),
> {
    if at.len() == 3 && at[2] == "set_monotonicity"@ {
        let id = at[1];
        match ev.payload {
            Some(p) => match spec_parse_change_mono(p) {
                Some((idx, mono)) => match tbl_get(m.uninterpreted_fns, id) {
                    Some(f) => {
                        if idx < f.2.len() {
                            let m1 = ModelV {
                                uninterpreted_fns: tbl_update(
                                    m.uninterpreted_fns,
                                    id,
                                    (f.0, f.1, f.2.update(idx as int, mono), f.3, f.4),
                                ),
                                ..m
                            };
                            Some(
                                (
                                    m1,
                                    ConsumedView::Reversible {
                                        state_change: spec_state_change(ev, at),
                                        perform: ev,
                                        reverse: ev_payload(
                                            seq![
                                                "model"@,
                                                "uninterpreted_fn"@,
                                                id,
                                                "set_monotonicity"@,
                                            ],
                                            spec_change_mono_json(idx, f.2[idx as int]),
                                        ),
                                    },
                                ),
                            )
                        } else {
                            None
                        }
                    },
                    None => None,
                },
                None => None,
            },
            None => None,
        }
    } else if at.len() == 3 && at[2] == "set_essentiality"@ {
        let id = at[1];
        match ev.payload {
            Some(p) => match spec_parse_change_essential(p) {
                Some((idx, ess)) => match tbl_get(m.uninterpreted_fns, id) {
                    Some(f) => {
                        if idx < f.3.len() {
                            let m1 = ModelV {
                                uninterpreted_fns: tbl_update(
                                    m.uninterpreted_fns,
                                    id,
                                    (f.0, f.1, f.2, f.3.update(idx as int, ess), f.4),
                                ),
                                ..m
                            };
                            Some(
                                (
                                    m1,
                                    ConsumedView::Reversible {
                                        state_change: spec_state_change(ev, at),
                                        perform: ev,
                                        reverse: ev_payload(
                                            seq![
                                                "model"@,
                                                "uninterpreted_fn"@,
                                                id,
                                                "set_essentiality"@,
                                            ],
                                            spec_change_essential_json(idx, f.3[idx as int]),
                                        ),
                                    },
                                ),
                            )
                        } else {
                            None
                        }
                    },
                    None => None,
                },
                None => None,
            },
            None => None,
        }
    } else if at.len() == 3 && at[2] == "set_expression"@ {
        let id = at[1];
        match ev.payload {
            Some(expr) => match tbl_get(m.uninterpreted_fns, id) {
                Some(f) => {
                    let m1 = ModelV {
                        uninterpreted_fns: tbl_update(
                            m.uninterpreted_fns,
                            id,
                            (f.0, f.1, f.2, f.3, expr),
                        ),
                        ..m
                    };
                    Some(
                        (
                            m1,
                            ConsumedView::Reversible {
                                state_change: spec_state_change(ev, at),
                                perform: ev,
                                reverse: ev_payload(
                                    seq!["model"@, "uninterpreted_fn"@, id, "set_expression"@],
                                    f.4,
                                ),
                            },
                        ),
                    )
                },
                None => None,
            },
            None => None,
        }
    } else {
        None
    }
}

/// The whole transition: route by the first path segment.
pub open spec fn spec_perform(m: ModelV, ev: EventView, at: Seq<Seq<char>>) -> Option<
    (ModelV, ConsumedView),
> {
    if at.len() < 2 {
        None
    } else if at[0] == "variable"@ {
        spec_variable_transition(m, ev, at)
    } else if at[0] == "regulation"@ {
        spec_regulation_transition(m, ev, at)
    } else if at[0] == "layout"@ {
        spec_layout_transition(m, ev, at)
    } else if at[0] == "uninterpreted_fn"@ {
        spec_ufn_transition(m, ev, at)
    } else {
        None
    }
}

impl ModelState {
    /// Build the state-change event for a consumed action.
    fn make_state_change(event: &Event, at: &[String]) -> (r: Event)
        ensures
            r@ == spec_state_change(event@, at.deep_view()),
    {
        let mut path: Vec<String> = Vec::new();
        path.push(String::from_str("model"));
        let mut i: usize = 0;
        while i < at.len()
            invariant
                i <= at@.len(),
                path@.len() == i + 1,
                path@[0]@ == "model"@,
                forall|j: int| 1 <= j < i + 1 ==> (#[trigger] path@[j])@ == at@[j - 1]@,
            decreases at@.len() - i,
        {
            path.push(at[i].clone());
            i += 1;
        }
        let payload = match &event.payload {
            Some(p) => Some(p.clone()),
            None => None,
        };
        let r = Event { path, payload };
        proof {
            assert(r@.path =~= seq!["model"@] + at.deep_view());
            assert(r@ =~= spec_state_change(event@, at.deep_view()));
        }
        r
    }

    /// Build an event at `["model", a, b]`.
    fn make_event2(a: &str, b: &str, payload: Option<&str>) -> (r: Event)
        ensures
            r@.path == seq!["model"@, a@, b@],
            r@.payload == match payload {
                Some(p) => Some(p@),
                None => None::<Seq<char>>,
            },
    {
        let mut path: Vec<String> = Vec::new();
        path.push(String::from_str("model"));
        path.push(String::from_str(a));
        path.push(String::from_str(b));
        proof {
            assert(path.deep_view() =~= seq!["model"@, a@, b@]);
        }
        Event::build(path.as_slice(), payload)
    }

    /// Build an event at `["model", a, b, c]`.
    fn make_event3(a: &str, b: &str, c: &str, payload: Option<&str>) -> (r: Event)
        ensures
            r@.path == seq!["model"@, a@, b@, c@],
            r@.payload == match payload {
                Some(p) => Some(p@),
                None => None::<Seq<char>>,
            },
    {
        let mut path: Vec<String> = Vec::new();
        path.push(String::from_str("model"));
        path.push(String::from_str(a));
        path.push(String::from_str(b));
        path.push(String::from_str(c));
        proof {
            assert(path.deep_view() =~= seq!["model"@, a@, b@, c@]);
        }
        Event::build(path.as_slice(), payload)
    }

    /// Build an event at `["model", a, b, c, d]`.
    fn make_event4(a: &str, b: &str, c: &str, d: &str, payload: Option<&str>) -> (r: Event)
        ensures
            r@.path == seq!["model"@, a@, b@, c@, d@],
            r@.payload == match payload {
                Some(p) => Some(p@),
                None => None::<Seq<char>>,
            },
    {
        let mut path: Vec<String> = Vec::new();
        path.push(String::from_str("model"));
        path.push(String::from_str(a));
        path.push(String::from_str(b));
        path.push(String::from_str(c));
        path.push(String::from_str(d));
        proof {
            assert(path.deep_view() =~= seq!["model"@, a@, b@, c@, d@]);
        }
        Event::build(path.as_slice(), payload)
    }

    /// Consume a `variable` action.
    fn consume_variable_event(&mut self, event: &Event, at_path: &[String]) -> (r: Result<
        Consumed,
        String,
    >)
        requires
            old(self).wf(),
            at_path@.len() >= 2,
        ensures
            final(self).wf(),
            match r {
                Ok(c) => spec_variable_transition(old(self)@, event@, at_path.deep_view()) == Some(
                    (final(self)@, c@),
                ),
                Err(_) => spec_variable_transition(old(self)@, event@, at_path.deep_view()) is None
                    && *final(self) == *old(self),
            },
    {
        let ghost at = at_path.deep_view();
        proof {
            assert(at[1] == at_path@[1]@);
            assert(at.len() == at_path@.len());
            if at.len() >= 3 {
                assert(at[2] == at_path@[2]@);
            }
        }
        if at_path.len() == 2 && str_eq(at_path[1].as_str(), "add") {
            let payload = match &event.payload {
                Some(p) => p,
                None => {
                    return Err(String::from_str("an add action needs a payload"));
                },
            };
            let data = match VariableData::from_json_str(payload.as_str()) {
                Some(d) => d,
                None => {
                    return Err(String::from_str("malformed variable payload"));
                },
            };
            let vid = match VarId::new(data.id.as_str()) {
                Ok(v) => v,
                Err(e) => {
                    return Err(e);
                },
            };
            let ghost m0 = self@;
            match self.add_var_full(vid, data.name.as_str(), data.update_fn.as_str()) {
                Ok(_) => {},
                Err(e) => {
                    return Err(e);
                },
            }
            let state_change = Self::make_state_change(event, at_path);
            let reverse = Self::make_event3("variable", data.id.as_str(), "remove", None);
            let c = Consumed::Reversible {
                state_change,
                perform_reverse: (event.duplicate(), reverse),
            };
            proof {
                let ghost_m1 = ModelV {
                    variables: tbl_insert(m0.variables, data.id@, (data.name@, data.update_fn@)),
                    layouts: layouts_add_node(m0.layouts, data.id@),
                    ..m0
                };
                assert(self@ =~= ghost_m1);
                assert(reverse@ =~= ev_plain(seq!["model"@, "variable"@, data.id@, "remove"@]));
            }
            return Ok(c);
        }
        if at_path.len() == 3 && str_eq(at_path[2].as_str(), "remove") {
            let id = at_path[1].as_str();
            if !self.variables.contains_key(id) {
                return Err(String::from_str("no such variable"));
            }
            let referenced = self.has_regulation_of(id);
            let at_default = self.nodes_all_default(id);
            if !referenced && at_default {
                let ghost m0 = self@;
                let info = match self.remove_var(id) {
                    Ok(info) => info,
                    Err(e) => {
                        proof {
                            assert(false);
                        }
                        return Err(e);
                    },
                };
                let vid = VarId { id: String::from_str(id) };
                let data = VariableData::from_var(&vid, &info.variable, &info.update_fn);
                let payload = data.to_json_str();
                let state_change = Self::make_state_change(event, at_path);
                let reverse = Self::make_event2("variable", "add", Some(payload.as_str()));
                let c = Consumed::Reversible {
                    state_change,
                    perform_reverse: (event.duplicate(), reverse),
                };
                proof {
                    let ghost_m1 = ModelV {
                        variables: tbl_remove(m0.variables, at[1]),
                        layouts: layouts_remove_node(m0.layouts, at[1]),
                        ..m0
                    };
                    assert(self@ =~= ghost_m1);
                    assert(reverse@ =~= ev_payload(
                        seq!["model"@, "variable"@, "add"@],
                        spec_variable_data_json(
                            at[1],
                            tbl_get(m0.variables, at[1])->Some_0.0,
                            tbl_get(m0.variables, at[1])->Some_0.1,
                        ),
                    ));
                }
                return Ok(c);
            }
            // The removal cascades: emit the ordered plan instead of
            // mutating anything.
            let subs = self.build_removal_plan(id);
            let c = Consumed::Restart { sub_events: subs };
            return Ok(c);
        }
        if at_path.len() == 3 && str_eq(at_path[2].as_str(), "set_name") {
            let payload = match &event.payload {
                Some(p) => p,
                None => {
                    return Err(String::from_str("a rename action needs a payload"));
                },
            };
            let id = at_path[1].as_str();
            let ghost m0 = self@;
            let old_name = match self.set_var_name(id, payload.as_str()) {
                Ok(v) => v,
                Err(e) => {
                    proof {
                        match tbl_get(m0.variables, at[1]) {
                            Some(v) => lemma_get_some_contains(m0.variables, at[1], v),
                            None => {},
                        }
                    }
                    return Err(e);
                },
            };
            let state_change = Self::make_state_change(event, at_path);
            let reverse = Self::make_event3("variable", id, "set_name", Some(old_name.as_str()));
            let c = Consumed::Reversible {
                state_change,
                perform_reverse: (event.duplicate(), reverse),
            };
            proof {
                let v = tbl_get(m0.variables, at[1])->Some_0;
                let ghost_m1 = ModelV {
                    variables: tbl_update(m0.variables, at[1], (payload@, v.1)),
                    ..m0
                };
                assert(self@ =~= ghost_m1);
                assert(reverse@ =~= ev_payload(
                    seq!["model"@, "variable"@, at[1], "set_name"@],
                    v.0,
                ));
            }
            return Ok(c);
        }
        if at_path.len() == 3 && str_eq(at_path[2].as_str(), "set_id") {
            let payload = match &event.payload {
                Some(p) => p,
                None => {
                    return Err(String::from_str("an id change needs a payload"));
                },
            };
            let orig = VarId { id: String::from_str(at_path[1].as_str()) };
            let new_vid = match VarId::new(payload.as_str()) {
                Ok(v) => v,
                Err(e) => {
                    return Err(e);
                },
            };
            let ghost m0 = self@;
            match self.set_var_id(&orig, new_vid) {
                Ok(_) => {},
                Err(e) => {
                    return Err(e);
                },
            }
            let state_change = Self::make_state_change(event, at_path);
            let reverse = Self::make_event3(
                "variable",
                payload.as_str(),
                "set_id",
                Some(at_path[1].as_str()),
            );
            let c = Consumed::Reversible {
                state_change,
                perform_reverse: (event.duplicate(), reverse),
            };
            proof {
                let v = tbl_get(m0.variables, at[1])->Some_0;
                lemma_get_some_contains(m0.variables, at[1], v);
                let ghost_m1 = ModelV {
                    variables: tbl_insert(tbl_remove(m0.variables, at[1]), payload@, v),
                    layouts: layouts_move_node(m0.layouts, at[1], payload@),
                    ..m0
                };
                assert(self@ =~= ghost_m1);
                assert(reverse@ =~= ev_payload(
                    seq!["model"@, "variable"@, payload@, "set_id"@],
                    at[1],
                ));
            }
            return Ok(c);
        }
        if at_path.len() == 3 && str_eq(at_path[2].as_str(), "set_update_fn") {
            let payload = match &event.payload {
                Some(p) => p,
                None => {
                    return Err(String::from_str("an update-function change needs a payload"));
                },
            };
            let id = at_path[1].as_str();
            let ghost m0 = self@;
            let old_expr = match self.set_update_fn(id, payload.as_str()) {
                Ok(v) => v,
                Err(e) => {
                    proof {
                        match tbl_get(m0.variables, at[1]) {
                            Some(v) => lemma_get_some_contains(m0.variables, at[1], v),
                            None => {},
                        }
                    }
                    return Err(e);
                },
            };
            let state_change = Self::make_state_change(event, at_path);
            let reverse = Self::make_event3(
                "variable",
                id,
                "set_update_fn",
                Some(old_expr.as_str()),
            );
            let c = Consumed::Reversible {
                state_change,
                perform_reverse: (event.duplicate(), reverse),
            };
            proof {
                let v = tbl_get(m0.variables, at[1])->Some_0;
                let ghost_m1 = ModelV {
                    variables: tbl_update(m0.variables, at[1], (v.0, payload@)),
                    ..m0
                };
                assert(self@ =~= ghost_m1);
                assert(reverse@ =~= ev_payload(
                    seq!["model"@, "variable"@, at[1], "set_update_fn"@],
                    v.1,
                ));
            }
            return Ok(c);
        }
        Err(String::from_str("the variable component cannot consume this path"))
    }

    /// Build the ordered sub-action plan for a cascading removal of `id`.
    fn build_removal_plan(&self, id: &str) -> (r: Vec<Event>)
        ensures
            r.deep_view() == spec_removal_plan(self@, id@),
    {
        let ghost m = self@;
        let regs = self.regulations_of(id);
        let ghost part1 = regs_referencing(m.regulations, id@).map_values(
            |v: RegV| ev_plain(seq!["model"@, "regulation"@, v.0, v.1, "remove"@]),
        );
        let mut subs: Vec<Event> = Vec::new();
        let rn = regs.len();
        let mut i: usize = 0;
        while i < rn
            invariant
                i <= rn,
                rn == regs@.len(),
                regs@.map_values(|g: crate::entities::Regulation| g@) == regs_referencing(
                    m.regulations,
                    id@,
                ),
                part1 == regs_referencing(m.regulations, id@).map_values(
                    |v: RegV| ev_plain(seq!["model"@, "regulation"@, v.0, v.1, "remove"@]),
                ),
                subs.deep_view().len() == i,
                forall|j: int| 0 <= j < i ==> subs.deep_view()[j] == part1[j],
            decreases rn - i,
        {
            proof {
                assert(regs@.map_values(|g: crate::entities::Regulation| g@)[i as int]
                    == regs@[i as int]@);
            }
            let g = &regs[i];
            let e = Self::make_event4(
                "regulation",
                g.regulator.as_str(),
                g.target.as_str(),
                "remove",
                None,
            );
            proof {
                let rv = regs_referencing(m.regulations, id@)[i as int];
                assert(rv == regs@[i as int]@);
                assert(e@ =~= ev_plain(seq!["model"@, "regulation"@, rv.0, rv.1, "remove"@]));
                assert(part1[i as int] == ev_plain(seq![
                    "model"@,
                    "regulation"@,
                    rv.0,
                    rv.1,
                    "remove"@,
                ]));
            }
            subs.push(e);
            i += 1;
        }
        proof {
            assert(subs.deep_view() =~= part1);
        }
        // Reposition events for out-of-place nodes.
        let ghost ls = m.layouts;
        let ghost p1len = part1.len();
        let n = self.layouts.entries.len();
        let mut j: usize = 0;
        proof {
            reveal_strlit("0");
            assert(ls.skip(0) =~= ls);
            assert(subs.deep_view() + reposition_events(ls.skip(0), id@) =~= part1
                + reposition_events(ls, id@));
        }
        while j < n
            invariant
                j <= n,
                n == self.layouts.entries@.len(),
                n == ls.len(),
                ls == self@.layouts,
                part1 + reposition_events(ls, id@) =~= subs.deep_view() + reposition_events(
                    ls.skip(j as int),
                    id@,
                ),
            decreases n - j,
        {
            proof {
                assert(ls[j as int] == self.layouts.entries@[j as int]@);
                assert(ls.skip(j as int).first() == ls[j as int]);
                assert(ls.skip(j as int).drop_first() =~= ls.skip(j as int + 1));
            }
            let entry = &self.layouts.entries[j];
            let is_default = match entry.val.nodes.get(id) {
                Some(p) => str_eq(p.0.as_str(), "0") && str_eq(p.1.as_str(), "0"),
                None => false,
            };
            if !is_default {
                proof {
                    assert(tbl_get(ls[j as int].1.1, id@) != Some(default_position()));
                }
                let data = LayoutNodeData::new(entry.key.as_str(), id, "0", "0");
                let payload = data.to_json_str();
                let e = Self::make_event3(
                    "layout",
                    entry.key.as_str(),
                    "update_position",
                    Some(payload.as_str()),
                );
                let ghost pre = subs.deep_view();
                subs.push(e);
                proof {
                    assert(e@ =~= ev_payload(
                        seq!["model"@, "layout"@, ls[j as int].0, "update_position"@],
                        spec_layout_node_data_json(ls[j as int].0, id@, "0"@, "0"@),
                    ));
                    assert(subs.deep_view() =~= pre.push(e@));
                    assert(reposition_events(ls.skip(j as int), id@) == seq![e@]
                        + reposition_events(ls.skip(j as int + 1), id@));
                    assert(pre + (seq![e@] + reposition_events(ls.skip(j as int + 1), id@))
                        =~= subs.deep_view() + reposition_events(ls.skip(j as int + 1), id@));
                }
            } else {
                proof {
                    assert(tbl_get(ls[j as int].1.1, id@) == Some(default_position()));
                    assert(reposition_events(ls.skip(j as int), id@) == reposition_events(
                        ls.skip(j as int + 1),
                        id@,
                    ));
                }
            }
            j += 1;
        }
        proof {
            assert(ls.skip(n as int).len() == 0);
            assert(reposition_events(ls.skip(n as int), id@) =~= Seq::<EventView>::empty());
            assert(subs.deep_view() + Seq::<EventView>::empty() =~= subs.deep_view());
            assert(subs.deep_view() =~= part1 + reposition_events(ls, id@));
        }
        let final_event = Self::make_event3("variable", id, "remove", None);
        let ghost pre = subs.deep_view();
        subs.push(final_event);
        proof {
            assert(final_event@ =~= ev_plain(seq!["model"@, "variable"@, id@, "remove"@]));
            assert(subs.deep_view() =~= pre.push(final_event@));
            assert(subs.deep_view() =~= (part1 + reposition_events(ls, id@)) + seq![
                ev_plain(seq!["model"@, "variable"@, id@, "remove"@]),
            ]);
            assert(subs.deep_view() =~= spec_removal_plan(m, id@));
        }
        subs
    }

    /// Consume a `regulation` action.
    fn consume_regulation_event(&mut self, event: &Event, at_path: &[String]) -> (r: Result<
        Consumed,
        String,
    >)
        requires
            old(self).wf(),
            at_path@.len() >= 2,
        ensures
            final(self).wf(),
            match r {
                Ok(c) => spec_regulation_transition(old(self)@, event@, at_path.deep_view())
                    == Some((final(self)@, c@)),
                Err(_) => spec_regulation_transition(old(self)@, event@, at_path.deep_view())
                    is None && *final(self) == *old(self),
            },
    {
        let ghost at = at_path.deep_view();
        proof {
            assert(at[1] == at_path@[1]@);
            assert(at.len() == at_path@.len());
            if at.len() >= 3 {
                assert(at[2] == at_path@[2]@);
            }
            if at.len() >= 4 {
                assert(at[3] == at_path@[3]@);
            }
        }
        if at_path.len() == 2 && str_eq(at_path[1].as_str(), "add") {
            let payload = match &event.payload {
                Some(p) => p,
                None => {
                    return Err(String::from_str("an add action needs a payload"));
                },
            };
            let data = match RegulationData::from_json_str(payload.as_str()) {
                Some(d) => d,
                None => {
                    return Err(String::from_str("malformed regulation payload"));
                },
            };
            let ghost m0 = self@;
            match self.add_regulation(
                data.regulator.as_str(),
                data.target.as_str(),
                data.sign,
                data.observable,
            ) {
                Ok(_) => {},
                Err(e) => {
                    return Err(e);
                },
            }
            let state_change = Self::make_state_change(event, at_path);
            let reverse = Self::make_event4(
                "regulation",
                data.regulator.as_str(),
                data.target.as_str(),
                "remove",
                None,
            );
            let c = Consumed::Reversible {
                state_change,
                perform_reverse: (event.duplicate(), reverse),
            };
            proof {
                let ghost_m1 = ModelV {
                    regulations: tbl_insert(
                        m0.regulations,
                        spec_reg_key(data.regulator@, data.target@),
                        (data.regulator@, data.target@, data.sign, data.observable),
                    ),
                    ..m0
                };
                assert(self@ =~= ghost_m1);
                assert(reverse@ =~= ev_plain(seq![
                    "model"@,
                    "regulation"@,
                    data.regulator@,
                    data.target@,
                    "remove"@,
                ]));
            }
            return Ok(c);
        }
        if at_path.len() == 4 && str_eq(at_path[3].as_str(), "remove") {
            let ghost m0 = self@;
            let reg = match self.remove_regulation(at_path[1].as_str(), at_path[2].as_str()) {
                Ok(reg) => reg,
                Err(e) => {
                    proof {
                        match tbl_get(m0.regulations, spec_reg_key(at[1], at[2])) {
                            Some(v) => lemma_get_some_contains(
                                m0.regulations,
                                spec_reg_key(at[1], at[2]),
                                v,
                            ),
                            None => {},
                        }
                    }
                    return Err(e);
                },
            };
            let data = RegulationData::from_reg(&reg);
            let payload = data.to_json_str();
            let state_change = Self::make_state_change(event, at_path);
            let reverse = Self::make_event2("regulation", "add", Some(payload.as_str()));
            let c = Consumed::Reversible {
                state_change,
                perform_reverse: (event.duplicate(), reverse),
            };
            proof {
                let v = tbl_get(m0.regulations, spec_reg_key(at[1], at[2]))->Some_0;
                let ghost_m1 = ModelV {
                    regulations: tbl_remove(m0.regulations, spec_reg_key(at[1], at[2])),
                    ..m0
                };
                assert(self@ =~= ghost_m1);
                assert(reverse@ =~= ev_payload(
                    seq!["model"@, "regulation"@, "add"@],
                    spec_regulation_data_json(v.0, v.1, v.2, v.3),
                ));
            }
            return Ok(c);
        }
        Err(String::from_str("the regulation component cannot consume this path"))
    }

    /// Consume a `layout` action.
    fn consume_layout_event(&mut self, event: &Event, at_path: &[String]) -> (r: Result<
        Consumed,
        String,
    >)
        requires
            old(self).wf(),
            at_path@.len() >= 2,
        ensures
            final(self).wf(),
            match r {
                Ok(c) => spec_layout_transition(old(self)@, event@, at_path.deep_view()) == Some(
                    (final(self)@, c@),
                ),
                Err(_) => spec_layout_transition(old(self)@, event@, at_path.deep_view()) is None
                    && *final(self) == *old(self),
            },
    {
        let ghost at = at_path.deep_view();
        proof {
            assert(at[1] == at_path@[1]@);
            assert(at.len() == at_path@.len());
            if at.len() >= 3 {
                assert(at[2] == at_path@[2]@);
            }
        }
        if at_path.len() == 3 && str_eq(at_path[2].as_str(), "update_position") {
            let payload = match &event.payload {
                Some(p) => p,
                None => {
                    return Err(String::from_str("a reposition action needs a payload"));
                },
            };
            let data = match LayoutNodeData::from_json_str(payload.as_str()) {
                Some(d) => d,
                None => {
                    return Err(String::from_str("malformed layout node payload"));
                },
            };
            let lid = LayoutId { id: String::from_str(at_path[1].as_str()) };
            let var = VarId { id: data.variable.clone() };
            let ghost m0 = self@;
            let old_pos = match self.update_node_position(
                &lid,
                &var,
                data.px.as_str(),
                data.py.as_str(),
            ) {
                Ok(p) => p,
                Err(e) => {
                    return Err(e);
                },
            };
            let rev_data = LayoutNodeData::new(
                at_path[1].as_str(),
                data.variable.as_str(),
                old_pos.0.as_str(),
                old_pos.1.as_str(),
            );
            let rev_payload = rev_data.to_json_str();
            let state_change = Self::make_state_change(event, at_path);
            let reverse = Self::make_event3(
                "layout",
                at_path[1].as_str(),
                "update_position",
                Some(rev_payload.as_str()),
            );
            let c = Consumed::Reversible {
                state_change,
                perform_reverse: (event.duplicate(), reverse),
            };
            proof {
                let l = tbl_get(m0.layouts, at[1])->Some_0;
                let ghost_m1 = ModelV {
                    layouts: tbl_update(
                        m0.layouts,
                        at[1],
                        (l.0, tbl_update(l.1, data.variable@, (data.px@, data.py@))),
                    ),
                    ..m0
                };
                assert(self@ =~= ghost_m1);
                let old_v = tbl_get(l.1, data.variable@)->Some_0;
                assert(reverse@ =~= ev_payload(
                    seq!["model"@, "layout"@, at[1], "update_position"@],
                    spec_layout_node_data_json(at[1], data.variable@, old_v.0, old_v.1),
                ));
            }
            return Ok(c);
        }
        Err(String::from_str("the layout component cannot consume this path"))
    }

    /// Consume an `uninterpreted_fn` action.
    fn consume_uninterpreted_fn_event(&mut self, event: &Event, at_path: &[String]) -> (r: Result<
        Consumed,
        String,
    >)
        requires
            old(self).wf(),
            at_path@.len() >= 2,
        ensures
            final(self).wf(),
            match r {
                Ok(c) => spec_ufn_transition(old(self)@, event@, at_path.deep_view()) == Some(
                    (final(self)@, c@),
                ),
                Err(_) => spec_ufn_transition(old(self)@, event@, at_path.deep_view()) is None
                    && *final(self) == *old(self),
            },
    {
        let ghost at = at_path.deep_view();
        proof {
            assert(at[1] == at_path@[1]@);
            assert(at.len() == at_path@.len());
            if at.len() >= 3 {
                assert(at[2] == at_path@[2]@);
            }
        }
        if at_path.len() == 3 && str_eq(at_path[2].as_str(), "set_monotonicity") {
            let payload = match &event.payload {
                Some(p) => p,
                None => {
                    return Err(String::from_str("a monotonicity change needs a payload"));
                },
            };
            let data = match ChangeArgMonotoneData::from_json_str(payload.as_str()) {
                Some(d) => d,
                None => {
                    return Err(String::from_str("malformed monotonicity payload"));
                },
            };
            let id = at_path[1].as_str();
            let ghost m0 = self@;
            let old_m = match self.set_fn_monotonicity(id, data.idx, data.monotonicity) {
                Ok(v) => v,
                Err(e) => {
                    return Err(e);
                },
            };
            let rev_payload = ChangeArgMonotoneData::new(data.idx, old_m).to_json_str();
            let state_change = Self::make_state_change(event, at_path);
            let reverse = Self::make_event3(
                "uninterpreted_fn",
                id,
                "set_monotonicity",
                Some(rev_payload.as_str()),
            );
            let c = Consumed::Reversible {
                state_change,
                perform_reverse: (event.duplicate(), reverse),
            };
            proof {
                let f = tbl_get(m0.uninterpreted_fns, at[1])->Some_0;
                let ghost_m1 = ModelV {
                    uninterpreted_fns: tbl_update(
                        m0.uninterpreted_fns,
                        at[1],
                        (f.0, f.1, f.2.update(data.idx as int, data.monotonicity), f.3, f.4),
                    ),
                    ..m0
                };
                assert(self@ =~= ghost_m1);
                assert(reverse@ =~= ev_payload(
                    seq!["model"@, "uninterpreted_fn"@, at[1], "set_monotonicity"@],
                    spec_change_mono_json(data.idx, f.2[data.idx as int]),
                ));
            }
            return Ok(c);
        }
        if at_path.len() == 3 && str_eq(at_path[2].as_str(), "set_essentiality") {
            let payload = match &event.payload {
                Some(p) => p,
                None => {
                    return Err(String::from_str("an essentiality change needs a payload"));
                },
            };
            let data = match ChangeArgEssentialData::from_json_str(payload.as_str()) {
                Some(d) => d,
                None => {
                    return Err(String::from_str("malformed essentiality payload"));
                },
            };
            let id = at_path[1].as_str();
            let ghost m0 = self@;
            let old_e = match self.set_fn_essentiality(id, data.idx, data.essentiality) {
                Ok(v) => v,
                Err(e) => {
                    return Err(e);
                },
            };
            let rev_payload = ChangeArgEssentialData::new(data.idx, old_e).to_json_str();
            let state_change = Self::make_state_change(event, at_path);
            let reverse = Self::make_event3(
                "uninterpreted_fn",
                id,
                "set_essentiality",
                Some(rev_payload.as_str()),
            );
            let c = Consumed::Reversible {
                state_change,
                perform_reverse: (event.duplicate(), reverse),
            };
            proof {
                let f = tbl_get(m0.uninterpreted_fns, at[1])->Some_0;
                let ghost_m1 = ModelV {
                    uninterpreted_fns: tbl_update(
                        m0.uninterpreted_fns,
                        at[1],
                        (f.0, f.1, f.2, f.3.update(data.idx as int, data.essentiality), f.4),
                    ),
                    ..m0
                };
                assert(self@ =~= ghost_m1);
                assert(reverse@ =~= ev_payload(
                    seq!["model"@, "uninterpreted_fn"@, at[1], "set_essentiality"@],
                    spec_change_essential_json(data.idx, f.3[data.idx as int]),
                ));
            }
            return Ok(c);
        }
        if at_path.len() == 3 && str_eq(at_path[2].as_str(), "set_expression") {
            let payload = match &event.payload {
                Some(p) => p,
                None => {
                    return Err(String::from_str("an expression change needs a payload"));
                },
            };
            let id = at_path[1].as_str();
            let ghost m0 = self@;
            let old_expr = match self.set_fn_expression(id, payload.as_str()) {
                Ok(v) => v,
                Err(e) => {
                    proof {
                        match tbl_get(m0.uninterpreted_fns, at[1]) {
                            Some(v) => lemma_get_some_contains(m0.uninterpreted_fns, at[1], v),
                            None => {},
                        }
                    }
                    return Err(e);
                },
            };
            let state_change = Self::make_state_change(event, at_path);
            let reverse = Self::make_event3(
                "uninterpreted_fn",
                id,
                "set_expression",
                Some(old_expr.as_str()),
            );
            let c = Consumed::Reversible {
                state_change,
                perform_reverse: (event.duplicate(), reverse),
            };
            proof {
                let f = tbl_get(m0.uninterpreted_fns, at[1])->Some_0;
                let ghost_m1 = ModelV {
                    uninterpreted_fns: tbl_update(
                        m0.uninterpreted_fns,
                        at[1],
                        (f.0, f.1, f.2, f.3, payload@),
                    ),
                    ..m0
                };
                assert(self@ =~= ghost_m1);
                assert(reverse@ =~= ev_payload(
                    seq!["model"@, "uninterpreted_fn"@, at[1], "set_expression"@],
                    f.4,
                ));
            }
            return Ok(c);
        }
        Err(String::from_str("the function component cannot consume this path"))
    }

    /// Consume one mutating action addressed below `model`. On success the
    /// outcome and the new state are exactly what [`spec_perform`] gives;
    /// on error the state is unchanged and `spec_perform` gives nothing.
    pub fn perform_event(&mut self, event: &Event, at_path: &[String]) -> (r: Result<
        Consumed,
        String,
    >)
        requires
            old(self).wf(),
        ensures
            final(self).wf(),
            match r {
                Ok(c) => spec_perform(old(self)@, event@, at_path.deep_view()) == Some(
                    (final(self)@, c@),
                ),
                Err(_) => spec_perform(old(self)@, event@, at_path.deep_view()) is None && *final(self) == *old(self),
            },
    {
        if at_path.len() < 2 {
            return Err(String::from_str("path is too short for the model component"));
        }
        proof {
            assert(at_path.deep_view()[0] == at_path@[0]@);
        }
        if str_eq(at_path[0].as_str(), "variable") {
            self.consume_variable_event(event, at_path)
        } else if str_eq(at_path[0].as_str(), "regulation") {
            self.consume_regulation_event(event, at_path)
        } else if str_eq(at_path[0].as_str(), "layout") {
            self.consume_layout_event(event, at_path)
        } else if str_eq(at_path[0].as_str(), "uninterpreted_fn") {
            self.consume_uninterpreted_fn_event(event, at_path)
        } else {
            Err(String::from_str("the model component cannot consume this path"))
        }
    }
}

impl crate::consumed::SessionState for ModelState {
    /// The model's well-formedness invariant.
    open spec fn inv(self) -> bool {
        self.wf()
    }

    /// Consume a mutating action; on error the state is unchanged.
    fn consume_event(&mut self, path: &[String], action: &Event) -> (r: Result<Consumed, String>) {
        self.perform_event(action, path)
    }

    /// Answer a read-only query.
    fn refresh(&self, full_path: &[String], at_path: &[String]) -> (r: Result<Event, String>) {
        ModelState::refresh(self, full_path, at_path)
    }
}

} // verus!
