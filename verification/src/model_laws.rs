//! The round-trip law of the model's event protocol: for every action that
//! the transition consumes reversibly, applying the synthesized reverse
//! action through the same dispatch path restores the state exactly.

use vstd::prelude::*;
use crate::consumed::ConsumedView;
use crate::data_structs::{lemma_change_essential_round_trip, lemma_change_mono_round_trip,
    lemma_layout_node_data_round_trip, lemma_regulation_data_round_trip,
    lemma_variable_data_round_trip};
use crate::events::EventView;
use crate::ids::is_valid_id;
use crate::model::{ModelV, default_position, layouts_add_node, layouts_move_node,
    layouts_remove_node, model_wf, move_node, node_at_default, references_var, spec_reg_key};
use crate::model_session::{spec_layout_transition, spec_perform, spec_regulation_transition,
    spec_ufn_transition, spec_variable_transition};
use crate::table::{lemma_contains_get_some, lemma_contains_index, lemma_get_index,
    lemma_get_some_contains, lemma_insert_props, lemma_insert_then_remove, lemma_remove_props,
    lemma_remove_then_insert, lemma_update_len, lemma_update_props, lemma_update_then_update,
    tbl_contains, tbl_get, tbl_insert, tbl_remove, tbl_sorted, tbl_update};

verus! {

/// In a well-formed model, every stored variable key is a valid identifier.
proof fn lemma_wf_contained_id_valid(m: ModelV, id: Seq<char>)
    requires
        model_wf(m),
        tbl_contains(m.variables, id),
    ensures
        is_valid_id(id),
{
    lemma_contains_index(m.variables, id);
    let i = choose|i: int| 0 <= i < m.variables.len() && (#[trigger] m.variables[i]).0 == id;
    assert(is_valid_id(m.variables[i].0));
}

/// In a well-formed model, no regulation references an absent variable.
proof fn lemma_wf_absent_not_referenced(m: ModelV, id: Seq<char>)
    requires
        model_wf(m),
        !tbl_contains(m.variables, id),
    ensures
        !references_var(m.regulations, id),
{
    if references_var(m.regulations, id) {
        let i = choose|i: int|
            0 <= i < m.regulations.len() && ((#[trigger] m.regulations[i]).1.0 == id
                || m.regulations[i].1.1 == id);
        assert(tbl_contains(m.variables, m.regulations[i].1.0));
        assert(tbl_contains(m.variables, m.regulations[i].1.1));
    }
}

/// The path-segment literals of the protocol are pairwise distinct where the
/// routing needs to tell them apart.
proof fn lemma_distinct_verbs()
    ensures
        "remove"@ != "set_name"@,
        "set_id"@ != "remove"@,
        "set_id"@ != "set_name"@,
        "set_update_fn"@ != "remove"@,
        "set_update_fn"@ != "set_name"@,
        "set_update_fn"@ != "set_id"@,
        "set_essentiality"@ != "set_monotonicity"@,
        "set_expression"@ != "set_monotonicity"@,
        "set_expression"@ != "set_essentiality"@,
        "regulation"@ != "variable"@,
        "layout"@ != "variable"@,
        "layout"@ != "regulation"@,
        "uninterpreted_fn"@ != "variable"@,
        "uninterpreted_fn"@ != "regulation"@,
        "uninterpreted_fn"@ != "layout"@,
{
    reveal_strlit("remove");
    reveal_strlit("set_name");
    reveal_strlit("set_id");
    reveal_strlit("set_update_fn");
    reveal_strlit("set_monotonicity");
    reveal_strlit("set_essentiality");
    reveal_strlit("set_expression");
    reveal_strlit("variable");
    reveal_strlit("regulation");
    reveal_strlit("layout");
    reveal_strlit("uninterpreted_fn");
    assert("remove"@.len() == 6);
    assert("set_name"@.len() == 8);
    assert("set_id"@.len() == 6);
    assert("set_update_fn"@.len() == 13);
    assert("set_monotonicity"@.len() == 16);
    assert("set_essentiality"@.len() == 16);
    assert("set_expression"@.len() == 14);
    assert("variable"@.len() == 8);
    assert("regulation"@.len() == 10);
    assert("layout"@.len() == 6);
    assert("uninterpreted_fn"@.len() == 16);
    assert("set_id"@[0] == 's');
    assert("remove"@[0] == 'r');
    assert("set_monotonicity"@[4] == 'm');
    assert("set_essentiality"@[4] == 'e');
    assert("layout"@[0] == 'l');
    assert("uninterpreted_fn"@[0] == 'u');
    assert("variable"@[0] == 'v');
    assert("remove"@[0] == 'r');
}

/// Round trip of the `variable` component.
proof fn lemma_variable_round_trip(m: ModelV, ev: EventView, at: Seq<Seq<char>>)
    requires
        model_wf(m),
        spec_variable_transition(m, ev, at) matches Some(p) && p.1 is Reversible,
    ensures
        ({
            let p = spec_variable_transition(m, ev, at)->Some_0;
            let rev = p.1->Reversible_reverse;
            &&& spec_perform(p.0, rev, rev.path.drop_first()) is Some
            &&& spec_perform(p.0, rev, rev.path.drop_first())->Some_0.0 == m
        }),
{
    lemma_distinct_verbs();
    reveal_strlit("variable");
    reveal_strlit("model");
    let p = spec_variable_transition(m, ev, at)->Some_0;
    let m1 = p.0;
    let rev = p.1->Reversible_reverse;
    let at2 = rev.path.drop_first();
    if at.len() == 2 && at[1] == "add"@ {
        let pl = ev.payload->Some_0;
        let parsed = crate::data_structs::spec_parse_variable_data(pl)->Some_0;
        let id = parsed.0;
        let name = parsed.1;
        let ufn = parsed.2;
        assert(at2 =~= seq!["variable"@, id, "remove"@]);
        lemma_insert_props(m.variables, id, (name, ufn));
        lemma_get_some_contains(m1.variables, id, (name, ufn));
        lemma_wf_absent_not_referenced(m, id);
        assert(!references_var(m1.regulations, id));
        assert forall|i: int| 0 <= i < m1.layouts.len() implies tbl_get(
            (#[trigger] m1.layouts[i]).1.1,
            id,
        ) == Some(default_position()) by {
            assert(m1.layouts[i] == (
                m.layouts[i].0,
                (m.layouts[i].1.0, tbl_insert(m.layouts[i].1.1, id, default_position())),
            ));
            assert(!tbl_contains(m.layouts[i].1.1, id));
            lemma_insert_props(m.layouts[i].1.1, id, default_position());
        }
        assert(node_at_default(m1.layouts, id));
        lemma_insert_then_remove(m.variables, id, (name, ufn));
        let q = spec_perform(m1, rev, at2)->Some_0;
        assert forall|i: int| 0 <= i < m1.layouts.len() implies (#[trigger] layouts_remove_node(
            m1.layouts,
            id,
        )[i]) == m.layouts[i] by {
            assert(!tbl_contains(m.layouts[i].1.1, id));
            lemma_insert_then_remove(m.layouts[i].1.1, id, default_position());
            assert(layouts_remove_node(m1.layouts, id)[i] == (
                m1.layouts[i].0,
                (m1.layouts[i].1.0, tbl_remove(m1.layouts[i].1.1, id)),
            ));
        }
        assert(layouts_remove_node(m1.layouts, id) =~= m.layouts);
        assert(q.0 =~= m);
    } else if at.len() == 3 && at[2] == "remove"@ {
        let id = at[1];
        let v = tbl_get(m.variables, id)->Some_0;
        assert(at2 =~= seq!["variable"@, "add"@]);
        lemma_variable_data_round_trip(id, v.0, v.1);
        lemma_get_some_contains(m.variables, id, v);
        lemma_wf_contained_id_valid(m, id);
        lemma_remove_props(m.variables, id);
        assert((v.0, v.1) == v);
        lemma_remove_then_insert(m.variables, id, v);
        assert forall|i: int| 0 <= i < m1.layouts.len() implies (#[trigger] layouts_add_node(
            m1.layouts,
            id,
        )[i]) == m.layouts[i] by {
            assert(m1.layouts[i] == (
                m.layouts[i].0,
                (m.layouts[i].1.0, tbl_remove(m.layouts[i].1.1, id)),
            ));
            assert(tbl_get(m.layouts[i].1.1, id) == Some(default_position()));
            lemma_remove_props(m.layouts[i].1.1, id);
            lemma_remove_then_insert(m.layouts[i].1.1, id, default_position());
        }
        assert(layouts_add_node(m1.layouts, id) =~= m.layouts);
        let q = spec_perform(m1, rev, at2)->Some_0;
        assert(q.0 =~= m);
    } else if at.len() == 3 && at[2] == "set_name"@ {
        let id = at[1];
        let new_name = ev.payload->Some_0;
        let v = tbl_get(m.variables, id)->Some_0;
        assert(at2 =~= seq!["variable"@, id, "set_name"@]);
        lemma_update_props(m.variables, id, (new_name, v.1));
        lemma_get_some_contains(m.variables, id, v);
        assert(tbl_get(m1.variables, id) == Some((new_name, v.1)));
        assert((v.0, v.1) == v);
        lemma_update_then_update(m.variables, id, v, (new_name, v.1));
        let q = spec_perform(m1, rev, at2)->Some_0;
        assert(q.0 =~= m);
    } else if at.len() == 3 && at[2] == "set_id"@ {
        let id = at[1];
        let new_id = ev.payload->Some_0;
        let v = tbl_get(m.variables, id)->Some_0;
        assert(at2 =~= seq!["variable"@, new_id, "set_id"@]);
        lemma_get_some_contains(m.variables, id, v);
        lemma_wf_contained_id_valid(m, id);
        let removed = tbl_remove(m.variables, id);
        lemma_remove_props(m.variables, id);
        lemma_insert_props(removed, new_id, v);
        lemma_get_some_contains(m1.variables, new_id, v);
        // The re-keyed variable is not referenced under its new id either.
        lemma_wf_absent_not_referenced(m, new_id);
        assert(!references_var(m1.regulations, new_id));
        // Variables: inserting back under the old key undoes the move.
        lemma_insert_then_remove(removed, new_id, v);
        lemma_remove_then_insert(m.variables, id, v);
        assert(tbl_insert(tbl_remove(m1.variables, new_id), id, v) == m.variables);
        // Layouts: moving the node back undoes the move.
        assert forall|i: int| 0 <= i < m1.layouts.len() implies (#[trigger] layouts_move_node(
            m1.layouts,
            new_id,
            id,
        )[i]) == m.layouts[i] by {
            let nodes = m.layouts[i].1.1;
            assert(tbl_contains(nodes, id) == tbl_contains(m.variables, id));
            lemma_contains_get_some(nodes, id);
            let pos = tbl_get(nodes, id)->Some_0;
            assert(!tbl_contains(nodes, new_id));
            assert(m1.layouts[i] == (
                m.layouts[i].0,
                (m.layouts[i].1.0, move_node(nodes, id, new_id)),
            ));
            let moved = tbl_insert(tbl_remove(nodes, id), new_id, pos);
            assert(move_node(nodes, id, new_id) == moved);
            lemma_remove_props(nodes, id);
            lemma_insert_props(tbl_remove(nodes, id), new_id, pos);
            assert(tbl_get(moved, new_id) == Some(pos));
            lemma_insert_then_remove(tbl_remove(nodes, id), new_id, pos);
            assert(tbl_remove(moved, new_id) == tbl_remove(nodes, id));
            lemma_remove_then_insert(nodes, id, pos);
            assert(move_node(moved, new_id, id) == tbl_insert(tbl_remove(nodes, id), id, pos));
            assert(move_node(moved, new_id, id) == nodes);
        }
        assert(layouts_move_node(m1.layouts, new_id, id) =~= m.layouts);
        let q = spec_perform(m1, rev, at2)->Some_0;
        assert(q.0 =~= m);
    } else {
        let id = at[1];
        let expr = ev.payload->Some_0;
        let v = tbl_get(m.variables, id)->Some_0;
        assert(at.len() == 3 && at[2] == "set_update_fn"@);
        assert(at2 =~= seq!["variable"@, id, "set_update_fn"@]);
        lemma_update_props(m.variables, id, (v.0, expr));
        lemma_get_some_contains(m.variables, id, v);
        assert(tbl_get(m1.variables, id) == Some((v.0, expr)));
        assert((v.0, v.1) == v);
        lemma_update_then_update(m.variables, id, v, (v.0, expr));
        let q = spec_perform(m1, rev, at2)->Some_0;
        assert(q.0 =~= m);
    }
}

/// Round trip of the `regulation` component.
proof fn lemma_regulation_round_trip(m: ModelV, ev: EventView, at: Seq<Seq<char>>)
    requires
        model_wf(m),
        spec_regulation_transition(m, ev, at) matches Some(p) && p.1 is Reversible,
    ensures
        ({
            let p = spec_regulation_transition(m, ev, at)->Some_0;
            let rev = p.1->Reversible_reverse;
            &&& spec_perform(p.0, rev, rev.path.drop_first()) is Some
            &&& spec_perform(p.0, rev, rev.path.drop_first())->Some_0.0 == m
        }),
{
    lemma_distinct_verbs();
    reveal_strlit("regulation");
    reveal_strlit("model");
    let p = spec_regulation_transition(m, ev, at)->Some_0;
    let m1 = p.0;
    let rev = p.1->Reversible_reverse;
    let at2 = rev.path.drop_first();
    if at.len() == 2 && at[1] == "add"@ {
        let pl = ev.payload->Some_0;
        let parsed = crate::data_structs::spec_parse_regulation_data(pl)->Some_0;
        let r = parsed.0;
        let t = parsed.1;
        let key = spec_reg_key(r, t);
        assert(at2 =~= seq!["regulation"@, r, t, "remove"@]);
        lemma_insert_props(m.regulations, key, (r, t, parsed.2, parsed.3));
        lemma_insert_then_remove(m.regulations, key, (r, t, parsed.2, parsed.3));
        let q = spec_perform(m1, rev, at2)->Some_0;
        assert(q.0 =~= m);
    } else {
        let r = at[1];
        let t = at[2];
        let key = spec_reg_key(r, t);
        let v = tbl_get(m.regulations, key)->Some_0;
        assert(at2 =~= seq!["regulation"@, "add"@]);
        lemma_regulation_data_round_trip(v.0, v.1, v.2, v.3);
        lemma_get_some_contains(m.regulations, key, v);
        // The stored entry's key is determined by its endpoints.
        lemma_get_index(m.regulations, key, v);
        let i = choose|i: int|
            0 <= i < m.regulations.len() && (#[trigger] m.regulations[i]).0 == key
                && m.regulations[i].1 == v;
        assert(m.regulations[i].0 == spec_reg_key(m.regulations[i].1.0, m.regulations[i].1.1));
        assert(key == spec_reg_key(v.0, v.1));
        assert(is_valid_id(v.0) && is_valid_id(v.1));
        assert(tbl_contains(m.variables, v.0) && tbl_contains(m.variables, v.1));
        lemma_remove_props(m.regulations, key);
        assert((v.0, v.1, v.2, v.3) == v);
        lemma_remove_then_insert(m.regulations, key, v);
        let q = spec_perform(m1, rev, at2)->Some_0;
        assert(q.0 =~= m);
    }
}

/// Round trip of the `layout` component.
proof fn lemma_layout_round_trip(m: ModelV, ev: EventView, at: Seq<Seq<char>>)
    requires
        model_wf(m),
        spec_layout_transition(m, ev, at) matches Some(p) && p.1 is Reversible,
    ensures
        ({
            let p = spec_layout_transition(m, ev, at)->Some_0;
            let rev = p.1->Reversible_reverse;
            &&& spec_perform(p.0, rev, rev.path.drop_first()) is Some
            &&& spec_perform(p.0, rev, rev.path.drop_first())->Some_0.0 == m
        }),
{
    lemma_distinct_verbs();
    reveal_strlit("layout");
    reveal_strlit("update_position");
    reveal_strlit("model");
    let p = spec_layout_transition(m, ev, at)->Some_0;
    let m1 = p.0;
    let rev = p.1->Reversible_reverse;
    let at2 = rev.path.drop_first();
    let lid = at[1];
    let pl = ev.payload->Some_0;
    let parsed = crate::data_structs::spec_parse_layout_node_data(pl)->Some_0;
    let var = parsed.1;
    let l = tbl_get(m.layouts, lid)->Some_0;
    let old_pos = tbl_get(l.1, var)->Some_0;
    assert(at2 =~= seq!["layout"@, lid, "update_position"@]);
    lemma_layout_node_data_round_trip(lid, var, old_pos.0, old_pos.1);
    let new_nodes = tbl_update(l.1, var, (parsed.2, parsed.3));
    lemma_get_some_contains(m.layouts, lid, l);
    lemma_contains_index(m.layouts, lid);
    let li = choose|li: int| 0 <= li < m.layouts.len() && (#[trigger] m.layouts[li]).0 == lid;
    assert(tbl_sorted(m.layouts[li].1.1));
    lemma_get_index(m.layouts, lid, l);
    let lj = choose|lj: int|
        0 <= lj < m.layouts.len() && (#[trigger] m.layouts[lj]).0 == lid && m.layouts[lj].1 == l;
    assert(tbl_sorted(l.1));
    lemma_update_props(m.layouts, lid, (l.0, new_nodes));
    lemma_update_props(l.1, var, (parsed.2, parsed.3));
    lemma_get_some_contains(l.1, var, old_pos);
    assert(tbl_get(m1.layouts, lid) == Some((l.0, new_nodes)));
    assert(tbl_get(new_nodes, var) == Some((parsed.2, parsed.3)));
    assert((old_pos.0, old_pos.1) == old_pos);
    lemma_update_then_update(l.1, var, old_pos, (parsed.2, parsed.3));
    assert(tbl_update(new_nodes, var, old_pos) == l.1);
    assert((l.0, l.1) == l);
    lemma_update_then_update(m.layouts, lid, l, (l.0, new_nodes));
    let q = spec_perform(m1, rev, at2)->Some_0;
    assert(q.0 =~= m);
}

/// Round trip of the `uninterpreted_fn` component.
proof fn lemma_ufn_round_trip(m: ModelV, ev: EventView, at: Seq<Seq<char>>)
    requires
        model_wf(m),
        spec_ufn_transition(m, ev, at) matches Some(p) && p.1 is Reversible,
    ensures
        ({
            let p = spec_ufn_transition(m, ev, at)->Some_0;
            let rev = p.1->Reversible_reverse;
            &&& spec_perform(p.0, rev, rev.path.drop_first()) is Some
            &&& spec_perform(p.0, rev, rev.path.drop_first())->Some_0.0 == m
        }),
{
    lemma_distinct_verbs();
    reveal_strlit("uninterpreted_fn");
    reveal_strlit("model");
    let p = spec_ufn_transition(m, ev, at)->Some_0;
    let m1 = p.0;
    let rev = p.1->Reversible_reverse;
    let at2 = rev.path.drop_first();
    let id = at[1];
    let f = tbl_get(m.uninterpreted_fns, id)->Some_0;
    assert((f.0, f.1, f.2, f.3, f.4) == f);
    if at.len() == 3 && at[2] == "set_monotonicity"@ {
        let pl = ev.payload->Some_0;
        let parsed = crate::data_structs::spec_parse_change_mono(pl)->Some_0;
        let idx = parsed.0;
        assert(at2 =~= seq!["uninterpreted_fn"@, id, "set_monotonicity"@]);
        lemma_change_mono_round_trip(idx, f.2[idx as int]);
        let newv = (f.0, f.1, f.2.update(idx as int, parsed.1), f.3, f.4);
        lemma_update_props(m.uninterpreted_fns, id, newv);
        lemma_get_some_contains(m.uninterpreted_fns, id, f);
        assert(tbl_get(m1.uninterpreted_fns, id) == Some(newv));
        assert(newv.2.update(idx as int, f.2[idx as int]) =~= f.2);
        assert((newv.0, newv.1, newv.2.update(idx as int, f.2[idx as int]), newv.3, newv.4)
            =~~= f);
        lemma_update_then_update(m.uninterpreted_fns, id, f, newv);
        let q = spec_perform(m1, rev, at2)->Some_0;
        assert(q.0 =~= m);
    } else if at.len() == 3 && at[2] == "set_essentiality"@ {
        let pl = ev.payload->Some_0;
        let parsed = crate::data_structs::spec_parse_change_essential(pl)->Some_0;
        let idx = parsed.0;
        assert(at2 =~= seq!["uninterpreted_fn"@, id, "set_essentiality"@]);
        lemma_change_essential_round_trip(idx, f.3[idx as int]);
        let newv = (f.0, f.1, f.2, f.3.update(idx as int, parsed.1), f.4);
        lemma_update_props(m.uninterpreted_fns, id, newv);
        lemma_get_some_contains(m.uninterpreted_fns, id, f);
        assert(tbl_get(m1.uninterpreted_fns, id) == Some(newv));
        assert(newv.3.update(idx as int, f.3[idx as int]) =~= f.3);
        assert((newv.0, newv.1, newv.2, newv.3.update(idx as int, f.3[idx as int]), newv.4)
            =~~= f);
        lemma_update_then_update(m.uninterpreted_fns, id, f, newv);
        let q = spec_perform(m1, rev, at2)->Some_0;
        assert(q.0 =~= m);
    } else {
        let expr = ev.payload->Some_0;
        assert(at.len() == 3 && at[2] == "set_expression"@);
        assert(at2 =~= seq!["uninterpreted_fn"@, id, "set_expression"@]);
        let newv = (f.0, f.1, f.2, f.3, expr);
        lemma_update_props(m.uninterpreted_fns, id, newv);
        lemma_get_some_contains(m.uninterpreted_fns, id, f);
        assert(tbl_get(m1.uninterpreted_fns, id) == Some(newv));
        lemma_update_then_update(m.uninterpreted_fns, id, f, newv);
        let q = spec_perform(m1, rev, at2)->Some_0;
        assert(q.0 =~= m);
    }
}

/// The transition preserves well-formedness.
pub proof fn lemma_spec_perform_wf(m: ModelV, ev: EventView, at: Seq<Seq<char>>)
    requires
        model_wf(m),
        spec_perform(m, ev, at) is Some,
    ensures
        model_wf(spec_perform(m, ev, at)->Some_0.0),
{
    let m1 = spec_perform(m, ev, at)->Some_0.0;
    if at[0] == "variable"@ {
        if at.len() == 2 && at[1] == "add"@ {
            let parsed = crate::data_structs::spec_parse_variable_data(ev.payload->Some_0)->Some_0;
            crate::model::lemma_add_var_wf(m, m1, parsed.0, (parsed.1, parsed.2));
        } else if at.len() == 3 && at[2] == "remove"@ {
            let id = at[1];
            if !references_var(m.regulations, id) && node_at_default(m.layouts, id) {
                crate::model::lemma_remove_var_wf(m, m1, id);
            } else {
                assert(m1 == m);
            }
        } else if at.len() == 3 && at[2] == "set_name"@ {
            let id = at[1];
            let v = tbl_get(m.variables, id)->Some_0;
            crate::model::lemma_update_var_wf(m, m1, id, (ev.payload->Some_0, v.1));
        } else if at.len() == 3 && at[2] == "set_id"@ {
            let id = at[1];
            let v = tbl_get(m.variables, id)->Some_0;
            lemma_get_some_contains(m.variables, id, v);
            crate::model::lemma_set_var_id_wf(m, m1, id, ev.payload->Some_0, v);
        } else {
            let id = at[1];
            let v = tbl_get(m.variables, id)->Some_0;
            crate::model::lemma_update_var_wf(m, m1, id, (v.0, ev.payload->Some_0));
        }
    } else if at[0] == "regulation"@ {
        if at.len() == 2 && at[1] == "add"@ {
            let parsed = crate::data_structs::spec_parse_regulation_data(
                ev.payload->Some_0,
            )->Some_0;
            crate::model::lemma_add_reg_wf(m, m1, (parsed.0, parsed.1, parsed.2, parsed.3));
        } else {
            crate::model::lemma_remove_reg_wf(m, m1, spec_reg_key(at[1], at[2]));
        }
    } else if at[0] == "layout"@ {
        let lid = at[1];
        let parsed = crate::data_structs::spec_parse_layout_node_data(ev.payload->Some_0)->Some_0;
        let var = parsed.1;
        let l = tbl_get(m.layouts, lid)->Some_0;
        lemma_get_index(m.layouts, lid, l);
        let li = choose|li: int|
            0 <= li < m.layouts.len() && (#[trigger] m.layouts[li]).0 == lid && m.layouts[li].1
                == l;
        assert(tbl_sorted(l.1));
        lemma_update_props(l.1, var, (parsed.2, parsed.3));
        assert forall|k: Seq<char>|
            #[trigger] tbl_contains(tbl_update(l.1, var, (parsed.2, parsed.3)), k) == tbl_contains(
                m.variables,
                k,
            ) by {
            assert(tbl_contains(l.1, k) == tbl_contains(m.variables, k));
        }
        crate::model::lemma_update_layout_wf(
            m,
            m1,
            lid,
            (l.0, tbl_update(l.1, var, (parsed.2, parsed.3))),
        );
    } else {
        let id = at[1];
        let f = tbl_get(m.uninterpreted_fns, id)->Some_0;
        lemma_get_index(m.uninterpreted_fns, id, f);
        let fi = choose|fi: int|
            0 <= fi < m.uninterpreted_fns.len() && (#[trigger] m.uninterpreted_fns[fi]).0 == id
                && m.uninterpreted_fns[fi].1 == f;
        assert(f.2.len() == f.1 && f.3.len() == f.1);
        if at.len() == 3 && at[2] == "set_monotonicity"@ {
            let parsed = crate::data_structs::spec_parse_change_mono(ev.payload->Some_0)->Some_0;
            crate::model::lemma_update_ufn_wf(
                m,
                m1,
                id,
                (f.0, f.1, f.2.update(parsed.0 as int, parsed.1), f.3, f.4),
            );
        } else if at.len() == 3 && at[2] == "set_essentiality"@ {
            let parsed = crate::data_structs::spec_parse_change_essential(
                ev.payload->Some_0,
            )->Some_0;
            crate::model::lemma_update_ufn_wf(
                m,
                m1,
                id,
                (f.0, f.1, f.2, f.3.update(parsed.0 as int, parsed.1), f.4),
            );
        } else {
            crate::model::lemma_update_ufn_wf(m, m1, id, (f.0, f.1, f.2, f.3, ev.payload->Some_0));
        }
    }
}

/// Sequential application of events, each addressed by its own path with
/// the component prefix stripped.
pub open spec fn apply_events(m: ModelV, evs: Seq<EventView>) -> Option<ModelV>
    decreases evs.len(),
{
    if evs.len() == 0 {
        Some(m)
    } else {
        match spec_perform(m, evs.first(), evs.first().path.drop_first()) {
            Some(p) => apply_events(p.0, evs.drop_first()),
            None => None,
        }
    }
}

/// Sequential application where every step must consume reversibly; the
/// synthesized reverses are collected in application order.
pub open spec fn apply_collect(m: ModelV, evs: Seq<EventView>) -> Option<(ModelV, Seq<EventView>)>
    decreases evs.len(),
{
    if evs.len() == 0 {
        Some((m, Seq::empty()))
    } else {
        match spec_perform(m, evs.first(), evs.first().path.drop_first()) {
            Some(p) => {
                if p.1 is Reversible {
                    match apply_collect(p.0, evs.drop_first()) {
                        Some(q) => Some((q.0, seq![p.1->Reversible_reverse] + q.1)),
                        None => None,
                    }
                } else {
                    None
                }
            },
            None => None,
        }
    }
}

/// Applying a concatenation applies the parts in order.
pub proof fn lemma_apply_events_append(m: ModelV, a: Seq<EventView>, b: Seq<EventView>)
    ensures
        apply_events(m, a + b) == match apply_events(m, a) {
            Some(mm) => apply_events(mm, b),
            None => None,
        },
    decreases a.len(),
{
    if a.len() == 0 {
        assert(a + b =~= b);
    } else {
        assert((a + b).first() == a.first());
        assert((a + b).drop_first() =~= a.drop_first() + b);
        match spec_perform(m, a.first(), a.first().path.drop_first()) {
            Some(p) => {
                lemma_apply_events_append(p.0, a.drop_first(), b);
            },
            None => {},
        }
    }
}

/// Undoing a reversible chain: when a sequence of actions is consumed
/// reversibly step by step, applying the collected reverse actions in the
/// opposite order restores the initial state exactly.
#[verifier::rlimit(60)]
pub proof fn lemma_chain_undo(m: ModelV, evs: Seq<EventView>)
    requires
        model_wf(m),
        apply_collect(m, evs) is Some,
    ensures
        apply_events(apply_collect(m, evs)->Some_0.0, apply_collect(m, evs)->Some_0.1.reverse())
            == Some(m),
    decreases evs.len(),
{
    if evs.len() == 0 {
        let revs = apply_collect(m, evs)->Some_0.1;
        assert(revs.reverse() =~= Seq::<EventView>::empty());
    } else {
        let e = evs.first();
        let at = e.path.drop_first();
        let p = spec_perform(m, e, at)->Some_0;
        let ma = p.0;
        let rev1 = p.1->Reversible_reverse;
        lemma_spec_perform_wf(m, e, at);
        lemma_chain_undo(ma, evs.drop_first());
        let q = apply_collect(ma, evs.drop_first())->Some_0;
        let m2 = q.0;
        let revs = apply_collect(m, evs)->Some_0.1;
        assert(revs == seq![rev1] + q.1);
        assert(revs.reverse() =~= q.1.reverse() + seq![rev1]);
        lemma_apply_events_append(m2, q.1.reverse(), seq![rev1]);
        assert(apply_events(m2, q.1.reverse()) == Some(ma));
        lemma_reversible_round_trip(m, e, at);
        assert(seq![rev1].first() == rev1);
        assert(seq![rev1].drop_first() =~= Seq::<EventView>::empty());
        let rr = spec_perform(ma, rev1, rev1.path.drop_first())->Some_0;
        assert(rr.0 == m);
        assert(apply_events(ma, seq![rev1]) == apply_events(rr.0, seq![rev1].drop_first()));
        assert(apply_events(rr.0, seq![rev1].drop_first()) == Some(rr.0));
        assert(apply_events(ma, seq![rev1]) == Some(m));
        assert(apply_events(m2, revs.reverse()) == Some(m));
    }
}

/// Round trip: whenever the transition consumes an action reversibly,
/// applying the synthesized reverse action (addressed by its own path with
/// the component prefix stripped) succeeds and restores the state exactly.
pub proof fn lemma_reversible_round_trip(m: ModelV, ev: EventView, at: Seq<Seq<char>>)
    requires
        model_wf(m),
        spec_perform(m, ev, at) matches Some(p) && p.1 is Reversible,
    ensures
        ({
            let p = spec_perform(m, ev, at)->Some_0;
            let rev = p.1->Reversible_reverse;
            &&& spec_perform(p.0, rev, rev.path.drop_first()) is Some
            &&& spec_perform(p.0, rev, rev.path.drop_first())->Some_0.0 == m
        }),
{
    lemma_distinct_verbs();
    if at[0] == "variable"@ {
        lemma_variable_round_trip(m, ev, at);
    } else if at[0] == "regulation"@ {
        lemma_regulation_round_trip(m, ev, at);
    } else if at[0] == "layout"@ {
        lemma_layout_round_trip(m, ev, at);
    } else {
        assert(at[0] == "uninterpreted_fn"@);
        lemma_ufn_round_trip(m, ev, at);
    }
}

} // verus!
