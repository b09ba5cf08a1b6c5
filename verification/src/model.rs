//! The editable model component: variables with update functions,
//! regulations, layouts, and uninterpreted functions.
//!
//! Every editing operation is all-or-nothing: it either commits the change
//! its contract describes or returns an error and leaves the state exactly
//! as it was.

use vstd::prelude::*;
use crate::entities::{Essentiality, Layout, Monotonicity, NodePosition, Observability, Regulation,
    RegulationSign, UninterpretedFn, UpdateFn, Variable, VarInfo};
use crate::ids::{LayoutId, VarId, check_valid_id, is_id_char, is_valid_id};
use crate::table::{Table, lemma_contains_get_some, lemma_contains_index, lemma_get_some_contains,
    lemma_index_contains, lemma_insert_elements, lemma_insert_props, lemma_insert_then_remove,
    lemma_remove_elements, lemma_remove_props, lemma_remove_then_insert, lemma_tbl_update_at,
    lemma_update_elements, lemma_update_len, lemma_update_props, lemma_update_then_update,
    tbl_contains, tbl_get, tbl_insert, tbl_remove, tbl_sorted, tbl_update};
use crate::text::str_eq;

verus! {

/// Key of a variable entry: its id.
pub type VarV = (Seq<char>, Seq<char>);

/// View of a regulation entry's value.
pub type RegV = (Seq<char>, Seq<char>, RegulationSign, Observability);

/// View of one layout's node table.
pub type NodesV = Seq<(Seq<char>, (Seq<char>, Seq<char>))>;

/// View of a layout entry's value.
pub type LayoutV = (Seq<char>, NodesV);

/// View of an uninterpreted function entry's value.
pub type UfnV = (Seq<char>, usize, Seq<Monotonicity>, Seq<Essentiality>, Seq<char>);

/// Mathematical content of a whole model.
#[verifier::ext_equal]
pub struct ModelV {
    pub variables: Seq<(Seq<char>, VarV)>,
    pub regulations: Seq<(Seq<char>, RegV)>,
    pub layouts: Seq<(Seq<char>, LayoutV)>,
    pub uninterpreted_fns: Seq<(Seq<char>, UfnV)>,
}

/// The table key a regulation is stored under.
pub open spec fn spec_reg_key(regulator: Seq<char>, target: Seq<char>) -> Seq<char> {
    regulator + seq![' '] + target
}

/// The default position of a freshly created node.
pub open spec fn default_position() -> (Seq<char>, Seq<char>) {
    ("0"@, "0"@)
}

/// Every layout with a node for `k` added at the default position.
pub open spec fn layouts_add_node(ls: Seq<(Seq<char>, LayoutV)>, k: Seq<char>) -> Seq<
    (Seq<char>, LayoutV),
> {
    ls.map_values(
        |p: (Seq<char>, LayoutV)| (p.0, (p.1.0, tbl_insert(p.1.1, k, default_position()))),
    )
}

/// Every layout with the node for `k` taken out.
pub open spec fn layouts_remove_node(ls: Seq<(Seq<char>, LayoutV)>, k: Seq<char>) -> Seq<
    (Seq<char>, LayoutV),
> {
    ls.map_values(|p: (Seq<char>, LayoutV)| (p.0, (p.1.0, tbl_remove(p.1.1, k))))
}

/// Well-formedness of a model view: all tables in ascending key order, every
/// variable id valid, every layout holding exactly one node per variable,
/// every regulation stored under the key its endpoints dictate with both
/// endpoints present, and every uninterpreted function's argument lists
/// matching its arity.
pub open spec fn model_wf(m: ModelV) -> bool {
    &&& tbl_sorted(m.variables)
    &&& tbl_sorted(m.regulations)
    &&& tbl_sorted(m.layouts)
    &&& tbl_sorted(m.uninterpreted_fns)
    &&& forall|i: int|
        0 <= i < m.variables.len() ==> is_valid_id((#[trigger] m.variables[i]).0)
    &&& forall|i: int|
        0 <= i < m.layouts.len() ==> tbl_sorted((#[trigger] m.layouts[i]).1.1)
    &&& forall|i: int, k: Seq<char>|
        0 <= i < m.layouts.len() ==> #[trigger] tbl_contains(m.layouts[i].1.1, k) == tbl_contains(
            m.variables,
            k,
        )
    &&& forall|i: int|
        0 <= i < m.regulations.len() ==> {
            let e = #[trigger] m.regulations[i];
            &&& e.0 == spec_reg_key(e.1.0, e.1.1)
            &&& is_valid_id(e.1.0)
            &&& is_valid_id(e.1.1)
            &&& tbl_contains(m.variables, e.1.0)
            &&& tbl_contains(m.variables, e.1.1)
        }
    &&& forall|i: int|
        0 <= i < m.uninterpreted_fns.len() ==> {
            let e = #[trigger] m.uninterpreted_fns[i];
            &&& is_valid_id(e.0)
            &&& e.1.2.len() == e.1.1
            &&& e.1.3.len() == e.1.1
        }
}

/// Whether any regulation in `rs` has `k` as regulator or target.
pub open spec fn references_var(rs: Seq<(Seq<char>, RegV)>, k: Seq<char>) -> bool {
    exists|i: int| 0 <= i < rs.len() && ((#[trigger] rs[i]).1.0 == k || rs[i].1.1 == k)
}

/// The regulation records that use `k` as regulator or target, in stored
/// order.
pub open spec fn regs_referencing(rs: Seq<(Seq<char>, RegV)>, k: Seq<char>) -> Seq<RegV>
    decreases rs.len(),
{
    if rs.len() == 0 {
        Seq::empty()
    } else {
        let rest = regs_referencing(rs.drop_first(), k);
        if rs.first().1.0 == k || rs.first().1.1 == k {
            seq![rs.first().1] + rest
        } else {
            rest
        }
    }
}

/// One node table with the node for `old_id` re-keyed to `new_id`.
pub open spec fn move_node(nodes: NodesV, old_id: Seq<char>, new_id: Seq<char>) -> NodesV {
    match tbl_get(nodes, old_id) {
        Some(p) => tbl_insert(tbl_remove(nodes, old_id), new_id, p),
        None => nodes,
    }
}

/// Every layout with the node for `old_id` re-keyed to `new_id`.
pub open spec fn layouts_move_node(
    ls: Seq<(Seq<char>, LayoutV)>,
    old_id: Seq<char>,
    new_id: Seq<char>,
) -> Seq<(Seq<char>, LayoutV)> {
    ls.map_values(|p: (Seq<char>, LayoutV)| (p.0, (p.1.0, move_node(p.1.1, old_id, new_id))))
}

/// Whether every layout holds the node for `k` at the default position.
pub open spec fn node_at_default(ls: Seq<(Seq<char>, LayoutV)>, k: Seq<char>) -> bool {
    forall|i: int|
        0 <= i < ls.len() ==> tbl_get((#[trigger] ls[i]).1.1, k) == Some(default_position())
}

/// Adding a fresh, valid variable preserves well-formedness.
pub proof fn lemma_add_var_wf(m0: ModelV, m1: ModelV, id: Seq<char>, v: VarV)
    requires
        model_wf(m0),
        is_valid_id(id),
        !tbl_contains(m0.variables, id),
        m1.variables == tbl_insert(m0.variables, id, v),
        m1.layouts == layouts_add_node(m0.layouts, id),
        m1.regulations == m0.regulations,
        m1.uninterpreted_fns == m0.uninterpreted_fns,
    ensures
        model_wf(m1),
{
    lemma_insert_props(m0.variables, id, v);
    lemma_insert_elements(m0.variables, id, v);
    assert forall|i: int| 0 <= i < m1.variables.len() implies is_valid_id(
        (#[trigger] m1.variables[i]).0,
    ) by {
        if m1.variables[i] != (id, v) {
            let j = choose|j: int|
                0 <= j < m0.variables.len() && m1.variables[i] == #[trigger] m0.variables[j];
            assert(is_valid_id(m0.variables[j].0));
        }
    }
    assert(m1.layouts.len() == m0.layouts.len());
    assert forall|i: int| 0 <= i < m1.layouts.len() implies (#[trigger] m1.layouts[i]) == (
        m0.layouts[i].0,
        (m0.layouts[i].1.0, tbl_insert(m0.layouts[i].1.1, id, default_position())),
    ) by {}
    assert forall|i: int, k: int| 0 <= i < k < m1.layouts.len() implies crate::text::lex_lt(
        (#[trigger] m1.layouts[i]).0,
        (#[trigger] m1.layouts[k]).0,
    ) by {
        assert(m1.layouts[i].0 == m0.layouts[i].0);
        assert(m1.layouts[k].0 == m0.layouts[k].0);
    }
    assert forall|i: int| 0 <= i < m1.layouts.len() implies tbl_sorted(
        (#[trigger] m1.layouts[i]).1.1,
    ) by {
        assert(!tbl_contains(m0.layouts[i].1.1, id));
        lemma_insert_props(m0.layouts[i].1.1, id, default_position());
    }
    assert forall|i: int, k: Seq<char>| 0 <= i < m1.layouts.len() implies #[trigger] tbl_contains(
        m1.layouts[i].1.1,
        k,
    ) == tbl_contains(m1.variables, k) by {
        assert(!tbl_contains(m0.layouts[i].1.1, id));
        lemma_insert_props(m0.layouts[i].1.1, id, default_position());
        assert(tbl_contains(m1.layouts[i].1.1, k) == (tbl_contains(m0.layouts[i].1.1, k) || k
            == id));
        assert(tbl_contains(m0.layouts[i].1.1, k) == tbl_contains(m0.variables, k));
    }
    assert forall|i: int| 0 <= i < m1.regulations.len() implies {
        let e = #[trigger] m1.regulations[i];
        &&& e.0 == spec_reg_key(e.1.0, e.1.1)
        &&& is_valid_id(e.1.0)
        &&& is_valid_id(e.1.1)
        &&& tbl_contains(m1.variables, e.1.0)
        &&& tbl_contains(m1.variables, e.1.1)
    } by {
        assert(m1.regulations[i] == m0.regulations[i]);
        assert(tbl_contains(m0.variables, m0.regulations[i].1.0));
        assert(tbl_contains(m0.variables, m0.regulations[i].1.1));
    }
}

/// Removing an unreferenced variable preserves well-formedness.
pub proof fn lemma_remove_var_wf(m0: ModelV, m1: ModelV, id: Seq<char>)
    requires
        model_wf(m0),
        !references_var(m0.regulations, id),
        m1.variables == tbl_remove(m0.variables, id),
        m1.layouts == layouts_remove_node(m0.layouts, id),
        m1.regulations == m0.regulations,
        m1.uninterpreted_fns == m0.uninterpreted_fns,
    ensures
        model_wf(m1),
{
    lemma_remove_props(m0.variables, id);
    lemma_remove_elements(m0.variables, id);
    assert forall|i: int| 0 <= i < m1.variables.len() implies is_valid_id(
        (#[trigger] m1.variables[i]).0,
    ) by {
        let j = choose|j: int|
            0 <= j < m0.variables.len() && m1.variables[i] == #[trigger] m0.variables[j];
        assert(is_valid_id(m0.variables[j].0));
    }
    assert(m1.layouts.len() == m0.layouts.len());
    assert forall|i: int, k: int| 0 <= i < k < m1.layouts.len() implies crate::text::lex_lt(
        (#[trigger] m1.layouts[i]).0,
        (#[trigger] m1.layouts[k]).0,
    ) by {
        assert(m1.layouts[i].0 == m0.layouts[i].0);
        assert(m1.layouts[k].0 == m0.layouts[k].0);
    }
    assert forall|i: int| 0 <= i < m1.layouts.len() implies tbl_sorted(
        (#[trigger] m1.layouts[i]).1.1,
    ) by {
        lemma_remove_props(m0.layouts[i].1.1, id);
    }
    assert forall|i: int, k: Seq<char>| 0 <= i < m1.layouts.len() implies #[trigger] tbl_contains(
        m1.layouts[i].1.1,
        k,
    ) == tbl_contains(m1.variables, k) by {
        lemma_remove_props(m0.layouts[i].1.1, id);
        if k != id {
            assert(tbl_contains(m1.layouts[i].1.1, k) == tbl_contains(m0.layouts[i].1.1, k));
            assert(tbl_contains(m0.layouts[i].1.1, k) == tbl_contains(m0.variables, k));
        } else {
            assert(!tbl_contains(m1.layouts[i].1.1, k));
            assert(!tbl_contains(m1.variables, k));
        }
    }
    assert forall|i: int| 0 <= i < m1.regulations.len() implies {
        let e = #[trigger] m1.regulations[i];
        &&& e.0 == spec_reg_key(e.1.0, e.1.1)
        &&& is_valid_id(e.1.0)
        &&& is_valid_id(e.1.1)
        &&& tbl_contains(m1.variables, e.1.0)
        &&& tbl_contains(m1.variables, e.1.1)
    } by {
        assert(m1.regulations[i] == m0.regulations[i]);
        assert(m0.regulations[i].1.0 != id && m0.regulations[i].1.1 != id);
        assert(tbl_contains(m0.variables, m0.regulations[i].1.0));
        assert(tbl_contains(m0.variables, m0.regulations[i].1.1));
    }
}

/// Replacing a variable's record under the same key preserves
/// well-formedness.
pub proof fn lemma_update_var_wf(m0: ModelV, m1: ModelV, id: Seq<char>, v: VarV)
    requires
        model_wf(m0),
        m1.variables == tbl_update(m0.variables, id, v),
        m1.layouts == m0.layouts,
        m1.regulations == m0.regulations,
        m1.uninterpreted_fns == m0.uninterpreted_fns,
    ensures
        model_wf(m1),
{
    lemma_update_props(m0.variables, id, v);
    lemma_update_len(m0.variables, id, v);
    assert forall|i: int| 0 <= i < m1.variables.len() implies is_valid_id(
        (#[trigger] m1.variables[i]).0,
    ) by {
        assert(m1.variables[i].0 == m0.variables[i].0);
    }
    assert forall|i: int, k: Seq<char>| 0 <= i < m1.layouts.len() implies #[trigger] tbl_contains(
        m1.layouts[i].1.1,
        k,
    ) == tbl_contains(m1.variables, k) by {
        assert(tbl_contains(m0.layouts[i].1.1, k) == tbl_contains(m0.variables, k));
    }
    assert forall|i: int| 0 <= i < m1.regulations.len() implies {
        let e = #[trigger] m1.regulations[i];
        &&& e.0 == spec_reg_key(e.1.0, e.1.1)
        &&& is_valid_id(e.1.0)
        &&& is_valid_id(e.1.1)
        &&& tbl_contains(m1.variables, e.1.0)
        &&& tbl_contains(m1.variables, e.1.1)
    } by {
        assert(m1.regulations[i] == m0.regulations[i]);
        assert(tbl_contains(m0.variables, m0.regulations[i].1.0));
        assert(tbl_contains(m0.variables, m0.regulations[i].1.1));
    }
}

/// Re-keying an unreferenced variable to a fresh valid id preserves
/// well-formedness.
pub proof fn lemma_set_var_id_wf(
    m0: ModelV,
    m1: ModelV,
    old_id: Seq<char>,
    new_id: Seq<char>,
    v: VarV,
)
    requires
        model_wf(m0),
        tbl_contains(m0.variables, old_id),
        is_valid_id(new_id),
        !tbl_contains(m0.variables, new_id),
        !references_var(m0.regulations, old_id),
        m1.variables == tbl_insert(tbl_remove(m0.variables, old_id), new_id, v),
        m1.layouts == layouts_move_node(m0.layouts, old_id, new_id),
        m1.regulations == m0.regulations,
        m1.uninterpreted_fns == m0.uninterpreted_fns,
    ensures
        model_wf(m1),
{
    let removed = tbl_remove(m0.variables, old_id);
    lemma_remove_props(m0.variables, old_id);
    lemma_remove_elements(m0.variables, old_id);
    lemma_insert_props(removed, new_id, v);
    lemma_insert_elements(removed, new_id, v);
    assert forall|i: int| 0 <= i < m1.variables.len() implies is_valid_id(
        (#[trigger] m1.variables[i]).0,
    ) by {
        if m1.variables[i] != (new_id, v) {
            let j = choose|j: int| 0 <= j < removed.len() && m1.variables[i] == #[trigger] removed[j];
            let j2 = choose|j2: int|
                0 <= j2 < m0.variables.len() && removed[j] == #[trigger] m0.variables[j2];
            assert(is_valid_id(m0.variables[j2].0));
        }
    }
    assert(m1.layouts.len() == m0.layouts.len());
    assert forall|i: int, k: int| 0 <= i < k < m1.layouts.len() implies crate::text::lex_lt(
        (#[trigger] m1.layouts[i]).0,
        (#[trigger] m1.layouts[k]).0,
    ) by {
        assert(m1.layouts[i].0 == m0.layouts[i].0);
        assert(m1.layouts[k].0 == m0.layouts[k].0);
    }
    assert forall|i: int| 0 <= i < m1.layouts.len() implies tbl_sorted(
        (#[trigger] m1.layouts[i]).1.1,
    ) && (forall|k: Seq<char>|
        #[trigger] tbl_contains(m1.layouts[i].1.1, k) == tbl_contains(m1.variables, k)) by {
        let nodes = m0.layouts[i].1.1;
        assert(tbl_contains(nodes, old_id) == tbl_contains(m0.variables, old_id));
        lemma_contains_get_some(nodes, old_id);
        let p = tbl_get(nodes, old_id)->Some_0;
        assert(m1.layouts[i].1.1 == tbl_insert(tbl_remove(nodes, old_id), new_id, p));
        lemma_remove_props(nodes, old_id);
        assert(!tbl_contains(nodes, new_id)) by {
            assert(tbl_contains(nodes, new_id) == tbl_contains(m0.variables, new_id));
        }
        lemma_insert_props(tbl_remove(nodes, old_id), new_id, p);
        assert forall|k: Seq<char>| #[trigger] tbl_contains(m1.layouts[i].1.1, k) == tbl_contains(
            m1.variables,
            k,
        ) by {
            assert(tbl_contains(m1.layouts[i].1.1, k) == (tbl_contains(
                tbl_remove(nodes, old_id),
                k,
            ) || k == new_id));
            assert(tbl_contains(m1.variables, k) == (tbl_contains(removed, k) || k == new_id));
            if k != old_id && k != new_id {
                assert(tbl_contains(tbl_remove(nodes, old_id), k) == tbl_contains(nodes, k));
                assert(tbl_contains(removed, k) == tbl_contains(m0.variables, k));
                assert(tbl_contains(nodes, k) == tbl_contains(m0.variables, k));
            }
        }
    }
    assert forall|i: int| 0 <= i < m1.regulations.len() implies {
        let e = #[trigger] m1.regulations[i];
        &&& e.0 == spec_reg_key(e.1.0, e.1.1)
        &&& is_valid_id(e.1.0)
        &&& is_valid_id(e.1.1)
        &&& tbl_contains(m1.variables, e.1.0)
        &&& tbl_contains(m1.variables, e.1.1)
    } by {
        assert(m1.regulations[i] == m0.regulations[i]);
        let e = m0.regulations[i];
        assert(e.1.0 != old_id && e.1.1 != old_id);
        assert(tbl_contains(m0.variables, e.1.0));
        assert(tbl_contains(m0.variables, e.1.1));
        assert(tbl_contains(removed, e.1.0) == tbl_contains(m0.variables, e.1.0));
        assert(tbl_contains(removed, e.1.1) == tbl_contains(m0.variables, e.1.1));
        assert(tbl_contains(m1.variables, e.1.0) == (tbl_contains(removed, e.1.0) || e.1.0
            == new_id));
        assert(tbl_contains(m1.variables, e.1.1) == (tbl_contains(removed, e.1.1) || e.1.1
            == new_id));
    }
}

/// Adding a fresh regulation between existing variables preserves
/// well-formedness.
pub proof fn lemma_add_reg_wf(m0: ModelV, m1: ModelV, v: RegV)
    requires
        model_wf(m0),
        is_valid_id(v.0),
        is_valid_id(v.1),
        tbl_contains(m0.variables, v.0),
        tbl_contains(m0.variables, v.1),
        !tbl_contains(m0.regulations, spec_reg_key(v.0, v.1)),
        m1.regulations == tbl_insert(m0.regulations, spec_reg_key(v.0, v.1), v),
        m1.variables == m0.variables,
        m1.layouts == m0.layouts,
        m1.uninterpreted_fns == m0.uninterpreted_fns,
    ensures
        model_wf(m1),
{
    lemma_insert_props(m0.regulations, spec_reg_key(v.0, v.1), v);
    lemma_insert_elements(m0.regulations, spec_reg_key(v.0, v.1), v);
    assert forall|i: int| 0 <= i < m1.regulations.len() implies {
        let e = #[trigger] m1.regulations[i];
        &&& e.0 == spec_reg_key(e.1.0, e.1.1)
        &&& is_valid_id(e.1.0)
        &&& is_valid_id(e.1.1)
        &&& tbl_contains(m1.variables, e.1.0)
        &&& tbl_contains(m1.variables, e.1.1)
    } by {
        if m1.regulations[i] != (spec_reg_key(v.0, v.1), v) {
            let j = choose|j: int|
                0 <= j < m0.regulations.len() && m1.regulations[i] == #[trigger] m0.regulations[j];
            assert(tbl_contains(m0.variables, m0.regulations[j].1.0));
            assert(tbl_contains(m0.variables, m0.regulations[j].1.1));
        }
    }
}

/// Taking one regulation out preserves well-formedness.
pub proof fn lemma_remove_reg_wf(m0: ModelV, m1: ModelV, key: Seq<char>)
    requires
        model_wf(m0),
        m1.regulations == tbl_remove(m0.regulations, key),
        m1.variables == m0.variables,
        m1.layouts == m0.layouts,
        m1.uninterpreted_fns == m0.uninterpreted_fns,
    ensures
        model_wf(m1),
{
    lemma_remove_props(m0.regulations, key);
    lemma_remove_elements(m0.regulations, key);
    assert forall|i: int| 0 <= i < m1.regulations.len() implies {
        let e = #[trigger] m1.regulations[i];
        &&& e.0 == spec_reg_key(e.1.0, e.1.1)
        &&& is_valid_id(e.1.0)
        &&& is_valid_id(e.1.1)
        &&& tbl_contains(m1.variables, e.1.0)
        &&& tbl_contains(m1.variables, e.1.1)
    } by {
        let j = choose|j: int|
            0 <= j < m0.regulations.len() && m1.regulations[i] == #[trigger] m0.regulations[j];
        assert(tbl_contains(m0.variables, m0.regulations[j].1.0));
        assert(tbl_contains(m0.variables, m0.regulations[j].1.1));
    }
}

/// Replacing one layout's value, keeping its node keys, preserves
/// well-formedness.
pub proof fn lemma_update_layout_wf(m0: ModelV, m1: ModelV, lid: Seq<char>, l: LayoutV)
    requires
        model_wf(m0),
        tbl_sorted(l.1),
        forall|k: Seq<char>| #[trigger] tbl_contains(l.1, k) == tbl_contains(m0.variables, k),
        m1.layouts == tbl_update(m0.layouts, lid, l),
        m1.variables == m0.variables,
        m1.regulations == m0.regulations,
        m1.uninterpreted_fns == m0.uninterpreted_fns,
    ensures
        model_wf(m1),
{
    lemma_update_props(m0.layouts, lid, l);
    lemma_update_len(m0.layouts, lid, l);
    lemma_update_elements(m0.layouts, lid, l);
    assert forall|i: int| 0 <= i < m1.layouts.len() implies tbl_sorted(
        (#[trigger] m1.layouts[i]).1.1,
    ) && (forall|k: Seq<char>|
        #[trigger] tbl_contains(m1.layouts[i].1.1, k) == tbl_contains(m1.variables, k)) by {
        assert(m1.layouts[i] == (lid, l) || m1.layouts[i] == m0.layouts[i]);
        if m1.layouts[i] == m0.layouts[i] {
            assert(tbl_sorted(m0.layouts[i].1.1));
            assert(forall|k: Seq<char>|
                #[trigger] tbl_contains(m0.layouts[i].1.1, k) == tbl_contains(m0.variables, k));
        }
    }
    assert forall|i: int, k: int| 0 <= i < k < m1.layouts.len() implies crate::text::lex_lt(
        (#[trigger] m1.layouts[i]).0,
        (#[trigger] m1.layouts[k]).0,
    ) by {
        assert(m1.layouts[i].0 == m0.layouts[i].0);
        assert(m1.layouts[k].0 == m0.layouts[k].0);
    }
}

/// Adding a fresh uninterpreted function preserves well-formedness.
pub proof fn lemma_add_ufn_wf(m0: ModelV, m1: ModelV, id: Seq<char>, v: UfnV)
    requires
        model_wf(m0),
        is_valid_id(id),
        !tbl_contains(m0.uninterpreted_fns, id),
        v.2.len() == v.1,
        v.3.len() == v.1,
        m1.uninterpreted_fns == tbl_insert(m0.uninterpreted_fns, id, v),
        m1.variables == m0.variables,
        m1.regulations == m0.regulations,
        m1.layouts == m0.layouts,
    ensures
        model_wf(m1),
{
    lemma_insert_props(m0.uninterpreted_fns, id, v);
    lemma_insert_elements(m0.uninterpreted_fns, id, v);
    assert forall|i: int| 0 <= i < m1.uninterpreted_fns.len() implies {
        let e = #[trigger] m1.uninterpreted_fns[i];
        &&& is_valid_id(e.0)
        &&& e.1.2.len() == e.1.1
        &&& e.1.3.len() == e.1.1
    } by {
        if m1.uninterpreted_fns[i] != (id, v) {
            let j = choose|j: int|
                0 <= j < m0.uninterpreted_fns.len() && m1.uninterpreted_fns[i]
                    == #[trigger] m0.uninterpreted_fns[j];
            assert(is_valid_id(m0.uninterpreted_fns[j].0));
        }
    }
}

/// Replacing an uninterpreted function's record, keeping arity and argument
/// list lengths consistent, preserves well-formedness.
pub proof fn lemma_update_ufn_wf(m0: ModelV, m1: ModelV, id: Seq<char>, v: UfnV)
    requires
        model_wf(m0),
        v.2.len() == v.1,
        v.3.len() == v.1,
        m1.uninterpreted_fns == tbl_update(m0.uninterpreted_fns, id, v),
        m1.variables == m0.variables,
        m1.regulations == m0.regulations,
        m1.layouts == m0.layouts,
    ensures
        model_wf(m1),
{
    lemma_update_props(m0.uninterpreted_fns, id, v);
    lemma_update_len(m0.uninterpreted_fns, id, v);
    lemma_update_elements(m0.uninterpreted_fns, id, v);
    assert forall|i: int| 0 <= i < m1.uninterpreted_fns.len() implies {
        let e = #[trigger] m1.uninterpreted_fns[i];
        &&& is_valid_id(e.0)
        &&& e.1.2.len() == e.1.1
        &&& e.1.3.len() == e.1.1
    } by {
        assert(m1.uninterpreted_fns[i] == (id, v) || m1.uninterpreted_fns[i]
            == m0.uninterpreted_fns[i]);
        if m1.uninterpreted_fns[i] == (id, v) {
            assert(m1.uninterpreted_fns[i].0 == m0.uninterpreted_fns[i].0);
            assert(is_valid_id(m0.uninterpreted_fns[i].0));
        }
    }
}

/// A freshly created argument-qualifier list: all `Unknown`.
pub open spec fn unknown_monotonicities(n: usize) -> Seq<Monotonicity> {
    Seq::new(n as nat, |i: int| Monotonicity::Unknown)
}

/// A freshly created argument-qualifier list: all `Unknown`.
pub open spec fn unknown_essentialities(n: usize) -> Seq<Essentiality> {
    Seq::new(n as nat, |i: int| Essentiality::Unknown)
}

/// The state of the model editor.
#[derive(Clone, Debug, PartialEq, Eq)]
pub struct ModelState {
    pub variables: Table<VarInfo>,
    pub regulations: Table<Regulation>,
    pub layouts: Table<Layout>,
    pub uninterpreted_fns: Table<UninterpretedFn>,
}

impl View for ModelState {
    type V = ModelV;

    open spec fn view(&self) -> ModelV {
        ModelV {
            variables: self.variables@,
            regulations: self.regulations@,
            layouts: self.layouts@,
            uninterpreted_fns: self.uninterpreted_fns@,
        }
    }
}

/// The id of the layout every model starts with.
pub open spec fn spec_default_layout_id() -> Seq<char> {
    "default"@
}

impl ModelState {
    /// Well-formedness of the state.
    pub open spec fn wf(self) -> bool {
        model_wf(self@)
    }

    /// An empty model with one default layout.
    pub fn new() -> (r: ModelState)
        ensures
            r.wf(),
            r@.variables =~= Seq::<(Seq<char>, VarV)>::empty(),
            r@.regulations =~= Seq::<(Seq<char>, RegV)>::empty(),
            r@.uninterpreted_fns =~= Seq::<(Seq<char>, UfnV)>::empty(),
            r@.layouts =~= seq![
                (spec_default_layout_id(), (spec_default_layout_id(), Seq::<
                    (Seq<char>, (Seq<char>, Seq<char>)),
                >::empty())),
            ],
    {
        let mut layouts: Table<Layout> = Table::new();
        let name = String::from_str("default");
        let layout = Layout { name, nodes: Table::new() };
        layouts.insert_new(String::from_str("default"), layout);
        let r = ModelState {
            variables: Table::new(),
            regulations: Table::new(),
            layouts,
            uninterpreted_fns: Table::new(),
        };
        proof {
            assert(r@.layouts =~= seq![
                (spec_default_layout_id(), (spec_default_layout_id(), Seq::<
                    (Seq<char>, (Seq<char>, Seq<char>)),
                >::empty())),
            ]);
        }
        r
    }

    /// The id of the layout every model starts with.
    pub fn get_default_layout_id() -> (r: LayoutId)
        ensures
            r@ == spec_default_layout_id(),
    {
        LayoutId { id: String::from_str("default") }
    }

    /// Number of variables.
    pub fn num_vars(&self) -> (r: usize)
        ensures
            r == self@.variables.len(),
    {
        self.variables.len()
    }

    /// Number of regulations.
    pub fn num_regulations(&self) -> (r: usize)
        ensures
            r == self@.regulations.len(),
    {
        self.regulations.len()
    }

    /// Whether `id` names a variable of this model.
    pub fn is_valid_var_id(&self, id: &VarId) -> (r: bool)
        ensures
            r == tbl_contains(self@.variables, id@),
    {
        self.variables.contains_key(id.as_str())
    }

    /// The typed id for the variable named by `id`, if it exists.
    pub fn get_var_id(&self, id: &str) -> (r: Result<VarId, String>)
        ensures
            match r {
                Ok(v) => v@ == id@ && is_valid_id(id@) && tbl_contains(self@.variables, id@),
                Err(_) => !is_valid_id(id@) || !tbl_contains(self@.variables, id@),
            },
    {
        let vid = VarId::new(id)?;
        if self.variables.contains_key(id) {
            Ok(vid)
        } else {
            Err(String::from_str("no such variable"))
        }
    }

    /// The name of variable `id`.
    pub fn get_var_name(&self, id: &VarId) -> (r: Result<String, String>)
        ensures
            match r {
                Ok(name) => tbl_get(self@.variables, id@) matches Some(v) && v.0 == name@,
                Err(_) => !tbl_contains(self@.variables, id@),
            },
    {
        proof {
            if tbl_contains(self@.variables, id@) {
                lemma_contains_get_some(self@.variables, id@);
            }
            match tbl_get(self@.variables, id@) {
                Some(v) => lemma_get_some_contains(self@.variables, id@, v),
                None => {},
            }
        }
        match self.variables.get(id.as_str()) {
            Some(info) => Ok(String::from_str(info.variable.get_name())),
            None => Err(String::from_str("no such variable")),
        }
    }

    /// The update function expression of variable `id`.
    pub fn get_update_fn_string(&self, id: &VarId) -> (r: Result<String, String>)
        ensures
            match r {
                Ok(expr) => tbl_get(self@.variables, id@) matches Some(v) && v.1 == expr@,
                Err(_) => !tbl_contains(self@.variables, id@),
            },
    {
        proof {
            if tbl_contains(self@.variables, id@) {
                lemma_contains_get_some(self@.variables, id@);
            }
            match tbl_get(self@.variables, id@) {
                Some(v) => lemma_get_some_contains(self@.variables, id@, v),
                None => {},
            }
        }
        match self.variables.get(id.as_str()) {
            Some(info) => Ok(String::from_str(info.update_fn.get_fn_expression())),
            None => Err(String::from_str("no such variable")),
        }
    }

    /// The position of variable `var`'s node in layout `layout`.
    pub fn get_node_position(&self, layout: &LayoutId, var: &VarId) -> (r: Result<
        &NodePosition,
        String,
    >)
        ensures
            match r {
                Ok(p) => tbl_get(self@.layouts, layout@) matches Some(l) && tbl_get(l.1, var@)
                    == Some(p@),
                Err(_) => tbl_get(self@.layouts, layout@) matches Some(l) ==> tbl_get(l.1, var@)
                    is None,
            },
    {
        let l = match self.layouts.get(layout.as_str()) {
            Some(l) => l,
            None => {
                return Err(String::from_str("no such layout"));
            },
        };
        match l.nodes.get(var.as_str()) {
            Some(p) => Ok(p),
            None => Err(String::from_str("no node for this variable")),
        }
    }

    /// Give every layout a node for `id` at the default position.
    fn add_node_all_layouts(&mut self, id: &str)
        requires
            tbl_sorted(old(self)@.layouts),
            forall|i: int|
                0 <= i < old(self)@.layouts.len() ==> tbl_sorted(
                    (#[trigger] old(self)@.layouts[i]).1.1,
                ) && !tbl_contains(old(self)@.layouts[i].1.1, id@),
        ensures
            final(self)@.layouts == layouts_add_node(old(self)@.layouts, id@),
            tbl_sorted(final(self)@.layouts),
            final(self).variables == old(self).variables,
            final(self).regulations == old(self).regulations,
            final(self).uninterpreted_fns == old(self).uninterpreted_fns,
    {
        let ghost ls0 = self@.layouts;
        let n = self.layouts.entries.len();
        let mut j: usize = 0;
        while j < n
            invariant
                j <= n,
                n == self.layouts.entries@.len(),
                n == ls0.len(),
                ls0 == old(self)@.layouts,
                forall|i: int|
                    0 <= i < n ==> tbl_sorted((#[trigger] ls0[i]).1.1) && !tbl_contains(
                        ls0[i].1.1,
                        id@,
                    ),
                self.variables == old(self).variables,
                self.regulations == old(self).regulations,
                self.uninterpreted_fns == old(self).uninterpreted_fns,
                forall|i: int|
                    0 <= i < j ==> (#[trigger] self@.layouts[i]) == (
                        ls0[i].0,
                        (ls0[i].1.0, tbl_insert(ls0[i].1.1, id@, default_position())),
                    ),
                forall|i: int| j <= i < n ==> (#[trigger] self@.layouts[i]) == ls0[i],
                forall|i: int|
                    0 <= i < n ==> (#[trigger] self@.layouts[i]) == self.layouts.entries@[i]@,
            decreases n - j,
        {
            let ghost pre = self@.layouts;
            let ghost ents0 = self.layouts.entries@;
            proof {
                assert(pre[j as int] == ls0[j as int]);
                assert(tbl_sorted((old(self)@.layouts[j as int]).1.1));
                assert(!tbl_contains(old(self)@.layouts[j as int].1.1, id@));
            }
            let mut e = self.layouts.entries.remove(j);
            proof {
                assert(e@ == pre[j as int]);
                assert(e.val.nodes@ == pre[j as int].1.1);
                assert(tbl_sorted(e.val.nodes@));
                assert(!tbl_contains(e.val.nodes@, id@));
            }
            e.val.nodes.insert_new(
                String::from_str(id),
                NodePosition(String::from_str("0"), String::from_str("0")),
            );
            let ghost enew = e;
            self.layouts.entries.insert(j, e);
            proof {
                assert(self.layouts.entries@ =~= ents0.update(j as int, enew));
                assert(forall|i: int| 0 <= i < n && i != j ==> self@.layouts[i] == pre[i]);
                assert(enew@.0 == pre[j as int].0);
                assert(enew@.1.0 == pre[j as int].1.0);
                assert(enew@.1.1 == tbl_insert(pre[j as int].1.1, id@, default_position()));
                assert(self@.layouts[j as int] == enew@);
                assert(pre[j as int] == ls0[j as int]);
                assert(enew@ == (
                    ls0[j as int].0,
                    (ls0[j as int].1.0, tbl_insert(ls0[j as int].1.1, id@, default_position())),
                ));
                assert forall|i: int| 0 <= i < j + 1 implies (#[trigger] self@.layouts[i]) == (
                    ls0[i].0,
                    (ls0[i].1.0, tbl_insert(ls0[i].1.1, id@, default_position())),
                ) by {
                    if i < j {
                        assert(self@.layouts[i] == pre[i]);
                    } else {
                        assert(self@.layouts[i] == enew@);
                    }
                }
                assert forall|i: int| j + 1 <= i < n implies (#[trigger] self@.layouts[i])
                    == ls0[i] by {
                    assert(self@.layouts[i] == pre[i]);
                    assert(pre[i] == ls0[i]);
                }
            }
            j += 1;
        }
        proof {
            assert(self@.layouts =~= layouts_add_node(ls0, id@));
            assert forall|i: int, k: int| 0 <= i < k < self@.layouts.len() implies crate::text::lex_lt(
                (#[trigger] self@.layouts[i]).0,
                (#[trigger] self@.layouts[k]).0,
            ) by {
                assert(self@.layouts[i].0 == ls0[i].0);
                assert(self@.layouts[k].0 == ls0[k].0);
            }
        }
    }

    /// Take the node for `id` out of every layout.
    fn remove_node_all_layouts(&mut self, id: &str)
        requires
            tbl_sorted(old(self)@.layouts),
            forall|i: int|
                0 <= i < old(self)@.layouts.len() ==> tbl_sorted(
                    (#[trigger] old(self)@.layouts[i]).1.1,
                ),
        ensures
            final(self)@.layouts == layouts_remove_node(old(self)@.layouts, id@),
            tbl_sorted(final(self)@.layouts),
            final(self).variables == old(self).variables,
            final(self).regulations == old(self).regulations,
            final(self).uninterpreted_fns == old(self).uninterpreted_fns,
    {
        let ghost ls0 = self@.layouts;
        let n = self.layouts.entries.len();
        let mut j: usize = 0;
        while j < n
            invariant
                j <= n,
                n == self.layouts.entries@.len(),
                n == ls0.len(),
                ls0 == old(self)@.layouts,
                forall|i: int| 0 <= i < n ==> tbl_sorted((#[trigger] ls0[i]).1.1),
                self.variables == old(self).variables,
                self.regulations == old(self).regulations,
                self.uninterpreted_fns == old(self).uninterpreted_fns,
                forall|i: int|
                    0 <= i < j ==> (#[trigger] self@.layouts[i]) == (
                        ls0[i].0,
                        (ls0[i].1.0, tbl_remove(ls0[i].1.1, id@)),
                    ),
                forall|i: int| j <= i < n ==> (#[trigger] self@.layouts[i]) == ls0[i],
            decreases n - j,
        {
            let ghost pre = self@.layouts;
            let ghost ents0 = self.layouts.entries@;
            proof {
                assert(pre[j as int] == ls0[j as int]);
            }
            let mut e = self.layouts.entries.remove(j);
            proof {
                assert(e@ == pre[j as int]);
                assert(e.val.nodes@ == pre[j as int].1.1);
                assert(tbl_sorted(e.val.nodes@));
            }
            let _ = e.val.nodes.remove(id);
            let ghost enew = e;
            self.layouts.entries.insert(j, e);
            proof {
                assert(self.layouts.entries@ =~= ents0.update(j as int, enew));
                assert(forall|i: int| 0 <= i < n && i != j ==> self@.layouts[i] == pre[i]);
                assert(enew@.0 == pre[j as int].0);
                assert(enew@.1.0 == pre[j as int].1.0);
                assert(enew@.1.1 == tbl_remove(pre[j as int].1.1, id@));
                assert(self@.layouts[j as int] == enew@);
                assert(enew@ == (
                    ls0[j as int].0,
                    (ls0[j as int].1.0, tbl_remove(ls0[j as int].1.1, id@)),
                ));
                assert forall|i: int| 0 <= i < j + 1 implies (#[trigger] self@.layouts[i]) == (
                    ls0[i].0,
                    (ls0[i].1.0, tbl_remove(ls0[i].1.1, id@)),
                ) by {
                    if i < j {
                        assert(self@.layouts[i] == pre[i]);
                    } else {
                        assert(self@.layouts[i] == enew@);
                    }
                }
                assert forall|i: int| j + 1 <= i < n implies (#[trigger] self@.layouts[i])
                    == ls0[i] by {
                    assert(self@.layouts[i] == pre[i]);
                    assert(pre[i] == ls0[i]);
                }
            }
            j += 1;
        }
        proof {
            assert(self@.layouts =~= layouts_remove_node(ls0, id@));
            assert forall|i: int, k: int|
                0 <= i < k < self@.layouts.len() implies crate::text::lex_lt(
                (#[trigger] self@.layouts[i]).0,
                (#[trigger] self@.layouts[k]).0,
            ) by {
                assert(self@.layouts[i].0 == ls0[i].0);
                assert(self@.layouts[k].0 == ls0[k].0);
            }
        }
    }

    /// Sanitize `name` into a valid identifier.
    pub(crate) fn sanitize_id(name: &str) -> (r: String)
        ensures
            is_valid_id(r@),
    {
        let n = name.unicode_len();
        let mut out = String::new();
        let mut i: usize = 0;
        while i < n
            invariant
                i <= n,
                n == name@.len(),
                forall|j: int| 0 <= j < out@.len() ==> is_id_char(#[trigger] out@[j]),
            decreases n - i,
        {
            let c = name.get_char(i);
            let u = c as u32;
            let ok = ('a' as u32 <= u && u <= 'z' as u32) || ('A' as u32 <= u && u <= 'Z' as u32)
                || ('0' as u32 <= u && u <= '9' as u32) || c == '_';
            if ok {
                let piece = name.substring_char(i, i + 1);
                let ghost pre = out@;
                out.append(piece);
                proof {
                    assert(piece@ =~= seq![name@[i as int]]);
                    assert(forall|j: int|
                        0 <= j < out@.len() ==> out@[j] == if j < pre.len() {
                            pre[j]
                        } else {
                            name@[i as int]
                        });
                }
            }
            i += 1;
        }
        if out.as_str().unicode_len() == 0 {
            proof {
                reveal_strlit("v");
                assert("v"@[0] == 'v');
                assert(is_id_char('v'));
            }
            String::from_str("v")
        } else {
            out
        }
    }

    /// A valid identifier derived from `name` that no entry of `t` uses.
    pub(crate) fn fresh_valid_id<V: View>(t: &Table<V>, name: &str) -> (r: String)
        ensures
            is_valid_id(r@),
            !tbl_contains(t@, r@),
    {
        let mut cand = Self::sanitize_id(name);
        proof {
            reveal_strlit("_");
            assert("_"@[0] == '_');
        }
        while t.contains_key(cand.as_str())
            invariant
                is_valid_id(cand@),
                "_"@ =~= seq!['_'],
            decreases crate::table::tbl_max_key_len(t@) + 1 - cand@.len(),
        {
            proof {
                crate::table::lemma_contains_key_len(t@, cand@);
            }
            let ghost pre = cand@;
            cand.append("_");
            proof {
                assert(forall|j: int|
                    0 <= j < cand@.len() ==> cand@[j] == if j < pre.len() {
                        pre[j]
                    } else {
                        '_'
                    });
                assert(is_id_char('_'));
            }
        }
        cand
    }

    /// A fresh variable id derived from `name`.
    pub fn generate_var_id(&self, name: &str) -> (r: VarId)
        ensures
            is_valid_id(r@),
            !tbl_contains(self@.variables, r@),
    {
        VarId { id: Self::fresh_valid_id(&self.variables, name) }
    }

    /// A fresh uninterpreted-function id derived from `name`.
    pub fn generate_uninterpreted_fn_id(&self, name: &str) -> (r: VarId)
        ensures
            is_valid_id(r@),
            !tbl_contains(self@.uninterpreted_fns, r@),
    {
        VarId { id: Self::fresh_valid_id(&self.uninterpreted_fns, name) }
    }

    /// Add variable `id` named `name`, with an empty update function and a
    /// node at the default position in every layout. Fails, changing
    /// nothing, exactly when `id` is invalid or already taken.
    pub fn add_var(&mut self, id: VarId, name: &str) -> (r: Result<(), String>)
        requires
            old(self).wf(),
        ensures
            final(self).wf(),
            match r {
                Ok(_) => {
                    &&& is_valid_id(id@)
                    &&& !tbl_contains(old(self)@.variables, id@)
                    &&& final(self)@.variables == tbl_insert(
                        old(self)@.variables,
                        id@,
                        (name@, ""@),
                    )
                    &&& final(self)@.layouts == layouts_add_node(old(self)@.layouts, id@)
                    &&& final(self)@.regulations == old(self)@.regulations
                    &&& final(self)@.uninterpreted_fns == old(self)@.uninterpreted_fns
                },
                Err(_) => {
                    &&& !is_valid_id(id@) || tbl_contains(old(self)@.variables, id@)
                    &&& *final(self) == *old(self)
                },
            },
    {
        proof {
            reveal_strlit("");
            assert(""@ =~= Seq::<char>::empty());
        }
        self.add_var_full(id, name, "")
    }

    /// Add variable `id` with `name` and the given update function
    /// expression, and a node at the default position in every layout.
    /// Fails, changing nothing, exactly when `id` is invalid or taken.
    pub fn add_var_full(&mut self, id: VarId, name: &str, update_fn: &str) -> (r: Result<
        (),
        String,
    >)
        requires
            old(self).wf(),
        ensures
            final(self).wf(),
            match r {
                Ok(_) => {
                    &&& is_valid_id(id@)
                    &&& !tbl_contains(old(self)@.variables, id@)
                    &&& final(self)@.variables == tbl_insert(
                        old(self)@.variables,
                        id@,
                        (name@, update_fn@),
                    )
                    &&& final(self)@.layouts == layouts_add_node(old(self)@.layouts, id@)
                    &&& final(self)@.regulations == old(self)@.regulations
                    &&& final(self)@.uninterpreted_fns == old(self)@.uninterpreted_fns
                },
                Err(_) => {
                    &&& !is_valid_id(id@) || tbl_contains(old(self)@.variables, id@)
                    &&& *final(self) == *old(self)
                },
            },
    {
        if !check_valid_id(id.as_str()) {
            return Err(String::from_str("invalid variable identifier"));
        }
        if self.variables.contains_key(id.as_str()) {
            return Err(String::from_str("a variable with this id already exists"));
        }
        let info = VarInfo {
            variable: Variable { name: String::from_str(name) },
            update_fn: UpdateFn { expression: String::from_str(update_fn) },
        };
        proof {
            assert(info@ == (name@, update_fn@));
        }
        let ghost m0 = self@;
        self.variables.insert_new(String::from_str(id.as_str()), info);
        self.add_node_all_layouts(id.as_str());
        proof {
            lemma_add_var_wf(m0, self@, id@, (name@, update_fn@));
        }
        Ok(())
    }

    /// Add variable `id` named `name`, validating the id text.
    pub fn add_var_by_str(&mut self, id: &str, name: &str) -> (r: Result<(), String>)
        requires
            old(self).wf(),
        ensures
            final(self).wf(),
            match r {
                Ok(_) => {
                    &&& is_valid_id(id@)
                    &&& !tbl_contains(old(self)@.variables, id@)
                    &&& final(self)@.variables == tbl_insert(
                        old(self)@.variables,
                        id@,
                        (name@, ""@),
                    )
                    &&& final(self)@.layouts == layouts_add_node(old(self)@.layouts, id@)
                    &&& final(self)@.regulations == old(self)@.regulations
                    &&& final(self)@.uninterpreted_fns == old(self)@.uninterpreted_fns
                },
                Err(_) => {
                    &&& !is_valid_id(id@) || tbl_contains(old(self)@.variables, id@)
                    &&& *final(self) == *old(self)
                },
            },
    {
        let vid = VarId::new(id)?;
        self.add_var(vid, name)
    }

    /// Whether any regulation uses variable `id` as regulator or target.
    pub fn has_regulation_of(&self, id: &str) -> (r: bool)
        ensures
            r == references_var(self@.regulations, id@),
    {
        let n = self.regulations.entries.len();
        let mut i: usize = 0;
        while i < n
            invariant
                i <= n,
                n == self.regulations.entries@.len(),
                n == self@.regulations.len(),
                forall|j: int|
                    0 <= j < i ==> (#[trigger] self@.regulations[j]).1.0 != id@
                        && self@.regulations[j].1.1 != id@,
            decreases n - i,
        {
            proof {
                assert(self@.regulations[i as int] == self.regulations.entries@[i as int]@);
            }
            let e = &self.regulations.entries[i];
            if str_eq(e.val.regulator.as_str(), id) || str_eq(e.val.target.as_str(), id) {
                proof {
                    assert(self@.regulations[i as int].1.0 == id@ || self@.regulations[
                        i as int
                    ].1.1 == id@);
                }
                return true;
            }
            i += 1;
        }
        false
    }

    /// The regulations using variable `id` as regulator or target, in stored
    /// order.
    pub fn regulations_of(&self, id: &str) -> (r: Vec<Regulation>)
        ensures
            r@.map_values(|g: Regulation| g@) == regs_referencing(self@.regulations, id@),
    {
        let ghost rs = self@.regulations;
        let n = self.regulations.entries.len();
        let mut out: Vec<Regulation> = Vec::new();
        let mut i: usize = 0;
        proof {
            assert(rs.skip(0) =~= rs);
            assert(out@.map_values(|g: Regulation| g@) =~= Seq::<RegV>::empty());
            assert(Seq::<RegV>::empty() + regs_referencing(rs.skip(0), id@) =~= regs_referencing(
                rs.skip(0),
                id@,
            ));
        }
        while i < n
            invariant
                i <= n,
                n == self.regulations.entries@.len(),
                n == rs.len(),
                rs == self@.regulations,
                regs_referencing(rs, id@) == out@.map_values(|g: Regulation| g@)
                    + regs_referencing(rs.skip(i as int), id@),
            decreases n - i,
        {
            proof {
                assert(rs[i as int] == self.regulations.entries@[i as int]@);
                assert(rs.skip(i as int).first() == rs[i as int]);
                assert(rs.skip(i as int).drop_first() =~= rs.skip(i as int + 1));
            }
            let e = &self.regulations.entries[i];
            if str_eq(e.val.regulator.as_str(), id) || str_eq(e.val.target.as_str(), id) {
                let ghost outpre = out@;
                out.push(
                    Regulation {
                        regulator: e.val.regulator.clone(),
                        target: e.val.target.clone(),
                        sign: e.val.sign,
                        observable: e.val.observable,
                    },
                );
                proof {
                    assert(out@[outpre.len() as int]@ == rs[i as int].1);
                    assert(out@.map_values(|g: Regulation| g@) =~= outpre.map_values(
                        |g: Regulation| g@,
                    ).push(rs[i as int].1));
                    assert(regs_referencing(rs.skip(i as int), id@) == seq![rs[i as int].1]
                        + regs_referencing(rs.skip(i as int + 1), id@));
                    assert(outpre.map_values(|g: Regulation| g@) + (seq![rs[i as int].1]
                        + regs_referencing(rs.skip(i as int + 1), id@)) =~= out@.map_values(
                        |g: Regulation| g@,
                    ) + regs_referencing(rs.skip(i as int + 1), id@));
                }
            } else {
                proof {
                    assert(regs_referencing(rs.skip(i as int), id@) == regs_referencing(
                        rs.skip(i as int + 1),
                        id@,
                    ));
                }
            }
            i += 1;
        }
        proof {
            assert(rs.skip(n as int).len() == 0);
            assert(regs_referencing(rs.skip(n as int), id@) =~= Seq::<RegV>::empty());
            assert(out@.map_values(|g: Regulation| g@) + Seq::<RegV>::empty() =~= out@.map_values(
                |g: Regulation| g@,
            ));
        }
        out
    }

    /// Remove variable `id` and its node in every layout, returning the
    /// removed record. Fails, changing nothing, exactly when `id` is unknown
    /// or some regulation still references it.
    pub fn remove_var(&mut self, id: &str) -> (r: Result<VarInfo, String>)
        requires
            old(self).wf(),
        ensures
            final(self).wf(),
            match r {
                Ok(info) => {
                    &&& tbl_get(old(self)@.variables, id@) == Some(info@)
                    &&& !references_var(old(self)@.regulations, id@)
                    &&& final(self)@.variables == tbl_remove(old(self)@.variables, id@)
                    &&& final(self)@.layouts == layouts_remove_node(old(self)@.layouts, id@)
                    &&& final(self)@.regulations == old(self)@.regulations
                    &&& final(self)@.uninterpreted_fns == old(self)@.uninterpreted_fns
                },
                Err(_) => {
                    &&& !tbl_contains(old(self)@.variables, id@) || references_var(
                        old(self)@.regulations,
                        id@,
                    )
                    &&& *final(self) == *old(self)
                },
            },
    {
        if !self.variables.contains_key(id) {
            return Err(String::from_str("no such variable"));
        }
        if self.has_regulation_of(id) {
            return Err(String::from_str("the variable is still regulated"));
        }
        let ghost m0 = self@;
        let info = match self.variables.remove(id) {
            Some(info) => info,
            None => {
                proof {
                    assert(false);
                }
                return Err(String::new());
            },
        };
        self.remove_node_all_layouts(id);
        proof {
            lemma_remove_var_wf(m0, self@, id@);
        }
        Ok(info)
    }

    /// Rename variable `id`, returning the previous name. Fails, changing
    /// nothing, exactly when `id` is unknown.
    pub fn set_var_name(&mut self, id: &str, name: &str) -> (r: Result<String, String>)
        requires
            old(self).wf(),
        ensures
            final(self).wf(),
            match r {
                Ok(old_name) => {
                    &&& tbl_get(old(self)@.variables, id@) matches Some(v) && v.0 == old_name@
                        && final(self)@.variables == tbl_update(
                        old(self)@.variables,
                        id@,
                        (name@, v.1),
                    )
                    &&& final(self)@.layouts == old(self)@.layouts
                    &&& final(self)@.regulations == old(self)@.regulations
                    &&& final(self)@.uninterpreted_fns == old(self)@.uninterpreted_fns
                },
                Err(_) => {
                    &&& !tbl_contains(old(self)@.variables, id@)
                    &&& *final(self) == *old(self)
                },
            },
    {
        let n = self.variables.entries.len();
        let mut i: usize = 0;
        proof {
            assert(self@.variables.skip(0) =~= self@.variables);
        }
        while i < n
            invariant
                i <= n,
                n == self.variables.entries@.len(),
                *self == *old(self),
                old(self).wf(),
                tbl_contains(self@.variables, id@) == tbl_contains(
                    self@.variables.skip(i as int),
                    id@,
                ),
                tbl_get(self@.variables, id@) == tbl_get(self@.variables.skip(i as int), id@),
                forall|j: int| 0 <= j < i ==> (#[trigger] self@.variables[j]).0 != id@,
            decreases n - i,
        {
            proof {
                assert(self@.variables.skip(i as int).first() == self@.variables[i as int]);
                assert(self@.variables[i as int] == self.variables.entries@[i as int]@);
            }
            if str_eq(self.variables.entries[i].key.as_str(), id) {
                let ghost m0 = self@;
                let ghost ents0 = self.variables.entries@;
                let mut e = self.variables.entries.remove(i);
                let old_name = String::from_str(e.val.variable.get_name());
                e.val.variable.name = String::from_str(name);
                let ghost enew = e;
                self.variables.entries.insert(i, e);
                proof {
                    assert(self.variables.entries@ =~= ents0.update(i as int, enew));
                    assert(self@.variables =~= m0.variables.update(
                        i as int,
                        (id@, (name@, m0.variables[i as int].1.1)),
                    ));
                    lemma_tbl_update_at(
                        m0.variables,
                        id@,
                        (name@, m0.variables[i as int].1.1),
                        i as int,
                    );
                    assert(tbl_get(m0.variables, id@) == tbl_get(
                        m0.variables.skip(i as int),
                        id@,
                    ));
                    assert(m0.variables.skip(i as int).first() == m0.variables[i as int]);
                    assert(tbl_get(m0.variables, id@) == Some(m0.variables[i as int].1));
                    lemma_update_var_wf(m0, self@, id@, (name@, m0.variables[i as int].1.1));
                }
                return Ok(old_name);
            }
            proof {
                assert(self@.variables.skip(i as int).drop_first() =~= self@.variables.skip(
                    i as int + 1,
                ));
            }
            i += 1;
        }
        proof {
            assert(self@.variables.skip(n as int).len() == 0);
        }
        Err(String::from_str("no such variable"))
    }

    /// Replace variable `id`'s update function, returning the previous
    /// expression. Fails, changing nothing, exactly when `id` is unknown.
    pub fn set_update_fn(&mut self, id: &str, expression: &str) -> (r: Result<String, String>)
        requires
            old(self).wf(),
        ensures
            final(self).wf(),
            match r {
                Ok(old_expr) => {
                    &&& tbl_get(old(self)@.variables, id@) matches Some(v) && v.1 == old_expr@
                        && final(self)@.variables == tbl_update(
                        old(self)@.variables,
                        id@,
                        (v.0, expression@),
                    )
                    &&& final(self)@.layouts == old(self)@.layouts
                    &&& final(self)@.regulations == old(self)@.regulations
                    &&& final(self)@.uninterpreted_fns == old(self)@.uninterpreted_fns
                },
                Err(_) => {
                    &&& !tbl_contains(old(self)@.variables, id@)
                    &&& *final(self) == *old(self)
                },
            },
    {
        let n = self.variables.entries.len();
        let mut i: usize = 0;
        proof {
            assert(self@.variables.skip(0) =~= self@.variables);
        }
        while i < n
            invariant
                i <= n,
                n == self.variables.entries@.len(),
                *self == *old(self),
                old(self).wf(),
                tbl_contains(self@.variables, id@) == tbl_contains(
                    self@.variables.skip(i as int),
                    id@,
                ),
                tbl_get(self@.variables, id@) == tbl_get(self@.variables.skip(i as int), id@),
                forall|j: int| 0 <= j < i ==> (#[trigger] self@.variables[j]).0 != id@,
            decreases n - i,
        {
            proof {
                assert(self@.variables.skip(i as int).first() == self@.variables[i as int]);
                assert(self@.variables[i as int] == self.variables.entries@[i as int]@);
            }
            if str_eq(self.variables.entries[i].key.as_str(), id) {
                let ghost m0 = self@;
                let ghost ents0 = self.variables.entries@;
                let mut e = self.variables.entries.remove(i);
                let old_expr = String::from_str(e.val.update_fn.get_fn_expression());
                e.val.update_fn.expression = String::from_str(expression);
                let ghost enew = e;
                self.variables.entries.insert(i, e);
                proof {
                    assert(self.variables.entries@ =~= ents0.update(i as int, enew));
                    assert(self@.variables =~= m0.variables.update(
                        i as int,
                        (id@, (m0.variables[i as int].1.0, expression@)),
                    ));
                    lemma_tbl_update_at(
                        m0.variables,
                        id@,
                        (m0.variables[i as int].1.0, expression@),
                        i as int,
                    );
                    assert(tbl_get(m0.variables, id@) == tbl_get(
                        m0.variables.skip(i as int),
                        id@,
                    ));
                    assert(m0.variables.skip(i as int).first() == m0.variables[i as int]);
                    assert(tbl_get(m0.variables, id@) == Some(m0.variables[i as int].1));
                    lemma_update_var_wf(
                        m0,
                        self@,
                        id@,
                        (m0.variables[i as int].1.0, expression@),
                    );
                }
                return Ok(old_expr);
            }
            proof {
                assert(self@.variables.skip(i as int).drop_first() =~= self@.variables.skip(
                    i as int + 1,
                ));
            }
            i += 1;
        }
        proof {
            assert(self@.variables.skip(n as int).len() == 0);
        }
        Err(String::from_str("no such variable"))
    }

    /// Re-key the node for `old_id` to `new_id` in every layout.
    fn move_node_all_layouts(&mut self, old_id: &str, new_id: &str)
        requires
            tbl_sorted(old(self)@.layouts),
            forall|i: int|
                0 <= i < old(self)@.layouts.len() ==> tbl_sorted(
                    (#[trigger] old(self)@.layouts[i]).1.1,
                ) && tbl_contains(old(self)@.layouts[i].1.1, old_id@) && !tbl_contains(
                    old(self)@.layouts[i].1.1,
                    new_id@,
                ),
            old_id@ != new_id@,
        ensures
            final(self)@.layouts == layouts_move_node(old(self)@.layouts, old_id@, new_id@),
            tbl_sorted(final(self)@.layouts),
            final(self).variables == old(self).variables,
            final(self).regulations == old(self).regulations,
            final(self).uninterpreted_fns == old(self).uninterpreted_fns,
    {
        let ghost ls0 = self@.layouts;
        let n = self.layouts.entries.len();
        let mut j: usize = 0;
        while j < n
            invariant
                j <= n,
                n == self.layouts.entries@.len(),
                n == ls0.len(),
                ls0 == old(self)@.layouts,
                old_id@ != new_id@,
                forall|i: int|
                    0 <= i < n ==> tbl_sorted((#[trigger] ls0[i]).1.1) && tbl_contains(
                        ls0[i].1.1,
                        old_id@,
                    ) && !tbl_contains(ls0[i].1.1, new_id@),
                self.variables == old(self).variables,
                self.regulations == old(self).regulations,
                self.uninterpreted_fns == old(self).uninterpreted_fns,
                forall|i: int|
                    0 <= i < j ==> (#[trigger] self@.layouts[i]) == (
                        ls0[i].0,
                        (ls0[i].1.0, move_node(ls0[i].1.1, old_id@, new_id@)),
                    ),
                forall|i: int| j <= i < n ==> (#[trigger] self@.layouts[i]) == ls0[i],
            decreases n - j,
        {
            let ghost pre = self@.layouts;
            let ghost ents0 = self.layouts.entries@;
            proof {
                assert(pre[j as int] == ls0[j as int]);
            }
            let mut e = self.layouts.entries.remove(j);
            proof {
                assert(e@ == pre[j as int]);
                assert(e.val.nodes@ == pre[j as int].1.1);
                assert(tbl_sorted(e.val.nodes@));
                assert(tbl_contains(e.val.nodes@, old_id@));
                lemma_contains_get_some(e.val.nodes@, old_id@);
            }
            let pos = match e.val.nodes.remove(old_id) {
                Some(pos) => pos,
                None => {
                    proof {
                        assert(false);
                    }
                    NodePosition(String::new(), String::new())
                },
            };
            proof {
                lemma_remove_props(ls0[j as int].1.1, old_id@);
                assert(!tbl_contains(e.val.nodes@, new_id@));
            }
            e.val.nodes.insert_new(String::from_str(new_id), pos);
            let ghost enew = e;
            self.layouts.entries.insert(j, e);
            proof {
                assert(self.layouts.entries@ =~= ents0.update(j as int, enew));
                assert(forall|i: int| 0 <= i < n && i != j ==> self@.layouts[i] == pre[i]);
                assert(enew@.0 == pre[j as int].0);
                assert(enew@.1.0 == pre[j as int].1.0);
                assert(enew@.1.1 == move_node(ls0[j as int].1.1, old_id@, new_id@));
                assert(self@.layouts[j as int] == enew@);
                assert(enew@ == (
                    ls0[j as int].0,
                    (ls0[j as int].1.0, move_node(ls0[j as int].1.1, old_id@, new_id@)),
                ));
                assert forall|i: int| 0 <= i < j + 1 implies (#[trigger] self@.layouts[i]) == (
                    ls0[i].0,
                    (ls0[i].1.0, move_node(ls0[i].1.1, old_id@, new_id@)),
                ) by {
                    if i < j {
                        assert(self@.layouts[i] == pre[i]);
                    } else {
                        assert(self@.layouts[i] == enew@);
                    }
                }
                assert forall|i: int| j + 1 <= i < n implies (#[trigger] self@.layouts[i])
                    == ls0[i] by {
                    assert(self@.layouts[i] == pre[i]);
                    assert(pre[i] == ls0[i]);
                }
            }
            j += 1;
        }
        proof {
            assert(self@.layouts =~= layouts_move_node(ls0, old_id@, new_id@));
            assert forall|i: int, k: int|
                0 <= i < k < self@.layouts.len() implies crate::text::lex_lt(
                (#[trigger] self@.layouts[i]).0,
                (#[trigger] self@.layouts[k]).0,
            ) by {
                assert(self@.layouts[i].0 == ls0[i].0);
                assert(self@.layouts[k].0 == ls0[k].0);
            }
        }
    }

    /// Change variable `original`'s id to `new_id`, re-keying its layout
    /// nodes. Fails, changing nothing, exactly when `original` is unknown,
    /// `new_id` is invalid or taken, or some regulation still references
    /// `original`.
    pub fn set_var_id(&mut self, original: &VarId, new_id: VarId) -> (r: Result<(), String>)
        requires
            old(self).wf(),
        ensures
            final(self).wf(),
            match r {
                Ok(_) => {
                    &&& tbl_get(old(self)@.variables, original@) matches Some(v) && final(self)@.variables == tbl_insert(
                        tbl_remove(old(self)@.variables, original@),
                        new_id@,
                        v,
                    )
                    &&& is_valid_id(new_id@)
                    &&& !tbl_contains(old(self)@.variables, new_id@)
                    &&& !references_var(old(self)@.regulations, original@)
                    &&& final(self)@.layouts == layouts_move_node(
                        old(self)@.layouts,
                        original@,
                        new_id@,
                    )
                    &&& final(self)@.regulations == old(self)@.regulations
                    &&& final(self)@.uninterpreted_fns == old(self)@.uninterpreted_fns
                },
                Err(_) => {
                    &&& !tbl_contains(old(self)@.variables, original@) || !is_valid_id(new_id@)
                        || tbl_contains(old(self)@.variables, new_id@) || references_var(
                        old(self)@.regulations,
                        original@,
                    )
                    &&& *final(self) == *old(self)
                },
            },
    {
        if !self.variables.contains_key(original.as_str()) {
            return Err(String::from_str("no such variable"));
        }
        if !check_valid_id(new_id.as_str()) {
            return Err(String::from_str("invalid variable identifier"));
        }
        if self.variables.contains_key(new_id.as_str()) {
            return Err(String::from_str("a variable with this id already exists"));
        }
        if self.has_regulation_of(original.as_str()) {
            return Err(String::from_str("the variable is still regulated"));
        }
        let ghost m0 = self@;
        let info = match self.variables.remove(original.as_str()) {
            Some(info) => info,
            None => {
                proof {
                    assert(false);
                }
                return Err(String::new());
            },
        };
        proof {
            lemma_remove_props(m0.variables, original@);
        }
        self.variables.insert_new(String::from_str(new_id.as_str()), info);
        self.move_node_all_layouts(original.as_str(), new_id.as_str());
        proof {
            lemma_set_var_id_wf(m0, self@, original@, new_id@, info@);
        }
        Ok(())
    }

    /// Build the key a regulation between `regulator` and `target` is
    /// stored under.
    fn make_reg_key(regulator: &str, target: &str) -> (r: String)
        ensures
            r@ == spec_reg_key(regulator@, target@),
    {
        proof {
            reveal_strlit(" ");
        }
        let mut key = String::from_str(regulator);
        key.append(" ");
        key.append(target);
        proof {
            assert(" "@ =~= seq![' ']);
            assert(key@ =~= spec_reg_key(regulator@, target@));
        }
        key
    }

    /// Add a regulation. Fails, changing nothing, exactly when an endpoint
    /// id is invalid or unknown, or the pair is already regulated.
    pub fn add_regulation(
        &mut self,
        regulator: &str,
        target: &str,
        sign: RegulationSign,
        observable: Observability,
    ) -> (r: Result<(), String>)
        requires
            old(self).wf(),
        ensures
            final(self).wf(),
            match r {
                Ok(_) => {
                    &&& is_valid_id(regulator@)
                    &&& is_valid_id(target@)
                    &&& tbl_contains(old(self)@.variables, regulator@)
                    &&& tbl_contains(old(self)@.variables, target@)
                    &&& !tbl_contains(
                        old(self)@.regulations,
                        spec_reg_key(regulator@, target@),
                    )
                    &&& final(self)@.regulations == tbl_insert(
                        old(self)@.regulations,
                        spec_reg_key(regulator@, target@),
                        (regulator@, target@, sign, observable),
                    )
                    &&& final(self)@.variables == old(self)@.variables
                    &&& final(self)@.layouts == old(self)@.layouts
                    &&& final(self)@.uninterpreted_fns == old(self)@.uninterpreted_fns
                },
                Err(_) => {
                    &&& !is_valid_id(regulator@) || !is_valid_id(target@) || !tbl_contains(
                        old(self)@.variables,
                        regulator@,
                    ) || !tbl_contains(old(self)@.variables, target@) || tbl_contains(
                        old(self)@.regulations,
                        spec_reg_key(regulator@, target@),
                    )
                    &&& *final(self) == *old(self)
                },
            },
    {
        if !check_valid_id(regulator) || !check_valid_id(target) {
            return Err(String::from_str("invalid identifier in a regulation"));
        }
        if !self.variables.contains_key(regulator) || !self.variables.contains_key(target) {
            return Err(String::from_str("a regulation endpoint does not exist"));
        }
        let key = Self::make_reg_key(regulator, target);
        if self.regulations.contains_key(key.as_str()) {
            return Err(String::from_str("this regulation already exists"));
        }
        let ghost m0 = self@;
        let reg = Regulation {
            regulator: String::from_str(regulator),
            target: String::from_str(target),
            sign,
            observable,
        };
        self.regulations.insert_new(key, reg);
        proof {
            lemma_add_reg_wf(m0, self@, (regulator@, target@, sign, observable));
        }
        Ok(())
    }

    /// Add the regulation a regulation string describes.
    pub fn add_regulation_by_str(&mut self, reg_str: &str) -> (r: Result<(), String>)
        requires
            old(self).wf(),
        ensures
            final(self).wf(),
            r is Err ==> *final(self) == *old(self),
            match crate::data_structs::spec_parse_reg_string(reg_str@) {
                Some(p) => r is Ok ==> {
                    &&& tbl_contains(old(self)@.variables, p.0)
                    &&& tbl_contains(old(self)@.variables, p.1)
                    &&& final(self)@.regulations == tbl_insert(
                        old(self)@.regulations,
                        spec_reg_key(p.0, p.1),
                        (p.0, p.1, p.2, p.3),
                    )
                    &&& final(self)@.variables == old(self)@.variables
                    &&& final(self)@.layouts == old(self)@.layouts
                    &&& final(self)@.uninterpreted_fns == old(self)@.uninterpreted_fns
                },
                None => r is Err,
            },
    {
        let reg = Regulation::try_from_string(reg_str)?;
        self.add_regulation(
            reg.regulator.as_str(),
            reg.target.as_str(),
            reg.sign,
            reg.observable,
        )
    }

    /// Add each regulation in the list, stopping at the first failure.
    pub fn add_multiple_regulations(&mut self, regulations: Vec<&str>) -> (r: Result<(), String>)
        requires
            old(self).wf(),
        ensures
            final(self).wf(),
            final(self)@.variables == old(self)@.variables,
            final(self)@.layouts == old(self)@.layouts,
            final(self)@.uninterpreted_fns == old(self)@.uninterpreted_fns,
    {
        let n = regulations.len();
        let mut i: usize = 0;
        while i < n
            invariant
                i <= n,
                n == regulations@.len(),
                self.wf(),
                self@.variables == old(self)@.variables,
                self@.layouts == old(self)@.layouts,
                self@.uninterpreted_fns == old(self)@.uninterpreted_fns,
            decreases n - i,
        {
            let res = self.add_regulation_by_str(regulations[i]);
            if res.is_err() {
                return Err(String::from_str("could not add a regulation"));
            }
            i += 1;
        }
        Ok(())
    }

    /// Remove the regulation between `regulator` and `target`, returning it.
    /// Fails, changing nothing, exactly when there is none.
    pub fn remove_regulation(&mut self, regulator: &str, target: &str) -> (r: Result<
        Regulation,
        String,
    >)
        requires
            old(self).wf(),
        ensures
            final(self).wf(),
            match r {
                Ok(reg) => {
                    &&& tbl_get(
                        old(self)@.regulations,
                        spec_reg_key(regulator@, target@),
                    ) == Some(reg@)
                    &&& final(self)@.regulations == tbl_remove(
                        old(self)@.regulations,
                        spec_reg_key(regulator@, target@),
                    )
                    &&& final(self)@.variables == old(self)@.variables
                    &&& final(self)@.layouts == old(self)@.layouts
                    &&& final(self)@.uninterpreted_fns == old(self)@.uninterpreted_fns
                },
                Err(_) => {
                    &&& !tbl_contains(
                        old(self)@.regulations,
                        spec_reg_key(regulator@, target@),
                    )
                    &&& *final(self) == *old(self)
                },
            },
    {
        let key = Self::make_reg_key(regulator, target);
        let ghost m0 = self@;
        match self.regulations.remove(key.as_str()) {
            Some(reg) => {
                proof {
                    lemma_remove_reg_wf(m0, self@, spec_reg_key(regulator@, target@));
                }
                Ok(reg)
            },
            None => Err(String::from_str("no such regulation")),
        }
    }

    /// Whether every layout holds the node for `id` at the default position.
    pub fn nodes_all_default(&self, id: &str) -> (r: bool)
        ensures
            r == node_at_default(self@.layouts, id@),
    {
        proof {
            reveal_strlit("0");
        }
        let n = self.layouts.entries.len();
        let mut i: usize = 0;
        while i < n
            invariant
                i <= n,
                n == self.layouts.entries@.len(),
                n == self@.layouts.len(),
                forall|j: int|
                    0 <= j < i ==> tbl_get((#[trigger] self@.layouts[j]).1.1, id@) == Some(
                        default_position(),
                    ),
            decreases n - i,
        {
            proof {
                assert(self@.layouts[i as int] == self.layouts.entries@[i as int]@);
            }
            let e = &self.layouts.entries[i];
            match e.val.nodes.get(id) {
                Some(p) => {
                    if !(str_eq(p.0.as_str(), "0") && str_eq(p.1.as_str(), "0")) {
                        proof {
                            assert(tbl_get(self@.layouts[i as int].1.1, id@) != Some(
                                default_position(),
                            ));
                        }
                        return false;
                    }
                    proof {
                        assert(p@ == default_position());
                    }
                },
                None => {
                    return false;
                },
            }
            i += 1;
        }
        true
    }

    /// Move variable `var`'s node in layout `layout`, returning the previous
    /// position. Fails, changing nothing, exactly when the layout or the
    /// node does not exist.
    pub fn update_node_position(
        &mut self,
        layout: &LayoutId,
        var: &VarId,
        px: &str,
        py: &str,
    ) -> (r: Result<NodePosition, String>)
        requires
            old(self).wf(),
        ensures
            final(self).wf(),
            match r {
                Ok(old_pos) => {
                    &&& tbl_get(old(self)@.layouts, layout@) matches Some(l) && tbl_get(
                        l.1,
                        var@,
                    ) == Some(old_pos@) && final(self)@.layouts == tbl_update(
                        old(self)@.layouts,
                        layout@,
                        (l.0, tbl_update(l.1, var@, (px@, py@))),
                    )
                    &&& final(self)@.variables == old(self)@.variables
                    &&& final(self)@.regulations == old(self)@.regulations
                    &&& final(self)@.uninterpreted_fns == old(self)@.uninterpreted_fns
                },
                Err(_) => {
                    &&& match tbl_get(old(self)@.layouts, layout@) {
                        Some(l) => tbl_get(l.1, var@) is None,
                        None => true,
                    }
                    &&& *final(self) == *old(self)
                },
            },
    {
        let old_pos = match self.layouts.get(layout.as_str()) {
            Some(l) => match l.nodes.get(var.as_str()) {
                Some(p) => p.duplicate(),
                None => {
                    return Err(String::from_str("no node for this variable"));
                },
            },
            None => {
                return Err(String::from_str("no such layout"));
            },
        };
        let n = self.layouts.entries.len();
        let mut i: usize = 0;
        proof {
            assert(self@.layouts.skip(0) =~= self@.layouts);
        }
        while i < n
            invariant
                i <= n,
                n == self.layouts.entries@.len(),
                *self == *old(self),
                old(self).wf(),
                tbl_get(old(self)@.layouts, layout@) matches Some(l2) && tbl_get(l2.1, var@)
                    == Some(old_pos@),
                tbl_get(self@.layouts, layout@) == tbl_get(self@.layouts.skip(i as int), layout@),
                forall|j: int| 0 <= j < i ==> (#[trigger] self@.layouts[j]).0 != layout@,
            decreases n - i,
        {
            proof {
                assert(self@.layouts.skip(i as int).first() == self@.layouts[i as int]);
                assert(self@.layouts[i as int] == self.layouts.entries@[i as int]@);
            }
            if str_eq(self.layouts.entries[i].key.as_str(), layout.as_str()) {
                let ghost m0 = self@;
                let ghost l = m0.layouts[i as int].1;
                proof {
                    assert(tbl_get(m0.layouts, layout@) == tbl_get(
                        m0.layouts.skip(i as int),
                        layout@,
                    ));
                    assert(m0.layouts.skip(i as int).first() == m0.layouts[i as int]);
                    assert(tbl_get(m0.layouts, layout@) == Some(l));
                    assert(tbl_sorted(l.1));
                    assert(tbl_get(l.1, var@) == Some(old_pos@));
                    lemma_get_some_contains(l.1, var@, old_pos@);
                }
                let ghost ents0 = self.layouts.entries@;
                let mut e = self.layouts.entries.remove(i);
                let updated = e.val.nodes.update(
                    var.as_str(),
                    NodePosition(String::from_str(px), String::from_str(py)),
                );
                proof {
                    assert(updated);
                }
                let ghost enew = e;
                self.layouts.entries.insert(i, e);
                proof {
                    assert(self.layouts.entries@ =~= ents0.update(i as int, enew));
                    assert(enew@ == (layout@, (l.0, tbl_update(l.1, var@, (px@, py@)))));
                    assert(self@.layouts =~= m0.layouts.update(i as int, enew@));
                    lemma_tbl_update_at(
                        m0.layouts,
                        layout@,
                        (l.0, tbl_update(l.1, var@, (px@, py@))),
                        i as int,
                    );
                    lemma_update_props(l.1, var@, (px@, py@));
                    assert forall|k: Seq<char>|
                        #[trigger] tbl_contains(tbl_update(l.1, var@, (px@, py@)), k)
                            == tbl_contains(m0.variables, k) by {
                        assert(tbl_contains(l.1, k) == tbl_contains(m0.variables, k));
                    }
                    lemma_update_layout_wf(
                        m0,
                        self@,
                        layout@,
                        (l.0, tbl_update(l.1, var@, (px@, py@))),
                    );
                }
                return Ok(old_pos);
            }
            proof {
                assert(self@.layouts.skip(i as int).drop_first() =~= self@.layouts.skip(
                    i as int + 1,
                ));
            }
            i += 1;
        }
        proof {
            assert(self@.layouts.skip(n as int).len() == 0);
            assert(false);
        }
        Err(String::new())
    }

    /// Register a fresh uninterpreted function of the given arity, with
    /// every argument qualifier unknown and an empty expression. Fails,
    /// changing nothing, exactly when `id` is invalid or taken.
    pub fn add_new_uninterpreted_fn(&mut self, id: VarId, name: &str, arity: usize) -> (r: Result<
        (),
        String,
    >)
        requires
            old(self).wf(),
        ensures
            final(self).wf(),
            match r {
                Ok(_) => {
                    &&& is_valid_id(id@)
                    &&& !tbl_contains(old(self)@.uninterpreted_fns, id@)
                    &&& final(self)@.uninterpreted_fns == tbl_insert(
                        old(self)@.uninterpreted_fns,
                        id@,
                        (
                            name@,
                            arity,
                            unknown_monotonicities(arity),
                            unknown_essentialities(arity),
                            ""@,
                        ),
                    )
                    &&& final(self)@.variables == old(self)@.variables
                    &&& final(self)@.regulations == old(self)@.regulations
                    &&& final(self)@.layouts == old(self)@.layouts
                },
                Err(_) => {
                    &&& !is_valid_id(id@) || tbl_contains(old(self)@.uninterpreted_fns, id@)
                    &&& *final(self) == *old(self)
                },
            },
    {
        if !check_valid_id(id.as_str()) {
            return Err(String::from_str("invalid function identifier"));
        }
        if self.uninterpreted_fns.contains_key(id.as_str()) {
            return Err(String::from_str("a function with this id already exists"));
        }
        let mut monotonicities: Vec<Monotonicity> = Vec::new();
        let mut essentialities: Vec<Essentiality> = Vec::new();
        let mut i: usize = 0;
        while i < arity
            invariant
                i <= arity,
                monotonicities@.len() == i,
                essentialities@.len() == i,
                forall|j: int|
                    0 <= j < i ==> monotonicities@[j] == Monotonicity::Unknown
                        && essentialities@[j] == Essentiality::Unknown,
            decreases arity - i,
        {
            monotonicities.push(Monotonicity::Unknown);
            essentialities.push(Essentiality::Unknown);
            i += 1;
        }
        let ghost mseq = monotonicities@;
        let ghost eseq = essentialities@;
        let f = UninterpretedFn {
            name: String::from_str(name),
            arity,
            monotonicities,
            essentialities,
            expression: String::new(),
        };
        proof {
            reveal_strlit("");
            assert(""@ =~= Seq::<char>::empty());
            assert(f@.2 == mseq);
            assert(f@.3 == eseq);
            assert(mseq =~= unknown_monotonicities(arity));
            assert(eseq =~= unknown_essentialities(arity));
            assert(f@ == (
                name@,
                arity,
                unknown_monotonicities(arity),
                unknown_essentialities(arity),
                ""@,
            ));
        }
        let ghost m0 = self@;
        self.uninterpreted_fns.insert_new(String::from_str(id.as_str()), f);
        proof {
            lemma_add_ufn_wf(
                m0,
                self@,
                id@,
                (name@, arity, unknown_monotonicities(arity), unknown_essentialities(arity), ""@),
            );
        }
        Ok(())
    }

    /// Change the monotonicity of argument `idx` of function `id`,
    /// returning the previous value. Fails, changing nothing, exactly when
    /// `id` is unknown or `idx` is out of range.
    pub fn set_fn_monotonicity(&mut self, id: &str, idx: usize, m: Monotonicity) -> (r: Result<
        Monotonicity,
        String,
    >)
        requires
            old(self).wf(),
        ensures
            final(self).wf(),
            match r {
                Ok(old_m) => {
                    &&& tbl_get(old(self)@.uninterpreted_fns, id@) matches Some(f) && idx
                        < f.2.len() && old_m == f.2[idx as int] && final(self)@.uninterpreted_fns == tbl_update(
                        old(self)@.uninterpreted_fns,
                        id@,
                        (f.0, f.1, f.2.update(idx as int, m), f.3, f.4),
                    )
                    &&& final(self)@.variables == old(self)@.variables
                    &&& final(self)@.regulations == old(self)@.regulations
                    &&& final(self)@.layouts == old(self)@.layouts
                },
                Err(_) => {
                    &&& match tbl_get(old(self)@.uninterpreted_fns, id@) {
                        Some(f) => idx >= f.2.len(),
                        None => true,
                    }
                    &&& *final(self) == *old(self)
                },
            },
    {
        let n = self.uninterpreted_fns.entries.len();
        let mut i: usize = 0;
        proof {
            assert(self@.uninterpreted_fns.skip(0) =~= self@.uninterpreted_fns);
        }
        while i < n
            invariant
                i <= n,
                n == self.uninterpreted_fns.entries@.len(),
                *self == *old(self),
                old(self).wf(),
                tbl_get(self@.uninterpreted_fns, id@) == tbl_get(
                    self@.uninterpreted_fns.skip(i as int),
                    id@,
                ),
                forall|j: int| 0 <= j < i ==> (#[trigger] self@.uninterpreted_fns[j]).0 != id@,
            decreases n - i,
        {
            proof {
                assert(self@.uninterpreted_fns.skip(i as int).first()
                    == self@.uninterpreted_fns[i as int]);
                assert(self@.uninterpreted_fns[i as int]
                    == self.uninterpreted_fns.entries@[i as int]@);
            }
            if str_eq(self.uninterpreted_fns.entries[i].key.as_str(), id) {
                let ghost m0 = self@;
                let ghost f = m0.uninterpreted_fns[i as int].1;
                proof {
                    assert(m0.uninterpreted_fns.skip(i as int).first()
                        == m0.uninterpreted_fns[i as int]);
                    assert(tbl_get(m0.uninterpreted_fns, id@) == Some(f));
                }
                if idx >= self.uninterpreted_fns.entries[i].val.monotonicities.len() {
                    return Err(String::from_str("argument index out of range"));
                }
                let ghost ents0 = self.uninterpreted_fns.entries@;
                let mut e = self.uninterpreted_fns.entries.remove(i);
                let old_m = e.val.monotonicities[idx];
                e.val.monotonicities.set(idx, m);
                let ghost enew = e;
                self.uninterpreted_fns.entries.insert(i, e);
                proof {
                    assert(self.uninterpreted_fns.entries@ =~= ents0.update(i as int, enew));
                    assert(enew@ == (id@, (f.0, f.1, f.2.update(idx as int, m), f.3, f.4)));
                    assert(self@.uninterpreted_fns =~= m0.uninterpreted_fns.update(
                        i as int,
                        enew@,
                    ));
                    lemma_tbl_update_at(
                        m0.uninterpreted_fns,
                        id@,
                        (f.0, f.1, f.2.update(idx as int, m), f.3, f.4),
                        i as int,
                    );
                    lemma_update_ufn_wf(
                        m0,
                        self@,
                        id@,
                        (f.0, f.1, f.2.update(idx as int, m), f.3, f.4),
                    );
                }
                return Ok(old_m);
            }
            proof {
                assert(self@.uninterpreted_fns.skip(i as int).drop_first()
                    =~= self@.uninterpreted_fns.skip(i as int + 1));
            }
            i += 1;
        }
        proof {
            assert(self@.uninterpreted_fns.skip(n as int).len() == 0);
        }
        Err(String::from_str("no such function"))
    }

    /// Change the essentiality of argument `idx` of function `id`,
    /// returning the previous value. Fails, changing nothing, exactly when
    /// `id` is unknown or `idx` is out of range.
    pub fn set_fn_essentiality(&mut self, id: &str, idx: usize, es: Essentiality) -> (r: Result<
        Essentiality,
        String,
    >)
        requires
            old(self).wf(),
        ensures
            final(self).wf(),
            match r {
                Ok(old_e) => {
                    &&& tbl_get(old(self)@.uninterpreted_fns, id@) matches Some(f) && idx
                        < f.3.len() && old_e == f.3[idx as int] && final(self)@.uninterpreted_fns == tbl_update(
                        old(self)@.uninterpreted_fns,
                        id@,
                        (f.0, f.1, f.2, f.3.update(idx as int, es), f.4),
                    )
                    &&& final(self)@.variables == old(self)@.variables
                    &&& final(self)@.regulations == old(self)@.regulations
                    &&& final(self)@.layouts == old(self)@.layouts
                },
                Err(_) => {
                    &&& match tbl_get(old(self)@.uninterpreted_fns, id@) {
                        Some(f) => idx >= f.3.len(),
                        None => true,
                    }
                    &&& *final(self) == *old(self)
                },
            },
    {
        let n = self.uninterpreted_fns.entries.len();
        let mut i: usize = 0;
        proof {
            assert(self@.uninterpreted_fns.skip(0) =~= self@.uninterpreted_fns);
        }
        while i < n
            invariant
                i <= n,
                n == self.uninterpreted_fns.entries@.len(),
                *self == *old(self),
                old(self).wf(),
                tbl_get(self@.uninterpreted_fns, id@) == tbl_get(
                    self@.uninterpreted_fns.skip(i as int),
                    id@,
                ),
                forall|j: int| 0 <= j < i ==> (#[trigger] self@.uninterpreted_fns[j]).0 != id@,
            decreases n - i,
        {
            proof {
                assert(self@.uninterpreted_fns.skip(i as int).first()
                    == self@.uninterpreted_fns[i as int]);
                assert(self@.uninterpreted_fns[i as int]
                    == self.uninterpreted_fns.entries@[i as int]@);
            }
            if str_eq(self.uninterpreted_fns.entries[i].key.as_str(), id) {
                let ghost m0 = self@;
                let ghost f = m0.uninterpreted_fns[i as int].1;
                proof {
                    assert(m0.uninterpreted_fns.skip(i as int).first()
                        == m0.uninterpreted_fns[i as int]);
                    assert(tbl_get(m0.uninterpreted_fns, id@) == Some(f));
                }
                if idx >= self.uninterpreted_fns.entries[i].val.essentialities.len() {
                    return Err(String::from_str("argument index out of range"));
                }
                let ghost ents0 = self.uninterpreted_fns.entries@;
                let mut e = self.uninterpreted_fns.entries.remove(i);
                let old_e = e.val.essentialities[idx];
                e.val.essentialities.set(idx, es);
                let ghost enew = e;
                self.uninterpreted_fns.entries.insert(i, e);
                proof {
                    assert(self.uninterpreted_fns.entries@ =~= ents0.update(i as int, enew));
                    assert(enew@ == (id@, (f.0, f.1, f.2, f.3.update(idx as int, es), f.4)));
                    assert(self@.uninterpreted_fns =~= m0.uninterpreted_fns.update(
                        i as int,
                        enew@,
                    ));
                    lemma_tbl_update_at(
                        m0.uninterpreted_fns,
                        id@,
                        (f.0, f.1, f.2, f.3.update(idx as int, es), f.4),
                        i as int,
                    );
                    lemma_update_ufn_wf(
                        m0,
                        self@,
                        id@,
                        (f.0, f.1, f.2, f.3.update(idx as int, es), f.4),
                    );
                }
                return Ok(old_e);
            }
            proof {
                assert(self@.uninterpreted_fns.skip(i as int).drop_first()
                    =~= self@.uninterpreted_fns.skip(i as int + 1));
            }
            i += 1;
        }
        proof {
            assert(self@.uninterpreted_fns.skip(n as int).len() == 0);
        }
        Err(String::from_str("no such function"))
    }

    /// Replace the expression of function `id`, returning the previous one.
    /// Fails, changing nothing, exactly when `id` is unknown.
    pub fn set_fn_expression(&mut self, id: &str, expression: &str) -> (r: Result<String, String>)
        requires
            old(self).wf(),
        ensures
            final(self).wf(),
            match r {
                Ok(old_expr) => {
                    &&& tbl_get(old(self)@.uninterpreted_fns, id@) matches Some(f) && old_expr@
                        == f.4 && final(self)@.uninterpreted_fns == tbl_update(
                        old(self)@.uninterpreted_fns,
                        id@,
                        (f.0, f.1, f.2, f.3, expression@),
                    )
                    &&& final(self)@.variables == old(self)@.variables
                    &&& final(self)@.regulations == old(self)@.regulations
                    &&& final(self)@.layouts == old(self)@.layouts
                },
                Err(_) => {
                    &&& !tbl_contains(old(self)@.uninterpreted_fns, id@)
                    &&& *final(self) == *old(self)
                },
            },
    {
        let n = self.uninterpreted_fns.entries.len();
        let mut i: usize = 0;
        proof {
            assert(self@.uninterpreted_fns.skip(0) =~= self@.uninterpreted_fns);
        }
        while i < n
            invariant
                i <= n,
                n == self.uninterpreted_fns.entries@.len(),
                *self == *old(self),
                old(self).wf(),
                tbl_get(self@.uninterpreted_fns, id@) == tbl_get(
                    self@.uninterpreted_fns.skip(i as int),
                    id@,
                ),
                tbl_contains(self@.uninterpreted_fns, id@) == tbl_contains(
                    self@.uninterpreted_fns.skip(i as int),
                    id@,
                ),
                forall|j: int| 0 <= j < i ==> (#[trigger] self@.uninterpreted_fns[j]).0 != id@,
            decreases n - i,
        {
            proof {
                assert(self@.uninterpreted_fns.skip(i as int).first()
                    == self@.uninterpreted_fns[i as int]);
                assert(self@.uninterpreted_fns[i as int]
                    == self.uninterpreted_fns.entries@[i as int]@);
            }
            if str_eq(self.uninterpreted_fns.entries[i].key.as_str(), id) {
                let ghost m0 = self@;
                let ghost f = m0.uninterpreted_fns[i as int].1;
                proof {
                    assert(m0.uninterpreted_fns.skip(i as int).first()
                        == m0.uninterpreted_fns[i as int]);
                    assert(tbl_get(m0.uninterpreted_fns, id@) == Some(f));
                }
                let ghost ents0 = self.uninterpreted_fns.entries@;
                let mut e = self.uninterpreted_fns.entries.remove(i);
                let old_expr = String::from_str(e.val.get_fn_expression());
                e.val.expression = String::from_str(expression);
                let ghost enew = e;
                self.uninterpreted_fns.entries.insert(i, e);
                proof {
                    assert(self.uninterpreted_fns.entries@ =~= ents0.update(i as int, enew));
                    assert(enew@ == (id@, (f.0, f.1, f.2, f.3, expression@)));
                    assert(self@.uninterpreted_fns =~= m0.uninterpreted_fns.update(
                        i as int,
                        enew@,
                    ));
                    lemma_tbl_update_at(
                        m0.uninterpreted_fns,
                        id@,
                        (f.0, f.1, f.2, f.3, expression@),
                        i as int,
                    );
                    lemma_update_ufn_wf(m0, self@, id@, (f.0, f.1, f.2, f.3, expression@));
                }
                return Ok(old_expr);
            }
            proof {
                assert(self@.uninterpreted_fns.skip(i as int).drop_first()
                    =~= self@.uninterpreted_fns.skip(i as int + 1));
            }
            i += 1;
        }
        proof {
            assert(self@.uninterpreted_fns.skip(n as int).len() == 0);
        }
        Err(String::from_str("no such function"))
    }

    /// A model populated from `(id, name)` pairs, with no regulations.
    pub fn new_from_vars(vars: Vec<(&str, &str)>) -> (r: Result<ModelState, String>)
        ensures
            r matches Ok(m) ==> m.wf(),
    {
        let mut model = ModelState::new();
        let n = vars.len();
        let mut i: usize = 0;
        while i < n
            invariant
                i <= n,
                n == vars@.len(),
                model.wf(),
            decreases n - i,
        {
            let (id, name) = vars[i];
            let res = model.add_var_by_str(id, name);
            if res.is_err() {
                return Err(String::from_str("could not add a variable"));
            }
            i += 1;
        }
        Ok(model)
    }

    /// The uninterpreted function registered under `id`.
    pub fn get_uninterpreted_fn(&self, id: &VarId) -> (r: Result<&UninterpretedFn, String>)
        ensures
            match r {
                Ok(f) => tbl_get(self@.uninterpreted_fns, id@) == Some(f@),
                Err(_) => tbl_get(self@.uninterpreted_fns, id@) is None,
            },
    {
        match self.uninterpreted_fns.get(id.as_str()) {
            Some(f) => Ok(f),
            None => Err(String::from_str("no such function")),
        }
    }
}

} // verus!
