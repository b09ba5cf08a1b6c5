//! The regulations-editor component: named variables and the regulations
//! between them, driven by the same event protocol as the model component.
//!
//! This component predates the richer model editor: variable removal purges
//! every regulation that references the variable and is therefore consumed
//! irreversibly, while additions, renames and id changes synthesize exact
//! reverse actions.

use vstd::prelude::*;
use crate::codec::{encode_obj, parse_obj, spec_obj, spec_parse_obj};
use crate::consumed::{Consumed, ConsumedView, SessionState};
use crate::entities::{Layout, Regulation, Variable};
use crate::events::{Event, EventView, UserAction};
use crate::ids::{VarId, check_valid_id, is_valid_id};
use crate::model::{RegV, spec_reg_key};
use crate::table::{Table, lemma_contains_get_some, lemma_get_some_contains,
    lemma_insert_elements, lemma_insert_props, lemma_remove_elements, lemma_remove_props,
    lemma_update_props, tbl_contains, tbl_get, tbl_insert, tbl_remove, tbl_sorted, tbl_update};
use crate::text::{lex_lt, str_eq};

verus! {

/// The regulations kept once every one referencing `k` is purged.
pub open spec fn regs_without(rs: Seq<(Seq<char>, RegV)>, k: Seq<char>) -> Seq<(Seq<char>, RegV)>
    decreases rs.len(),
{
    if rs.len() == 0 {
        rs
    } else {
        let rest = regs_without(rs.drop_first(), k);
        if rs.first().1.0 == k || rs.first().1.1 == k {
            rest
        } else {
            seq![rs.first()] + rest
        }
    }
}

/// Purging keeps a subsequence: every kept entry is an original entry.
pub proof fn lemma_regs_without_elements(rs: Seq<(Seq<char>, RegV)>, k: Seq<char>)
    ensures
        forall|i: int|
            0 <= i < regs_without(rs, k).len() ==> exists|j: int|
                0 <= j < rs.len() && (#[trigger] regs_without(rs, k)[i]) == #[trigger] rs[j],
    decreases rs.len(),
{
    let t = regs_without(rs, k);
    if rs.len() > 0 {
        lemma_regs_without_elements(rs.drop_first(), k);
        let u = regs_without(rs.drop_first(), k);
        assert forall|i: int| 0 <= i < t.len() implies exists|j: int|
            0 <= j < rs.len() && (#[trigger] t[i]) == #[trigger] rs[j] by {
            if rs.first().1.0 == k || rs.first().1.1 == k {
                assert(t[i] == u[i]);
                let j = choose|j: int|
                    0 <= j < rs.drop_first().len() && u[i] == #[trigger] rs.drop_first()[j];
                assert(rs.drop_first()[j] == rs[j + 1]);
            } else {
                if i == 0 {
                    assert(t[0] == rs[0]);
                } else {
                    assert(t[i] == u[i - 1]);
                    let j = choose|j: int|
                        0 <= j < rs.drop_first().len() && u[i - 1] == #[trigger] rs.drop_first()[j];
                    assert(rs.drop_first()[j] == rs[j + 1]);
                }
            }
        }
    }
}

/// Purging a sorted table leaves it sorted.
pub proof fn lemma_regs_without_sorted(rs: Seq<(Seq<char>, RegV)>, k: Seq<char>)
    requires
        tbl_sorted(rs),
    ensures
        tbl_sorted(regs_without(rs, k)),
    decreases rs.len(),
{
    let t = regs_without(rs, k);
    if rs.len() > 0 {
        crate::table::lemma_sorted_drop_first(rs);
        lemma_regs_without_sorted(rs.drop_first(), k);
        lemma_regs_without_elements(rs.drop_first(), k);
        let u = regs_without(rs.drop_first(), k);
        if rs.first().1.0 == k || rs.first().1.1 == k {
        } else {
            assert(t == seq![rs.first()] + u);
            assert(t.first() == rs.first());
            assert(t.drop_first() =~= u);
            assert forall|i: int, j: int| 0 <= i < j < t.len() implies lex_lt(
                (#[trigger] t[i]).0,
                (#[trigger] t[j]).0,
            ) by {
                if i == 0 {
                    assert(t[j] == u[j - 1]);
                    let jj = choose|jj: int|
                        0 <= jj < rs.drop_first().len() && u[j - 1] == #[trigger] rs.drop_first()[
                            jj
                        ];
                    assert(rs.drop_first()[jj] == rs[jj + 1]);
                    assert(lex_lt(rs[0].0, rs[jj + 1].0));
                } else {
                    assert(t[i] == u[i - 1]);
                    assert(t[j] == u[j - 1]);
                }
            }
        }
    }
}

/// Removing a variable and purging its regulations preserves the editor's
/// well-formedness.
pub proof fn lemma_rs_remove_wf(pre: RegStateV, post: RegStateV, id: Seq<char>)
    requires
        tbl_sorted(pre.variables),
        tbl_sorted(pre.regulations),
        forall|i: int| 0 <= i < pre.variables.len() ==> is_valid_id((#[trigger] pre.variables[i]).0),
        post.variables == tbl_remove(pre.variables, id),
        post.regulations == regs_without(pre.regulations, id),
    ensures
        tbl_sorted(post.variables),
        tbl_sorted(post.regulations),
        forall|i: int|
            0 <= i < post.variables.len() ==> is_valid_id((#[trigger] post.variables[i]).0),
{
    lemma_remove_props(pre.variables, id);
    lemma_remove_elements(pre.variables, id);
    lemma_regs_without_sorted(pre.regulations, id);
    assert forall|i: int| 0 <= i < post.variables.len() implies is_valid_id(
        (#[trigger] post.variables[i]).0,
    ) by {
        let j = choose|j: int|
            0 <= j < pre.variables.len() && post.variables[i] == #[trigger] pre.variables[j];
        assert(is_valid_id(pre.variables[j].0));
    }
}

/// The state of the regulations editor.
#[derive(Clone, Debug, PartialEq, Eq)]
pub struct RegulationsState {
    pub variables: Table<Variable>,
    pub regulations: Table<Regulation>,
    pub layouts: Table<Layout>,
}

/// Mathematical content of a regulations-editor state.
#[verifier::ext_equal]
pub struct RegStateV {
    pub variables: Seq<(Seq<char>, Seq<char>)>,
    pub regulations: Seq<(Seq<char>, RegV)>,
    pub layouts: Seq<(Seq<char>, crate::model::LayoutV)>,
}

impl View for RegulationsState {
    type V = RegStateV;

    open spec fn view(&self) -> RegStateV {
        RegStateV {
            variables: self.variables@,
            regulations: self.regulations@,
            layouts: self.layouts@,
        }
    }
}

impl RegulationsState {
    /// Well-formedness: tables in ascending key order, variable ids valid.
    pub open spec fn wf(self) -> bool {
        &&& tbl_sorted(self@.variables)
        &&& tbl_sorted(self@.regulations)
        &&& tbl_sorted(self@.layouts)
        &&& forall|i: int|
            0 <= i < self@.variables.len() ==> is_valid_id((#[trigger] self@.variables[i]).0)
    }

    /// An empty editor state.
    pub fn new() -> (r: RegulationsState)
        ensures
            r.wf(),
            r@.variables =~= Seq::<(Seq<char>, Seq<char>)>::empty(),
            r@.regulations =~= Seq::<(Seq<char>, RegV)>::empty(),
    {
        RegulationsState {
            variables: Table::new(),
            regulations: Table::new(),
            layouts: Table::new(),
        }
    }

    /// Number of variables.
    pub fn num_vars(&self) -> (r: usize)
        ensures
            r == self@.variables.len(),
    {
        self.variables.len()
    }

    /// Number of regulations.
    pub fn num_regulations(&self) -> (r: usize)
        ensures
            r == self@.regulations.len(),
    {
        self.regulations.len()
    }

    /// A fresh variable id derived from `name`.
    pub fn generate_var_id(&self, name: &str) -> (r: VarId)
        ensures
            is_valid_id(r@),
            !tbl_contains(self@.variables, r@),
    {
        VarId { id: crate::model::ModelState::fresh_valid_id(&self.variables, name) }
    }

    /// Whether `id` names a variable of this editor.
    pub fn is_valid_var_id(&self, id: &VarId) -> (r: bool)
        ensures
            r == tbl_contains(self@.variables, id@),
    {
        self.variables.contains_key(id.as_str())
    }

    /// The typed id for the variable named by `id`, if it exists.
    pub fn get_var_id(&self, id: &str) -> (r: Result<VarId, String>)
        ensures
            match r {
                Ok(v) => v@ == id@ && is_valid_id(id@) && tbl_contains(self@.variables, id@),
                Err(_) => !is_valid_id(id@) || !tbl_contains(self@.variables, id@),
            },
    {
        let vid = VarId::new(id)?;
        if self.variables.contains_key(id) {
            Ok(vid)
        } else {
            Err(String::from_str("no such variable"))
        }
    }

    /// The name of variable `id`.
    pub fn get_var_name(&self, id: &VarId) -> (r: Result<String, String>)
        ensures
            match r {
                Ok(name) => tbl_get(self@.variables, id@) == Some(name@),
                Err(_) => !tbl_contains(self@.variables, id@),
            },
    {
        proof {
            if tbl_contains(self@.variables, id@) {
                lemma_contains_get_some(self@.variables, id@);
            }
            match tbl_get(self@.variables, id@) {
                Some(v) => lemma_get_some_contains(self@.variables, id@, v),
                None => {},
            }
        }
        match self.variables.get(id.as_str()) {
            Some(v) => Ok(String::from_str(v.get_name())),
            None => Err(String::from_str("no such variable")),
        }
    }

    /// Add variable `id` named `name`. Fails, changing nothing, exactly
    /// when `id` is invalid or taken.
    pub fn add_var(&mut self, id: VarId, name: &str) -> (r: Result<(), String>)
        requires
            old(self).wf(),
        ensures
            final(self).wf(),
            match r {
                Ok(_) => {
                    &&& is_valid_id(id@)
                    &&& !tbl_contains(old(self)@.variables, id@)
                    &&& final(self)@.variables == tbl_insert(old(self)@.variables, id@, name@)
                    &&& final(self)@.regulations == old(self)@.regulations
                    &&& final(self)@.layouts == old(self)@.layouts
                },
                Err(_) => {
                    &&& !is_valid_id(id@) || tbl_contains(old(self)@.variables, id@)
                    &&& *final(self) == *old(self)
                },
            },
    {
        if !check_valid_id(id.as_str()) {
            return Err(String::from_str("invalid variable identifier"));
        }
        if self.variables.contains_key(id.as_str()) {
            return Err(String::from_str("a variable with this id already exists"));
        }
        let ghost s0 = self@.variables;
        self.variables.insert_new(
            String::from_str(id.as_str()),
            Variable { name: String::from_str(name) },
        );
        proof {
            lemma_insert_props(s0, id@, name@);
            lemma_insert_elements(s0, id@, name@);
            assert forall|i: int| 0 <= i < self@.variables.len() implies is_valid_id(
                (#[trigger] self@.variables[i]).0,
            ) by {
                if self@.variables[i] != (id@, name@) {
                    let j = choose|j: int|
                        0 <= j < s0.len() && self@.variables[i] == #[trigger] s0[j];
                    assert(is_valid_id(s0[j].0));
                }
            }
        }
        Ok(())
    }

    /// Add a variable whose id and name are both given as text.
    pub fn add_var_by_str(&mut self, id: &str, name: &str) -> (r: Result<(), String>)
        requires
            old(self).wf(),
        ensures
            final(self).wf(),
            match r {
                Ok(_) => {
                    &&& is_valid_id(id@)
                    &&& !tbl_contains(old(self)@.variables, id@)
                    &&& final(self)@.variables == tbl_insert(old(self)@.variables, id@, name@)
                    &&& final(self)@.regulations == old(self)@.regulations
                    &&& final(self)@.layouts == old(self)@.layouts
                },
                Err(_) => {
                    &&& !is_valid_id(id@) || tbl_contains(old(self)@.variables, id@)
                    &&& *final(self) == *old(self)
                },
            },
    {
        let vid = VarId::new(id)?;
        self.add_var(vid, name)
    }

    /// Remove variable `id` and purge every regulation referencing it.
    /// Fails, changing nothing, exactly when `id` is unknown.
    #[verifier::rlimit(100)]
    pub fn remove_var_by_str(&mut self, id: &str) -> (r: Result<(), String>)
        requires
            old(self).wf(),
        ensures
            final(self).wf(),
            match r {
                Ok(_) => {
                    &&& tbl_contains(old(self)@.variables, id@)
                    &&& final(self)@.variables == tbl_remove(old(self)@.variables, id@)
                    &&& final(self)@.regulations == regs_without(old(self)@.regulations, id@)
                    &&& final(self)@.layouts == old(self)@.layouts
                },
                Err(_) => {
                    &&& !tbl_contains(old(self)@.variables, id@)
                    &&& *final(self) == *old(self)
                },
            },
    {
        match self.variables.remove(id) {
            Some(v) => {
                proof {
                    lemma_get_some_contains(old(self)@.variables, id@, v@);
                }
            },
            None => {
                return Err(String::from_str("no such variable"));
            },
        }
        self.purge_regulations_of(id);
        proof {
            lemma_rs_remove_wf(old(self)@, self@, id@);
        }
        Ok(())
    }

    /// Take out every regulation that references `id`.
    #[verifier::rlimit(60)]
    fn purge_regulations_of(&mut self, id: &str)
        requires
            tbl_sorted(old(self)@.regulations),
        ensures
            final(self)@.regulations == regs_without(old(self)@.regulations, id@),
            tbl_sorted(final(self)@.regulations),
            final(self).variables == old(self).variables,
            final(self).layouts == old(self).layouts,
    {
        let ghost rs0 = self@.regulations;
        let n = self.regulations.entries.len();
        let mut kept: Vec<crate::table::TableEntry<Regulation>> = Vec::new();
        let mut i: usize = 0;
        proof {
            assert(rs0.skip(0) =~= rs0);
            assert(kept@.map_values(|e: crate::table::TableEntry<Regulation>| e@) + regs_without(
                rs0.skip(0),
                id@,
            ) =~= regs_without(rs0, id@));
        }
        while i < n
            invariant
                i <= n,
                n == self.regulations.entries@.len(),
                n == rs0.len(),
                rs0 == self@.regulations,
                self.variables == old(self).variables,
                self.layouts == old(self).layouts,
                regs_without(rs0, id@) =~= kept@.map_values(
                    |e: crate::table::TableEntry<Regulation>| e@,
                ) + regs_without(rs0.skip(i as int), id@),
            decreases n - i,
        {
            proof {
                assert(rs0[i as int] == self.regulations.entries@[i as int]@);
                assert(rs0.skip(i as int).first() == rs0[i as int]);
                assert(rs0.skip(i as int).drop_first() =~= rs0.skip(i as int + 1));
            }
            let e = &self.regulations.entries[i];
            if !(str_eq(e.val.regulator.as_str(), id) || str_eq(e.val.target.as_str(), id)) {
                let ghost keptpre = kept@;
                kept.push(
                    crate::table::TableEntry {
                        key: e.key.clone(),
                        val: Regulation {
                            regulator: e.val.regulator.clone(),
                            target: e.val.target.clone(),
                            sign: e.val.sign,
                            observable: e.val.observable,
                        },
                    },
                );
                proof {
                    assert(kept@[keptpre.len() as int]@ == rs0[i as int]);
                    assert(kept@.map_values(|e2: crate::table::TableEntry<Regulation>| e2@)
                        =~= keptpre.map_values(
                        |e2: crate::table::TableEntry<Regulation>| e2@,
                    ).push(rs0[i as int]));
                    assert(regs_without(rs0.skip(i as int), id@) == seq![rs0[i as int]]
                        + regs_without(rs0.skip(i as int + 1), id@));
                    assert(keptpre.map_values(|e2: crate::table::TableEntry<Regulation>| e2@) + (
                    seq![rs0[i as int]] + regs_without(rs0.skip(i as int + 1), id@))
                        =~= kept@.map_values(|e2: crate::table::TableEntry<Regulation>| e2@)
                        + regs_without(rs0.skip(i as int + 1), id@));
                }
            } else {
                proof {
                    assert(regs_without(rs0.skip(i as int), id@) == regs_without(
                        rs0.skip(i as int + 1),
                        id@,
                    ));
                }
            }
            i += 1;
        }
        self.regulations = Table { entries: kept };
        proof {
            assert(rs0.skip(n as int).len() == 0);
            assert(regs_without(rs0.skip(n as int), id@) =~= Seq::<(Seq<char>, RegV)>::empty());
            assert(self@.regulations =~= regs_without(rs0, id@));
            lemma_regs_without_sorted(rs0, id@);
        }
    }

    /// Rename variable `id`, returning the previous name. Fails, changing
    /// nothing, exactly when `id` is unknown.
    pub fn set_var_name(&mut self, id: &str, name: &str) -> (r: Result<String, String>)
        requires
            old(self).wf(),
        ensures
            final(self).wf(),
            match r {
                Ok(old_name) => {
                    &&& tbl_get(old(self)@.variables, id@) == Some(old_name@)
                    &&& final(self)@.variables == tbl_update(old(self)@.variables, id@, name@)
                    &&& final(self)@.regulations == old(self)@.regulations
                    &&& final(self)@.layouts == old(self)@.layouts
                },
                Err(_) => {
                    &&& !tbl_contains(old(self)@.variables, id@)
                    &&& *final(self) == *old(self)
                },
            },
    {
        proof {
            if tbl_contains(self@.variables, id@) {
                lemma_contains_get_some(self@.variables, id@);
            }
            match tbl_get(self@.variables, id@) {
                Some(v) => lemma_get_some_contains(self@.variables, id@, v),
                None => {},
            }
        }
        let old_name = match self.variables.get(id) {
            Some(v) => String::from_str(v.get_name()),
            None => {
                return Err(String::from_str("no such variable"));
            },
        };
        let ghost s0 = self@.variables;
        let updated = self.variables.update(id, Variable { name: String::from_str(name) });
        proof {
            assert(updated);
            lemma_update_props(s0, id@, name@);
            crate::table::lemma_update_len(s0, id@, name@);
            assert forall|i: int| 0 <= i < self@.variables.len() implies is_valid_id(
                (#[trigger] self@.variables[i]).0,
            ) by {
                assert(self@.variables[i].0 == s0[i].0);
            }
        }
        Ok(old_name)
    }

    /// Change variable `original`'s id to `new_id`. Fails, changing
    /// nothing, exactly when `original` is unknown, `new_id` is invalid or
    /// taken, or some regulation still references `original`.
    pub fn set_var_id(&mut self, original: &VarId, new_id: VarId) -> (r: Result<(), String>)
        requires
            old(self).wf(),
        ensures
            final(self).wf(),
            match r {
                Ok(_) => {
                    &&& tbl_get(old(self)@.variables, original@) matches Some(v) && final(self)@.variables == tbl_insert(
                        tbl_remove(old(self)@.variables, original@),
                        new_id@,
                        v,
                    )
                    &&& is_valid_id(new_id@)
                    &&& !tbl_contains(old(self)@.variables, new_id@)
                    &&& !crate::model::references_var(old(self)@.regulations, original@)
                    &&& final(self)@.regulations == old(self)@.regulations
                    &&& final(self)@.layouts == old(self)@.layouts
                },
                Err(_) => {
                    &&& !tbl_contains(old(self)@.variables, original@) || !is_valid_id(new_id@)
                        || tbl_contains(old(self)@.variables, new_id@)
                        || crate::model::references_var(old(self)@.regulations, original@)
                    &&& *final(self) == *old(self)
                },
            },
    {
        if !self.variables.contains_key(original.as_str()) {
            return Err(String::from_str("no such variable"));
        }
        if !check_valid_id(new_id.as_str()) {
            return Err(String::from_str("invalid variable identifier"));
        }
        if self.variables.contains_key(new_id.as_str()) {
            return Err(String::from_str("a variable with this id already exists"));
        }
        if self.has_regulation_of(original.as_str()) {
            return Err(String::from_str("the variable is still regulated"));
        }
        let ghost s0 = self@.variables;
        let v = match self.variables.remove(original.as_str()) {
            Some(v) => v,
            None => {
                proof {
                    assert(false);
                }
                return Err(String::new());
            },
        };
        proof {
            lemma_remove_props(s0, original@);
            lemma_remove_elements(s0, original@);
        }
        let ghost s1 = self@.variables;
        self.variables.insert_new(String::from_str(new_id.as_str()), v);
        proof {
            lemma_insert_props(s1, new_id@, tbl_get(s0, original@)->Some_0);
            lemma_insert_elements(s1, new_id@, tbl_get(s0, original@)->Some_0);
            assert forall|i: int| 0 <= i < self@.variables.len() implies is_valid_id(
                (#[trigger] self@.variables[i]).0,
            ) by {
                if self@.variables[i].0 != new_id@ {
                    let j = choose|j: int|
                        0 <= j < s1.len() && self@.variables[i] == #[trigger] s1[j];
                    let j2 = choose|j2: int| 0 <= j2 < s0.len() && s1[j] == #[trigger] s0[j2];
                    assert(is_valid_id(s0[j2].0));
                }
            }
        }
        Ok(())
    }

    /// Get and clone the payload of an action; errors when there is none.
    /// `component` names the part of the state an error message mentions.
    pub fn clone_payload(action: &UserAction, component: &str) -> (r: Result<String, String>)
        ensures
            match r {
                Ok(p) => action@.payload == Some(p@),
                Err(_) => action@.payload is None,
            },
    {
        match &action.event.payload {
            Some(p) => Ok(p.clone()),
            None => Err(String::from_str("this action cannot carry an empty payload")),
        }
    }

    /// Clone the full path of an action.
    pub fn clone_path(action: &UserAction) -> (r: Vec<String>)
        ensures
            r.deep_view() == action@.path,
    {
        let mut out: Vec<String> = Vec::new();
        let n = action.event.path.len();
        let mut i: usize = 0;
        while i < n
            invariant
                i <= n,
                n == action.event.path@.len(),
                out@.len() == i,
                forall|j: int| 0 <= j < i ==> (#[trigger] out@[j])@ == action.event.path@[j]@,
            decreases n - i,
        {
            out.push(action.event.path[i].clone());
            i += 1;
        }
        proof {
            assert(out.deep_view() =~= action@.path);
        }
        out
    }

    /// Check that a path suffix has the given length; errors otherwise.
    /// `component` names the part of the state an error message mentions.
    pub fn assert_path_length(path: &[String], length: usize, component: &str) -> (r: Result<
        (),
        String,
    >)
        ensures
            match r {
                Ok(_) => path@.len() == length,
                Err(_) => path@.len() != length,
            },
    {
        if path.len() != length {
            return Err(String::from_str("this component cannot consume a path of this length"));
        }
        Ok(())
    }

    /// Whether any regulation uses variable `id` as regulator or target.
    pub fn has_regulation_of(&self, id: &str) -> (r: bool)
        ensures
            r == crate::model::references_var(self@.regulations, id@),
    {
        let n = self.regulations.entries.len();
        let mut i: usize = 0;
        while i < n
            invariant
                i <= n,
                n == self.regulations.entries@.len(),
                n == self@.regulations.len(),
                forall|j: int|
                    0 <= j < i ==> (#[trigger] self@.regulations[j]).1.0 != id@
                        && self@.regulations[j].1.1 != id@,
            decreases n - i,
        {
            proof {
                assert(self@.regulations[i as int] == self.regulations.entries@[i as int]@);
            }
            let e = &self.regulations.entries[i];
            if str_eq(e.val.regulator.as_str(), id) || str_eq(e.val.target.as_str(), id) {
                proof {
                    assert(self@.regulations[i as int].1.0 == id@ || self@.regulations[
                        i as int
                    ].1.1 == id@);
                }
                return true;
            }
            i += 1;
        }
        false
    }

    /// Add the regulation a regulation string describes. Fails, changing
    /// nothing, when the string is malformed, an endpoint is unknown, or
    /// the pair is already regulated.
    pub fn add_regulation_by_str(&mut self, reg_str: &str) -> (r: Result<(), String>)
        requires
            old(self).wf(),
        ensures
            final(self).wf(),
            r is Err ==> *final(self) == *old(self),
            match crate::data_structs::spec_parse_reg_string(reg_str@) {
                Some(p) => r is Ok ==> {
                    &&& tbl_contains(old(self)@.variables, p.0)
                    &&& tbl_contains(old(self)@.variables, p.1)
                    &&& final(self)@.regulations == tbl_insert(
                        old(self)@.regulations,
                        spec_reg_key(p.0, p.1),
                        (p.0, p.1, p.2, p.3),
                    )
                    &&& final(self)@.variables == old(self)@.variables
                    &&& final(self)@.layouts == old(self)@.layouts
                },
                None => r is Err,
            },
    {
        let reg = Regulation::try_from_string(reg_str)?;
        if !self.variables.contains_key(reg.regulator.as_str()) || !self.variables.contains_key(
            reg.target.as_str(),
        ) {
            return Err(String::from_str("a regulation endpoint does not exist"));
        }
        proof {
            reveal_strlit(" ");
        }
        let mut key = String::from_str(reg.regulator.as_str());
        key.append(" ");
        key.append(reg.target.as_str());
        proof {
            assert(" "@ =~= seq![' ']);
            assert(key@ =~= spec_reg_key(reg.regulator@, reg.target@));
        }
        if self.regulations.contains_key(key.as_str()) {
            return Err(String::from_str("this regulation already exists"));
        }
        self.regulations.insert_new(key, reg);
        proof {
            lemma_insert_props(
                old(self)@.regulations,
                spec_reg_key(
                    crate::data_structs::spec_parse_reg_string(reg_str@)->Some_0.0,
                    crate::data_structs::spec_parse_reg_string(reg_str@)->Some_0.1,
                ),
                (
                    crate::data_structs::spec_parse_reg_string(reg_str@)->Some_0.0,
                    crate::data_structs::spec_parse_reg_string(reg_str@)->Some_0.1,
                    crate::data_structs::spec_parse_reg_string(reg_str@)->Some_0.2,
                    crate::data_structs::spec_parse_reg_string(reg_str@)->Some_0.3,
                ),
            );
        }
        Ok(())
    }
}

/// Keys of a rename payload.
pub open spec fn rs_rename_keys() -> Seq<Seq<char>> {
    seq!["id"@, "new_name"@]
}

/// Keys of an id-change payload.
pub open spec fn rs_id_change_keys() -> Seq<Seq<char>> {
    seq!["original_id"@, "new_id"@]
}

/// The transition of the regulations editor for `variable` actions: the new
/// state and the exact outcome, or nothing when the action errs.
pub open spec fn spec_rs_transition(s: RegStateV, ev: EventView, at: Seq<Seq<char>>) -> Option<
    (RegStateV, ConsumedView),
> {
    if at.len() != 2 || at[0] != "variable"@ {
        None
    } else if at[1] == "add"@ {
        match ev.payload {
            Some(name) => {
                if is_valid_id(name) && !tbl_contains(s.variables, name) && ev.path.len() >= 1 {
                    Some(
                        (
                            RegStateV { variables: tbl_insert(s.variables, name, name), ..s },
                            ConsumedView::Reversible {
                                state_change: EventView {
                                    path: seq!["add-variable"@],
                                    payload: Some(name),
                                },
                                perform: ev,
                                reverse: EventView {
                                    path: ev.path.update(ev.path.len() - 1, "remove"@),
                                    payload: Some(name),
                                },
                            },
                        ),
                    )
                } else {
                    None
                }
            },
            None => None,
        }
    } else if at[1] == "remove"@ {
        match ev.payload {
            Some(id) => {
                if tbl_contains(s.variables, id) {
                    Some(
                        (
                            RegStateV {
                                variables: tbl_remove(s.variables, id),
                                regulations: regs_without(s.regulations, id),
                                ..s
                            },
                            ConsumedView::Irreversible {
                                state_change: EventView {
                                    path: seq!["remove-variable"@],
                                    payload: Some(id),
                                },
                            },
                        ),
                    )
                } else {
                    None
                }
            },
            None => None,
        }
    } else if at[1] == "set_name"@ {
        match ev.payload {
            Some(p) => match spec_parse_obj(p, rs_rename_keys()) {
                Some(vs) => match tbl_get(s.variables, vs[0]) {
                    Some(old_name) => Some(
                        (
                            RegStateV { variables: tbl_update(s.variables, vs[0], vs[1]), ..s },
                            ConsumedView::Reversible {
                                state_change: EventView {
                                    path: seq!["set-name"@],
                                    payload: Some(p),
                                },
                                perform: ev,
                                reverse: EventView {
                                    path: ev.path,
                                    payload: Some(
                                        spec_obj(rs_rename_keys(), seq![vs[0], old_name]),
                                    ),
                                },
                            },
                        ),
                    ),
                    None => None,
                },
                None => None,
            },
            None => None,
        }
    } else if at[1] == "set_id"@ {
        match ev.payload {
            Some(p) => match spec_parse_obj(p, rs_id_change_keys()) {
                Some(vs) => {
                    if tbl_contains(s.variables, vs[0]) && is_valid_id(vs[1]) && !tbl_contains(
                        s.variables,
                        vs[1],
                    ) && !crate::model::references_var(s.regulations, vs[0]) {
                        match tbl_get(s.variables, vs[0]) {
                            Some(v) => Some(
                                (
                                    RegStateV {
                                        variables: tbl_insert(
                                            tbl_remove(s.variables, vs[0]),
                                            vs[1],
                                            v,
                                        ),
                                        ..s
                                    },
                                    ConsumedView::Reversible {
                                        state_change: EventView {
                                            path: seq!["set-id"@],
                                            payload: Some(p),
                                        },
                                        perform: ev,
                                        reverse: EventView {
                                            path: ev.path,
                                            payload: Some(
                                                spec_obj(
                                                    rs_id_change_keys(),
                                                    seq![vs[1], vs[0]],
                                                ),
                                            ),
                                        },
                                    },
                                ),
                            ),
                            None => None,
                        }
                    } else {
                        None
                    }
                },
                None => None,
            },
            None => None,
        }
    } else {
        None
    }
}

impl RegulationsState {
    /// Consume one `variable` action. On success the outcome and the new
    /// state are exactly what [`spec_rs_transition`] gives; on error the
    /// state is unchanged and the transition gives nothing.
    pub fn consume_variable_event(&mut self, path: &[String], action: &UserAction) -> (r: Result<
        Consumed,
        String,
    >)
        requires
            old(self).wf(),
            path@.len() == 2,
            path.deep_view()[0] == "variable"@,
        ensures
            final(self).wf(),
            match r {
                Ok(c) => spec_rs_transition(old(self)@, action@, path.deep_view()) == Some(
                    (final(self)@, c@),
                ),
                Err(_) => spec_rs_transition(old(self)@, action@, path.deep_view()) is None
                    && *final(self) == *old(self),
            },
    {
        let ghost at = path.deep_view();
        proof {
            assert(at[1] == path@[1]@);
        }
        if str_eq(path[1].as_str(), "add") {
            let payload = Self::clone_payload(action, "variable")?;
            let vid = VarId::new(payload.as_str())?;
            if action.event.path.len() == 0 {
                return Err(String::from_str("an action path cannot be empty"));
            }
            let ghost s0 = self@;
            match self.add_var(vid, payload.as_str()) {
                Ok(_) => {},
                Err(e) => {
                    return Err(e);
                },
            }
            let mut sc_path: Vec<String> = Vec::new();
            sc_path.push(String::from_str("add-variable"));
            let state_change = Event { path: sc_path, payload: Some(payload.clone()) };
            let mut rp = Self::clone_path(action);
            let last = rp.len() - 1;
            rp.set(last, String::from_str("remove"));
            let reverse = Event { path: rp, payload: Some(payload.clone()) };
            let c = Consumed::Reversible {
                state_change,
                perform_reverse: (action.event.duplicate(), reverse),
            };
            proof {
                assert(state_change@.path =~= seq!["add-variable"@]);
                assert(reverse@.path =~= action@.path.update(action@.path.len() - 1, "remove"@));
                assert(self@ =~= RegStateV {
                    variables: tbl_insert(s0.variables, payload@, payload@),
                    ..s0
                });
            }
            return Ok(c);
        }
        if str_eq(path[1].as_str(), "remove") {
            let payload = Self::clone_payload(action, "variable")?;
            let ghost s0 = self@;
            match self.remove_var_by_str(payload.as_str()) {
                Ok(_) => {},
                Err(e) => {
                    return Err(e);
                },
            }
            let mut sc_path: Vec<String> = Vec::new();
            sc_path.push(String::from_str("remove-variable"));
            let state_change = Event { path: sc_path, payload: Some(payload.clone()) };
            let c = Consumed::Irreversible { state_change };
            proof {
                assert(c@->Irreversible_state_change.path =~= seq!["remove-variable"@]);
                assert(self@ =~= RegStateV {
                    variables: tbl_remove(s0.variables, payload@),
                    regulations: regs_without(s0.regulations, payload@),
                    ..s0
                });
            }
            return Ok(c);
        }
        if str_eq(path[1].as_str(), "set_name") {
            let payload = Self::clone_payload(action, "variable")?;
            let mut keys: Vec<&str> = Vec::new();
            keys.push("id");
            keys.push("new_name");
            let ks = keys.as_slice();
            proof {
                assert(ks.deep_view() =~= rs_rename_keys());
            }
            let vs = match parse_obj(payload.as_str(), ks) {
                Some(vs) => vs,
                None => {
                    return Err(String::from_str("malformed rename payload"));
                },
            };
            proof {
                assert(vs.deep_view()[0] == vs@[0]@);
                assert(vs.deep_view()[1] == vs@[1]@);
            }
            let ghost s0 = self@;
            let old_name = match self.set_var_name(vs[0].as_str(), vs[1].as_str()) {
                Ok(v) => v,
                Err(e) => {
                    proof {
                        match tbl_get(s0.variables, vs.deep_view()[0]) {
                            Some(v) => lemma_get_some_contains(
                                s0.variables,
                                vs.deep_view()[0],
                                v,
                            ),
                            None => {},
                        }
                    }
                    return Err(e);
                },
            };
            let mut sc_path: Vec<String> = Vec::new();
            sc_path.push(String::from_str("set-name"));
            let state_change = Event { path: sc_path, payload: Some(payload.clone()) };
            let mut vals: Vec<&str> = Vec::new();
            vals.push(vs[0].as_str());
            vals.push(old_name.as_str());
            let vls = vals.as_slice();
            proof {
                assert(vls.deep_view() =~= seq![vs.deep_view()[0], old_name@]);
            }
            let rev_payload = encode_obj(ks, vls);
            let reverse = Event {
                path: Self::clone_path(action),
                payload: Some(rev_payload),
            };
            let c = Consumed::Reversible {
                state_change,
                perform_reverse: (action.event.duplicate(), reverse),
            };
            proof {
                assert(state_change@.path =~= seq!["set-name"@]);
                assert(self@ =~= RegStateV {
                    variables: tbl_update(s0.variables, vs.deep_view()[0], vs.deep_view()[1]),
                    ..s0
                });
            }
            return Ok(c);
        }
        if str_eq(path[1].as_str(), "set_id") {
            let payload = Self::clone_payload(action, "variable")?;
            let mut keys: Vec<&str> = Vec::new();
            keys.push("original_id");
            keys.push("new_id");
            let ks = keys.as_slice();
            proof {
                assert(ks.deep_view() =~= rs_id_change_keys());
            }
            let vs = match parse_obj(payload.as_str(), ks) {
                Some(vs) => vs,
                None => {
                    return Err(String::from_str("malformed id-change payload"));
                },
            };
            proof {
                assert(vs.deep_view()[0] == vs@[0]@);
                assert(vs.deep_view()[1] == vs@[1]@);
            }
            let orig = VarId { id: vs[0].clone() };
            let new_vid = match VarId::new(vs[1].as_str()) {
                Ok(v) => v,
                Err(e) => {
                    return Err(e);
                },
            };
            let ghost s0 = self@;
            match self.set_var_id(&orig, new_vid) {
                Ok(_) => {},
                Err(e) => {
                    return Err(e);
                },
            }
            let mut sc_path: Vec<String> = Vec::new();
            sc_path.push(String::from_str("set-id"));
            let state_change = Event { path: sc_path, payload: Some(payload.clone()) };
            let mut vals: Vec<&str> = Vec::new();
            vals.push(vs[1].as_str());
            vals.push(vs[0].as_str());
            let vls = vals.as_slice();
            proof {
                assert(vls.deep_view() =~= seq![vs.deep_view()[1], vs.deep_view()[0]]);
            }
            let rev_payload = encode_obj(ks, vls);
            let reverse = Event {
                path: Self::clone_path(action),
                payload: Some(rev_payload),
            };
            let c = Consumed::Reversible {
                state_change,
                perform_reverse: (action.event.duplicate(), reverse),
            };
            proof {
                let v = tbl_get(s0.variables, vs.deep_view()[0])->Some_0;
                lemma_get_some_contains(s0.variables, vs.deep_view()[0], v);
                assert(state_change@.path =~= seq!["set-id"@]);
                assert(self@ =~= RegStateV {
                    variables: tbl_insert(
                        tbl_remove(s0.variables, vs.deep_view()[0]),
                        vs.deep_view()[1],
                        v,
                    ),
                    ..s0
                });
            }
            return Ok(c);
        }
        Err(String::from_str("the variable component cannot consume this path"))
    }

    /// Consume one `regulation` action; no verbs are available yet, so
    /// every action errs and the state is unchanged.
    pub fn consume_regulation_event(&mut self, path: &[String], action: &UserAction) -> (r: Result<
        Consumed,
        String,
    >)
        ensures
            r is Err,
            *final(self) == *old(self),
    {
        Err(String::from_str("the regulation component cannot consume this path"))
    }

    /// Consume one `layout` action; no verbs are available yet, so every
    /// action errs and the state is unchanged.
    pub fn consume_layout_event(&mut self, path: &[String], action: &UserAction) -> (r: Result<
        Consumed,
        String,
    >)
        ensures
            r is Err,
            *final(self) == *old(self),
    {
        Err(String::from_str("the layout component cannot consume this path"))
    }

    /// Consume one action addressed to this editor. On success the outcome
    /// and the new state are exactly what [`spec_rs_transition`] gives; on
    /// error the state is unchanged and the transition gives nothing.
    pub fn consume_event(&mut self, path: &[String], action: &UserAction) -> (r: Result<
        Consumed,
        String,
    >)
        requires
            old(self).wf(),
        ensures
            final(self).wf(),
            match r {
                Ok(c) => spec_rs_transition(old(self)@, action@, path.deep_view()) == Some(
                    (final(self)@, c@),
                ),
                Err(_) => spec_rs_transition(old(self)@, action@, path.deep_view()) is None
                    && *final(self) == *old(self),
            },
    {
        match Self::assert_path_length(path, 2, "the regulations editor") {
            Ok(_) => {},
            Err(e) => {
                return Err(e);
            },
        }
        proof {
            assert(path.deep_view()[0] == path@[0]@);
        }
        if str_eq(path[0].as_str(), "variable") {
            self.consume_variable_event(path, action)
        } else if str_eq(path[0].as_str(), "regulation") {
            self.consume_regulation_event(path, action)
        } else if str_eq(path[0].as_str(), "layout") {
            self.consume_layout_event(path, action)
        } else {
            Err(String::from_str("the regulations editor cannot consume this path"))
        }
    }
}

impl SessionState for RegulationsState {
    /// The editor's well-formedness invariant.
    open spec fn inv(self) -> bool {
        self.wf()
    }

    /// Consume a mutating action; on error the state is unchanged.
    fn consume_event(&mut self, path: &[String], action: &Event) -> (r: Result<Consumed, String>) {
        let ua = UserAction { event: action.duplicate() };
        RegulationsState::consume_event(self, path, &ua)
    }

    /// Answer a read-only query; this editor offers none yet.
    fn refresh(&self, full_path: &[String], at_path: &[String]) -> (r: Result<Event, String>) {
        Err(String::from_str("the regulations editor cannot answer queries"))
    }
}

} // verus!
