//! The model component's read-only queries: serialized snapshots of its
//! entity lists. A query never mutates anything and its payload is pinned
//! exactly by [`spec_refresh`].

use vstd::prelude::*;
use crate::codec::{encode_array, spec_json_array};
use crate::data_structs::{LayoutData, LayoutNodeData, RegulationData, UninterpretedFnData,
    VariableData, ld_keys, spec_layout_node_data_json, spec_layout_nodes_json,
    spec_regulation_data_json, spec_uninterpreted_fn_data_json, spec_variable_data_json};
use crate::events::Event;
use crate::ids::{LayoutId, VarId};
use crate::model::{LayoutV, ModelState, ModelV, RegV, UfnV, VarV};
use crate::table::tbl_get;
use crate::text::str_eq;

verus! {

/// The payload of a variable-list query.
pub open spec fn spec_variables_json(vars: Seq<(Seq<char>, VarV)>) -> Seq<char> {
    spec_json_array(
        vars.map_values(|p: (Seq<char>, VarV)| spec_variable_data_json(p.0, p.1.0, p.1.1)),
    )
}

/// The payload of a regulation-list query.
pub open spec fn spec_regulations_json(rs: Seq<(Seq<char>, RegV)>) -> Seq<char> {
    spec_json_array(
        rs.map_values(
            |p: (Seq<char>, RegV)| spec_regulation_data_json(p.1.0, p.1.1, p.1.2, p.1.3),
        ),
    )
}

/// The payload of a layout-list query.
pub open spec fn spec_layouts_json(ls: Seq<(Seq<char>, LayoutV)>) -> Seq<char> {
    spec_json_array(
        ls.map_values(
            |p: (Seq<char>, LayoutV)|
                crate::codec::spec_obj(
                    ld_keys(),
                    seq![p.0, p.1.0, spec_json_array(spec_layout_nodes_json(p.0, p.1.1))],
                ),
        ),
    )
}

/// The payload of a node-list query for one layout.
pub open spec fn spec_layout_nodes_list_json(lid: Seq<char>, nodes: crate::model::NodesV) -> Seq<
    char,
> {
    spec_json_array(spec_layout_nodes_json(lid, nodes))
}

/// The payload of a function-list query.
pub open spec fn spec_uninterpreted_fns_json(fs: Seq<(Seq<char>, UfnV)>) -> Seq<char> {
    spec_json_array(
        fs.map_values(
            |p: (Seq<char>, UfnV)| spec_uninterpreted_fn_data_json(p.0, p.1.0, p.1.1, p.1.4),
        ),
    )
}

/// The payload a read-only query returns, or nothing when the path names no
/// query.
pub open spec fn spec_refresh(m: ModelV, at: Seq<Seq<char>>) -> Option<Seq<char>> {
    if at.len() == 1 && at[0] == "get_variables"@ {
        Some(spec_variables_json(m.variables))
    } else if at.len() == 1 && at[0] == "get_regulations"@ {
        Some(spec_regulations_json(m.regulations))
    } else if at.len() == 1 && at[0] == "get_layouts"@ {
        Some(spec_layouts_json(m.layouts))
    } else if at.len() == 2 && at[0] == "get_layout_nodes"@ {
        match tbl_get(m.layouts, at[1]) {
            Some(l) => Some(spec_layout_nodes_list_json(at[1], l.1)),
            None => None,
        }
    } else if at.len() >= 1 && at[0] == "get_uninterpreted_fns"@ {
        Some(spec_uninterpreted_fns_json(m.uninterpreted_fns))
    } else {
        None
    }
}

impl ModelState {
    /// Answer a read-only query addressed below `model`. The returned event
    /// carries `full_path` and exactly the payload [`spec_refresh`] gives;
    /// an unknown query path errs.
    pub fn refresh(&self, full_path: &[String], at_path: &[String]) -> (r: Result<Event, String>)
        ensures
            match r {
                Ok(e) => {
                    &&& e@.path == full_path.deep_view()
                    &&& spec_refresh(self@, at_path.deep_view()) matches Some(pl) && e@.payload
                        == Some(pl)
                },
                Err(_) => spec_refresh(self@, at_path.deep_view()) is None,
            },
    {
        if at_path.len() == 0 {
            return Err(String::from_str("empty query path"));
        }
        let ghost at = at_path.deep_view();
        proof {
            assert(at[0] == at_path@[0]@);
            if at.len() >= 2 {
                assert(at[1] == at_path@[1]@);
            }
        }
        if at_path.len() == 1 && str_eq(at_path[0].as_str(), "get_variables") {
            let ghost vars = self@.variables;
            let n = self.variables.entries.len();
            let mut items: Vec<String> = Vec::new();
            let mut i: usize = 0;
            while i < n
                invariant
                    i <= n,
                    n == self.variables.entries@.len(),
                    n == vars.len(),
                    vars == self@.variables,
                    items@.len() == i,
                    forall|j: int|
                        0 <= j < i ==> (#[trigger] items@[j])@ == spec_variable_data_json(
                            vars[j].0,
                            vars[j].1.0,
                            vars[j].1.1,
                        ),
                decreases n - i,
            {
                proof {
                    assert(vars[i as int] == self.variables.entries@[i as int]@);
                }
                let e = &self.variables.entries[i];
                let vid = VarId { id: e.key.clone() };
                let data = VariableData::from_var(&vid, &e.val.variable, &e.val.update_fn);
                items.push(data.to_json_str());
                i += 1;
            }
            let arr = encode_array(&items);
            proof {
                assert(items.deep_view() =~= vars.map_values(
                    |p: (Seq<char>, VarV)| spec_variable_data_json(p.0, p.1.0, p.1.1),
                ));
            }
            return Ok(Event::build(full_path, Some(arr.as_str())));
        }
        if at_path.len() == 1 && str_eq(at_path[0].as_str(), "get_regulations") {
            let ghost rs = self@.regulations;
            let n = self.regulations.entries.len();
            let mut items: Vec<String> = Vec::new();
            let mut i: usize = 0;
            while i < n
                invariant
                    i <= n,
                    n == self.regulations.entries@.len(),
                    n == rs.len(),
                    rs == self@.regulations,
                    items@.len() == i,
                    forall|j: int|
                        0 <= j < i ==> (#[trigger] items@[j])@ == spec_regulation_data_json(
                            rs[j].1.0,
                            rs[j].1.1,
                            rs[j].1.2,
                            rs[j].1.3,
                        ),
                decreases n - i,
            {
                proof {
                    assert(rs[i as int] == self.regulations.entries@[i as int]@);
                }
                let e = &self.regulations.entries[i];
                let data = RegulationData::from_reg(&e.val);
                items.push(data.to_json_str());
                i += 1;
            }
            let arr = encode_array(&items);
            proof {
                assert(items.deep_view() =~= rs.map_values(
                    |p: (Seq<char>, RegV)| spec_regulation_data_json(p.1.0, p.1.1, p.1.2, p.1.3),
                ));
            }
            return Ok(Event::build(full_path, Some(arr.as_str())));
        }
        if at_path.len() == 1 && str_eq(at_path[0].as_str(), "get_layouts") {
            let ghost ls = self@.layouts;
            let n = self.layouts.entries.len();
            let mut items: Vec<String> = Vec::new();
            let mut i: usize = 0;
            while i < n
                invariant
                    i <= n,
                    n == self.layouts.entries@.len(),
                    n == ls.len(),
                    ls == self@.layouts,
                    items@.len() == i,
                    forall|j: int|
                        0 <= j < i ==> (#[trigger] items@[j])@ == crate::codec::spec_obj(
                            ld_keys(),
                            seq![
                                ls[j].0,
                                ls[j].1.0,
                                spec_json_array(spec_layout_nodes_json(ls[j].0, ls[j].1.1)),
                            ],
                        ),
                decreases n - i,
            {
                proof {
                    assert(ls[i as int] == self.layouts.entries@[i as int]@);
                }
                let e = &self.layouts.entries[i];
                let lid = LayoutId { id: e.key.clone() };
                let data = LayoutData::from_layout(&lid, &e.val);
                let encoded = data.to_json_str();
                proof {
                    assert(data.nodes@.map_values(
                        |d: LayoutNodeData|
                            spec_layout_node_data_json(d.layout@, d.variable@, d.px@, d.py@),
                    ) =~= spec_layout_nodes_json(ls[i as int].0, ls[i as int].1.1));
                }
                items.push(encoded);
                i += 1;
            }
            let arr = encode_array(&items);
            proof {
                assert(items.deep_view() =~= ls.map_values(
                    |p: (Seq<char>, LayoutV)|
                        crate::codec::spec_obj(
                            ld_keys(),
                            seq![p.0, p.1.0, spec_json_array(spec_layout_nodes_json(p.0, p.1.1))],
                        ),
                ));
            }
            return Ok(Event::build(full_path, Some(arr.as_str())));
        }
        if at_path.len() == 2 && str_eq(at_path[0].as_str(), "get_layout_nodes") {
            let layout = match self.layouts.get(at_path[1].as_str()) {
                Some(l) => l,
                None => {
                    return Err(String::from_str("no such layout"));
                },
            };
            let ghost nodes = tbl_get(self@.layouts, at[1])->Some_0.1;
            let n = layout.nodes.entries.len();
            let mut items: Vec<String> = Vec::new();
            let mut i: usize = 0;
            while i < n
                invariant
                    i <= n,
                    at_path@.len() == 2,
                    at == at_path.deep_view(),
                    n == layout.nodes.entries@.len(),
                    n == nodes.len(),
                    nodes == layout.nodes@,
                    items@.len() == i,
                    forall|j: int|
                        0 <= j < i ==> (#[trigger] items@[j])@ == spec_layout_node_data_json(
                            at_path@[1]@,
                            nodes[j].0,
                            nodes[j].1.0,
                            nodes[j].1.1,
                        ),
                decreases n - i,
            {
                proof {
                    assert(nodes[i as int] == layout.nodes.entries@[i as int]@);
                }
                let e = &layout.nodes.entries[i];
                let data = LayoutNodeData::new(
                    at_path[1].as_str(),
                    e.key.as_str(),
                    e.val.0.as_str(),
                    e.val.1.as_str(),
                );
                items.push(data.to_json_str());
                i += 1;
            }
            let arr = encode_array(&items);
            proof {
                assert(items.deep_view() =~= spec_layout_nodes_json(at[1], nodes));
            }
            return Ok(Event::build(full_path, Some(arr.as_str())));
        }
        if str_eq(at_path[0].as_str(), "get_uninterpreted_fns") {
            let ghost fs = self@.uninterpreted_fns;
            let n = self.uninterpreted_fns.entries.len();
            let mut items: Vec<String> = Vec::new();
            let mut i: usize = 0;
            while i < n
                invariant
                    i <= n,
                    n == self.uninterpreted_fns.entries@.len(),
                    n == fs.len(),
                    fs == self@.uninterpreted_fns,
                    items@.len() == i,
                    forall|j: int|
                        0 <= j < i ==> (#[trigger] items@[j])@ == spec_uninterpreted_fn_data_json(
                            fs[j].0,
                            fs[j].1.0,
                            fs[j].1.1,
                            fs[j].1.4,
                        ),
                decreases n - i,
            {
                proof {
                    assert(fs[i as int] == self.uninterpreted_fns.entries@[i as int]@);
                }
                let e = &self.uninterpreted_fns.entries[i];
                let data = UninterpretedFnData::new(
                    e.key.as_str(),
                    e.val.name.as_str(),
                    e.val.arity,
                    e.val.expression.as_str(),
                );
                items.push(data.to_json_str());
                i += 1;
            }
            let arr = encode_array(&items);
            proof {
                assert(items.deep_view() =~= fs.map_values(
                    |p: (Seq<char>, UfnV)|
                        spec_uninterpreted_fn_data_json(p.0, p.1.0, p.1.1, p.1.4),
                ));
            }
            return Ok(Event::build(full_path, Some(arr.as_str())));
        }
        Err(String::from_str("the model component cannot answer this query"))
    }
}

} // verus!
