//! Simplified data carried in event payloads, with its wire encoding.
//!
//! Each structure here is what one leaf operation reads or writes. The
//! encodings are the object format of [`crate::codec`], and for every
//! structure encoding followed by parsing is proved to be the identity —
//! the fact the exact-reverse guarantees of the session protocol rest on.

use vstd::prelude::*;
use crate::codec::{encode_array, encode_obj, parse_obj, spec_json_array, spec_obj, spec_parse_obj};
use crate::entities::{Essentiality, Layout, Monotonicity, NodePosition, Observability, Regulation,
    RegulationSign, UpdateFn, Variable, essentiality_from_str, essentiality_to_str, lemma_essentiality_round_trip,
    lemma_monotonicity_round_trip, lemma_observability_round_trip, lemma_sign_round_trip,
    monotonicity_from_str, monotonicity_to_str, observability_from_str, observability_to_str,
    sign_from_str, sign_to_str, spec_essentiality_str, spec_monotonicity_str,
    spec_observability_str, spec_parse_essentiality, spec_parse_monotonicity,
    spec_parse_observability, spec_parse_sign, spec_sign_str};
use crate::ids::{VarId, LayoutId, check_valid_id, is_id_char, is_valid_id};
use crate::codec::lemma_parse_spec_obj;
use crate::text::{dec_digits, dec_string, dec_val, is_dec, lemma_dec_digits_is_dec, parse_dec};

verus! {

/// Keys of a `VariableData` object.
pub open spec fn vd_keys() -> Seq<Seq<char>> {
    seq!["id"@, "name"@, "update_fn"@]
}

/// The encoding of a `VariableData`.
pub open spec fn spec_variable_data_json(id: Seq<char>, name: Seq<char>, ufn: Seq<char>) -> Seq<
    char,
> {
    spec_obj(vd_keys(), seq![id, name, ufn])
}

/// Mirror of `VariableData::from_json_str`.
pub open spec fn spec_parse_variable_data(s: Seq<char>) -> Option<
    (Seq<char>, Seq<char>, Seq<char>),
> {
    match spec_parse_obj(s, vd_keys()) {
        Some(vs) => Some((vs[0], vs[1], vs[2])),
        None => None,
    }
}

/// Encoding a `VariableData` and parsing it back is the identity.
pub proof fn lemma_variable_data_round_trip(id: Seq<char>, name: Seq<char>, ufn: Seq<char>)
    ensures
        spec_parse_variable_data(spec_variable_data_json(id, name, ufn)) == Some((id, name, ufn)),
{
    lemma_parse_spec_obj(vd_keys(), seq![id, name, ufn]);
}

/// Data about one variable and its update function, as sent to and from the
/// frontend.
#[derive(Clone, Debug, PartialEq, Eq)]
pub struct VariableData {
    pub id: String,
    pub name: String,
    pub update_fn: String,
}

impl View for VariableData {
    type V = (Seq<char>, Seq<char>, Seq<char>);

    open spec fn view(&self) -> (Seq<char>, Seq<char>, Seq<char>) {
        (self.id@, self.name@, self.update_fn@)
    }
}

impl VariableData {
    /// Create a `VariableData` from the plain parts.
    pub fn new(id: &str, name: &str, update_fn: &str) -> (r: VariableData)
        ensures
            r@ == (id@, name@, update_fn@),
    {
        VariableData {
            id: String::from_str(id),
            name: String::from_str(name),
            update_fn: String::from_str(update_fn),
        }
    }

    /// Create a `VariableData` from a variable, its update function, and its
    /// id.
    pub fn from_var(var_id: &VarId, variable: &Variable, update_fn: &UpdateFn) -> (r: VariableData)
        ensures
            r@ == (var_id@, variable@, update_fn@),
    {
        VariableData {
            id: String::from_str(var_id.as_str()),
            name: String::from_str(variable.get_name()),
            update_fn: String::from_str(update_fn.get_fn_expression()),
        }
    }

    /// The wire encoding of this data.
    pub fn to_json_str(&self) -> (r: String)
        ensures
            r@ == spec_variable_data_json(self.id@, self.name@, self.update_fn@),
    {
        let mut keys: Vec<&str> = Vec::new();
        keys.push("id");
        keys.push("name");
        keys.push("update_fn");
        let mut vals: Vec<&str> = Vec::new();
        vals.push(self.id.as_str());
        vals.push(self.name.as_str());
        vals.push(self.update_fn.as_str());
        let ks = keys.as_slice();
        let vs = vals.as_slice();
        proof {
            assert(ks.deep_view() =~= vd_keys());
            assert(vs.deep_view() =~= seq![self.id@, self.name@, self.update_fn@]);
        }
        encode_obj(ks, vs)
    }

    /// Read a `VariableData` from its wire encoding.
    pub fn from_json_str(s: &str) -> (r: Option<VariableData>)
        ensures
            match r {
                Some(d) => spec_parse_variable_data(s@) == Some((d.id@, d.name@, d.update_fn@)),
                None => spec_parse_variable_data(s@) is None,
            },
    {
        let mut keys: Vec<&str> = Vec::new();
        keys.push("id");
        keys.push("name");
        keys.push("update_fn");
        let ks = keys.as_slice();
        proof {
            assert(ks.deep_view() =~= vd_keys());
        }
        let vs = match parse_obj(s, ks) {
            Some(vs) => vs,
            None => {
                return None;
            },
        };
        proof {
            assert(vs.deep_view()[0] == vs@[0]@);
            assert(vs.deep_view()[1] == vs@[1]@);
            assert(vs.deep_view()[2] == vs@[2]@);
        }
        Some(
            VariableData { id: vs[0].clone(), name: vs[1].clone(), update_fn: vs[2].clone() },
        )
    }
}

/// Keys of a `RegulationData` object.
pub open spec fn rd_keys() -> Seq<Seq<char>> {
    seq!["regulator"@, "target"@, "sign"@, "observable"@]
}

/// The encoding of a `RegulationData`.
pub open spec fn spec_regulation_data_json(
    regulator: Seq<char>,
    target: Seq<char>,
    sign: RegulationSign,
    observable: Observability,
) -> Seq<char> {
    spec_obj(
        rd_keys(),
        seq![regulator, target, spec_sign_str(sign), spec_observability_str(observable)],
    )
}

/// Mirror of `RegulationData::from_json_str`.
pub open spec fn spec_parse_regulation_data(s: Seq<char>) -> Option<
    (Seq<char>, Seq<char>, RegulationSign, Observability),
> {
    match spec_parse_obj(s, rd_keys()) {
        Some(vs) => match (spec_parse_sign(vs[2]), spec_parse_observability(vs[3])) {
            (Some(sg), Some(ob)) => Some((vs[0], vs[1], sg, ob)),
            _ => None,
        },
        None => None,
    }
}

/// Encoding a `RegulationData` and parsing it back is the identity.
pub proof fn lemma_regulation_data_round_trip(
    regulator: Seq<char>,
    target: Seq<char>,
    sign: RegulationSign,
    observable: Observability,
)
    ensures
        spec_parse_regulation_data(spec_regulation_data_json(regulator, target, sign, observable))
            == Some((regulator, target, sign, observable)),
{
    lemma_parse_spec_obj(
        rd_keys(),
        seq![regulator, target, spec_sign_str(sign), spec_observability_str(observable)],
    );
    lemma_sign_round_trip(sign);
    lemma_observability_round_trip(observable);
}

/// Simplified data about one regulation, as sent to and from the frontend.
#[derive(Clone, Debug, PartialEq, Eq)]
pub struct RegulationData {
    pub regulator: String,
    pub target: String,
    pub sign: RegulationSign,
    pub observable: Observability,
}

impl View for RegulationData {
    type V = (Seq<char>, Seq<char>, RegulationSign, Observability);

    open spec fn view(&self) -> (Seq<char>, Seq<char>, RegulationSign, Observability) {
        (self.regulator@, self.target@, self.sign, self.observable)
    }
}

impl RegulationData {
    /// Create a `RegulationData` from the plain parts.
    pub fn new(
        regulator: String,
        target: String,
        observable: Observability,
        sign: RegulationSign,
    ) -> (r: RegulationData)
        ensures
            r@ == (regulator@, target@, sign, observable),
    {
        RegulationData { regulator, target, sign, observable }
    }

    /// Create a `RegulationData` describing `regulation`.
    pub fn from_reg(regulation: &Regulation) -> (r: RegulationData)
        ensures
            r@ == regulation@,
    {
        RegulationData {
            regulator: String::from_str(regulation.get_regulator()),
            target: String::from_str(regulation.get_target()),
            sign: *regulation.get_sign(),
            observable: *regulation.get_observability(),
        }
    }

    /// Read a `RegulationData` from regulation-string notation such as
    /// `a -> b`.
    pub fn try_from_reg_str(regulation_str: &str) -> (r: Result<RegulationData, String>)
        ensures
            match r {
                Ok(d) => spec_parse_reg_string(regulation_str@) == Some(
                    (d.regulator@, d.target@, d.sign, d.observable),
                ),
                Err(_) => spec_parse_reg_string(regulation_str@) is None,
            },
    {
        let regulation = Regulation::try_from_string(regulation_str)?;
        Ok(RegulationData::from_reg(&regulation))
    }

    /// The wire encoding of this data.
    pub fn to_json_str(&self) -> (r: String)
        ensures
            r@ == spec_regulation_data_json(
                self.regulator@,
                self.target@,
                self.sign,
                self.observable,
            ),
    {
        let mut keys: Vec<&str> = Vec::new();
        keys.push("regulator");
        keys.push("target");
        keys.push("sign");
        keys.push("observable");
        let mut vals: Vec<&str> = Vec::new();
        vals.push(self.regulator.as_str());
        vals.push(self.target.as_str());
        vals.push(sign_to_str(self.sign));
        vals.push(observability_to_str(self.observable));
        let ks = keys.as_slice();
        let vs = vals.as_slice();
        proof {
            assert(ks.deep_view() =~= rd_keys());
            assert(vs.deep_view() =~= seq![
                self.regulator@,
                self.target@,
                spec_sign_str(self.sign),
                spec_observability_str(self.observable),
            ]);
        }
        encode_obj(ks, vs)
    }

    /// Read a `RegulationData` from its wire encoding.
    pub fn from_json_str(s: &str) -> (r: Option<RegulationData>)
        ensures
            match r {
                Some(d) => spec_parse_regulation_data(s@) == Some(
                    (d.regulator@, d.target@, d.sign, d.observable),
                ),
                None => spec_parse_regulation_data(s@) is None,
            },
    {
        let mut keys: Vec<&str> = Vec::new();
        keys.push("regulator");
        keys.push("target");
        keys.push("sign");
        keys.push("observable");
        let ks = keys.as_slice();
        proof {
            assert(ks.deep_view() =~= rd_keys());
        }
        let vs = match parse_obj(s, ks) {
            Some(vs) => vs,
            None => {
                return None;
            },
        };
        proof {
            assert(vs.deep_view()[0] == vs@[0]@);
            assert(vs.deep_view()[1] == vs@[1]@);
            assert(vs.deep_view()[2] == vs@[2]@);
            assert(vs.deep_view()[3] == vs@[3]@);
        }
        let sign = match sign_from_str(vs[2].as_str()) {
            Some(sg) => sg,
            None => {
                return None;
            },
        };
        let observable = match observability_from_str(vs[3].as_str()) {
            Some(ob) => ob,
            None => {
                return None;
            },
        };
        Some(
            RegulationData {
                regulator: vs[0].clone(),
                target: vs[1].clone(),
                sign,
                observable,
            },
        )
    }
}

/// The arrow character of a sign in regulation-string notation.
pub open spec fn spec_sign_arrow_char(s: RegulationSign) -> char {
    match s {
        RegulationSign::Activation => '>',
        RegulationSign::Inhibition => '|',
        RegulationSign::Dual => '*',
        RegulationSign::Unknown => '?',
    }
}

/// Regulation-string notation: `regulator -X b`, where `X` is the sign arrow
/// character, followed by `?` when the regulation is not observable.
pub open spec fn spec_reg_string(
    regulator: Seq<char>,
    target: Seq<char>,
    sign: RegulationSign,
    observable: Observability,
) -> Seq<char> {
    regulator + seq![' ', '-', spec_sign_arrow_char(sign)] + (if observable is False {
        seq!['?']
    } else {
        Seq::<char>::empty()
    }) + seq![' '] + target
}

/// The sign a given arrow character denotes.
pub open spec fn spec_parse_arrow_char(c: char) -> Option<RegulationSign> {
    if c == '>' {
        Some(RegulationSign::Activation)
    } else if c == '|' {
        Some(RegulationSign::Inhibition)
    } else if c == '*' {
        Some(RegulationSign::Dual)
    } else if c == '?' {
        Some(RegulationSign::Unknown)
    } else {
        None
    }
}

/// Parse of regulation-string notation: both identifiers must be valid, and
/// observability is `False` exactly when the arrow carries a `?` suffix.
pub open spec fn spec_parse_reg_string(s: Seq<char>) -> Option<
    (Seq<char>, Seq<char>, RegulationSign, Observability),
> {
    match s.index_of_first(' ') {
        Some(i) => {
            let regulator = s.subrange(0, i);
            let rest = s.skip(i + 1);
            if rest.len() >= 2 && rest[0] == '-' {
                match spec_parse_arrow_char(rest[1]) {
                    Some(sign) => {
                        if rest.len() >= 3 && rest[2] == '?' {
                            if rest.len() >= 4 && rest[3] == ' ' {
                                let target = rest.skip(4);
                                if is_valid_id(regulator) && is_valid_id(target) {
                                    Some((regulator, target, sign, Observability::False))
                                } else {
                                    None
                                }
                            } else {
                                None
                            }
                        } else if rest.len() >= 3 && rest[2] == ' ' {
                            let target = rest.skip(3);
                            if is_valid_id(regulator) && is_valid_id(target) {
                                Some((regulator, target, sign, Observability::True))
                            } else {
                                None
                            }
                        } else {
                            None
                        }
                    },
                    None => None,
                }
            } else {
                None
            }
        },
        None => None,
    }
}

/// Keys of a `LayoutNodeData` object.
pub open spec fn lnd_keys() -> Seq<Seq<char>> {
    seq!["layout"@, "variable"@, "px"@, "py"@]
}

/// The encoding of a `LayoutNodeData`.
pub open spec fn spec_layout_node_data_json(
    layout: Seq<char>,
    variable: Seq<char>,
    px: Seq<char>,
    py: Seq<char>,
) -> Seq<char> {
    spec_obj(lnd_keys(), seq![layout, variable, px, py])
}

/// Mirror of `LayoutNodeData::from_json_str`.
pub open spec fn spec_parse_layout_node_data(s: Seq<char>) -> Option<
    (Seq<char>, Seq<char>, Seq<char>, Seq<char>),
> {
    match spec_parse_obj(s, lnd_keys()) {
        Some(vs) => Some((vs[0], vs[1], vs[2], vs[3])),
        None => None,
    }
}

/// Encoding a `LayoutNodeData` and parsing it back is the identity.
pub proof fn lemma_layout_node_data_round_trip(
    layout: Seq<char>,
    variable: Seq<char>,
    px: Seq<char>,
    py: Seq<char>,
)
    ensures
        spec_parse_layout_node_data(spec_layout_node_data_json(layout, variable, px, py)) == Some(
            (layout, variable, px, py),
        ),
{
    lemma_parse_spec_obj(lnd_keys(), seq![layout, variable, px, py]);
}

/// Data about one node of a layout: which layout, which variable, and the
/// position as decimal text coordinates.
#[derive(Clone, Debug, PartialEq, Eq)]
pub struct LayoutNodeData {
    pub layout: String,
    pub variable: String,
    pub px: String,
    pub py: String,
}

impl View for LayoutNodeData {
    type V = (Seq<char>, Seq<char>, Seq<char>, Seq<char>);

    open spec fn view(&self) -> (Seq<char>, Seq<char>, Seq<char>, Seq<char>) {
        (self.layout@, self.variable@, self.px@, self.py@)
    }
}

impl LayoutNodeData {
    /// Create a `LayoutNodeData` from the plain parts.
    pub fn new(layout_id: &str, var_id: &str, px: &str, py: &str) -> (r: LayoutNodeData)
        ensures
            r@ == (layout_id@, var_id@, px@, py@),
    {
        LayoutNodeData {
            layout: String::from_str(layout_id),
            variable: String::from_str(var_id),
            px: String::from_str(px),
            py: String::from_str(py),
        }
    }

    /// Create a `LayoutNodeData` from a node of a layout.
    pub fn from_node(layout_id: &LayoutId, var_id: &VarId, node: &NodePosition) -> (r:
        LayoutNodeData)
        ensures
            r@ == (layout_id@, var_id@, node.0@, node.1@),
    {
        LayoutNodeData {
            layout: String::from_str(layout_id.as_str()),
            variable: String::from_str(var_id.as_str()),
            px: node.0.clone(),
            py: node.1.clone(),
        }
    }

    /// The wire encoding of this data.
    pub fn to_json_str(&self) -> (r: String)
        ensures
            r@ == spec_layout_node_data_json(self.layout@, self.variable@, self.px@, self.py@),
    {
        let mut keys: Vec<&str> = Vec::new();
        keys.push("layout");
        keys.push("variable");
        keys.push("px");
        keys.push("py");
        let mut vals: Vec<&str> = Vec::new();
        vals.push(self.layout.as_str());
        vals.push(self.variable.as_str());
        vals.push(self.px.as_str());
        vals.push(self.py.as_str());
        let ks = keys.as_slice();
        let vs = vals.as_slice();
        proof {
            assert(ks.deep_view() =~= lnd_keys());
            assert(vs.deep_view() =~= seq![self.layout@, self.variable@, self.px@, self.py@]);
        }
        encode_obj(ks, vs)
    }

    /// Read a `LayoutNodeData` from its wire encoding.
    pub fn from_json_str(s: &str) -> (r: Option<LayoutNodeData>)
        ensures
            match r {
                Some(d) => spec_parse_layout_node_data(s@) == Some(
                    (d.layout@, d.variable@, d.px@, d.py@),
                ),
                None => spec_parse_layout_node_data(s@) is None,
            },
    {
        let mut keys: Vec<&str> = Vec::new();
        keys.push("layout");
        keys.push("variable");
        keys.push("px");
        keys.push("py");
        let ks = keys.as_slice();
        proof {
            assert(ks.deep_view() =~= lnd_keys());
        }
        let vs = match parse_obj(s, ks) {
            Some(vs) => vs,
            None => {
                return None;
            },
        };
        proof {
            assert(vs.deep_view()[0] == vs@[0]@);
            assert(vs.deep_view()[1] == vs@[1]@);
            assert(vs.deep_view()[2] == vs@[2]@);
            assert(vs.deep_view()[3] == vs@[3]@);
        }
        Some(
            LayoutNodeData {
                layout: vs[0].clone(),
                variable: vs[1].clone(),
                px: vs[2].clone(),
                py: vs[3].clone(),
            },
        )
    }
}

/// Keys of a `ChangeArgMonotoneData` object.
pub open spec fn cam_keys() -> Seq<Seq<char>> {
    seq!["idx"@, "monotonicity"@]
}

/// The encoding of a `ChangeArgMonotoneData`.
pub open spec fn spec_change_mono_json(idx: usize, m: Monotonicity) -> Seq<char> {
    spec_obj(cam_keys(), seq![dec_digits(idx as nat), spec_monotonicity_str(m)])
}

/// Mirror of `ChangeArgMonotoneData::from_json_str`.
pub open spec fn spec_parse_change_mono(s: Seq<char>) -> Option<(usize, Monotonicity)> {
    match spec_parse_obj(s, cam_keys()) {
        Some(vs) => {
            if is_dec(vs[0]) && dec_val(vs[0]) <= usize::MAX {
                match spec_parse_monotonicity(vs[1]) {
                    Some(m) => Some((dec_val(vs[0]) as usize, m)),
                    None => None,
                }
            } else {
                None
            }
        },
        None => None,
    }
}

/// Encoding a `ChangeArgMonotoneData` and parsing it back is the identity.
pub proof fn lemma_change_mono_round_trip(idx: usize, m: Monotonicity)
    ensures
        spec_parse_change_mono(spec_change_mono_json(idx, m)) == Some((idx, m)),
{
    lemma_parse_spec_obj(cam_keys(), seq![dec_digits(idx as nat), spec_monotonicity_str(m)]);
    lemma_dec_digits_is_dec(idx as nat);
    lemma_monotonicity_round_trip(m);
}

/// Request to change the monotonicity of one function argument.
#[derive(Clone, Debug, PartialEq, Eq)]
pub struct ChangeArgMonotoneData {
    pub idx: usize,
    pub monotonicity: Monotonicity,
}

impl View for ChangeArgMonotoneData {
    type V = (usize, Monotonicity);

    open spec fn view(&self) -> (usize, Monotonicity) {
        (self.idx, self.monotonicity)
    }
}

impl ChangeArgMonotoneData {
    /// Create a `ChangeArgMonotoneData` from the plain parts.
    pub fn new(idx: usize, monotonicity: Monotonicity) -> (r: ChangeArgMonotoneData)
        ensures
            r@ == (idx, monotonicity),
    {
        ChangeArgMonotoneData { idx, monotonicity }
    }

    /// The wire encoding of this data.
    pub fn to_json_str(&self) -> (r: String)
        ensures
            r@ == spec_change_mono_json(self.idx, self.monotonicity),
    {
        let idx_str = dec_string(self.idx);
        let mut keys: Vec<&str> = Vec::new();
        keys.push("idx");
        keys.push("monotonicity");
        let mut vals: Vec<&str> = Vec::new();
        vals.push(idx_str.as_str());
        vals.push(monotonicity_to_str(self.monotonicity));
        let ks = keys.as_slice();
        let vs = vals.as_slice();
        proof {
            assert(ks.deep_view() =~= cam_keys());
            assert(vs.deep_view() =~= seq![
                dec_digits(self.idx as nat),
                spec_monotonicity_str(self.monotonicity),
            ]);
        }
        encode_obj(ks, vs)
    }

    /// Read a `ChangeArgMonotoneData` from its wire encoding.
    pub fn from_json_str(s: &str) -> (r: Option<ChangeArgMonotoneData>)
        ensures
            match r {
                Some(d) => spec_parse_change_mono(s@) == Some((d.idx, d.monotonicity)),
                None => spec_parse_change_mono(s@) is None,
            },
    {
        let mut keys: Vec<&str> = Vec::new();
        keys.push("idx");
        keys.push("monotonicity");
        let ks = keys.as_slice();
        proof {
            assert(ks.deep_view() =~= cam_keys());
        }
        let vs = match parse_obj(s, ks) {
            Some(vs) => vs,
            None => {
                return None;
            },
        };
        proof {
            assert(vs.deep_view()[0] == vs@[0]@);
            assert(vs.deep_view()[1] == vs@[1]@);
        }
        let idx = match parse_dec(vs[0].as_str()) {
            Some(v) => v,
            None => {
                return None;
            },
        };
        let monotonicity = match monotonicity_from_str(vs[1].as_str()) {
            Some(m) => m,
            None => {
                return None;
            },
        };
        Some(ChangeArgMonotoneData { idx, monotonicity })
    }
}

/// Keys of a `ChangeArgEssentialData` object.
pub open spec fn cae_keys() -> Seq<Seq<char>> {
    seq!["idx"@, "essentiality"@]
}

/// The encoding of a `ChangeArgEssentialData`.
pub open spec fn spec_change_essential_json(idx: usize, e: Essentiality) -> Seq<char> {
    spec_obj(cae_keys(), seq![dec_digits(idx as nat), spec_essentiality_str(e)])
}

/// Mirror of `ChangeArgEssentialData::from_json_str`.
pub open spec fn spec_parse_change_essential(s: Seq<char>) -> Option<(usize, Essentiality)> {
    match spec_parse_obj(s, cae_keys()) {
        Some(vs) => {
            if is_dec(vs[0]) && dec_val(vs[0]) <= usize::MAX {
                match spec_parse_essentiality(vs[1]) {
                    Some(e) => Some((dec_val(vs[0]) as usize, e)),
                    None => None,
                }
            } else {
                None
            }
        },
        None => None,
    }
}

/// Encoding a `ChangeArgEssentialData` and parsing it back is the identity.
pub proof fn lemma_change_essential_round_trip(idx: usize, e: Essentiality)
    ensures
        spec_parse_change_essential(spec_change_essential_json(idx, e)) == Some((idx, e)),
{
    lemma_parse_spec_obj(cae_keys(), seq![dec_digits(idx as nat), spec_essentiality_str(e)]);
    lemma_dec_digits_is_dec(idx as nat);
    lemma_essentiality_round_trip(e);
}

/// Request to change the essentiality of one function argument.
#[derive(Clone, Debug, PartialEq, Eq)]
pub struct ChangeArgEssentialData {
    pub idx: usize,
    pub essentiality: Essentiality,
}

impl View for ChangeArgEssentialData {
    type V = (usize, Essentiality);

    open spec fn view(&self) -> (usize, Essentiality) {
        (self.idx, self.essentiality)
    }
}

impl ChangeArgEssentialData {
    /// Create a `ChangeArgEssentialData` from the plain parts.
    pub fn new(idx: usize, essentiality: Essentiality) -> (r: ChangeArgEssentialData)
        ensures
            r@ == (idx, essentiality),
    {
        ChangeArgEssentialData { idx, essentiality }
    }

    /// The wire encoding of this data.
    pub fn to_json_str(&self) -> (r: String)
        ensures
            r@ == spec_change_essential_json(self.idx, self.essentiality),
    {
        let idx_str = dec_string(self.idx);
        let mut keys: Vec<&str> = Vec::new();
        keys.push("idx");
        keys.push("essentiality");
        let mut vals: Vec<&str> = Vec::new();
        vals.push(idx_str.as_str());
        vals.push(essentiality_to_str(self.essentiality));
        let ks = keys.as_slice();
        let vs = vals.as_slice();
        proof {
            assert(ks.deep_view() =~= cae_keys());
            assert(vs.deep_view() =~= seq![
                dec_digits(self.idx as nat),
                spec_essentiality_str(self.essentiality),
            ]);
        }
        encode_obj(ks, vs)
    }

    /// Read a `ChangeArgEssentialData` from its wire encoding.
    pub fn from_json_str(s: &str) -> (r: Option<ChangeArgEssentialData>)
        ensures
            match r {
                Some(d) => spec_parse_change_essential(s@) == Some((d.idx, d.essentiality)),
                None => spec_parse_change_essential(s@) is None,
            },
    {
        let mut keys: Vec<&str> = Vec::new();
        keys.push("idx");
        keys.push("essentiality");
        let ks = keys.as_slice();
        proof {
            assert(ks.deep_view() =~= cae_keys());
        }
        let vs = match parse_obj(s, ks) {
            Some(vs) => vs,
            None => {
                return None;
            },
        };
        proof {
            assert(vs.deep_view()[0] == vs@[0]@);
            assert(vs.deep_view()[1] == vs@[1]@);
        }
        let idx = match parse_dec(vs[0].as_str()) {
            Some(v) => v,
            None => {
                return None;
            },
        };
        let essentiality = match essentiality_from_str(vs[1].as_str()) {
            Some(e) => e,
            None => {
                return None;
            },
        };
        Some(ChangeArgEssentialData { idx, essentiality })
    }
}

/// Keys of a `LayoutMetaData` object.
pub open spec fn lmd_keys() -> Seq<Seq<char>> {
    seq!["id"@, "name"@]
}

/// The encoding of a `LayoutMetaData`.
pub open spec fn spec_layout_meta_data_json(id: Seq<char>, name: Seq<char>) -> Seq<char> {
    spec_obj(lmd_keys(), seq![id, name])
}

/// Metadata about one layout: its id and name, without the nodes.
#[derive(Clone, Debug, PartialEq, Eq)]
pub struct LayoutMetaData {
    pub id: String,
    pub name: String,
}

impl View for LayoutMetaData {
    type V = (Seq<char>, Seq<char>);

    open spec fn view(&self) -> (Seq<char>, Seq<char>) {
        (self.id@, self.name@)
    }
}

impl LayoutMetaData {
    /// Create a `LayoutMetaData` from a layout's id and name.
    pub fn new(layout_id: &str, layout_name: &str) -> (r: LayoutMetaData)
        ensures
            r@ == (layout_id@, layout_name@),
    {
        LayoutMetaData { id: String::from_str(layout_id), name: String::from_str(layout_name) }
    }

    /// Create a `LayoutMetaData` describing `layout`.
    pub fn from_layout(layout_id: &LayoutId, layout: &Layout) -> (r: LayoutMetaData)
        ensures
            r@ == (layout_id@, layout.name@),
    {
        LayoutMetaData::new(layout_id.as_str(), layout.get_layout_name())
    }

    /// The wire encoding of this data.
    pub fn to_json_str(&self) -> (r: String)
        ensures
            r@ == spec_layout_meta_data_json(self.id@, self.name@),
    {
        let mut keys: Vec<&str> = Vec::new();
        keys.push("id");
        keys.push("name");
        let mut vals: Vec<&str> = Vec::new();
        vals.push(self.id.as_str());
        vals.push(self.name.as_str());
        let ks = keys.as_slice();
        let vs = vals.as_slice();
        proof {
            assert(ks.deep_view() =~= lmd_keys());
            assert(vs.deep_view() =~= seq![self.id@, self.name@]);
        }
        encode_obj(ks, vs)
    }
}

/// Data about one whole layout: id, name, and every node.
#[derive(Clone, Debug, PartialEq, Eq)]
pub struct LayoutData {
    pub id: String,
    pub name: String,
    pub nodes: Vec<LayoutNodeData>,
}

/// The node list of a layout, as `LayoutNodeData` encodings.
pub open spec fn spec_layout_nodes_json(
    layout_id: Seq<char>,
    nodes: Seq<(Seq<char>, (Seq<char>, Seq<char>))>,
) -> Seq<Seq<char>> {
    nodes.map_values(
        |p: (Seq<char>, (Seq<char>, Seq<char>))|
            spec_layout_node_data_json(layout_id, p.0, p.1.0, p.1.1),
    )
}

/// Keys of a `LayoutData` object.
pub open spec fn ld_keys() -> Seq<Seq<char>> {
    seq!["id"@, "name"@, "nodes"@]
}

/// The encoding of a `LayoutData`: the node list is carried as one nested,
/// escaped array value.
pub open spec fn spec_layout_data_json(
    id: Seq<char>,
    name: Seq<char>,
    nodes: Seq<LayoutNodeData>,
) -> Seq<char> {
    spec_obj(
        ld_keys(),
        seq![
            id,
            name,
            spec_json_array(
                nodes.map_values(
                    |d: LayoutNodeData|
                        spec_layout_node_data_json(d.layout@, d.variable@, d.px@, d.py@),
                ),
            ),
        ],
    )
}

impl LayoutData {
    /// Create a `LayoutData` describing `layout` and every node in it.
    pub fn from_layout(layout_id: &LayoutId, layout: &Layout) -> (r: LayoutData)
        ensures
            r.id@ == layout_id@,
            r.name@ == layout.name@,
            r.nodes@.len() == layout.nodes@.len(),
            forall|i: int|
                0 <= i < layout.nodes@.len() ==> (#[trigger] r.nodes@[i])@ == (
                layout_id@,
                layout.nodes@[i].0,
                layout.nodes@[i].1.0,
                layout.nodes@[i].1.1,
            ),
    {
        let mut nodes: Vec<LayoutNodeData> = Vec::new();
        let n = layout.nodes.entries.len();
        let mut i: usize = 0;
        while i < n
            invariant
                i <= n,
                n == layout.nodes.entries@.len(),
                n == layout.nodes@.len(),
                nodes@.len() == i,
                forall|j: int|
                    0 <= j < i ==> (#[trigger] nodes@[j])@ == (
                    layout_id@,
                    layout.nodes@[j].0,
                    layout.nodes@[j].1.0,
                    layout.nodes@[j].1.1,
                ),
            decreases n - i,
        {
            let entry = &layout.nodes.entries[i];
            proof {
                assert(layout.nodes@[i as int] == layout.nodes.entries@[i as int]@);
            }
            let nd = LayoutNodeData {
                layout: String::from_str(layout_id.as_str()),
                variable: String::from_str(entry.key.as_str()),
                px: entry.val.0.clone(),
                py: entry.val.1.clone(),
            };
            nodes.push(nd);
            i += 1;
        }
        LayoutData {
            id: String::from_str(layout_id.as_str()),
            name: String::from_str(layout.get_layout_name()),
            nodes,
        }
    }

    /// The wire encoding of this data: id and name fields, and the node list
    /// as a nested, escaped array value.
    pub fn to_json_str(&self) -> (r: String)
        ensures
            r@ == spec_layout_data_json(self.id@, self.name@, self.nodes@),
    {
        let mut encoded: Vec<String> = Vec::new();
        let n = self.nodes.len();
        let mut i: usize = 0;
        while i < n
            invariant
                i <= n,
                n == self.nodes@.len(),
                encoded@.len() == i,
                forall|j: int|
                    0 <= j < i ==> (#[trigger] encoded@[j])@ == spec_layout_node_data_json(
                        self.nodes@[j].layout@,
                        self.nodes@[j].variable@,
                        self.nodes@[j].px@,
                        self.nodes@[j].py@,
                    ),
            decreases n - i,
        {
            encoded.push(self.nodes[i].to_json_str());
            i += 1;
        }
        let arr = encode_array(&encoded);
        proof {
            assert(encoded.deep_view() =~= self.nodes@.map_values(
                |d: LayoutNodeData|
                    spec_layout_node_data_json(d.layout@, d.variable@, d.px@, d.py@),
            ));
        }
        let mut keys: Vec<&str> = Vec::new();
        keys.push("id");
        keys.push("name");
        keys.push("nodes");
        let mut vals: Vec<&str> = Vec::new();
        vals.push(self.id.as_str());
        vals.push(self.name.as_str());
        vals.push(arr.as_str());
        let ks = keys.as_slice();
        let vs = vals.as_slice();
        proof {
            assert(ks.deep_view() =~= ld_keys());
            assert(vs.deep_view() =~= seq![self.id@, self.name@, arr@]);
        }
        encode_obj(ks, vs)
    }
}

/// Data about one uninterpreted function, as sent to the frontend.
#[derive(Clone, Debug, PartialEq, Eq)]
pub struct UninterpretedFnData {
    pub id: String,
    pub name: String,
    pub arity: usize,
    pub expression: String,
}

impl View for UninterpretedFnData {
    type V = (Seq<char>, Seq<char>, usize, Seq<char>);

    open spec fn view(&self) -> (Seq<char>, Seq<char>, usize, Seq<char>) {
        (self.id@, self.name@, self.arity, self.expression@)
    }
}

/// Keys of an `UninterpretedFnData` object.
pub open spec fn ufd_keys() -> Seq<Seq<char>> {
    seq!["id"@, "name"@, "arity"@, "expression"@]
}

/// The encoding of an `UninterpretedFnData`.
pub open spec fn spec_uninterpreted_fn_data_json(
    id: Seq<char>,
    name: Seq<char>,
    arity: usize,
    expression: Seq<char>,
) -> Seq<char> {
    spec_obj(ufd_keys(), seq![id, name, dec_digits(arity as nat), expression])
}

impl UninterpretedFnData {
    /// Create an `UninterpretedFnData` from the plain parts.
    pub fn new(id: &str, name: &str, arity: usize, expression: &str) -> (r: UninterpretedFnData)
        ensures
            r@ == (id@, name@, arity, expression@),
    {
        UninterpretedFnData {
            id: String::from_str(id),
            name: String::from_str(name),
            arity,
            expression: String::from_str(expression),
        }
    }

    /// The wire encoding of this data.
    pub fn to_json_str(&self) -> (r: String)
        ensures
            r@ == spec_uninterpreted_fn_data_json(self.id@, self.name@, self.arity,
                self.expression@),
    {
        let arity_str = dec_string(self.arity);
        let mut keys: Vec<&str> = Vec::new();
        keys.push("id");
        keys.push("name");
        keys.push("arity");
        keys.push("expression");
        let mut vals: Vec<&str> = Vec::new();
        vals.push(self.id.as_str());
        vals.push(self.name.as_str());
        vals.push(arity_str.as_str());
        vals.push(self.expression.as_str());
        let ks = keys.as_slice();
        let vs = vals.as_slice();
        proof {
            assert(ks.deep_view() =~= ufd_keys());
            assert(vs.deep_view() =~= seq![
                self.id@,
                self.name@,
                dec_digits(self.arity as nat),
                self.expression@,
            ]);
        }
        encode_obj(ks, vs)
    }
}

impl Regulation {
    /// Read a regulation from regulation-string notation such as `a -> b`.
    pub fn try_from_string(s: &str) -> (r: Result<Regulation, String>)
        ensures
            match r {
                Ok(reg) => spec_parse_reg_string(s@) == Some(
                    (reg.regulator@, reg.target@, reg.sign, reg.observable),
                ),
                Err(_) => spec_parse_reg_string(s@) is None,
            },
    {
        let n = s.unicode_len();
        let mut i: usize = 0;
        while i < n && s.get_char(i) != ' '
            invariant
                i <= n,
                n == s@.len(),
                forall|j: int| 0 <= j < i ==> s@[j] != ' ',
            decreases n - i,
        {
            i += 1;
        }
        if i >= n {
            proof {
                s@.index_of_first_ensures(' ');
                match s@.index_of_first(' ') {
                    Some(k) => {
                        assert(s@[k] == ' ');
                        assert(false);
                    },
                    None => {},
                }
            }
            return Err(String::from_str("expected a space in a regulation string"));
        }
        proof {
            s@.index_of_first_ensures(' ');
            match s@.index_of_first(' ') {
                Some(k) => {
                    if k < i {
                        assert(s@[k] != ' ');
                    }
                    if k > i {
                        assert(s@[i as int] != ' ');
                    }
                    assert(k == i);
                },
                None => {
                    assert(s@[i as int] != ' ');
                },
            }
            assert(s@.index_of_first(' ') == Some(i as int));
        }
        let regulator = s.substring_char(0, i);
        let ghost rest = s@.skip(i as int + 1);
        if n - i < 3 {
            return Err(String::from_str("regulation string ends too early"));
        }
        proof {
            assert(rest.len() >= 2);
            assert(rest[0] == s@[i as int + 1]);
            assert(rest[1] == s@[i as int + 2]);
        }
        if s.get_char(i + 1) != '-' {
            return Err(String::from_str("expected an arrow after the regulator"));
        }
        let arrow = s.get_char(i + 2);
        let sign = if arrow == '>' {
            RegulationSign::Activation
        } else if arrow == '|' {
            RegulationSign::Inhibition
        } else if arrow == '*' {
            RegulationSign::Dual
        } else if arrow == '?' {
            RegulationSign::Unknown
        } else {
            return Err(String::from_str("unknown regulation sign"));
        };
        if n - i < 4 {
            proof {
                assert(rest.len() == 2);
            }
            return Err(String::from_str("regulation string ends too early"));
        }
        proof {
            assert(rest[2] == s@[i as int + 3]);
        }
        let c3 = s.get_char(i + 3);
        let (observable, tstart) = if c3 == '?' {
            if n - i < 5 {
                proof {
                    assert(rest.len() == 3);
                }
                return Err(String::from_str("regulation string ends too early"));
            }
            proof {
                assert(rest[3] == s@[i as int + 4]);
            }
            if s.get_char(i + 4) != ' ' {
                return Err(String::from_str("expected a space before the target"));
            }
            (Observability::False, i + 5)
        } else if c3 == ' ' {
            (Observability::True, i + 4)
        } else {
            return Err(String::from_str("expected a space before the target"));
        };
        let target = s.substring_char(tstart, n);
        proof {
            assert(regulator@ =~= s@.subrange(0, i as int));
            if observable is False {
                assert(target@ =~= rest.skip(4));
            } else {
                assert(target@ =~= rest.skip(3));
            }
        }
        if !check_valid_id(regulator) {
            return Err(String::from_str("the regulator is not a valid identifier"));
        }
        if !check_valid_id(target) {
            return Err(String::from_str("the target is not a valid identifier"));
        }
        Ok(
            Regulation {
                regulator: String::from_str(regulator),
                target: String::from_str(target),
                sign,
                observable,
            },
        )
    }
}

} // verus!
