//! The entities a model component manages, and the small enums that
//! qualify regulations and function arguments.

use vstd::prelude::*;
use crate::table::Table;
use crate::text::str_eq;

verus! {

/// Effect direction of a regulation or a function argument.
#[derive(Clone, Copy, Debug, PartialEq, Eq, Structural)]
pub enum Monotonicity {
    Activation,
    Inhibition,
    Dual,
    Unknown,
}

/// Whether an argument (or regulation) provably has an effect.
#[derive(Clone, Copy, Debug, PartialEq, Eq, Structural)]
pub enum Essentiality {
    True,
    False,
    Unknown,
}

/// Sign of a regulation.
#[derive(Clone, Copy, Debug, PartialEq, Eq, Structural)]
pub enum RegulationSign {
    Activation,
    Inhibition,
    Dual,
    Unknown,
}

/// Whether a regulation is observable in the target's behaviour.
#[derive(Clone, Copy, Debug, PartialEq, Eq, Structural)]
pub enum Observability {
    True,
    False,
    Unknown,
}

/// Name under which a `Monotonicity` is written in payloads.
pub open spec fn spec_monotonicity_str(m: Monotonicity) -> Seq<char> {
    match m {
        Monotonicity::Activation => "Activation"@,
        Monotonicity::Inhibition => "Inhibition"@,
        Monotonicity::Dual => "Dual"@,
        Monotonicity::Unknown => "Unknown"@,
    }
}

/// Mirror of `monotonicity_from_str`.
pub open spec fn spec_parse_monotonicity(s: Seq<char>) -> Option<Monotonicity> {
    if s == spec_monotonicity_str(Monotonicity::Activation) {
        Some(Monotonicity::Activation)
    } else if s == spec_monotonicity_str(Monotonicity::Inhibition) {
        Some(Monotonicity::Inhibition)
    } else if s == spec_monotonicity_str(Monotonicity::Dual) {
        Some(Monotonicity::Dual)
    } else if s == spec_monotonicity_str(Monotonicity::Unknown) {
        Some(Monotonicity::Unknown)
    } else {
        None
    }
}

/// Writing a `Monotonicity` and reading it back is the identity.
pub proof fn lemma_monotonicity_round_trip(m: Monotonicity)
    ensures
        spec_parse_monotonicity(spec_monotonicity_str(m)) == Some(m),
{
    reveal_strlit("Activation");
    reveal_strlit("Inhibition");
    reveal_strlit("Dual");
    reveal_strlit("Unknown");
    assert("Activation"@[0] == 'A');
    assert("Inhibition"@[0] == 'I');
    assert("Dual"@[0] == 'D');
    assert("Unknown"@[0] == 'U');
}

/// The payload name of `m`.
pub fn monotonicity_to_str(m: Monotonicity) -> (r: &'static str)
    ensures
        r@ == spec_monotonicity_str(m),
{
    match m {
        Monotonicity::Activation => "Activation",
        Monotonicity::Inhibition => "Inhibition",
        Monotonicity::Dual => "Dual",
        Monotonicity::Unknown => "Unknown",
    }
}

/// Read a `Monotonicity` payload name.
pub fn monotonicity_from_str(s: &str) -> (r: Option<Monotonicity>)
    ensures
        r == spec_parse_monotonicity(s@),
{
    if str_eq(s, "Activation") {
        Some(Monotonicity::Activation)
    } else if str_eq(s, "Inhibition") {
        Some(Monotonicity::Inhibition)
    } else if str_eq(s, "Dual") {
        Some(Monotonicity::Dual)
    } else if str_eq(s, "Unknown") {
        Some(Monotonicity::Unknown)
    } else {
        None
    }
}

/// Name under which an `Essentiality` is written in payloads.
pub open spec fn spec_essentiality_str(e: Essentiality) -> Seq<char> {
    match e {
        Essentiality::True => "True"@,
        Essentiality::False => "False"@,
        Essentiality::Unknown => "Unknown"@,
    }
}

/// Mirror of `essentiality_from_str`.
pub open spec fn spec_parse_essentiality(s: Seq<char>) -> Option<Essentiality> {
    if s == spec_essentiality_str(Essentiality::True) {
        Some(Essentiality::True)
    } else if s == spec_essentiality_str(Essentiality::False) {
        Some(Essentiality::False)
    } else if s == spec_essentiality_str(Essentiality::Unknown) {
        Some(Essentiality::Unknown)
    } else {
        None
    }
}

/// Writing an `Essentiality` and reading it back is the identity.
pub proof fn lemma_essentiality_round_trip(e: Essentiality)
    ensures
        spec_parse_essentiality(spec_essentiality_str(e)) == Some(e),
{
    reveal_strlit("True");
    reveal_strlit("False");
    reveal_strlit("Unknown");
    assert("True"@[0] == 'T');
    assert("False"@[0] == 'F');
    assert("Unknown"@[0] == 'U');
}

/// The payload name of `e`.
pub fn essentiality_to_str(e: Essentiality) -> (r: &'static str)
    ensures
        r@ == spec_essentiality_str(e),
{
    match e {
        Essentiality::True => "True",
        Essentiality::False => "False",
        Essentiality::Unknown => "Unknown",
    }
}

/// Read an `Essentiality` payload name.
pub fn essentiality_from_str(s: &str) -> (r: Option<Essentiality>)
    ensures
        r == spec_parse_essentiality(s@),
{
    if str_eq(s, "True") {
        Some(Essentiality::True)
    } else if str_eq(s, "False") {
        Some(Essentiality::False)
    } else if str_eq(s, "Unknown") {
        Some(Essentiality::Unknown)
    } else {
        None
    }
}

/// Name under which a `RegulationSign` is written in payloads.
pub open spec fn spec_sign_str(s: RegulationSign) -> Seq<char> {
    match s {
        RegulationSign::Activation => "Activation"@,
        RegulationSign::Inhibition => "Inhibition"@,
        RegulationSign::Dual => "Dual"@,
        RegulationSign::Unknown => "Unknown"@,
    }
}

/// Mirror of `sign_from_str`.
pub open spec fn spec_parse_sign(s: Seq<char>) -> Option<RegulationSign> {
    if s == spec_sign_str(RegulationSign::Activation) {
        Some(RegulationSign::Activation)
    } else if s == spec_sign_str(RegulationSign::Inhibition) {
        Some(RegulationSign::Inhibition)
    } else if s == spec_sign_str(RegulationSign::Dual) {
        Some(RegulationSign::Dual)
    } else if s == spec_sign_str(RegulationSign::Unknown) {
        Some(RegulationSign::Unknown)
    } else {
        None
    }
}

/// Writing a `RegulationSign` and reading it back is the identity.
pub proof fn lemma_sign_round_trip(s: RegulationSign)
    ensures
        spec_parse_sign(spec_sign_str(s)) == Some(s),
{
    reveal_strlit("Activation");
    reveal_strlit("Inhibition");
    reveal_strlit("Dual");
    reveal_strlit("Unknown");
    assert("Activation"@[0] == 'A');
    assert("Inhibition"@[0] == 'I');
    assert("Dual"@[0] == 'D');
    assert("Unknown"@[0] == 'U');
}

/// The payload name of `s`.
pub fn sign_to_str(s: RegulationSign) -> (r: &'static str)
    ensures
        r@ == spec_sign_str(s),
{
    match s {
        RegulationSign::Activation => "Activation",
        RegulationSign::Inhibition => "Inhibition",
        RegulationSign::Dual => "Dual",
        RegulationSign::Unknown => "Unknown",
    }
}

/// Read a `RegulationSign` payload name.
pub fn sign_from_str(s: &str) -> (r: Option<RegulationSign>)
    ensures
        r == spec_parse_sign(s@),
{
    if str_eq(s, "Activation") {
        Some(RegulationSign::Activation)
    } else if str_eq(s, "Inhibition") {
        Some(RegulationSign::Inhibition)
    } else if str_eq(s, "Dual") {
        Some(RegulationSign::Dual)
    } else if str_eq(s, "Unknown") {
        Some(RegulationSign::Unknown)
    } else {
        None
    }
}

/// Name under which an `Observability` is written in payloads.
pub open spec fn spec_observability_str(o: Observability) -> Seq<char> {
    match o {
        Observability::True => "True"@,
        Observability::False => "False"@,
        Observability::Unknown => "Unknown"@,
    }
}

/// Mirror of `observability_from_str`.
pub open spec fn spec_parse_observability(s: Seq<char>) -> Option<Observability> {
    if s == spec_observability_str(Observability::True) {
        Some(Observability::True)
    } else if s == spec_observability_str(Observability::False) {
        Some(Observability::False)
    } else if s == spec_observability_str(Observability::Unknown) {
        Some(Observability::Unknown)
    } else {
        None
    }
}

/// Writing an `Observability` and reading it back is the identity.
pub proof fn lemma_observability_round_trip(o: Observability)
    ensures
        spec_parse_observability(spec_observability_str(o)) == Some(o),
{
    reveal_strlit("True");
    reveal_strlit("False");
    reveal_strlit("Unknown");
    assert("True"@[0] == 'T');
    assert("False"@[0] == 'F');
    assert("Unknown"@[0] == 'U');
}

/// The payload name of `o`.
pub fn observability_to_str(o: Observability) -> (r: &'static str)
    ensures
        r@ == spec_observability_str(o),
{
    match o {
        Observability::True => "True",
        Observability::False => "False",
        Observability::Unknown => "Unknown",
    }
}

/// Read an `Observability` payload name.
pub fn observability_from_str(s: &str) -> (r: Option<Observability>)
    ensures
        r == spec_parse_observability(s@),
{
    if str_eq(s, "True") {
        Some(Observability::True)
    } else if str_eq(s, "False") {
        Some(Observability::False)
    } else if str_eq(s, "Unknown") {
        Some(Observability::Unknown)
    } else {
        None
    }
}

/// A named network variable.
#[derive(Clone, Debug, PartialEq, Eq)]
pub struct Variable {
    pub name: String,
}

impl View for Variable {
    type V = Seq<char>;

    open spec fn view(&self) -> Seq<char> {
        self.name@
    }
}

impl Variable {
    /// The variable's name.
    pub fn get_name(&self) -> (r: &str)
        ensures
            r@ == self@,
    {
        self.name.as_str()
    }
}

/// The update function expression attached to a variable.
#[derive(Clone, Debug, PartialEq, Eq)]
pub struct UpdateFn {
    pub expression: String,
}

impl View for UpdateFn {
    type V = Seq<char>;

    open spec fn view(&self) -> Seq<char> {
        self.expression@
    }
}

impl UpdateFn {
    /// The expression text.
    pub fn get_fn_expression(&self) -> (r: &str)
        ensures
            r@ == self@,
    {
        self.expression.as_str()
    }
}

/// A variable together with its update function, as one table value.
#[derive(Clone, Debug, PartialEq, Eq)]
pub struct VarInfo {
    pub variable: Variable,
    pub update_fn: UpdateFn,
}

impl View for VarInfo {
    type V = (Seq<char>, Seq<char>);

    open spec fn view(&self) -> (Seq<char>, Seq<char>) {
        (self.variable.name@, self.update_fn.expression@)
    }
}

/// One regulation edge between two variables.
#[derive(Clone, Debug, PartialEq, Eq)]
pub struct Regulation {
    pub regulator: String,
    pub target: String,
    pub sign: RegulationSign,
    pub observable: Observability,
}

impl View for Regulation {
    type V = (Seq<char>, Seq<char>, RegulationSign, Observability);

    open spec fn view(&self) -> (Seq<char>, Seq<char>, RegulationSign, Observability) {
        (self.regulator@, self.target@, self.sign, self.observable)
    }
}

impl Regulation {
    /// The regulator's identifier.
    pub fn get_regulator(&self) -> (r: &str)
        ensures
            r@ == self.regulator@,
    {
        self.regulator.as_str()
    }

    /// The target's identifier.
    pub fn get_target(&self) -> (r: &str)
        ensures
            r@ == self.target@,
    {
        self.target.as_str()
    }

    /// The regulation's sign.
    pub fn get_sign(&self) -> (r: &RegulationSign)
        ensures
            *r == self.sign,
    {
        &self.sign
    }

    /// The regulation's observability.
    pub fn get_observability(&self) -> (r: &Observability)
        ensures
            *r == self.observable,
    {
        &self.observable
    }
}

/// A node position within one layout, as decimal text coordinates.
#[derive(Clone, Debug, PartialEq, Eq)]
pub struct NodePosition(pub String, pub String);

impl View for NodePosition {
    type V = (Seq<char>, Seq<char>);

    open spec fn view(&self) -> (Seq<char>, Seq<char>) {
        (self.0@, self.1@)
    }
}

impl NodePosition {
    /// An equal copy of this position.
    pub fn duplicate(&self) -> (r: NodePosition)
        ensures
            r@ == self@,
    {
        NodePosition(self.0.clone(), self.1.clone())
    }
}

/// One layout: a name and a node position per variable.
#[derive(Clone, Debug, PartialEq, Eq)]
pub struct Layout {
    pub name: String,
    pub nodes: Table<NodePosition>,
}

impl View for Layout {
    type V = (Seq<char>, Seq<(Seq<char>, (Seq<char>, Seq<char>))>);

    open spec fn view(&self) -> (Seq<char>, Seq<(Seq<char>, (Seq<char>, Seq<char>))>) {
        (self.name@, self.nodes@)
    }
}

impl Layout {
    /// The layout's name.
    pub fn get_layout_name(&self) -> (r: &str)
        ensures
            r@ == self.name@,
    {
        self.name.as_str()
    }
}

/// An uninterpreted function: name, arity, per-argument qualifiers, and an
/// optional expression.
#[derive(Clone, Debug, PartialEq, Eq)]
pub struct UninterpretedFn {
    pub name: String,
    pub arity: usize,
    pub monotonicities: Vec<Monotonicity>,
    pub essentialities: Vec<Essentiality>,
    pub expression: String,
}

impl View for UninterpretedFn {
    type V = (Seq<char>, usize, Seq<Monotonicity>, Seq<Essentiality>, Seq<char>);

    open spec fn view(&self) -> (Seq<char>, usize, Seq<Monotonicity>, Seq<Essentiality>, Seq<
        char,
    >) {
        (self.name@, self.arity, self.monotonicities@, self.essentialities@, self.expression@)
    }
}

impl UninterpretedFn {
    /// Monotonicity of argument `i`.
    pub fn get_monotonic(&self, i: usize) -> (r: &Monotonicity)
        requires
            i < self.monotonicities@.len(),
        ensures
            r == self.monotonicities@[i as int],
    {
        &self.monotonicities[i]
    }

    /// Essentiality of argument `i`.
    pub fn get_essential(&self, i: usize) -> (r: &Essentiality)
        requires
            i < self.essentialities@.len(),
        ensures
            r == self.essentialities@[i as int],
    {
        &self.essentialities[i]
    }

    /// The expression text.
    pub fn get_fn_expression(&self) -> (r: &str)
        ensures
            r@ == self.expression@,
    {
        self.expression.as_str()
    }
}

} // verus!
