//! Binary Boolean operators of update-function expressions.

use vstd::prelude::*;
use biodivine_lib_param_bn::BinaryOp as BnBinaryOp;
use crate::text::str_eq;

verus! {

#[verifier::external_type_specification]
#[verifier::external_body]
pub struct ExBnBinaryOp(BnBinaryOp);

/// Possible binary Boolean operators that can appear in an update function.
#[derive(Clone, Copy, Debug, PartialEq, Eq, Structural)]
pub enum BinaryOp {
    And,
    Or,
    Xor,
    Iff,
    Imp,
}

/// The symbol an operator is written with in expressions.
pub open spec fn spec_binary_op_symbol(op: BinaryOp) -> Seq<char> {
    match op {
        BinaryOp::And => "&"@,
        BinaryOp::Or => "|"@,
        BinaryOp::Xor => "^"@,
        BinaryOp::Imp => "=>"@,
        BinaryOp::Iff => "<=>"@,
    }
}

impl BinaryOp {
    /// The symbol this operator is written with in expressions.
    pub fn symbol(&self) -> (r: &'static str)
        ensures
            r@ == spec_binary_op_symbol(*self),
    {
        match self {
            BinaryOp::And => "&",
            BinaryOp::Or => "|",
            BinaryOp::Xor => "^",
            BinaryOp::Imp => "=>",
            BinaryOp::Iff => "<=>",
        }
    }

    /// Read an operator from its symbol.
    pub fn from_symbol(s: &str) -> (r: Option<BinaryOp>)
        ensures
            match r {
                Some(op) => s@ == spec_binary_op_symbol(op),
                None => true,
            },
    {
        if str_eq(s, "&") {
            Some(BinaryOp::And)
        } else if str_eq(s, "|") {
            Some(BinaryOp::Or)
        } else if str_eq(s, "^") {
            Some(BinaryOp::Xor)
        } else if str_eq(s, "=>") {
            Some(BinaryOp::Imp)
        } else if str_eq(s, "<=>") {
            Some(BinaryOp::Iff)
        } else {
            None
        }
    }

    /// Relies on `biodivine_lib_param_bn::BinaryOp`: the same five operators
    /// as that crate's enum, variant for variant. The returned value is
    /// opaque here, so nothing is promised of it.
    #[verifier::external_body]
    pub fn to_lib_param_bn_version(&self) -> BnBinaryOp {
        match self {
            BinaryOp::And => BnBinaryOp::And,
            BinaryOp::Or => BnBinaryOp::Or,
            BinaryOp::Xor => BnBinaryOp::Xor,
            BinaryOp::Iff => BnBinaryOp::Iff,
            BinaryOp::Imp => BnBinaryOp::Imp,
        }
    }

    /// Relies on `biodivine_lib_param_bn::BinaryOp`: reads that crate's
    /// operator back into this one, variant for variant.
    #[verifier::external_body]
    pub fn from_lib_param_bn_version(value: BnBinaryOp) -> BinaryOp {
        match value {
            BnBinaryOp::And => BinaryOp::And,
            BnBinaryOp::Or => BinaryOp::Or,
            BnBinaryOp::Xor => BinaryOp::Xor,
            BnBinaryOp::Iff => BinaryOp::Iff,
            BnBinaryOp::Imp => BinaryOp::Imp,
        }
    }
}

} // verus!
