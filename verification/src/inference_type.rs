//! Which class of properties an inference run takes into account.

use vstd::prelude::*;

verus! {

/// The scope of one inference run: both property classes, only static
/// properties, or only dynamic properties.
#[derive(Clone, Copy, Debug, PartialEq, Eq, Structural)]
pub enum InferenceType {
    FullInference,
    StaticInference,
    DynamicInference,
}

} // verus!
