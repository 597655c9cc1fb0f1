use vstd::prelude::*;

verus! {

/// The symbolic outcome of the logical rules. It selects the arithmetic rule
/// that is applied to the numeric inputs.
#[derive(Clone, Copy, Debug, PartialEq, Eq, Structural, Hash)]
pub enum SubstitutionToken {
    M,
    P,
    T,
}

} // verus!
