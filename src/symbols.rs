use vstd::prelude::*;

verus! {

/// A supported currency: its code and its name.
#[derive(Clone, Debug, PartialEq, Eq)]
pub struct Symbols {
    pub code: String,
    pub name: String,
}

} // verus!
