//! A variable of a stack frame, as it is shown.
use vstd::prelude::*;

verus! {

/// A variable's name and its value, written out.
#[derive(Debug, Clone)]
pub struct Variable {
    pub name: String,
    pub value: String,
}

} // verus!
