//! What an evaluation of a variable's location still needs from the target.
pub mod evaluate;
pub mod pieces;
pub mod convergence;

use vstd::prelude::*;

verus! {

/// How far an evaluation got: done, or waiting for a register or for memory
/// words.
#[derive(Debug, Clone, Copy, PartialEq, Eq, Structural)]
pub enum EvalResult {
    Complete,
    RequiresRegister { register: u16 },
    RequiresMemory { address: u32, num_words: usize },
}

} // verus!
