pub mod value;
pub mod base;
pub mod evaluate;
pub mod pieces;
pub mod convergence;

use vstd::prelude::*;
use crate::rust_debug::memory_and_registers::{MemoryAndRegisters, read_bytes};
use crate::rust_debug::evaluate::value::{EvaluatorValue, ValueView};
use crate::rust_debug::evaluate::evaluate::{
    Evaluator, EvalError, Piece, TypeDie, Step, evaluate_spec, ctx_of, lemma_requests_are_genuine,
    request_is_genuine,
};

verus! {

/// What the evaluation of a variable needs before it can go on.
#[derive(Debug, Clone, Copy, PartialEq, Eq, Structural)]
pub enum EvalResult {
    Complete,
    RequiresRegister { register: u16 },
    RequiresMemory { address: u32, num_words: usize },
}

/// The value of a variable, or what must be read from the target first.
#[derive(Debug)]
pub enum EvaluatorResult {
    Complete(EvaluatorValue),
    Requires(EvalResult),
}

/// Evaluates the value of the type `type_die` (or, without a type, the
/// first piece as an address) from `pieces` and the known memory and
/// registers. A register or memory range it asks for is one that is not known.
pub fn evaluate_value(
    pieces: Vec<Piece>,
    type_die: Option<TypeDie>,
    memory_and_registers: &MemoryAndRegisters,
) -> (r: Result<EvaluatorResult, EvalError>)
    ensures
        match evaluate_spec(ctx_of(pieces@, memory_and_registers@), type_die).0 {
            Err(e) => r matches Err(e2) && e2 == e,
            Ok(Step::Value(v)) => r matches Ok(EvaluatorResult::Complete(val)) && val@ == v,
            Ok(Step::Required(q)) => match q {
                crate::rust_debug::evaluate::evaluate::EvaluatorResult::RequireReg(reg) => r
                    matches Ok(EvaluatorResult::Requires(EvalResult::RequiresRegister { register }))
                    && register == reg,
                crate::rust_debug::evaluate::evaluate::EvaluatorResult::RequireData {
                    address,
                    num_words,
                } => r matches Ok(
                    EvaluatorResult::Requires(EvalResult::RequiresMemory { address: a, num_words: n }),
                ) && a == address && n == num_words,
                crate::rust_debug::evaluate::evaluate::EvaluatorResult::Complete => false,
            },
        },
        r matches Ok(EvaluatorResult::Requires(EvalResult::RequiresRegister { register })) ==> !memory_and_registers@.registers.contains_key(register),
        r matches Ok(EvaluatorResult::Requires(EvalResult::RequiresMemory { address, num_words })) ==> read_bytes(memory_and_registers@.memory, address, num_words as nat) is None,
{
    let ghost ctx = ctx_of(pieces@, memory_and_registers@);
    proof {
        lemma_requests_are_genuine(ctx, type_die);
    }
    let mut evaluator = Evaluator::new(pieces, type_die);
    match evaluator.evaluate(memory_and_registers) {
        Err(e) => Err(e),
        Ok(crate::rust_debug::evaluate::evaluate::EvaluatorResult::Complete) => {
            match evaluator.get_value() {
                Some(v) => Ok(EvaluatorResult::Complete(v)),
                None => Err(EvalError::Unsupported),
            }
        },
        Ok(crate::rust_debug::evaluate::evaluate::EvaluatorResult::RequireReg(reg)) => Ok(
            EvaluatorResult::Requires(EvalResult::RequiresRegister { register: reg }),
        ),
        Ok(crate::rust_debug::evaluate::evaluate::EvaluatorResult::RequireData { address, num_words }) => Ok(
            EvaluatorResult::Requires(EvalResult::RequiresMemory { address, num_words }),
        ),
    }
}

} // verus!
