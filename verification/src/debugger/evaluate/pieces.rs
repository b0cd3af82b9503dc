//! Answers to the requests of the DWARF expression evaluator from the
//! registers and memory words that the debugger has read.
use vstd::prelude::*;
use std::collections::HashMap;
use crate::debugger::evaluate::EvalResult;
use crate::debugger::evaluate::evaluate::{word_base_value, base_value_of_word};
use crate::rust_debug::evaluate::base::BaseTypeInfo;
use crate::rust_debug::evaluate::pieces::{EvalRequest, PiecesError};
use crate::rust_debug::evaluate::value::{GimliValue, convert_to_gimli_value, to_gimli_spec};

verus! {

broadcast use vstd::std_specs::hash::group_hash_axioms;

/// How the driver of the expression evaluator goes on after a request.
#[derive(Debug, Clone, Copy, PartialEq, Eq, Structural)]
pub enum PiecesStep {
    /// The evaluation is complete: its pieces are the result.
    Finish,
    /// Resume with this memory value.
    ResumeWithMemory(GimliValue),
    /// Resume with this register value.
    ResumeWithRegister(GimliValue),
    /// Resume with the frame base.
    ResumeWithFrameBase(u64),
    /// Resume with the relocated address (the address as it is).
    ResumeWithRelocatedAddress(u64),
    /// Stop: this must be read from the target first.
    Requires(EvalResult),
    /// The request is answered from other debug information entries (a
    /// location, a parameter, an address table entry or a base type).
    LookUp,
    /// The request is for thread-local storage, the call frame's CFA or an
    /// entry value, which are not handled.
    NotHandled,
}

/// The value a word is handed over as, with the base type of the request
/// (none: the generic type); `None` where the base type is not handled.
pub open spec fn word_value(word: u32, base_type: Option<BaseTypeInfo>) -> Option<GimliValue> {
    match base_type {
        None => Some(GimliValue::Generic(word as u64)),
        Some(bt) => match word_base_value(word as u64, bt.encoding, bt.byte_size) {
            Some(v) => Some(to_gimli_spec(v)),
            None => None,
        },
    }
}

/// The number of words that hold `size` bytes.
pub open spec fn words_for(size: u8) -> usize {
    ((size as int + 3) / 4) as usize
}

/// The step that answers `request` with the frame base `frame_base` and the
/// known registers `registers` and memory words `memory`: a memory request
/// is answered from the word at its address, or asks for the words that
/// hold its size.
pub open spec fn word_pieces_step(
    request: EvalRequest,
    frame_base: Option<u64>,
    registers: Map<u16, u32>,
    memory: Map<u32, u32>,
) -> Result<PiecesStep, PiecesError> {
    match request {
        EvalRequest::Complete => Ok(PiecesStep::Finish),
        EvalRequest::RequiresMemory { address, size, base_type, .. } => {
            let a32 = address as u32;
            if memory.contains_key(a32) {
                match word_value(memory[a32], base_type) {
                    Some(v) => Ok(PiecesStep::ResumeWithMemory(v)),
                    None => Err(PiecesError::Memory(crate::rust_debug::evaluate::evaluate::EvalError::Unsupported)),
                }
            } else {
                Ok(PiecesStep::Requires(EvalResult::RequiresMemory { address: a32, num_words: words_for(size) }))
            }
        },
        EvalRequest::RequiresRegister { register, base_type } => if registers.contains_key(register) {
            match word_value(registers[register], base_type) {
                Some(v) => Ok(PiecesStep::ResumeWithRegister(v)),
                None => Err(PiecesError::Register(crate::rust_debug::evaluate::evaluate::EvalError::Unsupported)),
            }
        } else {
            Ok(PiecesStep::Requires(EvalResult::RequiresRegister { register }))
        },
        EvalRequest::RequiresFrameBase => match frame_base {
            Some(fb) => Ok(PiecesStep::ResumeWithFrameBase(fb)),
            None => Err(PiecesError::RequiresFrameBase),
        },
        EvalRequest::RequiresTls(_) => Ok(PiecesStep::NotHandled),
        EvalRequest::RequiresCallFrameCfa => Ok(PiecesStep::NotHandled),
        EvalRequest::RequiresEntryValue => Ok(PiecesStep::NotHandled),
        EvalRequest::RequiresRelocatedAddress(a) => Ok(PiecesStep::ResumeWithRelocatedAddress(a)),
        _ => Ok(PiecesStep::LookUp),
    }
}

fn word_to_value(word: u32, base_type: Option<BaseTypeInfo>) -> (r: Option<GimliValue>)
    ensures
        r == word_value(word, base_type),
{
    match base_type {
        None => Some(GimliValue::Generic(word as u64)),
        Some(bt) => match base_value_of_word(word as u64, bt.encoding, bt.byte_size) {
            Some(v) => Some(convert_to_gimli_value(v)),
            None => None,
        },
    }
}

/// Decides how the evaluation of a location expression goes on after the
/// evaluator's request `request`: a register or memory word is answered
/// from those read so far, or asked for (a memory request asks for the
/// `(size + 3) / 4` words that hold it); the frame base comes from
/// `frame_base`. Thread-local storage, the call frame's CFA and entry
/// values are not handled.
pub fn evaluate_pieces_step(
    request: &EvalRequest,
    frame_base: Option<u64>,
    registers: &HashMap<u16, u32>,
    memory: &HashMap<u32, u32>,
) -> (r: Result<PiecesStep, PiecesError>)
    ensures
        r == word_pieces_step(*request, frame_base, registers@, memory@),
{
    match *request {
        EvalRequest::Complete => Ok(PiecesStep::Finish),
        EvalRequest::RequiresMemory { address, size, base_type, .. } => {
            let a32 = address as u32;
            match memory.get(&a32) {
                Some(word) => match word_to_value(*word, base_type) {
                    Some(v) => Ok(PiecesStep::ResumeWithMemory(v)),
                    None => Err(PiecesError::Memory(crate::rust_debug::evaluate::evaluate::EvalError::Unsupported)),
                },
                None => {
                    let num_words: usize = ((size as usize) + 3) / 4;
                    Ok(PiecesStep::Requires(EvalResult::RequiresMemory { address: a32, num_words }))
                },
            }
        },
        EvalRequest::RequiresRegister { register, base_type } => match registers.get(&register) {
            Some(word) => match word_to_value(*word, base_type) {
                Some(v) => Ok(PiecesStep::ResumeWithRegister(v)),
                None => Err(PiecesError::Register(crate::rust_debug::evaluate::evaluate::EvalError::Unsupported)),
            },
            None => Ok(PiecesStep::Requires(EvalResult::RequiresRegister { register })),
        },
        EvalRequest::RequiresFrameBase => match frame_base {
            Some(fb) => Ok(PiecesStep::ResumeWithFrameBase(fb)),
            None => Err(PiecesError::RequiresFrameBase),
        },
        EvalRequest::RequiresTls(_) => Ok(PiecesStep::NotHandled),
        EvalRequest::RequiresCallFrameCfa => Ok(PiecesStep::NotHandled),
        EvalRequest::RequiresEntryValue => Ok(PiecesStep::NotHandled),
        EvalRequest::RequiresRelocatedAddress(a) => Ok(PiecesStep::ResumeWithRelocatedAddress(a)),
        _ => Ok(PiecesStep::LookUp),
    }
}

} // verus!
