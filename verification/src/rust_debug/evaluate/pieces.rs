//! Answers to the requests of the DWARF expression evaluator (memory and
//! register values) from the known memory and registers.
use vstd::prelude::*;
use crate::rust_debug::memory_and_registers::{
    MemoryAndRegisters, read_bytes, read_runs_past_end, le_u32,
};
use crate::rust_debug::evaluate::EvalResult;
use crate::rust_debug::evaluate::evaluate::EvalError;
use crate::rust_debug::evaluate::value::{GimliValue, BaseValue, convert_to_gimli_value, to_gimli_spec};
use crate::rust_debug::evaluate::base::{
    BaseTypeInfo, parse_base_type, base_value_from_word, word_encoding_supported,
    supported_word_encoding,
};

verus! {

/// How a request of the expression evaluator is answered: with a value to
/// resume with, or with what must be read from the target first.
#[derive(Debug, Clone, Copy, PartialEq, Eq, Structural)]
pub enum Resolution {
    Resume(GimliValue),
    Requires(EvalResult),
}

/// The value a word is handed over as, with the base type of the request
/// (none: the generic type); `None` where the base type is not handled.
pub open spec fn word_as_value(word: u32, base_type: Option<BaseTypeInfo>) -> Option<GimliValue> {
    match base_type {
        None => Some(GimliValue::Generic(word as u64)),
        Some(bt) => match base_value_from_word(word as u64, bt.encoding, bt.byte_size) {
            Some(v) => Some(to_gimli_spec(v)),
            None => None,
        },
    }
}

fn word_to_value(word: u32, base_type: Option<BaseTypeInfo>) -> (r: Result<GimliValue, EvalError>)
    ensures
        match word_as_value(word, base_type) {
            Some(v) => r == Ok::<GimliValue, EvalError>(v),
            None => r == Err::<GimliValue, EvalError>(EvalError::Unsupported),
        },
{
    let data: [u32; 1] = [word];
    assert(data@.len() == 1);
    match base_type {
        None => {
            let v = parse_base_type(&data, None);
            Ok(convert_to_gimli_value(v))
        },
        Some(bt) => {
            if !supported_word_encoding(bt.encoding, bt.byte_size) {
                assert(base_value_from_word(word as u64, bt.encoding, bt.byte_size) is None);
                return Err(EvalError::Unsupported);
            }
            assert(base_value_from_word(data@[0] as u64, bt.encoding, bt.byte_size) is Some);
            let v = parse_base_type(&data, Some(bt));
            Ok(convert_to_gimli_value(v))
        },
    }
}

/// Answers a request for the word at `address`: the known little-endian
/// word as a value of the requested base type, or a request for the four
/// bytes there.
pub fn resolve_requires_mem(
    memory_and_registers: &MemoryAndRegisters,
    address: u64,
    base_type: Option<BaseTypeInfo>,
) -> (r: Result<Resolution, EvalError>)
    ensures
        ({
            let a32 = address as u32;
            let m = memory_and_registers@.memory;
            if read_runs_past_end(m, a32, 4) {
                r == Err::<Resolution, EvalError>(EvalError::Overflow)
            } else {
                match read_bytes(m, a32, 4) {
                    None => r == Ok::<Resolution, EvalError>(
                        Resolution::Requires(EvalResult::RequiresMemory { address: a32, num_words: 4 }),
                    ),
                    Some(b) => match word_as_value(le_u32(b), base_type) {
                        Some(v) => r == Ok::<Resolution, EvalError>(Resolution::Resume(v)),
                        None => r == Err::<Resolution, EvalError>(EvalError::Unsupported),
                    },
                }
            }
        }),
{
    let a32 = address as u32;
    match memory_and_registers.try_get_addresses(a32, 4) {
        Err(_) => Err(EvalError::Overflow),
        Ok(_) => {
            match memory_and_registers.get_address_value(&a32) {
                Some(data) => match word_to_value(data, base_type) {
                    Ok(v) => Ok(Resolution::Resume(v)),
                    Err(e) => Err(e),
                },
                None => Ok(Resolution::Requires(EvalResult::RequiresMemory { address: a32, num_words: 4 })),
            }
        },
    }
}

/// Answers a request for a register: its known value as a value of the
/// requested base type, or a request for the register.
pub fn resolve_requires_reg(
    memory_and_registers: &MemoryAndRegisters,
    register: u16,
    base_type: Option<BaseTypeInfo>,
) -> (r: Result<Resolution, EvalError>)
    ensures
        ({
            let regs = memory_and_registers@.registers;
            if regs.contains_key(register) {
                match word_as_value(regs[register], base_type) {
                    Some(v) => r == Ok::<Resolution, EvalError>(Resolution::Resume(v)),
                    None => r == Err::<Resolution, EvalError>(EvalError::Unsupported),
                }
            } else {
                r == Ok::<Resolution, EvalError>(
                    Resolution::Requires(EvalResult::RequiresRegister { register }),
                )
            }
        }),
{
    match memory_and_registers.get_register_value(&register) {
        Some(data) => match word_to_value(*data, base_type) {
            Ok(v) => Ok(Resolution::Resume(v)),
            Err(e) => Err(e),
        },
        None => Ok(Resolution::Requires(EvalResult::RequiresRegister { register })),
    }
}

/// What the DWARF expression evaluator asks for to go on
/// (`gimli::EvaluationResult`); the base types of memory and register
/// requests are given by their encoding and size (none: the generic type).
#[derive(Debug, Clone, Copy, PartialEq, Eq, Structural)]
pub enum EvalRequest {
    Complete,
    RequiresMemory { address: u64, size: u8, space: Option<u64>, base_type: Option<BaseTypeInfo> },
    RequiresRegister { register: u16, base_type: Option<BaseTypeInfo> },
    RequiresFrameBase,
    RequiresTls(u64),
    RequiresCallFrameCfa,
    RequiresAtLocation,
    RequiresEntryValue,
    RequiresParameterRef,
    RequiresRelocatedAddress(u64),
    RequiresIndexedAddress,
    RequiresBaseType,
}

/// How the driver of the expression evaluator goes on after a request.
#[derive(Debug, Clone, Copy, PartialEq, Eq, Structural)]
pub enum PiecesStep {
    /// The evaluation is complete: its pieces are the result.
    Finish,
    /// Resume with this memory value.
    ResumeWithMemory(GimliValue),
    /// Resume with this register value.
    ResumeWithRegister(GimliValue),
    /// Resume with the frame base.
    ResumeWithFrameBase(u64),
    /// Resume with the relocated address (the address as it is).
    ResumeWithRelocatedAddress(u64),
    /// Stop: this must be read from the target first.
    Requires(EvalResult),
    /// The request is answered from other debug information entries (a
    /// location, an entry value, a parameter, an address table entry or a
    /// base type).
    LookUp,
    /// The request is for thread-local storage or the call frame's CFA, which
    /// are not handled.
    NotHandled,
}

/// Why the evaluation of an expression stopped.
#[derive(Debug, Clone, Copy, PartialEq, Eq, Structural)]
pub enum PiecesError {
    /// The expression needs the frame base, and none is known.
    RequiresFrameBase,
    /// A memory value could not be handed over.
    Memory(EvalError),
    /// A register value could not be handed over.
    Register(EvalError),
}

/// The step that answers `request`, with the frame base `frame_base` and the
/// known memory `m` and registers `regs`.
pub open spec fn pieces_step(
    request: EvalRequest,
    frame_base: Option<u64>,
    m: Map<u32, u8>,
    regs: Map<u16, u32>,
) -> Result<PiecesStep, PiecesError> {
    match request {
        EvalRequest::Complete => Ok(PiecesStep::Finish),
        EvalRequest::RequiresMemory { address, base_type, .. } => {
            let a32 = address as u32;
            if read_runs_past_end(m, a32, 4) {
                Err(PiecesError::Memory(EvalError::Overflow))
            } else {
                match read_bytes(m, a32, 4) {
                    None => Ok(PiecesStep::Requires(EvalResult::RequiresMemory { address: a32, num_words: 4 })),
                    Some(b) => match word_as_value(le_u32(b), base_type) {
                        Some(v) => Ok(PiecesStep::ResumeWithMemory(v)),
                        None => Err(PiecesError::Memory(EvalError::Unsupported)),
                    },
                }
            }
        },
        EvalRequest::RequiresRegister { register, base_type } => if regs.contains_key(register) {
            match word_as_value(regs[register], base_type) {
                Some(v) => Ok(PiecesStep::ResumeWithRegister(v)),
                None => Err(PiecesError::Register(EvalError::Unsupported)),
            }
        } else {
            Ok(PiecesStep::Requires(EvalResult::RequiresRegister { register }))
        },
        EvalRequest::RequiresFrameBase => match frame_base {
            Some(fb) => Ok(PiecesStep::ResumeWithFrameBase(fb)),
            None => Err(PiecesError::RequiresFrameBase),
        },
        EvalRequest::RequiresTls(_) => Ok(PiecesStep::NotHandled),
        EvalRequest::RequiresCallFrameCfa => Ok(PiecesStep::NotHandled),
        EvalRequest::RequiresRelocatedAddress(a) => Ok(PiecesStep::ResumeWithRelocatedAddress(a)),
        _ => Ok(PiecesStep::LookUp),
    }
}

/// Decides how the evaluation of a location expression goes on after the
/// evaluator's request `request`: memory and registers are answered from
/// what is known (or asked for), the frame base from `frame_base`.
pub fn evaluate_pieces_step(
    request: &EvalRequest,
    frame_base: Option<u64>,
    memory_and_registers: &MemoryAndRegisters,
) -> (r: Result<PiecesStep, PiecesError>)
    ensures
        r == pieces_step(
            *request,
            frame_base,
            memory_and_registers@.memory,
            memory_and_registers@.registers,
        ),
{
    match *request {
        EvalRequest::Complete => Ok(PiecesStep::Finish),
        EvalRequest::RequiresMemory { address, base_type, .. } => {
            match resolve_requires_mem(memory_and_registers, address, base_type) {
                Ok(Resolution::Resume(v)) => Ok(PiecesStep::ResumeWithMemory(v)),
                Ok(Resolution::Requires(req)) => Ok(PiecesStep::Requires(req)),
                Err(e) => Err(PiecesError::Memory(e)),
            }
        },
        EvalRequest::RequiresRegister { register, base_type } => {
            match resolve_requires_reg(memory_and_registers, register, base_type) {
                Ok(Resolution::Resume(v)) => Ok(PiecesStep::ResumeWithRegister(v)),
                Ok(Resolution::Requires(req)) => Ok(PiecesStep::Requires(req)),
                Err(e) => Err(PiecesError::Register(e)),
            }
        },
        EvalRequest::RequiresFrameBase => match frame_base {
            Some(fb) => Ok(PiecesStep::ResumeWithFrameBase(fb)),
            None => Err(PiecesError::RequiresFrameBase),
        },
        EvalRequest::RequiresTls(_) => Ok(PiecesStep::NotHandled),
        EvalRequest::RequiresCallFrameCfa => Ok(PiecesStep::NotHandled),
        EvalRequest::RequiresRelocatedAddress(a) => Ok(PiecesStep::ResumeWithRelocatedAddress(a)),
        _ => Ok(PiecesStep::LookUp),
    }
}

} // verus!
