//! Type-directed evaluation of a variable's value from the DWARF location
//! pieces of its location expression and the known target memory and
//! registers.
//!
//! The type is given as a tree of [`TypeDie`]s that mirrors the DWARF type
//! DIEs the evaluator reads; when a register or memory range that the
//! evaluation needs is not known yet, the evaluation says which one.
use vstd::prelude::*;
use crate::rust_debug::memory_and_registers::{
    MemoryAndRegisters, MemoryAndRegistersView, read_bytes, read_runs_past_end,
};
use crate::rust_debug::evaluate::value::{
    BaseValue, GimliValue, EvaluatorValue, ValueView, base_value_of, udata_of, opt_str_view,
    values_view, value_view, ArrayValue, StructValue, UnionValue, EnumValue, MemberValue, is_udata,
    get_udata,
};
use crate::rust_debug::evaluate::base::{
    le_bytes, base_value_from_bytes, to_le_bytes, supported_base_encoding, new_eval_base_type,
    lemma_base_value_defined, lemma_le_bytes_len, lemma_unsigned_round_trip, pow256,
};

verus! {

broadcast use vstd::std_specs::hash::group_hash_axioms;

/// Where a piece of a value lives (`gimli::Location`).
#[derive(Debug, Clone)]
pub enum PieceLocation {
    /// The piece is optimized out.
    Empty,
    /// The piece is held in a register.
    Register(u16),
    /// The piece is stored in memory at an address.
    Address(u64),
    /// The piece is a value computed by the location expression.
    Value(GimliValue),
    /// The piece is given by raw bytes.
    Bytes(Vec<u8>),
    /// The piece is an implicit pointer.
    ImplicitPointer,
}

/// One piece of a value (`gimli::Piece`).
#[derive(Debug, Clone)]
pub struct Piece {
    pub size_in_bits: Option<u64>,
    pub bit_offset: Option<u64>,
    pub location: PieceLocation,
}

/// A DWARF type DIE, with the attributes and children the evaluator reads.
#[derive(Debug)]
pub enum TypeDie {
    BaseType {
        name: Option<String>,
        byte_size: Option<u64>,
        encoding: Option<u8>,
        alignment: Option<u64>,
    },
    PointerType { address_class: Option<u64>, alignment: Option<u64> },
    ArrayType {
        alignment: Option<u64>,
        element_type: Option<Box<TypeDie>>,
        children: Vec<TypeDie>,
    },
    StructureType { name: Option<String>, alignment: Option<u64>, children: Vec<TypeDie> },
    UnionType { name: Option<String>, alignment: Option<u64>, children: Vec<TypeDie> },
    Member {
        name: Option<String>,
        data_member_location: Option<u64>,
        alignment: Option<u64>,
        member_type: Option<Box<TypeDie>>,
    },
    EnumerationType {
        name: Option<String>,
        alignment: Option<u64>,
        underlying_type: Option<Box<TypeDie>>,
        children: Vec<TypeDie>,
    },
    Enumerator { name: Option<String>, const_value: Option<u64> },
    SubrangeType { count: Option<u64>, subrange_type: Option<Box<TypeDie>> },
    VariantPart { alignment: Option<u64>, discr: Option<Box<TypeDie>>, children: Vec<TypeDie> },
    Variant { alignment: Option<u64>, discr_value: Option<u64>, children: Vec<TypeDie> },
    Subprogram,
    /// Any other tag.
    Other,
}

/// What the evaluation needs before it can go on.
#[derive(Debug, Clone, Copy, PartialEq, Eq, Structural)]
pub enum EvaluatorResult {
    /// The value has been evaluated.
    Complete,
    /// The value of a register is needed.
    RequireReg(u16),
    /// The bytes `address .. address + num_words` of memory are needed.
    RequireData { address: u32, num_words: usize },
}

/// Why an evaluation stopped without a value.
#[derive(Debug, Clone, Copy, PartialEq, Eq, Structural)]
pub enum EvalError {
    /// All pieces were used up before the value was complete.
    OutOfPieces,
    /// A DIE lacks an attribute or child that the evaluation reads.
    MissingAttribute,
    /// A DIE kind, location kind or encoding that is not handled.
    Unsupported,
    /// A value stored in memory is not aligned as its type says.
    Misaligned,
    /// An address or size computation leaves the integer range.
    Overflow,
    /// A piece has a bit offset that is a whole number of bytes.
    UnexpectedBitOffset,
    /// A piece without a size produced no bytes.
    NoProgress,
    /// No enumerator or variant matches the discriminant.
    NoMatchingVariant,
}

/// What evaluating one piece gives.
pub enum PieceOutcome {
    Value(Seq<u8>),
    Bytes(Seq<u8>),
    OptimizedOut,
    Required(EvaluatorResult),
}

/// What evaluating a type gives: a value, or what is needed first.
pub enum Step {
    Value(ValueView),
    Required(EvaluatorResult),
}

#[derive(Debug)]
pub enum ReturnResult {
    Value(EvaluatorValue),
    Required(EvaluatorResult),
}

pub enum PieceResult {
    Value(Vec<u8>),
    Bytes(Vec<u8>),
    OptimizedOut,
    Required(EvaluatorResult),
}

/// The inputs every evaluation step reads: the pieces and the known
/// memory and registers.
pub struct EvalCtx {
    pub pieces: Seq<Piece>,
    pub mem: MemoryAndRegistersView,
}

pub open spec fn step_of(r: Result<ReturnResult, EvalError>) -> Result<Step, EvalError> {
    match r {
        Ok(ReturnResult::Value(v)) => Ok(Step::Value(v@)),
        Ok(ReturnResult::Required(q)) => Ok(Step::Required(q)),
        Err(e) => Err(e),
    }
}

pub open spec fn piece_outcome_of(r: Result<PieceResult, EvalError>) -> Result<PieceOutcome, EvalError> {
    match r {
        Ok(PieceResult::Value(v)) => Ok(PieceOutcome::Value(v@)),
        Ok(PieceResult::Bytes(v)) => Ok(PieceOutcome::Bytes(v@)),
        Ok(PieceResult::OptimizedOut) => Ok(PieceOutcome::OptimizedOut),
        Ok(PieceResult::Required(q)) => Ok(PieceOutcome::Required(q)),
        Err(e) => Err(e),
    }
}

/// The alignment check made before a value is read: a value stored at an
/// address (rounded down to a word) must be a multiple of the alignment.
pub open spec fn alignment_spec(pieces: Seq<Piece>, alignment: Option<u64>, off: u64, idx: nat) -> Result<(), EvalError> {
    match alignment {
        None => Ok(()),
        Some(al) => {
            if idx >= pieces.len() {
                Ok(())
            } else {
                match pieces[idx as int].location {
                    PieceLocation::Address(address) => {
                        let a = address + (off / 4) * 4;
                        if a > u64::MAX {
                            Err(EvalError::Overflow)
                        } else if al == 0 || (a - a % 4) % (al as int) != 0 {
                            Err(EvalError::Misaligned)
                        } else {
                            Ok(())
                        }
                    },
                    _ => Ok(()),
                }
            }
        },
    }
}

/// The bytes of a value handed over by the expression evaluator.
pub open spec fn gimli_value_bytes(v: GimliValue) -> Seq<u8> {
    match v {
        GimliValue::Generic(x) => le_bytes(x as nat, 8),
        GimliValue::I8(x) => le_bytes((x as u8) as nat, 1),
        GimliValue::U8(x) => le_bytes(x as nat, 1),
        GimliValue::I16(x) => le_bytes((x as u16) as nat, 2),
        GimliValue::U16(x) => le_bytes(x as nat, 2),
        GimliValue::I32(x) => le_bytes((x as u32) as nat, 4),
        GimliValue::U32(x) => le_bytes(x as nat, 4),
        GimliValue::I64(x) => le_bytes((x as u64) as nat, 8),
        GimliValue::U64(x) => le_bytes(x as nat, 8),
        GimliValue::F32(x) => le_bytes(x as nat, 4),
        GimliValue::F64(x) => le_bytes(x as nat, 8),
    }
}

/// Cuts the bytes of a register or computed value down to a piece: drops
/// one byte from the end per started byte of bit offset, then keeps the last
/// bytes of the piece's size (`byte_size` when the piece has no size).
pub open spec fn trim_spec(bytes: Seq<u8>, piece: Piece, byte_size: nat) -> Result<Seq<u8>, EvalError> {
    if piece.size_in_bits is Some && piece.size_in_bits->0 > u64::MAX - 8 {
        Err(EvalError::Overflow)
    } else if piece.bit_offset is Some && piece.bit_offset->0 % 8 == 0 {
        Err(EvalError::UnexpectedBitOffset)
    } else if piece.bit_offset is Some && piece.bit_offset->0 > u64::MAX - 8 {
        Err(EvalError::Overflow)
    } else {
        let pbs: nat = match piece.size_in_bits {
            Some(s) => (((s + 7) / 8) as usize) as nat,
            None => byte_size,
        };
        let pbo: nat = match piece.bit_offset {
            Some(o) => (((o + 7) / 8) as usize) as nat,
            None => 0,
        };
        let b1 = if pbo >= bytes.len() {
            Seq::<u8>::empty()
        } else {
            bytes.take(bytes.len() - pbo)
        };
        Ok(
            if b1.len() > pbs {
                b1.skip(b1.len() - pbs)
            } else {
                b1
            },
        )
    }
}

/// What reading one piece gives, for a value of `byte_size` bytes at
/// `off` bytes into the variable.
pub open spec fn eval_piece_spec(ctx: EvalCtx, piece: Piece, byte_size: u64, off: u64) -> Result<PieceOutcome, EvalError> {
    match piece.location {
        PieceLocation::Empty => Ok(PieceOutcome::OptimizedOut),
        PieceLocation::Register(r) => {
            if ctx.mem.registers.contains_key(r) {
                match trim_spec(le_bytes(ctx.mem.registers[r] as nat, 4), piece, 4) {
                    Ok(b) => Ok(PieceOutcome::Value(b)),
                    Err(e) => Err(e),
                }
            } else {
                Ok(PieceOutcome::Required(EvaluatorResult::RequireReg(r)))
            }
        },
        PieceLocation::Address(a) => {
            if a + off > u64::MAX {
                Err(EvalError::Overflow)
            } else if piece.size_in_bits is Some && piece.size_in_bits->0 > u64::MAX - 8 {
                Err(EvalError::Overflow)
            } else {
                let address = (a + off) as u64;
                let nb: usize = match piece.size_in_bits {
                    Some(v) => ((v + 7) / 8) as usize,
                    None => byte_size as usize,
                };
                let a32 = address as u32;
                if read_runs_past_end(ctx.mem.memory, a32, nb as nat) {
                    Err(EvalError::Overflow)
                } else {
                    match read_bytes(ctx.mem.memory, a32, nb as nat) {
                        Some(b) => Ok(PieceOutcome::Value(b)),
                        None => Ok(
                            PieceOutcome::Required(
                                EvaluatorResult::RequireData { address: a32, num_words: nb },
                            ),
                        ),
                    }
                }
            }
        },
        PieceLocation::Value(v) => match trim_spec(gimli_value_bytes(v), piece, 4) {
            Ok(b) => Ok(PieceOutcome::Value(b)),
            Err(e) => Err(e),
        },
        PieceLocation::Bytes(b) => Ok(PieceOutcome::Bytes(b@)),
        PieceLocation::ImplicitPointer => Err(EvalError::Unsupported),
    }
}

/// Collects `byte_size` bytes from the pieces, starting at piece `idx`: a
/// piece with a size is used once, a piece without one is read again until
/// enough bytes are collected; surplus bytes at the end are dropped.
pub open spec fn get_bytes_loop(
    ctx: EvalCtx,
    byte_size: u64,
    off: u64,
    bytes: Seq<u8>,
    idx: nat,
) -> (Result<PieceOutcome, EvalError>, nat)
    decreases (ctx.pieces.len() - idx) + (if bytes.len() < byte_size {
        byte_size - bytes.len()
    } else {
        0
    }),
{
    if bytes.len() >= byte_size {
        (Ok(PieceOutcome::Value(bytes.take(byte_size as int))), idx)
    } else if idx >= ctx.pieces.len() {
        (Err(EvalError::OutOfPieces), idx)
    } else {
        let piece = ctx.pieces[idx as int];
        match eval_piece_spec(ctx, piece, byte_size, off) {
            Err(e) => (Err(e), idx),
            Ok(PieceOutcome::Value(nb)) => {
                if nb.len() == 0 && piece.size_in_bits is None {
                    (Err(EvalError::NoProgress), idx)
                } else {
                    get_bytes_loop(
                        ctx,
                        byte_size,
                        off,
                        bytes + nb,
                        if piece.size_in_bits is Some {
                            idx + 1
                        } else {
                            idx
                        },
                    )
                }
            },
            Ok(other) => (Ok(other), idx),
        }
    }
}

pub open spec fn get_bytes_spec(ctx: EvalCtx, byte_size: u64, off: u64, idx: nat) -> (Result<PieceOutcome, EvalError>, nat) {
    let off2: u64 = if ctx.pieces.len() > 1 {
        0
    } else {
        off
    };
    if byte_size > usize::MAX {
        (Err(EvalError::Overflow), idx)
    } else {
        get_bytes_loop(ctx, byte_size, off2, seq![], idx)
    }
}

/// Reads a base value of `byte_size` bytes with the given encoding from the
/// pieces; no pieces left means the value is optimized out.
pub open spec fn handle_eval_piece_spec(
    ctx: EvalCtx,
    byte_size: Option<u64>,
    off: u64,
    encoding: Option<u8>,
    idx: nat,
) -> (Result<Step, EvalError>, nat) {
    if idx >= ctx.pieces.len() {
        (Ok(Step::Value(ValueView::OptimizedOut)), idx)
    } else {
        let off2: u64 = if ctx.pieces.len() > 1 {
            0
        } else {
            off
        };
        match byte_size {
            None => (Err(EvalError::MissingAttribute), idx),
            Some(bs) => {
                let (r, i1) = get_bytes_spec(ctx, bs, off2, idx);
                match r {
                    Err(e) => (Err(e), i1),
                    Ok(PieceOutcome::Value(b)) => match encoding {
                        None => (Err(EvalError::MissingAttribute), i1),
                        Some(enc) => match base_value_from_bytes(b, enc) {
                            Some(bv) => (Ok(Step::Value(ValueView::Value(bv, b))), i1),
                            None => (Err(EvalError::Unsupported), i1),
                        },
                    },
                    Ok(PieceOutcome::Bytes(b)) => (Ok(Step::Value(ValueView::Bytes(b))), i1),
                    Ok(PieceOutcome::OptimizedOut) => (Ok(Step::Value(ValueView::OptimizedOut)), i1),
                    Ok(PieceOutcome::Required(q)) => (Ok(Step::Required(q)), i1),
                }
            },
        }
    }
}

pub open spec fn eval_basetype_spec(ctx: EvalCtx, die: TypeDie, off: u64, idx: nat) -> (Result<Step, EvalError>, nat) {
    match die {
        TypeDie::BaseType { byte_size, encoding, alignment, .. } => match alignment_spec(ctx.pieces,
            alignment,
            off,
            idx,
        ) {
            Err(e) => (Err(e), idx),
            Ok(_) => {
                if byte_size == Some(0u64) {
                    (Ok(Step::Value(ValueView::ZeroSize)), idx)
                } else {
                    handle_eval_piece_spec(ctx, byte_size, off, encoding, idx)
                }
            },
        },
        _ => (Err(EvalError::Unsupported), idx),
    }
}

pub open spec fn eval_pointer_spec(ctx: EvalCtx, die: TypeDie, off: u64, idx: nat) -> (Result<Step, EvalError>, nat) {
    match die {
        TypeDie::PointerType { address_class, alignment } => match alignment_spec(ctx.pieces,
            alignment,
            off,
            idx,
        ) {
            Err(e) => (Err(e), idx),
            Ok(_) => match address_class {
                None => (Err(EvalError::MissingAttribute), idx),
                Some(c) => if c == 0 {
                    handle_eval_piece_spec(ctx, Some(4u64), off, Some(1u8), idx)
                } else {
                    (Err(EvalError::Unsupported), idx)
                },
            },
        },
        _ => (Err(EvalError::Unsupported), idx),
    }
}

/// Inserts `x` into a list kept in order of data member location, after
/// every entry with a location not above its own (a stable insertion).
pub open spec fn insert_by_loc(s: Seq<(u64, usize)>, x: (u64, usize)) -> Seq<(u64, usize)>
    decreases s.len(),
{
    if s.len() == 0 {
        seq![x]
    } else if s.last().0 <= x.0 {
        s.push(x)
    } else {
        insert_by_loc(s.drop_last(), x).push(s.last())
    }
}

/// How the children of a structure or union are to be evaluated.
pub enum MemberScan {
    /// The child at this index is a variant part, which gives the value.
    VariantPart(nat),
    /// The members, as (data member location, child index), stably sorted by location.
    Members(Seq<(u64, usize)>),
    /// A member has no data member location.
    MissingLocation,
}

pub open spec fn scan_members(children: Seq<TypeDie>, stop_at_variant_part: bool, i: nat, acc: Seq<(u64, usize)>) -> MemberScan
    decreases children.len() - i,
{
    if i >= children.len() {
        MemberScan::Members(acc)
    } else {
        match children[i as int] {
            TypeDie::VariantPart { .. } => if stop_at_variant_part {
                MemberScan::VariantPart(i)
            } else {
                scan_members(children, stop_at_variant_part, i + 1, acc)
            },
            TypeDie::Member { data_member_location, .. } => match data_member_location {
                None => MemberScan::MissingLocation,
                Some(l) => scan_members(
                    children,
                    stop_at_variant_part,
                    i + 1,
                    insert_by_loc(acc, (l, i as usize)),
                ),
            },
            _ => scan_members(children, stop_at_variant_part, i + 1, acc),
        }
    }
}

/// How looking up an enumerator ends.
pub enum EnumLookup {
    Found(nat),
    Error(EvalError),
}

/// Finds the enumerator whose constant is `value` modulo the number of children.
pub open spec fn enum_lookup(children: Seq<TypeDie>, value: u64, i: nat) -> EnumLookup
    decreases children.len() - i,
{
    if i >= children.len() {
        EnumLookup::Error(EvalError::NoMatchingVariant)
    } else {
        match children[i as int] {
            TypeDie::Enumerator { const_value, .. } => match const_value {
                None => EnumLookup::Error(EvalError::MissingAttribute),
                Some(c) => if c == value % (children.len() as u64) {
                    EnumLookup::Found(i)
                } else {
                    enum_lookup(children, value, i + 1)
                },
            },
            TypeDie::Subprogram => enum_lookup(children, value, i + 1),
            _ => EnumLookup::Error(EvalError::Unsupported),
        }
    }
}

pub open spec fn count_variants(children: Seq<TypeDie>) -> nat
    decreases children.len(),
{
    if children.len() == 0 {
        0
    } else {
        count_variants(children.drop_last()) + if children.last() is Variant {
            1nat
        } else {
            0nat
        }
    }
}

pub open spec fn first_member(children: Seq<TypeDie>, i: nat) -> Option<nat>
    decreases children.len() - i,
{
    if i >= children.len() {
        None
    } else if children[i as int] is Member {
        Some(i)
    } else {
        first_member(children, i + 1)
    }
}

pub open spec fn member_name(die: TypeDie) -> Option<String> {
    match die {
        TypeDie::Member { name, .. } => name,
        _ => None,
    }
}

/// Outcome of evaluating a list of members.
pub enum MembersOutcome {
    Done(Seq<ValueView>),
    Required(EvaluatorResult),
}

/// The value of a type DIE at `off` bytes into the variable, reading pieces
/// from index `idx` on; also the piece index after it.
pub open spec fn eval_type_spec(ctx: EvalCtx, die: TypeDie, off: u64, idx: nat) -> (Result<Step, EvalError>, nat)
    decreases die, 2nat,
{
    match die {
        TypeDie::BaseType { .. } => eval_basetype_spec(ctx, die, off, idx),
        TypeDie::PointerType { .. } => eval_pointer_spec(ctx, die, off, idx),
        TypeDie::ArrayType { .. } => eval_array_spec(ctx, die, off, idx),
        TypeDie::StructureType { .. } => eval_struct_spec(ctx, die, off, idx),
        TypeDie::UnionType { .. } => eval_union_spec(ctx, die, off, idx),
        TypeDie::Member { .. } => eval_member_spec(ctx, die, off, idx),
        TypeDie::EnumerationType { .. } => eval_enum_spec(ctx, die, off, idx),
        TypeDie::VariantPart { .. } => eval_variant_part_spec(ctx, die, off, idx),
        _ => (Err(EvalError::Unsupported), idx),
    }
}

pub open spec fn eval_array_spec(ctx: EvalCtx, die: TypeDie, off: u64, idx: nat) -> (Result<Step, EvalError>, nat)
    decreases die, 1nat,
{
    match die {
        TypeDie::ArrayType { alignment, element_type, children } => match alignment_spec(ctx.pieces,
            alignment,
            off,
            idx,
        ) {
            Err(e) => (Err(e), idx),
            Ok(_) => if children.len() == 0 {
                (Err(EvalError::MissingAttribute), idx)
            } else {
                let dim = children@[0];
                let (r, i1) = match dim {
                    TypeDie::SubrangeType { .. } => eval_subrange_spec(ctx, dim, off, idx),
                    TypeDie::EnumerationType { .. } => eval_enum_spec(ctx, dim, off, idx),
                    _ => (Err(EvalError::Unsupported), idx),
                };
                match r {
                    Err(e) => (Err(e), i1),
                    Ok(Step::Required(q)) => (Ok(Step::Required(q)), i1),
                    Ok(Step::Value(v)) => match base_value_of(v) {
                        None => (Err(EvalError::Unsupported), i1),
                        Some(bv) => match udata_of(bv) {
                            None => (Err(EvalError::Unsupported), i1),
                            Some(count) => match element_type {
                                None => (Err(EvalError::MissingAttribute), i1),
                                Some(et) => eval_repeat_spec(
                                    ctx,
                                    *et,
                                    (count as usize) as nat,
                                    off,
                                    i1,
                                    seq![],
                                ),
                            },
                        },
                    },
                }
            },
        },
        _ => (Err(EvalError::Unsupported), idx),
    }
}

/// Evaluates the element type `k` more times, each at the same offset.
pub open spec fn eval_repeat_spec(
    ctx: EvalCtx,
    elem: TypeDie,
    k: nat,
    off: u64,
    idx: nat,
    acc: Seq<ValueView>,
) -> (Result<Step, EvalError>, nat)
    decreases elem, k + 3,
{
    if k == 0 {
        (Ok(Step::Value(ValueView::Array(acc))), idx)
    } else {
        let (r, i1) = eval_type_spec(ctx, elem, off, idx);
        match r {
            Err(e) => (Err(e), i1),
            Ok(Step::Required(q)) => (Ok(Step::Required(q)), i1),
            Ok(Step::Value(v)) => eval_repeat_spec(ctx, elem, (k - 1) as nat, off, i1, acc.push(v)),
        }
    }
}

pub open spec fn eval_struct_spec(ctx: EvalCtx, die: TypeDie, off: u64, idx: nat) -> (Result<Step, EvalError>, nat)
    decreases die, 1nat,
{
    match die {
        TypeDie::StructureType { name, alignment, children } => match alignment_spec(ctx.pieces,
            alignment,
            off,
            idx,
        ) {
            Err(e) => (Err(e), idx),
            Ok(_) => match name {
                None => (Err(EvalError::MissingAttribute), idx),
                Some(n) => match scan_members(children@, true, 0, seq![]) {
                    MemberScan::VariantPart(k) => if k < children@.len() {
                        let (r, i1) = eval_variant_part_spec(ctx, children@[k as int], off, idx);
                        match r {
                            Err(e) => (Err(e), i1),
                            Ok(Step::Required(q)) => (Ok(Step::Required(q)), i1),
                            Ok(Step::Value(v)) => (
                                Ok(Step::Value(ValueView::Struct(n@, seq![v]))),
                                i1,
                            ),
                        }
                    } else {
                        (Err(EvalError::Unsupported), idx)
                    },
                    MemberScan::MissingLocation => (Err(EvalError::MissingAttribute), idx),
                    MemberScan::Members(order) => {
                        let (r, i1) = eval_members_spec(ctx, children@, order, 0, off, idx, seq![]);
                        match r {
                            Err(e) => (Err(e), i1),
                            Ok(MembersOutcome::Required(q)) => (Ok(Step::Required(q)), i1),
                            Ok(MembersOutcome::Done(vs)) => (
                                Ok(Step::Value(ValueView::Struct(n@, vs))),
                                i1,
                            ),
                        }
                    },
                },
            },
        },
        _ => (Err(EvalError::Unsupported), idx),
    }
}

pub open spec fn eval_union_spec(ctx: EvalCtx, die: TypeDie, off: u64, idx: nat) -> (Result<Step, EvalError>, nat)
    decreases die, 1nat,
{
    match die {
        TypeDie::UnionType { name, alignment, children } => match alignment_spec(ctx.pieces,
            alignment,
            off,
            idx,
        ) {
            Err(e) => (Err(e), idx),
            Ok(_) => match name {
                None => (Err(EvalError::MissingAttribute), idx),
                Some(n) => match scan_members(children@, false, 0, seq![]) {
                    MemberScan::Members(order) => {
                        let (r, i1) = eval_members_spec(ctx, children@, order, 0, off, idx, seq![]);
                        match r {
                            Err(e) => (Err(e), i1),
                            Ok(MembersOutcome::Required(q)) => (Ok(Step::Required(q)), i1),
                            Ok(MembersOutcome::Done(vs)) => (
                                Ok(Step::Value(ValueView::Union(n@, vs))),
                                i1,
                            ),
                        }
                    },
                    _ => (Err(EvalError::MissingAttribute), idx),
                },
            },
        },
        _ => (Err(EvalError::Unsupported), idx),
    }
}

/// Evaluates the members `order[i..]` (indices into `children`) in turn.
pub open spec fn eval_members_spec(
    ctx: EvalCtx,
    children: Seq<TypeDie>,
    order: Seq<(u64, usize)>,
    i: nat,
    off: u64,
    idx: nat,
    acc: Seq<ValueView>,
) -> (Result<MembersOutcome, EvalError>, nat)
    decreases children, order.len() - i,
{
    if i >= order.len() {
        (Ok(MembersOutcome::Done(acc)), idx)
    } else {
        let k = order[i as int].1;
        if k >= children.len() {
            (Err(EvalError::Unsupported), idx)
        } else {
            let (r, i1) = eval_member_spec(ctx, children[k as int], off, idx);
            match r {
                Err(e) => (Err(e), i1),
                Ok(Step::Required(q)) => (Ok(MembersOutcome::Required(q)), i1),
                Ok(Step::Value(v)) => eval_members_spec(
                    ctx,
                    children,
                    order,
                    i + 1,
                    off,
                    i1,
                    acc.push(v),
                ),
            }
        }
    }
}

pub open spec fn eval_member_spec(ctx: EvalCtx, die: TypeDie, off: u64, idx: nat) -> (Result<Step, EvalError>, nat)
    decreases die, 1nat,
{
    match die {
        TypeDie::Member { name, data_member_location, alignment, member_type } => {
            let no: int = match data_member_location {
                Some(l) => off + l,
                None => off as int,
            };
            if no > u64::MAX {
                (Err(EvalError::Overflow), idx)
            } else {
                match alignment_spec(ctx.pieces, alignment, no as u64, idx) {
                    Err(e) => (Err(e), idx),
                    Ok(_) => match member_type {
                        None => (Err(EvalError::MissingAttribute), idx),
                        Some(t) => {
                            let (r, i1) = eval_type_spec(ctx, *t, no as u64, idx);
                            match r {
                                Err(e) => (Err(e), i1),
                                Ok(Step::Required(q)) => (Ok(Step::Required(q)), i1),
                                Ok(Step::Value(v)) => (
                                    Ok(
                                        Step::Value(
                                            ValueView::Member(opt_str_view(name), Box::new(v)),
                                        ),
                                    ),
                                    i1,
                                ),
                            }
                        },
                    },
                }
            }
        },
        _ => (Err(EvalError::Unsupported), idx),
    }
}

pub open spec fn eval_enum_spec(ctx: EvalCtx, die: TypeDie, off: u64, idx: nat) -> (Result<Step, EvalError>, nat)
    decreases die, 1nat,
{
    match die {
        TypeDie::EnumerationType { name, alignment, underlying_type, children } => match alignment_spec(ctx.pieces,
            alignment,
            off,
            idx,
        ) {
            Err(e) => (Err(e), idx),
            Ok(_) => match underlying_type {
                None => (Err(EvalError::MissingAttribute), idx),
                Some(t) => {
                    let (r, i1) = eval_type_spec(ctx, *t, off, idx);
                    match r {
                        Err(e) => (Err(e), i1),
                        Ok(Step::Required(q)) => (Ok(Step::Required(q)), i1),
                        Ok(Step::Value(v)) => match base_value_of(v) {
                            None => (Err(EvalError::Unsupported), i1),
                            Some(bv) => match udata_of(bv) {
                                None => (Err(EvalError::Unsupported), i1),
                                Some(value) => match enum_lookup(children@, value, 0) {
                                    EnumLookup::Error(e) => (Err(e), i1),
                                    EnumLookup::Found(k) => match name {
                                        None => (Err(EvalError::MissingAttribute), i1),
                                        Some(n) => match enumerator_name(children@[k as int]) {
                                            None => (Err(EvalError::MissingAttribute), i1),
                                            Some(en) => (
                                                Ok(
                                                    Step::Value(
                                                        ValueView::Enum(
                                                            n@,
                                                            Box::new(ValueView::Name(en@)),
                                                        ),
                                                    ),
                                                ),
                                                i1,
                                            ),
                                        },
                                    },
                                },
                            },
                        },
                    }
                },
            },
        },
        _ => (Err(EvalError::Unsupported), idx),
    }
}

pub open spec fn enumerator_name(die: TypeDie) -> Option<String> {
    match die {
        TypeDie::Enumerator { name, .. } => name,
        _ => None,
    }
}

pub open spec fn eval_subrange_spec(ctx: EvalCtx, die: TypeDie, off: u64, idx: nat) -> (Result<Step, EvalError>, nat)
    decreases die, 1nat,
{
    match die {
        TypeDie::SubrangeType { count, subrange_type } => match count {
            Some(c) => (Ok(Step::Value(ValueView::Value(BaseValue::U64(c), seq![]))), idx),
            None => match subrange_type {
                None => (Err(EvalError::MissingAttribute), idx),
                Some(t) => eval_type_spec(ctx, *t, off, idx),
            },
        },
        _ => (Err(EvalError::Unsupported), idx),
    }
}

pub open spec fn eval_variant_part_spec(ctx: EvalCtx, die: TypeDie, off: u64, idx: nat) -> (Result<Step, EvalError>, nat)
    decreases die, 1nat,
{
    match die {
        TypeDie::VariantPart { alignment, discr, children } => match alignment_spec(ctx.pieces,
            alignment,
            off,
            idx,
        ) {
            Err(e) => (Err(e), idx),
            Ok(_) => match discr {
                None => (Err(EvalError::MissingAttribute), idx),
                Some(d) => {
                    let (r, i1) = eval_member_spec(ctx, *d, off, idx);
                    match r {
                        Err(e) => (Err(e), i1),
                        Ok(Step::Required(q)) => (Ok(Step::Required(q)), i1),
                        Ok(Step::Value(v)) => match base_value_of(v) {
                            None => (Err(EvalError::Unsupported), i1),
                            Some(bv) => match udata_of(bv) {
                                None => (Err(EvalError::Unsupported), i1),
                                Some(variant) => eval_variants_spec(
                                    ctx,
                                    children@,
                                    0,
                                    count_variants(children@),
                                    variant,
                                    off,
                                    i1,
                                ),
                            },
                        },
                    }
                },
            },
        },
        _ => (Err(EvalError::Unsupported), idx),
    }
}

/// Evaluates the first variant (from child `i` on) whose discriminant value
/// is `variant` modulo the number `n` of variants.
pub open spec fn eval_variants_spec(
    ctx: EvalCtx,
    children: Seq<TypeDie>,
    i: nat,
    n: nat,
    variant: u64,
    off: u64,
    idx: nat,
) -> (Result<Step, EvalError>, nat)
    decreases children, children.len() - i,
{
    if i >= children.len() {
        (Err(EvalError::NoMatchingVariant), idx)
    } else {
        match children[i as int] {
            TypeDie::Variant { discr_value, .. } => match discr_value {
                None => (Err(EvalError::MissingAttribute), idx),
                Some(dv) => if n > 0 && dv == variant % (n as u64) {
                    eval_variant_spec(ctx, children[i as int], off, idx)
                } else {
                    eval_variants_spec(ctx, children, i + 1, n, variant, off, idx)
                },
            },
            _ => eval_variants_spec(ctx, children, i + 1, n, variant, off, idx),
        }
    }
}

/// No variant child matches the discriminant value `variant`: every variant
/// has a discriminant value, and none equals `variant` modulo the number of
/// variants (there is none when there are no variants).
pub open spec fn no_variant_matches(children: Seq<TypeDie>, variant: u64) -> bool {
    forall|k: int|
        0 <= k < children.len() && (#[trigger] children[k]) is Variant ==> (children[k]->Variant_discr_value
            matches Some(dv) && !(count_variants(children) > 0 && dv == variant % (count_variants(
            children,
        ) as u64)))
}

/// A variant part whose discriminant (read as an unsigned number) matches
/// none of its variants.
pub open spec fn variant_part_unmatched(ctx: EvalCtx, die: TypeDie, off: u64, idx: nat) -> bool {
    match die {
        TypeDie::VariantPart { alignment, discr, children } => {
            &&& alignment_spec(ctx.pieces, alignment, off, idx) is Ok
            &&& discr matches Some(d) && {
                let r = eval_member_spec(ctx, *d, off, idx).0;
                &&& r matches Ok(Step::Value(v))
                &&& base_value_of(r->Ok_0->Value_0) matches Some(bv)
                &&& udata_of(bv) matches Some(variant)
                &&& no_variant_matches(children@, variant)
            }
        },
        _ => false,
    }
}

proof fn lemma_variants_unmatched(
    ctx: EvalCtx,
    children: Seq<TypeDie>,
    i: nat,
    variant: u64,
    off: u64,
    idx: nat,
)
    requires
        no_variant_matches(children, variant),
    ensures
        eval_variants_spec(ctx, children, i, count_variants(children), variant, off, idx) == (Err::<
            Step,
            EvalError,
        >(EvalError::NoMatchingVariant), idx),
    decreases children.len() - i,
{
    if i < children.len() {
        assert(children[i as int] is Variant ==> children[i as int]->Variant_discr_value is Some);
        lemma_variants_unmatched(ctx, children, i + 1, variant, off, idx);
    }
}

pub open spec fn eval_variant_spec(ctx: EvalCtx, die: TypeDie, off: u64, idx: nat) -> (Result<Step, EvalError>, nat)
    decreases die, 1nat,
{
    match die {
        TypeDie::Variant { alignment, children, .. } => match alignment_spec(ctx.pieces, alignment, off, idx) {
            Err(e) => (Err(e), idx),
            Ok(_) => match first_member(children@, 0) {
                None => (Err(EvalError::Unsupported), idx),
                Some(k) => if k < children@.len() {
                    let (r, i1) = eval_member_spec(ctx, children@[k as int], off, idx);
                    match r {
                        Err(e) => (Err(e), i1),
                        Ok(Step::Required(q)) => (Ok(Step::Required(q)), i1),
                        Ok(Step::Value(v)) => match member_name(children@[k as int]) {
                            None => (Err(EvalError::MissingAttribute), i1),
                            Some(nm) => (Ok(Step::Value(ValueView::Enum(nm@, Box::new(v)))), i1),
                        },
                    }
                } else {
                    (Err(EvalError::Unsupported), idx)
                },
            },
        },
        _ => (Err(EvalError::Unsupported), idx),
    }
}

/// The state of an [`Evaluator`].
pub struct EvaluatorView {
    pub pieces: Seq<Piece>,
    pub piece_index: nat,
    pub stack: Option<TypeDie>,
    pub result: Option<ValueView>,
}

/// Evaluates the value of a type from DWARF pieces.
pub struct Evaluator {
    pieces: Vec<Piece>,
    piece_index: usize,
    stack: Option<TypeDie>,
    result: Option<EvaluatorValue>,
}

impl View for Evaluator {
    type V = EvaluatorView;

    closed spec fn view(&self) -> EvaluatorView {
        EvaluatorView {
            pieces: self.pieces@,
            piece_index: self.piece_index as nat,
            stack: self.stack,
            result: match self.result {
                Some(v) => Some(v@),
                None => None,
            },
        }
    }
}

pub open spec fn ctx_of(pieces: Seq<Piece>, mem: MemoryAndRegistersView) -> EvalCtx {
    EvalCtx { pieces, mem }
}

/// `new` is `old` with at most the piece index changed, and that index
/// still within the pieces.
pub open spec fn same_frame(old: EvaluatorView, new: EvaluatorView) -> bool {
    &&& new.pieces == old.pieces
    &&& new.stack == old.stack
    &&& new.result == old.result
    &&& new.piece_index <= new.pieces.len()
}

pub open spec fn members_outcome_of(r: Result<MembersResult, EvalError>) -> Result<MembersOutcome, EvalError> {
    match r {
        Ok(MembersResult::Done(vs)) => Ok(MembersOutcome::Done(values_view(vs@))),
        Ok(MembersResult::Required(q)) => Ok(MembersOutcome::Required(q)),
        Err(e) => Err(e),
    }
}

pub enum MembersResult {
    Done(Vec<EvaluatorValue>),
    Required(EvaluatorResult),
}

pub enum MemberScanResult {
    VariantPart(usize),
    Members(Vec<(u64, usize)>),
    MissingLocation,
}

pub(crate) proof fn lemma_values_view_push(vs: Seq<EvaluatorValue>, v: EvaluatorValue)
    ensures
        values_view(vs.push(v)) == values_view(vs).push(value_view(v)),
{
    assert(values_view(vs.push(v)) =~= values_view(vs).push(value_view(v)));
}

pub(crate) proof fn lemma_values_view_empty()
    ensures
        values_view(Seq::<EvaluatorValue>::empty()) == Seq::<ValueView>::empty(),
{
    assert(values_view(Seq::<EvaluatorValue>::empty()) =~= Seq::<ValueView>::empty());
}

pub(crate) fn copy_bytes(v: &Vec<u8>) -> (r: Vec<u8>)
    ensures
        r@ == v@,
{
    let mut r: Vec<u8> = Vec::new();
    let mut i: usize = 0;
    while i < v.len()
        invariant
            i <= v.len(),
            r@ == v@.take(i as int),
        decreases v.len() - i,
    {
        r.push(v[i]);
        i += 1;
        assert(v@.take(i as int) =~= v@.take(i - 1).push(v@[i - 1]));
    }
    assert(v@.take(v.len() as int) =~= v@);
    r
}

pub(crate) fn clone_opt_string(s: &Option<String>) -> (r: Option<String>)
    ensures
        opt_str_view(r) == opt_str_view(*s),
{
    match s {
        Some(s) => Some(s.clone()),
        None => None,
    }
}

/// Cuts register or value bytes down to a piece (see [`trim_spec`]).
pub fn trim_piece_bytes(bytes: Vec<u8>, piece: &Piece, byte_size: usize) -> (r: Result<Vec<u8>, EvalError>)
    ensures
        match trim_spec(bytes@, *piece, byte_size as nat) {
            Ok(b) => r matches Ok(v) && v@ == b,
            Err(e) => r == Err::<Vec<u8>, EvalError>(e),
        },
{
    let piece_byte_size: usize = match piece.size_in_bits {
        Some(size) => {
            if size > u64::MAX - 8 {
                return Err(EvalError::Overflow);
            }
            ((size + 8 - 1) / 8) as usize
        },
        None => byte_size,
    };
    let piece_byte_offset: usize = match piece.bit_offset {
        Some(offset) => {
            if offset % 8 == 0 {
                return Err(EvalError::UnexpectedBitOffset);
            }
            if offset > u64::MAX - 8 {
                return Err(EvalError::Overflow);
            }
            ((offset + 8 - 1) / 8) as usize
        },
        None => 0,
    };
    let mut bytes = bytes;
    let ghost orig = bytes@;
    if piece_byte_offset >= bytes.len() {
        bytes.clear();
        assert(bytes@ =~= Seq::<u8>::empty());
    } else {
        let keep = bytes.len() - piece_byte_offset;
        bytes.truncate(keep);
        assert(bytes@ =~= orig.take(keep as int));
    }
    if bytes.len() > piece_byte_size {
        let cut = bytes.len() - piece_byte_size;
        let ghost b1 = bytes@;
        let tail = bytes.split_off(cut);
        assert(tail@ =~= b1.skip(cut as int));
        return Ok(tail);
    }
    Ok(bytes)
}

/// The bytes of a value handed over by the expression evaluator.
pub fn gimli_value_to_bytes(value: GimliValue) -> (r: Vec<u8>)
    ensures
        r@ == gimli_value_bytes(value),
{
    match value {
        GimliValue::Generic(x) => to_le_bytes(x, 8),
        GimliValue::I8(x) => to_le_bytes((x as u8) as u64, 1),
        GimliValue::U8(x) => to_le_bytes(x as u64, 1),
        GimliValue::I16(x) => to_le_bytes((x as u16) as u64, 2),
        GimliValue::U16(x) => to_le_bytes(x as u64, 2),
        GimliValue::I32(x) => to_le_bytes((x as u32) as u64, 4),
        GimliValue::U32(x) => to_le_bytes(x as u64, 4),
        GimliValue::I64(x) => to_le_bytes(x as u64, 8),
        GimliValue::U64(x) => to_le_bytes(x, 8),
        GimliValue::F32(x) => to_le_bytes(x as u64, 4),
        GimliValue::F64(x) => to_le_bytes(x, 8),
    }
}

/// Inserts `x` after every entry whose location is not above its own.
fn insert_by_loc_exec(v: &mut Vec<(u64, usize)>, x: (u64, usize))
    ensures
        final(v)@ == insert_by_loc(old(v)@, x),
{
    let mut p = v.len();
    assert(v@.take(p as int) =~= v@);
    assert(v@.skip(p as int) =~= Seq::<(u64, usize)>::empty());
    while p > 0 && v[p - 1].0 > x.0
        invariant
            p <= v.len(),
            v@ == old(v)@,
            insert_by_loc(v@, x) == insert_by_loc(v@.take(p as int), x) + v@.skip(p as int),
        decreases p,
    {
        let ghost t = v@.take(p as int);
        assert(t.drop_last() =~= v@.take(p - 1));
        assert(t.last() == v@[p - 1]);
        assert(v@.skip(p - 1) =~= seq![v@[p - 1]] + v@.skip(p as int));
        assert(insert_by_loc(t, x) == insert_by_loc(v@.take(p - 1), x).push(v@[p - 1]));
        assert(insert_by_loc(v@.take(p - 1), x).push(v@[p - 1]) + v@.skip(p as int) =~= insert_by_loc(
            v@.take(p - 1),
            x,
        ) + v@.skip(p - 1));
        p -= 1;
    }
    let ghost before = v@;
    if p == 0 {
        assert(before.take(0) =~= Seq::<(u64, usize)>::empty());
    } else {
        assert(before.take(p as int).last() == before[p - 1]);
    }
    assert(insert_by_loc(before.take(p as int), x) =~= before.take(p as int).push(x));
    v.insert(p, x);
    assert(v@ =~= before.take(p as int).push(x) + before.skip(p as int));
}

/// Lists the members of a structure or union in evaluation order, or finds
/// the variant part that gives the value (see [`scan_members`]).
pub(crate) fn scan_members_exec(children: &Vec<TypeDie>, stop_at_variant_part: bool) -> (r: MemberScanResult)
    ensures
        match scan_members(children@, stop_at_variant_part, 0, seq![]) {
            MemberScan::VariantPart(k) => r matches MemberScanResult::VariantPart(j) && j == k,
            MemberScan::Members(o) => r matches MemberScanResult::Members(v) && v@ == o,
            MemberScan::MissingLocation => r is MissingLocation,
        },
{
    let mut acc: Vec<(u64, usize)> = Vec::new();
    let mut i: usize = 0;
    while i < children.len()
        invariant
            i <= children.len(),
            scan_members(children@, stop_at_variant_part, i as nat, acc@) == scan_members(
                children@,
                stop_at_variant_part,
                0,
                seq![],
            ),
        decreases children.len() - i,
    {
        match &children[i] {
            TypeDie::VariantPart { .. } => {
                if stop_at_variant_part {
                    return MemberScanResult::VariantPart(i);
                }
            },
            TypeDie::Member { data_member_location, .. } => match data_member_location {
                None => {
                    return MemberScanResult::MissingLocation;
                },
                Some(l) => {
                    insert_by_loc_exec(&mut acc, (*l, i));
                },
            },
            _ => {},
        }
        i += 1;
    }
    MemberScanResult::Members(acc)
}

proof fn lemma_enum_lookup_in_range(children: Seq<TypeDie>, value: u64, i: nat)
    ensures
        enum_lookup(children, value, i) matches EnumLookup::Found(k) ==> i <= k < children.len(),
    decreases children.len() - i,
{
    if i < children.len() {
        lemma_enum_lookup_in_range(children, value, i + 1);
    }
}

proof fn lemma_first_member_in_range(children: Seq<TypeDie>, i: nat)
    ensures
        first_member(children, i) matches Some(k) ==> i <= k < children.len(),
    decreases children.len() - i,
{
    if i < children.len() {
        lemma_first_member_in_range(children, i + 1);
    }
}

/// Finds the enumerator that matches `value` (see [`enum_lookup`]).
fn enum_lookup_exec(children: &Vec<TypeDie>, value: u64) -> (r: Result<usize, EvalError>)
    ensures
        r matches Ok(k) ==> k < children@.len(),
        match r {
            Ok(j) => enum_lookup(children@, value, 0) == EnumLookup::Found(j as nat),
            Err(e) => enum_lookup(children@, value, 0) == EnumLookup::Error(e),
        },
{
    proof {
        lemma_enum_lookup_in_range(children@, value, 0);
    }
    let clen = children.len() as u64;
    let mut i: usize = 0;
    while i < children.len()
        invariant
            i <= children.len(),
            clen == children@.len(),
            enum_lookup(children@, value, i as nat) == enum_lookup(children@, value, 0),
        decreases children.len() - i,
    {
        match &children[i] {
            TypeDie::Enumerator { const_value, .. } => match const_value {
                None => {
                    return Err(EvalError::MissingAttribute);
                },
                Some(c) => {
                    if *c == value % clen {
                        return Ok(i);
                    }
                },
            },
            TypeDie::Subprogram => {},
            _ => {
                return Err(EvalError::Unsupported);
            },
        }
        i += 1;
    }
    Err(EvalError::NoMatchingVariant)
}

pub(crate) fn count_variants_exec(children: &Vec<TypeDie>) -> (n: usize)
    ensures
        n == count_variants(children@),
{
    let mut n: usize = 0;
    let mut i: usize = 0;
    while i < children.len()
        invariant
            i <= children.len(),
            n <= i,
            n == count_variants(children@.take(i as int)),
        decreases children.len() - i,
    {
        assert(children@.take(i + 1).drop_last() =~= children@.take(i as int));
        if let TypeDie::Variant { .. } = &children[i] {
            n += 1;
        }
        i += 1;
    }
    assert(children@.take(children.len() as int) =~= children@);
    n
}

pub(crate) fn first_member_exec(children: &Vec<TypeDie>) -> (r: Option<usize>)
    ensures
        r matches Some(k) ==> k < children@.len(),
        match r {
            Some(j) => first_member(children@, 0) == Some(j as nat),
            None => first_member(children@, 0) is None,
        },
{
    proof {
        lemma_first_member_in_range(children@, 0);
    }
    let mut i: usize = 0;
    while i < children.len()
        invariant
            i <= children.len(),
            first_member(children@, i as nat) == first_member(children@, 0),
        decreases children.len() - i,
    {
        if let TypeDie::Member { .. } = &children[i] {
            return Some(i);
        }
        i += 1;
    }
    None
}

impl Evaluator {
    /// An evaluator for the value of `type_die` from `pieces`; without a type
    /// the first piece is read as a 32-bit address.
    pub fn new(pieces: Vec<Piece>, type_die: Option<TypeDie>) -> (r: Evaluator)
        ensures
            r@.pieces == pieces@,
            r@.piece_index == 0,
            r@.stack == type_die,
            r@.result is None,
    {
        Evaluator { pieces, piece_index: 0, stack: type_die, result: None }
    }

    /// The evaluated value, if the evaluation has completed.
    pub fn get_value(self) -> (r: Option<EvaluatorValue>)
        ensures
            match r {
                Some(v) => self@.result == Some(v@),
                None => self@.result is None,
            },
    {
        self.result
    }

    fn check_alignment(&self, alignment: Option<u64>, data_offset: u64) -> (r: Result<(), EvalError>)
        ensures
            r == alignment_spec(self@.pieces, alignment, data_offset, self@.piece_index),
    {
        match alignment {
            None => Ok(()),
            Some(alignment) => {
                if self.pieces.len() <= self.piece_index {
                    return Ok(());
                }
                match &self.pieces[self.piece_index].location {
                    PieceLocation::Address(address) => {
                        let step: u64 = (data_offset / 4) * 4;
                        match address.checked_add(step) {
                            None => Err(EvalError::Overflow),
                            Some(addr) => {
                                let addr = addr - addr % 4;
                                if alignment == 0 || addr % alignment != 0 {
                                    Err(EvalError::Misaligned)
                                } else {
                                    Ok(())
                                }
                            },
                        }
                    },
                    _ => Ok(()),
                }
            },
        }
    }

    /// Reads one piece (see [`eval_piece_spec`]).
    pub fn eval_piece(
        &self,
        memory_and_registers: &MemoryAndRegisters,
        piece: &Piece,
        byte_size: u64,
        data_offset: u64,
    ) -> (r: Result<PieceResult, EvalError>)
        ensures
            piece_outcome_of(r) == eval_piece_spec(
                ctx_of(self@.pieces, memory_and_registers@),
                *piece,
                byte_size,
                data_offset,
            ),
    {
        match &piece.location {
            PieceLocation::Empty => Ok(PieceResult::OptimizedOut),
            PieceLocation::Register(register) => {
                match memory_and_registers.get_register_value(register) {
                    Some(val) => {
                        let bytes = to_le_bytes(*val as u64, 4);
                        match trim_piece_bytes(bytes, piece, 4) {
                            Ok(b) => Ok(PieceResult::Value(b)),
                            Err(e) => Err(e),
                        }
                    },
                    None => Ok(PieceResult::Required(EvaluatorResult::RequireReg(*register))),
                }
            },
            PieceLocation::Address(address) => {
                let address = match address.checked_add(data_offset) {
                    Some(a) => a,
                    None => {
                        return Err(EvalError::Overflow);
                    },
                };
                let num_bytes: usize = match piece.size_in_bits {
                    Some(val) => {
                        if val > u64::MAX - 8 {
                            return Err(EvalError::Overflow);
                        }
                        ((val + 8 - 1) / 8) as usize
                    },
                    None => byte_size as usize,
                };
                let a32 = address as u32;
                match memory_and_registers.try_get_addresses(a32, num_bytes) {
                    Err(_) => Err(EvalError::Overflow),
                    Ok(Some(bytes)) => Ok(PieceResult::Value(bytes)),
                    Ok(None) => Ok(
                        PieceResult::Required(
                            EvaluatorResult::RequireData { address: a32, num_words: num_bytes },
                        ),
                    ),
                }
            },
            PieceLocation::Value(value) => {
                let bytes = gimli_value_to_bytes(*value);
                match trim_piece_bytes(bytes, piece, 4) {
                    Ok(b) => Ok(PieceResult::Value(b)),
                    Err(e) => Err(e),
                }
            },
            PieceLocation::Bytes(value) => Ok(PieceResult::Bytes(copy_bytes(value))),
            PieceLocation::ImplicitPointer => Err(EvalError::Unsupported),
        }
    }

    /// Collects `byte_size` bytes from the pieces (see [`get_bytes_spec`]).
    fn get_bytes(
        &mut self,
        memory_and_registers: &MemoryAndRegisters,
        byte_size: u64,
        data_offset: u64,
    ) -> (r: Result<PieceResult, EvalError>)
        requires
            old(self)@.piece_index <= old(self)@.pieces.len(),
        ensures
            same_frame(old(self)@, final(self)@),
            (piece_outcome_of(r), final(self)@.piece_index) == get_bytes_spec(
                ctx_of(old(self)@.pieces, memory_and_registers@),
                byte_size,
                data_offset,
                old(self)@.piece_index,
            ),
    {
        let ghost ctx = ctx_of(self@.pieces, memory_and_registers@);
        let off: u64 = if self.pieces.len() > 1 {
            0
        } else {
            data_offset
        };
        if byte_size > usize::MAX as u64 {
            return Err(EvalError::Overflow);
        }
        let bs = byte_size as usize;
        let mut bytes: Vec<u8> = Vec::new();
        let ghost idx0 = self@.piece_index;
        while bytes.len() < bs
            invariant
                same_frame(old(self)@, self@),
                bs == byte_size,
                ctx == ctx_of(self@.pieces, memory_and_registers@),
                idx0 == old(self)@.piece_index,
                get_bytes_spec(ctx, byte_size, data_offset, idx0) == get_bytes_loop(
                    ctx,
                    byte_size,
                    off,
                    seq![],
                    idx0,
                ),
                get_bytes_loop(ctx, byte_size, off, bytes@, self@.piece_index)
                    == get_bytes_loop(ctx, byte_size, off, seq![], idx0),
            decreases (self@.pieces.len() - self@.piece_index) + (if bytes.len() < bs {
                bs - bytes.len()
            } else {
                0
            }),
        {
            if self.piece_index >= self.pieces.len() {
                assert(get_bytes_loop(ctx, byte_size, off, bytes@, self@.piece_index) == (
                Err::<PieceOutcome, EvalError>(EvalError::OutOfPieces),
                self@.piece_index,
                ));
                assert(ctx == ctx_of(old(self)@.pieces, memory_and_registers@));
                return Err(EvalError::OutOfPieces);
            }
            let result = self.eval_piece(
                memory_and_registers,
                &self.pieces[self.piece_index],
                byte_size,
                off,
            );
            let sized = self.pieces[self.piece_index].size_in_bits.is_some();
            match result {
                Err(e) => {
                    return Err(e);
                },
                Ok(PieceResult::Value(new_bytes)) => {
                    if new_bytes.len() == 0 && !sized {
                        return Err(EvalError::NoProgress);
                    }
                    let mut nb = new_bytes;
                    bytes.append(&mut nb);
                    if sized {
                        self.piece_index += 1;
                    }
                },
                Ok(other) => {
                    assert(ctx == ctx_of(old(self)@.pieces, memory_and_registers@));
                    return Ok(other);
                },
            }
        }
        bytes.truncate(bs);
        Ok(PieceResult::Value(bytes))
    }

    /// Reads a base value from the pieces (see [`handle_eval_piece_spec`]).
    pub fn handle_eval_piece(
        &mut self,
        memory_and_registers: &MemoryAndRegisters,
        byte_size: Option<u64>,
        data_offset: u64,
        encoding: Option<u8>,
    ) -> (r: Result<ReturnResult, EvalError>)
        requires
            old(self)@.piece_index <= old(self)@.pieces.len(),
        ensures
            same_frame(old(self)@, final(self)@),
            (step_of(r), final(self)@.piece_index) == handle_eval_piece_spec(
                ctx_of(old(self)@.pieces, memory_and_registers@),
                byte_size,
                data_offset,
                encoding,
                old(self)@.piece_index,
            ),
    {
        if self.pieces.len() <= self.piece_index {
            return Ok(ReturnResult::Value(EvaluatorValue::OptimizedOut));
        }
        let data_offset: u64 = if self.pieces.len() > 1 {
            0
        } else {
            data_offset
        };
        let bs = match byte_size {
            None => {
                return Err(EvalError::MissingAttribute);
            },
            Some(bs) => bs,
        };
        match self.get_bytes(memory_and_registers, bs, data_offset) {
            Err(e) => Err(e),
            Ok(PieceResult::Value(bytes)) => match encoding {
                None => Err(EvalError::MissingAttribute),
                Some(enc) => {
                    if supported_base_encoding(enc, bytes.len()) {
                        proof {
                            lemma_base_value_defined(bytes@, enc);
                        }
                        let bv = new_eval_base_type(copy_bytes(&bytes), enc);
                        Ok(ReturnResult::Value(EvaluatorValue::Value(bv, bytes)))
                    } else {
                        proof {
                            lemma_base_value_defined(bytes@, enc);
                        }
                        Err(EvalError::Unsupported)
                    }
                },
            },
            Ok(PieceResult::Bytes(bytes)) => Ok(ReturnResult::Value(EvaluatorValue::Bytes(bytes))),
            Ok(PieceResult::OptimizedOut) => Ok(ReturnResult::Value(EvaluatorValue::OptimizedOut)),
            Ok(PieceResult::Required(q)) => Ok(ReturnResult::Required(q)),
        }
    }
}

impl Evaluator {
    fn eval_basetype(
        &mut self,
        memory_and_registers: &MemoryAndRegisters,
        die: &TypeDie,
        data_offset: u64,
    ) -> (r: Result<ReturnResult, EvalError>)
        requires
            old(self)@.piece_index <= old(self)@.pieces.len(),
        ensures
            same_frame(old(self)@, final(self)@),
            (step_of(r), final(self)@.piece_index) == eval_basetype_spec(
                ctx_of(old(self)@.pieces, memory_and_registers@),
                *die,
                data_offset,
                old(self)@.piece_index,
            ),
    {
        match die {
            TypeDie::BaseType { byte_size, encoding, alignment, .. } => {
                match self.check_alignment(*alignment, data_offset) {
                    Err(e) => {
                        return Err(e);
                    },
                    Ok(_) => {},
                }
                if *byte_size == Some(0u64) {
                    return Ok(ReturnResult::Value(EvaluatorValue::ZeroSize));
                }
                self.handle_eval_piece(memory_and_registers, *byte_size, data_offset, *encoding)
            },
            _ => Err(EvalError::Unsupported),
        }
    }

    fn eval_pointer_type(
        &mut self,
        memory_and_registers: &MemoryAndRegisters,
        die: &TypeDie,
        data_offset: u64,
    ) -> (r: Result<ReturnResult, EvalError>)
        requires
            old(self)@.piece_index <= old(self)@.pieces.len(),
        ensures
            same_frame(old(self)@, final(self)@),
            (step_of(r), final(self)@.piece_index) == eval_pointer_spec(
                ctx_of(old(self)@.pieces, memory_and_registers@),
                *die,
                data_offset,
                old(self)@.piece_index,
            ),
    {
        match die {
            TypeDie::PointerType { address_class, alignment } => {
                match self.check_alignment(*alignment, data_offset) {
                    Err(e) => {
                        return Err(e);
                    },
                    Ok(_) => {},
                }
                match address_class {
                    None => Err(EvalError::MissingAttribute),
                    Some(c) => {
                        if *c == 0 {
                            self.handle_eval_piece(memory_and_registers, Some(4), data_offset, Some(1))
                        } else {
                            Err(EvalError::Unsupported)
                        }
                    },
                }
            },
            _ => Err(EvalError::Unsupported),
        }
    }

    /// Evaluates the value of a type DIE (see [`eval_type_spec`]).
    pub fn eval_type(
        &mut self,
        memory_and_registers: &MemoryAndRegisters,
        die: &TypeDie,
        data_offset: u64,
    ) -> (r: Result<ReturnResult, EvalError>)
        requires
            old(self)@.piece_index <= old(self)@.pieces.len(),
        ensures
            same_frame(old(self)@, final(self)@),
            (step_of(r), final(self)@.piece_index) == eval_type_spec(
                ctx_of(old(self)@.pieces, memory_and_registers@),
                *die,
                data_offset,
                old(self)@.piece_index,
            ),
        decreases die, 2nat,
    {
        match die {
            TypeDie::BaseType { .. } => self.eval_basetype(memory_and_registers, die, data_offset),
            TypeDie::PointerType { .. } => self.eval_pointer_type(memory_and_registers, die, data_offset),
            TypeDie::ArrayType { .. } => self.eval_array_type(memory_and_registers, die, data_offset),
            TypeDie::StructureType { .. } => self.eval_structured_type(
                memory_and_registers,
                die,
                data_offset,
            ),
            TypeDie::UnionType { .. } => self.eval_union_type(memory_and_registers, die, data_offset),
            TypeDie::Member { .. } => self.eval_member(memory_and_registers, die, data_offset),
            TypeDie::EnumerationType { .. } => self.eval_enumeration_type(
                memory_and_registers,
                die,
                data_offset,
            ),
            TypeDie::VariantPart { .. } => {
                if !self.variant_part_has_match(memory_and_registers, die, data_offset) {
                    return Err(EvalError::NoMatchingVariant);
                }
                self.eval_variant_part(memory_and_registers, die, data_offset)
            },
            _ => Err(EvalError::Unsupported),
        }
    }

    /// Evaluates an array: its length from the first dimension, then the
    /// element type that many times (see [`eval_array_spec`]).
    #[verifier::loop_isolation(false)]
    pub fn eval_array_type(
        &mut self,
        memory_and_registers: &MemoryAndRegisters,
        die: &TypeDie,
        data_offset: u64,
    ) -> (r: Result<ReturnResult, EvalError>)
        requires
            old(self)@.piece_index <= old(self)@.pieces.len(),
        ensures
            same_frame(old(self)@, final(self)@),
            (step_of(r), final(self)@.piece_index) == eval_array_spec(
                ctx_of(old(self)@.pieces, memory_and_registers@),
                *die,
                data_offset,
                old(self)@.piece_index,
            ),
        decreases die, 1nat,
    {
        let ghost ctx = ctx_of(self@.pieces, memory_and_registers@);
        match die {
            TypeDie::ArrayType { alignment, element_type, children } => {
                match self.check_alignment(*alignment, data_offset) {
                    Err(e) => {
                        return Err(e);
                    },
                    Ok(_) => {},
                }
                if children.len() == 0 {
                    return Err(EvalError::MissingAttribute);
                }
                let dim = &children[0];
                let result = match dim {
                    TypeDie::SubrangeType { .. } => self.eval_subrange_type(
                        memory_and_registers,
                        dim,
                        data_offset,
                    ),
                    TypeDie::EnumerationType { .. } => self.eval_enumeration_type(
                        memory_and_registers,
                        dim,
                        data_offset,
                    ),
                    _ => Err(EvalError::Unsupported),
                };
                let value = match result {
                    Err(e) => {
                        return Err(e);
                    },
                    Ok(ReturnResult::Required(q)) => {
                        return Ok(ReturnResult::Required(q));
                    },
                    Ok(ReturnResult::Value(v)) => v,
                };
                if !value.has_base_value() {
                    return Err(EvalError::Unsupported);
                }
                let bv = value.to_value().unwrap();
                if !is_udata(&bv) {
                    return Err(EvalError::Unsupported);
                }
                let count = get_udata(bv) as usize;
                let et = match element_type {
                    None => {
                        return Err(EvalError::MissingAttribute);
                    },
                    Some(et) => et,
                };
                let ghost i1 = self@.piece_index;
                let mut values: Vec<EvaluatorValue> = Vec::new();
                proof {
                    lemma_values_view_empty();
                }
                let mut k: usize = 0;
                while k < count
                    invariant
                        k <= count,
                        same_frame(old(self)@, self@),
                        ctx == ctx_of(self@.pieces, memory_and_registers@),
                        eval_array_spec(ctx, *die, data_offset, old(self)@.piece_index)
                            == eval_repeat_spec(ctx, **et, (count - k) as nat, data_offset, self@.piece_index, values_view(values@)),
                    decreases count - k,
                {
                    match self.eval_type(memory_and_registers, &**et, data_offset) {
                        Err(e) => {
                            return Err(e);
                        },
                        Ok(ReturnResult::Required(q)) => {
                            return Ok(ReturnResult::Required(q));
                        },
                        Ok(ReturnResult::Value(v)) => {
                            proof {
                                lemma_values_view_push(values@, v);
                            }
                            values.push(v);
                        },
                    }
                    k += 1;
                }
                Ok(ReturnResult::Value(EvaluatorValue::Array(Box::new(ArrayValue { values }))))
            },
            _ => Err(EvalError::Unsupported),
        }
    }

    /// Evaluates the members `order` (indices into `children`) in turn.
    fn eval_members(
        &mut self,
        memory_and_registers: &MemoryAndRegisters,
        children: &Vec<TypeDie>,
        order: &Vec<(u64, usize)>,
        data_offset: u64,
    ) -> (r: Result<MembersResult, EvalError>)
        requires
            old(self)@.piece_index <= old(self)@.pieces.len(),
        ensures
            same_frame(old(self)@, final(self)@),
            (members_outcome_of(r), final(self)@.piece_index) == eval_members_spec(
                ctx_of(old(self)@.pieces, memory_and_registers@),
                children@,
                order@,
                0,
                data_offset,
                old(self)@.piece_index,
                seq![],
            ),
        decreases children@, order@.len() + 1,
    {
        let ghost ctx = ctx_of(self@.pieces, memory_and_registers@);
        let mut values: Vec<EvaluatorValue> = Vec::new();
        proof {
            lemma_values_view_empty();
        }
        let mut i: usize = 0;
        while i < order.len()
            invariant
                i <= order.len(),
                same_frame(old(self)@, self@),
                ctx == ctx_of(self@.pieces, memory_and_registers@),
                eval_members_spec(ctx, children@, order@, 0, data_offset, old(self)@.piece_index, seq![])
                    == eval_members_spec(ctx, children@, order@, i as nat, data_offset, self@.piece_index, values_view(values@)),
            decreases order.len() - i,
        {
            let k = order[i].1;
            if k >= children.len() {
                return Err(EvalError::Unsupported);
            }
            match self.eval_member(memory_and_registers, &children[k], data_offset) {
                Err(e) => {
                    return Err(e);
                },
                Ok(ReturnResult::Required(q)) => {
                    return Ok(MembersResult::Required(q));
                },
                Ok(ReturnResult::Value(v)) => {
                    proof {
                        lemma_values_view_push(values@, v);
                    }
                    values.push(v);
                },
            }
            i += 1;
        }
        Ok(MembersResult::Done(values))
    }

    /// Evaluates a structure: its variant part if it has one, else its
    /// members in order of location (see [`eval_struct_spec`]).
    pub fn eval_structured_type(
        &mut self,
        memory_and_registers: &MemoryAndRegisters,
        die: &TypeDie,
        data_offset: u64,
    ) -> (r: Result<ReturnResult, EvalError>)
        requires
            old(self)@.piece_index <= old(self)@.pieces.len(),
        ensures
            same_frame(old(self)@, final(self)@),
            (step_of(r), final(self)@.piece_index) == eval_struct_spec(
                ctx_of(old(self)@.pieces, memory_and_registers@),
                *die,
                data_offset,
                old(self)@.piece_index,
            ),
        decreases die, 1nat,
    {
        match die {
            TypeDie::StructureType { name, alignment, children } => {
                match self.check_alignment(*alignment, data_offset) {
                    Err(e) => {
                        return Err(e);
                    },
                    Ok(_) => {},
                }
                let name = match name {
                    None => {
                        return Err(EvalError::MissingAttribute);
                    },
                    Some(n) => n,
                };
                match scan_members_exec(children, true) {
                    MemberScanResult::VariantPart(k) => {
                        if k >= children.len() {
                            return Err(EvalError::Unsupported);
                        }
                        if !self.variant_part_has_match(memory_and_registers, &children[k], data_offset) {
                            return Err(EvalError::NoMatchingVariant);
                        }
                        match self.eval_variant_part(memory_and_registers, &children[k], data_offset) {
                            Err(e) => Err(e),
                            Ok(ReturnResult::Required(q)) => Ok(ReturnResult::Required(q)),
                            Ok(ReturnResult::Value(v)) => {
                                let mut members: Vec<EvaluatorValue> = Vec::new();
                                proof {
                                    lemma_values_view_empty();
                                    lemma_values_view_push(members@, v);
                                }
                                members.push(v);
                                assert(values_view(members@) =~= seq![v@]);
                                Ok(
                                    ReturnResult::Value(
                                        EvaluatorValue::Struct(
                                            Box::new(StructValue { name: name.clone(), members }),
                                        ),
                                    ),
                                )
                            },
                        }
                    },
                    MemberScanResult::MissingLocation => Err(EvalError::MissingAttribute),
                    MemberScanResult::Members(order) => {
                        match self.eval_members(memory_and_registers, children, &order, data_offset) {
                            Err(e) => Err(e),
                            Ok(MembersResult::Required(q)) => Ok(ReturnResult::Required(q)),
                            Ok(MembersResult::Done(members)) => Ok(
                                ReturnResult::Value(
                                    EvaluatorValue::Struct(
                                        Box::new(StructValue { name: name.clone(), members }),
                                    ),
                                ),
                            ),
                        }
                    },
                }
            },
            _ => Err(EvalError::Unsupported),
        }
    }

    /// Evaluates a union: its members in order of location (see [`eval_union_spec`]).
    pub fn eval_union_type(
        &mut self,
        memory_and_registers: &MemoryAndRegisters,
        die: &TypeDie,
        data_offset: u64,
    ) -> (r: Result<ReturnResult, EvalError>)
        requires
            old(self)@.piece_index <= old(self)@.pieces.len(),
        ensures
            same_frame(old(self)@, final(self)@),
            (step_of(r), final(self)@.piece_index) == eval_union_spec(
                ctx_of(old(self)@.pieces, memory_and_registers@),
                *die,
                data_offset,
                old(self)@.piece_index,
            ),
        decreases die, 1nat,
    {
        match die {
            TypeDie::UnionType { name, alignment, children } => {
                match self.check_alignment(*alignment, data_offset) {
                    Err(e) => {
                        return Err(e);
                    },
                    Ok(_) => {},
                }
                let name = match name {
                    None => {
                        return Err(EvalError::MissingAttribute);
                    },
                    Some(n) => n,
                };
                match scan_members_exec(children, false) {
                    MemberScanResult::Members(order) => {
                        match self.eval_members(memory_and_registers, children, &order, data_offset) {
                            Err(e) => Err(e),
                            Ok(MembersResult::Required(q)) => Ok(ReturnResult::Required(q)),
                            Ok(MembersResult::Done(members)) => Ok(
                                ReturnResult::Value(
                                    EvaluatorValue::Union(
                                        Box::new(UnionValue { name: name.clone(), members }),
                                    ),
                                ),
                            ),
                        }
                    },
                    _ => Err(EvalError::MissingAttribute),
                }
            },
            _ => Err(EvalError::Unsupported),
        }
    }

    /// Evaluates a member at its data member location (see [`eval_member_spec`]).
    pub fn eval_member(
        &mut self,
        memory_and_registers: &MemoryAndRegisters,
        die: &TypeDie,
        data_offset: u64,
    ) -> (r: Result<ReturnResult, EvalError>)
        requires
            old(self)@.piece_index <= old(self)@.pieces.len(),
        ensures
            same_frame(old(self)@, final(self)@),
            (step_of(r), final(self)@.piece_index) == eval_member_spec(
                ctx_of(old(self)@.pieces, memory_and_registers@),
                *die,
                data_offset,
                old(self)@.piece_index,
            ),
        decreases die, 1nat,
    {
        match die {
            TypeDie::Member { name, data_member_location, alignment, member_type } => {
                let new_data_offset = match data_member_location {
                    Some(val) => match data_offset.checked_add(*val) {
                        Some(o) => o,
                        None => {
                            return Err(EvalError::Overflow);
                        },
                    },
                    None => data_offset,
                };
                match self.check_alignment(*alignment, new_data_offset) {
                    Err(e) => {
                        return Err(e);
                    },
                    Ok(_) => {},
                }
                let t = match member_type {
                    None => {
                        return Err(EvalError::MissingAttribute);
                    },
                    Some(t) => t,
                };
                match self.eval_type(memory_and_registers, &**t, new_data_offset) {
                    Err(e) => Err(e),
                    Ok(ReturnResult::Required(q)) => Ok(ReturnResult::Required(q)),
                    Ok(ReturnResult::Value(v)) => Ok(
                        ReturnResult::Value(
                            EvaluatorValue::Member(
                                Box::new(MemberValue { name: clone_opt_string(name), value: v }),
                            ),
                        ),
                    ),
                }
            },
            _ => Err(EvalError::Unsupported),
        }
    }

    /// Evaluates an enumeration: the underlying value picks the enumerator
    /// (see [`eval_enum_spec`]).
    pub fn eval_enumeration_type(
        &mut self,
        memory_and_registers: &MemoryAndRegisters,
        die: &TypeDie,
        data_offset: u64,
    ) -> (r: Result<ReturnResult, EvalError>)
        requires
            old(self)@.piece_index <= old(self)@.pieces.len(),
        ensures
            same_frame(old(self)@, final(self)@),
            (step_of(r), final(self)@.piece_index) == eval_enum_spec(
                ctx_of(old(self)@.pieces, memory_and_registers@),
                *die,
                data_offset,
                old(self)@.piece_index,
            ),
        decreases die, 1nat,
    {
        match die {
            TypeDie::EnumerationType { name, alignment, underlying_type, children } => {
                match self.check_alignment(*alignment, data_offset) {
                    Err(e) => {
                        return Err(e);
                    },
                    Ok(_) => {},
                }
                let t = match underlying_type {
                    None => {
                        return Err(EvalError::MissingAttribute);
                    },
                    Some(t) => t,
                };
                let value = match self.eval_type(memory_and_registers, &**t, data_offset) {
                    Err(e) => {
                        return Err(e);
                    },
                    Ok(ReturnResult::Required(q)) => {
                        return Ok(ReturnResult::Required(q));
                    },
                    Ok(ReturnResult::Value(v)) => v,
                };
                if !value.has_base_value() {
                    return Err(EvalError::Unsupported);
                }
                let bv = value.to_value().unwrap();
                if !is_udata(&bv) {
                    return Err(EvalError::Unsupported);
                }
                let value = get_udata(bv);
                let k = match enum_lookup_exec(children, value) {
                    Err(e) => {
                        return Err(e);
                    },
                    Ok(k) => k,
                };
                let name = match name {
                    None => {
                        return Err(EvalError::MissingAttribute);
                    },
                    Some(n) => n,
                };
                assert(enum_lookup(children@, value, 0) == EnumLookup::Found(k as nat));
                match &children[k] {
                    TypeDie::Enumerator { name: Some(e_name), .. } => {
                        assert(enumerator_name(children@[k as int]) == Some(*e_name));
                        let inner = EvaluatorValue::Name(e_name.clone());
                        assert(inner@ == ValueView::Name(e_name@));
                        let r = EvaluatorValue::Enum(
                            Box::new(EnumValue { name: name.clone(), value: inner }),
                        );
                        assert(r@ == ValueView::Enum(name@, Box::new(ValueView::Name(e_name@))));
                        Ok(ReturnResult::Value(r))
                    },
                    _ => Err(EvalError::MissingAttribute),
                }
            },
            _ => Err(EvalError::Unsupported),
        }
    }

    /// Evaluates a subrange: its count, else the value of its type
    /// (see [`eval_subrange_spec`]).
    pub fn eval_subrange_type(
        &mut self,
        memory_and_registers: &MemoryAndRegisters,
        die: &TypeDie,
        data_offset: u64,
    ) -> (r: Result<ReturnResult, EvalError>)
        requires
            old(self)@.piece_index <= old(self)@.pieces.len(),
        ensures
            same_frame(old(self)@, final(self)@),
            (step_of(r), final(self)@.piece_index) == eval_subrange_spec(
                ctx_of(old(self)@.pieces, memory_and_registers@),
                *die,
                data_offset,
                old(self)@.piece_index,
            ),
        decreases die, 1nat,
    {
        match die {
            TypeDie::SubrangeType { count, subrange_type } => match count {
                Some(c) => {
                    let v = EvaluatorValue::Value(BaseValue::U64(*c), Vec::new());
                    assert(v@ == ValueView::Value(BaseValue::U64(*c), seq![]));
                    Ok(ReturnResult::Value(v))
                },
                None => match subrange_type {
                    None => Err(EvalError::MissingAttribute),
                    Some(t) => self.eval_type(memory_and_registers, &**t, data_offset),
                },
            },
            _ => Err(EvalError::Unsupported),
        }
    }

    /// Evaluates a variant part: the discriminant picks the variant
    /// (see [`eval_variant_part_spec`]). A discriminant that matches no
    /// variant is not admitted: callers test for it first with
    /// [`Evaluator::variant_part_has_match`].
    #[verifier::loop_isolation(false)]
    pub fn eval_variant_part(
        &mut self,
        memory_and_registers: &MemoryAndRegisters,
        die: &TypeDie,
        data_offset: u64,
    ) -> (r: Result<ReturnResult, EvalError>)
        requires
            old(self)@.piece_index <= old(self)@.pieces.len(),
            !variant_part_unmatched(
                ctx_of(old(self)@.pieces, memory_and_registers@),
                *die,
                data_offset,
                old(self)@.piece_index,
            ),
        ensures
            same_frame(old(self)@, final(self)@),
            (step_of(r), final(self)@.piece_index) == eval_variant_part_spec(
                ctx_of(old(self)@.pieces, memory_and_registers@),
                *die,
                data_offset,
                old(self)@.piece_index,
            ),
        decreases die, 1nat,
    {
        let ghost ctx = ctx_of(self@.pieces, memory_and_registers@);
        let ghost idx0 = self@.piece_index;
        match die {
            TypeDie::VariantPart { alignment, discr, children } => {
                match self.check_alignment(*alignment, data_offset) {
                    Err(e) => {
                        return Err(e);
                    },
                    Ok(_) => {},
                }
                let d = match discr {
                    None => {
                        return Err(EvalError::MissingAttribute);
                    },
                    Some(d) => d,
                };
                let value = match self.eval_member(memory_and_registers, &**d, data_offset) {
                    Err(e) => {
                        return Err(e);
                    },
                    Ok(ReturnResult::Required(q)) => {
                        return Ok(ReturnResult::Required(q));
                    },
                    Ok(ReturnResult::Value(v)) => v,
                };
                if !value.has_base_value() {
                    return Err(EvalError::Unsupported);
                }
                let bv = value.to_value().unwrap();
                if !is_udata(&bv) {
                    return Err(EvalError::Unsupported);
                }
                let variant = get_udata(bv);
                let n = count_variants_exec(children);
                let mut i: usize = 0;
                while i < children.len()
                    invariant
                        i <= children.len(),
                        n == count_variants(children@),
                        same_frame(old(self)@, self@),
                        self@.piece_index == self@.piece_index,
                        ctx == ctx_of(self@.pieces, memory_and_registers@),
                        eval_variant_part_spec(ctx, *die, data_offset, old(self)@.piece_index)
                            == eval_variants_spec(ctx, children@, i as nat, n as nat, variant, data_offset, self@.piece_index),
                        forall|k: int|
                            0 <= k < i && (#[trigger] children@[k]) is Variant ==> (children@[k]->Variant_discr_value
                                matches Some(dv) && !(n > 0 && dv == variant % (n as u64))),
                    decreases children.len() - i,
                {
                    match &children[i] {
                        TypeDie::Variant { discr_value, .. } => match discr_value {
                            None => {
                                return Err(EvalError::MissingAttribute);
                            },
                            Some(dv) => {
                                if n > 0 && *dv == variant % (n as u64) {
                                    return self.eval_variant(
                                        memory_and_registers,
                                        &children[i],
                                        data_offset,
                                    );
                                }
                            },
                        },
                        _ => {},
                    }
                    i += 1;
                }
                proof {
                    assert(no_variant_matches(children@, variant));
                    assert(variant_part_unmatched(ctx, *die, data_offset, idx0));
                }
                Err(EvalError::NoMatchingVariant)
            },
            _ => Err(EvalError::Unsupported),
        }
    }

    /// Whether the variant part `die` can be evaluated here: false exactly
    /// when its discriminant, read as an unsigned number, matches none of
    /// its variants. When it matches, the evaluator is left as it was; when
    /// it does not, the evaluator stands after the discriminant's pieces, as
    /// the evaluation of the variant part leaves it.
    #[verifier::loop_isolation(false)]
    pub fn variant_part_has_match(
        &mut self,
        memory_and_registers: &MemoryAndRegisters,
        die: &TypeDie,
        data_offset: u64,
    ) -> (r: bool)
        requires
            old(self)@.piece_index <= old(self)@.pieces.len(),
        ensures
            same_frame(old(self)@, final(self)@),
            r == !variant_part_unmatched(
                ctx_of(old(self)@.pieces, memory_and_registers@),
                *die,
                data_offset,
                old(self)@.piece_index,
            ),
            r ==> final(self)@ == old(self)@,
            !r ==> (Err::<Step, EvalError>(EvalError::NoMatchingVariant), final(self)@.piece_index)
                == eval_variant_part_spec(
                ctx_of(old(self)@.pieces, memory_and_registers@),
                *die,
                data_offset,
                old(self)@.piece_index,
            ),
        decreases die, 1nat,
    {
        let ghost ctx = ctx_of(self@.pieces, memory_and_registers@);
        let ghost idx0 = self@.piece_index;
        let start = self.piece_index;
        match die {
            TypeDie::VariantPart { alignment, discr, children } => {
                if self.check_alignment(*alignment, data_offset).is_err() {
                    return true;
                }
                let d = match discr {
                    None => {
                        return true;
                    },
                    Some(d) => d,
                };
                let value = match self.eval_member(memory_and_registers, &**d, data_offset) {
                    Ok(ReturnResult::Value(v)) => v,
                    _ => {
                        self.piece_index = start;
                        assert(self@ =~= old(self)@);
                        return true;
                    },
                };
                if !value.has_base_value() {
                    self.piece_index = start;
                    assert(self@ =~= old(self)@);
                    return true;
                }
                let bv = value.to_value().unwrap();
                if !is_udata(&bv) {
                    self.piece_index = start;
                    assert(self@ =~= old(self)@);
                    return true;
                }
                let variant = get_udata(bv);
                let n = count_variants_exec(children);
                let mut i: usize = 0;
                while i < children.len()
                    invariant
                        i <= children.len(),
                        n == count_variants(children@),
                        same_frame(old(self)@, self@),
                        ctx == ctx_of(self@.pieces, memory_and_registers@),
                        eval_variant_part_spec(ctx, *die, data_offset, old(self)@.piece_index)
                            == eval_variants_spec(ctx, children@, i as nat, n as nat, variant, data_offset, self@.piece_index),
                        forall|k: int|
                            0 <= k < i && (#[trigger] children@[k]) is Variant ==> (children@[k]->Variant_discr_value
                                matches Some(dv) && !(n > 0 && dv == variant % (n as u64))),
                    decreases children.len() - i,
                {
                    match &children[i] {
                        TypeDie::Variant { discr_value, .. } => match discr_value {
                            None => {
                                self.piece_index = start;
                                assert(self@ =~= old(self)@);
                                assert(!no_variant_matches(children@, variant));
                                return true;
                            },
                            Some(dv) => {
                                if n > 0 && *dv == variant % (n as u64) {
                                    self.piece_index = start;
                                    assert(self@ =~= old(self)@);
                                    assert(!no_variant_matches(children@, variant));
                                    return true;
                                }
                            },
                        },
                        _ => {},
                    }
                    i += 1;
                }
                proof {
                    assert(no_variant_matches(children@, variant));
                    let (r0, i1) = eval_member_spec(ctx, **d, data_offset, idx0);
                    lemma_variants_unmatched(ctx, children@, 0, variant, data_offset, i1);
                }
                false
            },
            _ => true,
        }
    }

    /// Evaluates a variant: the value of its member, named by that member
    /// (see [`eval_variant_spec`]).
    pub fn eval_variant(
        &mut self,
        memory_and_registers: &MemoryAndRegisters,
        die: &TypeDie,
        data_offset: u64,
    ) -> (r: Result<ReturnResult, EvalError>)
        requires
            old(self)@.piece_index <= old(self)@.pieces.len(),
        ensures
            same_frame(old(self)@, final(self)@),
            (step_of(r), final(self)@.piece_index) == eval_variant_spec(
                ctx_of(old(self)@.pieces, memory_and_registers@),
                *die,
                data_offset,
                old(self)@.piece_index,
            ),
        decreases die, 1nat,
    {
        match die {
            TypeDie::Variant { alignment, children, .. } => {
                match self.check_alignment(*alignment, data_offset) {
                    Err(e) => {
                        return Err(e);
                    },
                    Ok(_) => {},
                }
                let k = match first_member_exec(children) {
                    None => {
                        return Err(EvalError::Unsupported);
                    },
                    Some(k) => k,
                };
                if k >= children.len() {
                    return Err(EvalError::Unsupported);
                }
                let ghost ctx = ctx_of(old(self)@.pieces, memory_and_registers@);
                let ghost idx = self@.piece_index;
                let res = self.eval_member(memory_and_registers, &children[k], data_offset);
                assert(first_member(children@, 0) == Some(k as nat));
                assert((step_of(res), self@.piece_index) == eval_member_spec(ctx, children@[k as int], data_offset, idx));
                match res {
                    Err(e) => Err(e),
                    Ok(ReturnResult::Required(q)) => Ok(ReturnResult::Required(q)),
                    Ok(ReturnResult::Value(v)) => {
                        assert(member_name(children@[k as int]) == member_name(children[k as int]));
                        match &children[k] {
                            TypeDie::Member { name: Some(nm), .. } => {
                                assert(member_name(children@[k as int]) == Some(*nm));
                                let nm2 = nm.clone();
                                let r = EvaluatorValue::Enum(Box::new(EnumValue { name: nm2, value: v }));
                                assert(r@ == ValueView::Enum(nm@, Box::new(v@)));
                                Ok(ReturnResult::Value(r))
                            },
                            _ => Err(EvalError::MissingAttribute),
                        }
                    },
                }
            },
            _ => Err(EvalError::Unsupported),
        }
    }
}

/// What evaluating with an evaluator's type (or, without one, reading the
/// first piece as a 32-bit address) gives, from the first piece on.
pub open spec fn evaluate_spec(ctx: EvalCtx, stack: Option<TypeDie>) -> (Result<Step, EvalError>, nat) {
    match stack {
        None => handle_eval_piece_spec(ctx, Some(4u64), 0, Some(1u8), 0),
        Some(d) => eval_type_spec(ctx, d, 0, 0),
    }
}

impl Evaluator {
    /// Evaluates the value from the first piece on. Returns `Complete` once
    /// the value is known (and keeps it), or the register or memory range
    /// that must be known first.
    pub fn evaluate(&mut self, memory_and_registers: &MemoryAndRegisters) -> (r: Result<EvaluatorResult, EvalError>)
        ensures
            final(self)@.pieces == old(self)@.pieces,
            final(self)@.stack == old(self)@.stack,
            old(self)@.result is Some ==> r == Ok::<EvaluatorResult, EvalError>(EvaluatorResult::Complete)
                && final(self)@.result == old(self)@.result,
            old(self)@.result is None ==> match evaluate_spec(
                ctx_of(old(self)@.pieces, memory_and_registers@),
                old(self)@.stack,
            ).0 {
                Err(e) => r == Err::<EvaluatorResult, EvalError>(e) && final(self)@.result is None,
                Ok(Step::Value(v)) => r == Ok::<EvaluatorResult, EvalError>(EvaluatorResult::Complete)
                    && final(self)@.result == Some(v),
                Ok(Step::Required(q)) => r == Ok::<EvaluatorResult, EvalError>(q)
                    && final(self)@.result is None,
            },
    {
        self.piece_index = 0;
        if self.result.is_some() {
            return Ok(EvaluatorResult::Complete);
        }
        let stack = self.stack.take();
        let r = match &stack {
            None => self.handle_eval_piece(memory_and_registers, Some(4), 0, Some(1)),
            Some(die) => self.eval_type(memory_and_registers, die, 0),
        };
        self.stack = stack;
        match r {
            Err(e) => Err(e),
            Ok(ReturnResult::Value(v)) => {
                self.result = Some(v);
                Ok(EvaluatorResult::Complete)
            },
            Ok(ReturnResult::Required(q)) => Ok(q),
        }
    }
}

/// A request from the evaluator names something the known memory and
/// registers lack: a register that is not known, or a memory range of which
/// some byte is not known.
pub open spec fn request_is_genuine(mem: MemoryAndRegistersView, q: EvaluatorResult) -> bool {
    match q {
        EvaluatorResult::Complete => false,
        EvaluatorResult::RequireReg(r) => !mem.registers.contains_key(r),
        EvaluatorResult::RequireData { address, num_words } => read_bytes(
            mem.memory,
            address,
            num_words as nat,
        ) is None,
    }
}

pub open spec fn step_genuine(mem: MemoryAndRegistersView, r: Result<Step, EvalError>) -> bool {
    r matches Ok(Step::Required(q)) ==> request_is_genuine(mem, q)
}

pub open spec fn piece_genuine(mem: MemoryAndRegistersView, r: Result<PieceOutcome, EvalError>) -> bool {
    r matches Ok(PieceOutcome::Required(q)) ==> request_is_genuine(mem, q)
}

pub open spec fn members_genuine(mem: MemoryAndRegistersView, r: Result<MembersOutcome, EvalError>) -> bool {
    r matches Ok(MembersOutcome::Required(q)) ==> request_is_genuine(mem, q)
}

proof fn lemma_piece_genuine(ctx: EvalCtx, piece: Piece, bs: u64, off: u64)
    ensures
        piece_genuine(ctx.mem, eval_piece_spec(ctx, piece, bs, off)),
{
}

proof fn lemma_get_bytes_loop_genuine(ctx: EvalCtx, bs: u64, off: u64, bytes: Seq<u8>, idx: nat)
    ensures
        piece_genuine(ctx.mem, get_bytes_loop(ctx, bs, off, bytes, idx).0),
    decreases (ctx.pieces.len() - idx) + (if bytes.len() < bs {
        bs - bytes.len()
    } else {
        0
    }),
{
    if bytes.len() < bs && idx < ctx.pieces.len() {
        let piece = ctx.pieces[idx as int];
        lemma_piece_genuine(ctx, piece, bs, off);
        match eval_piece_spec(ctx, piece, bs, off) {
            Ok(PieceOutcome::Value(nb)) => {
                if !(nb.len() == 0 && piece.size_in_bits is None) {
                    lemma_get_bytes_loop_genuine(
                        ctx,
                        bs,
                        off,
                        bytes + nb,
                        if piece.size_in_bits is Some {
                            idx + 1
                        } else {
                            idx
                        },
                    );
                }
            },
            _ => {},
        }
    }
}

proof fn lemma_handle_genuine(ctx: EvalCtx, bs: Option<u64>, off: u64, enc: Option<u8>, idx: nat)
    ensures
        step_genuine(ctx.mem, handle_eval_piece_spec(ctx, bs, off, enc, idx).0),
{
    if idx < ctx.pieces.len() && bs is Some {
        let off2: u64 = if ctx.pieces.len() > 1 {
            0
        } else {
            off
        };
        let off3: u64 = if ctx.pieces.len() > 1 {
            0
        } else {
            off2
        };
        lemma_get_bytes_loop_genuine(ctx, bs->0, off3, seq![], idx);
    }
}

proof fn lemma_type_genuine(ctx: EvalCtx, die: TypeDie, off: u64, idx: nat)
    ensures
        step_genuine(ctx.mem, eval_type_spec(ctx, die, off, idx).0),
    decreases die, 2nat,
{
    match die {
        TypeDie::BaseType { byte_size, encoding, .. } => {
            lemma_handle_genuine(ctx, byte_size, off, encoding, idx);
        },
        TypeDie::PointerType { .. } => {
            lemma_handle_genuine(ctx, Some(4u64), off, Some(1u8), idx);
        },
        TypeDie::ArrayType { .. } => lemma_array_genuine(ctx, die, off, idx),
        TypeDie::StructureType { .. } => lemma_struct_genuine(ctx, die, off, idx),
        TypeDie::UnionType { .. } => lemma_union_genuine(ctx, die, off, idx),
        TypeDie::Member { .. } => lemma_member_genuine(ctx, die, off, idx),
        TypeDie::EnumerationType { .. } => lemma_enum_genuine(ctx, die, off, idx),
        TypeDie::VariantPart { .. } => lemma_variant_part_genuine(ctx, die, off, idx),
        _ => {},
    }
}

proof fn lemma_array_genuine(ctx: EvalCtx, die: TypeDie, off: u64, idx: nat)
    ensures
        step_genuine(ctx.mem, eval_array_spec(ctx, die, off, idx).0),
    decreases die, 1nat,
{
    match die {
        TypeDie::ArrayType { alignment, element_type, children } => {
            if alignment_spec(ctx.pieces, alignment, off, idx) is Ok && children.len() > 0 {
                let dim = children@[0];
                match dim {
                    TypeDie::SubrangeType { .. } => lemma_subrange_genuine(ctx, dim, off, idx),
                    TypeDie::EnumerationType { .. } => lemma_enum_genuine(ctx, dim, off, idx),
                    _ => {},
                }
                let (r, i1) = match dim {
                    TypeDie::SubrangeType { .. } => eval_subrange_spec(ctx, dim, off, idx),
                    TypeDie::EnumerationType { .. } => eval_enum_spec(ctx, dim, off, idx),
                    _ => (Err(EvalError::Unsupported), idx),
                };
                if let Ok(Step::Value(v)) = r {
                    if let Some(bv) = base_value_of(v) {
                        if let Some(count) = udata_of(bv) {
                            if let Some(et) = element_type {
                                lemma_repeat_genuine(ctx, *et, (count as usize) as nat, off, i1, seq![]);
                            }
                        }
                    }
                }
            }
        },
        _ => {},
    }
}

proof fn lemma_repeat_genuine(ctx: EvalCtx, elem: TypeDie, k: nat, off: u64, idx: nat, acc: Seq<ValueView>)
    ensures
        step_genuine(ctx.mem, eval_repeat_spec(ctx, elem, k, off, idx, acc).0),
    decreases elem, k + 3,
{
    if k > 0 {
        lemma_type_genuine(ctx, elem, off, idx);
        let (r, i1) = eval_type_spec(ctx, elem, off, idx);
        if let Ok(Step::Value(v)) = r {
            lemma_repeat_genuine(ctx, elem, (k - 1) as nat, off, i1, acc.push(v));
        }
    }
}

proof fn lemma_struct_genuine(ctx: EvalCtx, die: TypeDie, off: u64, idx: nat)
    ensures
        step_genuine(ctx.mem, eval_struct_spec(ctx, die, off, idx).0),
    decreases die, 1nat,
{
    match die {
        TypeDie::StructureType { name, alignment, children } => {
            if alignment_spec(ctx.pieces, alignment, off, idx) is Ok && name is Some {
                match scan_members(children@, true, 0, seq![]) {
                    MemberScan::VariantPart(k) => if k < children@.len() {
                        lemma_variant_part_genuine(ctx, children@[k as int], off, idx);
                    },
                    MemberScan::Members(order) => {
                        lemma_members_genuine(ctx, children@, order, 0, off, idx, seq![]);
                    },
                    _ => {},
                }
            }
        },
        _ => {},
    }
}

proof fn lemma_union_genuine(ctx: EvalCtx, die: TypeDie, off: u64, idx: nat)
    ensures
        step_genuine(ctx.mem, eval_union_spec(ctx, die, off, idx).0),
    decreases die, 1nat,
{
    match die {
        TypeDie::UnionType { name, alignment, children } => {
            if alignment_spec(ctx.pieces, alignment, off, idx) is Ok && name is Some {
                match scan_members(children@, false, 0, seq![]) {
                    MemberScan::Members(order) => {
                        lemma_members_genuine(ctx, children@, order, 0, off, idx, seq![]);
                    },
                    _ => {},
                }
            }
        },
        _ => {},
    }
}

proof fn lemma_members_genuine(
    ctx: EvalCtx,
    children: Seq<TypeDie>,
    order: Seq<(u64, usize)>,
    i: nat,
    off: u64,
    idx: nat,
    acc: Seq<ValueView>,
)
    ensures
        members_genuine(ctx.mem, eval_members_spec(ctx, children, order, i, off, idx, acc).0),
    decreases children, order.len() - i,
{
    if i < order.len() {
        let k = order[i as int].1;
        if k < children.len() {
            lemma_member_genuine(ctx, children[k as int], off, idx);
            let (r, i1) = eval_member_spec(ctx, children[k as int], off, idx);
            if let Ok(Step::Value(v)) = r {
                lemma_members_genuine(ctx, children, order, i + 1, off, i1, acc.push(v));
            }
        }
    }
}

proof fn lemma_member_genuine(ctx: EvalCtx, die: TypeDie, off: u64, idx: nat)
    ensures
        step_genuine(ctx.mem, eval_member_spec(ctx, die, off, idx).0),
    decreases die, 1nat,
{
    match die {
        TypeDie::Member { data_member_location, member_type, .. } => {
            let no: int = match data_member_location {
                Some(l) => off + l,
                None => off as int,
            };
            if no <= u64::MAX {
                if let Some(t) = member_type {
                    lemma_type_genuine(ctx, *t, no as u64, idx);
                }
            }
        },
        _ => {},
    }
}

proof fn lemma_enum_genuine(ctx: EvalCtx, die: TypeDie, off: u64, idx: nat)
    ensures
        step_genuine(ctx.mem, eval_enum_spec(ctx, die, off, idx).0),
    decreases die, 1nat,
{
    match die {
        TypeDie::EnumerationType { underlying_type, .. } => {
            if let Some(t) = underlying_type {
                lemma_type_genuine(ctx, *t, off, idx);
            }
        },
        _ => {},
    }
}

proof fn lemma_subrange_genuine(ctx: EvalCtx, die: TypeDie, off: u64, idx: nat)
    ensures
        step_genuine(ctx.mem, eval_subrange_spec(ctx, die, off, idx).0),
    decreases die, 1nat,
{
    match die {
        TypeDie::SubrangeType { subrange_type, .. } => {
            if let Some(t) = subrange_type {
                lemma_type_genuine(ctx, *t, off, idx);
            }
        },
        _ => {},
    }
}

proof fn lemma_variant_part_genuine(ctx: EvalCtx, die: TypeDie, off: u64, idx: nat)
    ensures
        step_genuine(ctx.mem, eval_variant_part_spec(ctx, die, off, idx).0),
    decreases die, 1nat,
{
    match die {
        TypeDie::VariantPart { discr, children, .. } => {
            if let Some(d) = discr {
                lemma_member_genuine(ctx, *d, off, idx);
                let (r, i1) = eval_member_spec(ctx, *d, off, idx);
                if let Ok(Step::Value(v)) = r {
                    if let Some(bv) = base_value_of(v) {
                        if let Some(variant) = udata_of(bv) {
                            lemma_variants_genuine(
                                ctx,
                                children@,
                                0,
                                count_variants(children@),
                                variant,
                                off,
                                i1,
                            );
                        }
                    }
                }
            }
        },
        _ => {},
    }
}

proof fn lemma_variants_genuine(
    ctx: EvalCtx,
    children: Seq<TypeDie>,
    i: nat,
    n: nat,
    variant: u64,
    off: u64,
    idx: nat,
)
    ensures
        step_genuine(ctx.mem, eval_variants_spec(ctx, children, i, n, variant, off, idx).0),
    decreases children, children.len() - i,
{
    if i < children.len() {
        lemma_variant_genuine(ctx, children[i as int], off, idx);
        lemma_variants_genuine(ctx, children, i + 1, n, variant, off, idx);
    }
}

proof fn lemma_variant_genuine(ctx: EvalCtx, die: TypeDie, off: u64, idx: nat)
    ensures
        step_genuine(ctx.mem, eval_variant_spec(ctx, die, off, idx).0),
    decreases die, 1nat,
{
    match die {
        TypeDie::Variant { children, .. } => {
            if let Some(k) = first_member(children@, 0) {
                if k < children@.len() {
                    lemma_member_genuine(ctx, children@[k as int], off, idx);
                }
            }
        },
        _ => {},
    }
}

/// The evaluator asks only for what it lacks: whenever evaluating a type
/// stops for a register or a memory range, that register is not among the
/// known registers, or some byte of that range is not among the known
/// memory bytes; it never asks for nothing.
pub proof fn lemma_requests_are_genuine(ctx: EvalCtx, stack: Option<TypeDie>)
    ensures
        evaluate_spec(ctx, stack).0 matches Ok(Step::Required(q)) ==> request_is_genuine(ctx.mem, q),
{
    match stack {
        None => lemma_handle_genuine(ctx, Some(4u64), 0, Some(1u8), 0),
        Some(d) => lemma_type_genuine(ctx, d, 0, 0),
    }
}

/// Whether `d` is an enumerator with the constant `c`.
pub open spec fn enumerator_with(d: TypeDie, c: u64) -> bool {
    d matches TypeDie::Enumerator { const_value: Some(x), .. } && x == c
}

/// Whether the lookup of an enumerator with constant `c` goes past `d`: a
/// subprogram, or an enumerator with another constant.
pub open spec fn passed_over(d: TypeDie, c: u64) -> bool {
    ||| d is Subprogram
    ||| d matches TypeDie::Enumerator { const_value: Some(x), .. } && x != c
}

proof fn lemma_enum_lookup_from(children: Seq<TypeDie>, value: u64, i: nat)
    requires
        children.len() > 0,
    ensures
        enum_lookup(children, value, i) matches EnumLookup::Found(k) ==> i <= k < children.len()
            && enumerator_with(children[k as int], value % (children.len() as u64)) && forall|j: int|
            i <= j < k ==> passed_over(#[trigger] children[j], value % (children.len() as u64)),
        forall|k: int|
            i <= k < children.len() && enumerator_with(#[trigger] children[k], value % (children.len() as u64))
                && (forall|j: int| i <= j < k ==> passed_over(#[trigger] children[j], value % (children.len() as u64)))
                ==> enum_lookup(children, value, i) == EnumLookup::Found(k as nat),
    decreases children.len() - i,
{
    if i < children.len() {
        lemma_enum_lookup_from(children, value, i + 1);
        let c = value % (children.len() as u64);
        assert forall|k: int|
            i <= k < children.len() && enumerator_with(#[trigger] children[k], c) && (forall|j: int|
                i <= j < k ==> passed_over(#[trigger] children[j], c)) implies enum_lookup(children, value, i)
            == EnumLookup::Found(k as nat) by {
            if k > i {
                assert(passed_over(children[i as int], c));
                assert forall|j: int| i + 1 <= j < k implies passed_over(#[trigger] children[j], c) by {}
            }
        }
    }
}

/// The enumerator that an enumeration value names: the first child that is
/// an enumerator whose constant is the value modulo the number of children,
/// with only subprograms and enumerators of other constants before it; the
/// lookup finds exactly that one.
pub proof fn lemma_enum_lookup_finds_first_match(children: Seq<TypeDie>, value: u64)
    requires
        children.len() > 0,
    ensures
        enum_lookup(children, value, 0) matches EnumLookup::Found(k) ==> k < children.len()
            && enumerator_with(children[k as int], value % (children.len() as u64)) && forall|j: int|
            0 <= j < k ==> passed_over(#[trigger] children[j], value % (children.len() as u64)),
        forall|k: int|
            0 <= k < children.len() && enumerator_with(#[trigger] children[k], value % (children.len() as u64))
                && (forall|j: int| 0 <= j < k ==> passed_over(#[trigger] children[j], value % (children.len() as u64)))
                ==> enum_lookup(children, value, 0) == EnumLookup::Found(k as nat),
{
    lemma_enum_lookup_from(children, value, 0);
}


/// Reading a piece at an address: a piece without a size gives the
/// `byte_size` bytes stored from the piece's address plus the data offset,
/// each the known byte at its address, or asks for that range.
pub proof fn lemma_address_piece_bytes(ctx: EvalCtx, a: u64, byte_size: u64, off: u64)
    requires
        a + off <= u64::MAX,
        byte_size <= usize::MAX,
        !read_runs_past_end(ctx.mem.memory, (a + off) as u32, byte_size as nat),
    ensures
        ({
            let at = (a + off) as u32;
            let piece = Piece { size_in_bits: None, bit_offset: None, location: PieceLocation::Address(a) };
            if forall|j: int| 0 <= j < byte_size ==> at + j <= u32::MAX && #[trigger] ctx.mem.memory.contains_key((at + j) as u32) {
                eval_piece_spec(ctx, piece, byte_size, off) matches Ok(PieceOutcome::Value(b)) && b.len()
                    == byte_size && forall|j: int| 0 <= j < byte_size ==> #[trigger] b[j] == ctx.mem.memory[(at + j) as u32]
            } else {
                eval_piece_spec(ctx, piece, byte_size, off) == Ok::<PieceOutcome, EvalError>(
                    PieceOutcome::Required(EvaluatorResult::RequireData { address: at, num_words: byte_size as usize }),
                )
            }
        }),
{
}


/// Entries ordered by location and, at equal locations, by child index.
pub open spec fn in_member_order(a: (u64, usize), b: (u64, usize)) -> bool {
    a.0 < b.0 || (a.0 == b.0 && a.1 < b.1)
}

pub open spec fn member_sorted(s: Seq<(u64, usize)>) -> bool {
    forall|p: int, q: int| 0 <= p < q < s.len() ==> in_member_order(#[trigger] s[p], #[trigger] s[q])
}

proof fn lemma_insert_by_loc(s: Seq<(u64, usize)>, x: (u64, usize))
    requires
        member_sorted(s),
        forall|q: int| 0 <= q < s.len() ==> (#[trigger] s[q]).1 < x.1,
    ensures
        member_sorted(insert_by_loc(s, x)),
        insert_by_loc(s, x).len() == s.len() + 1,
        forall|e: (u64, usize)| #[trigger] insert_by_loc(s, x).contains(e) <==> (s.contains(e) || e == x),
    decreases s.len(),
{
    if s.len() > 0 && !(s.last().0 <= x.0) {
        let s1 = s.drop_last();
        assert forall|p: int, q: int| 0 <= p < q < s1.len() implies in_member_order(#[trigger] s1[p], #[trigger] s1[q]) by {
            assert(s1[p] == s[p] && s1[q] == s[q]);
        }
        lemma_insert_by_loc(s1, x);
        let r1 = insert_by_loc(s1, x);
        let r = r1.push(s.last());
        assert forall|p: int, q: int| 0 <= p < q < r.len() implies in_member_order(#[trigger] r[p], #[trigger] r[q]) by {
            if q == r.len() - 1 {
                assert(r1.contains(r[p]));
                if r[p] != x {
                    assert(s1.contains(r[p]));
                    let k = choose|k: int| 0 <= k < s1.len() && s1[k] == r[p];
                    assert(s[k] == s1[k]);
                }
            }
        }
        assert forall|e: (u64, usize)| r.contains(e) <==> (s.contains(e) || e == x) by {
            if s.contains(e) {
                let k = choose|k: int| 0 <= k < s.len() && s[k] == e;
                if k < s.len() - 1 {
                    assert(s1[k] == e);
                    assert(s1.contains(e));
                    assert(r1.contains(e));
                    let k2 = choose|k2: int| 0 <= k2 < r1.len() && r1[k2] == e;
                    assert(r[k2] == e);
                } else {
                    assert(r[r.len() - 1] == e);
                }
            }
            if e == x {
                assert(r1.contains(x));
                let k2 = choose|k2: int| 0 <= k2 < r1.len() && r1[k2] == x;
                assert(r[k2] == x);
            }
            if r.contains(e) {
                let k = choose|k: int| 0 <= k < r.len() && r[k] == e;
                if k < r.len() - 1 {
                    assert(r1[k] == e);
                    assert(r1.contains(e));
                    if e != x {
                        assert(s1.contains(e));
                        let k3 = choose|k3: int| 0 <= k3 < s1.len() && s1[k3] == e;
                        assert(s[k3] == e);
                    }
                } else {
                    assert(s[s.len() - 1] == e);
                }
            }
        }
    } else {
        let r = if s.len() == 0 { seq![x] } else { s.push(x) };
        assert(insert_by_loc(s, x) == r);
        assert forall|p: int, q: int| 0 <= p < q < r.len() implies in_member_order(#[trigger] r[p], #[trigger] r[q]) by {
            if q == r.len() - 1 && s.len() > 0 {
                assert(s[p].0 <= s.last().0) by {
                    if p < s.len() - 1 {
                        assert(in_member_order(s[p], s[s.len() - 1]));
                    }
                }
                assert(s[p].1 < x.1);
            }
        }
        assert forall|e: (u64, usize)| r.contains(e) <==> (s.contains(e) || e == x) by {
            if s.contains(e) {
                let k = choose|k: int| 0 <= k < s.len() && s[k] == e;
                assert(r[k] == e);
            }
            if e == x {
                assert(r[r.len() - 1] == x);
            }
            if r.contains(e) {
                let k = choose|k: int| 0 <= k < r.len() && r[k] == e;
                if k < s.len() {
                    assert(s[k] == e);
                }
            }
        }
    }
}

/// Whether `(l, k)` stands for child `k` as a member at location `l`.
pub open spec fn member_entry(children: Seq<TypeDie>, e: (u64, usize)) -> bool {
    &&& (e.1 as int) < children.len()
    &&& children[e.1 as int] matches TypeDie::Member { data_member_location: Some(l), .. }
    &&& l == e.0
}

proof fn lemma_scan_members_from(children: Seq<TypeDie>, stop: bool, i: nat, acc: Seq<(u64, usize)>)
    requires
        i <= children.len(),
        children.len() <= usize::MAX,
        member_sorted(acc),
        forall|q: int| 0 <= q < acc.len() ==> (#[trigger] acc[q]).1 < i,
        forall|e: (u64, usize)| acc.contains(e) <==> (member_entry(children, e) && (e.1 as int) < i),
    ensures
        scan_members(children, stop, i, acc) matches MemberScan::Members(order) ==> member_sorted(order)
            && forall|e: (u64, usize)| order.contains(e) <==> member_entry(children, e),
        scan_members(children, stop, i, acc) matches MemberScan::VariantPart(k) ==> i <= k < children.len()
            && children[k as int] is VariantPart,
    decreases children.len() - i,
{
    if i < children.len() {
        match children[i as int] {
            TypeDie::Member { data_member_location: Some(l), .. } => {
                let x = (l, i as usize);
                lemma_insert_by_loc(acc, x);
                let acc2 = insert_by_loc(acc, x);
                assert forall|q: int| 0 <= q < acc2.len() implies (#[trigger] acc2[q]).1 < i + 1 by {
                    assert(acc2.contains(acc2[q]));
                    if acc2[q] != x {
                        assert(acc.contains(acc2[q]));
                        let k = choose|k: int| 0 <= k < acc.len() && acc[k] == acc2[q];
                    }
                }
                lemma_scan_members_from(children, stop, i + 1, acc2);
            },
            TypeDie::Member { data_member_location: None, .. } => {},
            _ => {
                if !(children[i as int] is VariantPart && stop) {
                    lemma_scan_members_from(children, stop, i + 1, acc);
                }
            },
        }
    } else {
        assert forall|e: (u64, usize)| acc.contains(e) <==> member_entry(children, e) by {}
    }
}

/// The order in which the members of a structure or union are evaluated:
/// every member child exactly once (as its location and its index), sorted
/// by location and, at equal locations, in the order of the children; a
/// structure's value comes from a variant part child when it has one.
pub proof fn lemma_member_order(children: Seq<TypeDie>, stop_at_variant_part: bool)
    requires
        children.len() <= usize::MAX,
    ensures
        scan_members(children, stop_at_variant_part, 0, seq![]) matches MemberScan::Members(order) ==> member_sorted(order)
            && forall|e: (u64, usize)| order.contains(e) <==> member_entry(children, e),
        scan_members(children, stop_at_variant_part, 0, seq![]) matches MemberScan::VariantPart(k)
            ==> k < children.len() && children[k as int] is VariantPart,
{
    lemma_scan_members_from(children, stop_at_variant_part, 0, seq![]);
}


/// The number of variant children is the number of children that are
/// variants.
pub proof fn lemma_count_variants(children: Seq<TypeDie>)
    ensures
        count_variants(children) == children.filter(|d: TypeDie| d is Variant).len(),
    decreases children.len(),
{
    reveal(Seq::filter);
    if children.len() > 0 {
        lemma_count_variants(children.drop_last());
        assert(children.drop_last().push(children.last()) =~= children);
        children.drop_last().lemma_filter_push(children.last(), |d: TypeDie| d is Variant);
    }
}

proof fn lemma_variants_from(
    ctx: EvalCtx,
    children: Seq<TypeDie>,
    i: nat,
    variant: u64,
    off: u64,
    idx: nat,
    k: int,
)
    requires
        i <= k < children.len(),
        count_variants(children) > 0,
        children[k] matches TypeDie::Variant { discr_value: Some(dv), .. } && dv == variant % (count_variants(children) as u64),
        forall|j: int|
            i <= j < k && (#[trigger] children[j]) is Variant ==> (children[j]->Variant_discr_value matches Some(d)
                && d != variant % (count_variants(children) as u64)),
    ensures
        eval_variants_spec(ctx, children, i, count_variants(children), variant, off, idx) == eval_variant_spec(
            ctx,
            children[k],
            off,
            idx,
        ),
    decreases k - i,
{
    if i < k {
        assert(children[i as int] is Variant ==> children[i as int]->Variant_discr_value is Some);
        lemma_variants_from(ctx, children, i + 1, variant, off, idx, k);
    }
}

/// The variant a discriminant picks: the first variant child whose
/// discriminant value is the discriminant modulo the number of variants
/// (earlier variants having other discriminant values) is the one
/// evaluated.
pub proof fn lemma_variant_choice(
    ctx: EvalCtx,
    children: Seq<TypeDie>,
    variant: u64,
    off: u64,
    idx: nat,
    k: int,
)
    requires
        0 <= k < children.len(),
        count_variants(children) > 0,
        children[k] matches TypeDie::Variant { discr_value: Some(dv), .. } && dv == variant % (count_variants(children) as u64),
        forall|j: int|
            0 <= j < k && (#[trigger] children[j]) is Variant ==> (children[j]->Variant_discr_value matches Some(d)
                && d != variant % (count_variants(children) as u64)),
    ensures
        eval_variants_spec(ctx, children, 0, count_variants(children), variant, off, idx) == eval_variant_spec(
            ctx,
            children[k],
            off,
            idx,
        ),
{
    lemma_variants_from(ctx, children, 0, variant, off, idx, k);
}


/// A four-byte unsigned value held in a register: with the register known,
/// the value is the register's value (read from its four little-endian
/// bytes); unknown, the register is asked for.
pub proof fn lemma_register_u32(ctx: EvalCtx, r: u16, name: Option<String>)
    requires
        ctx.pieces == seq![Piece { size_in_bits: None, bit_offset: None, location: PieceLocation::Register(r) }],
    ensures
        eval_type_spec(
            ctx,
            TypeDie::BaseType { name, byte_size: Some(4u64), encoding: Some(7u8), alignment: None },
            0,
            0,
        ).0 == if ctx.mem.registers.contains_key(r) {
            Ok::<Step, EvalError>(Step::Value(ValueView::Value(
                BaseValue::U32(ctx.mem.registers[r]),
                le_bytes(ctx.mem.registers[r] as nat, 4),
            )))
        } else {
            Ok::<Step, EvalError>(Step::Required(EvaluatorResult::RequireReg(r)))
        },
{
    if ctx.mem.registers.contains_key(r) {
        let v = ctx.mem.registers[r];
        let b = le_bytes(v as nat, 4);
        lemma_le_bytes_len(v as nat, 4);
        assert(pow256(4) == 0x1_0000_0000) by {
            reveal_with_fuel(pow256, 5);
        }
        lemma_unsigned_round_trip(v as u64, 4);
        let piece = ctx.pieces[0];
        assert(trim_spec(b, piece, 4) == Ok::<Seq<u8>, EvalError>(b)) by {
            assert(b.take(4) =~= b);
        }
        assert(get_bytes_loop(ctx, 4, 0, b, 0) == (Ok::<PieceOutcome, EvalError>(PieceOutcome::Value(b)), 0nat)) by {
            assert(b.take(4) =~= b);
        }
        assert(seq![] + b =~= b);
    }
}

} // verus!
