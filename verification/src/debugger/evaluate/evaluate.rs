//! The debugger's evaluator of a variable's value along its type DIEs,
//! reading target memory as 32-bit words and asking for the registers and
//! words it lacks, which are then added to it.
use vstd::prelude::*;
use std::collections::HashMap;
use crate::rust_debug::evaluate::evaluate::{
    Piece, PieceLocation, TypeDie, Step, EvaluatorResult, ReturnResult, MembersOutcome, MemberScan,
    MemberScanResult, scan_members, count_variants, first_member, member_name, enumerator_name,
    scan_members_exec, count_variants_exec, first_member_exec, lemma_values_view_push,
    lemma_values_view_empty, clone_opt_string, copy_bytes, enumerator_with, passed_over,
};
use crate::rust_debug::evaluate::value::{
    BaseValue, GimliValue, EvaluatorValue, ValueView, ArrayValue, StructValue, UnionValue,
    EnumValue, MemberValue, base_value_of, udata_of, opt_str_view, values_view, from_gimli_spec,
    convert_from_gimli_value, is_udata, get_udata,
};
use crate::rust_debug::evaluate::base::{base_value_from_word, supported_word_encoding, twos, lemma_word_decoding};

verus! {

/// Why the debugger's evaluator could not give a value.
#[derive(Debug, Clone, Copy, PartialEq, Eq, Structural)]
pub enum EvalError {
    /// A DIE lacks an attribute or child that the evaluation reads.
    MissingAttribute,
    /// A DIE kind, location kind, encoding or size that is not handled.
    Unsupported,
    /// A value stored in memory is not aligned as its type says.
    Misaligned,
    /// An address or size computation leaves the integer range.
    Overflow,
    /// A part of the type that must have a value has none (an enumeration
    /// value that matches no enumerator, a subrange without a type).
    NoValue,
    /// There is no piece to read an address from.
    OutOfPieces,
    /// The discriminant of a variant part matches none of its variants.
    NoMatchingVariant,
}

/// What an evaluation reads: the pieces of the location, and the registers
/// and memory words added to the evaluator.
pub struct WordCtx {
    pub pieces: Seq<Piece>,
    pub registers: Map<u16, u32>,
    pub addresses: Map<u32, u32>,
}

/// What an evaluation step gives, the current piece sizes and the index of
/// the current piece after it.
pub type WordOut = (Result<Option<Step>, EvalError>, Seq<Option<u64>>, nat);

/// The base value of `value` with the encoding and byte size of a base type
/// (none for combinations that are not handled, floats among them).
pub open spec fn word_base_value(value: u64, encoding: u8, byte_size: u64) -> Option<BaseValue> {
    if encoding == 4 {
        None
    } else {
        base_value_from_word(value, encoding, byte_size)
    }
}

/// A base value as the debugger's evaluator gives it (it keeps no bytes).
pub open spec fn plain(bv: BaseValue) -> ValueView {
    ValueView::Value(bv, seq![])
}

/// The value of a register piece.
pub open spec fn register_spec(ctx: WordCtx, register: u16, byte_size: Option<u64>, encoding: Option<u8>) -> Result<Step, EvalError> {
    if ctx.registers.contains_key(register) {
        let val = ctx.registers[register];
        match encoding {
            Some(e) => match word_base_value(
                val as u64,
                e,
                match byte_size {
                    Some(v) => v,
                    None => 4,
                },
            ) {
                Some(bv) => Ok(Step::Value(plain(bv))),
                None => Err(EvalError::Unsupported),
            },
            None => Ok(Step::Value(plain(BaseValue::U32(val)))),
        }
    } else {
        Ok(Step::Required(EvaluatorResult::RequireReg(register)))
    }
}

/// Scanning the `n` words from `base` on, from the `i`th: the first one that
/// is not known, or whose address leaves the 64-bit range.
pub enum WordScan {
    Known,
    Missing(u32),
    Overflow,
}

pub open spec fn scan_words(addresses: Map<u32, u32>, base: int, n: nat, i: nat) -> WordScan
    decreases n - i,
{
    if i >= n {
        WordScan::Known
    } else if base + 4 * i > u64::MAX {
        WordScan::Overflow
    } else if !addresses.contains_key((base + 4 * i) as u32) {
        WordScan::Missing((base + 4 * i) as u32)
    } else {
        scan_words(addresses, base, n, i + 1)
    }
}

/// The `n` words from `base` on.
pub open spec fn words_at(addresses: Map<u32, u32>, base: int, n: nat) -> Seq<u32> {
    Seq::new(n, |i: int| addresses[(base + 4 * i) as u32])
}

/// The value of an address piece: `(byte_size + 3) / 4` words (one without
/// a size) from the word-aligned address `data_offset` (rounded down to a
/// word) past the piece's address, asked for one word at a time.
pub open spec fn address_spec(
    ctx: WordCtx,
    address: u64,
    byte_size: Option<u64>,
    data_offset: u64,
    encoding: Option<u8>,
) -> Result<Step, EvalError> {
    match encoding {
        None => Err(EvalError::MissingAttribute),
        Some(enc) => {
            if byte_size matches Some(v) && v + 3 > u64::MAX {
                Err(EvalError::Overflow)
            } else if address + (data_offset / 4) * 4 > u64::MAX {
                Err(EvalError::Overflow)
            } else {
                let n: nat = match byte_size {
                    Some(v) => ((v + 3) / 4) as nat,
                    None => 1,
                };
                let a = address + (data_offset / 4) * 4;
                let base = a - a % 4;
                match scan_words(ctx.addresses, base, n, 0) {
                    WordScan::Overflow => Err(EvalError::Overflow),
                    WordScan::Missing(w) => Ok(
                        Step::Required(EvaluatorResult::RequireData { address: w, num_words: 1 }),
                    ),
                    WordScan::Known => match byte_size {
                        None => Err(EvalError::MissingAttribute),
                        Some(bs) => if bs == 0 || n > 2 {
                            Err(EvalError::Unsupported)
                        } else {
                            match word_base_value(words_as_u64(words_at(ctx.addresses, base, n)), enc, bs) {
                                Some(bv) => Ok(Step::Value(plain(bv))),
                                None => Err(EvalError::Unsupported),
                            }
                        },
                    },
                }
            }
        },
    }
}

/// The value of a piece that holds a computed value.
pub open spec fn gimli_value_spec(value: GimliValue, byte_size: Option<u64>, encoding: Option<u8>) -> Result<Step, EvalError> {
    match value {
        GimliValue::Generic(val) => match encoding {
            Some(e) => match word_base_value(
                val,
                e,
                match byte_size {
                    Some(v) => v,
                    None => 8,
                },
            ) {
                Some(bv) => Ok(Step::Value(plain(bv))),
                None => Err(EvalError::Unsupported),
            },
            None => Ok(Step::Value(plain(from_gimli_spec(value)))),
        },
        _ => Ok(Step::Value(plain(from_gimli_spec(value)))),
    }
}

/// The value of one piece.
pub open spec fn piece_spec(
    ctx: WordCtx,
    piece: Piece,
    byte_size: Option<u64>,
    data_offset: u64,
    encoding: Option<u8>,
) -> Result<Step, EvalError> {
    match piece.location {
        PieceLocation::Empty => Ok(Step::Value(ValueView::OptimizedOut)),
        PieceLocation::Register(r) => register_spec(ctx, r, byte_size, encoding),
        PieceLocation::Address(a) => address_spec(ctx, a, byte_size, data_offset, encoding),
        PieceLocation::Value(v) => gimli_value_spec(v, byte_size, encoding),
        PieceLocation::Bytes(b) => Ok(Step::Value(ValueView::Bytes(b@))),
        PieceLocation::ImplicitPointer => Err(EvalError::Unsupported),
    }
}

/// Reads the current piece and uses up the bits read: a piece with a size
/// loses `8 * byte_size` bits (32 without a byte size) and is left behind
/// when none remain. Sizes beyond the `i32` range are refused.
pub open spec fn handle_spec(
    ctx: WordCtx,
    sizes: Seq<Option<u64>>,
    idx: nat,
    byte_size: Option<u64>,
    data_offset: u64,
    encoding: Option<u8>,
) -> WordOut {
    if idx >= ctx.pieces.len() {
        (Ok(Some(Step::Value(ValueView::OptimizedOut))), sizes, idx)
    } else {
        let off: u64 = if ctx.pieces.len() > 1 {
            0
        } else {
            data_offset
        };
        match piece_spec(ctx, ctx.pieces[idx as int], byte_size, off, encoding) {
            Err(e) => (Err(e), sizes, idx),
            Ok(Step::Required(q)) => (Ok(Some(Step::Required(q))), sizes, idx),
            Ok(Step::Value(v)) => match sizes[idx as int] {
                None => (Ok(Some(Step::Value(v))), sizes, idx),
                Some(val) => {
                    if (byte_size matches Some(b) && b * 8 > i32::MAX) || val > i32::MAX {
                        (Err(EvalError::Overflow), sizes, idx)
                    } else {
                        let bits: int = match byte_size {
                            Some(b) => b * 8,
                            None => 32,
                        };
                        if val - bits < 1 {
                            (Ok(Some(Step::Value(v))), sizes.update(idx as int, Some(0u64)), idx + 1)
                        } else {
                            (
                                Ok(Some(Step::Value(v))),
                                sizes.update(idx as int, Some((val - bits) as u64)),
                                idx,
                            )
                        }
                    }
                },
            },
        }
    }
}

/// The alignment check: a value stored at an address (moved on by whole
/// words of `data_offset`, rounded down to a word) must be a multiple of the
/// alignment.
pub open spec fn align_spec(pieces: Seq<Piece>, alignment: Option<u64>, data_offset: u64, idx: nat) -> Result<(), EvalError> {
    match alignment {
        None => Ok(()),
        Some(al) => if idx >= pieces.len() {
            Ok(())
        } else {
            match pieces[idx as int].location {
                PieceLocation::Address(address) => {
                    let a = address + (data_offset / 4) * 4;
                    if a > u64::MAX {
                        Err(EvalError::Overflow)
                    } else if al == 0 || (a - a % 4) % (al as int) != 0 {
                        Err(EvalError::Misaligned)
                    } else {
                        Ok(())
                    }
                },
                _ => Ok(()),
            }
        },
    }
}

/// The unsigned number a value holds, if any.
pub open spec fn udata_value(v: ValueView) -> Option<u64> {
    match base_value_of(v) {
        Some(bv) => udata_of(bv),
        None => None,
    }
}

/// Looking for the enumerator whose constant is `value`, from child `i` on.
pub enum ExactLookup {
    Found(nat),
    NotFound,
    Error(EvalError),
}

pub open spec fn exact_lookup(children: Seq<TypeDie>, value: u64, i: nat) -> ExactLookup
    decreases children.len() - i,
{
    if i >= children.len() {
        ExactLookup::NotFound
    } else {
        match children[i as int] {
            TypeDie::Enumerator { const_value, .. } => match const_value {
                None => ExactLookup::Error(EvalError::MissingAttribute),
                Some(c) => if c == value {
                    ExactLookup::Found(i)
                } else {
                    exact_lookup(children, value, i + 1)
                },
            },
            TypeDie::Subprogram => exact_lookup(children, value, i + 1),
            _ => ExactLookup::Error(EvalError::Unsupported),
        }
    }
}

/// What a sub-evaluation that must have a value gives to the one above it.
pub open spec fn needs_value(r: Result<Option<Step>, EvalError>) -> Result<Step, EvalError> {
    match r {
        Err(e) => Err(e),
        Ok(None) => Err(EvalError::NoValue),
        Ok(Some(s)) => Ok(s),
    }
}



/// The value of a type DIE at `data_offset` bytes into the variable, reading
/// pieces from index `idx` on with the piece sizes `sizes`; `None` where the
/// type gives no value.
pub open spec fn type_spec(ctx: WordCtx, die: TypeDie, off: u64, sizes: Seq<Option<u64>>, idx: nat) -> WordOut
    decreases die, 2nat,
{
    match die {
        TypeDie::BaseType { .. } => basetype_spec(ctx, die, off, sizes, idx),
        TypeDie::PointerType { .. } => pointer_spec(ctx, die, off, sizes, idx),
        TypeDie::ArrayType { .. } => array_spec(ctx, die, off, sizes, idx),
        TypeDie::StructureType { .. } => struct_spec(ctx, die, off, sizes, idx),
        TypeDie::UnionType { .. } => union_spec(ctx, die, off, sizes, idx),
        TypeDie::Member { .. } => member_spec(ctx, die, off, sizes, idx),
        TypeDie::EnumerationType { .. } => enum_spec(ctx, die, off, sizes, idx),
        TypeDie::VariantPart { .. } => variant_part_spec(ctx, die, off, sizes, idx),
        _ => (Err(EvalError::Unsupported), sizes, idx),
    }
}

pub open spec fn basetype_spec(ctx: WordCtx, die: TypeDie, off: u64, sizes: Seq<Option<u64>>, idx: nat) -> WordOut {
    match die {
        TypeDie::BaseType { byte_size, encoding, alignment, .. } => match align_spec(ctx.pieces, alignment, off, idx) {
            Err(e) => (Err(e), sizes, idx),
            Ok(_) => if byte_size == Some(0u64) {
                (Ok(Some(Step::Value(ValueView::ZeroSize))), sizes, idx)
            } else {
                handle_spec(ctx, sizes, idx, byte_size, off, encoding)
            },
        },
        _ => (Err(EvalError::Unsupported), sizes, idx),
    }
}

pub open spec fn pointer_spec(ctx: WordCtx, die: TypeDie, off: u64, sizes: Seq<Option<u64>>, idx: nat) -> WordOut {
    match die {
        TypeDie::PointerType { address_class, alignment } => match align_spec(ctx.pieces, alignment, off, idx) {
            Err(e) => (Err(e), sizes, idx),
            Ok(_) => match address_class {
                None => (Err(EvalError::MissingAttribute), sizes, idx),
                Some(c) => if c == 0 {
                    handle_spec(ctx, sizes, idx, Some(4u64), off, Some(1u8))
                } else {
                    (Err(EvalError::Unsupported), sizes, idx)
                },
            },
        },
        _ => (Err(EvalError::Unsupported), sizes, idx),
    }
}

/// An array: its length from the first dimension, then the element type
/// that many times.
pub open spec fn array_spec(ctx: WordCtx, die: TypeDie, off: u64, sizes: Seq<Option<u64>>, idx: nat) -> WordOut
    decreases die, 1nat,
{
    match die {
        TypeDie::ArrayType { alignment, element_type, children } => match align_spec(ctx.pieces, alignment, off, idx) {
            Err(e) => (Err(e), sizes, idx),
            Ok(_) => if children.len() == 0 {
                (Err(EvalError::MissingAttribute), sizes, idx)
            } else {
                let dim = children@[0];
                let (r, s1, i1) = match dim {
                    TypeDie::SubrangeType { .. } => subrange_spec(ctx, dim, off, sizes, idx),
                    TypeDie::EnumerationType { .. } => enum_spec(ctx, dim, off, sizes, idx),
                    _ => (Err(EvalError::Unsupported), sizes, idx),
                };
                match needs_value(r) {
                    Err(e) => (Err(e), s1, i1),
                    Ok(Step::Required(q)) => (Ok(Some(Step::Required(q))), s1, i1),
                    Ok(Step::Value(v)) => match udata_value(v) {
                        None => (Err(EvalError::Unsupported), s1, i1),
                        Some(count) => match element_type {
                            None => (Err(EvalError::MissingAttribute), s1, i1),
                            Some(et) => repeat_spec(ctx, *et, (count as usize) as nat, off, s1, i1, seq![]),
                        },
                    },
                }
            },
        },
        _ => (Err(EvalError::Unsupported), sizes, idx),
    }
}

/// Evaluates the element type `k` more times, each at the same offset.
pub open spec fn repeat_spec(
    ctx: WordCtx,
    elem: TypeDie,
    k: nat,
    off: u64,
    sizes: Seq<Option<u64>>,
    idx: nat,
    acc: Seq<ValueView>,
) -> WordOut
    decreases elem, k + 3,
{
    if k == 0 {
        (Ok(Some(Step::Value(ValueView::Array(acc)))), sizes, idx)
    } else {
        let (r, s1, i1) = type_spec(ctx, elem, off, sizes, idx);
        match needs_value(r) {
            Err(e) => (Err(e), s1, i1),
            Ok(Step::Required(q)) => (Ok(Some(Step::Required(q))), s1, i1),
            Ok(Step::Value(v)) => repeat_spec(ctx, elem, (k - 1) as nat, off, s1, i1, acc.push(v)),
        }
    }
}

/// A structure: its name, then the value of its variant part if it has
/// one (a structure that is an enum), else its members in order of location.
pub open spec fn struct_spec(ctx: WordCtx, die: TypeDie, off: u64, sizes: Seq<Option<u64>>, idx: nat) -> WordOut
    decreases die, 1nat,
{
    match die {
        TypeDie::StructureType { name, alignment, children } => match name {
            None => (Err(EvalError::MissingAttribute), sizes, idx),
            Some(n) => match align_spec(ctx.pieces, alignment, off, idx) {
                Err(e) => (Err(e), sizes, idx),
                Ok(_) => match scan_members(children@, true, 0, seq![]) {
                    MemberScan::VariantPart(k) => if k < children@.len() {
                        let (r, s1, i1) = variant_part_spec(ctx, children@[k as int], off, sizes, idx);
                        match needs_value(r) {
                            Err(e) => (Err(e), s1, i1),
                            Ok(Step::Required(q)) => (Ok(Some(Step::Required(q))), s1, i1),
                            Ok(Step::Value(v)) => (Ok(Some(Step::Value(ValueView::Struct(n@, seq![v])))), s1, i1),
                        }
                    } else {
                        (Err(EvalError::Unsupported), sizes, idx)
                    },
                    MemberScan::MissingLocation => (Err(EvalError::MissingAttribute), sizes, idx),
                    MemberScan::Members(order) => {
                        let (r, s1, i1) = members_spec(ctx, children@, order, 0, off, sizes, idx, seq![]);
                        match r {
                            Err(e) => (Err(e), s1, i1),
                            Ok(MembersOutcome::Required(q)) => (Ok(Some(Step::Required(q))), s1, i1),
                            Ok(MembersOutcome::Done(vs)) => (Ok(Some(Step::Value(ValueView::Struct(n@, vs)))), s1, i1),
                        }
                    },
                },
            },
        },
        _ => (Err(EvalError::Unsupported), sizes, idx),
    }
}

/// A union: its name, then its members in order of location.
pub open spec fn union_spec(ctx: WordCtx, die: TypeDie, off: u64, sizes: Seq<Option<u64>>, idx: nat) -> WordOut
    decreases die, 1nat,
{
    match die {
        TypeDie::UnionType { name, alignment, children } => match name {
            None => (Err(EvalError::MissingAttribute), sizes, idx),
            Some(n) => match align_spec(ctx.pieces, alignment, off, idx) {
                Err(e) => (Err(e), sizes, idx),
                Ok(_) => match scan_members(children@, false, 0, seq![]) {
                    MemberScan::Members(order) => {
                        let (r, s1, i1) = members_spec(ctx, children@, order, 0, off, sizes, idx, seq![]);
                        match r {
                            Err(e) => (Err(e), s1, i1),
                            Ok(MembersOutcome::Required(q)) => (Ok(Some(Step::Required(q))), s1, i1),
                            Ok(MembersOutcome::Done(vs)) => (Ok(Some(Step::Value(ValueView::Union(n@, vs)))), s1, i1),
                        }
                    },
                    _ => (Err(EvalError::MissingAttribute), sizes, idx),
                },
            },
        },
        _ => (Err(EvalError::Unsupported), sizes, idx),
    }
}

/// The members `order[i..]` (indices into `children`) in turn.
pub open spec fn members_spec(
    ctx: WordCtx,
    children: Seq<TypeDie>,
    order: Seq<(u64, usize)>,
    i: nat,
    off: u64,
    sizes: Seq<Option<u64>>,
    idx: nat,
    acc: Seq<ValueView>,
) -> (Result<MembersOutcome, EvalError>, Seq<Option<u64>>, nat)
    decreases children, order.len() - i,
{
    if i >= order.len() {
        (Ok(MembersOutcome::Done(acc)), sizes, idx)
    } else {
        let k = order[i as int].1;
        if k >= children.len() {
            (Err(EvalError::Unsupported), sizes, idx)
        } else {
            let (r, s1, i1) = member_spec(ctx, children[k as int], off, sizes, idx);
            match needs_value(r) {
                Err(e) => (Err(e), s1, i1),
                Ok(Step::Required(q)) => (Ok(MembersOutcome::Required(q)), s1, i1),
                Ok(Step::Value(v)) => members_spec(ctx, children, order, i + 1, off, s1, i1, acc.push(v)),
            }
        }
    }
}

/// A member: the value of its type at its location, with its name.
pub open spec fn member_spec(ctx: WordCtx, die: TypeDie, off: u64, sizes: Seq<Option<u64>>, idx: nat) -> WordOut
    decreases die, 1nat,
{
    match die {
        TypeDie::Member { name, data_member_location, alignment, member_type } => {
            let no: int = match data_member_location {
                Some(l) => off + l,
                None => off as int,
            };
            if no > u64::MAX {
                (Err(EvalError::Overflow), sizes, idx)
            } else {
                match align_spec(ctx.pieces, alignment, no as u64, idx) {
                    Err(e) => (Err(e), sizes, idx),
                    Ok(_) => match member_type {
                        None => (Err(EvalError::MissingAttribute), sizes, idx),
                        Some(t) => {
                            let (r, s1, i1) = type_spec(ctx, *t, no as u64, sizes, idx);
                            match needs_value(r) {
                                Err(e) => (Err(e), s1, i1),
                                Ok(Step::Required(q)) => (Ok(Some(Step::Required(q))), s1, i1),
                                Ok(Step::Value(v)) => (
                                    Ok(Some(Step::Value(ValueView::Member(opt_str_view(name), Box::new(v))))),
                                    s1,
                                    i1,
                                ),
                            }
                        },
                    },
                }
            }
        },
        _ => (Err(EvalError::Unsupported), sizes, idx),
    }
}

/// An enumeration: the first enumerator whose constant equals the value of
/// the underlying type; no value when none does.
pub open spec fn enum_spec(ctx: WordCtx, die: TypeDie, off: u64, sizes: Seq<Option<u64>>, idx: nat) -> WordOut
    decreases die, 1nat,
{
    match die {
        TypeDie::EnumerationType { name, alignment, underlying_type, children } => match align_spec(ctx.pieces, alignment, off, idx) {
            Err(e) => (Err(e), sizes, idx),
            Ok(_) => match underlying_type {
                None => (Err(EvalError::MissingAttribute), sizes, idx),
                Some(t) => {
                    let (r, s1, i1) = type_spec(ctx, *t, off, sizes, idx);
                    match needs_value(r) {
                        Err(e) => (Err(e), s1, i1),
                        Ok(Step::Required(q)) => (Ok(Some(Step::Required(q))), s1, i1),
                        Ok(Step::Value(v)) => match udata_value(v) {
                            None => (Err(EvalError::Unsupported), s1, i1),
                            Some(value) => match exact_lookup(children@, value, 0) {
                                ExactLookup::Error(e) => (Err(e), s1, i1),
                                ExactLookup::NotFound => (Ok(None), s1, i1),
                                ExactLookup::Found(k) => match name {
                                    None => (Err(EvalError::MissingAttribute), s1, i1),
                                    Some(n) => match enumerator_name(children@[k as int]) {
                                        None => (Err(EvalError::MissingAttribute), s1, i1),
                                        Some(en) => (
                                            Ok(Some(Step::Value(ValueView::Enum(n@, Box::new(ValueView::Name(en@)))))),
                                            s1,
                                            i1,
                                        ),
                                    },
                                },
                            },
                        },
                    }
                },
            },
        },
        _ => (Err(EvalError::Unsupported), sizes, idx),
    }
}

/// A subrange: its count, else the value of its type; no value without
/// either.
pub open spec fn subrange_spec(ctx: WordCtx, die: TypeDie, off: u64, sizes: Seq<Option<u64>>, idx: nat) -> WordOut
    decreases die, 1nat,
{
    match die {
        TypeDie::SubrangeType { count, subrange_type } => match count {
            Some(c) => (Ok(Some(Step::Value(plain(BaseValue::U64(c))))), sizes, idx),
            None => match subrange_type {
                None => (Ok(None), sizes, idx),
                Some(t) => type_spec(ctx, *t, off, sizes, idx),
            },
        },
        _ => (Err(EvalError::Unsupported), sizes, idx),
    }
}

/// A variant part: the discriminant member's value picks the first variant
/// whose discriminant value is it modulo the number of variants.
pub open spec fn variant_part_spec(ctx: WordCtx, die: TypeDie, off: u64, sizes: Seq<Option<u64>>, idx: nat) -> WordOut
    decreases die, 1nat,
{
    match die {
        TypeDie::VariantPart { alignment, discr, children } => match align_spec(ctx.pieces, alignment, off, idx) {
            Err(e) => (Err(e), sizes, idx),
            Ok(_) => match discr {
                None => (Err(EvalError::MissingAttribute), sizes, idx),
                Some(d) => {
                    let (r, s1, i1) = member_spec(ctx, *d, off, sizes, idx);
                    match needs_value(r) {
                        Err(e) => (Err(e), s1, i1),
                        Ok(Step::Required(q)) => (Ok(Some(Step::Required(q))), s1, i1),
                        Ok(Step::Value(v)) => match udata_value(v) {
                            None => (Err(EvalError::Unsupported), s1, i1),
                            Some(variant) => variants_spec(ctx, children@, 0, count_variants(children@), variant, off, s1, i1),
                        },
                    }
                },
            },
        },
        _ => (Err(EvalError::Unsupported), sizes, idx),
    }
}

pub open spec fn variants_spec(
    ctx: WordCtx,
    children: Seq<TypeDie>,
    i: nat,
    n: nat,
    variant: u64,
    off: u64,
    sizes: Seq<Option<u64>>,
    idx: nat,
) -> WordOut
    decreases children, children.len() - i,
{
    if i >= children.len() {
        (Err(EvalError::NoMatchingVariant), sizes, idx)
    } else {
        match children[i as int] {
            TypeDie::Variant { discr_value, .. } => match discr_value {
                None => (Err(EvalError::MissingAttribute), sizes, idx),
                Some(dv) => if n > 0 && dv == variant % (n as u64) {
                    variant_spec(ctx, children[i as int], off, sizes, idx)
                } else {
                    variants_spec(ctx, children, i + 1, n, variant, off, sizes, idx)
                },
            },
            _ => variants_spec(ctx, children, i + 1, n, variant, off, sizes, idx),
        }
    }
}

/// A variant: the value of its first member, named by that member.
pub open spec fn variant_spec(ctx: WordCtx, die: TypeDie, off: u64, sizes: Seq<Option<u64>>, idx: nat) -> WordOut
    decreases die, 1nat,
{
    match die {
        TypeDie::Variant { alignment, children, .. } => match align_spec(ctx.pieces, alignment, off, idx) {
            Err(e) => (Err(e), sizes, idx),
            Ok(_) => match first_member(children@, 0) {
                None => (Err(EvalError::Unsupported), sizes, idx),
                Some(k) => if k < children@.len() {
                    let (r, s1, i1) = member_spec(ctx, children@[k as int], off, sizes, idx);
                    match needs_value(r) {
                        Err(e) => (Err(e), s1, i1),
                        Ok(Step::Required(q)) => (Ok(Some(Step::Required(q))), s1, i1),
                        Ok(Step::Value(v)) => match member_name(children@[k as int]) {
                            None => (Err(EvalError::MissingAttribute), s1, i1),
                            Some(nm) => (Ok(Some(Step::Value(ValueView::Enum(nm@, Box::new(v))))), s1, i1),
                        },
                    }
                } else {
                    (Err(EvalError::Unsupported), sizes, idx)
                },
            },
        },
        _ => (Err(EvalError::Unsupported), sizes, idx),
    }
}

/// No variant child matches `variant`: every variant has a discriminant
/// value, and none is `variant` modulo the number of variants.
pub open spec fn no_variant_matches(children: Seq<TypeDie>, variant: u64) -> bool {
    forall|k: int|
        0 <= k < children.len() && (#[trigger] children[k]) is Variant ==> (children[k]->Variant_discr_value
            matches Some(dv) && !(count_variants(children) > 0 && dv == variant % (count_variants(
            children,
        ) as u64)))
}

/// A variant part whose discriminant is read and matches none of its
/// variants.
pub open spec fn variant_part_unmatched(ctx: WordCtx, die: TypeDie, off: u64, sizes: Seq<Option<u64>>, idx: nat) -> bool {
    match die {
        TypeDie::VariantPart { alignment, discr, children } => {
            &&& align_spec(ctx.pieces, alignment, off, idx) is Ok
            &&& discr matches Some(d) && {
                let r = member_spec(ctx, *d, off, sizes, idx).0;
                &&& r matches Ok(Some(Step::Value(v)))
                &&& udata_value(r->Ok_0->Some_0->Value_0) matches Some(variant)
                &&& no_variant_matches(children@, variant)
            }
        },
        _ => false,
    }
}

/// The initial piece sizes: those of the pieces.
pub open spec fn initial_sizes(pieces: Seq<Piece>) -> Seq<Option<u64>> {
    Seq::new(pieces.len(), |i: int| pieces[i].size_in_bits)
}

/// What evaluating from the first piece gives: the value of the type, or
/// without a type the first piece read as a 32-bit address.
pub open spec fn evaluate_spec(ctx: WordCtx, stack: Option<TypeDie>) -> Result<Step, EvalError> {
    match stack {
        None => if ctx.pieces.len() == 0 {
            Err(EvalError::OutOfPieces)
        } else {
            piece_spec(ctx, ctx.pieces[0], Some(4u64), 0, Some(1u8))
        },
        Some(d) => needs_value(type_spec(ctx, d, 0, initial_sizes(ctx.pieces), 0).0),
    }
}

/// The state of an [`Evaluator`].
pub struct EvaluatorView {
    pub pieces: Seq<Piece>,
    pub sizes: Seq<Option<u64>>,
    pub piece_index: nat,
    pub stack: Option<TypeDie>,
    pub result: Option<ValueView>,
    pub registers: Map<u16, u32>,
    pub addresses: Map<u32, u32>,
}

/// Evaluates the value of a variable from the pieces of its location and
/// its type, with the registers and memory words added to it.
pub struct Evaluator {
    pieces: Vec<Piece>,
    sizes: Vec<Option<u64>>,
    piece_index: usize,
    stack: Option<TypeDie>,
    result: Option<EvaluatorValue>,
    registers: HashMap<u16, u32>,
    addresses: HashMap<u32, u32>,
}

impl View for Evaluator {
    type V = EvaluatorView;

    closed spec fn view(&self) -> EvaluatorView {
        EvaluatorView {
            pieces: self.pieces@,
            sizes: self.sizes@,
            piece_index: self.piece_index as nat,
            stack: self.stack,
            result: match self.result {
                Some(v) => Some(v@),
                None => None,
            },
            registers: self.registers@,
            addresses: self.addresses@,
        }
    }
}

/// What the evaluation of an evaluator in state `v` reads.
pub open spec fn ctx_of(v: EvaluatorView) -> WordCtx {
    WordCtx { pieces: v.pieces, registers: v.registers, addresses: v.addresses }
}

/// The piece sizes match the pieces, and the current piece is within them.
pub open spec fn in_frame(v: EvaluatorView) -> bool {
    &&& v.sizes.len() == v.pieces.len()
    &&& v.piece_index <= v.pieces.len()
}

/// `new` is `old` with at most the piece sizes and index changed, still in
/// frame.
pub open spec fn moved_on(old: EvaluatorView, new: EvaluatorView) -> bool {
    &&& new.pieces == old.pieces
    &&& new.stack == old.stack
    &&& new.result == old.result
    &&& new.registers == old.registers
    &&& new.addresses == old.addresses
    &&& in_frame(new)
}

/// A step result taken as a [`Step`].
pub open spec fn step_view(r: Result<ReturnResult, EvalError>) -> Result<Step, EvalError> {
    match r {
        Ok(ReturnResult::Value(v)) => Ok(Step::Value(v@)),
        Ok(ReturnResult::Required(q)) => Ok(Step::Required(q)),
        Err(e) => Err(e),
    }
}

/// A type evaluation result taken as an optional [`Step`].
pub open spec fn opt_step_view(r: Result<Option<ReturnResult>, EvalError>) -> Result<Option<Step>, EvalError> {
    match r {
        Ok(Some(ReturnResult::Value(v))) => Ok(Some(Step::Value(v@))),
        Ok(Some(ReturnResult::Required(q))) => Ok(Some(Step::Required(q))),
        Ok(None) => Ok(None),
        Err(e) => Err(e),
    }
}

/// Evaluated members, or the request that stopped them.
pub enum MembersResult {
    Done(Vec<EvaluatorValue>),
    Required(EvaluatorResult),
}

pub open spec fn members_view(r: Result<MembersResult, EvalError>) -> Result<MembersOutcome, EvalError> {
    match r {
        Ok(MembersResult::Done(vs)) => Ok(MembersOutcome::Done(values_view(vs@))),
        Ok(MembersResult::Required(q)) => Ok(MembersOutcome::Required(q)),
        Err(e) => Err(e),
    }
}

/// The base value of a word value with a base type's encoding and size
/// (see [`word_base_value`]).
pub(crate) fn base_value_of_word(value: u64, encoding: u8, byte_size: u64) -> (r: Option<BaseValue>)
    ensures
        r == word_base_value(value, encoding, byte_size),
{
    if encoding == 4 {
        None
    } else if encoding == 1 && byte_size == 4 {
        Some(BaseValue::Address32(value as u32))
    } else if encoding == 2 && byte_size == 1 {
        Some(BaseValue::Bool((value as u8) == 1))
    } else if encoding == 5 && byte_size == 1 {
        Some(BaseValue::I8(value as i8))
    } else if encoding == 5 && byte_size == 2 {
        Some(BaseValue::I16(value as i16))
    } else if encoding == 5 && byte_size == 4 {
        Some(BaseValue::I32(value as i32))
    } else if encoding == 5 && byte_size == 8 {
        Some(BaseValue::I64(value as i64))
    } else if encoding == 7 && byte_size == 1 {
        Some(BaseValue::U8(value as u8))
    } else if encoding == 7 && byte_size == 2 {
        Some(BaseValue::U16(value as u16))
    } else if encoding == 7 && byte_size == 4 {
        Some(BaseValue::U32(value as u32))
    } else if encoding == 7 && byte_size == 8 {
        Some(BaseValue::U64(value))
    } else {
        None
    }
}

/// Decodes a base-type value from one or two words (the first the more
/// significant) with the given encoding and byte size.
pub fn eval_base_type(data: &[u32], encoding: u8, byte_size: u64) -> (r: BaseValue)
    requires
        1 <= data@.len() <= 2,
        word_base_value(words_as_u64(data@), encoding, byte_size) is Some,
    ensures
        Some(r) == word_base_value(words_as_u64(data@), encoding, byte_size),
{
    let value = slize_as_u64(data);
    base_value_of_word(value, encoding, byte_size).unwrap()
}

/// Looks for the first enumerator whose constant is `value` (see
/// [`exact_lookup`]).
fn exact_lookup_exec(children: &Vec<TypeDie>, value: u64) -> (r: Result<Option<usize>, EvalError>)
    ensures
        match exact_lookup(children@, value, 0) {
            ExactLookup::Found(k) => r matches Ok(Some(j)) && j == k && j < children@.len(),
            ExactLookup::NotFound => r == Ok::<Option<usize>, EvalError>(None),
            ExactLookup::Error(e) => r == Err::<Option<usize>, EvalError>(e),
        },
{
    proof {
        lemma_exact_lookup_in_range(children@, value, 0);
    }
    let mut i: usize = 0;
    while i < children.len()
        invariant
            i <= children.len(),
            exact_lookup(children@, value, i as nat) == exact_lookup(children@, value, 0),
        decreases children.len() - i,
    {
        match &children[i] {
            TypeDie::Enumerator { const_value, .. } => match const_value {
                None => {
                    return Err(EvalError::MissingAttribute);
                },
                Some(c) => {
                    if *c == value {
                        return Ok(Some(i));
                    }
                },
            },
            TypeDie::Subprogram => {},
            _ => {
                return Err(EvalError::Unsupported);
            },
        }
        i += 1;
    }
    Ok(None)
}

proof fn lemma_exact_lookup_in_range(children: Seq<TypeDie>, value: u64, i: nat)
    ensures
        exact_lookup(children, value, i) matches ExactLookup::Found(k) ==> i <= k < children.len(),
    decreases children.len() - i,
{
    if i < children.len() {
        lemma_exact_lookup_in_range(children, value, i + 1);
    }
}

/// The initial piece sizes (see [`initial_sizes`]).
fn sizes_of(pieces: &Vec<Piece>) -> (r: Vec<Option<u64>>)
    ensures
        r@ == initial_sizes(pieces@),
{
    let mut r: Vec<Option<u64>> = Vec::new();
    let mut i: usize = 0;
    while i < pieces.len()
        invariant
            i <= pieces.len(),
            r@ == initial_sizes(pieces@).take(i as int),
        decreases pieces.len() - i,
    {
        r.push(pieces[i].size_in_bits);
        i += 1;
        assert(r@ =~= initial_sizes(pieces@).take(i as int));
    }
    assert(r@ =~= initial_sizes(pieces@));
    r
}

impl Evaluator {
    /// An evaluator for the value of `type_die` from `pieces`; without a type
    /// the first piece is read as a 32-bit address. It knows no registers
    /// and no memory yet.
    pub fn new(pieces: Vec<Piece>, type_die: Option<TypeDie>) -> (r: Evaluator)
        ensures
            r@.pieces == pieces@,
            r@.sizes == initial_sizes(pieces@),
            r@.piece_index == 0,
            r@.stack == type_die,
            r@.result is None,
            r@.registers == Map::<u16, u32>::empty(),
            r@.addresses == Map::<u32, u32>::empty(),
    {
        let sizes = sizes_of(&pieces);
        Evaluator {
            pieces,
            sizes,
            piece_index: 0,
            stack: type_die,
            result: None,
            registers: HashMap::new(),
            addresses: HashMap::new(),
        }
    }

    /// Adds the word stored at `address`.
    pub fn add_address(&mut self, address: u32, value: u32)
        ensures
            final(self)@ == (EvaluatorView { addresses: old(self)@.addresses.insert(address, value), ..old(self)@ }),
    {
        self.addresses.insert(address, value);
    }

    /// Adds the value of a register.
    pub fn add_register(&mut self, register: u16, value: u32)
        ensures
            final(self)@ == (EvaluatorView { registers: old(self)@.registers.insert(register, value), ..old(self)@ }),
    {
        self.registers.insert(register, value);
    }

    /// The evaluated value, if the evaluation has completed.
    pub fn get_value(self) -> (r: Option<EvaluatorValue>)
        ensures
            match r {
                Some(v) => self@.result == Some(v@),
                None => self@.result is None,
            },
    {
        self.result
    }

    fn check_alignment(&self, alignment: Option<u64>, data_offset: u64) -> (r: Result<(), EvalError>)
        ensures
            r == align_spec(self@.pieces, alignment, data_offset, self@.piece_index),
    {
        match alignment {
            None => Ok(()),
            Some(alignment) => {
                if self.pieces.len() <= self.piece_index {
                    return Ok(());
                }
                match &self.pieces[self.piece_index].location {
                    PieceLocation::Address(address) => {
                        let step: u64 = (data_offset / 4) * 4;
                        match address.checked_add(step) {
                            None => Err(EvalError::Overflow),
                            Some(addr) => {
                                let addr = addr - addr % 4;
                                if alignment == 0 || addr % alignment != 0 {
                                    Err(EvalError::Misaligned)
                                } else {
                                    Ok(())
                                }
                            },
                        }
                    },
                    _ => Ok(()),
                }
            },
        }
    }

    /// The value of a register piece (see [`register_spec`]).
    pub fn eval_register(&self, register: u16, byte_size: Option<u64>, encoding: Option<u8>) -> (r: Result<ReturnResult, EvalError>)
        ensures
            step_view(r) == register_spec(ctx_of(self@), register, byte_size, encoding),
    {
        match self.registers.get(&register) {
            Some(val) => match encoding {
                Some(e) => {
                    let bs: u64 = match byte_size {
                        Some(v) => v,
                        None => 4,
                    };
                    match base_value_of_word(*val as u64, e, bs) {
                        Some(bv) => Ok(ReturnResult::Value(EvaluatorValue::Value(bv, Vec::new()))),
                        None => Err(EvalError::Unsupported),
                    }
                },
                None => Ok(ReturnResult::Value(EvaluatorValue::Value(BaseValue::U32(*val), Vec::new()))),
            },
            None => Ok(ReturnResult::Required(EvaluatorResult::RequireReg(register))),
        }
    }

    /// The value of an address piece (see [`address_spec`]).
    #[verifier::loop_isolation(false)]
    pub fn eval_address(
        &self,
        address: u64,
        byte_size: Option<u64>,
        data_offset: u64,
        encoding: Option<u8>,
    ) -> (r: Result<ReturnResult, EvalError>)
        ensures
            step_view(r) == address_spec(ctx_of(self@), address, byte_size, data_offset, encoding),
    {
        let ghost ctx = ctx_of(self@);
        let enc = match encoding {
            None => {
                return Err(EvalError::MissingAttribute);
            },
            Some(e) => e,
        };
        let num_words: u64 = match byte_size {
            Some(v) => {
                if v > u64::MAX - 3 {
                    return Err(EvalError::Overflow);
                }
                (v + 3) / 4
            },
            None => 1,
        };
        let step: u64 = (data_offset / 4) * 4;
        let a = match address.checked_add(step) {
            None => {
                return Err(EvalError::Overflow);
            },
            Some(a) => a,
        };
        let base = a - a % 4;
        let ghost n: nat = num_words as nat;
        let mut data: Vec<u32> = Vec::new();
        let mut i: u64 = 0;
        while i < num_words
            invariant
                i <= num_words,
                n == num_words,
                data@ == words_at(ctx.addresses, base as int, i as nat),
                scan_words(ctx.addresses, base as int, n, i as nat) == scan_words(ctx.addresses, base as int, n, 0),
                ctx == ctx_of(self@),
            decreases num_words - i,
        {
            if i > (u64::MAX - base) / 4 {
                assert(base + 4 * i > u64::MAX) by (nonlinear_arith)
                    requires
                        i > (u64::MAX - base) / 4,
                        base <= u64::MAX,
                ;
                assert(scan_words(ctx.addresses, base as int, n, i as nat) == WordScan::Overflow);
                return Err(EvalError::Overflow);
            }
            assert(base + 4 * i <= u64::MAX) by (nonlinear_arith)
                requires
                    i <= (u64::MAX - base) / 4,
                    base <= u64::MAX,
            ;
            let w: u64 = base + i * 4;
            match self.addresses.get(&(w as u32)) {
                Some(val) => data.push(*val),
                None => {
                    assert(scan_words(ctx.addresses, base as int, n, i as nat) == WordScan::Missing(w as u32));
                    return Ok(ReturnResult::Required(EvaluatorResult::RequireData { address: w as u32, num_words: 1 }));
                },
            }
            i += 1;
            assert(data@ =~= words_at(ctx.addresses, base as int, i as nat));
        }
        let bs = match byte_size {
            None => {
                return Err(EvalError::MissingAttribute);
            },
            Some(bs) => bs,
        };
        if bs == 0 || num_words > 2 {
            return Err(EvalError::Unsupported);
        }
        match base_value_of_word(slize_as_u64(data.as_slice()), enc, bs) {
            Some(bv) => Ok(ReturnResult::Value(EvaluatorValue::Value(bv, Vec::new()))),
            None => Err(EvalError::Unsupported),
        }
    }

    /// The value of a piece that holds a computed value (see
    /// [`gimli_value_spec`]).
    pub fn eval_gimli_value(&self, value: GimliValue, byte_size: Option<u64>, encoding: Option<u8>) -> (r: Result<ReturnResult, EvalError>)
        ensures
            step_view(r) == gimli_value_spec(value, byte_size, encoding),
    {
        match value {
            GimliValue::Generic(val) => match encoding {
                Some(e) => {
                    let bs: u64 = match byte_size {
                        Some(v) => v,
                        None => 8,
                    };
                    match base_value_of_word(val, e, bs) {
                        Some(bv) => Ok(ReturnResult::Value(EvaluatorValue::Value(bv, Vec::new()))),
                        None => Err(EvalError::Unsupported),
                    }
                },
                None => Ok(ReturnResult::Value(EvaluatorValue::Value(convert_from_gimli_value(value), Vec::new()))),
            },
            _ => Ok(ReturnResult::Value(EvaluatorValue::Value(convert_from_gimli_value(value), Vec::new()))),
        }
    }

    /// The value of a piece (see [`piece_spec`]).
    pub fn eval_piece(
        &self,
        piece: &Piece,
        byte_size: Option<u64>,
        data_offset: u64,
        encoding: Option<u8>,
    ) -> (r: Result<ReturnResult, EvalError>)
        ensures
            step_view(r) == piece_spec(ctx_of(self@), *piece, byte_size, data_offset, encoding),
    {
        match &piece.location {
            PieceLocation::Empty => Ok(ReturnResult::Value(EvaluatorValue::OptimizedOut)),
            PieceLocation::Register(r) => self.eval_register(*r, byte_size, encoding),
            PieceLocation::Address(a) => self.eval_address(*a, byte_size, data_offset, encoding),
            PieceLocation::Value(v) => self.eval_gimli_value(*v, byte_size, encoding),
            PieceLocation::Bytes(b) => Ok(ReturnResult::Value(EvaluatorValue::Bytes(copy_bytes(b)))),
            PieceLocation::ImplicitPointer => Err(EvalError::Unsupported),
        }
    }

    /// Reads the current piece and uses up what was read of it (see
    /// [`handle_spec`]).
    pub fn handle_eval_piece(
        &mut self,
        byte_size: Option<u64>,
        data_offset: u64,
        encoding: Option<u8>,
    ) -> (r: Result<Option<ReturnResult>, EvalError>)
        requires
            in_frame(old(self)@),
        ensures
            moved_on(old(self)@, final(self)@),
            (opt_step_view(r), final(self)@.sizes, final(self)@.piece_index) == handle_spec(
                ctx_of(old(self)@),
                old(self)@.sizes,
                old(self)@.piece_index,
                byte_size,
                data_offset,
                encoding,
            ),
    {
        if self.pieces.len() <= self.piece_index {
            return Ok(Some(ReturnResult::Value(EvaluatorValue::OptimizedOut)));
        }
        let off: u64 = if self.pieces.len() > 1 {
            0
        } else {
            data_offset
        };
        let idx = self.piece_index;
        let value = match self.eval_piece(&self.pieces[idx], byte_size, off, encoding) {
            Err(e) => {
                return Err(e);
            },
            Ok(ReturnResult::Required(q)) => {
                return Ok(Some(ReturnResult::Required(q)));
            },
            Ok(ReturnResult::Value(v)) => v,
        };
        match self.sizes[idx] {
            None => Ok(Some(ReturnResult::Value(value))),
            Some(val) => {
                let big = match byte_size {
                    Some(b) => b >= 0x1000_0000,
                    None => false,
                };
                if big || val > 0x7fff_ffff {
                    return Err(EvalError::Overflow);
                }
                let bits: u64 = match byte_size {
                    Some(b) => b * 8,
                    None => 32,
                };
                if val < bits + 1 {
                    self.sizes.set(idx, Some(0u64));
                    self.piece_index = idx + 1;
                } else {
                    self.sizes.set(idx, Some(val - bits));
                }
                Ok(Some(ReturnResult::Value(value)))
            },
        }
    }

    /// The value of a base type (see [`basetype_spec`]).
    pub fn eval_basetype(&mut self, die: &TypeDie, data_offset: u64) -> (r: Result<Option<ReturnResult>, EvalError>)
        requires
            in_frame(old(self)@),
        ensures
            moved_on(old(self)@, final(self)@),
            (opt_step_view(r), final(self)@.sizes, final(self)@.piece_index) == basetype_spec(
                ctx_of(old(self)@),
                *die,
                data_offset,
                old(self)@.sizes,
                old(self)@.piece_index,
            ),
    {
        match die {
            TypeDie::BaseType { byte_size, encoding, alignment, .. } => {
                if let Err(e) = self.check_alignment(*alignment, data_offset) {
                    return Err(e);
                }
                if *byte_size == Some(0u64) {
                    return Ok(Some(ReturnResult::Value(EvaluatorValue::ZeroSize)));
                }
                self.handle_eval_piece(*byte_size, data_offset, *encoding)
            },
            _ => Err(EvalError::Unsupported),
        }
    }

    /// The value of a pointer type (see [`pointer_spec`]).
    pub fn eval_pointer_type(&mut self, die: &TypeDie, data_offset: u64) -> (r: Result<Option<ReturnResult>, EvalError>)
        requires
            in_frame(old(self)@),
        ensures
            moved_on(old(self)@, final(self)@),
            (opt_step_view(r), final(self)@.sizes, final(self)@.piece_index) == pointer_spec(
                ctx_of(old(self)@),
                *die,
                data_offset,
                old(self)@.sizes,
                old(self)@.piece_index,
            ),
    {
        match die {
            TypeDie::PointerType { address_class, alignment } => {
                if let Err(e) = self.check_alignment(*alignment, data_offset) {
                    return Err(e);
                }
                match address_class {
                    None => Err(EvalError::MissingAttribute),
                    Some(c) => if *c == 0 {
                        self.handle_eval_piece(Some(4u64), data_offset, Some(1u8))
                    } else {
                        Err(EvalError::Unsupported)
                    },
                }
            },
            _ => Err(EvalError::Unsupported),
        }
    }

    /// The value of an array: its length from the first dimension, then the
    /// element type that many times (see [`array_spec`]).
    #[verifier::loop_isolation(false)]
    pub fn eval_array_type(&mut self, die: &TypeDie, data_offset: u64) -> (r: Result<Option<ReturnResult>, EvalError>)
        requires
            in_frame(old(self)@),
        ensures
            moved_on(old(self)@, final(self)@),
            (opt_step_view(r), final(self)@.sizes, final(self)@.piece_index) == array_spec(
                ctx_of(old(self)@),
                *die,
                data_offset,
                old(self)@.sizes,
                old(self)@.piece_index,
            ),
        decreases die, 1nat,
    {
        let ghost ctx = ctx_of(self@);
        match die {
            TypeDie::ArrayType { alignment, element_type, children } => {
                if let Err(e) = self.check_alignment(*alignment, data_offset) {
                    return Err(e);
                }
                if children.len() == 0 {
                    return Err(EvalError::MissingAttribute);
                }
                let dim = &children[0];
                let result = match dim {
                    TypeDie::SubrangeType { .. } => self.eval_subrange_type(dim, data_offset),
                    TypeDie::EnumerationType { .. } => self.eval_enumeration_type(dim, data_offset),
                    _ => Err(EvalError::Unsupported),
                };
                let value = match result {
                    Err(e) => {
                        return Err(e);
                    },
                    Ok(None) => {
                        return Err(EvalError::NoValue);
                    },
                    Ok(Some(ReturnResult::Required(q))) => {
                        return Ok(Some(ReturnResult::Required(q)));
                    },
                    Ok(Some(ReturnResult::Value(v))) => v,
                };
                if !value.has_base_value() {
                    return Err(EvalError::Unsupported);
                }
                let bv = value.to_value().unwrap();
                if !is_udata(&bv) {
                    return Err(EvalError::Unsupported);
                }
                let count = get_udata(bv) as usize;
                let et = match element_type {
                    None => {
                        return Err(EvalError::MissingAttribute);
                    },
                    Some(et) => et,
                };
                let mut values: Vec<EvaluatorValue> = Vec::new();
                proof {
                    lemma_values_view_empty();
                }
                let mut k: usize = 0;
                while k < count
                    invariant
                        k <= count,
                        moved_on(old(self)@, self@),
                        ctx == ctx_of(self@),
                        array_spec(ctx, *die, data_offset, old(self)@.sizes, old(self)@.piece_index)
                            == repeat_spec(ctx, **et, (count - k) as nat, data_offset, self@.sizes, self@.piece_index, values_view(values@)),
                    decreases count - k,
                {
                    match self.eval_type(&**et, data_offset) {
                        Err(e) => {
                            return Err(e);
                        },
                        Ok(None) => {
                            return Err(EvalError::NoValue);
                        },
                        Ok(Some(ReturnResult::Required(q))) => {
                            return Ok(Some(ReturnResult::Required(q)));
                        },
                        Ok(Some(ReturnResult::Value(v))) => {
                            proof {
                                lemma_values_view_push(values@, v);
                            }
                            values.push(v);
                        },
                    }
                    k += 1;
                }
                Ok(Some(ReturnResult::Value(EvaluatorValue::Array(Box::new(ArrayValue { values })))))
            },
            _ => Err(EvalError::Unsupported),
        }
    }

    /// Evaluates the members `order` (indices into `children`) in turn.
    #[verifier::loop_isolation(false)]
    fn eval_members(
        &mut self,
        children: &Vec<TypeDie>,
        order: &Vec<(u64, usize)>,
        data_offset: u64,
    ) -> (r: Result<MembersResult, EvalError>)
        requires
            in_frame(old(self)@),
        ensures
            moved_on(old(self)@, final(self)@),
            (members_view(r), final(self)@.sizes, final(self)@.piece_index) == members_spec(
                ctx_of(old(self)@),
                children@,
                order@,
                0,
                data_offset,
                old(self)@.sizes,
                old(self)@.piece_index,
                seq![],
            ),
        decreases children@, order@.len() + 1,
    {
        let ghost ctx = ctx_of(self@);
        let mut values: Vec<EvaluatorValue> = Vec::new();
        proof {
            lemma_values_view_empty();
        }
        let mut i: usize = 0;
        while i < order.len()
            invariant
                i <= order.len(),
                moved_on(old(self)@, self@),
                ctx == ctx_of(self@),
                members_spec(ctx, children@, order@, 0, data_offset, old(self)@.sizes, old(self)@.piece_index, seq![])
                    == members_spec(ctx, children@, order@, i as nat, data_offset, self@.sizes, self@.piece_index, values_view(values@)),
            decreases order.len() - i,
        {
            let k = order[i].1;
            if k >= children.len() {
                return Err(EvalError::Unsupported);
            }
            match self.eval_member(&children[k], data_offset) {
                Err(e) => {
                    return Err(e);
                },
                Ok(None) => {
                    return Err(EvalError::NoValue);
                },
                Ok(Some(ReturnResult::Required(q))) => {
                    return Ok(MembersResult::Required(q));
                },
                Ok(Some(ReturnResult::Value(v))) => {
                    proof {
                        lemma_values_view_push(values@, v);
                    }
                    values.push(v);
                },
            }
            i += 1;
        }
        Ok(MembersResult::Done(values))
    }

    /// The value of a structure: the value of its variant part if it has
    /// one, else its members in order of location (see [`struct_spec`]).
    pub fn eval_structured_type(&mut self, die: &TypeDie, data_offset: u64) -> (r: Result<Option<ReturnResult>, EvalError>)
        requires
            in_frame(old(self)@),
        ensures
            moved_on(old(self)@, final(self)@),
            (opt_step_view(r), final(self)@.sizes, final(self)@.piece_index) == struct_spec(
                ctx_of(old(self)@),
                *die,
                data_offset,
                old(self)@.sizes,
                old(self)@.piece_index,
            ),
        decreases die, 1nat,
    {
        match die {
            TypeDie::StructureType { name, alignment, children } => {
                let name = match name {
                    None => {
                        return Err(EvalError::MissingAttribute);
                    },
                    Some(n) => n,
                };
                if let Err(e) = self.check_alignment(*alignment, data_offset) {
                    return Err(e);
                }
                match scan_members_exec(children, true) {
                    MemberScanResult::VariantPart(k) => {
                        if k >= children.len() {
                            return Err(EvalError::Unsupported);
                        }
                        if !self.variant_part_has_match(&children[k], data_offset) {
                            return Err(EvalError::NoMatchingVariant);
                        }
                        match self.eval_variant_part(&children[k], data_offset) {
                            Err(e) => Err(e),
                            Ok(None) => Err(EvalError::NoValue),
                            Ok(Some(ReturnResult::Required(q))) => Ok(Some(ReturnResult::Required(q))),
                            Ok(Some(ReturnResult::Value(v))) => {
                                let mut members: Vec<EvaluatorValue> = Vec::new();
                                proof {
                                    lemma_values_view_empty();
                                    lemma_values_view_push(members@, v);
                                }
                                members.push(v);
                                assert(values_view(members@) =~= seq![v@]);
                                Ok(Some(ReturnResult::Value(EvaluatorValue::Struct(Box::new(StructValue { name: name.clone(), members })))))
                            },
                        }
                    },
                    MemberScanResult::MissingLocation => Err(EvalError::MissingAttribute),
                    MemberScanResult::Members(order) => {
                        match self.eval_members(children, &order, data_offset) {
                            Err(e) => Err(e),
                            Ok(MembersResult::Required(q)) => Ok(Some(ReturnResult::Required(q))),
                            Ok(MembersResult::Done(members)) => Ok(Some(ReturnResult::Value(EvaluatorValue::Struct(Box::new(StructValue { name: name.clone(), members }))))),
                        }
                    },
                }
            },
            _ => Err(EvalError::Unsupported),
        }
    }

    /// The value of a union: its members in order of location (see
    /// [`union_spec`]).
    pub fn eval_union_type(&mut self, die: &TypeDie, data_offset: u64) -> (r: Result<Option<ReturnResult>, EvalError>)
        requires
            in_frame(old(self)@),
        ensures
            moved_on(old(self)@, final(self)@),
            (opt_step_view(r), final(self)@.sizes, final(self)@.piece_index) == union_spec(
                ctx_of(old(self)@),
                *die,
                data_offset,
                old(self)@.sizes,
                old(self)@.piece_index,
            ),
        decreases die, 1nat,
    {
        match die {
            TypeDie::UnionType { name, alignment, children } => {
                let name = match name {
                    None => {
                        return Err(EvalError::MissingAttribute);
                    },
                    Some(n) => n,
                };
                if let Err(e) = self.check_alignment(*alignment, data_offset) {
                    return Err(e);
                }
                match scan_members_exec(children, false) {
                    MemberScanResult::Members(order) => {
                        match self.eval_members(children, &order, data_offset) {
                            Err(e) => Err(e),
                            Ok(MembersResult::Required(q)) => Ok(Some(ReturnResult::Required(q))),
                            Ok(MembersResult::Done(members)) => Ok(Some(ReturnResult::Value(EvaluatorValue::Union(Box::new(UnionValue { name: name.clone(), members }))))),
                        }
                    },
                    _ => Err(EvalError::MissingAttribute),
                }
            },
            _ => Err(EvalError::Unsupported),
        }
    }

    /// The value of a member: its type's value at its location, with its
    /// name (see [`member_spec`]).
    pub fn eval_member(&mut self, die: &TypeDie, data_offset: u64) -> (r: Result<Option<ReturnResult>, EvalError>)
        requires
            in_frame(old(self)@),
        ensures
            moved_on(old(self)@, final(self)@),
            (opt_step_view(r), final(self)@.sizes, final(self)@.piece_index) == member_spec(
                ctx_of(old(self)@),
                *die,
                data_offset,
                old(self)@.sizes,
                old(self)@.piece_index,
            ),
        decreases die, 1nat,
    {
        match die {
            TypeDie::Member { name, data_member_location, alignment, member_type } => {
                let no: u64 = match data_member_location {
                    Some(l) => match data_offset.checked_add(*l) {
                        None => {
                            return Err(EvalError::Overflow);
                        },
                        Some(v) => v,
                    },
                    None => data_offset,
                };
                if let Err(e) = self.check_alignment(*alignment, no) {
                    return Err(e);
                }
                let t = match member_type {
                    None => {
                        return Err(EvalError::MissingAttribute);
                    },
                    Some(t) => t,
                };
                match self.eval_type(&**t, no) {
                    Err(e) => Err(e),
                    Ok(None) => Err(EvalError::NoValue),
                    Ok(Some(ReturnResult::Required(q))) => Ok(Some(ReturnResult::Required(q))),
                    Ok(Some(ReturnResult::Value(v))) => Ok(Some(ReturnResult::Value(EvaluatorValue::Member(Box::new(MemberValue { name: clone_opt_string(name), value: v }))))),
                }
            },
            _ => Err(EvalError::Unsupported),
        }
    }

    /// The value of an enumeration: the first enumerator whose constant
    /// equals the value of the underlying type, none when no enumerator does
    /// (see [`enum_spec`]).
    pub fn eval_enumeration_type(&mut self, die: &TypeDie, data_offset: u64) -> (r: Result<Option<ReturnResult>, EvalError>)
        requires
            in_frame(old(self)@),
        ensures
            moved_on(old(self)@, final(self)@),
            (opt_step_view(r), final(self)@.sizes, final(self)@.piece_index) == enum_spec(
                ctx_of(old(self)@),
                *die,
                data_offset,
                old(self)@.sizes,
                old(self)@.piece_index,
            ),
        decreases die, 1nat,
    {
        match die {
            TypeDie::EnumerationType { name, alignment, underlying_type, children } => {
                if let Err(e) = self.check_alignment(*alignment, data_offset) {
                    return Err(e);
                }
                let t = match underlying_type {
                    None => {
                        return Err(EvalError::MissingAttribute);
                    },
                    Some(t) => t,
                };
                let value = match self.eval_type(&**t, data_offset) {
                    Err(e) => {
                        return Err(e);
                    },
                    Ok(None) => {
                        return Err(EvalError::NoValue);
                    },
                    Ok(Some(ReturnResult::Required(q))) => {
                        return Ok(Some(ReturnResult::Required(q)));
                    },
                    Ok(Some(ReturnResult::Value(v))) => v,
                };
                if !value.has_base_value() {
                    return Err(EvalError::Unsupported);
                }
                let bv = value.to_value().unwrap();
                if !is_udata(&bv) {
                    return Err(EvalError::Unsupported);
                }
                let value = get_udata(bv);
                match exact_lookup_exec(children, value) {
                    Err(e) => Err(e),
                    Ok(None) => Ok(None),
                    Ok(Some(k)) => {
                        let n = match name {
                            None => {
                                return Err(EvalError::MissingAttribute);
                            },
                            Some(n) => n,
                        };
                        match &children[k] {
                            TypeDie::Enumerator { name: Some(en), .. } => {
                                assert(enumerator_name(children@[k as int]) == Some(*en));
                                let inner = EvaluatorValue::Name(en.clone());
                                assert(inner@ == ValueView::Name(en@));
                                let r = EvaluatorValue::Enum(Box::new(EnumValue { name: n.clone(), value: inner }));
                                assert(r@ == ValueView::Enum(n@, Box::new(ValueView::Name(en@))));
                                Ok(Some(ReturnResult::Value(r)))
                            },
                            _ => Err(EvalError::MissingAttribute),
                        }
                    },
                }
            },
            _ => Err(EvalError::Unsupported),
        }
    }

    /// The value of a subrange: its count, else the value of its type, none
    /// without either (see [`subrange_spec`]).
    pub fn eval_subrange_type(&mut self, die: &TypeDie, data_offset: u64) -> (r: Result<Option<ReturnResult>, EvalError>)
        requires
            in_frame(old(self)@),
        ensures
            moved_on(old(self)@, final(self)@),
            (opt_step_view(r), final(self)@.sizes, final(self)@.piece_index) == subrange_spec(
                ctx_of(old(self)@),
                *die,
                data_offset,
                old(self)@.sizes,
                old(self)@.piece_index,
            ),
        decreases die, 1nat,
    {
        match die {
            TypeDie::SubrangeType { count, subrange_type } => match count {
                Some(c) => Ok(Some(ReturnResult::Value(EvaluatorValue::Value(BaseValue::U64(*c), Vec::new())))),
                None => match subrange_type {
                    None => Ok(None),
                    Some(t) => self.eval_type(&**t, data_offset),
                },
            },
            _ => Err(EvalError::Unsupported),
        }
    }

    /// Whether the variant part `die` can be evaluated here: false exactly
    /// when its discriminant, read as an unsigned number, matches none of
    /// its variants. When it matches, the evaluator is left as it was; when
    /// it does not, the evaluator stands after the discriminant, as the
    /// evaluation of the variant part leaves it.
    #[verifier::loop_isolation(false)]
    pub fn variant_part_has_match(&mut self, die: &TypeDie, data_offset: u64) -> (r: bool)
        requires
            in_frame(old(self)@),
        ensures
            moved_on(old(self)@, final(self)@),
            r == !variant_part_unmatched(
                ctx_of(old(self)@),
                *die,
                data_offset,
                old(self)@.sizes,
                old(self)@.piece_index,
            ),
            r ==> final(self)@ == old(self)@,
            !r ==> (Err::<Option<Step>, EvalError>(EvalError::NoMatchingVariant), final(self)@.sizes, final(self)@.piece_index)
                == variant_part_spec(
                ctx_of(old(self)@),
                *die,
                data_offset,
                old(self)@.sizes,
                old(self)@.piece_index,
            ),
        decreases die, 1nat,
    {
        let ghost ctx = ctx_of(self@);
        let start = self.piece_index;
        let saved = self.sizes.clone();
        match die {
            TypeDie::VariantPart { alignment, discr, children } => {
                if self.check_alignment(*alignment, data_offset).is_err() {
                    return true;
                }
                let d = match discr {
                    None => {
                        return true;
                    },
                    Some(d) => d,
                };
                let value = match self.eval_member(&**d, data_offset) {
                    Ok(Some(ReturnResult::Value(v))) => v,
                    _ => {
                        self.piece_index = start;
                        self.sizes = saved;
                        assert(self@ =~= old(self)@);
                        return true;
                    },
                };
                if !value.has_base_value() {
                    self.piece_index = start;
                    self.sizes = saved;
                    assert(self@ =~= old(self)@);
                    return true;
                }
                let bv = value.to_value().unwrap();
                if !is_udata(&bv) {
                    self.piece_index = start;
                    self.sizes = saved;
                    assert(self@ =~= old(self)@);
                    return true;
                }
                let variant = get_udata(bv);
                let n = count_variants_exec(children);
                let mut i: usize = 0;
                while i < children.len()
                    invariant
                        i <= children.len(),
                        n == count_variants(children@),
                        moved_on(old(self)@, self@),
                        saved@ == old(self)@.sizes,
                        ctx == ctx_of(self@),
                        variant_part_spec(ctx, *die, data_offset, old(self)@.sizes, old(self)@.piece_index)
                            == variants_spec(ctx, children@, i as nat, n as nat, variant, data_offset, self@.sizes, self@.piece_index),
                        forall|k: int|
                            0 <= k < i && (#[trigger] children@[k]) is Variant ==> (children@[k]->Variant_discr_value
                                matches Some(dv) && !(n > 0 && dv == variant % (n as u64))),
                    decreases children.len() - i,
                {
                    match &children[i] {
                        TypeDie::Variant { discr_value, .. } => match discr_value {
                            None => {
                                self.piece_index = start;
                                self.sizes = saved;
                                assert(self@ =~= old(self)@);
                                assert(!no_variant_matches(children@, variant));
                                return true;
                            },
                            Some(dv) => {
                                if n > 0 && *dv == variant % (n as u64) {
                                    self.piece_index = start;
                                    self.sizes = saved;
                                    assert(self@ =~= old(self)@);
                                    assert(!no_variant_matches(children@, variant));
                                    return true;
                                }
                            },
                        },
                        _ => {},
                    }
                    i += 1;
                }
                assert(no_variant_matches(children@, variant));
                false
            },
            _ => true,
        }
    }

    /// The value of a variant part: the discriminant picks the variant (see
    /// [`variant_part_spec`]). A discriminant that matches no variant is not
    /// admitted: callers test for it first with
    /// [`Evaluator::variant_part_has_match`].
    #[verifier::loop_isolation(false)]
    pub fn eval_variant_part(&mut self, die: &TypeDie, data_offset: u64) -> (r: Result<Option<ReturnResult>, EvalError>)
        requires
            in_frame(old(self)@),
            !variant_part_unmatched(
                ctx_of(old(self)@),
                *die,
                data_offset,
                old(self)@.sizes,
                old(self)@.piece_index,
            ),
        ensures
            moved_on(old(self)@, final(self)@),
            (opt_step_view(r), final(self)@.sizes, final(self)@.piece_index) == variant_part_spec(
                ctx_of(old(self)@),
                *die,
                data_offset,
                old(self)@.sizes,
                old(self)@.piece_index,
            ),
        decreases die, 1nat,
    {
        let ghost ctx = ctx_of(self@);
        match die {
            TypeDie::VariantPart { alignment, discr, children } => {
                if let Err(e) = self.check_alignment(*alignment, data_offset) {
                    return Err(e);
                }
                let d = match discr {
                    None => {
                        return Err(EvalError::MissingAttribute);
                    },
                    Some(d) => d,
                };
                let value = match self.eval_member(&**d, data_offset) {
                    Err(e) => {
                        return Err(e);
                    },
                    Ok(None) => {
                        return Err(EvalError::NoValue);
                    },
                    Ok(Some(ReturnResult::Required(q))) => {
                        return Ok(Some(ReturnResult::Required(q)));
                    },
                    Ok(Some(ReturnResult::Value(v))) => v,
                };
                if !value.has_base_value() {
                    return Err(EvalError::Unsupported);
                }
                let bv = value.to_value().unwrap();
                if !is_udata(&bv) {
                    return Err(EvalError::Unsupported);
                }
                let variant = get_udata(bv);
                let n = count_variants_exec(children);
                let mut i: usize = 0;
                while i < children.len()
                    invariant
                        i <= children.len(),
                        n == count_variants(children@),
                        moved_on(old(self)@, self@),
                        ctx == ctx_of(self@),
                        variant_part_spec(ctx, *die, data_offset, old(self)@.sizes, old(self)@.piece_index)
                            == variants_spec(ctx, children@, i as nat, n as nat, variant, data_offset, self@.sizes, self@.piece_index),
                        forall|k: int|
                            0 <= k < i && (#[trigger] children@[k]) is Variant ==> (children@[k]->Variant_discr_value
                                matches Some(dv) && !(n > 0 && dv == variant % (n as u64))),
                    decreases children.len() - i,
                {
                    match &children[i] {
                        TypeDie::Variant { discr_value, .. } => match discr_value {
                            None => {
                                return Err(EvalError::MissingAttribute);
                            },
                            Some(dv) => {
                                if n > 0 && *dv == variant % (n as u64) {
                                    return self.eval_variant(&children[i], data_offset);
                                }
                            },
                        },
                        _ => {},
                    }
                    i += 1;
                }
                assert(no_variant_matches(children@, variant));
                Err(EvalError::NoMatchingVariant)
            },
            _ => Err(EvalError::Unsupported),
        }
    }

    /// The value of a variant: the value of its first member, named by that
    /// member (see [`variant_spec`]).
    pub fn eval_variant(&mut self, die: &TypeDie, data_offset: u64) -> (r: Result<Option<ReturnResult>, EvalError>)
        requires
            in_frame(old(self)@),
        ensures
            moved_on(old(self)@, final(self)@),
            (opt_step_view(r), final(self)@.sizes, final(self)@.piece_index) == variant_spec(
                ctx_of(old(self)@),
                *die,
                data_offset,
                old(self)@.sizes,
                old(self)@.piece_index,
            ),
        decreases die, 1nat,
    {
        match die {
            TypeDie::Variant { alignment, children, .. } => {
                if let Err(e) = self.check_alignment(*alignment, data_offset) {
                    return Err(e);
                }
                let k = match first_member_exec(children) {
                    None => {
                        return Err(EvalError::Unsupported);
                    },
                    Some(k) => k,
                };
                let member = &children[k];
                match self.eval_member(member, data_offset) {
                    Err(e) => Err(e),
                    Ok(None) => Err(EvalError::NoValue),
                    Ok(Some(ReturnResult::Required(q))) => Ok(Some(ReturnResult::Required(q))),
                    Ok(Some(ReturnResult::Value(v))) => match member {
                        TypeDie::Member { name: Some(nm), .. } => Ok(Some(ReturnResult::Value(EvaluatorValue::Enum(Box::new(EnumValue { name: nm.clone(), value: v }))))),
                        _ => Err(EvalError::MissingAttribute),
                    },
                }
            },
            _ => Err(EvalError::Unsupported),
        }
    }

    /// The value of a type DIE (see [`type_spec`]).
    pub fn eval_type(&mut self, die: &TypeDie, data_offset: u64) -> (r: Result<Option<ReturnResult>, EvalError>)
        requires
            in_frame(old(self)@),
        ensures
            moved_on(old(self)@, final(self)@),
            (opt_step_view(r), final(self)@.sizes, final(self)@.piece_index) == type_spec(
                ctx_of(old(self)@),
                *die,
                data_offset,
                old(self)@.sizes,
                old(self)@.piece_index,
            ),
        decreases die, 2nat,
    {
        match die {
            TypeDie::BaseType { .. } => self.eval_basetype(die, data_offset),
            TypeDie::PointerType { .. } => self.eval_pointer_type(die, data_offset),
            TypeDie::ArrayType { .. } => self.eval_array_type(die, data_offset),
            TypeDie::StructureType { .. } => self.eval_structured_type(die, data_offset),
            TypeDie::UnionType { .. } => self.eval_union_type(die, data_offset),
            TypeDie::Member { .. } => self.eval_member(die, data_offset),
            TypeDie::EnumerationType { .. } => self.eval_enumeration_type(die, data_offset),
            TypeDie::VariantPart { .. } => {
                if !self.variant_part_has_match(die, data_offset) {
                    return Err(EvalError::NoMatchingVariant);
                }
                self.eval_variant_part(die, data_offset)
            },
            _ => Err(EvalError::Unsupported),
        }
    }

    /// Evaluates the value from the first piece on, with every register and
    /// memory word added so far. Returns `Complete` once the value is known
    /// (and keeps it; later calls return `Complete` at once), or the
    /// register or memory word that must be added first.
    pub fn evaluate(&mut self) -> (r: Result<EvaluatorResult, EvalError>)
        ensures
            final(self)@.pieces == old(self)@.pieces,
            final(self)@.stack == old(self)@.stack,
            final(self)@.registers == old(self)@.registers,
            final(self)@.addresses == old(self)@.addresses,
            old(self)@.result is Some ==> r == Ok::<EvaluatorResult, EvalError>(EvaluatorResult::Complete)
                && final(self)@.result == old(self)@.result,
            old(self)@.result is None ==> match evaluate_spec(ctx_of(old(self)@), old(self)@.stack) {
                Err(e) => r == Err::<EvaluatorResult, EvalError>(e) && final(self)@.result is None,
                Ok(Step::Value(v)) => r == Ok::<EvaluatorResult, EvalError>(EvaluatorResult::Complete)
                    && final(self)@.result == Some(v),
                Ok(Step::Required(q)) => r == Ok::<EvaluatorResult, EvalError>(q)
                    && final(self)@.result is None,
            },
    {
        if self.result.is_some() {
            return Ok(EvaluatorResult::Complete);
        }
        self.sizes = sizes_of(&self.pieces);
        self.piece_index = 0;
        let stack = self.stack.take();
        let r = match &stack {
            None => {
                if self.pieces.len() == 0 {
                    Err(EvalError::OutOfPieces)
                } else {
                    self.eval_piece(&self.pieces[0], Some(4u64), 0, Some(1u8))
                }
            },
            Some(die) => match self.eval_type(die, 0) {
                Err(e) => Err(e),
                Ok(None) => Err(EvalError::NoValue),
                Ok(Some(q)) => Ok(q),
            },
        };
        self.stack = stack;
        match r {
            Err(e) => Err(e),
            Ok(ReturnResult::Value(v)) => {
                self.result = Some(v);
                Ok(EvaluatorResult::Complete)
            },
            Ok(ReturnResult::Required(q)) => Ok(q),
        }
    }
}

/// The value of one or two words, the first word the more significant.
pub open spec fn words_as_u64(data: Seq<u32>) -> u64 {
    if data.len() < 2 {
        data[0] as u64
    } else {
        (data[0] as u64 * 0x1_0000_0000 + data[1] as u64) as u64
    }
}

/// The value of one or two words read from memory, the first word the more
/// significant; more than two words do not fit.
pub fn slize_as_u64(data: &[u32]) -> (r: u64)
    requires
        1 <= data.len() <= 2,
    ensures
        r == words_as_u64(data@),
{
    if data.len() < 2 {
        return data[0] as u64;
    }
    let hi = data[0] as u64;
    let lo = data[1] as u64;
    assert(hi * 0x1_0000_0000 + lo <= u64::MAX) by (nonlinear_arith)
        requires
            hi <= u32::MAX,
            lo <= u32::MAX,
    ;
    assert((hi << 32u64) == hi * 0x1_0000_0000) by (bit_vector)
        requires
            hi <= 0xffff_ffff,
    ;
    (hi << 32u64) + lo
}


/// Joining words: one word is its own value; of two, the first is the more
/// significant.
pub proof fn lemma_words_as_u64(data: Seq<u32>)
    requires
        1 <= data.len() <= 2,
    ensures
        data.len() == 1 ==> words_as_u64(data) as int == data[0] as int,
        data.len() == 2 ==> words_as_u64(data) as int == data[0] * 0x1_0000_0000 + data[1],
{
    if data.len() == 2 {
        assert(data[0] * 0x1_0000_0000 + data[1] <= u64::MAX) by (nonlinear_arith)
            requires
                data[1] <= u32::MAX,
                data[0] <= u32::MAX,
        ;
    }
}

/// Decoding a word value for the debugger: with a base type of `b` bytes
/// (1, 2, 4 or 8), unsigned gives the low `8 * b` bits of the value, signed
/// their two's-complement reading; floats are not decoded.
pub proof fn lemma_word_base_value(v: u64, b: u64)
    ensures
        word_base_value(v, 7, 1) == Some(BaseValue::U8((v % 0x100) as u8)),
        word_base_value(v, 7, 2) == Some(BaseValue::U16((v % 0x1_0000) as u16)),
        word_base_value(v, 7, 4) == Some(BaseValue::U32((v % 0x1_0000_0000) as u32)),
        word_base_value(v, 7, 8) == Some(BaseValue::U64(v)),
        word_base_value(v, 1, 4) == Some(BaseValue::Address32((v % 0x1_0000_0000) as u32)),
        word_base_value(v, 5, 1) matches Some(BaseValue::I8(s)) && s as int == twos(v as int % 0x100, 0x100),
        word_base_value(v, 5, 2) matches Some(BaseValue::I16(s)) && s as int == twos(v as int % 0x1_0000, 0x1_0000),
        word_base_value(v, 5, 4) matches Some(BaseValue::I32(s)) && s as int == twos(v as int % 0x1_0000_0000, 0x1_0000_0000),
        word_base_value(v, 5, 8) matches Some(BaseValue::I64(s)) && s as int == twos(v as int, 0x1_0000_0000_0000_0000),
        word_base_value(v, 4, b) is None,
{
    lemma_word_decoding(v);
}


proof fn lemma_exact_lookup_from(children: Seq<TypeDie>, value: u64, i: nat)
    ensures
        exact_lookup(children, value, i) matches ExactLookup::Found(k) ==> i <= k < children.len()
            && enumerator_with(children[k as int], value) && forall|j: int|
            i <= j < k ==> passed_over(#[trigger] children[j], value),
        forall|k: int|
            i <= k < children.len() && enumerator_with(#[trigger] children[k], value) && (forall|j: int|
                i <= j < k ==> passed_over(#[trigger] children[j], value)) ==> exact_lookup(children, value, i)
                == ExactLookup::Found(k as nat),
        exact_lookup(children, value, i) == ExactLookup::NotFound <==> forall|j: int|
            i <= j < children.len() ==> passed_over(#[trigger] children[j], value),
    decreases children.len() - i,
{
    if i < children.len() {
        lemma_exact_lookup_from(children, value, i + 1);
        assert forall|k: int|
            i <= k < children.len() && enumerator_with(#[trigger] children[k], value) && (forall|j: int|
                i <= j < k ==> passed_over(#[trigger] children[j], value)) implies exact_lookup(children, value, i)
            == ExactLookup::Found(k as nat) by {
            if k > i {
                assert(passed_over(children[i as int], value));
                assert forall|j: int| i + 1 <= j < k implies passed_over(#[trigger] children[j], value) by {}
            }
        }
        if exact_lookup(children, value, i) == ExactLookup::NotFound {
            assert forall|j: int| i <= j < children.len() implies passed_over(#[trigger] children[j], value) by {
                if j > i {
                    assert(exact_lookup(children, value, i + 1) == ExactLookup::NotFound);
                }
            }
        }
        if forall|j: int| i <= j < children.len() ==> passed_over(#[trigger] children[j], value) {
            assert(passed_over(children[i as int], value));
            assert forall|j: int| i + 1 <= j < children.len() implies passed_over(#[trigger] children[j], value) by {}
        }
    }
}

/// The enumerator that an enumeration value names in the debugger's
/// evaluator: the first child that is an enumerator whose constant equals
/// the value, with only subprograms and enumerators of other constants
/// before it; none exactly when every child is a subprogram or an
/// enumerator of another constant.
pub proof fn lemma_exact_lookup_finds_first_match(children: Seq<TypeDie>, value: u64)
    ensures
        exact_lookup(children, value, 0) matches ExactLookup::Found(k) ==> k < children.len()
            && enumerator_with(children[k as int], value) && forall|j: int|
            0 <= j < k ==> passed_over(#[trigger] children[j], value),
        forall|k: int|
            0 <= k < children.len() && enumerator_with(#[trigger] children[k], value) && (forall|j: int|
                0 <= j < k ==> passed_over(#[trigger] children[j], value)) ==> exact_lookup(children, value, 0)
                == ExactLookup::Found(k as nat),
        exact_lookup(children, value, 0) == ExactLookup::NotFound <==> forall|j: int|
            0 <= j < children.len() ==> passed_over(#[trigger] children[j], value),
{
    lemma_exact_lookup_from(children, value, 0);
}


/// Reading a four-byte unsigned value from an address piece: with `w` the
/// piece's address moved on by the whole words of the data offset and
/// rounded down to a word, the value is the word known at `w`, or the word
/// at `w` is asked for.
pub proof fn lemma_address_piece_word(ctx: WordCtx, address: u64, data_offset: u64)
    requires
        address + (data_offset / 4) * 4 <= u64::MAX,
    ensures
        ({
            let w = (((address + (data_offset / 4) * 4) / 4) * 4) as u32;
            address_spec(ctx, address, Some(4u64), data_offset, Some(7u8)) == if ctx.addresses.contains_key(w) {
                Ok::<Step, EvalError>(Step::Value(ValueView::Value(BaseValue::U32(ctx.addresses[w]), seq![])))
            } else {
                Ok::<Step, EvalError>(Step::Required(EvaluatorResult::RequireData { address: w, num_words: 1 }))
            }
        }),
{
    let a = address + (data_offset / 4) * 4;
    assert(a - a % 4 == (a / 4) * 4);
    let base = a - a % 4;
    assert(scan_words(ctx.addresses, base, 1, 1) == WordScan::Known);
    let ws = words_at(ctx.addresses, base, 1);
    assert(ws[0] == ctx.addresses[base as u32]);
}

/// Reading an eight-byte unsigned value from an address piece: with `w` as
/// for one word, the value joins the words at `w` and `w + 4`, the first the
/// more significant; the first of them that is not known is asked for.
pub proof fn lemma_address_piece_two_words(ctx: WordCtx, address: u64, data_offset: u64)
    requires
        address + (data_offset / 4) * 4 + 4 <= u64::MAX,
    ensures
        ({
            let w = ((address + (data_offset / 4) * 4) / 4) * 4;
            let w0 = w as u32;
            let w1 = (w + 4) as u32;
            address_spec(ctx, address, Some(8u64), data_offset, Some(7u8)) == if !ctx.addresses.contains_key(w0) {
                Ok::<Step, EvalError>(Step::Required(EvaluatorResult::RequireData { address: w0, num_words: 1 }))
            } else if !ctx.addresses.contains_key(w1) {
                Ok::<Step, EvalError>(Step::Required(EvaluatorResult::RequireData { address: w1, num_words: 1 }))
            } else {
                Ok::<Step, EvalError>(Step::Value(ValueView::Value(
                    BaseValue::U64((ctx.addresses[w0] * 0x1_0000_0000 + ctx.addresses[w1]) as u64),
                    seq![],
                )))
            }
        }),
{
    let a = address + (data_offset / 4) * 4;
    assert(a - a % 4 == (a / 4) * 4);
    let base = a - a % 4;
    assert(scan_words(ctx.addresses, base, 2, 2) == WordScan::Known);
    assert(scan_words(ctx.addresses, base, 2, 1) == if ctx.addresses.contains_key((base + 4) as u32) {
        WordScan::Known
    } else {
        WordScan::Missing((base + 4) as u32)
    });
    assert(base + 4 * 1 == base + 4);
    let ws = words_at(ctx.addresses, base, 2);
    if ctx.addresses.contains_key(base as u32) && ctx.addresses.contains_key((base + 4) as u32) {
        assert(ws[0] == ctx.addresses[base as u32]);
        assert(ws[1] == ctx.addresses[(base + 4) as u32]);
        lemma_words_as_u64(ws);
        lemma_word_decoding(words_as_u64(ws));
    }
}


proof fn lemma_word_variants_from(
    ctx: WordCtx,
    children: Seq<TypeDie>,
    i: nat,
    variant: u64,
    off: u64,
    sizes: Seq<Option<u64>>,
    idx: nat,
    k: int,
)
    requires
        i <= k < children.len(),
        count_variants(children) > 0,
        children[k] matches TypeDie::Variant { discr_value: Some(dv), .. } && dv == variant % (count_variants(children) as u64),
        forall|j: int|
            i <= j < k && (#[trigger] children[j]) is Variant ==> (children[j]->Variant_discr_value matches Some(d)
                && d != variant % (count_variants(children) as u64)),
    ensures
        variants_spec(ctx, children, i, count_variants(children), variant, off, sizes, idx) == variant_spec(
            ctx,
            children[k],
            off,
            sizes,
            idx,
        ),
    decreases k - i,
{
    if i < k {
        assert(children[i as int] is Variant ==> children[i as int]->Variant_discr_value is Some);
        lemma_word_variants_from(ctx, children, i + 1, variant, off, sizes, idx, k);
    }
}

/// The variant a discriminant picks in the debugger's evaluator: the first
/// variant child whose discriminant value is the discriminant modulo the
/// number of variants (earlier variants having other discriminant values).
pub proof fn lemma_word_variant_choice(
    ctx: WordCtx,
    children: Seq<TypeDie>,
    variant: u64,
    off: u64,
    sizes: Seq<Option<u64>>,
    idx: nat,
    k: int,
)
    requires
        0 <= k < children.len(),
        count_variants(children) > 0,
        children[k] matches TypeDie::Variant { discr_value: Some(dv), .. } && dv == variant % (count_variants(children) as u64),
        forall|j: int|
            0 <= j < k && (#[trigger] children[j]) is Variant ==> (children[j]->Variant_discr_value matches Some(d)
                && d != variant % (count_variants(children) as u64)),
    ensures
        variants_spec(ctx, children, 0, count_variants(children), variant, off, sizes, idx) == variant_spec(
            ctx,
            children[k],
            off,
            sizes,
            idx,
        ),
{
    lemma_word_variants_from(ctx, children, 0, variant, off, sizes, idx, k);
}


/// A four-byte unsigned value held in a register, in the debugger's
/// evaluator: with the register added, the value is the register's value;
/// otherwise the register is asked for.
pub proof fn lemma_word_register_u32(ctx: WordCtx, r: u16, name: Option<String>, sizes: Seq<Option<u64>>)
    requires
        ctx.pieces == seq![Piece { size_in_bits: None, bit_offset: None, location: PieceLocation::Register(r) }],
        sizes == seq![None::<u64>],
    ensures
        type_spec(
            ctx,
            TypeDie::BaseType { name, byte_size: Some(4u64), encoding: Some(7u8), alignment: None },
            0,
            sizes,
            0,
        ).0 == if ctx.registers.contains_key(r) {
            Ok::<Option<Step>, EvalError>(Some(Step::Value(ValueView::Value(BaseValue::U32(ctx.registers[r]), seq![]))))
        } else {
            Ok::<Option<Step>, EvalError>(Some(Step::Required(EvaluatorResult::RequireReg(r))))
        },
{
    if ctx.registers.contains_key(r) {
        lemma_word_base_value(ctx.registers[r] as u64, 4);
    }
}

} // verus!
