//! A type-directed evaluation of a variable's value along its type, from the
//! pieces of its location and the known memory words and registers: base
//! types read a piece each, structures their members in the order of their
//! locations (or their variant part), variant parts the variant that their
//! discriminant selects.
use vstd::prelude::*;
use std::collections::HashMap;
use crate::debugger::evaluate::EvalResult;
use crate::debugger::evaluate::evaluate::words_as_u64;
use crate::debugger::memory_and_registers::{MemoryAndRegisters, MemoryAndRegistersView};
use crate::gimli_test_example::debugger::evaluate::value::{
    DValue, DebuggerValue, EnumValue, MemberValue, StructValue, dvalue_value, dvalues_view, get_udata,
    gimli_udata,
};
use crate::gimli_test_example::debugger::types::types::{DebuggerType, MemberType, Variant};
use crate::rust_debug::evaluate::evaluate::{Piece, PieceLocation, clone_opt_string, copy_bytes};
use crate::rust_debug::evaluate::value::opt_str_view;
use crate::rust_debug::evaluate::value::GimliValue;
use crate::rust_debug::evaluate::base::{twos, lemma_word_casts};

verus! {

broadcast use vstd::std_specs::hash::group_hash_axioms;

/// How an evaluation ends: with a value (none for a template parameter),
/// with a register or memory words that must be read first, or at a type,
/// location or attribute that this evaluator does not handle.
pub enum GOutcome {
    Done(Option<DValue>),
    Need(EvalResult),
    Fault,
}

/// The value of one or two memory words with a base type of encoding
/// `encoding` and `byte_size` bytes (the first word the more significant);
/// none for the encodings and sizes that are not handled.
pub open spec fn base_value_of_words(data: Seq<u32>, encoding: u8, byte_size: u64) -> Option<GimliValue> {
    if byte_size == 0 || data.len() < 1 || data.len() > 2 {
        None
    } else {
        let v = words_as_u64(data);
        if encoding == 7 && byte_size == 1 {
            Some(GimliValue::U8(v as u8))
        } else if encoding == 7 && byte_size == 2 {
            Some(GimliValue::U16(v as u16))
        } else if encoding == 7 && byte_size == 4 {
            Some(GimliValue::U32(v as u32))
        } else if encoding == 7 && byte_size == 8 {
            Some(GimliValue::U64(v))
        } else if encoding == 5 && byte_size == 1 {
            Some(GimliValue::I8(v as i8))
        } else if encoding == 5 && byte_size == 2 {
            Some(GimliValue::I16(v as i16))
        } else if encoding == 5 && byte_size == 4 {
            Some(GimliValue::I32(v as i32))
        } else if encoding == 5 && byte_size == 8 {
            Some(GimliValue::I64(v as i64))
        } else if encoding == 2 && byte_size == 1 {
            Some(GimliValue::Generic((v as u8) as u64))
        } else {
            None
        }
    }
}

/// Whether the encoding and size are handled by [`eval_base_type`].
pub open spec fn base_type_handled(encoding: u8, byte_size: u64) -> bool {
    ||| encoding == 7 && (byte_size == 1 || byte_size == 2 || byte_size == 4 || byte_size == 8)
    ||| encoding == 5 && (byte_size == 1 || byte_size == 2 || byte_size == 4 || byte_size == 8)
    ||| encoding == 2 && byte_size == 1
}

/// Whether [`eval_base_type`] handles the encoding and size.
pub fn base_type_is_handled(encoding: u8, byte_size: u64) -> (r: bool)
    ensures
        r == base_type_handled(encoding, byte_size),
{
    (encoding == 7 && (byte_size == 1 || byte_size == 2 || byte_size == 4 || byte_size == 8)) || (encoding
        == 5 && (byte_size == 1 || byte_size == 2 || byte_size == 4 || byte_size == 8)) || (encoding == 2
        && byte_size == 1)
}

/// Decodes one or two memory words as a value of a base type.
pub fn eval_base_type(data: &[u32], encoding: u8, byte_size: u64) -> (r: GimliValue)
    requires
        1 <= data@.len() <= 2,
        base_type_handled(encoding, byte_size),
    ensures
        Some(r) == base_value_of_words(data@, encoding, byte_size),
{
    let value = crate::debugger::evaluate::evaluate::slize_as_u64(data);
    if encoding == 7 && byte_size == 1 {
        GimliValue::U8(value as u8)
    } else if encoding == 7 && byte_size == 2 {
        GimliValue::U16(value as u16)
    } else if encoding == 7 && byte_size == 4 {
        GimliValue::U32(value as u32)
    } else if encoding == 7 {
        GimliValue::U64(value)
    } else if encoding == 5 && byte_size == 1 {
        GimliValue::I8(value as i8)
    } else if encoding == 5 && byte_size == 2 {
        GimliValue::I16(value as i16)
    } else if encoding == 5 && byte_size == 4 {
        GimliValue::I32(value as i32)
    } else if encoding == 5 {
        GimliValue::I64(value as i64)
    } else {
        GimliValue::Generic((value as u8) as u64)
    }
}

/// Decodes the words handed over by the expression evaluator: with no base
/// type (the type offset 0) as a generic value, else with the base type's
/// encoding and byte size.
pub fn parse_base_type(data: &[u32], base_type: Option<(u8, u64)>) -> (r: GimliValue)
    requires
        1 <= data@.len() <= 2,
        base_type matches Some((encoding, byte_size)) ==> base_type_handled(encoding, byte_size),
    ensures
        match base_type {
            None => r == GimliValue::Generic(words_as_u64(data@)),
            Some((encoding, byte_size)) => Some(r) == base_value_of_words(data@, encoding, byte_size),
        },
{
    match base_type {
        None => GimliValue::Generic(crate::debugger::evaluate::evaluate::slize_as_u64(data)),
        Some((encoding, byte_size)) => eval_base_type(data, encoding, byte_size),
    }
}

/// The memory words `address, address + 4, ..` (`n` of them), if all are
/// known.
pub open spec fn words_at(m: Map<u32, u32>, address: u32, n: nat) -> Option<Seq<u32>> {
    if forall|k: int| 0 <= k < n ==> #[trigger] m.contains_key((address + 4 * k) as u32) {
        Some(Seq::new(n, |k: int| m[(address + 4 * k) as u32]))
    } else {
        None
    }
}

/// The value of a piece read with a base type of `byte_size` bytes and
/// encoding `encoding`: a register as a 32-bit value, memory words at an
/// address decoded with the base type.
pub open spec fn eval_piece_g(
    piece: Piece,
    byte_size: Option<u64>,
    encoding: Option<u8>,
    m: MemoryAndRegistersView,
) -> GOutcome {
    match piece.location {
        PieceLocation::Empty => GOutcome::Done(Some(DValue::OptimizedOut)),
        PieceLocation::Register(r) => if m.registers.contains_key(r) {
            GOutcome::Done(Some(DValue::Value(GimliValue::U32(m.registers[r]))))
        } else {
            GOutcome::Need(EvalResult::RequiresRegister { register: r })
        },
        PieceLocation::Address(a) => match (encoding, byte_size) {
            (Some(enc), Some(s)) => if 1 <= s <= 8 && base_type_handled(enc, s) && (a as u32) + 4 * ((
            s + 3) / 4 - 1) <= u32::MAX {
                let n = ((s + 3) / 4) as nat;
                match words_at(m.memory, a as u32, n) {
                    None => GOutcome::Need(
                        EvalResult::RequiresMemory { address: a as u32, num_words: n as usize },
                    ),
                    Some(words) => match base_value_of_words(words, enc, s) {
                        Some(v) => GOutcome::Done(Some(DValue::Value(v))),
                        None => GOutcome::Fault,
                    },
                }
            } else {
                GOutcome::Fault
            },
            _ => GOutcome::Fault,
        },
        PieceLocation::Value(v) => GOutcome::Done(Some(DValue::Value(v))),
        PieceLocation::Bytes(b) => GOutcome::Done(Some(DValue::Bytes(b@))),
        PieceLocation::ImplicitPointer => GOutcome::Fault,
    }
}

/// The rank of a data member location in the order the members are read in:
/// members without a location first, then by location.
pub open spec fn location_rank(l: Option<u64>) -> int {
    match l {
        None => 0,
        Some(x) => x + 1,
    }
}

/// Inserts `x` after every entry whose location ranks no higher (a stable
/// insertion).
pub open spec fn insert_member(s: Seq<(Option<u64>, usize)>, x: (Option<u64>, usize)) -> Seq<(Option<u64>, usize)>
    decreases s.len(),
{
    if s.len() == 0 {
        seq![x]
    } else if location_rank(s.last().0) <= location_rank(x.0) {
        s.push(x)
    } else {
        insert_member(s.drop_last(), x).push(s.last())
    }
}

/// What the children of a structure say about how it is read: the index of
/// its first variant part, or its members stably ordered by location.
pub open spec fn member_order(children: Seq<Box<DebuggerType>>, i: nat, acc: Seq<(Option<u64>, usize)>) -> Result<
    nat,
    Seq<(Option<u64>, usize)>,
>
    decreases children.len() - i,
{
    if i >= children.len() {
        Err(acc)
    } else {
        match *children[i as int] {
            DebuggerType::VariantPart(_) => Ok(i),
            DebuggerType::MemberType(mt) => member_order(
                children,
                i + 1,
                insert_member(acc, (mt.data_member_location, i as usize)),
            ),
            _ => member_order(children, i + 1, acc),
        }
    }
}

/// The value of a type, read from the piece at index `idx` on; also the
/// index of the first piece left.
pub open spec fn eval_type_g(pieces: Seq<Piece>, idx: nat, t: DebuggerType, m: MemoryAndRegistersView) -> (
    GOutcome,
    nat,
)
    decreases t, 2nat,
{
    match t {
        DebuggerType::BaseType(bt) => if idx < pieces.len() {
            (eval_piece_g(pieces[idx as int], bt.byte_size, Some(bt.encoding), m), idx + 1)
        } else {
            (GOutcome::Done(Some(DValue::OptimizedOut)), idx)
        },
        DebuggerType::MemberType(mt) => eval_member_g(pieces, idx, mt, m),
        DebuggerType::StructuredType(_) => eval_struct_g(pieces, idx, t, m),
        DebuggerType::VariantPart(_) => eval_variant_part_g(pieces, idx, t, m),
        DebuggerType::TemplateTypeParameter(_) => (GOutcome::Done(None), idx),
        _ => (GOutcome::Fault, idx),
    }
}

/// The value of a member: its name and the value of its type.
pub open spec fn eval_member_g(pieces: Seq<Piece>, idx: nat, mt: MemberType, m: MemoryAndRegistersView) -> (
    GOutcome,
    nat,
)
    decreases mt, 1nat,
{
    let (o, rest) = eval_type_g(pieces, idx, *mt.type_, m);
    match o {
        GOutcome::Done(Some(v)) => (
            GOutcome::Done(
                Some(
                    DValue::Member(
                        match mt.name {
                            Some(n) => Some(n@),
                            None => None,
                        },
                        Box::new(v),
                    ),
                ),
            ),
            rest,
        ),
        GOutcome::Done(None) => (GOutcome::Fault, rest),
        other => (other, rest),
    }
}

/// The values of the members `order[i..]` of `children`, in order, after
/// `acc`.
pub open spec fn eval_members_g(
    pieces: Seq<Piece>,
    idx: nat,
    children: Seq<Box<DebuggerType>>,
    order: Seq<(Option<u64>, usize)>,
    i: nat,
    m: MemoryAndRegistersView,
    acc: Seq<DValue>,
) -> (Result<Seq<DValue>, GOutcome>, nat)
    decreases children, 0nat, order.len() - i,
{
    if i >= order.len() {
        (Ok(acc), idx)
    } else {
        let k = order[i as int].1;
        if k >= children.len() {
            (Err(GOutcome::Fault), idx)
        } else {
            match *children[k as int] {
                DebuggerType::MemberType(mt) => {
                    let (o, rest) = eval_member_g(pieces, idx, mt, m);
                    match o {
                        GOutcome::Done(Some(v)) => eval_members_g(pieces, rest, children, order, i + 1, m, acc.push(v)),
                        GOutcome::Done(None) => (Err(GOutcome::Fault), rest),
                        other => (Err(other), rest),
                    }
                },
                _ => (Err(GOutcome::Fault), idx),
            }
        }
    }
}

/// The value of a structure: its variant part's value, or its members' values
/// in the order of their locations; the structure must have a name.
pub open spec fn eval_struct_g(pieces: Seq<Piece>, idx: nat, t: DebuggerType, m: MemoryAndRegistersView) -> (
    GOutcome,
    nat,
)
    decreases t, 1nat,
{
    match t {
        DebuggerType::StructuredType(st) => match member_order(st.children@, 0, seq![]) {
            Ok(k) => if k < st.children@.len() {
                let (o, rest) = eval_variant_part_g(pieces, idx, *st.children@[k as int], m);
                match o {
                    GOutcome::Done(Some(v)) => match st.name {
                        Some(n) => (GOutcome::Done(Some(DValue::Struct(n@, seq![v]))), rest),
                        None => (GOutcome::Fault, rest),
                    },
                    GOutcome::Done(None) => (GOutcome::Fault, rest),
                    other => (other, rest),
                }
            } else {
                (GOutcome::Fault, idx)
            },
            Err(order) => {
                let (r, rest) = eval_members_g(pieces, idx, st.children@, order, 0, m, seq![]);
                match r {
                    Ok(vs) => match st.name {
                        Some(n) => (GOutcome::Done(Some(DValue::Struct(n@, vs))), rest),
                        None => (GOutcome::Fault, rest),
                    },
                    Err(o) => (o, rest),
                }
            },
        },
        _ => (GOutcome::Fault, idx),
    }
}

/// The index of the first variant whose discriminant value is `discr`; a
/// variant without a discriminant value before it is a fault.
pub open spec fn select_variant(discrs: Seq<Option<u64>>, discr: u64, j: nat) -> Option<nat>
    decreases discrs.len() - j,
{
    if j >= discrs.len() {
        None
    } else {
        match discrs[j as int] {
            None => None,
            Some(d) => if d == discr {
                Some(j)
            } else {
                select_variant(discrs, discr, j + 1)
            },
        }
    }
}

/// The value of a variant part: its discriminant member is read, and the
/// variant it selects is read as an enumeration value named after the
/// variant's member.
pub open spec fn eval_variant_part_g(pieces: Seq<Piece>, idx: nat, t: DebuggerType, m: MemoryAndRegistersView) -> (
    GOutcome,
    nat,
)
    decreases t, 1nat,
{
    match t {
        DebuggerType::VariantPart(vp) => match vp.member {
            None => (GOutcome::Fault, idx),
            Some(dm) => {
                let (o, rest) = eval_member_g(pieces, idx, dm, m);
                match o {
                    GOutcome::Done(Some(dv)) => match dvalue_value(dv) {
                        None => (GOutcome::Fault, rest),
                        Some(g) => match gimli_udata(g) {
                            None => (GOutcome::Fault, rest),
                            Some(discr) => {
                                match select_variant(variant_discrs(vp.variants@), discr, 0) {
                                    None => (GOutcome::Fault, rest),
                                    Some(j) => if j < vp.variants@.len() {
                                        let vm = vp.variants@[j as int].member;
                                        match vm.name {
                                            None => (GOutcome::Fault, rest),
                                            Some(n) => {
                                                let (o2, rest2) = eval_member_g(pieces, rest, vm, m);
                                                match o2 {
                                                    GOutcome::Done(Some(v)) => (
                                                        GOutcome::Done(
                                                            Some(DValue::Enum(n@, Box::new(v))),
                                                        ),
                                                        rest2,
                                                    ),
                                                    GOutcome::Done(None) => (GOutcome::Fault, rest2),
                                                    other => (other, rest2),
                                                }
                                            },
                                        }
                                    } else {
                                        (GOutcome::Fault, rest)
                                    },
                                }
                            },
                        },
                    },
                    GOutcome::Done(None) => (GOutcome::Fault, rest),
                    other => (other, rest),
                }
            },
        },
        _ => (GOutcome::Fault, idx),
    }
}

/// The value of a variable: read along its type, or without a type as its
/// first piece; a missing value is a fault.
pub open spec fn evaluate_g(pieces: Seq<Piece>, vtype: Option<DebuggerType>, m: MemoryAndRegistersView) -> GOutcome {
    let o = match vtype {
        Some(t) => eval_type_g(pieces, 0, t, m).0,
        None => if pieces.len() > 0 {
            eval_piece_g(pieces[0], None, None, m)
        } else {
            GOutcome::Fault
        },
    };
    match o {
        GOutcome::Done(None) => GOutcome::Fault,
        other => other,
    }
}

/// How an evaluation ends (see [`GOutcome`]).
#[derive(Debug)]
pub enum Outcome {
    Done(Option<DebuggerValue>),
    Need(EvalResult),
    Fault,
}

/// `o` is the outcome `g`, values taken by their views.
pub open spec fn outcome_is(o: Outcome, g: GOutcome) -> bool {
    match (o, g) {
        (Outcome::Done(None), GOutcome::Done(None)) => true,
        (Outcome::Done(Some(v)), GOutcome::Done(Some(dv))) => v@ == dv,
        (Outcome::Need(a), GOutcome::Need(b)) => a == b,
        (Outcome::Fault, GOutcome::Fault) => true,
        _ => false,
    }
}

pub fn eval_piece(piece: &Piece, byte_size: Option<u64>, encoding: Option<u8>, mem: &MemoryAndRegisters) -> (r: Outcome)
    ensures
        outcome_is(r, eval_piece_g(*piece, byte_size, encoding, mem@)),
{
    match &piece.location {
        PieceLocation::Empty => Outcome::Done(Some(DebuggerValue::OptimizedOut)),
        PieceLocation::Register(reg) => match mem.get_register_value(reg) {
            Some(v) => Outcome::Done(Some(DebuggerValue::Value(GimliValue::U32(*v)))),
            None => Outcome::Need(EvalResult::RequiresRegister { register: *reg }),
        },
        PieceLocation::Address(a) => {
            let (enc, s) = match (encoding, byte_size) {
                (Some(enc), Some(s)) => (enc, s),
                _ => return Outcome::Fault,
            };
            if !(1 <= s && s <= 8) {
                return Outcome::Fault;
            }
            if !base_type_is_handled(enc, s) {
                return Outcome::Fault;
            }
            let a32 = *a as u32;
            let n = ((s + 3) / 4) as usize;
            if (a32 as u64) + 4 * ((n as u64) - 1) > 0xffff_ffff {
                return Outcome::Fault;
            }
            let mut words: Vec<u32> = Vec::new();
            let mut k: usize = 0;
            while k < n
                invariant
                    k <= n,
                    encoding == Some(enc),
                    byte_size == Some(s),
                    piece.location == PieceLocation::Address(*a),
                    1 <= s <= 8,
                    base_type_handled(enc, s),
                    a32 == *a as u32,
                    n == (s + 3) / 4,
                    1 <= n <= 2,
                    a32 + 4 * (n - 1) <= u32::MAX,
                    forall|j: int| 0 <= j < k ==> #[trigger] mem@.memory.contains_key((a32 + 4 * j) as u32),
                    words@ == Seq::new(k as nat, |j: int| mem@.memory[(a32 + 4 * j) as u32]),
                decreases n - k,
            {
                let addr: u32 = a32 + 4 * (k as u32);
                match mem.get_address_value(&addr) {
                    Some(w) => {
                        words.push(*w);
                    },
                    None => {
                        assert(!mem@.memory.contains_key((a32 + 4 * k) as u32));
                        assert(words_at(mem@.memory, a32, n as nat) is None);
                        return Outcome::Need(EvalResult::RequiresMemory { address: a32, num_words: n });
                    },
                }
                k += 1;
                assert(words@ =~= Seq::new(k as nat, |j: int| mem@.memory[(a32 + 4 * j) as u32]));
            }
            assert(words_at(mem@.memory, a32, n as nat) == Some(words@));
            Outcome::Done(Some(DebuggerValue::Value(eval_base_type(words.as_slice(), enc, s))))
        },
        PieceLocation::Value(v) => Outcome::Done(Some(DebuggerValue::Value(*v))),
        PieceLocation::Bytes(b) => Outcome::Done(Some(DebuggerValue::Bytes(copy_bytes(b)))),
        PieceLocation::ImplicitPointer => Outcome::Fault,
    }
}


/// Reads the piece at `idx` with a base type; past the last piece the value
/// is optimized out.
pub fn eval_basetype(pieces: &Vec<Piece>, idx: usize, t: &DebuggerType, mem: &MemoryAndRegisters) -> (r: (
    Outcome,
    usize,
))
    requires
        idx <= pieces@.len(),
        t is BaseType,
    ensures
        outcome_is(r.0, eval_type_g(pieces@, idx as nat, *t, mem@).0),
        r.1 as nat == eval_type_g(pieces@, idx as nat, *t, mem@).1,
        r.1 <= pieces@.len(),
{
    match t {
        DebuggerType::BaseType(bt) => if idx < pieces.len() {
            (eval_piece(&pieces[idx], bt.byte_size, Some(bt.encoding), mem), idx + 1)
        } else {
            (Outcome::Done(Some(DebuggerValue::OptimizedOut)), idx)
        },
        _ => (Outcome::Fault, idx),
    }
}

/// Evaluates a type from the piece at `idx` on (see [`eval_type_g`]); also
/// gives the index of the first piece left.
pub fn eval_type(pieces: &Vec<Piece>, idx: usize, t: &DebuggerType, mem: &MemoryAndRegisters) -> (r: (
    Outcome,
    usize,
))
    requires
        idx <= pieces@.len(),
    ensures
        outcome_is(r.0, eval_type_g(pieces@, idx as nat, *t, mem@).0),
        r.1 as nat == eval_type_g(pieces@, idx as nat, *t, mem@).1,
        r.1 <= pieces@.len(),
    decreases t, 2nat,
{
    match t {
        DebuggerType::BaseType(_) => eval_basetype(pieces, idx, t, mem),
        DebuggerType::MemberType(mt) => eval_member(pieces, idx, mt, mem),
        DebuggerType::StructuredType(_) => eval_structured_type(pieces, idx, t, mem),
        DebuggerType::VariantPart(_) => eval_variant_part(pieces, idx, t, mem),
        DebuggerType::TemplateTypeParameter(_) => (Outcome::Done(None), idx),
        _ => (Outcome::Fault, idx),
    }
}

/// Evaluates a member: its name and the value of its type (see
/// [`eval_member_g`]).
pub fn eval_member(pieces: &Vec<Piece>, idx: usize, mt: &MemberType, mem: &MemoryAndRegisters) -> (r: (
    Outcome,
    usize,
))
    requires
        idx <= pieces@.len(),
    ensures
        outcome_is(r.0, eval_member_g(pieces@, idx as nat, *mt, mem@).0),
        r.1 as nat == eval_member_g(pieces@, idx as nat, *mt, mem@).1,
        r.1 <= pieces@.len(),
    decreases mt, 1nat,
{
    let (o, rest) = eval_type(pieces, idx, &mt.type_, mem);
    match o {
        Outcome::Done(Some(v)) => (
            Outcome::Done(
                Some(
                    DebuggerValue::Member(
                        Box::new(MemberValue { name: clone_opt_string(&mt.name), value: v }),
                    ),
                ),
            ),
            rest,
        ),
        Outcome::Done(None) => (Outcome::Fault, rest),
        other => (other, rest),
    }
}


fn rank_le(a: Option<u64>, b: Option<u64>) -> (r: bool)
    ensures
        r == (location_rank(a) <= location_rank(b)),
{
    match (a, b) {
        (None, _) => true,
        (Some(_), None) => false,
        (Some(x), Some(y)) => x <= y,
    }
}

/// Inserts a member after every entry whose location ranks no higher.
fn insert_member_exec(v: &mut Vec<(Option<u64>, usize)>, x: (Option<u64>, usize))
    ensures
        final(v)@ == insert_member(old(v)@, x),
{
    let mut p = v.len();
    assert(v@.take(p as int) =~= v@);
    assert(v@.skip(p as int) =~= Seq::<(Option<u64>, usize)>::empty());
    while p > 0 && !rank_le(v[p - 1].0, x.0)
        invariant
            p <= v.len(),
            v@ == old(v)@,
            insert_member(v@, x) == insert_member(v@.take(p as int), x) + v@.skip(p as int),
        decreases p,
    {
        let ghost t = v@.take(p as int);
        assert(t.drop_last() =~= v@.take(p - 1));
        assert(t.last() == v@[p - 1]);
        assert(v@.skip(p - 1) =~= seq![v@[p - 1]] + v@.skip(p as int));
        assert(insert_member(t, x) == insert_member(v@.take(p - 1), x).push(v@[p - 1]));
        assert(insert_member(v@.take(p - 1), x).push(v@[p - 1]) + v@.skip(p as int) =~= insert_member(
            v@.take(p - 1),
            x,
        ) + v@.skip(p - 1));
        p -= 1;
    }
    let ghost before = v@;
    if p == 0 {
        assert(before.take(0) =~= Seq::<(Option<u64>, usize)>::empty());
    } else {
        assert(before.take(p as int).last() == before[p - 1]);
    }
    assert(insert_member(before.take(p as int), x) =~= before.take(p as int).push(x));
    v.insert(p, x);
    assert(v@ =~= before.take(p as int).push(x) + before.skip(p as int));
}

/// The index of a structure's first variant part, or its members stably
/// ordered by location (see [`member_order`]).
fn member_order_exec(children: &Vec<Box<DebuggerType>>) -> (r: Result<usize, Vec<(Option<u64>, usize)>>)
    ensures
        match member_order(children@, 0, seq![]) {
            Ok(k) => r matches Ok(j) && j == k,
            Err(o) => r matches Err(v) && v@ == o,
        },
{
    let mut acc: Vec<(Option<u64>, usize)> = Vec::new();
    let mut i: usize = 0;
    while i < children.len()
        invariant
            i <= children.len(),
            member_order(children@, i as nat, acc@) == member_order(children@, 0, seq![]),
        decreases children.len() - i,
    {
        let c: &DebuggerType = &children[i];
        match c {
            DebuggerType::VariantPart(_) => {
                return Ok(i);
            },
            DebuggerType::MemberType(mt) => {
                insert_member_exec(&mut acc, (mt.data_member_location, i));
            },
            _ => {},
        }
        i += 1;
    }
    Err(acc)
}

/// The discriminant values of variants, in order.
pub open spec fn variant_discrs(variants: Seq<Variant>) -> Seq<Option<u64>> {
    Seq::new(variants.len(), |j: int| variants[j].discr_value)
}

fn select_variant_exec(variants: &Vec<Variant>, discr: u64) -> (r: Option<usize>)
    ensures
        match select_variant(variant_discrs(variants@), discr, 0) {
            None => r is None,
            Some(j) => r matches Some(x) && x as nat == j,
        },
{
    let ghost d = variant_discrs(variants@);
    let mut j: usize = 0;
    while j < variants.len()
        invariant
            j <= variants.len(),
            d == variant_discrs(variants@),
            select_variant(d, discr, j as nat) == select_variant(d, discr, 0),
        decreases variants.len() - j,
    {
        match variants[j].discr_value {
            None => {
                return None;
            },
            Some(v) => {
                if v == discr {
                    return Some(j);
                }
            },
        }
        j += 1;
    }
    None
}

fn has_value(v: &DebuggerValue) -> (r: bool)
    ensures
        r == dvalue_value(v@) is Some,
    decreases v,
{
    match v {
        DebuggerValue::Value(_) => true,
        DebuggerValue::Member(m) => has_value(&m.value),
        DebuggerValue::OptimizedOut => true,
        _ => false,
    }
}

/// Evaluates the members of a structure in the order given (see
/// [`eval_members_g`]).
fn eval_members(
    pieces: &Vec<Piece>,
    idx: usize,
    children: &Vec<Box<DebuggerType>>,
    order: &Vec<(Option<u64>, usize)>,
    mem: &MemoryAndRegisters,
) -> (r: (Result<Vec<DebuggerValue>, Outcome>, usize))
    requires
        idx <= pieces@.len(),
    ensures
        r.1 <= pieces@.len(),
        r.1 as nat == eval_members_g(pieces@, idx as nat, children@, order@, 0, mem@, seq![]).1,
        match eval_members_g(pieces@, idx as nat, children@, order@, 0, mem@, seq![]).0 {
            Ok(vs) => r.0 matches Ok(v) && dvalues_view(v@) == vs,
            Err(g) => r.0 matches Err(o) && outcome_is(o, g),
        },
    decreases children@, 1nat,
{
    let ghost whole = eval_members_g(pieces@, idx as nat, children@, order@, 0, mem@, seq![]);
    let mut values: Vec<DebuggerValue> = Vec::new();
    let mut cur = idx;
    let mut i: usize = 0;
    assert(dvalues_view(values@) =~= Seq::<DValue>::empty());
    while i < order.len()
        invariant
            i <= order.len(),
            cur <= pieces@.len(),
            whole == eval_members_g(pieces@, idx as nat, children@, order@, 0, mem@, seq![]),
            whole == eval_members_g(pieces@, cur as nat, children@, order@, i as nat, mem@, dvalues_view(values@)),
        decreases order.len() - i,
    {
        let k = order[i].1;
        if k >= children.len() {
            return (Err(Outcome::Fault), cur);
        }
        let c: &DebuggerType = &children[k];
        match c {
            DebuggerType::MemberType(mt) => {
                let (o, rest) = eval_member(pieces, cur, mt, mem);
                match o {
                    Outcome::Done(Some(v)) => {
                        assert(dvalues_view(values@.push(v)) =~= dvalues_view(values@).push(v@));
                        values.push(v);
                        cur = rest;
                    },
                    Outcome::Done(None) => {
                        return (Err(Outcome::Fault), rest);
                    },
                    other => {
                        return (Err(other), rest);
                    },
                }
            },
            _ => {
                return (Err(Outcome::Fault), cur);
            },
        }
        i += 1;
    }
    (Ok(values), cur)
}

/// Evaluates a structure: its variant part, or its members in the order of
/// their locations (see [`eval_struct_g`]).
pub fn eval_structured_type(pieces: &Vec<Piece>, idx: usize, t: &DebuggerType, mem: &MemoryAndRegisters) -> (r: (
    Outcome,
    usize,
))
    requires
        idx <= pieces@.len(),
    ensures
        outcome_is(r.0, eval_struct_g(pieces@, idx as nat, *t, mem@).0),
        r.1 as nat == eval_struct_g(pieces@, idx as nat, *t, mem@).1,
        r.1 <= pieces@.len(),
    decreases t, 1nat,
{
    match t {
        DebuggerType::StructuredType(st) => match member_order_exec(&st.children) {
            Ok(k) => {
                if k >= st.children.len() {
                    return (Outcome::Fault, idx);
                }
                let c: &DebuggerType = &st.children[k];
                let (o, rest) = eval_variant_part(pieces, idx, c, mem);
                match o {
                    Outcome::Done(Some(v)) => match &st.name {
                        Some(n) => {
                            let mut members: Vec<DebuggerValue> = Vec::new();
                            members.push(v);
                            assert(dvalues_view(members@) =~= seq![v@]);
                            (
                                Outcome::Done(
                                    Some(DebuggerValue::Struct(Box::new(StructValue { name: n.clone(), members }))),
                                ),
                                rest,
                            )
                        },
                        None => (Outcome::Fault, rest),
                    },
                    Outcome::Done(None) => (Outcome::Fault, rest),
                    other => (other, rest),
                }
            },
            Err(order) => {
                let (res, rest) = eval_members(pieces, idx, &st.children, &order, mem);
                match res {
                    Ok(members) => match &st.name {
                        Some(n) => (
                            Outcome::Done(
                                Some(DebuggerValue::Struct(Box::new(StructValue { name: n.clone(), members }))),
                            ),
                            rest,
                        ),
                        None => (Outcome::Fault, rest),
                    },
                    Err(o) => (o, rest),
                }
            },
        },
        _ => (Outcome::Fault, idx),
    }
}

/// Evaluates a variant part: its discriminant member, then the variant it
/// selects as an enumeration value (see [`eval_variant_part_g`]).
pub fn eval_variant_part(pieces: &Vec<Piece>, idx: usize, t: &DebuggerType, mem: &MemoryAndRegisters) -> (r: (
    Outcome,
    usize,
))
    requires
        idx <= pieces@.len(),
    ensures
        outcome_is(r.0, eval_variant_part_g(pieces@, idx as nat, *t, mem@).0),
        r.1 as nat == eval_variant_part_g(pieces@, idx as nat, *t, mem@).1,
        r.1 <= pieces@.len(),
    decreases t, 1nat,
{
    match t {
        DebuggerType::VariantPart(vp) => match &vp.member {
            None => (Outcome::Fault, idx),
            Some(dm) => {
                let (o, rest) = eval_member(pieces, idx, dm, mem);
                let dv = match o {
                    Outcome::Done(Some(dv)) => dv,
                    Outcome::Done(None) => {
                        return (Outcome::Fault, rest);
                    },
                    other => {
                        return (other, rest);
                    },
                };
                if !has_value(&dv) {
                    return (Outcome::Fault, rest);
                }
                let g = dv.to_value();
                let g = match g {
                    Some(g) => g,
                    None => {
                        return (Outcome::Fault, rest);
                    },
                };
                let unsigned = match g {
                    GimliValue::U8(_) | GimliValue::U16(_) | GimliValue::U32(_) | GimliValue::U64(_)
                    | GimliValue::Generic(_) => true,
                    _ => false,
                };
                if !unsigned {
                    return (Outcome::Fault, rest);
                }
                let discr = get_udata(g);
                let j = match select_variant_exec(&vp.variants, discr) {
                    None => {
                        return (Outcome::Fault, rest);
                    },
                    Some(j) => j,
                };
                if j >= vp.variants.len() {
                    return (Outcome::Fault, rest);
                }
                let vm = &vp.variants[j].member;
                match &vm.name {
                    None => (Outcome::Fault, rest),
                    Some(n) => {
                        let (o2, rest2) = eval_member(pieces, rest, vm, mem);
                        match o2 {
                            Outcome::Done(Some(v)) => (
                                Outcome::Done(
                                    Some(DebuggerValue::Enum(Box::new(EnumValue { name: n.clone(), value: v }))),
                                ),
                                rest2,
                            ),
                            Outcome::Done(None) => (Outcome::Fault, rest2),
                            other => (other, rest2),
                        }
                    },
                }
            },
        },
        _ => (Outcome::Fault, idx),
    }
}

/// Evaluates a variable from the pieces of its location: along its type, or
/// without a type as its first piece (see [`evaluate_g`]). The outcome is the
/// value, the register or memory words to read first, or a fault at what is
/// not handled.
pub fn evaluate(pieces: &Vec<Piece>, vtype: Option<&DebuggerType>, mem: &MemoryAndRegisters) -> (r: Outcome)
    ensures
        outcome_is(
            r,
            evaluate_g(
                pieces@,
                match vtype {
                    Some(t) => Some(*t),
                    None => None,
                },
                mem@,
            ),
        ),
        r matches Outcome::Need(EvalResult::RequiresRegister { register }) ==> !mem@.registers.contains_key(
            register,
        ),
        r matches Outcome::Need(EvalResult::RequiresMemory { address, num_words }) ==> words_at(
            mem@.memory,
            address,
            num_words as nat,
        ) is None,
        !(r matches Outcome::Need(EvalResult::Complete)),
{
    proof {
        lemma_needs_are_genuine(
            pieces@,
            match vtype {
                Some(t) => Some(*t),
                None => None,
            },
            mem@,
        );
    }
    let o = match vtype {
        Some(t) => eval_type(pieces, 0, t, mem).0,
        None => if pieces.len() > 0 {
            eval_piece(&pieces[0], None, None, mem)
        } else {
            Outcome::Fault
        },
    };
    match o {
        Outcome::Done(None) => Outcome::Fault,
        other => other,
    }
}


/// A stop for a register or memory words asks for what is not known: the
/// register is not among the known registers, or some word of the range is
/// not among the known memory words; it never asks for nothing.
pub open spec fn need_is_genuine(m: MemoryAndRegistersView, o: GOutcome) -> bool {
    match o {
        GOutcome::Need(EvalResult::RequiresRegister { register }) => !m.registers.contains_key(register),
        GOutcome::Need(EvalResult::RequiresMemory { address, num_words }) => words_at(
            m.memory,
            address,
            num_words as nat,
        ) is None,
        GOutcome::Need(EvalResult::Complete) => false,
        _ => true,
    }
}

proof fn lemma_piece_genuine(piece: Piece, byte_size: Option<u64>, encoding: Option<u8>, m: MemoryAndRegistersView)
    ensures
        need_is_genuine(m, eval_piece_g(piece, byte_size, encoding, m)),
{
}

proof fn lemma_type_genuine(pieces: Seq<Piece>, idx: nat, t: DebuggerType, m: MemoryAndRegistersView)
    ensures
        need_is_genuine(m, eval_type_g(pieces, idx, t, m).0),
    decreases t, 2nat,
{
    match t {
        DebuggerType::BaseType(bt) => if idx < pieces.len() {
            lemma_piece_genuine(pieces[idx as int], bt.byte_size, Some(bt.encoding), m);
        },
        DebuggerType::MemberType(mt) => lemma_member_genuine(pieces, idx, mt, m),
        DebuggerType::StructuredType(_) => lemma_struct_genuine(pieces, idx, t, m),
        DebuggerType::VariantPart(_) => lemma_variant_part_genuine(pieces, idx, t, m),
        _ => {},
    }
}

proof fn lemma_member_genuine(pieces: Seq<Piece>, idx: nat, mt: MemberType, m: MemoryAndRegistersView)
    ensures
        need_is_genuine(m, eval_member_g(pieces, idx, mt, m).0),
    decreases mt, 1nat,
{
    lemma_type_genuine(pieces, idx, *mt.type_, m);
}

proof fn lemma_members_genuine(
    pieces: Seq<Piece>,
    idx: nat,
    children: Seq<Box<DebuggerType>>,
    order: Seq<(Option<u64>, usize)>,
    i: nat,
    m: MemoryAndRegistersView,
    acc: Seq<DValue>,
)
    ensures
        eval_members_g(pieces, idx, children, order, i, m, acc).0 matches Err(o) ==> need_is_genuine(m, o),
    decreases children, 0nat, order.len() - i,
{
    if i < order.len() {
        let k = order[i as int].1;
        if k < children.len() {
            match *children[k as int] {
                DebuggerType::MemberType(mt) => {
                    lemma_member_genuine(pieces, idx, mt, m);
                    let (o, rest) = eval_member_g(pieces, idx, mt, m);
                    if let GOutcome::Done(Some(v)) = o {
                        lemma_members_genuine(pieces, rest, children, order, i + 1, m, acc.push(v));
                    }
                },
                _ => {},
            }
        }
    }
}

proof fn lemma_struct_genuine(pieces: Seq<Piece>, idx: nat, t: DebuggerType, m: MemoryAndRegistersView)
    ensures
        need_is_genuine(m, eval_struct_g(pieces, idx, t, m).0),
    decreases t, 1nat,
{
    match t {
        DebuggerType::StructuredType(st) => match member_order(st.children@, 0, seq![]) {
            Ok(k) => if k < st.children@.len() {
                lemma_variant_part_genuine(pieces, idx, *st.children@[k as int], m);
            },
            Err(order) => lemma_members_genuine(pieces, idx, st.children@, order, 0, m, seq![]),
        },
        _ => {},
    }
}

proof fn lemma_variant_part_genuine(pieces: Seq<Piece>, idx: nat, t: DebuggerType, m: MemoryAndRegistersView)
    ensures
        need_is_genuine(m, eval_variant_part_g(pieces, idx, t, m).0),
    decreases t, 1nat,
{
    match t {
        DebuggerType::VariantPart(vp) => match vp.member {
            None => {},
            Some(dm) => {
                lemma_member_genuine(pieces, idx, dm, m);
                let (o, rest) = eval_member_g(pieces, idx, dm, m);
                if let GOutcome::Done(Some(dv)) = o {
                    if let Some(g) = dvalue_value(dv) {
                        if let Some(discr) = gimli_udata(g) {
                            if let Some(j) = select_variant(variant_discrs(vp.variants@), discr, 0) {
                                if j < vp.variants@.len() {
                                    lemma_member_genuine(pieces, rest, vp.variants@[j as int].member, m);
                                }
                            }
                        }
                    }
                }
            },
        },
        _ => {},
    }
}

/// The type-directed evaluator asks only for what it lacks: whenever the
/// evaluation of a variable stops for a register or memory words, that
/// register is not known, or some of those words are not; it never stops
/// asking for nothing.
pub proof fn lemma_needs_are_genuine(pieces: Seq<Piece>, vtype: Option<DebuggerType>, m: MemoryAndRegistersView)
    ensures
        need_is_genuine(m, evaluate_g(pieces, vtype, m)),
{
    match vtype {
        Some(t) => lemma_type_genuine(pieces, 0, t, m),
        None => if pieces.len() > 0 {
            lemma_piece_genuine(pieces[0], None, None, m);
        },
    }
}


/// Decoding memory words: with `v` the value of the words (the first word
/// the more significant), an unsigned base type of `b` bytes (1, 2, 4 or 8)
/// gives the low `8 * b` bits of `v`, a signed one their two's-complement
/// reading, a one-byte boolean the low byte of `v`.
pub proof fn lemma_words_decoding(data: Seq<u32>)
    requires
        1 <= data.len() <= 2,
    ensures
        ({
            let v = words_as_u64(data);
            &&& base_value_of_words(data, 7, 1) == Some(GimliValue::U8((v % 0x100) as u8))
            &&& base_value_of_words(data, 7, 2) == Some(GimliValue::U16((v % 0x1_0000) as u16))
            &&& base_value_of_words(data, 7, 4) == Some(GimliValue::U32((v % 0x1_0000_0000) as u32))
            &&& base_value_of_words(data, 7, 8) == Some(GimliValue::U64(v))
            &&& base_value_of_words(data, 2, 1) == Some(GimliValue::Generic(v % 0x100))
            &&& (base_value_of_words(data, 5, 1) matches Some(GimliValue::I8(s)) && s as int == twos(v as int % 0x100, 0x100))
            &&& (base_value_of_words(data, 5, 2) matches Some(GimliValue::I16(s)) && s as int == twos(v as int % 0x1_0000, 0x1_0000))
            &&& (base_value_of_words(data, 5, 4) matches Some(GimliValue::I32(s)) && s as int == twos(v as int % 0x1_0000_0000, 0x1_0000_0000))
            &&& (base_value_of_words(data, 5, 8) matches Some(GimliValue::I64(s)) && s as int == twos(v as int, 0x1_0000_0000_0000_0000))
        }),
{
    lemma_word_casts(words_as_u64(data));
}


proof fn lemma_select_variant_from(discrs: Seq<Option<u64>>, discr: u64, j: nat)
    ensures
        select_variant(discrs, discr, j) matches Some(k) ==> j <= k < discrs.len() && discrs[k as int]
            == Some(discr) && forall|i: int| j <= i < k ==> ((#[trigger] discrs[i]) is Some && discrs[i]->Some_0 != discr),
        forall|k: int|
            j <= k < discrs.len() && #[trigger] discrs[k] == Some(discr) && (forall|i: int|
                j <= i < k ==> ((#[trigger] discrs[i]) is Some && discrs[i]->Some_0 != discr)) ==> select_variant(discrs, discr, j)
                == Some(k as nat),
    decreases discrs.len() - j,
{
    if j < discrs.len() {
        lemma_select_variant_from(discrs, discr, j + 1);
        assert forall|k: int|
            j <= k < discrs.len() && #[trigger] discrs[k] == Some(discr) && (forall|i: int|
                j <= i < k ==> ((#[trigger] discrs[i]) is Some && discrs[i]->Some_0 != discr)) implies select_variant(
            discrs,
            discr,
            j,
        ) == Some(k as nat) by {
            if k > j {
                assert(discrs[j as int] is Some && discrs[j as int]->Some_0 != discr);
                assert forall|i: int| j + 1 <= i < k implies ((#[trigger] discrs[i]) is Some && discrs[i]->Some_0 != discr) by {}
            }
        }
    }
}

/// The variant a discriminant selects: the first variant whose
/// discriminant value equals the discriminant, every variant before it
/// having another discriminant value; no other variant is selected.
pub proof fn lemma_select_variant(discrs: Seq<Option<u64>>, discr: u64)
    ensures
        select_variant(discrs, discr, 0) matches Some(k) ==> k < discrs.len() && discrs[k as int] == Some(discr)
            && forall|i: int| 0 <= i < k ==> ((#[trigger] discrs[i]) is Some && discrs[i]->Some_0 != discr),
        forall|k: int|
            0 <= k < discrs.len() && #[trigger] discrs[k] == Some(discr) && (forall|i: int|
                0 <= i < k ==> ((#[trigger] discrs[i]) is Some && discrs[i]->Some_0 != discr)) ==> select_variant(discrs, discr, 0)
                == Some(k as nat),
{
    lemma_select_variant_from(discrs, discr, 0);
}

/// A piece read as a four-byte unsigned base type: from a register, the
/// register's value; from an address, the memory word stored there, or a
/// request for that word.
pub proof fn lemma_piece_u32(piece: Piece, m: MemoryAndRegistersView)
    ensures
        piece.location matches PieceLocation::Register(r) ==> eval_piece_g(piece, Some(4u64), Some(7u8), m)
            == if m.registers.contains_key(r) {
            GOutcome::Done(Some(DValue::Value(GimliValue::U32(m.registers[r]))))
        } else {
            GOutcome::Need(EvalResult::RequiresRegister { register: r })
        },
        piece.location matches PieceLocation::Address(a) ==> eval_piece_g(piece, Some(4u64), Some(7u8), m)
            == if m.memory.contains_key(a as u32) {
            GOutcome::Done(Some(DValue::Value(GimliValue::U32(m.memory[a as u32]))))
        } else {
            GOutcome::Need(EvalResult::RequiresMemory { address: a as u32, num_words: 1 })
        },
{
    if let PieceLocation::Address(a) = piece.location {
        assert(((4u64 + 3) / 4) == 1);
        if m.memory.contains_key(a as u32) {
            let ws = seq![m.memory[a as u32]];
            assert(((a as u32) + 4 * 0) as u32 == a as u32);
            assert(words_at(m.memory, a as u32, 1) == Some(ws)) by {
                assert(Seq::new(1, |k: int| m.memory[((a as u32) + 4 * k) as u32]) =~= ws);
            }
            lemma_words_decoding(ws);
        } else {
            assert(!m.memory.contains_key(((a as u32) + 4 * 0) as u32));
        }
    }
}

} // verus!
