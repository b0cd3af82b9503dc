//! What the debugger's evaluator gives with part of the target known,
//! against what it gives with all of it known: the same outcome, or a
//! request for a register or word it lacks; and answering its requests from
//! the target ends in the outcome it gives with everything known from the
//! start.
use vstd::prelude::*;
use vstd::set_lib::{lemma_int_range, lemma_len_subset, lemma_set_subset_finite, set_int_range};
use crate::rust_debug::evaluate::evaluate::{
    EvaluatorResult, MemberScan, MembersOutcome, Piece, PieceLocation, Step, TypeDie, count_variants,
    first_member, scan_members,
};
use crate::rust_debug::evaluate::value::ValueView;
use crate::debugger::evaluate::evaluate::{
    EvalError, WordCtx, WordOut, WordScan, align_spec, array_spec, basetype_spec, enum_spec,
    evaluate_spec, handle_spec, initial_sizes, member_spec, members_spec, needs_value, piece_spec,
    pointer_spec, repeat_spec, scan_words, struct_spec, subrange_spec, type_spec, udata_value,
    union_spec, variant_part_spec, variant_spec, variants_spec, words_at,
};

verus! {

/// Every register and memory word known in `known` is known in `full`
/// too, with the same value; both read the same pieces.
pub open spec fn known_within(known: WordCtx, full: WordCtx) -> bool {
    &&& known.pieces == full.pieces
    &&& known.registers.submap_of(full.registers)
    &&& known.addresses.submap_of(full.addresses)
}

/// A request names a register or word that `known` lacks.
pub open spec fn request_is_genuine(known: WordCtx, q: EvaluatorResult) -> bool {
    match q {
        EvaluatorResult::Complete => false,
        EvaluatorResult::RequireReg(r) => !known.registers.contains_key(r),
        EvaluatorResult::RequireData { address, .. } => !known.addresses.contains_key(address),
    }
}

/// `full` holds what request `q` asks for and `known` lacks.
pub open spec fn request_answerable(known: WordCtx, full: WordCtx, q: EvaluatorResult) -> bool {
    match q {
        EvaluatorResult::Complete => false,
        EvaluatorResult::RequireReg(r) => full.registers.contains_key(r) && !known.registers.contains_key(r),
        EvaluatorResult::RequireData { address, .. } => full.addresses.contains_key(address)
            && !known.addresses.contains_key(address),
    }
}

/// An outcome with `known` known against the outcome with `full` known: a
/// request it makes is genuine; and it is the same outcome, or a request
/// that `full` answers, or `full` too still asks something.
pub open spec fn word_refines(known: WordCtx, full: WordCtx, r1: WordOut, r2: WordOut) -> bool {
    &&& (r1.0 matches Ok(Some(Step::Required(q))) ==> request_is_genuine(known, q))
    &&& {
        ||| r1 == r2
        ||| r1.0 matches Ok(Some(Step::Required(q))) && (r2.0 matches Ok(Some(Step::Required(_)))
            || request_answerable(known, full, q))
    }
}

pub open spec fn members_refines(
    known: WordCtx,
    full: WordCtx,
    r1: (Result<MembersOutcome, EvalError>, Seq<Option<u64>>, nat),
    r2: (Result<MembersOutcome, EvalError>, Seq<Option<u64>>, nat),
) -> bool {
    &&& (r1.0 matches Ok(MembersOutcome::Required(q)) ==> request_is_genuine(known, q))
    &&& {
        ||| r1 == r2
        ||| r1.0 matches Ok(MembersOutcome::Required(q)) && (r2.0 matches Ok(MembersOutcome::Required(_))
            || request_answerable(known, full, q))
    }
}

pub open spec fn piece_refines(known: WordCtx, full: WordCtx, r1: Result<Step, EvalError>, r2: Result<Step, EvalError>) -> bool {
    &&& (r1 matches Ok(Step::Required(q)) ==> request_is_genuine(known, q))
    &&& {
        ||| r1 == r2
        ||| r1 matches Ok(Step::Required(q)) && (r2 matches Ok(Step::Required(_))
            || request_answerable(known, full, q))
    }
}

proof fn lemma_scan_refines(k: WordCtx, f: WordCtx, base: int, n: nat, i: nat)
    requires
        known_within(k, f),
    ensures
        ({
            let s1 = scan_words(k.addresses, base, n, i);
            let s2 = scan_words(f.addresses, base, n, i);
            ||| s1 == s2
            ||| s1 matches WordScan::Missing(w) && !k.addresses.contains_key(w) && f.addresses.contains_key(w)
        }),
        scan_words(k.addresses, base, n, i) matches WordScan::Missing(w) ==> !k.addresses.contains_key(w),
    decreases n - i,
{
    if i < n && base + 4 * i <= u64::MAX {
        let w = (base + 4 * i) as u32;
        if k.addresses.contains_key(w) {
            assert(f.addresses.contains_key(w));
            lemma_scan_refines(k, f, base, n, i + 1);
        }
    }
}

proof fn lemma_scan_known_words(k: WordCtx, f: WordCtx, base: int, n: nat, i: nat)
    requires
        known_within(k, f),
        scan_words(k.addresses, base, n, i) is Known,
        forall|j: int| 0 <= j < i ==> k.addresses.contains_key(#[trigger] ((base + 4 * j) as u32)),
    ensures
        words_at(k.addresses, base, n) == words_at(f.addresses, base, n),
    decreases n - i,
{
    if i < n {
        lemma_scan_known_words(k, f, base, n, i + 1);
    } else {
        assert forall|j: int| 0 <= j < n implies #[trigger] k.addresses[(base + 4 * j) as u32]
            == f.addresses[(base + 4 * j) as u32] by {
            let w = (base + 4 * j) as u32;
            assert(k.addresses.contains_key(w) && f.addresses.contains_key(w));
        }
        assert(words_at(k.addresses, base, n) =~= words_at(f.addresses, base, n));
    }
}

proof fn lemma_piece_refines(k: WordCtx, f: WordCtx, piece: Piece, bs: Option<u64>, off: u64, enc: Option<u8>)
    requires
        known_within(k, f),
    ensures
        piece_refines(k, f, piece_spec(k, piece, bs, off, enc), piece_spec(f, piece, bs, off, enc)),
{
    match piece.location {
        PieceLocation::Register(r) => {
            if k.registers.contains_key(r) {
                assert(f.registers.contains_key(r) && k.registers[r] == f.registers[r]);
            }
        },
        PieceLocation::Address(address) => {
            if enc is Some && !(bs matches Some(v) && v + 3 > u64::MAX) && !(address + (off / 4) * 4 > u64::MAX) {
                let n: nat = match bs {
                    Some(v) => ((v + 3) / 4) as nat,
                    None => 1,
                };
                let a = address + (off / 4) * 4;
                let base = a - a % 4;
                lemma_scan_refines(k, f, base, n, 0);
                if scan_words(k.addresses, base, n, 0) is Known {
                    lemma_scan_known_words(k, f, base, n, 0);
                }
            }
        },
        _ => {},
    }
}

proof fn lemma_handle_refines(
    k: WordCtx,
    f: WordCtx,
    sizes: Seq<Option<u64>>,
    idx: nat,
    bs: Option<u64>,
    off: u64,
    enc: Option<u8>,
)
    requires
        known_within(k, f),
    ensures
        word_refines(k, f, handle_spec(k, sizes, idx, bs, off, enc), handle_spec(f, sizes, idx, bs, off, enc)),
{
    if idx < k.pieces.len() {
        let o: u64 = if k.pieces.len() > 1 {
            0
        } else {
            off
        };
        lemma_piece_refines(k, f, k.pieces[idx as int], bs, o, enc);
    }
}

proof fn lemma_type_refines(
    k: WordCtx,
    f: WordCtx,
    die: TypeDie,
    off: u64,
    sizes: Seq<Option<u64>>,
    idx: nat,
)
    requires
        known_within(k, f),
    ensures
        word_refines(k, f, type_spec(k, die, off, sizes, idx), type_spec(f, die, off, sizes, idx)),
    decreases die, 2nat,
{
    match die {
        TypeDie::BaseType { byte_size, encoding, .. } => {
            lemma_handle_refines(k, f, sizes, idx, byte_size, off, encoding);
        },
        TypeDie::PointerType { .. } => {
            lemma_handle_refines(k, f, sizes, idx, Some(4u64), off, Some(1u8));
        },
        TypeDie::ArrayType { .. } => lemma_array_refines(k, f, die, off, sizes, idx),
        TypeDie::StructureType { .. } => lemma_struct_refines(k, f, die, off, sizes, idx),
        TypeDie::UnionType { .. } => lemma_union_refines(k, f, die, off, sizes, idx),
        TypeDie::Member { .. } => lemma_member_refines(k, f, die, off, sizes, idx),
        TypeDie::EnumerationType { .. } => lemma_enum_refines(k, f, die, off, sizes, idx),
        TypeDie::VariantPart { .. } => lemma_variant_part_refines(k, f, die, off, sizes, idx),
        _ => {},
    }
}

proof fn lemma_array_refines(
    k: WordCtx,
    f: WordCtx,
    die: TypeDie,
    off: u64,
    sizes: Seq<Option<u64>>,
    idx: nat,
)
    requires
        known_within(k, f),
    ensures
        word_refines(k, f, array_spec(k, die, off, sizes, idx), array_spec(f, die, off, sizes, idx)),
    decreases die, 1nat,
{
    match die {
        TypeDie::ArrayType { alignment, element_type, children } => {
            if align_spec(k.pieces, alignment, off, idx) is Ok && children.len() > 0 {
                let dim = children@[0];
                match dim {
                    TypeDie::SubrangeType { .. } => lemma_subrange_refines(k, f, dim, off, sizes, idx),
                    TypeDie::EnumerationType { .. } => lemma_enum_refines(k, f, dim, off, sizes, idx),
                    _ => {},
                }
                let (r, s1, i1) = match dim {
                    TypeDie::SubrangeType { .. } => subrange_spec(k, dim, off, sizes, idx),
                    TypeDie::EnumerationType { .. } => enum_spec(k, dim, off, sizes, idx),
                    _ => (Err(EvalError::Unsupported), sizes, idx),
                };
                if let Ok(Step::Value(v)) = needs_value(r) {
                    if let Some(count) = udata_value(v) {
                        if let Some(et) = element_type {
                            lemma_repeat_refines(k, f, *et, (count as usize) as nat, off, s1, i1, seq![]);
                        }
                    }
                }
            }
        },
        _ => {},
    }
}

proof fn lemma_repeat_refines(
    k: WordCtx,
    f: WordCtx,
    elem: TypeDie,
    n: nat,
    off: u64,
    sizes: Seq<Option<u64>>,
    idx: nat,
    acc: Seq<ValueView>,
)
    requires
        known_within(k, f),
    ensures
        word_refines(k, f, repeat_spec(k, elem, n, off, sizes, idx, acc), repeat_spec(f, elem, n, off, sizes, idx, acc)),
    decreases elem, n + 3,
{
    if n > 0 {
        lemma_type_refines(k, f, elem, off, sizes, idx);
        let (r, s1, i1) = type_spec(k, elem, off, sizes, idx);
        if let Ok(Step::Value(v)) = needs_value(r) {
            lemma_repeat_refines(k, f, elem, (n - 1) as nat, off, s1, i1, acc.push(v));
        }
    }
}

proof fn lemma_struct_refines(
    k: WordCtx,
    f: WordCtx,
    die: TypeDie,
    off: u64,
    sizes: Seq<Option<u64>>,
    idx: nat,
)
    requires
        known_within(k, f),
    ensures
        word_refines(k, f, struct_spec(k, die, off, sizes, idx), struct_spec(f, die, off, sizes, idx)),
    decreases die, 1nat,
{
    match die {
        TypeDie::StructureType { name, alignment, children } => {
            if align_spec(k.pieces, alignment, off, idx) is Ok && name is Some {
                match scan_members(children@, true, 0, seq![]) {
                    MemberScan::VariantPart(j) => if j < children@.len() {
                        lemma_variant_part_refines(k, f, children@[j as int], off, sizes, idx);
                    },
                    MemberScan::Members(order) => {
                        lemma_members_refines(k, f, children@, order, 0, off, sizes, idx, seq![]);
                    },
                    _ => {},
                }
            }
        },
        _ => {},
    }
}

proof fn lemma_union_refines(
    k: WordCtx,
    f: WordCtx,
    die: TypeDie,
    off: u64,
    sizes: Seq<Option<u64>>,
    idx: nat,
)
    requires
        known_within(k, f),
    ensures
        word_refines(k, f, union_spec(k, die, off, sizes, idx), union_spec(f, die, off, sizes, idx)),
    decreases die, 1nat,
{
    match die {
        TypeDie::UnionType { name, alignment, children } => {
            if align_spec(k.pieces, alignment, off, idx) is Ok && name is Some {
                match scan_members(children@, false, 0, seq![]) {
                    MemberScan::Members(order) => {
                        lemma_members_refines(k, f, children@, order, 0, off, sizes, idx, seq![]);
                    },
                    _ => {},
                }
            }
        },
        _ => {},
    }
}

proof fn lemma_members_refines(
    k: WordCtx,
    f: WordCtx,
    children: Seq<TypeDie>,
    order: Seq<(u64, usize)>,
    i: nat,
    off: u64,
    sizes: Seq<Option<u64>>,
    idx: nat,
    acc: Seq<ValueView>,
)
    requires
        known_within(k, f),
    ensures
        members_refines(k, f, members_spec(k, children, order, i, off, sizes, idx, acc), members_spec(f, children, order, i, off, sizes, idx, acc)),
    decreases children, order.len() - i,
{
    if i < order.len() {
        let j = order[i as int].1;
        if j < children.len() {
            lemma_member_refines(k, f, children[j as int], off, sizes, idx);
            let (r, s1, i1) = member_spec(k, children[j as int], off, sizes, idx);
            if let Ok(Step::Value(v)) = needs_value(r) {
                lemma_members_refines(k, f, children, order, i + 1, off, s1, i1, acc.push(v));
            }
        }
    }
}

proof fn lemma_member_refines(
    k: WordCtx,
    f: WordCtx,
    die: TypeDie,
    off: u64,
    sizes: Seq<Option<u64>>,
    idx: nat,
)
    requires
        known_within(k, f),
    ensures
        word_refines(k, f, member_spec(k, die, off, sizes, idx), member_spec(f, die, off, sizes, idx)),
    decreases die, 1nat,
{
    match die {
        TypeDie::Member { data_member_location, member_type, .. } => {
            let no: int = match data_member_location {
                Some(l) => off + l,
                None => off as int,
            };
            if no <= u64::MAX {
                if let Some(t) = member_type {
                    lemma_type_refines(k, f, *t, no as u64, sizes, idx);
                }
            }
        },
        _ => {},
    }
}

proof fn lemma_enum_refines(
    k: WordCtx,
    f: WordCtx,
    die: TypeDie,
    off: u64,
    sizes: Seq<Option<u64>>,
    idx: nat,
)
    requires
        known_within(k, f),
    ensures
        word_refines(k, f, enum_spec(k, die, off, sizes, idx), enum_spec(f, die, off, sizes, idx)),
    decreases die, 1nat,
{
    match die {
        TypeDie::EnumerationType { underlying_type, .. } => {
            if let Some(t) = underlying_type {
                lemma_type_refines(k, f, *t, off, sizes, idx);
            }
        },
        _ => {},
    }
}

proof fn lemma_subrange_refines(
    k: WordCtx,
    f: WordCtx,
    die: TypeDie,
    off: u64,
    sizes: Seq<Option<u64>>,
    idx: nat,
)
    requires
        known_within(k, f),
    ensures
        word_refines(k, f, subrange_spec(k, die, off, sizes, idx), subrange_spec(f, die, off, sizes, idx)),
    decreases die, 1nat,
{
    match die {
        TypeDie::SubrangeType { subrange_type, .. } => {
            if let Some(t) = subrange_type {
                lemma_type_refines(k, f, *t, off, sizes, idx);
            }
        },
        _ => {},
    }
}

proof fn lemma_variant_part_refines(
    k: WordCtx,
    f: WordCtx,
    die: TypeDie,
    off: u64,
    sizes: Seq<Option<u64>>,
    idx: nat,
)
    requires
        known_within(k, f),
    ensures
        word_refines(k, f, variant_part_spec(k, die, off, sizes, idx), variant_part_spec(f, die, off, sizes, idx)),
    decreases die, 1nat,
{
    match die {
        TypeDie::VariantPart { discr, children, .. } => {
            if let Some(d) = discr {
                lemma_member_refines(k, f, *d, off, sizes, idx);
                let (r, s1, i1) = member_spec(k, *d, off, sizes, idx);
                if let Ok(Step::Value(v)) = needs_value(r) {
                    if let Some(variant) = udata_value(v) {
                        lemma_variants_refines(k, f, children@, 0, count_variants(children@), variant, off, s1, i1);
                    }
                }
            }
        },
        _ => {},
    }
}

proof fn lemma_variants_refines(
    k: WordCtx,
    f: WordCtx,
    children: Seq<TypeDie>,
    i: nat,
    n: nat,
    variant: u64,
    off: u64,
    sizes: Seq<Option<u64>>,
    idx: nat,
)
    requires
        known_within(k, f),
    ensures
        word_refines(k, f, variants_spec(k, children, i, n, variant, off, sizes, idx), variants_spec(f, children, i, n, variant, off, sizes, idx)),
    decreases children, children.len() - i,
{
    if i < children.len() {
        lemma_variant_refines(k, f, children[i as int], off, sizes, idx);
        lemma_variants_refines(k, f, children, i + 1, n, variant, off, sizes, idx);
    }
}

proof fn lemma_variant_refines(
    k: WordCtx,
    f: WordCtx,
    die: TypeDie,
    off: u64,
    sizes: Seq<Option<u64>>,
    idx: nat,
)
    requires
        known_within(k, f),
    ensures
        word_refines(k, f, variant_spec(k, die, off, sizes, idx), variant_spec(f, die, off, sizes, idx)),
    decreases die, 1nat,
{
    match die {
        TypeDie::Variant { children, .. } => {
            if let Some(j) = first_member(children@, 0) {
                if j < children@.len() {
                    lemma_member_refines(k, f, children@[j as int], off, sizes, idx);
                }
            }
        },
        _ => {},
    }
}

/// Knowing less of the target never changes what the evaluator gives; it
/// can only make it stop earlier. Every request it makes names a register
/// or word that `known` lacks (one that was not added); where evaluating
/// with `full` known asks nothing, that request is one `full` answers.
pub proof fn lemma_less_known_stops_earlier(stack: Option<TypeDie>, known: WordCtx, full: WordCtx)
    requires
        known_within(known, full),
    ensures
        ({
            let r1 = evaluate_spec(known, stack);
            let r2 = evaluate_spec(full, stack);
            &&& (r1 matches Ok(Step::Required(q)) ==> request_is_genuine(known, q))
            &&& {
                ||| r1 == r2
                ||| r1 matches Ok(Step::Required(q)) && (r2 matches Ok(Step::Required(_))
                    || request_answerable(known, full, q))
            }
        }),
{
    match stack {
        None => if known.pieces.len() > 0 {
            lemma_piece_refines(known, full, known.pieces[0], Some(4u64), 0, Some(1u8));
        },
        Some(d) => lemma_type_refines(known, full, d, 0, initial_sizes(known.pieces), 0),
    }
}

/// The evaluator asks only for what was not added to it: a register it
/// asks for is not among the added registers, a word it asks for is not
/// among the added words.
pub proof fn lemma_requests_are_genuine(ctx: WordCtx, stack: Option<TypeDie>)
    ensures
        evaluate_spec(ctx, stack) matches Ok(Step::Required(q)) ==> request_is_genuine(ctx, q),
{
    lemma_less_known_stops_earlier(stack, ctx, ctx);
}

/// `known` after request `q` was answered from `full`: the register or the
/// word is added when `full` holds it.
pub open spec fn answer_request(known: WordCtx, full: WordCtx, q: EvaluatorResult) -> WordCtx {
    match q {
        EvaluatorResult::RequireReg(r) => if full.registers.contains_key(r) {
            WordCtx { registers: known.registers.insert(r, full.registers[r]), ..known }
        } else {
            known
        },
        EvaluatorResult::RequireData { address, .. } => if full.addresses.contains_key(address) {
            WordCtx { addresses: known.addresses.insert(address, full.addresses[address]), ..known }
        } else {
            known
        },
        EvaluatorResult::Complete => known,
    }
}

/// What is known after `n` rounds of evaluating and answering the request
/// that came back from `full` (a round that gets no request changes nothing).
pub open spec fn answer_requests(stack: Option<TypeDie>, known: WordCtx, full: WordCtx, n: nat) -> WordCtx
    decreases n,
{
    if n == 0 {
        known
    } else {
        let k = answer_requests(stack, known, full, (n - 1) as nat);
        match evaluate_spec(k, stack) {
            Ok(Step::Required(q)) => answer_request(k, full, q),
            _ => k,
        }
    }
}

proof fn lemma_doms_finite(c: WordCtx)
    ensures
        c.registers.dom().finite(),
        c.addresses.dom().finite(),
{
    lemma_int_range(0, 0x1_0000_0000);
    let to32 = |i: int| i as u32;
    let all32 = set_int_range(0, 0x1_0000_0000).map(to32);
    set_int_range(0, 0x1_0000_0000).lemma_map_finite(to32);
    assert forall|a: u32| c.addresses.dom().contains(a) implies all32.contains(a) by {
        assert(set_int_range(0, 0x1_0000_0000).contains(a as int) && to32(a as int) == a);
    }
    lemma_set_subset_finite(all32, c.addresses.dom());
    lemma_int_range(0, 0x1_0000);
    let to16 = |i: int| i as u16;
    let all16 = set_int_range(0, 0x1_0000).map(to16);
    set_int_range(0, 0x1_0000).lemma_map_finite(to16);
    assert forall|r: u16| c.registers.dom().contains(r) implies all16.contains(r) by {
        assert(set_int_range(0, 0x1_0000).contains(r as int) && to16(r as int) == r);
    }
    lemma_set_subset_finite(all16, c.registers.dom());
}

/// How much of `full` is still missing from `known`.
spec fn missing(known: WordCtx, full: WordCtx) -> int {
    (full.registers.dom().len() - known.registers.dom().len()) + (full.addresses.dom().len()
        - known.addresses.dom().len())
}

proof fn lemma_missing_bounds(known: WordCtx, full: WordCtx)
    requires
        known_within(known, full),
    ensures
        0 <= missing(known, full) <= full.registers.dom().len() + full.addresses.dom().len(),
{
    lemma_doms_finite(full);
    assert(known.registers.dom().subset_of(full.registers.dom()));
    assert(known.addresses.dom().subset_of(full.addresses.dom()));
    lemma_len_subset(known.registers.dom(), full.registers.dom());
    lemma_len_subset(known.addresses.dom(), full.addresses.dom());
}

proof fn lemma_answer_progress(known: WordCtx, full: WordCtx, q: EvaluatorResult)
    requires
        known_within(known, full),
        request_answerable(known, full, q),
    ensures
        known_within(answer_request(known, full, q), full),
        missing(answer_request(known, full, q), full) < missing(known, full),
{
    lemma_doms_finite(full);
    lemma_doms_finite(known);
    let k2 = answer_request(known, full, q);
    lemma_doms_finite(k2);
    match q {
        EvaluatorResult::RequireReg(r) => {
            assert(k2.registers.dom() =~= known.registers.dom().insert(r));
        },
        EvaluatorResult::RequireData { address, .. } => {
            assert(k2.addresses.dom() =~= known.addresses.dom().insert(address));
        },
        EvaluatorResult::Complete => {},
    }
}

proof fn lemma_rounds(stack: Option<TypeDie>, known: WordCtx, full: WordCtx, n: nat)
    requires
        known_within(known, full),
        !(evaluate_spec(full, stack) matches Ok(Step::Required(_))),
    ensures
        known_within(answer_requests(stack, known, full, n), full),
        evaluate_spec(answer_requests(stack, known, full, n), stack) matches Ok(Step::Required(_))
            ==> missing(answer_requests(stack, known, full, n), full) + n <= missing(known, full),
    decreases n,
{
    if n > 0 {
        let k = answer_requests(stack, known, full, (n - 1) as nat);
        lemma_rounds(stack, known, full, (n - 1) as nat);
        if let Ok(Step::Required(q)) = evaluate_spec(k, stack) {
            lemma_less_known_stops_earlier(stack, k, full);
            lemma_answer_progress(k, full, q);
        }
    }
}

/// Answering the evaluator's requests from the target ends in the outcome
/// it gives with everything known from the start: where `full` (the
/// target's registers and memory words) takes the evaluation to a value or
/// an error, then from any part `known` of it, evaluating and adding what
/// each request asks for from `full`, as many rounds as `full` has
/// registers and words, gives that same value or error.
pub proof fn lemma_answering_requests_converges(stack: Option<TypeDie>, known: WordCtx, full: WordCtx, n: nat)
    requires
        known_within(known, full),
        !(evaluate_spec(full, stack) matches Ok(Step::Required(_))),
        n >= full.registers.dom().len() + full.addresses.dom().len(),
    ensures
        evaluate_spec(answer_requests(stack, known, full, n), stack) == evaluate_spec(full, stack),
{
    let k = answer_requests(stack, known, full, n);
    lemma_rounds(stack, known, full, n);
    lemma_less_known_stops_earlier(stack, k, full);
    lemma_missing_bounds(known, full);
    if let Ok(Step::Required(q)) = evaluate_spec(k, stack) {
        lemma_answer_progress(k, full, q);
        lemma_missing_bounds(answer_request(k, full, q), full);
    }
}

} // verus!
