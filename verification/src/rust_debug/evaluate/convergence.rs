//! What the evaluator gives with part of the target known, against what it
//! gives with all of it known: the same outcome, or a request for something
//! it lacks; and answering its requests from the target ends in the outcome
//! it gives with everything known from the start.
use vstd::prelude::*;
use vstd::set_lib::{lemma_int_range, lemma_len_subset, lemma_set_subset_finite, set_int_range};
use crate::rust_debug::memory_and_registers::{MemoryAndRegistersView, read_bytes, read_runs_past_end, all_known};
use crate::rust_debug::evaluate::value::{ValueView, base_value_of, udata_of};
use crate::rust_debug::evaluate::evaluate::{
    EvalError, EvaluatorResult, MemberScan, MembersOutcome, Piece, PieceLocation,
    PieceOutcome, Step, TypeDie, ctx_of, eval_array_spec, eval_enum_spec, eval_member_spec,
    eval_members_spec, eval_piece_spec, eval_repeat_spec, eval_struct_spec, eval_subrange_spec,
    eval_type_spec, eval_union_spec, eval_variant_part_spec, eval_variant_spec, eval_variants_spec,
    evaluate_spec, get_bytes_loop, handle_eval_piece_spec, alignment_spec,
    count_variants, first_member, scan_members, lemma_requests_are_genuine, request_is_genuine,
};

verus! {

/// Every register and memory byte of `known` is known in `full` too, with
/// the same value.
pub open spec fn known_within(known: MemoryAndRegistersView, full: MemoryAndRegistersView) -> bool {
    &&& known.registers.submap_of(full.registers)
    &&& known.memory.submap_of(full.memory)
}

/// `full` holds something that request `q` asks for and that `known` lacks:
/// the register, or a byte of the memory range.
pub open spec fn request_answerable(
    known: MemoryAndRegistersView,
    full: MemoryAndRegistersView,
    q: EvaluatorResult,
) -> bool {
    match q {
        EvaluatorResult::Complete => false,
        EvaluatorResult::RequireReg(r) => full.registers.contains_key(r) && !known.registers.contains_key(r),
        EvaluatorResult::RequireData { address, num_words } => has_missing_byte(
            known.memory,
            full.memory,
            address,
            num_words as nat,
        ),
    }
}

/// `full` holds a byte of the range of `n` bytes from `address` on that
/// `known` lacks.
pub open spec fn has_missing_byte(known: Map<u32, u8>, full: Map<u32, u8>, address: u32, n: nat) -> bool {
    exists|j: int|
        0 <= j < n && address + j <= u32::MAX && #[trigger] full.contains_key((address + j) as u32)
            && !known.contains_key((address + j) as u32)
}

/// An outcome with `known` known against the outcome with `full` known:
/// the same, or a request that `full` answers, or that `full` still asks
/// something.
pub open spec fn step_refines(
    known: MemoryAndRegistersView,
    full: MemoryAndRegistersView,
    r1: (Result<Step, EvalError>, nat),
    r2: (Result<Step, EvalError>, nat),
) -> bool {
    ||| r1 == r2
    ||| r1.0 matches Ok(Step::Required(q)) && (r2.0 is Ok && r2.0->Ok_0 is Required || request_answerable(
        known,
        full,
        q,
    ))
}

pub open spec fn piece_refines(
    known: MemoryAndRegistersView,
    full: MemoryAndRegistersView,
    r1: (Result<PieceOutcome, EvalError>, nat),
    r2: (Result<PieceOutcome, EvalError>, nat),
) -> bool {
    ||| r1 == r2
    ||| r1.0 matches Ok(PieceOutcome::Required(q)) && (r2.0 is Ok && r2.0->Ok_0 is Required
        || request_answerable(known, full, q))
}

pub open spec fn members_refines(
    known: MemoryAndRegistersView,
    full: MemoryAndRegistersView,
    r1: (Result<MembersOutcome, EvalError>, nat),
    r2: (Result<MembersOutcome, EvalError>, nat),
) -> bool {
    ||| r1 == r2
    ||| r1.0 matches Ok(MembersOutcome::Required(q)) && (r2.0 is Ok && r2.0->Ok_0 is Required
        || request_answerable(known, full, q))
}

proof fn lemma_read_within(known: MemoryAndRegistersView, full: MemoryAndRegistersView, a: u32, nb: usize)
    requires
        known_within(known, full),
    ensures
        read_runs_past_end(known.memory, a, nb as nat) ==> read_runs_past_end(full.memory, a, nb as nat),
        read_bytes(known.memory, a, nb as nat) is Some ==> read_bytes(full.memory, a, nb as nat)
            == read_bytes(known.memory, a, nb as nat),
        !read_runs_past_end(known.memory, a, nb as nat) && read_bytes(known.memory, a, nb as nat) is None
            && (read_runs_past_end(full.memory, a, nb as nat) || read_bytes(full.memory, a, nb as nat) is Some)
            ==> request_answerable(known, full, EvaluatorResult::RequireData { address: a, num_words: nb }),
{
    let n = nb as nat;
    let km = known.memory;
    let fm = full.memory;
    if read_runs_past_end(km, a, n) {
        assert forall|j: int| 0 <= j <= u32::MAX - a implies #[trigger] fm.contains_key((a + j) as u32) by {
            assert(km.contains_key((a + j) as u32));
        }
    }
    if read_bytes(km, a, n) is Some {
        assert forall|j: int| 0 <= j < n implies a + j <= u32::MAX && #[trigger] fm.contains_key(
            (a + j) as u32,
        ) by {
            assert(km.contains_key((a + j) as u32));
        }
        assert forall|j: int| 0 <= j < n implies #[trigger] km[(a + j) as u32] == fm[(a + j) as u32] by {
            assert(km.contains_key((a + j) as u32) && fm.contains_key((a + j) as u32));
        }
        assert(all_known(fm, a, n));
        assert(Seq::new(n, |j: int| km[(a + j) as u32]) =~= Seq::new(n, |j: int| fm[(a + j) as u32]));
    }
    if !read_runs_past_end(km, a, n) && read_bytes(km, a, n) is None {
        let q = EvaluatorResult::RequireData { address: a, num_words: nb };
        if read_runs_past_end(fm, a, n) {
            assert(!(forall|j: int| 0 <= j <= u32::MAX - a ==> #[trigger] km.contains_key((a + j) as u32)));
            let j = choose|j: int| 0 <= j <= u32::MAX - a && !#[trigger] km.contains_key((a + j) as u32);
            assert(fm.contains_key((a + j) as u32));
            assert(0 <= j < nb && a + j <= u32::MAX);
            assert(has_missing_byte(km, fm, a, n));
        } else if read_bytes(fm, a, n) is Some {
            assert(!(forall|j: int| 0 <= j < n ==> a + j <= u32::MAX && #[trigger] km.contains_key((a + j) as u32)));
            let j = choose|j: int|
                0 <= j < n && !(a + j <= u32::MAX && #[trigger] km.contains_key((a + j) as u32));
            assert(a + j <= u32::MAX && fm.contains_key((a + j) as u32));
            assert(has_missing_byte(km, fm, a, n));
        }
    }
}


proof fn lemma_piece_refines(
    pieces: Seq<Piece>,
    known: MemoryAndRegistersView,
    full: MemoryAndRegistersView,
    piece: Piece,
    bs: u64,
    off: u64,
    idx: nat,
)
    requires
        known_within(known, full),
    ensures
        piece_refines(
            known,
            full,
            (eval_piece_spec(ctx_of(pieces, known), piece, bs, off), idx),
            (eval_piece_spec(ctx_of(pieces, full), piece, bs, off), idx),
        ),
{
    match piece.location {
        PieceLocation::Register(r) => {
            if known.registers.contains_key(r) {
                assert(full.registers.contains_key(r) && known.registers[r] == full.registers[r]);
            }
        },
        PieceLocation::Address(a) => {
            if !(a + off > u64::MAX) && !(piece.size_in_bits is Some && piece.size_in_bits->0 > u64::MAX
                - 8) {
                let address = (a + off) as u64;
                let nb: usize = match piece.size_in_bits {
                    Some(v) => ((v + 7) / 8) as usize,
                    None => bs as usize,
                };
                lemma_read_within(known, full, address as u32, nb);
            }
        },
        _ => {},
    }
}

proof fn lemma_get_bytes_loop_refines(
    pieces: Seq<Piece>,
    known: MemoryAndRegistersView,
    full: MemoryAndRegistersView,
    bs: u64,
    off: u64,
    bytes: Seq<u8>,
    idx: nat,
)
    requires
        known_within(known, full),
    ensures
        piece_refines(
            known,
            full,
            get_bytes_loop(ctx_of(pieces, known), bs, off, bytes, idx),
            get_bytes_loop(ctx_of(pieces, full), bs, off, bytes, idx),
        ),
    decreases (pieces.len() - idx) + (if bytes.len() < bs {
        bs - bytes.len()
    } else {
        0
    }),
{
    if bytes.len() < bs && idx < pieces.len() {
        let piece = pieces[idx as int];
        lemma_piece_refines(pieces, known, full, piece, bs, off, idx);
        let p1 = eval_piece_spec(ctx_of(pieces, known), piece, bs, off);
        if let Ok(PieceOutcome::Value(nb)) = p1 {
            if !(nb.len() == 0 && piece.size_in_bits is None) {
                lemma_get_bytes_loop_refines(
                    pieces,
                    known,
                    full,
                    bs,
                    off,
                    bytes + nb,
                    if piece.size_in_bits is Some {
                        idx + 1
                    } else {
                        idx
                    },
                );
            }
        }
    }
}

proof fn lemma_handle_refines(
    pieces: Seq<Piece>,
    known: MemoryAndRegistersView,
    full: MemoryAndRegistersView,
    bs: Option<u64>,
    off: u64,
    enc: Option<u8>,
    idx: nat,
)
    requires
        known_within(known, full),
    ensures
        step_refines(
            known,
            full,
            handle_eval_piece_spec(ctx_of(pieces, known), bs, off, enc, idx),
            handle_eval_piece_spec(ctx_of(pieces, full), bs, off, enc, idx),
        ),
{
    if idx < pieces.len() && bs is Some {
        let off2: u64 = if pieces.len() > 1 {
            0
        } else {
            off
        };
        let off3: u64 = if pieces.len() > 1 {
            0
        } else {
            off2
        };
        lemma_get_bytes_loop_refines(pieces, known, full, bs->0, off3, seq![], idx);
    }
}

proof fn lemma_type_refines(
    pieces: Seq<Piece>,
    known: MemoryAndRegistersView,
    full: MemoryAndRegistersView,
    die: TypeDie,
    off: u64,
    idx: nat,
)
    requires
        known_within(known, full),
    ensures
        step_refines(
            known,
            full,
            eval_type_spec(ctx_of(pieces, known), die, off, idx),
            eval_type_spec(ctx_of(pieces, full), die, off, idx),
        ),
    decreases die, 2nat,
{
    match die {
        TypeDie::BaseType { byte_size, encoding, .. } => {
            lemma_handle_refines(pieces, known, full, byte_size, off, encoding, idx);
        },
        TypeDie::PointerType { .. } => {
            lemma_handle_refines(pieces, known, full, Some(4u64), off, Some(1u8), idx);
        },
        TypeDie::ArrayType { .. } => lemma_array_refines(pieces, known, full, die, off, idx),
        TypeDie::StructureType { .. } => lemma_struct_refines(pieces, known, full, die, off, idx),
        TypeDie::UnionType { .. } => lemma_union_refines(pieces, known, full, die, off, idx),
        TypeDie::Member { .. } => lemma_member_refines(pieces, known, full, die, off, idx),
        TypeDie::EnumerationType { .. } => lemma_enum_refines(pieces, known, full, die, off, idx),
        TypeDie::VariantPart { .. } => lemma_variant_part_refines(pieces, known, full, die, off, idx),
        _ => {},
    }
}

proof fn lemma_array_refines(
    pieces: Seq<Piece>,
    known: MemoryAndRegistersView,
    full: MemoryAndRegistersView,
    die: TypeDie,
    off: u64,
    idx: nat,
)
    requires
        known_within(known, full),
    ensures
        step_refines(
            known,
            full,
            eval_array_spec(ctx_of(pieces, known), die, off, idx),
            eval_array_spec(ctx_of(pieces, full), die, off, idx),
        ),
    decreases die, 1nat,
{
    let c1 = ctx_of(pieces, known);
    match die {
        TypeDie::ArrayType { alignment, element_type, children } => {
            if alignment_spec(pieces, alignment, off, idx) is Ok && children.len() > 0 {
                let dim = children@[0];
                match dim {
                    TypeDie::SubrangeType { .. } => lemma_subrange_refines(pieces, known, full, dim, off, idx),
                    TypeDie::EnumerationType { .. } => lemma_enum_refines(pieces, known, full, dim, off, idx),
                    _ => {},
                }
                let (r, i1) = match dim {
                    TypeDie::SubrangeType { .. } => eval_subrange_spec(c1, dim, off, idx),
                    TypeDie::EnumerationType { .. } => eval_enum_spec(c1, dim, off, idx),
                    _ => (Err(EvalError::Unsupported), idx),
                };
                if let Ok(Step::Value(v)) = r {
                    if let Some(bv) = base_value_of(v) {
                        if let Some(count) = udata_of(bv) {
                            if let Some(et) = element_type {
                                lemma_repeat_refines(pieces, known, full, *et, (count as usize) as nat, off, i1, seq![]);
                            }
                        }
                    }
                }
            }
        },
        _ => {},
    }
}

proof fn lemma_repeat_refines(
    pieces: Seq<Piece>,
    known: MemoryAndRegistersView,
    full: MemoryAndRegistersView,
    elem: TypeDie,
    k: nat,
    off: u64,
    idx: nat,
    acc: Seq<ValueView>,
)
    requires
        known_within(known, full),
    ensures
        step_refines(
            known,
            full,
            eval_repeat_spec(ctx_of(pieces, known), elem, k, off, idx, acc),
            eval_repeat_spec(ctx_of(pieces, full), elem, k, off, idx, acc),
        ),
    decreases elem, k + 3,
{
    if k > 0 {
        lemma_type_refines(pieces, known, full, elem, off, idx);
        let (r, i1) = eval_type_spec(ctx_of(pieces, known), elem, off, idx);
        if let Ok(Step::Value(v)) = r {
            lemma_repeat_refines(pieces, known, full, elem, (k - 1) as nat, off, i1, acc.push(v));
        }
    }
}

proof fn lemma_struct_refines(
    pieces: Seq<Piece>,
    known: MemoryAndRegistersView,
    full: MemoryAndRegistersView,
    die: TypeDie,
    off: u64,
    idx: nat,
)
    requires
        known_within(known, full),
    ensures
        step_refines(
            known,
            full,
            eval_struct_spec(ctx_of(pieces, known), die, off, idx),
            eval_struct_spec(ctx_of(pieces, full), die, off, idx),
        ),
    decreases die, 1nat,
{
    match die {
        TypeDie::StructureType { name, alignment, children } => {
            if alignment_spec(pieces, alignment, off, idx) is Ok && name is Some {
                match scan_members(children@, true, 0, seq![]) {
                    MemberScan::VariantPart(k) => if k < children@.len() {
                        lemma_variant_part_refines(pieces, known, full, children@[k as int], off, idx);
                    },
                    MemberScan::Members(order) => {
                        lemma_members_refines(pieces, known, full, children@, order, 0, off, idx, seq![]);
                    },
                    _ => {},
                }
            }
        },
        _ => {},
    }
}

proof fn lemma_union_refines(
    pieces: Seq<Piece>,
    known: MemoryAndRegistersView,
    full: MemoryAndRegistersView,
    die: TypeDie,
    off: u64,
    idx: nat,
)
    requires
        known_within(known, full),
    ensures
        step_refines(
            known,
            full,
            eval_union_spec(ctx_of(pieces, known), die, off, idx),
            eval_union_spec(ctx_of(pieces, full), die, off, idx),
        ),
    decreases die, 1nat,
{
    match die {
        TypeDie::UnionType { name, alignment, children } => {
            if alignment_spec(pieces, alignment, off, idx) is Ok && name is Some {
                match scan_members(children@, false, 0, seq![]) {
                    MemberScan::Members(order) => {
                        lemma_members_refines(pieces, known, full, children@, order, 0, off, idx, seq![]);
                    },
                    _ => {},
                }
            }
        },
        _ => {},
    }
}

proof fn lemma_members_refines(
    pieces: Seq<Piece>,
    known: MemoryAndRegistersView,
    full: MemoryAndRegistersView,
    children: Seq<TypeDie>,
    order: Seq<(u64, usize)>,
    i: nat,
    off: u64,
    idx: nat,
    acc: Seq<ValueView>,
)
    requires
        known_within(known, full),
    ensures
        members_refines(
            known,
            full,
            eval_members_spec(ctx_of(pieces, known), children, order, i, off, idx, acc),
            eval_members_spec(ctx_of(pieces, full), children, order, i, off, idx, acc),
        ),
    decreases children, order.len() - i,
{
    if i < order.len() {
        let k = order[i as int].1;
        if k < children.len() {
            lemma_member_refines(pieces, known, full, children[k as int], off, idx);
            let (r, i1) = eval_member_spec(ctx_of(pieces, known), children[k as int], off, idx);
            if let Ok(Step::Value(v)) = r {
                lemma_members_refines(pieces, known, full, children, order, i + 1, off, i1, acc.push(v));
            }
        }
    }
}

proof fn lemma_member_refines(
    pieces: Seq<Piece>,
    known: MemoryAndRegistersView,
    full: MemoryAndRegistersView,
    die: TypeDie,
    off: u64,
    idx: nat,
)
    requires
        known_within(known, full),
    ensures
        step_refines(
            known,
            full,
            eval_member_spec(ctx_of(pieces, known), die, off, idx),
            eval_member_spec(ctx_of(pieces, full), die, off, idx),
        ),
    decreases die, 1nat,
{
    match die {
        TypeDie::Member { data_member_location, member_type, .. } => {
            let no: int = match data_member_location {
                Some(l) => off + l,
                None => off as int,
            };
            if no <= u64::MAX {
                if let Some(t) = member_type {
                    lemma_type_refines(pieces, known, full, *t, no as u64, idx);
                }
            }
        },
        _ => {},
    }
}

proof fn lemma_enum_refines(
    pieces: Seq<Piece>,
    known: MemoryAndRegistersView,
    full: MemoryAndRegistersView,
    die: TypeDie,
    off: u64,
    idx: nat,
)
    requires
        known_within(known, full),
    ensures
        step_refines(
            known,
            full,
            eval_enum_spec(ctx_of(pieces, known), die, off, idx),
            eval_enum_spec(ctx_of(pieces, full), die, off, idx),
        ),
    decreases die, 1nat,
{
    match die {
        TypeDie::EnumerationType { underlying_type, .. } => {
            if let Some(t) = underlying_type {
                lemma_type_refines(pieces, known, full, *t, off, idx);
            }
        },
        _ => {},
    }
}

proof fn lemma_subrange_refines(
    pieces: Seq<Piece>,
    known: MemoryAndRegistersView,
    full: MemoryAndRegistersView,
    die: TypeDie,
    off: u64,
    idx: nat,
)
    requires
        known_within(known, full),
    ensures
        step_refines(
            known,
            full,
            eval_subrange_spec(ctx_of(pieces, known), die, off, idx),
            eval_subrange_spec(ctx_of(pieces, full), die, off, idx),
        ),
    decreases die, 1nat,
{
    match die {
        TypeDie::SubrangeType { subrange_type, .. } => {
            if let Some(t) = subrange_type {
                lemma_type_refines(pieces, known, full, *t, off, idx);
            }
        },
        _ => {},
    }
}

proof fn lemma_variant_part_refines(
    pieces: Seq<Piece>,
    known: MemoryAndRegistersView,
    full: MemoryAndRegistersView,
    die: TypeDie,
    off: u64,
    idx: nat,
)
    requires
        known_within(known, full),
    ensures
        step_refines(
            known,
            full,
            eval_variant_part_spec(ctx_of(pieces, known), die, off, idx),
            eval_variant_part_spec(ctx_of(pieces, full), die, off, idx),
        ),
    decreases die, 1nat,
{
    match die {
        TypeDie::VariantPart { discr, children, .. } => {
            if let Some(d) = discr {
                lemma_member_refines(pieces, known, full, *d, off, idx);
                let (r, i1) = eval_member_spec(ctx_of(pieces, known), *d, off, idx);
                if let Ok(Step::Value(v)) = r {
                    if let Some(bv) = base_value_of(v) {
                        if let Some(variant) = udata_of(bv) {
                            lemma_variants_refines(
                                pieces,
                                known,
                                full,
                                children@,
                                0,
                                count_variants(children@),
                                variant,
                                off,
                                i1,
                            );
                        }
                    }
                }
            }
        },
        _ => {},
    }
}

proof fn lemma_variants_refines(
    pieces: Seq<Piece>,
    known: MemoryAndRegistersView,
    full: MemoryAndRegistersView,
    children: Seq<TypeDie>,
    i: nat,
    n: nat,
    variant: u64,
    off: u64,
    idx: nat,
)
    requires
        known_within(known, full),
    ensures
        step_refines(
            known,
            full,
            eval_variants_spec(ctx_of(pieces, known), children, i, n, variant, off, idx),
            eval_variants_spec(ctx_of(pieces, full), children, i, n, variant, off, idx),
        ),
    decreases children, children.len() - i,
{
    if i < children.len() {
        lemma_variant_refines(pieces, known, full, children[i as int], off, idx);
        lemma_variants_refines(pieces, known, full, children, i + 1, n, variant, off, idx);
    }
}

proof fn lemma_variant_refines(
    pieces: Seq<Piece>,
    known: MemoryAndRegistersView,
    full: MemoryAndRegistersView,
    die: TypeDie,
    off: u64,
    idx: nat,
)
    requires
        known_within(known, full),
    ensures
        step_refines(
            known,
            full,
            eval_variant_spec(ctx_of(pieces, known), die, off, idx),
            eval_variant_spec(ctx_of(pieces, full), die, off, idx),
        ),
    decreases die, 1nat,
{
    match die {
        TypeDie::Variant { children, .. } => {
            if let Some(k) = first_member(children@, 0) {
                if k < children@.len() {
                    lemma_member_refines(pieces, known, full, children@[k as int], off, idx);
                }
            }
        },
        _ => {},
    }
}

/// Knowing less of the target never changes what the evaluator gives; it
/// can only make it stop earlier, with a request for a register or memory
/// range of which `known` lacks something. Where evaluating with `full`
/// known asks nothing, that request is one `full` answers: it holds the
/// register, or a byte of the range that `known` lacks.
pub proof fn lemma_less_known_stops_earlier(
    pieces: Seq<Piece>,
    stack: Option<TypeDie>,
    known: MemoryAndRegistersView,
    full: MemoryAndRegistersView,
)
    requires
        known_within(known, full),
    ensures
        ({
            let r1 = evaluate_spec(ctx_of(pieces, known), stack).0;
            let r2 = evaluate_spec(ctx_of(pieces, full), stack).0;
            ||| r1 == r2
            ||| r1 matches Ok(Step::Required(q)) && request_is_genuine(known, q) && (r2 matches Ok(
                Step::Required(_),
            ) || request_answerable(known, full, q))
        }),
{
    lemma_requests_are_genuine(ctx_of(pieces, known), stack);
    match stack {
        None => lemma_handle_refines(pieces, known, full, Some(4u64), 0, Some(1u8), 0),
        Some(d) => lemma_type_refines(pieces, known, full, d, 0, 0),
    }
}

/// `known` after request `q` was answered from `full`: the register, or
/// those bytes of the range that `full` holds, are added to it.
pub open spec fn answer_request(
    known: MemoryAndRegistersView,
    full: MemoryAndRegistersView,
    q: EvaluatorResult,
) -> MemoryAndRegistersView {
    match q {
        EvaluatorResult::RequireReg(r) => if full.registers.contains_key(r) {
            MemoryAndRegistersView { registers: known.registers.insert(r, full.registers[r]), ..known }
        } else {
            known
        },
        EvaluatorResult::RequireData { address, num_words } => MemoryAndRegistersView {
            memory: known.memory.union_prefer_right(
                full.memory.restrict(Set::new(|a: u32| address <= a && a < address + num_words)),
            ),
            ..known
        },
        EvaluatorResult::Complete => known,
    }
}

/// What is known after `n` rounds of evaluating and answering the request
/// that came back from `full` (a round that gets no request changes nothing).
pub open spec fn answer_requests(
    pieces: Seq<Piece>,
    stack: Option<TypeDie>,
    known: MemoryAndRegistersView,
    full: MemoryAndRegistersView,
    n: nat,
) -> MemoryAndRegistersView
    decreases n,
{
    if n == 0 {
        known
    } else {
        let k = answer_requests(pieces, stack, known, full, (n - 1) as nat);
        match evaluate_spec(ctx_of(pieces, k), stack).0 {
            Ok(Step::Required(q)) => answer_request(k, full, q),
            _ => k,
        }
    }
}

proof fn lemma_doms_finite(m: MemoryAndRegistersView)
    ensures
        m.registers.dom().finite(),
        m.memory.dom().finite(),
{
    lemma_int_range(0, 0x1_0000_0000);
    let to32 = |i: int| i as u32;
    let all32 = set_int_range(0, 0x1_0000_0000).map(to32);
    set_int_range(0, 0x1_0000_0000).lemma_map_finite(to32);
    assert forall|a: u32| m.memory.dom().contains(a) implies all32.contains(a) by {
        assert(set_int_range(0, 0x1_0000_0000).contains(a as int) && to32(a as int) == a);
    }
    lemma_set_subset_finite(all32, m.memory.dom());
    lemma_int_range(0, 0x1_0000);
    let to16 = |i: int| i as u16;
    let all16 = set_int_range(0, 0x1_0000).map(to16);
    set_int_range(0, 0x1_0000).lemma_map_finite(to16);
    assert forall|r: u16| m.registers.dom().contains(r) implies all16.contains(r) by {
        assert(set_int_range(0, 0x1_0000).contains(r as int) && to16(r as int) == r);
    }
    lemma_set_subset_finite(all16, m.registers.dom());
}

/// How much of `full` is still missing from `known`.
spec fn missing(known: MemoryAndRegistersView, full: MemoryAndRegistersView) -> int {
    (full.registers.dom().len() - known.registers.dom().len()) + (full.memory.dom().len()
        - known.memory.dom().len())
}

proof fn lemma_missing_bounds(known: MemoryAndRegistersView, full: MemoryAndRegistersView)
    requires
        known_within(known, full),
    ensures
        0 <= missing(known, full) <= full.registers.dom().len() + full.memory.dom().len(),
{
    lemma_doms_finite(full);
    assert(known.registers.dom().subset_of(full.registers.dom()));
    assert(known.memory.dom().subset_of(full.memory.dom()));
    lemma_len_subset(known.registers.dom(), full.registers.dom());
    lemma_len_subset(known.memory.dom(), full.memory.dom());
}

/// Answering a request that `full` answers stays within `full` and lessens
/// what is missing.
proof fn lemma_answer_progress(known: MemoryAndRegistersView, full: MemoryAndRegistersView, q: EvaluatorResult)
    requires
        known_within(known, full),
        request_answerable(known, full, q),
    ensures
        known_within(answer_request(known, full, q), full),
        missing(answer_request(known, full, q), full) < missing(known, full),
{
    lemma_doms_finite(full);
    let k2 = answer_request(known, full, q);
    lemma_doms_finite(k2);
    lemma_doms_finite(known);
    match q {
        EvaluatorResult::RequireReg(r) => {
            assert(k2.registers.dom() =~= known.registers.dom().insert(r));
            assert(k2.memory == known.memory);
        },
        EvaluatorResult::RequireData { address, num_words } => {
            let j = choose|j: int|
                0 <= j < num_words && address + j <= u32::MAX && #[trigger] full.memory.contains_key(
                    (address + j) as u32,
                ) && !known.memory.contains_key((address + j) as u32);
            let x = (address + j) as u32;
            assert(k2.memory.submap_of(full.memory)) by {
                assert forall|a: u32| #[trigger] k2.memory.dom().contains(a) implies full.memory.dom().contains(a)
                    && k2.memory[a] == full.memory[a] by {
                    if known.memory.dom().contains(a) {
                        assert(full.memory.dom().contains(a));
                    }
                }
            }
            assert(known.memory.dom().insert(x).subset_of(k2.memory.dom()));
            lemma_len_subset(known.memory.dom().insert(x), k2.memory.dom());
            assert(k2.registers == known.registers);
        },
        EvaluatorResult::Complete => {},
    }
}

proof fn lemma_rounds(
    pieces: Seq<Piece>,
    stack: Option<TypeDie>,
    known: MemoryAndRegistersView,
    full: MemoryAndRegistersView,
    n: nat,
)
    requires
        known_within(known, full),
        !(evaluate_spec(ctx_of(pieces, full), stack).0 matches Ok(Step::Required(_))),
    ensures
        known_within(answer_requests(pieces, stack, known, full, n), full),
        evaluate_spec(ctx_of(pieces, answer_requests(pieces, stack, known, full, n)), stack).0 matches Ok(
            Step::Required(_),
        ) ==> missing(answer_requests(pieces, stack, known, full, n), full) + n <= missing(known, full),
    decreases n,
{
    if n > 0 {
        let k = answer_requests(pieces, stack, known, full, (n - 1) as nat);
        lemma_rounds(pieces, stack, known, full, (n - 1) as nat);
        if let Ok(Step::Required(q)) = evaluate_spec(ctx_of(pieces, k), stack).0 {
            lemma_less_known_stops_earlier(pieces, stack, k, full);
            lemma_answer_progress(k, full, q);
        }
    }
}

/// Answering the evaluator's requests from the target ends in the outcome
/// it gives with everything known from the start: where `full` (the
/// target's registers and memory) takes the evaluation to a value or an
/// error, then from any part `known` of it, evaluating and answering each
/// request from `full`, as many rounds as `full` has registers and bytes,
/// gives that same value or error.
pub proof fn lemma_answering_requests_converges(
    pieces: Seq<Piece>,
    stack: Option<TypeDie>,
    known: MemoryAndRegistersView,
    full: MemoryAndRegistersView,
    n: nat,
)
    requires
        known_within(known, full),
        !(evaluate_spec(ctx_of(pieces, full), stack).0 matches Ok(Step::Required(_))),
        n >= full.registers.dom().len() + full.memory.dom().len(),
    ensures
        evaluate_spec(ctx_of(pieces, answer_requests(pieces, stack, known, full, n)), stack).0
            == evaluate_spec(ctx_of(pieces, full), stack).0,
{
    let k = answer_requests(pieces, stack, known, full, n);
    lemma_rounds(pieces, stack, known, full, n);
    lemma_less_known_stops_earlier(pieces, stack, k, full);
    lemma_missing_bounds(known, full);
    if let Ok(Step::Required(q)) = evaluate_spec(ctx_of(pieces, k), stack).0 {
        lemma_answer_progress(k, full, q);
        lemma_missing_bounds(answer_request(k, full, q), full);
    }
}

} // verus!
