use rust_debug::debugger::evaluate::evaluate::slize_as_u64 as words_as_u64;
use rust_debug::rust_debug::evaluate::base::slize_as_u64;
use rust_debug::rust_debug::evaluate::evaluate::{EvalError, Evaluator, Piece, PieceLocation, TypeDie};
use rust_debug::rust_debug::evaluate::pieces::{
    evaluate_pieces_step, EvalRequest, PiecesError, PiecesStep,
};
use rust_debug::rust_debug::evaluate::value::{BaseValue, EvaluatorValue, GimliValue};
use rust_debug::rust_debug::evaluate::{evaluate_value, EvalResult, EvaluatorResult};
use rust_debug::rust_debug::memory_and_registers::MemoryAndRegisters;

fn u32_die() -> TypeDie {
    TypeDie::BaseType { name: Some("u32".to_string()), byte_size: Some(4), encoding: Some(7), alignment: Some(4) }
}

fn at(location: PieceLocation) -> Vec<Piece> {
    vec![Piece { size_in_bits: None, bit_offset: None, location }]
}

#[test]
fn u32_in_memory_is_asked_for_then_read() {
    let mut m = MemoryAndRegisters::new();
    match evaluate_value(at(PieceLocation::Address(0x2000_0000)), Some(u32_die()), &m) {
        Ok(EvaluatorResult::Requires(EvalResult::RequiresMemory { address, num_words })) => {
            assert_eq!(address, 0x2000_0000);
            assert_eq!(num_words, 4);
        },
        other => panic!("expected a memory request, got {:?}", other.is_ok()),
    }
    m.add_to_memory(0x2000_0000, vec![0x2a, 0x01, 0, 0]);
    match evaluate_value(at(PieceLocation::Address(0x2000_0000)), Some(u32_die()), &m) {
        Ok(EvaluatorResult::Complete(EvaluatorValue::Value(v, bytes))) => {
            assert_eq!(v, BaseValue::U32(0x12a));
            assert_eq!(bytes, vec![0x2a, 0x01, 0, 0]);
        },
        _ => panic!("expected a value"),
    }
}

#[test]
fn u32_in_a_register() {
    let mut m = MemoryAndRegisters::new();
    match evaluate_value(at(PieceLocation::Register(3)), Some(u32_die()), &m) {
        Ok(EvaluatorResult::Requires(EvalResult::RequiresRegister { register })) => assert_eq!(register, 3),
        _ => panic!("expected a register request"),
    }
    m.add_to_registers(3, 0xffff_fffe);
    match evaluate_value(at(PieceLocation::Register(3)), Some(u32_die()), &m) {
        Ok(EvaluatorResult::Complete(EvaluatorValue::Value(v, _))) => assert_eq!(v, BaseValue::U32(0xffff_fffe)),
        _ => panic!("expected a value"),
    }
}

#[test]
fn optimized_out_piece() {
    let m = MemoryAndRegisters::new();
    match evaluate_value(at(PieceLocation::Empty), Some(u32_die()), &m) {
        Ok(EvaluatorResult::Complete(EvaluatorValue::OptimizedOut)) => {},
        _ => panic!("expected an optimized-out value"),
    }
}

#[test]
fn words_to_u64() {
    assert_eq!(slize_as_u64(&[7]), 7);
    assert_eq!(slize_as_u64(&[1, 2]), 0x2_0000_0001);
    assert_eq!(words_as_u64(&[1, 2]), 0x1_0000_0002);
    assert_eq!(words_as_u64(&[9]), 9);
}

#[test]
fn expression_requests() {
    let mut m = MemoryAndRegisters::new();
    let req = EvalRequest::RequiresMemory { address: 0x100, size: 4, space: None, base_type: None };
    assert_eq!(
        evaluate_pieces_step(&req, None, &m),
        Ok(PiecesStep::Requires(EvalResult::RequiresMemory { address: 0x100, num_words: 4 }))
    );
    m.add_to_memory(0x100, vec![4, 3, 2, 1]);
    assert_eq!(
        evaluate_pieces_step(&req, None, &m),
        Ok(PiecesStep::ResumeWithMemory(GimliValue::Generic(0x0102_0304)))
    );
    assert_eq!(
        evaluate_pieces_step(&EvalRequest::RequiresFrameBase, Some(0x2000_0000), &m),
        Ok(PiecesStep::ResumeWithFrameBase(0x2000_0000))
    );
    assert_eq!(
        evaluate_pieces_step(&EvalRequest::RequiresFrameBase, None, &m),
        Err(PiecesError::RequiresFrameBase)
    );
    assert_eq!(evaluate_pieces_step(&EvalRequest::Complete, None, &m), Ok(PiecesStep::Finish));
    assert_eq!(
        evaluate_pieces_step(&EvalRequest::RequiresRegister { register: 2, base_type: None }, None, &m),
        Ok(PiecesStep::Requires(EvalResult::RequiresRegister { register: 2 }))
    );
    assert_eq!(evaluate_pieces_step(&EvalRequest::RequiresTls(1), None, &m), Ok(PiecesStep::NotHandled));
}

fn split_u64_pieces() -> Vec<Piece> {
    vec![
        Piece { size_in_bits: Some(32), bit_offset: None, location: PieceLocation::Register(0) },
        Piece { size_in_bits: Some(32), bit_offset: None, location: PieceLocation::Address(0x2000_0000) },
    ]
}

fn u64_die() -> TypeDie {
    TypeDie::BaseType { name: Some("u64".to_string()), byte_size: Some(8), encoding: Some(7), alignment: None }
}

fn u64_value(r: Result<EvaluatorResult, EvalError>) -> Option<BaseValue> {
    match r {
        Ok(EvaluatorResult::Complete(EvaluatorValue::Value(v, _))) => Some(v),
        _ => None,
    }
}

#[test]
fn answering_requests_gives_the_value_known_from_the_start() {
    let mut full = MemoryAndRegisters::new();
    full.add_to_registers(0, 0x1111_2222);
    full.add_to_memory(0x2000_0000, vec![1, 2, 3, 4]);
    let at_once = u64_value(evaluate_value(split_u64_pieces(), Some(u64_die()), &full));
    assert_eq!(at_once, Some(BaseValue::U64(0x0403_0201_1111_2222)));

    let mut known = MemoryAndRegisters::new();
    match evaluate_value(split_u64_pieces(), Some(u64_die()), &known) {
        Ok(EvaluatorResult::Requires(EvalResult::RequiresRegister { register })) => assert_eq!(register, 0),
        _ => panic!("expected a register request"),
    }
    known.add_to_registers(0, 0x1111_2222);
    match evaluate_value(split_u64_pieces(), Some(u64_die()), &known) {
        Ok(EvaluatorResult::Requires(EvalResult::RequiresMemory { address, num_words })) => {
            assert_eq!(address, 0x2000_0000);
            assert_eq!(num_words, 4);
        },
        _ => panic!("expected a memory request"),
    }
    known.add_to_memory(0x2000_0000, vec![1, 2, 3, 4]);
    assert_eq!(u64_value(evaluate_value(split_u64_pieces(), Some(u64_die()), &known)), at_once);
}

fn u8_die() -> TypeDie {
    TypeDie::BaseType { name: Some("u8".to_string()), byte_size: Some(1), encoding: Some(7), alignment: None }
}

fn u8_member(name: &str) -> TypeDie {
    TypeDie::Member {
        name: Some(name.to_string()),
        data_member_location: Some(0),
        alignment: None,
        member_type: Some(Box::new(u8_die())),
    }
}

fn variant(discr_value: u64, member: &str) -> TypeDie {
    TypeDie::Variant { alignment: None, discr_value: Some(discr_value), children: vec![u8_member(member)] }
}

fn variant_part(values: (u64, u64)) -> TypeDie {
    TypeDie::VariantPart {
        alignment: None,
        discr: Some(Box::new(u8_member("d"))),
        children: vec![variant(values.0, "A"), variant(values.1, "B")],
    }
}

fn enum_struct(values: (u64, u64)) -> TypeDie {
    TypeDie::StructureType { name: Some("E".to_string()), alignment: None, children: vec![variant_part(values)] }
}

fn register_one() -> MemoryAndRegisters {
    let mut m = MemoryAndRegisters::new();
    m.add_to_registers(0, 1);
    m
}

#[test]
fn variant_part_takes_the_variant_of_the_discriminant() {
    let m = register_one();
    match evaluate_value(at(PieceLocation::Register(0)), Some(enum_struct((0, 1))), &m) {
        Ok(EvaluatorResult::Complete(EvaluatorValue::Struct(s))) => {
            assert_eq!(s.name, "E");
            assert_eq!(s.members.len(), 1);
            match &s.members[0] {
                EvaluatorValue::Enum(e) => assert_eq!(e.name, "B"),
                _ => panic!("expected an enum value"),
            }
        },
        _ => panic!("expected a structure value"),
    }
}

#[test]
fn variant_part_without_a_matching_variant() {
    let m = register_one();
    let mut evaluator = Evaluator::new(at(PieceLocation::Register(0)), None);
    assert!(!evaluator.variant_part_has_match(&m, &variant_part((5, 7)), 0));
    let mut evaluator = Evaluator::new(at(PieceLocation::Register(0)), None);
    assert!(evaluator.variant_part_has_match(&m, &variant_part((0, 1)), 0));
    match evaluate_value(at(PieceLocation::Register(0)), Some(enum_struct((5, 7))), &m) {
        Err(e) => assert_eq!(e, EvalError::NoMatchingVariant),
        _ => panic!("expected no matching variant"),
    }
}
