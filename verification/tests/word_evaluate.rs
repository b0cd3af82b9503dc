use std::collections::HashMap;

use rust_debug::debugger::evaluate::evaluate::{EvalError, Evaluator};
use rust_debug::debugger::evaluate::pieces::{evaluate_pieces_step, PiecesStep};
use rust_debug::debugger::evaluate::EvalResult;
use rust_debug::rust_debug::evaluate::evaluate::{EvaluatorResult, Piece, PieceLocation, ReturnResult, TypeDie};
use rust_debug::rust_debug::evaluate::pieces::EvalRequest;
use rust_debug::rust_debug::evaluate::value::{BaseValue, EvaluatorValue, GimliValue};

fn piece(location: PieceLocation) -> Vec<Piece> {
    vec![Piece { size_in_bits: None, bit_offset: None, location }]
}

fn base(byte_size: u64, encoding: u8) -> TypeDie {
    TypeDie::BaseType { name: Some("t".to_string()), byte_size: Some(byte_size), encoding: Some(encoding), alignment: None }
}

fn enumeration() -> TypeDie {
    TypeDie::EnumerationType {
        name: Some("Colour".to_string()),
        alignment: None,
        underlying_type: Some(Box::new(base(1, 7))),
        children: vec![
            TypeDie::Enumerator { name: Some("Ten".to_string()), const_value: Some(10) },
            TypeDie::Subprogram,
            TypeDie::Enumerator { name: Some("Twenty".to_string()), const_value: Some(20) },
        ],
    }
}

fn evaluator_with_register(value: u32, die: Option<TypeDie>) -> Evaluator {
    let mut ev = Evaluator::new(piece(PieceLocation::Register(0)), die);
    ev.add_register(0, value);
    ev
}

#[test]
fn enumeration_takes_the_enumerator_with_the_same_constant() {
    let mut ev = evaluator_with_register(10, None);
    match ev.eval_enumeration_type(&enumeration(), 0) {
        Ok(Some(ReturnResult::Value(EvaluatorValue::Enum(e)))) => {
            assert_eq!(e.name, "Colour");
            match e.value {
                EvaluatorValue::Name(n) => assert_eq!(n, "Ten"),
                _ => panic!("expected an enumerator name"),
            }
        },
        _ => panic!("expected an enumeration value"),
    }
    let mut ev = evaluator_with_register(20, None);
    match ev.eval_enumeration_type(&enumeration(), 0) {
        Ok(Some(ReturnResult::Value(EvaluatorValue::Enum(e)))) => match e.value {
            EvaluatorValue::Name(n) => assert_eq!(n, "Twenty"),
            _ => panic!("expected an enumerator name"),
        },
        _ => panic!("expected an enumeration value"),
    }
}

#[test]
fn enumeration_without_a_matching_enumerator_has_no_value() {
    let mut ev = evaluator_with_register(30, None);
    assert!(matches!(ev.eval_enumeration_type(&enumeration(), 0), Ok(None)));
    let mut ev = evaluator_with_register(30, Some(enumeration()));
    assert_eq!(ev.evaluate().err(), Some(EvalError::NoValue));
}

#[test]
fn register_value_is_asked_for_then_read() {
    let mut ev = Evaluator::new(piece(PieceLocation::Register(3)), Some(base(4, 7)));
    assert!(matches!(ev.evaluate(), Ok(EvaluatorResult::RequireReg(3))));
    ev.add_register(3, 0xffff_fffe);
    assert!(matches!(ev.evaluate(), Ok(EvaluatorResult::Complete)));
    match ev.get_value() {
        Some(EvaluatorValue::Value(v, _)) => assert_eq!(v, BaseValue::U32(0xffff_fffe)),
        _ => panic!("expected a value"),
    }
}

#[test]
fn memory_words_are_asked_for_one_at_a_time() {
    let mut ev = Evaluator::new(piece(PieceLocation::Address(0x2000_0000)), Some(base(8, 7)));
    match ev.evaluate() {
        Ok(EvaluatorResult::RequireData { address, num_words }) => {
            assert_eq!(address, 0x2000_0000);
            assert_eq!(num_words, 1);
        },
        _ => panic!("expected a memory request"),
    }
    ev.add_address(0x2000_0000, 1);
    match ev.evaluate() {
        Ok(EvaluatorResult::RequireData { address, num_words }) => {
            assert_eq!(address, 0x2000_0004);
            assert_eq!(num_words, 1);
        },
        _ => panic!("expected a request for the second word"),
    }
    ev.add_address(0x2000_0004, 2);
    assert!(matches!(ev.evaluate(), Ok(EvaluatorResult::Complete)));
    match ev.get_value() {
        Some(EvaluatorValue::Value(v, _)) => assert_eq!(v, BaseValue::U64(0x1_0000_0002)),
        _ => panic!("expected a value"),
    }
}

#[test]
fn without_a_type_the_first_piece_is_an_address() {
    let mut ev = Evaluator::new(piece(PieceLocation::Value(GimliValue::Generic(0x2000_0010))), None);
    assert!(matches!(ev.evaluate(), Ok(EvaluatorResult::Complete)));
    match ev.get_value() {
        Some(EvaluatorValue::Value(v, _)) => assert_eq!(v, BaseValue::Address32(0x2000_0010)),
        _ => panic!("expected an address"),
    }
    let mut ev = Evaluator::new(vec![], None);
    assert_eq!(ev.evaluate().err(), Some(EvalError::OutOfPieces));
}

fn u8_member(name: &str) -> TypeDie {
    TypeDie::Member { name: Some(name.to_string()), data_member_location: Some(0), alignment: None, member_type: Some(Box::new(base(1, 7))) }
}

fn variant_part(values: (u64, u64)) -> TypeDie {
    TypeDie::VariantPart {
        alignment: None,
        discr: Some(Box::new(u8_member("d"))),
        children: vec![
            TypeDie::Variant { alignment: None, discr_value: Some(values.0), children: vec![u8_member("A")] },
            TypeDie::Variant { alignment: None, discr_value: Some(values.1), children: vec![u8_member("B")] },
        ],
    }
}

#[test]
fn word_variant_part_picks_the_variant_or_reports_none_matches() {
    let mut ev = evaluator_with_register(1, None);
    assert!(ev.variant_part_has_match(&variant_part((0, 1)), 0));
    match ev.eval_variant_part(&variant_part((0, 1)), 0) {
        Ok(Some(ReturnResult::Value(EvaluatorValue::Enum(e)))) => assert_eq!(e.name, "B"),
        _ => panic!("expected the second variant"),
    }
    let mut ev = evaluator_with_register(1, None);
    assert!(!ev.variant_part_has_match(&variant_part((5, 7)), 0));
    let st = TypeDie::StructureType { name: Some("E".to_string()), alignment: None, children: vec![variant_part((5, 7))] };
    let mut ev = evaluator_with_register(1, Some(st));
    assert_eq!(ev.evaluate().err(), Some(EvalError::NoMatchingVariant));
}

#[test]
fn memory_request_asks_for_the_words_of_its_size() {
    let registers: HashMap<u16, u32> = HashMap::new();
    let mut memory: HashMap<u32, u32> = HashMap::new();
    let request = EvalRequest::RequiresMemory { address: 0x2000_0000, size: 8, space: None, base_type: None };
    assert_eq!(
        evaluate_pieces_step(&request, None, &registers, &memory),
        Ok(PiecesStep::Requires(EvalResult::RequiresMemory { address: 0x2000_0000, num_words: 2 }))
    );
    let request = EvalRequest::RequiresMemory { address: 0x2000_0000, size: 4, space: None, base_type: None };
    assert_eq!(
        evaluate_pieces_step(&request, None, &registers, &memory),
        Ok(PiecesStep::Requires(EvalResult::RequiresMemory { address: 0x2000_0000, num_words: 1 }))
    );
    memory.insert(0x2000_0000, 7);
    assert_eq!(
        evaluate_pieces_step(&request, None, &registers, &memory),
        Ok(PiecesStep::ResumeWithMemory(GimliValue::Generic(7)))
    );
    let request = EvalRequest::RequiresRegister { register: 2, base_type: None };
    assert_eq!(
        evaluate_pieces_step(&request, None, &registers, &memory),
        Ok(PiecesStep::Requires(EvalResult::RequiresRegister { register: 2 }))
    );
    assert_eq!(evaluate_pieces_step(&EvalRequest::RequiresFrameBase, Some(0x2000_1000), &registers, &memory), Ok(PiecesStep::ResumeWithFrameBase(0x2000_1000)));
}
