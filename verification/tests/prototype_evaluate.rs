use rust_debug::debugger::evaluate::EvalResult;
use rust_debug::debugger::memory_and_registers::MemoryAndRegisters;
use rust_debug::gimli_test_example::debugger::evaluate::evaluate::{
    eval_base_type, evaluate, parse_base_type, Outcome,
};
use rust_debug::gimli_test_example::debugger::evaluate::value::DebuggerValue;
use rust_debug::gimli_test_example::debugger::types::types::{
    BaseType, DebuggerType, MemberType, PointerType, StructuredType, Variant, VariantPart,
};
use rust_debug::rust_debug::evaluate::evaluate::{Piece, PieceLocation};
use rust_debug::rust_debug::evaluate::value::GimliValue;

fn base(name: &str, encoding: u8, byte_size: u64) -> DebuggerType {
    DebuggerType::BaseType(BaseType {
        name: Some(name.to_string()),
        encoding,
        byte_size: Some(byte_size),
        bit_size: None,
        data_bit_offset: None,
        alignment: Some(byte_size),
    })
}

fn member(name: &str, location: Option<u64>, t: DebuggerType) -> MemberType {
    MemberType {
        accessibility: None,
        alignment: None,
        artificial: None,
        bit_size: None,
        byte_size: None,
        data_bit_offset: None,
        data_member_location: location,
        mutable: None,
        name: Some(name.to_string()),
        type_: Box::new(t),
    }
}

fn structure(name: &str, children: Vec<DebuggerType>) -> DebuggerType {
    DebuggerType::StructuredType(StructuredType {
        alignment: None,
        bit_size: None,
        byte_size: None,
        children: children.into_iter().map(Box::new).collect(),
        name: Some(name.to_string()),
    })
}

fn piece(location: PieceLocation) -> Piece {
    Piece { size_in_bits: None, bit_offset: None, location }
}

fn member_u32(v: &DebuggerValue) -> (Option<String>, u32) {
    match v {
        DebuggerValue::Member(m) => match &m.value {
            DebuggerValue::Value(GimliValue::U32(x)) => (m.name.clone(), *x),
            other => panic!("expected a u32 member value, got {:?}", other),
        },
        other => panic!("expected a member, got {:?}", other),
    }
}

/// A structure whose members are declared out of the order of their
/// locations: the pieces are read in the order of the locations.
fn point() -> DebuggerType {
    structure(
        "Point",
        vec![
            DebuggerType::MemberType(member("y", Some(4), base("u32", 7, 4))),
            DebuggerType::MemberType(member("x", Some(0), base("u32", 7, 4))),
        ],
    )
}

#[test]
fn structure_members_are_read_in_location_order() {
    let pieces = vec![piece(PieceLocation::Address(0x100)), piece(PieceLocation::Address(0x104))];
    let mut m = MemoryAndRegisters::new();
    m.add_to_memory(0x100, 7);
    m.add_to_memory(0x104, 9);
    let t = point();
    match evaluate(&pieces, Some(&t), &m) {
        Outcome::Done(Some(DebuggerValue::Struct(s))) => {
            assert_eq!(s.name, "Point");
            assert_eq!(s.members.len(), 2);
            assert_eq!(member_u32(&s.members[0]), (Some("x".to_string()), 7));
            assert_eq!(member_u32(&s.members[1]), (Some("y".to_string()), 9));
        },
        other => panic!("expected a structure, got {:?}", other),
    }
}

#[test]
fn missing_memory_word_is_asked_for() {
    let pieces = vec![piece(PieceLocation::Address(0x100)), piece(PieceLocation::Address(0x104))];
    let mut m = MemoryAndRegisters::new();
    m.add_to_memory(0x100, 7);
    let t = point();
    match evaluate(&pieces, Some(&t), &m) {
        Outcome::Need(EvalResult::RequiresMemory { address, num_words }) => {
            assert_eq!(address, 0x104);
            assert_eq!(num_words, 1);
        },
        other => panic!("expected a memory request, got {:?}", other),
    }
}

#[test]
fn register_piece_reads_the_register() {
    let pieces = vec![piece(PieceLocation::Register(2))];
    let t = base("u32", 7, 4);
    let mut m = MemoryAndRegisters::new();
    match evaluate(&pieces, Some(&t), &m) {
        Outcome::Need(EvalResult::RequiresRegister { register }) => assert_eq!(register, 2),
        other => panic!("expected a register request, got {:?}", other),
    }
    m.add_to_registers(2, 0xdead_beef);
    match evaluate(&pieces, Some(&t), &m) {
        Outcome::Done(Some(DebuggerValue::Value(v))) => assert_eq!(v, GimliValue::U32(0xdead_beef)),
        other => panic!("expected a value, got {:?}", other),
    }
}

#[test]
fn u64_spans_two_words_first_more_significant() {
    let pieces = vec![piece(PieceLocation::Address(0x200))];
    let t = base("u64", 7, 8);
    let mut m = MemoryAndRegisters::new();
    m.add_to_memory(0x200, 1);
    match evaluate(&pieces, Some(&t), &m) {
        Outcome::Need(EvalResult::RequiresMemory { address, num_words }) => {
            assert_eq!(address, 0x200);
            assert_eq!(num_words, 2);
        },
        other => panic!("expected a memory request, got {:?}", other),
    }
    m.add_to_memory(0x204, 2);
    match evaluate(&pieces, Some(&t), &m) {
        Outcome::Done(Some(DebuggerValue::Value(v))) => assert_eq!(v, GimliValue::U64(0x1_0000_0002)),
        other => panic!("expected a value, got {:?}", other),
    }
}

#[test]
fn base_type_decoding() {
    assert_eq!(eval_base_type(&[0xffff_ff80], 5, 1), GimliValue::I8(-128));
    assert_eq!(eval_base_type(&[0x1234_5678], 7, 2), GimliValue::U16(0x5678));
    assert_eq!(eval_base_type(&[0x0000_0101], 2, 1), GimliValue::Generic(1));
    assert_eq!(eval_base_type(&[0xffff_ffff, 0xffff_fffe], 5, 8), GimliValue::I64(-2));
}

/// An enumeration laid out as a structure with a variant part: the
/// discriminant is read first, then the variant it selects.
fn option_u32() -> DebuggerType {
    let discriminant = member("discr", Some(0), base("u8", 7, 1));
    let none = Variant {
        accessibility: None,
        discr_value: Some(0),
        member: member("None", Some(0), structure("None", vec![])),
    };
    let some = Variant {
        accessibility: None,
        discr_value: Some(1),
        member: member(
            "Some",
            Some(0),
            structure("Some", vec![DebuggerType::MemberType(member("__0", Some(4), base("u32", 7, 4)))]),
        ),
    };
    structure(
        "Option<u32>",
        vec![DebuggerType::VariantPart(VariantPart {
            accessibility: None,
            member: Some(discriminant),
            variants: vec![none, some],
        })],
    )
}

#[test]
fn variant_part_selects_the_variant_of_the_discriminant() {
    let pieces = vec![piece(PieceLocation::Value(GimliValue::U8(1))), piece(PieceLocation::Address(0x300))];
    let mut m = MemoryAndRegisters::new();
    m.add_to_memory(0x300, 5);
    let t = option_u32();
    match evaluate(&pieces, Some(&t), &m) {
        Outcome::Done(Some(DebuggerValue::Struct(s))) => {
            assert_eq!(s.name, "Option<u32>");
            assert_eq!(s.members.len(), 1);
            match &s.members[0] {
                DebuggerValue::Enum(e) => {
                    assert_eq!(e.name, "Some");
                    match &e.value {
                        DebuggerValue::Member(mv) => match &mv.value {
                            DebuggerValue::Struct(inner) => {
                                assert_eq!(inner.name, "Some");
                                assert_eq!(member_u32(&inner.members[0]), (Some("__0".to_string()), 5));
                            },
                            other => panic!("expected the variant's structure, got {:?}", other),
                        },
                        other => panic!("expected the variant's member, got {:?}", other),
                    }
                },
                other => panic!("expected an enumeration value, got {:?}", other),
            }
        },
        other => panic!("expected a structure, got {:?}", other),
    }
}

#[test]
fn unknown_discriminant_is_a_fault() {
    let pieces = vec![piece(PieceLocation::Value(GimliValue::U8(7))), piece(PieceLocation::Address(0x300))];
    let m = MemoryAndRegisters::new();
    let t = option_u32();
    assert!(matches!(evaluate(&pieces, Some(&t), &m), Outcome::Fault));
}

#[test]
fn unhandled_types_and_missing_pieces_are_faults() {
    let m = MemoryAndRegisters::new();
    let pointer = DebuggerType::PointerType(PointerType {
        address_class: None,
        alignment: None,
        bit_size: None,
        byte_size: Some(4),
        name: None,
        type_: Box::new(base("u32", 7, 4)),
    });
    let pieces = vec![piece(PieceLocation::Address(0x100))];
    assert!(matches!(evaluate(&pieces, Some(&pointer), &m), Outcome::Fault));
    assert!(matches!(evaluate(&Vec::new(), None, &m), Outcome::Fault));
    // A piece read without a type cannot be read from memory.
    assert!(matches!(evaluate(&pieces, None, &m), Outcome::Fault));
}

#[test]
fn missing_pieces_read_as_optimized_out() {
    let m = MemoryAndRegisters::new();
    let t = base("u32", 7, 4);
    assert!(matches!(evaluate(&Vec::new(), Some(&t), &m), Outcome::Done(Some(DebuggerValue::OptimizedOut))));
}

#[test]
fn expression_words_without_a_base_type_are_generic() {
    assert_eq!(parse_base_type(&[1, 2], None), GimliValue::Generic(0x1_0000_0002));
    assert_eq!(parse_base_type(&[0xffff_fffe], Some((5, 4))), GimliValue::I32(-2));
}
