use rust_debug::gimli_test_example::debugger::types::types::{
    BaseType, DebuggerType, Enumerator, MemberType, PointerType, StringType,
    TemplateTypeParameter, TypeInfo,
};

fn u32_type() -> DebuggerType {
    DebuggerType::BaseType(BaseType {
        name: Some("u32".to_string()),
        encoding: 7,
        byte_size: Some(4),
        bit_size: None,
        data_bit_offset: None,
        alignment: Some(4),
    })
}

#[test]
fn pointer_size_falls_back_to_the_pointee() {
    let p = PointerType {
        address_class: Some(0),
        alignment: None,
        bit_size: None,
        byte_size: None,
        name: Some("&u32".to_string()),
        type_: Box::new(u32_type()),
    };
    assert_eq!(p.byte_size(), Some(4));
    assert_eq!(p.alignment(), Some(4));
    let q = PointerType { byte_size: Some(8), alignment: Some(2), ..p };
    assert_eq!(q.byte_size(), Some(8));
    assert_eq!(q.alignment(), Some(2));
}

#[test]
fn member_and_template_sizes() {
    let m = MemberType {
        accessibility: None,
        alignment: None,
        artificial: None,
        bit_size: None,
        byte_size: None,
        data_bit_offset: None,
        data_member_location: Some(0),
        mutable: None,
        name: Some("x".to_string()),
        type_: Box::new(u32_type()),
    };
    assert_eq!(m.byte_size(), Some(4));
    let d = DebuggerType::MemberType(m);
    assert_eq!(d.byte_size(), Some(4));
    let t = TemplateTypeParameter { name: Some("T".to_string()), type_: Box::new(d) };
    assert_eq!(t.byte_size(), Some(4));
    assert_eq!(t.alignment(), Some(4));
}

#[test]
fn enumerator_and_string_sizes() {
    let e = Enumerator { name: "A".to_string(), const_value: 1 };
    assert_eq!(e.byte_size(), None);
    assert_eq!(e.alignment(), None);
    let s = StringType {
        accessibility: None,
        alignment: Some(1),
        bit_size: None,
        byte_size: Some(16),
        name: Some("str".to_string()),
        string_length: None,
        string_length_bit_size: None,
        string_length_byte_size: None,
    };
    assert_eq!(s.byte_size(), Some(16));
    assert_eq!(DebuggerType::StringType(s).alignment(), Some(1));
}
