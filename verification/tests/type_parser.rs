use rust_debug::gimli_test_example::debugger::types::parser::{
    parse_type_node, type_attribute, Attr, TypeEntry, TypeParseError, TypeRef, DW_TAG_BASE_TYPE,
    DW_TAG_ENUMERATION_TYPE, DW_TAG_ENUMERATOR, DW_TAG_MEMBER, DW_TAG_POINTER_TYPE, DW_TAG_STRUCTURE_TYPE,
    DW_TAG_SUBRANGE_TYPE, DW_TAG_VARIANT, DW_TAG_VARIANT_PART, DW_TAG_ARRAY_TYPE,
};
use rust_debug::gimli_test_example::debugger::types::types::{ArrayDimension, DebuggerType};

fn u32_entry() -> TypeEntry {
    let mut e = TypeEntry::new(DW_TAG_BASE_TYPE);
    e.name = Attr::Value("u32".to_string());
    e.encoding = Attr::Value(7);
    e.byte_size = Attr::Value(4);
    e.alignment = Attr::Value(4);
    e
}

fn member_entry(name: &str, location: u64, t: TypeEntry) -> TypeEntry {
    let mut m = TypeEntry::new(DW_TAG_MEMBER);
    m.name = Attr::Value(name.to_string());
    m.data_member_location = Attr::Value(location);
    m.type_ref = TypeRef::Entry(Box::new(t));
    m
}

#[test]
fn base_type_entry() {
    match parse_type_node(&u32_entry()) {
        Ok(DebuggerType::BaseType(b)) => {
            assert_eq!(b.name, Some("u32".to_string()));
            assert_eq!(b.encoding, 7);
            assert_eq!(b.byte_size, Some(4));
            assert_eq!(b.bit_size, None);
        },
        other => panic!("expected a base type, got {:?}", other),
    }
    let mut no_encoding = u32_entry();
    no_encoding.encoding = Attr::Absent;
    assert_eq!(parse_type_node(&no_encoding), Err(TypeParseError::NotReadable));
    let mut odd_form = u32_entry();
    odd_form.byte_size = Attr::OtherForm;
    assert_eq!(parse_type_node(&odd_form), Err(TypeParseError::NotReadable));
    // An attribute that a base type does not read does not matter.
    let mut unread = u32_entry();
    unread.count = Attr::OtherForm;
    assert!(parse_type_node(&unread).is_ok());
}

#[test]
fn structure_entry_reads_its_children() {
    let mut s = TypeEntry::new(DW_TAG_STRUCTURE_TYPE);
    s.name = Attr::Value("Point".to_string());
    s.byte_size = Attr::Value(8);
    s.children = vec![member_entry("x", 0, u32_entry()), member_entry("y", 4, u32_entry())];
    match parse_type_node(&s) {
        Ok(DebuggerType::StructuredType(st)) => {
            assert_eq!(st.name, Some("Point".to_string()));
            assert_eq!(st.byte_size, Some(8));
            assert_eq!(st.children.len(), 2);
            match &*st.children[1] {
                DebuggerType::MemberType(m) => {
                    assert_eq!(m.name, Some("y".to_string()));
                    assert_eq!(m.data_member_location, Some(4));
                    assert!(matches!(&*m.type_, DebuggerType::BaseType(_)));
                },
                other => panic!("expected a member, got {:?}", other),
            }
        },
        other => panic!("expected a structure, got {:?}", other),
    }
    // A member without a type cannot be read, nor the structure holding it.
    let mut bad = TypeEntry::new(DW_TAG_STRUCTURE_TYPE);
    bad.children = vec![TypeEntry::new(DW_TAG_MEMBER)];
    assert_eq!(parse_type_node(&bad), Err(TypeParseError::NotReadable));
}

#[test]
fn type_attribute_follows_the_reference() {
    let mut p = TypeEntry::new(DW_TAG_POINTER_TYPE);
    p.byte_size = Attr::Value(4);
    assert_eq!(type_attribute(&p), Ok(None));
    assert_eq!(parse_type_node(&p), Err(TypeParseError::NotReadable));
    p.type_ref = TypeRef::Unresolved;
    assert_eq!(type_attribute(&p), Ok(None));
    p.type_ref = TypeRef::OtherForm;
    assert_eq!(type_attribute(&p), Err(TypeParseError::NotReadable));
    p.type_ref = TypeRef::Entry(Box::new(u32_entry()));
    match parse_type_node(&p) {
        Ok(DebuggerType::PointerType(pt)) => assert!(matches!(&*pt.type_, DebuggerType::BaseType(_))),
        other => panic!("expected a pointer, got {:?}", other),
    }
}

#[test]
fn array_dimension_is_its_first_child() {
    let mut a = TypeEntry::new(DW_TAG_ARRAY_TYPE);
    a.type_ref = TypeRef::Entry(Box::new(u32_entry()));
    let mut range = TypeEntry::new(DW_TAG_SUBRANGE_TYPE);
    range.count = Attr::Value(3);
    range.lower_bound = Attr::Value(0);
    a.children = vec![range];
    match parse_type_node(&a) {
        Ok(DebuggerType::ArrayType(at)) => {
            assert_eq!(at.dimensions.len(), 1);
            match &at.dimensions[0] {
                ArrayDimension::SubrangeType(s) => {
                    assert_eq!(s.count, Some(3));
                    assert_eq!(s.lower_bound, Some(0));
                },
                other => panic!("expected a subrange, got {:?}", other),
            }
        },
        other => panic!("expected an array, got {:?}", other),
    }
    // A subrange is not read on its own.
    assert_eq!(parse_type_node(&TypeEntry::new(DW_TAG_SUBRANGE_TYPE)), Err(TypeParseError::NotReadable));
}

#[test]
fn enumeration_entry_reads_its_enumerators() {
    let mut en = TypeEntry::new(DW_TAG_ENUMERATION_TYPE);
    en.name = Attr::Value("Color".to_string());
    let mut red = TypeEntry::new(DW_TAG_ENUMERATOR);
    red.name = Attr::Value("Red".to_string());
    red.const_value = Attr::Value(0);
    let mut green = TypeEntry::new(DW_TAG_ENUMERATOR);
    green.name = Attr::Value("Green".to_string());
    green.const_value = Attr::Value(1);
    en.children = vec![red, green];
    match parse_type_node(&en) {
        Ok(DebuggerType::EnumerationType(e)) => {
            assert_eq!(e.enumerations.len(), 2);
            assert_eq!(e.enumerations[1].name, "Green");
            assert_eq!(e.enumerations[1].const_value, 1);
            assert!(e.methods.is_empty());
            assert!(e.type_.is_none());
        },
        other => panic!("expected an enumeration, got {:?}", other),
    }
    let mut nameless = TypeEntry::new(DW_TAG_ENUMERATOR);
    nameless.const_value = Attr::Value(2);
    en.children.push(nameless);
    assert_eq!(parse_type_node(&en), Err(TypeParseError::NotReadable));
}

#[test]
fn variant_part_reads_one_member_and_its_variants() {
    let mut vp = TypeEntry::new(DW_TAG_VARIANT_PART);
    let mut variant = TypeEntry::new(DW_TAG_VARIANT);
    variant.discr_value = Attr::Value(1);
    variant.children = vec![member_entry("Some", 0, u32_entry())];
    vp.children = vec![member_entry("discr", 0, u32_entry()), variant];
    match parse_type_node(&vp) {
        Ok(DebuggerType::VariantPart(p)) => {
            assert_eq!(p.member.as_ref().map(|m| m.name.clone()), Some(Some("discr".to_string())));
            assert_eq!(p.variants.len(), 1);
            assert_eq!(p.variants[0].discr_value, Some(1));
            assert_eq!(p.variants[0].member.name, Some("Some".to_string()));
        },
        other => panic!("expected a variant part, got {:?}", other),
    }
    // A second member, or a variant without exactly one member, cannot be read.
    vp.children.push(member_entry("other", 0, u32_entry()));
    assert_eq!(parse_type_node(&vp), Err(TypeParseError::NotReadable));
    let mut empty_variant = TypeEntry::new(DW_TAG_VARIANT_PART);
    empty_variant.children = vec![TypeEntry::new(DW_TAG_VARIANT)];
    assert_eq!(parse_type_node(&empty_variant), Err(TypeParseError::NotReadable));
}
