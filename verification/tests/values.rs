use rust_debug::rust_debug::evaluate::base::{
    from_le_bytes, new_eval_base_type, parse_base_type, to_le_bytes, BaseTypeInfo,
};
use rust_debug::rust_debug::evaluate::value::{
    convert_from_gimli_value, convert_to_gimli_value, BaseValue, GimliValue,
};

#[test]
fn gimli_values_convert_back() {
    let values = vec![
        BaseValue::Generic(7),
        BaseValue::U8(200),
        BaseValue::I16(-3),
        BaseValue::U32(0xdead_beef),
        BaseValue::I64(-1),
        BaseValue::F32(0x3f80_0000),
    ];
    for v in values {
        assert_eq!(convert_from_gimli_value(convert_to_gimli_value(v)), v);
    }
}

#[test]
fn booleans_and_addresses_travel_as_generic_values() {
    assert_eq!(convert_to_gimli_value(BaseValue::Bool(true)), GimliValue::Generic(1));
    assert_eq!(convert_to_gimli_value(BaseValue::Address32(0x2000_0000)), GimliValue::Generic(0x2000_0000));
}

#[test]
fn little_endian_bytes_read_back() {
    for (x, n) in [(0x1234u64, 2usize), (0xab, 1), (0xdead_beef, 4), (0x0102_0304_0506_0708, 8)] {
        let bytes = to_le_bytes(x, n);
        assert_eq!(bytes.len(), n);
        assert_eq!(from_le_bytes(&bytes), x);
    }
    assert_eq!(to_le_bytes(0x0102_0304, 4), vec![4, 3, 2, 1]);
}

#[test]
fn base_values_from_bytes() {
    assert_eq!(new_eval_base_type(vec![0xfe, 0xff], 5), BaseValue::I16(-2));
    assert_eq!(new_eval_base_type(vec![1], 2), BaseValue::Bool(true));
    assert_eq!(new_eval_base_type(vec![0, 0, 0, 0x20], 1), BaseValue::Address32(0x2000_0000));
    assert_eq!(new_eval_base_type(vec![0x78, 0x56, 0x34, 0x12], 7), BaseValue::U32(0x1234_5678));
}

#[test]
fn words_without_a_base_type_are_generic() {
    assert_eq!(parse_base_type(&[5, 1], None), BaseValue::Generic(0x1_0000_0005));
    assert_eq!(
        parse_base_type(&[0xffff_ffff], Some(BaseTypeInfo { encoding: 5, byte_size: 4 })),
        BaseValue::I32(-1)
    );
}
