use risp::value::{
    EncodedValue, RawValue, Value, ValueDecodeError, ValueEncodeError, ValueType, SIGN_BIT,
    TYPE_MASK, VALUE_BITS, VALUE_MASK,
};

fn encode(raw: RawValue) -> Result<u64, ValueEncodeError> {
    EncodedValue::encode(&raw).map(|encoded| encoded.encoded_value())
}

fn decode(word: u64) -> Result<RawValue, ValueDecodeError> {
    EncodedValue::from_word(word).decode()
}

#[test]
fn the_masks_split_the_word() {
    assert_eq!(VALUE_BITS, 53);
    assert_eq!(VALUE_MASK, (1 << 53) - 1);
    assert_eq!(TYPE_MASK, !VALUE_MASK);
    assert_eq!(SIGN_BIT, 1 << 52);
}

#[test]
fn small_integers_encode_as_themselves() {
    assert_eq!(encode(RawValue::Integer(0)), Ok(0));
    assert_eq!(encode(RawValue::Integer(97)), Ok(97));
    assert_eq!(encode(RawValue::Integer((1 << 52) - 1)), Ok((1 << 52) - 1));
}

#[test]
fn negative_integers_encode_with_the_sign_bit() {
    assert_eq!(encode(RawValue::Integer(-5)), Ok((1 << 52) | 5));
    assert_eq!(encode(RawValue::Integer(-((1 << 52) - 1))), Ok((1 << 52) | ((1 << 52) - 1)));
}

#[test]
fn integer_encode_boundaries() {
    assert!(encode(RawValue::Integer((1 << 52) - 1)).is_ok());
    assert_eq!(encode(RawValue::Integer(1 << 52)), Err(ValueEncodeError::Overflow));
    assert_eq!(encode(RawValue::Integer(1 << 53)), Err(ValueEncodeError::Overflow));
    assert_eq!(encode(RawValue::Integer(-(1 << 52))), Err(ValueEncodeError::Overflow));
    assert_eq!(encode(RawValue::Integer(i64::MIN)), Err(ValueEncodeError::Overflow));
    assert_eq!(encode(RawValue::Integer(i64::MAX)), Err(ValueEncodeError::Overflow));
}

#[test]
fn booleans_and_strings_carry_their_tag() {
    assert_eq!(encode(RawValue::Boolean(false)), Ok(2 << 53));
    assert_eq!(encode(RawValue::Boolean(true)), Ok((2 << 53) | 1));
    assert_eq!(encode(RawValue::String(0x7f00_1234_5678)), Ok((1 << 53) | 0x7f00_1234_5678));
    assert_eq!(encode(RawValue::String(1 << 53)), Err(ValueEncodeError::Overflow));
}

#[test]
fn decode_reads_tag_and_payload() {
    assert_eq!(decode(97), Ok(RawValue::Integer(97)));
    assert_eq!(decode((1 << 52) | 5), Ok(RawValue::Integer(-5)));
    assert_eq!(decode(1 << 52), Ok(RawValue::Integer(0)));
    assert_eq!(decode((1 << 53) | 0x1000), Ok(RawValue::String(0x1000)));
    assert_eq!(decode(2 << 53), Ok(RawValue::Boolean(false)));
    assert_eq!(decode((2 << 53) | 1), Ok(RawValue::Boolean(true)));
}

#[test]
fn decode_errors() {
    assert_eq!(decode((2 << 53) | 2), Err(ValueDecodeError::InvalidBoolean(2)));
    assert_eq!(decode(3 << 53), Err(ValueDecodeError::UnknownType(3)));
    assert_eq!(decode(u64::MAX), Err(ValueDecodeError::UnknownType(0x7FF)));
}

#[test]
fn encode_then_decode_gives_the_value_back() {
    let values = [
        RawValue::Integer(0),
        RawValue::Integer(1),
        RawValue::Integer(-1),
        RawValue::Integer(4503599627370495),
        RawValue::Integer(-4503599627370495),
        RawValue::Boolean(true),
        RawValue::Boolean(false),
        RawValue::String(0),
        RawValue::String((1 << 53) - 1),
    ];
    for value in values {
        let word = encode(value).unwrap();
        assert_eq!(decode(word), Ok(value));
    }
}

#[test]
fn type_codes() {
    assert_eq!(ValueType::Integer.code(), 0);
    assert_eq!(ValueType::String.code(), 1);
    assert_eq!(ValueType::Boolean.code(), 2);
    assert_eq!(ValueType::from_code(0), Ok(ValueType::Integer));
    assert_eq!(ValueType::from_code(1), Ok(ValueType::String));
    assert_eq!(ValueType::from_code(2), Ok(ValueType::Boolean));
    assert_eq!(ValueType::from_code(7), Err(ValueDecodeError::UnknownType(7)));
}

#[test]
fn values_and_raw_values() {
    assert_eq!(Value::Integer(7).to_raw(99), RawValue::Integer(7));
    assert_eq!(Value::Boolean(true).to_raw(99), RawValue::Boolean(true));
    assert_eq!(Value::String("abc".to_string()).to_raw(99), RawValue::String(99));
    assert_eq!(Value::String("abc".to_string()).value_type(), ValueType::String);
    assert_eq!(RawValue::String(99).value_type(), ValueType::String);
    assert_eq!(RawValue::Integer(7).into_value(String::new()), Value::Integer(7));
    assert_eq!(
        RawValue::String(99).into_value("abc".to_string()),
        Value::String("abc".to_string())
    );
    assert_eq!(Value::String("abc".to_string()).clone(), Value::String("abc".to_string()));
}
