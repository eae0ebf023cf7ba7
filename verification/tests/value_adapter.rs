use serde_kdl::{Datum, DecodeError, Expected, Kind, Value};

fn round_trip(value: Value) {
    let encoded = value.encode();
    assert_eq!(Value::decode(&encoded), Ok(value.clone()));
    assert_eq!(Value::decode(&encoded.positional()), Ok(value.clone()));
    assert_eq!(Value::decode(&encoded.keyed()), Ok(value));
}

fn mismatch(found: Kind) -> Result<Value, DecodeError> {
    Err(DecodeError::TypeMismatch { found, expected: Expected::Value })
}

#[test]
fn null_encodes_to_unit() {
    assert_eq!(Value::Null.encode(), Datum::Unit);
}

#[test]
fn boolean_encodes_to_boolean() {
    assert_eq!(Value::Boolean(true).encode(), Datum::Boolean(true));
    assert_eq!(Value::Boolean(false).encode(), Datum::Boolean(false));
}

#[test]
fn int_encodes_to_signed_64_bit() {
    assert_eq!(Value::Int(-7).encode(), Datum::I64(-7));
    assert_eq!(Value::Int(i64::MAX).encode(), Datum::I64(i64::MAX));
}

#[test]
fn float_encodes_to_its_bits() {
    assert_eq!(Value::Float(1.5f64.to_bits()).encode(), Datum::F64(0x3FF8_0000_0000_0000));
}

#[test]
fn string_encodes_to_string() {
    assert_eq!(
        Value::String("hello world".to_string()).encode(),
        Datum::Str("hello world".to_string())
    );
}

#[test]
fn null_round_trips() {
    round_trip(Value::Null);
}

#[test]
fn booleans_round_trip() {
    round_trip(Value::Boolean(true));
    round_trip(Value::Boolean(false));
}

#[test]
fn ints_round_trip_at_the_bounds() {
    round_trip(Value::Int(i64::MIN));
    round_trip(Value::Int(-1));
    round_trip(Value::Int(0));
    round_trip(Value::Int(1));
    round_trip(Value::Int(i64::MAX));
}

#[test]
fn floats_round_trip_bit_for_bit() {
    round_trip(Value::Float(0.0f64.to_bits()));
    round_trip(Value::Float((-0.0f64).to_bits()));
    round_trip(Value::Float(f64::NAN.to_bits()));
    round_trip(Value::Float(f64::INFINITY.to_bits()));
    round_trip(Value::Float(f64::NEG_INFINITY.to_bits()));
    round_trip(Value::Float(f64::MIN_POSITIVE.to_bits()));
    round_trip(Value::Float(3.25f64.to_bits()));
}

#[test]
fn the_two_zeros_stay_apart() {
    let plus = Value::decode(&Value::Float(0.0f64.to_bits()).encode());
    let minus = Value::decode(&Value::Float((-0.0f64).to_bits()).encode());
    assert_ne!(plus, minus);
}

#[test]
fn a_nan_keeps_its_payload() {
    let bits: u64 = 0x7FF8_0000_0000_1234;
    assert!(f64::from_bits(bits).is_nan());
    assert_eq!(Value::decode(&Value::Float(bits).encode()), Ok(Value::Float(bits)));
}

#[test]
fn strings_round_trip() {
    round_trip(Value::String(String::new()));
    round_trip(Value::String("plain".to_string()));
    round_trip(Value::String("smørrebrød 🥪 \n\t\"quoted\"".to_string()));
}

#[test]
fn unsigned_32_bit_widens_without_overflow() {
    assert_eq!(Value::decode(&Datum::U32(4294967295)), Ok(Value::Int(4294967295)));
    assert_eq!(Value::decode(&Datum::U32(0)), Ok(Value::Int(0)));
    assert_eq!(Value::decode(&Datum::U32(2147483648)), Ok(Value::Int(2147483648)));
}

#[test]
fn boolean_decodes_to_boolean() {
    assert_eq!(Value::decode(&Datum::Boolean(true)), Ok(Value::Boolean(true)));
}

#[test]
fn signed_64_bit_decodes_to_int() {
    assert_eq!(Value::decode(&Datum::I64(i64::MIN)), Ok(Value::Int(i64::MIN)));
}

#[test]
fn float_bits_decode_to_float() {
    assert_eq!(Value::decode(&Datum::F64(42)), Ok(Value::Float(42)));
}

#[test]
fn string_decodes_to_string() {
    assert_eq!(Value::decode(&Datum::Str("a".to_string())), Ok(Value::String("a".to_string())));
}

#[test]
fn unit_decodes_to_null() {
    assert_eq!(Value::decode(&Datum::Unit), Ok(Value::Null));
}

#[test]
fn absent_optional_decodes_to_null() {
    assert_eq!(Value::decode(&Datum::Absent), Ok(Value::Null));
}

#[test]
fn present_optional_decodes_to_what_it_holds() {
    let held = Datum::Present(Box::new(Datum::I64(5)));
    assert_eq!(Value::decode(&held), Ok(Value::Int(5)));
    let twice = Datum::Present(Box::new(Datum::Present(Box::new(Datum::Str("x".to_string())))));
    assert_eq!(Value::decode(&twice), Ok(Value::String("x".to_string())));
    let nothing = Datum::Present(Box::new(Datum::Absent));
    assert_eq!(Value::decode(&nothing), Ok(Value::Null));
}

#[test]
fn present_optional_passes_the_inner_mismatch_on() {
    let held = Datum::Present(Box::new(Datum::U8(1)));
    assert_eq!(Value::decode(&held), mismatch(Kind::U8));
}

#[test]
fn small_integers_are_a_type_mismatch() {
    assert_eq!(Value::decode(&Datum::I8(1)), mismatch(Kind::I8));
    assert_eq!(Value::decode(&Datum::I16(1)), mismatch(Kind::I16));
    assert_eq!(Value::decode(&Datum::U8(1)), mismatch(Kind::U8));
    assert_eq!(Value::decode(&Datum::U16(1)), mismatch(Kind::U16));
}

#[test]
fn other_integers_are_a_type_mismatch() {
    assert_eq!(Value::decode(&Datum::I32(1)), mismatch(Kind::I32));
    assert_eq!(Value::decode(&Datum::U64(1)), mismatch(Kind::U64));
}

#[test]
fn bytes_are_a_type_mismatch() {
    assert_eq!(Value::decode(&Datum::Bytes(vec![1, 2, 3])), mismatch(Kind::Bytes));
}

#[test]
fn a_sequence_is_no_scalar() {
    assert_eq!(Value::decode(&Datum::Sequence(vec![Datum::I64(1)])), mismatch(Kind::Sequence));
}

#[test]
fn a_mapping_is_no_scalar() {
    assert_eq!(Value::decode(&Datum::Mapping(vec![])), mismatch(Kind::Mapping));
}

#[test]
fn a_record_is_no_scalar() {
    let record = Datum::Record { name: "Node", fields: vec![] };
    assert_eq!(Value::decode(&record), mismatch(Kind::Record));
}

#[test]
fn a_cloned_value_is_equal() {
    let value = Value::String("copy".to_string());
    assert_eq!(value.clone(), value);
    assert_eq!(Value::Float(7).clone(), Value::Float(7));
}

#[test]
fn values_are_the_same_by_variant_and_content() {
    assert!(Value::Null.same_as(&Value::Null));
    assert!(Value::Int(3).same_as(&Value::Int(3)));
    assert!(!Value::Int(3).same_as(&Value::Int(4)));
    assert!(!Value::Int(0).same_as(&Value::Float(0)));
    assert!(!Value::Null.same_as(&Value::Boolean(false)));
    assert!(Value::String("a".to_string()).same_as(&Value::String("a".to_string())));
    assert!(!Value::String("a".to_string()).same_as(&Value::String("b".to_string())));
    assert!(Value::Float(f64::NAN.to_bits()).same_as(&Value::Float(f64::NAN.to_bits())));
}
