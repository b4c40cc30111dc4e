use purp_value::convert::{FromValueTrait, ToValueTrait};
use purp_value::number::NumberValue;
use purp_value::value::Value;
use vstd::hash_map::StringHashMap;

#[test]
fn round_trip_i8() {
    let x: i8 = -5;
    assert_eq!(i8::from_value(x.to_value()), Some(-5));
    let y: i8 = i8::MIN;
    assert_eq!(i8::from_value(y.to_value()), Some(i8::MIN));
}

#[test]
fn round_trip_i16() {
    let x: i16 = -30000;
    assert_eq!(i16::from_value(x.to_value()), Some(-30000));
}

#[test]
fn round_trip_i32() {
    let x: i32 = 123456789;
    assert_eq!(i32::from_value(x.to_value()), Some(123456789));
}

#[test]
fn round_trip_i64() {
    let x: i64 = i64::MIN;
    assert_eq!(i64::from_value(x.to_value()), Some(i64::MIN));
}

#[test]
fn round_trip_i128() {
    let x: i128 = i128::MIN;
    assert_eq!(i128::from_value(x.to_value()), Some(i128::MIN));
    let y: i128 = i128::MAX;
    assert_eq!(i128::from_value(y.to_value()), Some(i128::MAX));
}

#[test]
fn round_trip_u8() {
    let x: u8 = 200;
    assert_eq!(u8::from_value(x.to_value()), Some(200));
}

#[test]
fn round_trip_u16() {
    let x: u16 = 65535;
    assert_eq!(u16::from_value(x.to_value()), Some(65535));
}

#[test]
fn round_trip_u32() {
    let x: u32 = u32::MAX;
    assert_eq!(u32::from_value(x.to_value()), Some(u32::MAX));
}

#[test]
fn round_trip_u64() {
    let x: u64 = u64::MAX;
    assert_eq!(u64::from_value(x.to_value()), Some(u64::MAX));
}

#[test]
fn round_trip_u128() {
    let x: u128 = u128::MAX;
    assert_eq!(u128::from_value(x.to_value()), Some(u128::MAX));
}

#[test]
fn round_trip_bool() {
    assert_eq!(bool::from_value(true.to_value()), Some(true));
    assert_eq!(bool::from_value(false.to_value()), Some(false));
}

#[test]
fn round_trip_string() {
    let x = String::from("hello");
    assert_eq!(String::from_value(x.to_value()), Some(String::from("hello")));
}

#[test]
fn narrowing_rejected_i8() {
    let v = Value::Number(NumberValue::Signed(300));
    assert_eq!(i8::from_value(v), None);
}

#[test]
fn negative_rejected_u8() {
    let v = Value::Number(NumberValue::Signed(-1));
    assert_eq!(u8::from_value(v), None);
}

#[test]
fn cross_width_queries() {
    // One stored number serves every width query without pre-declared intent.
    let v: u64 = 200;
    let value = v.to_value();
    assert_eq!(i8::from_value(value), None);
    let value = v.to_value();
    assert_eq!(u8::from_value(value), Some(200));
    let value = v.to_value();
    assert_eq!(i64::from_value(value), Some(200));
}

#[test]
fn variant_mismatch_i32() {
    let v = Value::String(String::from("5"));
    assert_eq!(i32::from_value(v), None);
}

#[test]
fn variant_mismatch_string_and_bool() {
    assert_eq!(String::from_value(Value::Number(NumberValue::Signed(5))), None);
    assert_eq!(bool::from_value(Value::Null), None);
}

#[test]
fn sequence_converts() {
    let v = Value::Array(vec![
        Value::Number(NumberValue::Signed(1)),
        Value::Number(NumberValue::Signed(2)),
    ]);
    assert_eq!(<Vec<i32>>::from_value(v), Some(vec![1, 2]));
}

#[test]
fn sequence_failure_propagates() {
    let v = Value::Array(vec![
        Value::Number(NumberValue::Signed(1)),
        Value::String(String::from("x")),
    ]);
    assert_eq!(<Vec<i32>>::from_value(v), None);
}

#[test]
fn sequence_round_trip() {
    let xs: Vec<i32> = vec![3, -4, 5];
    assert_eq!(<Vec<i32>>::from_value(xs.to_value()), Some(vec![3, -4, 5]));
}

#[test]
fn nested_sequence_round_trip() {
    let xs: Vec<Vec<u8>> = vec![vec![1, 2], vec![], vec![3]];
    assert_eq!(
        <Vec<Vec<u8>>>::from_value(xs.to_value()),
        Some(vec![vec![1, 2], vec![], vec![3]])
    );
}

#[test]
fn mapping_converts() {
    let v = Value::Object(vec![(String::from("a"), Value::Boolean(true))]);
    let m = <StringHashMap<bool>>::from_value(v).unwrap();
    assert_eq!(m.len(), 1);
    assert_eq!(m.get("a"), Some(&true));
}

#[test]
fn mapping_failure_propagates() {
    let v = Value::Object(vec![
        (String::from("a"), Value::Boolean(true)),
        (String::from("b"), Value::Null),
    ]);
    assert!(<StringHashMap<bool>>::from_value(v).is_none());
}

#[test]
fn mapping_not_an_object() {
    assert!(<StringHashMap<bool>>::from_value(Value::Null).is_none());
}

#[test]
fn optional_null_is_absent() {
    assert_eq!(<Option<i32>>::from_value(Value::Null), Some(None));
}

#[test]
fn optional_present_converts() {
    let v = Value::Number(NumberValue::Signed(7));
    assert_eq!(<Option<i32>>::from_value(v), Some(Some(7)));
}

#[test]
fn optional_failed_payload_is_absent() {
    // A present value that does not convert is swallowed into an absent
    // payload; the outer result is still present.
    let v = Value::String(String::from("x"));
    assert_eq!(<Option<i32>>::from_value(v), Some(None));
}

#[test]
fn optional_to_value() {
    assert!(matches!(None::<i32>.to_value(), Value::Null));
    assert_eq!(<Option<i32>>::from_value(Some(9i32).to_value()), Some(Some(9)));
}
