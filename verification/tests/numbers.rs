use purp_value::number::NumberValue;

#[test]
fn width_queries_on_small_signed() {
    let n = NumberValue::Signed(100);
    assert_eq!(n.get_i8(), Some(100));
    assert_eq!(n.get_u8(), Some(100));
    assert_eq!(n.get_i64(), Some(100));
    assert_eq!(n.get_u128(), Some(100));
}

#[test]
fn width_queries_on_negative() {
    let n = NumberValue::Signed(-1);
    assert_eq!(n.get_i8(), Some(-1));
    assert_eq!(n.get_u8(), None);
    assert_eq!(n.get_u64(), None);
    assert_eq!(n.get_u128(), None);
    assert_eq!(n.get_i128(), Some(-1));
}

#[test]
fn narrowing_never_wraps() {
    let n = NumberValue::Signed(300);
    assert_eq!(n.get_i8(), None);
    assert_eq!(n.get_u8(), None);
    assert_eq!(n.get_i16(), Some(300));
}

#[test]
fn boundary_values() {
    assert_eq!(NumberValue::Signed(127).get_i8(), Some(127));
    assert_eq!(NumberValue::Signed(128).get_i8(), None);
    assert_eq!(NumberValue::Signed(-128).get_i8(), Some(-128));
    assert_eq!(NumberValue::Signed(-129).get_i8(), None);
    assert_eq!(NumberValue::Signed(255).get_u8(), Some(255));
    assert_eq!(NumberValue::Signed(256).get_u8(), None);
}

#[test]
fn unsigned_storage() {
    let n = NumberValue::Unsigned(u128::MAX);
    assert_eq!(n.get_u128(), Some(u128::MAX));
    assert_eq!(n.get_i128(), None);
    assert_eq!(n.get_u64(), None);
    let m = NumberValue::Unsigned(42);
    assert_eq!(m.get_i8(), Some(42));
    assert_eq!(m.get_u8(), Some(42));
}
