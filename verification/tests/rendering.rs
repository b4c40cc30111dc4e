use purp_value::number::NumberValue;
use purp_value::render::{ToJsonTrait, ToXmlTrait, ToYamlTrait};
use purp_value::value::Value;

fn sample_object() -> Value {
    Value::Object(vec![
        (String::from("a"), Value::Number(NumberValue::Signed(1))),
        (String::from("b"), Value::Array(vec![Value::Boolean(true), Value::Null])),
    ])
}

#[test]
fn json_scalars() {
    assert_eq!(Value::Null.to_json(), "null");
    assert_eq!(Value::Boolean(true).to_json(), "true");
    assert_eq!(Value::Boolean(false).to_json(), "false");
    assert_eq!(Value::Number(NumberValue::Signed(-42)).to_json(), "-42");
    assert_eq!(Value::Number(NumberValue::Signed(0)).to_json(), "0");
    assert_eq!(
        Value::Number(NumberValue::Unsigned(u128::MAX)).to_json(),
        "340282366920938463463374607431768211455"
    );
}

#[test]
fn json_string_escaping() {
    let v = Value::String(String::from("a\"b\\c\nd"));
    assert_eq!(v.to_json(), "\"a\\\"b\\\\c\\nd\"");
    let control = Value::String(String::from("\u{1}"));
    assert_eq!(control.to_json(), "\"\\u0001\"");
}

#[test]
fn json_containers() {
    let v = Value::Array(vec![
        Value::Number(NumberValue::Signed(1)),
        Value::Boolean(true),
        Value::Null,
    ]);
    assert_eq!(v.to_json(), "[1,true,null]");
    assert_eq!(sample_object().to_json(), "{\"a\":1,\"b\":[true,null]}");
    assert_eq!(Value::Array(vec![]).to_json(), "[]");
    assert_eq!(Value::Object(vec![]).to_json(), "{}");
}

#[test]
fn yaml_rendering() {
    assert_eq!(Value::Null.to_yaml(), "~");
    assert_eq!(Value::Number(NumberValue::Signed(-7)).to_yaml(), "-7");
    let v = Value::Array(vec![
        Value::Number(NumberValue::Signed(1)),
        Value::Number(NumberValue::Signed(2)),
    ]);
    assert_eq!(v.to_yaml(), "[1, 2]");
    assert_eq!(sample_object().to_yaml(), "{\"a\": 1, \"b\": [true, ~]}");
}

#[test]
fn xml_rendering() {
    assert_eq!(Value::Null.to_xml(), "<null/>");
    assert_eq!(Value::Boolean(true).to_xml(), "<bool>true</bool>");
    assert_eq!(Value::Number(NumberValue::Signed(7)).to_xml(), "<number>7</number>");
    assert_eq!(
        Value::String(String::from("a&b<c>")).to_xml(),
        "<string>a&amp;b&lt;c&gt;</string>"
    );
    assert_eq!(
        sample_object().to_xml(),
        "<object><entry key=\"a\"><number>1</number></entry><entry key=\"b\"><array><bool>true</bool><null/></array></entry></object>"
    );
}

#[test]
fn rendering_is_deterministic() {
    let v = sample_object();
    assert_eq!(v.to_json(), v.to_json());
    assert_eq!(v.to_yaml(), v.to_yaml());
    assert_eq!(v.to_xml(), v.to_xml());
}
