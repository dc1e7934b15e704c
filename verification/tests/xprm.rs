use game_relay::utils::xprm::{serialize_xprm_or_json, PayloadError};
use game_relay::xprm::ser::{to_string, Error, Serializer};
use game_relay::xprm::value::Value;

fn text(s: &str) -> Value {
    Value::Str(s.to_string())
}

fn float(v: f32) -> Value {
    Value::Float(f64::from(v).to_string())
}

fn fields(list: Vec<(&str, Value)>) -> Vec<(String, Value)> {
    list.into_iter().map(|(k, v)| (k.to_string(), v)).collect()
}

#[test]
fn test_struct() {
    // Struct
    let ts2 = Value::Struct(fields(vec![
        ("int", Value::Unsigned(1)),
        ("flt", float(1.5f32)),
        ("opt", Value::Absent),
    ]));
    // Tuple struct
    let ts3 = Value::TupleStruct(2, vec![Value::Unsigned(1), Value::Unsigned(2)]);
    // Optional with value, around a newtype struct
    let ts4 = Value::Present(Box::new(Value::NewtypeStruct(Box::new(Value::Unsigned(4)))));
    let test = Value::Struct(fields(vec![
        ("ts2", ts2),
        ("ts3", ts3),
        ("ts4", ts4),
        ("nll", Value::Absent),
        ("seq", Value::List(Some(2), vec![text("a"), text("b")])),
        ("sem", Value::List(Some(0), vec![])),
    ]));
    let expected = r#"{ts2={int=1;flt=1.5;opt=0;};ts3={2;1,2};ts4=4;nll=0;seq={2;"a","b"};sem={0;};}"#;
    assert_eq!(to_string(&test).unwrap(), expected);
}

#[test]
fn test_enum() {
    let u = Value::UnitVariant("Unit".to_string());
    let expected = r#"Unit"#;
    assert_eq!(to_string(&u).unwrap(), expected);

    let n = Value::NewtypeVariant("E".to_string());
    assert!(to_string(&n).is_err());

    let t = Value::TupleVariant("E".to_string());
    assert!(to_string(&t).is_err());

    let s = Value::StructVariant("Struct".to_string(), fields(vec![("a", Value::Unsigned(1))]));
    let expected = r#"{Struct={a=1;};}"#;
    assert_eq!(to_string(&s).unwrap(), expected);
}

#[test]
fn test_escape() {
    let s = Value::NewtypeStruct(Box::new(text("Data \" \\ \r\n")));

    let expected = r#""Data \" \\ \r\n""#;
    let result = to_string(&s).unwrap();
    assert_eq!(result, expected);
}

#[test]
fn test_map() {
    let map = Value::Table(vec![
        (text("aaa"), text("value")),
        (text("other"), text("content")),
    ]);

    let expected = r#"{aaa="value";other="content";}"#;
    let result = to_string(&map).unwrap();
    assert_eq!(result, expected);
}

#[test]
fn xprm_plain_values() {
    assert_eq!(to_string(&Value::Bool(true)).unwrap(), "true");
    assert_eq!(to_string(&Value::Bool(false)).unwrap(), "false");
    assert_eq!(to_string(&Value::Signed(-42)).unwrap(), "-42");
    assert_eq!(to_string(&Value::Signed(i64::MIN)).unwrap(), "-9223372036854775808");
    assert_eq!(to_string(&Value::Unsigned(u64::MAX)).unwrap(), "18446744073709551615");
    assert_eq!(to_string(&Value::Char('x')).unwrap(), "\"x\"");
    assert_eq!(to_string(&Value::Unit).unwrap(), "0");
    assert_eq!(to_string(&Value::UnitStruct("U".to_string())).unwrap(), "U=0");
    assert_eq!(to_string(&Value::ByteList(vec![1, 255])).unwrap(), "{2;1,255}");
}

#[test]
fn xprm_tuples_are_sequences() {
    let tuple = Value::Tuple(2, vec![Value::Unsigned(1), Value::Unsigned(2)]);
    assert_eq!(to_string(&tuple).unwrap(), "{2;1,2}");
    let tuple = Value::Tuple(2, vec![text("a"), text("b")]);
    assert_eq!(to_string(&tuple).unwrap(), r#"{2;"a","b"}"#);
}

#[test]
fn xprm_layout_of_nested_lists() {
    let inner = |n: u64| Value::List(Some(1), vec![Value::Unsigned(n)]);
    let list = Value::List(Some(3), vec![inner(1), inner(2), Value::Table(vec![])]);
    assert_eq!(to_string(&list).unwrap(), "{3;{1;1},{1;2},{}}");
}

#[test]
fn xprm_errors() {
    let key = |k: Value| Value::Table(vec![(k, Value::Unit)]);
    assert!(matches!(to_string(&key(Value::Unsigned(1))), Err(Error::KeyNotString)));
    assert!(matches!(to_string(&key(text("a b"))), Err(Error::KeyInvalidChar(' '))));
    assert!(matches!(to_string(&Value::List(None, vec![])), Err(Error::UnknownSeqSize)));
    assert_eq!(to_string(&key(Value::UnitVariant("V".to_string()))).unwrap(), "{V=0;}");
}

#[test]
fn xprm_error_messages() {
    assert_eq!(Error::KeyNotString.message(), "Key must be string");
    assert_eq!(Error::KeyInvalidChar('!').message(), "Key has invalid char: '!'");
    assert_eq!(Error::UnknownSeqSize.message(), "Unknown seq size");
    assert_eq!(
        to_string(&Value::NewtypeVariant("E\"".to_string())).unwrap_err().message(),
        "NewtypeVariant for \"E\\\"\" not supported"
    );
    assert_eq!(
        to_string(&Value::TupleVariant("E".to_string())).unwrap_err().message(),
        "TupleVariant for \"E\" not supported"
    );
}

#[test]
fn xprm_writer_keeps_what_it_wrote() {
    let mut s = Serializer::new();
    let bad = Value::Table(vec![
        (text("a"), Value::Unsigned(1)),
        (Value::Bool(true), Value::Unit),
    ]);
    assert!(s.serialize(&bad).is_err());
    assert_eq!(s.output, "{a=1;");
    assert!(s.key_mode);
}

#[test]
fn xprm_or_json() {
    let v = Value::List(Some(1), vec![text("a")]);
    let json = || Ok("[\"a\"]".to_string());
    assert_eq!(serialize_xprm_or_json(true, &v, json()).unwrap(), "{1;\"a\"}");
    assert_eq!(serialize_xprm_or_json(false, &v, json()).unwrap(), "[\"a\"]");
    let failed = serialize_xprm_or_json(false, &v, Err("no".to_string()));
    assert!(matches!(&failed, Err(PayloadError::SerializeJSON(e)) if e == "no"));
    let e = serialize_xprm_or_json(true, &Value::List(None, vec![]), json()).unwrap_err();
    assert_eq!(e.to_text(), "Unknown seq size");
    assert_eq!(e.status_code(), 500);
}
