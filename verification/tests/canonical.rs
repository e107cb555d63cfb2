use pq::canonical::{spec_compliance, Value};

fn s(x: &str) -> Value {
    Value::Str(String::from(x))
}

fn dict_entries(v: &Value) -> &Vec<(Value, Value)> {
    match v {
        Value::Dict(es) => es,
        _ => panic!("not a map"),
    }
}

fn str_of(v: &Value) -> &str {
    match v {
        Value::Str(x) => x.as_str(),
        _ => panic!("not a string"),
    }
}

#[test]
fn test_json_spec_compliance_lower_camel_case_keys() {
    let snake_case_key = s("snake_case_key");
    let noncompliant_json = Value::Dict(vec![(snake_case_key, s("val"))]);

    let compliant_json = spec_compliance(noncompliant_json);

    match compliant_json {
        Value::Dict(compliant_map) => {
            assert_eq!(1, compliant_map.len());
            assert_eq!("snakeCaseKey", str_of(&compliant_map[0].0));
            assert_eq!("val", str_of(&compliant_map[0].1));
        }
        _ => assert!(false),
    }
}

fn map_entry(k: Value, v: Value) -> Value {
    Value::Dict(vec![
        (s("key"), Value::Optional(Some(Box::new(k)))),
        (s("value"), v),
    ])
}

#[test]
fn map_entries_become_an_object() {
    let list = Value::List(vec![
        map_entry(s("first_key"), Value::Newtype(Box::new(Value::U32(1)))),
        map_entry(s("second_key"), Value::Dict(vec![(s("inner_field"), Value::Bool(true))])),
    ]);
    let out = spec_compliance(list);
    let es = dict_entries(&out);
    assert_eq!(es.len(), 2);
    // map keys are kept as they are
    assert_eq!(str_of(&es[0].0), "first_key");
    assert!(matches!(es[0].1, Value::U32(1)));
    assert_eq!(str_of(&es[1].0), "second_key");
    // values are brought to the JSON form, nested keys camel-cased
    let inner = dict_entries(&es[1].1);
    assert_eq!(str_of(&inner[0].0), "innerField");
    assert!(matches!(inner[0].1, Value::Bool(true)));
}

#[test]
fn plain_list_and_wrappers() {
    let list = Value::List(vec![
        Value::Optional(Some(Box::new(Value::I64(-5)))),
        Value::Optional(None),
        Value::Newtype(Box::new(s("x"))),
        Value::Bytes(vec![1, 2]),
        Value::F64Bits(0x4000_0000_0000_0000),
    ]);
    match spec_compliance(list) {
        Value::List(out) => {
            assert_eq!(out.len(), 5);
            assert!(matches!(out[0], Value::I64(-5)));
            assert!(matches!(out[1], Value::Optional(None)));
            assert_eq!(str_of(&out[2]), "x");
            assert!(matches!(&out[3], Value::Bytes(b) if b == &vec![1, 2]));
            assert!(matches!(out[4], Value::F64Bits(0x4000_0000_0000_0000)));
        }
        _ => panic!("expected a list"),
    }
}

#[test]
fn dict_with_three_entries_is_not_a_map_entry() {
    let not_entry = Value::Dict(vec![
        (s("key"), Value::Optional(Some(Box::new(s("k"))))),
        (s("value"), Value::U8(1)),
        (s("other"), Value::U8(2)),
    ]);
    match spec_compliance(Value::List(vec![not_entry])) {
        Value::List(out) => assert_eq!(dict_entries(&out[0]).len(), 3),
        _ => panic!("expected a list"),
    }
}

#[test]
fn non_string_keys_are_brought_to_form() {
    let m = Value::Dict(vec![(Value::Newtype(Box::new(Value::U16(7))), s("seven"))]);
    let out = spec_compliance(m);
    let es = dict_entries(&out);
    assert!(matches!(es[0].0, Value::U16(7)));
    assert_eq!(str_of(&es[0].1), "seven");
}
