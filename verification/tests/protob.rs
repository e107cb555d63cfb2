use pq::canonical::Value;
use pq::protob::{qualified_message_type, select_guess};
use pq::commands::{message_type_path, use_pretty_json};

fn obj(n: usize, with_unit: bool) -> Option<Value> {
    let mut es = Vec::new();
    for i in 0..n {
        es.push((Value::U32(i as u32), Value::Bool(true)));
    }
    if with_unit {
        es.push((Value::U32(99), Value::Unit));
    }
    Some(Value::Dict(es))
}

#[test]
fn message_type_names() {
    assert_eq!(qualified_message_type("com.example.dog.Dog"), ".com.example.dog.Dog");
    assert_eq!(qualified_message_type(".com.example.dog.Dog"), ".com.example.dog.Dog");
    assert_eq!(message_type_path("com.example.dog.Dog"), ".com.example.dog.Dog");
    assert!(use_pretty_json(true, false));
    assert!(use_pretty_json(false, true));
    assert!(!use_pretty_json(false, false));
}

#[test]
fn guess_picks_largest_clean_object() {
    let attempts = vec![obj(2, false), None, obj(5, true), obj(3, false), Some(Value::U8(1)), obj(3, false), obj(1, false)];
    assert_eq!(select_guess(&attempts), Some(5));
    assert_eq!(select_guess(&vec![None, obj(4, true)]), None);
    assert_eq!(select_guess(&vec![]), None);
}
