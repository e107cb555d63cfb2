use pq::msgdefs::{is_white_space_char, message_def};

#[test]
fn message_impl_line_names_its_type() {
    assert_eq!(
        message_def("dog", "impl ::protobuf::Message for Dog {"),
        Some(String::from("dog::Dog"))
    );
    assert_eq!(
        message_def("person", "    impl ::protobuf::Message for Person {  "),
        Some(String::from("person::Person"))
    );
}

#[test]
fn other_lines_name_nothing() {
    assert_eq!(message_def("dog", "impl ::protobuf::MessageStatic for Dog {"), None);
    assert_eq!(message_def("dog", "impl ::protobuf::Clear for Dog {"), None);
    assert_eq!(message_def("dog", ""), None);
    assert_eq!(message_def("dog", "impl ::protobuf::Message"), None);
}

#[test]
fn words_split_at_any_white_space() {
    assert_eq!(
        message_def("m", "impl ::protobuf::Message for\tA\u{3000}{"),
        Some(String::from("m::A"))
    );
    assert_eq!(
        message_def("m", "impl ::protobuf::Message for Ünïcödé\u{a0}x"),
        Some(String::from("m::Ünïcödé"))
    );
    // the marker alone: the word before the last is its middle word
    assert_eq!(
        message_def("m", "impl ::protobuf::Message for"),
        Some(String::from("m::::protobuf::Message"))
    );
}

#[test]
fn white_space_agrees_with_std() {
    for u in 0u32..0x3100 {
        if let Some(c) = char::from_u32(u) {
            assert_eq!(is_white_space_char(c), c.is_whitespace(), "{:#x}", u);
        }
    }
    for c in ['\u{feff}', '\u{1f600}', '\u{10ffff}', '\u{200b}'] {
        assert_eq!(is_white_space_char(c), c.is_whitespace());
    }
}
