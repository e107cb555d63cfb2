use pq::gen::{format_mergefrom_calls, format_msgdef_imports, protob_file_text, schemata_mod_line};

#[test]
fn msgdef_imports() {
    let defs = vec![String::from("dog::Dog"), String::from("person::Person")];
    assert_eq!(format_msgdef_imports(&defs), "use schemata::dog::Dog;\nuse schemata::person::Person;");
    assert_eq!(format_msgdef_imports(&vec![]), "");
}

#[test]
fn mergefrom_calls() {
    let defs = vec![String::from("dog::Dog")];
    assert_eq!(
        format_mergefrom_calls(&defs),
        "\tmatch Dog::new().merge_from(&mut stream) {\n        Ok(x) => println!(\"{:?}\", x),\n        Err(e) => panic!(e),\n    };"
    );
    let defs = vec![String::from("Plain"), String::from("a:::b"), String::from("x::y::Z")];
    let out = format_mergefrom_calls(&defs);
    let lines: Vec<&str> = out.split('\n').filter(|l| l.starts_with("\tmatch")).collect();
    assert_eq!(lines, vec![
        "\tmatch Plain::new().merge_from(&mut stream) {",
        "\tmatch :b::new().merge_from(&mut stream) {",
        "\tmatch Z::new().merge_from(&mut stream) {",
    ]);
}

#[test]
fn schemata_line_declares_the_module() {
    assert_eq!(schemata_mod_line("dog"), "pub mod dog;\n");
}

#[test]
fn protob_file_wraps_imports_and_calls() {
    let defs = vec![String::from("dog::Dog"), String::from("person::Person")];
    let expected = format!(
        "mod schemata;

use protobuf::Message;
use protobuf::CodedInputStream;

{}

pub fn process_bytes(data: &[u8]) {{
    let mut stream = CodedInputStream::from_bytes(data);

{}
}}
",
        format_msgdef_imports(&defs),
        format_mergefrom_calls(&defs)
    );
    assert_eq!(protob_file_text(&defs), expected);
    assert!(protob_file_text(&defs).contains("use schemata::dog::Dog;\nuse schemata::person::Person;"));
    assert!(protob_file_text(&vec![]).starts_with("mod schemata;\n\nuse protobuf::Message;"));
}
