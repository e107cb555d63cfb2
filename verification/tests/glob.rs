use pq::glob::{discover_fdset_files, discover_files, discover_genrs_files, discover_proto_files, has_extension};

fn names(xs: &[&str]) -> Vec<Vec<u8>> {
    xs.iter().map(|x| x.as_bytes().to_vec()).collect()
}

#[test]
fn extension_rules() {
    assert!(has_extension(b"dog.fdset", b"fdset"));
    assert!(has_extension(b"a.tar.gz", b"gz"));
    assert!(!has_extension(b"a.tar.gz", b"tar.gz"));
    assert!(!has_extension(b".fdset", b"fdset"));
    assert!(has_extension(b"..fdset", b"fdset"));
    assert!(!has_extension(b"fdset", b"fdset"));
    assert!(has_extension(b"trailing.", b""));
    assert!(!has_extension(b"noext", b""));
}

#[test]
fn discover_by_extension() {
    let listing = names(&["dog.proto", "person.proto", "README", "lib.rs", ".proto", "x.fdset"]);
    assert_eq!(discover_proto_files(&listing), names(&["dog.proto", "person.proto"]));
    assert_eq!(discover_genrs_files(&listing), names(&["lib.rs"]));
    assert_eq!(discover_fdset_files(&listing), names(&["x.fdset"]));
    assert_eq!(discover_files(&listing, b"md"), names(&[]));
}
