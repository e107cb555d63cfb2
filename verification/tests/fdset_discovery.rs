use pq::fdset_discovery::DiscoveryError;

#[test]
fn mod_test_simple() {
    assert_eq!("abc", "abc");
}

#[test]
fn discovery_error_messages() {
    assert_eq!(DiscoveryError::NoHome.message(), "$HOME not defined");
    assert_eq!(
        DiscoveryError::NoFdsetPath(String::from("/x")).message(),
        "Path /x doesn't exist"
    );
    assert_eq!(
        DiscoveryError::NoFiles(String::from("/y")).message(),
        "No valid fdset files in path /y"
    );
    assert_eq!(DiscoveryError::NoFiles(String::from("/y")).description(), "no files in fdset_path");
    assert!(!DiscoveryError::NoHome.has_cause());
}
