use pq::pq_errors::{DecodeError, DiscoveryError, PqrsError, ProtobufErrorKind, WireErrorKind};
use protobuf::error::WireError;
use protobuf::wire_format::WireType;
use protobuf::ProtobufError;

#[test]
fn pq_error_messages() {
    let e: PqrsError = DiscoveryError::NoFiles(String::from("/etc/pq")).into();
    assert_eq!(e.message(), "No valid fdset files in path /etc/pq");
    assert!(e.has_cause());
    assert_eq!(PqrsError::ArgumentError.message(), "Invalid arguments\n");
    assert!(!PqrsError::ArgumentError.has_cause());
    assert_eq!(DiscoveryError::NoMatchingFdProto.message(), "No matching fdproto found");
    assert_eq!(DiscoveryError::NoMatchingFdProto.description(), "No matching fdproto");
    assert_eq!(DiscoveryError::NoHome.description(), "$HOME not defined");
}

fn wire_pairs() -> Vec<(WireError, WireErrorKind)> {
    vec![
        (WireError::UnexpectedEof, WireErrorKind::UnexpectedEof),
        (WireError::UnexpectedWireType(WireType::WireTypeFixed32), WireErrorKind::UnexpectedWireType(5)),
        (WireError::IncorrectTag(7), WireErrorKind::IncorrectTag(7)),
        (WireError::IncompleteMap, WireErrorKind::IncompleteMap),
        (WireError::IncorrectVarint, WireErrorKind::IncorrectVarint),
        (WireError::Utf8Error, WireErrorKind::Utf8Error),
        (WireError::InvalidEnumValue(-3), WireErrorKind::InvalidEnumValue(-3)),
        (WireError::OverRecursionLimit, WireErrorKind::OverRecursionLimit),
        (WireError::TruncatedMessage, WireErrorKind::TruncatedMessage),
        (WireError::Other, WireErrorKind::Other),
    ]
}

#[test]
fn decode_error_text_matches_protobuf() {
    for (w, k) in wire_pairs() {
        let expected = format!("{}", ProtobufError::WireError(w));
        assert_eq!(DecodeError::ProtobufError(ProtobufErrorKind::WireError(k)).message(), expected);
    }
    let not_init = ProtobufError::MessageNotInitialized { message: "Dog" };
    assert_eq!(
        DecodeError::ProtobufError(ProtobufErrorKind::MessageNotInitialized(String::from("Dog"))).message(),
        format!("{}", not_init)
    );
    let io = std::io::Error::new(std::io::ErrorKind::Other, "boom");
    let io_text = io.to_string();
    assert_eq!(
        format!("{}", ProtobufError::IoError(io)),
        DecodeError::ProtobufError(ProtobufErrorKind::IoError(io_text)).message()
    );
    assert_eq!(
        DecodeError::ProtobufError(ProtobufErrorKind::Utf8(String::from("bad utf8"))).message(),
        "bad utf8"
    );
}

#[test]
fn tool_error_shows_the_decode_error() {
    let e = PqrsError::DecodeError(DecodeError::ProtobufError(ProtobufErrorKind::WireError(
        WireErrorKind::UnexpectedEof,
    )));
    assert_eq!(e.message(), "unexpected EOF");
    let io = PqrsError::DecodeError(DecodeError::ProtobufError(ProtobufErrorKind::IoError(String::from("x"))));
    assert_eq!(io.message(), "IO error: x");
    assert!(io.has_cause());
}
