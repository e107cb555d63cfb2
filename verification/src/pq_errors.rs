use vstd::prelude::*;

verus! {

/// Why no fdset file could be found or used.
#[derive(Debug)]
pub enum DiscoveryError {
    /// The home directory is not known.
    NoHome,
    /// The fdset directory does not exist.
    NoFdsetPath(String),
    /// The fdset directory holds no valid fdset file.
    NoFiles(String),
    /// No loaded file descriptor matches.
    NoMatchingFdProto,
}

impl DiscoveryError {
    /// A short description of the error kind.
    pub fn description(&self) -> (r: &'static str)
        ensures
            r@ == (match self {
                DiscoveryError::NoHome => "$HOME not defined"@,
                DiscoveryError::NoMatchingFdProto => "No matching fdproto"@,
                DiscoveryError::NoFdsetPath(_) => "fdset_path doesn't exist"@,
                DiscoveryError::NoFiles(_) => "no files in fdset_path"@,
            }),
    {
        match self {
            DiscoveryError::NoHome => "$HOME not defined",
            DiscoveryError::NoMatchingFdProto => "No matching fdproto",
            DiscoveryError::NoFdsetPath(_) => "fdset_path doesn't exist",
            DiscoveryError::NoFiles(_) => "no files in fdset_path",
        }
    }

    /// The full human-readable message of the error.
    pub fn message(&self) -> (r: String)
        ensures
            r@ == (match self {
                DiscoveryError::NoHome => "$HOME not defined"@,
                DiscoveryError::NoMatchingFdProto => "No matching fdproto found"@,
                DiscoveryError::NoFdsetPath(p) => "Path "@ + p@ + " doesn't exist"@,
                DiscoveryError::NoFiles(p) => "No valid fdset files in path "@ + p@,
            }),
    {
        match self {
            DiscoveryError::NoHome => String::from_str("$HOME not defined"),
            DiscoveryError::NoMatchingFdProto => String::from_str("No matching fdproto found"),
            DiscoveryError::NoFdsetPath(p) => {
                let mut s = String::from_str("Path ");
                s.append(p.as_str());
                s.append(" doesn't exist");
                s
            },
            DiscoveryError::NoFiles(p) => {
                let mut s = String::from_str("No valid fdset files in path ");
                s.append(p.as_str());
                s
            },
        }
    }

    /// Whether another error lies beneath this one; none ever does.
    pub fn has_cause(&self) -> (r: bool)
        ensures
            !r,
    {
        false
    }
}

/// How the protobuf wire format was broken.
#[derive(Debug, Clone, PartialEq, Eq, Structural)]
pub enum WireErrorKind {
    /// The input ended inside a message.
    UnexpectedEof,
    /// A field came with the wrong wire type (its number).
    UnexpectedWireType(u32),
    /// A tag value was not valid.
    IncorrectTag(u32),
    /// A map field was malformed.
    IncompleteMap,
    /// A varint was malformed.
    IncorrectVarint,
    /// A string was not valid UTF-8.
    Utf8Error,
    /// An enum value was not known.
    InvalidEnumValue(i32),
    /// Messages were nested too deeply.
    OverRecursionLimit,
    /// The input ended inside a length-delimited message.
    TruncatedMessage,
    /// Any other wire error.
    Other,
}

/// What a protobuf error is, with the texts of its parts that come from
/// outside protobuf.
#[derive(Debug)]
pub enum ProtobufErrorKind {
    /// Reading or writing failed; the text is the I/O error's own.
    IoError(String),
    /// The input broke the wire format.
    WireError(WireErrorKind),
    /// A string was not valid UTF-8; the text is the UTF-8 error's own.
    Utf8(String),
    /// Not all required fields were set (in the named message).
    MessageNotInitialized(String),
}

/// protobuf's text for a wire error.
pub open spec fn wire_error_text(k: WireErrorKind) -> Seq<char> {
    match k {
        WireErrorKind::Utf8Error => "invalid UTF-8 sequence"@,
        WireErrorKind::UnexpectedWireType(_) => "unexpected wire type"@,
        WireErrorKind::InvalidEnumValue(_) => "invalid enum value"@,
        WireErrorKind::IncorrectTag(_) => "incorrect tag"@,
        WireErrorKind::IncorrectVarint => "incorrect varint"@,
        WireErrorKind::IncompleteMap => "incomplete map"@,
        WireErrorKind::UnexpectedEof => "unexpected EOF"@,
        WireErrorKind::OverRecursionLimit => "over recursion limit"@,
        WireErrorKind::TruncatedMessage => "truncated message"@,
        WireErrorKind::Other => "other error"@,
    }
}

/// protobuf's text for an error of the kind `k`.
pub open spec fn protobuf_error_text(k: ProtobufErrorKind) -> Seq<char> {
    match k {
        ProtobufErrorKind::IoError(t) => "IO error: "@ + t@,
        ProtobufErrorKind::WireError(w) => wire_error_text(w),
        ProtobufErrorKind::Utf8(t) => t@,
        ProtobufErrorKind::MessageNotInitialized(_) => "not all message fields set"@,
    }
}

/// protobuf's text for a wire error.
fn wire_error_message(k: &WireErrorKind) -> (r: &'static str)
    ensures
        r@ == wire_error_text(*k),
{
    match k {
        WireErrorKind::Utf8Error => "invalid UTF-8 sequence",
        WireErrorKind::UnexpectedWireType(_) => "unexpected wire type",
        WireErrorKind::InvalidEnumValue(_) => "invalid enum value",
        WireErrorKind::IncorrectTag(_) => "incorrect tag",
        WireErrorKind::IncorrectVarint => "incorrect varint",
        WireErrorKind::IncompleteMap => "incomplete map",
        WireErrorKind::UnexpectedEof => "unexpected EOF",
        WireErrorKind::OverRecursionLimit => "over recursion limit",
        WireErrorKind::TruncatedMessage => "truncated message",
        WireErrorKind::Other => "other error",
    }
}

/// A failure to decode a message.
#[derive(Debug)]
pub enum DecodeError {
    /// The protobuf layer rejected the input.
    ProtobufError(ProtobufErrorKind),
}

/// The text of a decode error: protobuf's text for its error.
pub open spec fn decode_error_text(e: DecodeError) -> Seq<char> {
    match e {
        DecodeError::ProtobufError(k) => protobuf_error_text(k),
    }
}

impl DecodeError {
    /// The message of the underlying protobuf error, as protobuf displays it.
    pub fn message(&self) -> (r: String)
        ensures
            r@ == decode_error_text(*self),
    {
        match self {
            DecodeError::ProtobufError(k) => match k {
                ProtobufErrorKind::IoError(t) => {
                    let mut r = String::from_str("IO error: ");
                    r.append(t.as_str());
                    r
                },
                ProtobufErrorKind::WireError(w) => String::from_str(wire_error_message(w)),
                ProtobufErrorKind::Utf8(t) => t.clone(),
                ProtobufErrorKind::MessageNotInitialized(_) => String::from_str("not all message fields set"),
            },
        }
    }
}

/// The errors of the tool.
#[derive(Debug)]
pub enum PqrsError {
    /// No usable fdset files.
    FdsetDiscoveryError(DiscoveryError),
    /// A message could not be decoded.
    DecodeError(DecodeError),
    /// The arguments do not make sense together.
    ArgumentError,
    /// The leading length of a message could not be read.
    NoLeadingVarintError,
    /// No way of decoding the input was found.
    CouldNotDecodeError(String),
}

impl PqrsError {
    /// The full human-readable message of the error.
    pub fn message(&self) -> (r: String)
        ensures
            self matches PqrsError::ArgumentError ==> r@ == "Invalid arguments\n"@,
            self matches PqrsError::NoLeadingVarintError ==> r@ == "Couldn't decode leading varint"@,
            self matches PqrsError::CouldNotDecodeError(m) ==> r@ == m@,
            self matches PqrsError::DecodeError(d) ==> r@ == decode_error_text(*d),
            self matches PqrsError::FdsetDiscoveryError(e) ==> r@ == (match e {
                DiscoveryError::NoHome => "$HOME not defined"@,
                DiscoveryError::NoMatchingFdProto => "No matching fdproto found"@,
                DiscoveryError::NoFdsetPath(p) => "Path "@ + p@ + " doesn't exist"@,
                DiscoveryError::NoFiles(p) => "No valid fdset files in path "@ + p@,
            }),
    {
        match self {
            PqrsError::ArgumentError => String::from_str("Invalid arguments\n"),
            PqrsError::NoLeadingVarintError => String::from_str("Couldn't decode leading varint"),
            PqrsError::FdsetDiscoveryError(e) => e.message(),
            PqrsError::DecodeError(e) => e.message(),
            PqrsError::CouldNotDecodeError(m) => m.clone(),
        }
    }

    /// Whether another error lies beneath this one: the discovery or decode
    /// error it wraps.
    pub fn has_cause(&self) -> (r: bool)
        ensures
            r == (self is FdsetDiscoveryError || self is DecodeError),
    {
        match self {
            PqrsError::FdsetDiscoveryError(_) => true,
            PqrsError::DecodeError(_) => true,
            _ => false,
        }
    }
}

impl From<DiscoveryError> for PqrsError {
    fn from(err: DiscoveryError) -> (r: PqrsError) {
        PqrsError::FdsetDiscoveryError(err)
    }
}

impl vstd::std_specs::convert::FromSpecImpl<DiscoveryError> for PqrsError {
    open spec fn obeys_from_spec() -> bool {
        true
    }

    open spec fn from_spec(err: DiscoveryError) -> PqrsError {
        PqrsError::FdsetDiscoveryError(err)
    }
}

impl From<DecodeError> for PqrsError {
    fn from(err: DecodeError) -> (r: PqrsError) {
        PqrsError::DecodeError(err)
    }
}

impl vstd::std_specs::convert::FromSpecImpl<DecodeError> for PqrsError {
    open spec fn obeys_from_spec() -> bool {
        true
    }

    open spec fn from_spec(err: DecodeError) -> PqrsError {
        PqrsError::DecodeError(err)
    }
}

} // verus!
