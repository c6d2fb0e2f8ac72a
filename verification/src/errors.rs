use vstd::prelude::*;

verus! {

/// Why a value could not be written in the wire format.
#[derive(Debug, Clone, PartialEq, Eq, Structural)]
pub enum EncodeError {
    InvalidData,
    TooManyElements { allowed: usize, actual: usize },
}

/// Why bytes could not be read back as a value of the wire format.
#[derive(Debug, Clone)]
pub enum DecodeError {
    InvalidEnumVariant { variant_value: String, enum_name: &'static str },
    InvalidData,
    /// The bytes of a string are not UTF-8.
    InvalidUtf8,
    /// The input ended before the value did.
    UnexpectedEof,
}

/// What a [`DecodeError`] says, as a mathematical value.
pub enum DecodeFault {
    InvalidEnumVariant { variant_value: Seq<char>, enum_name: Seq<char> },
    InvalidData,
    InvalidUtf8,
    UnexpectedEof,
}

impl DecodeError {
    pub open spec fn fault(&self) -> DecodeFault {
        match self {
            DecodeError::InvalidEnumVariant { variant_value, enum_name } =>
                DecodeFault::InvalidEnumVariant { variant_value: variant_value@, enum_name: enum_name@ },
            DecodeError::InvalidData => DecodeFault::InvalidData,
            DecodeError::InvalidUtf8 => DecodeFault::InvalidUtf8,
            DecodeError::UnexpectedEof => DecodeFault::UnexpectedEof,
        }
    }
}

/// A base64 text that does not hold the expected value.
#[derive(Debug, Clone, PartialEq, Eq, Structural)]
pub enum Base64Error {
    /// The text is not base64 of the expected alphabet and padding.
    InvalidBase64,
    InvalidLength { expected: usize, actual: usize },
}

} // verus!

verus! {

/// Why a request to another node failed.
#[derive(Debug)]
pub enum ClientError {
    MissingPayload,
    UnexpectedResponseCode { status: crate::server::protocol::AkarekoStatus },
    EncodeError(EncodeError),
    DecodeError(DecodeError),
    InvalidSignature,
}

} // verus!

verus! {

/// Why the server refused to serve a request.
#[derive(Debug, Clone, Copy, PartialEq, Eq, Structural)]
pub enum ServerError {
    /// The command is one of a relay, and this node is not one.
    RelayNotEnabled,
}

} // verus!
