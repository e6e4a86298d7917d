//! Error type shared by every operation of the library.

use vstd::prelude::*;

verus! {

/// `std::io::Error`, which the library carries and never looks into.
#[verifier::external_type_specification]
#[verifier::external_body]
pub struct ExIoError(std::io::Error);

/// Everything that can go wrong while acquiring, decoding or writing data.
#[derive(Debug)]
pub enum DecodeckError {
    /// The input was empty, or blank once cleaned up.
    NoInput,
    /// A character outside the Base64 alphabet, with its offset in the padded text.
    InvalidBase64 { message: String, position: usize },
    /// There is no file at the path.
    FileNotFound { path: String },
    /// The file at the path may not be read.
    PermissionDenied { path: String },
    /// The input is larger than the limit allows.
    SizeExceeded { actual: String, limit: String },
    /// A file is already at the output path.
    OutputExists { path: String },
    /// The output path is empty or climbs out of its directory.
    InvalidOutputPath { path: String, reason: String },
    /// The content violates the alphabet, length or UTF-8 rules of its encoding.
    DecodeFailed { message: String },
    /// The system did not do what it was asked to.
    SystemError { message: String },
    /// Reading or writing failed.
    Io(std::io::Error),
}

/// Mathematical value of a [`DecodeckError`].
pub ghost enum Failure {
    NoInput,
    InvalidBase64 { message: Seq<char>, position: nat },
    FileNotFound { path: Seq<char> },
    PermissionDenied { path: Seq<char> },
    SizeExceeded { actual: Seq<char>, limit: Seq<char> },
    OutputExists { path: Seq<char> },
    InvalidOutputPath { path: Seq<char>, reason: Seq<char> },
    DecodeFailed { message: Seq<char> },
    SystemError { message: Seq<char> },
    Io,
}

impl View for DecodeckError {
    type V = Failure;

    open spec fn view(&self) -> Failure {
        match self {
            DecodeckError::NoInput => Failure::NoInput,
            DecodeckError::InvalidBase64 { message, position } => Failure::InvalidBase64 {
                message: message@,
                position: *position as nat,
            },
            DecodeckError::FileNotFound { path } => Failure::FileNotFound { path: path@ },
            DecodeckError::PermissionDenied { path } => Failure::PermissionDenied { path: path@ },
            DecodeckError::SizeExceeded { actual, limit } => Failure::SizeExceeded {
                actual: actual@,
                limit: limit@,
            },
            DecodeckError::OutputExists { path } => Failure::OutputExists { path: path@ },
            DecodeckError::InvalidOutputPath { path, reason } => Failure::InvalidOutputPath {
                path: path@,
                reason: reason@,
            },
            DecodeckError::DecodeFailed { message } => Failure::DecodeFailed { message: message@ },
            DecodeckError::SystemError { message } => Failure::SystemError { message: message@ },
            DecodeckError::Io(_) => Failure::Io,
        }
    }
}

/// The mathematical value of what a decoder returns.
pub open spec fn outcome(r: Result<Vec<u8>, DecodeckError>) -> Result<Seq<u8>, Failure> {
    match r {
        Ok(bytes) => Ok(bytes@),
        Err(e) => Err(e@),
    }
}

/// The mathematical value of what a codec engine returns: the bytes, or the
/// engine's description of what is wrong with the text.
pub open spec fn engine_outcome(r: Result<Vec<u8>, String>) -> Result<Seq<u8>, Seq<char>> {
    match r {
        Ok(bytes) => Ok(bytes@),
        Err(reason) => Err(reason@),
    }
}

/// The library's result for an engine's result: the same bytes, or a
/// `DecodeFailed` whose message is `prefix` followed by the engine's description.
pub open spec fn decode_failure(prefix: Seq<char>, engine: Result<Seq<u8>, Seq<char>>) -> Result<
    Seq<u8>,
    Failure,
> {
    match engine {
        Ok(bytes) => Ok(bytes),
        Err(reason) => Err(Failure::DecodeFailed { message: prefix + reason }),
    }
}

/// Turns an engine's result into the library's.
pub fn decoded_or_failed(prefix: &str, engine: Result<Vec<u8>, String>) -> (r: Result<
    Vec<u8>,
    DecodeckError,
>)
    ensures
        outcome(r) == decode_failure(prefix@, engine_outcome(engine)),
{
    match engine {
        Ok(bytes) => Ok(bytes),
        Err(reason) => {
            let message = String::from_str(prefix).concat(reason.as_str());
            Err(DecodeckError::DecodeFailed { message })
        },
    }
}

} // verus!
