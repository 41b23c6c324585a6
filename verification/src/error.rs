//! What can go wrong in a transfer.

use crate::text::{decimal_digits, push_decimal};
use crate::ErrorCode;
use vstd::prelude::*;
use vstd::slice::slice_to_vec;
use vstd::string::StringSliceAdditionalSpecFns;
use vstd::utf8::encode_utf8;

verus! {

/// A failure of the codec, of the session, or of the machine around them.
/// A variant that stands for a failure outside this library holds that
/// failure's description as text.
#[derive(Debug)]
pub enum Error {
    AddrParse(String),
    FileAlreadyExists,
    FileNotFound,
    InvalidFileName,
    InvalidMode,
    InvalidOpCode,
    InvalidPacketLength,
    Io(String),
    MissingErrorMessage,
    MissingFileName,
    MissingMode,
    Refused(u16, String),
    Timedout,
    Utf8(String),
}

/// Why a file could not be opened.
pub enum OpenFailure {
    /// There is no such file.
    NotFound,
    /// The file is to be created and is there already.
    AlreadyExists,
    /// Anything else, with its description.
    Other(String),
}

/// The failure of a transfer whose file could not be opened: a missing
/// file and a file that is there already have errors of their own, any
/// other cause is an I/O failure with its description.
pub fn open_failure(kind: OpenFailure) -> (e: Error)
    ensures
        kind is NotFound ==> e is FileNotFound,
        kind is AlreadyExists ==> e is FileAlreadyExists,
        kind matches OpenFailure::Other(text) ==> (e matches Error::Io(held) && held@ == text@),
{
    match kind {
        OpenFailure::NotFound => Error::FileNotFound,
        OpenFailure::AlreadyExists => Error::FileAlreadyExists,
        OpenFailure::Other(text) => Error::Io(text),
    }
}

/// The text of the failure that a peer reported: its code and its
/// message.
pub open spec fn refused_text(code: u16, message: Seq<char>) -> Seq<u8> {
    encode_utf8("Refused"@) + seq![40u8] + decimal_digits(code as nat) + seq![44u8, 32u8]
        + encode_utf8(message) + seq![41u8]
}

/// The text of a variant that holds a description: the variant's name and,
/// in round brackets, the description.
pub open spec fn wrapped_text(name: Seq<char>, inner: Seq<char>) -> Seq<u8> {
    encode_utf8(name) + seq![40u8] + encode_utf8(inner) + seq![41u8]
}

fn wrap_text(name: &str, inner: &str) -> (text: Vec<u8>)
    ensures
        text@ == wrapped_text(name@, inner@),
{
    let mut text = slice_to_vec(name.as_bytes());
    text.push(40);
    text.extend_from_slice(inner.as_bytes());
    text.push(41);
    assert(text@ =~= wrapped_text(name@, inner@));
    text
}

impl Error {
    /// The text that tells a peer of this failure: the variant's name,
    /// followed in round brackets by the description where it holds one.
    pub open spec fn spec_text(&self) -> Seq<u8> {
        match self {
            Error::AddrParse(inner) => wrapped_text("AddrParse"@, inner@),
            Error::FileAlreadyExists => encode_utf8("FileAlreadyExists"@),
            Error::FileNotFound => encode_utf8("FileNotFound"@),
            Error::InvalidFileName => encode_utf8("InvalidFileName"@),
            Error::InvalidMode => encode_utf8("InvalidMode"@),
            Error::InvalidOpCode => encode_utf8("InvalidOpCode"@),
            Error::InvalidPacketLength => encode_utf8("InvalidPacketLength"@),
            Error::Io(inner) => wrapped_text("Io"@, inner@),
            Error::MissingErrorMessage => encode_utf8("MissingErrorMessage"@),
            Error::MissingFileName => encode_utf8("MissingFileName"@),
            Error::MissingMode => encode_utf8("MissingMode"@),
            Error::Refused(code, message) => refused_text(*code, message@),
            Error::Timedout => encode_utf8("Timedout"@),
            Error::Utf8(inner) => wrapped_text("Utf8"@, inner@),
        }
    }

    pub fn text(&self) -> (text: Vec<u8>)
        ensures
            text@ == self.spec_text(),
    {
        match self {
            Error::AddrParse(inner) => wrap_text("AddrParse", inner.as_str()),
            Error::FileAlreadyExists => slice_to_vec("FileAlreadyExists".as_bytes()),
            Error::FileNotFound => slice_to_vec("FileNotFound".as_bytes()),
            Error::InvalidFileName => slice_to_vec("InvalidFileName".as_bytes()),
            Error::InvalidMode => slice_to_vec("InvalidMode".as_bytes()),
            Error::InvalidOpCode => slice_to_vec("InvalidOpCode".as_bytes()),
            Error::InvalidPacketLength => slice_to_vec("InvalidPacketLength".as_bytes()),
            Error::Io(inner) => wrap_text("Io", inner.as_str()),
            Error::MissingErrorMessage => slice_to_vec("MissingErrorMessage".as_bytes()),
            Error::MissingFileName => slice_to_vec("MissingFileName".as_bytes()),
            Error::MissingMode => slice_to_vec("MissingMode".as_bytes()),
            Error::Refused(code, message) => {
                let mut text = slice_to_vec("Refused".as_bytes());
                text.push(40);
                push_decimal(&mut text, *code as u64);
                text.push(44);
                text.push(32);
                text.extend_from_slice(message.as_str().as_bytes());
                text.push(41);
                assert(text@ =~= refused_text(*code, message@));
                text
            },
            Error::Timedout => slice_to_vec("Timedout".as_bytes()),
            Error::Utf8(inner) => wrap_text("Utf8", inner.as_str()),
        }
    }

    /// The code under which a peer is told of this failure.
    pub open spec fn spec_error_code(&self) -> ErrorCode {
        match self {
            Error::FileNotFound => ErrorCode::FileNotFound,
            Error::FileAlreadyExists => ErrorCode::FileAlreadyExists,
            Error::InvalidFileName
            | Error::InvalidMode
            | Error::InvalidOpCode
            | Error::InvalidPacketLength
            | Error::MissingErrorMessage
            | Error::MissingFileName
            | Error::MissingMode => ErrorCode::IllegalTftpOp,
            _ => ErrorCode::NotDefined,
        }
    }

    #[verifier::when_used_as_spec(spec_error_code)]
    pub fn error_code(&self) -> (code: ErrorCode)
        ensures
            code == self.spec_error_code(),
    {
        match self {
            Error::FileNotFound => ErrorCode::FileNotFound,
            Error::FileAlreadyExists => ErrorCode::FileAlreadyExists,
            Error::InvalidFileName
            | Error::InvalidMode
            | Error::InvalidOpCode
            | Error::InvalidPacketLength
            | Error::MissingErrorMessage
            | Error::MissingFileName
            | Error::MissingMode => ErrorCode::IllegalTftpOp,
            _ => ErrorCode::NotDefined,
        }
    }
}

} // verus!
