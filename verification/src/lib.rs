//! A TFTP client and server engine: the packet codec, the option
//! negotiation, the netascii translator and the per-session state machine,
//! each with the contract it is verified against.

pub mod buffer;
pub mod client;
pub mod error;
pub mod file;
pub mod flow;
pub mod options;
pub mod packet;
pub mod server;
pub mod session;
pub mod text;
pub mod transfer;

use vstd::prelude::*;

verus! {

/// Bytes in front of the payload of a DATA packet: opcode and block number.
pub const HEADER_LEN: usize = 4;

/// The block number that follows 65535.
pub const ROLLOVER: u16 = 0;

/// The kind of a packet, as its first two bytes name it.
#[derive(Clone, Copy, Debug, PartialEq, Eq, Structural)]
pub enum OpCode {
    Rrq,
    Wrq,
    Data,
    Ack,
    Error,
    Oack,
}

impl OpCode {
    /// The number that stands for this kind on the wire.
    pub open spec fn spec_code(self) -> u16 {
        match self {
            OpCode::Rrq => 1,
            OpCode::Wrq => 2,
            OpCode::Data => 3,
            OpCode::Ack => 4,
            OpCode::Error => 5,
            OpCode::Oack => 6,
        }
    }

    /// The kind that a number stands for, if it stands for one.
    pub open spec fn spec_from_code(code: u16) -> Option<OpCode> {
        if code == 1 {
            Some(OpCode::Rrq)
        } else if code == 2 {
            Some(OpCode::Wrq)
        } else if code == 3 {
            Some(OpCode::Data)
        } else if code == 4 {
            Some(OpCode::Ack)
        } else if code == 5 {
            Some(OpCode::Error)
        } else if code == 6 {
            Some(OpCode::Oack)
        } else {
            None
        }
    }

    #[verifier::when_used_as_spec(spec_code)]
    pub fn code(self) -> (code: u16)
        ensures
            code == self.spec_code(),
    {
        match self {
            OpCode::Rrq => 1,
            OpCode::Wrq => 2,
            OpCode::Data => 3,
            OpCode::Ack => 4,
            OpCode::Error => 5,
            OpCode::Oack => 6,
        }
    }

    pub fn from_code(code: u16) -> (op: Option<OpCode>)
        ensures
            op == OpCode::spec_from_code(code),
    {
        match code {
            1 => Some(OpCode::Rrq),
            2 => Some(OpCode::Wrq),
            3 => Some(OpCode::Data),
            4 => Some(OpCode::Ack),
            5 => Some(OpCode::Error),
            6 => Some(OpCode::Oack),
            _ => None,
        }
    }
}

/// The error codes that an ERROR packet can carry.
#[derive(Clone, Copy, Debug, PartialEq, Eq, Structural)]
pub enum ErrorCode {
    NotDefined,
    FileNotFound,
    AccessViolation,
    DiskFull,
    IllegalTftpOp,
    UnknownTId,
    FileAlreadyExists,
    NoSuchUser,
    OptionNotSupport,
}

impl ErrorCode {
    /// The number that stands for this code on the wire.
    pub open spec fn spec_code(self) -> u16 {
        match self {
            ErrorCode::NotDefined => 0,
            ErrorCode::FileNotFound => 1,
            ErrorCode::AccessViolation => 2,
            ErrorCode::DiskFull => 3,
            ErrorCode::IllegalTftpOp => 4,
            ErrorCode::UnknownTId => 5,
            ErrorCode::FileAlreadyExists => 6,
            ErrorCode::NoSuchUser => 7,
            ErrorCode::OptionNotSupport => 8,
        }
    }

    #[verifier::when_used_as_spec(spec_code)]
    pub fn code(self) -> (code: u16)
        ensures
            code == self.spec_code(),
    {
        match self {
            ErrorCode::NotDefined => 0,
            ErrorCode::FileNotFound => 1,
            ErrorCode::AccessViolation => 2,
            ErrorCode::DiskFull => 3,
            ErrorCode::IllegalTftpOp => 4,
            ErrorCode::UnknownTId => 5,
            ErrorCode::FileAlreadyExists => 6,
            ErrorCode::NoSuchUser => 7,
            ErrorCode::OptionNotSupport => 8,
        }
    }
}

} // verus!
