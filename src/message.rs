//! The messages exchanged with the peer, as plain values.
use vstd::prelude::*;

verus! {

/// The remote operation that a request asks for.
#[derive(Clone, Copy, Debug, PartialEq, Eq, Structural)]
pub enum Operation {
    Stat,
    Read,
    Write,
    Readdir,
}

/// The name under which an operation travels on the link.
pub open spec fn operation_name(op: Operation) -> Seq<char> {
    match op {
        Operation::Stat => "stat"@,
        Operation::Read => "read"@,
        Operation::Write => "write"@,
        Operation::Readdir => "readdir"@,
    }
}

impl Operation {
    pub fn name(&self) -> (r: &'static str)
        ensures
            r@ == operation_name(*self),
    {
        match self {
            Operation::Stat => "stat",
            Operation::Read => "read",
            Operation::Write => "write",
            Operation::Readdir => "readdir",
        }
    }
}

/// What a filesystem call asks of the peer, before it is given an id.
#[derive(Debug)]
pub struct Call {
    pub operation: Operation,
    pub path: String,
    pub data: Option<Vec<u8>>,
    pub offset: Option<u64>,
    pub size: Option<u64>,
}

/// A call as it is sent: the call and the id that its reply will carry.
#[derive(Debug)]
pub struct Request {
    pub id: u64,
    pub operation: Operation,
    pub path: String,
    pub data: Option<Vec<u8>>,
    pub offset: Option<u64>,
    pub size: Option<u64>,
}

/// Attributes of a remote entry as the peer reports them.
#[derive(Clone, Copy, Debug, PartialEq, Eq, Structural)]
pub struct Stat {
    pub size: u64,
    pub is_file: bool,
    pub is_dir: bool,
    /// Modification time, in milliseconds since the epoch.
    pub mtime: u64,
}

/// A reply of the peer. Absent fields of the wire form hold their defaults:
/// empty data, zero bytes written, no files, no error.
#[derive(Debug)]
pub struct Response {
    pub id: u64,
    pub data: Vec<u8>,
    pub bytes_written: u64,
    pub files: Vec<String>,
    pub stat: Option<Stat>,
    pub success: bool,
    pub error: String,
}

/// Why a call to the peer failed.
#[derive(Debug)]
pub enum CallError {
    /// The link could not be written, or closed before the reply came.
    Connection,
    /// No reply with the call's id came in time.
    Timeout,
    /// The peer replied with a non-empty error.
    Application(String),
}

} // verus!
