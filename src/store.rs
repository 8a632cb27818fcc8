use vstd::prelude::*;

use crate::decimal::{decimal_digits, parse_decimal, parse_spec, ParseError};

verus! {

/// What came of reading a counter's file from disk.
pub enum FileRead {
    /// The file, or its project directory, does not exist.
    Missing,
    /// The file's whole contents.
    Contents(Vec<u8>),
    /// Any other I/O failure, with its message.
    Failed(String),
}

impl FileRead {
    /// The counter's file as the read found it: `None` when absent.
    pub open spec fn file(self) -> Option<Seq<u8>> {
        match self {
            FileRead::Contents(c) => Some(c@),
            _ => None,
        }
    }
}

/// What came of creating a directory.
pub enum DirCreate {
    Created,
    AlreadyExists,
    /// Any other I/O failure, with its message.
    Failed(String),
}

/// Why a counter could not be read or advanced.
#[derive(Debug, PartialEq, Eq)]
pub enum StoreError {
    /// A filesystem operation failed; the message is the underlying one.
    Io(String),
    /// The counter's file does not hold a decimal `u64`.
    Parse(ParseError),
    /// The counter is at `u64::MAX` and cannot be advanced.
    Overflow,
}

/// What a Consume hands back before its write: the value to return, and the
/// bytes that replace the file's contents.
pub struct Consumed {
    pub value: u64,
    pub contents: Vec<u8>,
}

/// The value of a counter whose file is `file` (`None`: absent, which counts as 0).
pub open spec fn stored_value(file: Option<Seq<u8>>) -> Result<u64, ParseError> {
    match file {
        None => Ok(0),
        Some(c) => parse_spec(c),
    }
}

/// What Peek returns on a counter whose file is `file`.
pub open spec fn peek_spec(file: Option<Seq<u8>>) -> Result<u64, StoreError> {
    match stored_value(file) {
        Ok(v) => Ok(v),
        Err(p) => Err(StoreError::Parse(p)),
    }
}

/// What Consume returns on a counter whose file is `file`.
pub open spec fn consume_spec(file: Option<Seq<u8>>) -> Result<u64, StoreError> {
    match peek_spec(file) {
        Ok(v) => if v == u64::MAX {
            Err(StoreError::Overflow)
        } else {
            Ok(v)
        },
        Err(e) => Err(e),
    }
}

/// The counter's file after a Consume: the next value on success, else untouched.
pub open spec fn after_consume(file: Option<Seq<u8>>) -> Option<Seq<u8>> {
    match consume_spec(file) {
        Ok(v) => Some(decimal_digits(v as nat + 1)),
        Err(_) => file,
    }
}

/// Treats an existing directory as ready; any other failure is an I/O error.
pub fn ensure_dir(outcome: DirCreate) -> (r: Result<(), StoreError>)
    ensures
        match outcome {
            DirCreate::Failed(e) => r == Err::<(), StoreError>(StoreError::Io(e)),
            _ => r is Ok,
        },
{
    match outcome {
        DirCreate::Failed(e) => Err(StoreError::Io(e)),
        _ => Ok(()),
    }
}

/// Peek: the counter's current value, 0 when its file is missing.
pub fn peek_sequence(read: FileRead) -> (r: Result<u64, StoreError>)
    ensures
        match read {
            FileRead::Failed(e) => r == Err::<u64, StoreError>(StoreError::Io(e)),
            _ => r == peek_spec(read.file()),
        },
{
    match read {
        FileRead::Missing => Ok(0),
        FileRead::Contents(c) => match parse_decimal(c.as_slice()) {
            Ok(v) => Ok(v),
            Err(p) => Err(StoreError::Parse(p)),
        },
        FileRead::Failed(e) => Err(StoreError::Io(e)),
    }
}

/// Consume, once the project directory is ready and the file has been read:
/// the value to return and what to write in its place, which is the next value.
pub fn consume_sequence(read: FileRead) -> (r: Result<Consumed, StoreError>)
    ensures
        match read {
            FileRead::Failed(e) => r is Err && r->Err_0 == StoreError::Io(e),
            _ => match consume_spec(read.file()) {
                Ok(v) => r is Ok && r->Ok_0.value == v && r->Ok_0.contents@ == decimal_digits(
                    v as nat + 1,
                ),
                Err(e) => r is Err && r->Err_0 == e,
            },
        },
{
    let cur = peek_sequence(read);
    match cur {
        Ok(v) => {
            if v == u64::MAX {
                Err(StoreError::Overflow)
            } else {
                Ok(Consumed { value: v, contents: crate::decimal::encode_decimal(v + 1) })
            }
        },
        Err(e) => Err(e),
    }
}

/// Consume, after the write: the value read, or the write's failure.
pub fn finish_consume(planned: Consumed, written: Result<(), String>) -> (r: Result<
    u64,
    StoreError,
>)
    ensures
        match written {
            Ok(_) => r == Ok::<u64, StoreError>(planned.value),
            Err(e) => r == Err::<u64, StoreError>(StoreError::Io(e)),
        },
{
    match written {
        Ok(_) => Ok(planned.value),
        Err(e) => Err(StoreError::Io(e)),
    }
}

} // verus!
