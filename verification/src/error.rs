//! Typed error taxonomy of the library.
//!
//! Every failure is one of four kinds: an I/O failure, an encoding
//! failure, a structurally invalid file, or a rejected precondition.
//! Each error carries a context line naming the operation and the path,
//! and optionally the text of the underlying cause, so callers can show
//! a two-level message/cause report.

use vstd::prelude::*;

verus! {

/// The four failure classes of the library.
#[derive(Clone, Copy, Debug, PartialEq, Eq, Structural)]
pub enum ErrorKind {
    /// A file could not be opened, created or written.
    Io,
    /// A byte sequence is invalid for the declared text encoding.
    Encoding,
    /// File content is structurally invalid, or a value cannot be
    /// re-encoded into the target format.
    Format,
    /// A precondition failed before any I/O was attempted.
    Validation,
}

/// One failure: its kind, a context line, and an optional cause text.
#[derive(Debug, Clone, PartialEq, Eq)]
pub struct Error {
    pub kind: ErrorKind,
    pub context: String,
    pub cause: Option<String>,
}

/// The file operations that error contexts name.
#[derive(Clone, Copy, Debug, PartialEq, Eq, Structural)]
pub enum FileOp {
    OpenCsv,
    LoadCsv,
    ScanCsv,
    OpenParquet,
    LoadParquet,
    ScanParquet,
    CreateCsv,
    CreateParquet,
    OpenFile,
    CreateFile,
    WriteFile,
}

/// The context line for an operation on a path, with the path quoted as
/// a path literal would be shown.
pub open spec fn context_of(op: FileOp, path: Seq<char>) -> Seq<char> {
    match op {
        FileOp::OpenCsv => "could not open CSV file \""@ + path + "\""@,
        FileOp::LoadCsv => "could not load CSV file \""@ + path + "\""@,
        FileOp::ScanCsv => "could not scan CSV file \""@ + path + "\""@,
        FileOp::OpenParquet => "could not open Parquet file \""@ + path + "\""@,
        FileOp::LoadParquet => "could not load Parquet file \""@ + path + "\""@,
        FileOp::ScanParquet => "could not scan Parquet file \""@ + path + "\""@,
        FileOp::CreateCsv => "Could not create CSV file \""@ + path + "\""@,
        FileOp::CreateParquet => "Could not create parquet file \""@ + path + "\""@,
        FileOp::OpenFile => "could not open file \""@ + path + "\""@,
        FileOp::CreateFile => "could not create file \""@ + path + "\""@,
        FileOp::WriteFile => "could not write to file \""@ + path + "\""@,
    }
}

/// Builds the context line for an operation on a path.
pub fn context_text(op: FileOp, path: &str) -> (r: String)
    ensures
        r@ == context_of(op, path@),
{
    let mut s = match op {
        FileOp::OpenCsv => String::from_str("could not open CSV file \""),
        FileOp::LoadCsv => String::from_str("could not load CSV file \""),
        FileOp::ScanCsv => String::from_str("could not scan CSV file \""),
        FileOp::OpenParquet => String::from_str("could not open Parquet file \""),
        FileOp::LoadParquet => String::from_str("could not load Parquet file \""),
        FileOp::ScanParquet => String::from_str("could not scan Parquet file \""),
        FileOp::CreateCsv => String::from_str("Could not create CSV file \""),
        FileOp::CreateParquet => String::from_str("Could not create parquet file \""),
        FileOp::OpenFile => String::from_str("could not open file \""),
        FileOp::CreateFile => String::from_str("could not create file \""),
        FileOp::WriteFile => String::from_str("could not write to file \""),
    };
    s.append(path);
    s.append("\"");
    s
}

impl Error {
    /// An I/O failure of an operation on a path, keeping the text of
    /// the OS-level cause.
    pub fn io(op: FileOp, path: &str, cause: String) -> (r: Error)
        ensures
            r.kind == ErrorKind::Io,
            r.context@ == context_of(op, path@),
            r.cause == Some(cause),
    {
        Error { kind: ErrorKind::Io, context: context_text(op, path), cause: Some(cause) }
    }

    /// A failure of any kind, in the context of an operation on a path.
    pub fn in_context(kind: ErrorKind, op: FileOp, path: &str, cause: String) -> (r: Error)
        ensures
            r.kind == kind,
            r.context@ == context_of(op, path@),
            r.cause == Some(cause),
    {
        Error { kind, context: context_text(op, path), cause: Some(cause) }
    }

    /// A validation failure, raised before any I/O is attempted.
    pub fn validation(message: String) -> (r: Error)
        ensures
            r.kind == ErrorKind::Validation,
            r.context == message,
            r.cause is None,
    {
        Error { kind: ErrorKind::Validation, context: message, cause: None }
    }

    /// The top-level, human-readable message.
    pub fn message(&self) -> (r: String)
        ensures
            r@ == self.context@,
    {
        self.context.clone()
    }

    /// The text of the underlying cause, where one was recorded.
    pub fn source_text(&self) -> (r: Option<String>)
        ensures
            match r {
                Some(c) => self.cause is Some && c@ == self.cause->Some_0@,
                None => self.cause is None,
            },
    {
        match &self.cause {
            Some(c) => Some(c.clone()),
            None => None,
        }
    }
}

} // verus!
