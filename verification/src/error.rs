//! Errors of pty operations.
use vstd::prelude::*;

use crate::text::{concat, hexadecimal, push_hexadecimal};

verus! {

/// The kinds of input and output errors.
#[derive(Debug, Clone, Copy, PartialEq, Eq, Structural)]
pub enum IoErrorKind {
    NotFound,
    PermissionDenied,
    ConnectionRefused,
    ConnectionReset,
    ConnectionAborted,
    NotConnected,
    AddrInUse,
    AddrNotAvailable,
    BrokenPipe,
    AlreadyExists,
    WouldBlock,
    InvalidInput,
    InvalidData,
    TimedOut,
    WriteZero,
    Interrupted,
    Unsupported,
    UnexpectedEof,
    OutOfMemory,
    /// Everything else.
    Other,
}

/// An input or output error, as plain values.
#[derive(Debug)]
pub struct IoError {
    /// The kind of the error.
    pub kind: IoErrorKind,
    /// The error number of the operating system, where the error came from it.
    pub raw_os_error: Option<i32>,
    /// The text of the error.
    pub message: String,
}

/// What an [`IoError`] holds.
pub struct IoErrorView {
    pub kind: IoErrorKind,
    pub raw_os_error: Option<i32>,
    pub message: Seq<char>,
}

impl View for IoError {
    type V = IoErrorView;

    open spec fn view(&self) -> IoErrorView {
        IoErrorView {
            kind: self.kind,
            raw_os_error: self.raw_os_error,
            message: self.message@,
        }
    }
}

/// Error type for pty operations.
#[derive(Debug)]
pub enum Error {
    /// An I/O error from the operating system.
    Io(IoError),
    /// Writer has already been taken from this master pty.
    WriterAlreadyTaken,
    /// Command was not found in PATH.
    CommandNotFound(String),
    /// Command exists but is not executable.
    NotExecutable(String),
    /// The specified path is a directory, not an executable.
    IsDirectory(String),
    /// Failed to resolve the executable path.
    PathResolution(String),
    /// Argument is not valid UTF-8.
    InvalidUtf8,
    /// A Windows HRESULT error.
    Hresult(i32),
    /// Other error with a descriptive message.
    Other(String),
}

/// What an [`Error`] holds.
pub enum ErrorView {
    Io(IoErrorView),
    WriterAlreadyTaken,
    CommandNotFound(Seq<char>),
    NotExecutable(Seq<char>),
    IsDirectory(Seq<char>),
    PathResolution(Seq<char>),
    InvalidUtf8,
    Hresult(i32),
    Other(Seq<char>),
}

impl View for Error {
    type V = ErrorView;

    open spec fn view(&self) -> ErrorView {
        match self {
            Error::Io(error) => ErrorView::Io(error@),
            Error::WriterAlreadyTaken => ErrorView::WriterAlreadyTaken,
            Error::CommandNotFound(text) => ErrorView::CommandNotFound(text@),
            Error::NotExecutable(text) => ErrorView::NotExecutable(text@),
            Error::IsDirectory(text) => ErrorView::IsDirectory(text@),
            Error::PathResolution(text) => ErrorView::PathResolution(text@),
            Error::InvalidUtf8 => ErrorView::InvalidUtf8,
            Error::Hresult(code) => ErrorView::Hresult(*code),
            Error::Other(text) => ErrorView::Other(text@),
        }
    }
}

/// The bits of a 32-bit integer, read as an unsigned number.
pub open spec fn bits_of(code: i32) -> nat {
    if code < 0 {
        (code + 0x1_0000_0000) as nat
    } else {
        code as nat
    }
}

/// The text of an error.
pub open spec fn error_text(error: ErrorView) -> Seq<char> {
    match error {
        ErrorView::Io(error) => error.message,
        ErrorView::WriterAlreadyTaken => "writer already taken"@,
        ErrorView::CommandNotFound(text) => "command not found: "@ + text,
        ErrorView::NotExecutable(text) => "not executable: "@ + text,
        ErrorView::IsDirectory(text) => "path is a directory: "@ + text,
        ErrorView::PathResolution(text) => text,
        ErrorView::InvalidUtf8 => "argument is not valid UTF-8"@,
        ErrorView::Hresult(code) => "windows error: HRESULT 0x"@ + hexadecimal(bits_of(code), 8),
        ErrorView::Other(text) => text,
    }
}

impl IoError {
    /// A copy of the error.
    pub fn duplicate(&self) -> (r: IoError)
        ensures
            r@ == self@,
    {
        IoError {
            kind: self.kind,
            raw_os_error: self.raw_os_error,
            message: self.message.clone(),
        }
    }
}

impl Error {
    /// Creates an [`Error::Other`] from a message.
    pub fn other(msg: &str) -> (r: Self)
        ensures
            r@ == ErrorView::Other(msg@),
    {
        Error::Other(msg.to_owned())
    }

    /// The text of the error.
    pub fn message(&self) -> (r: String)
        ensures
            r@ == error_text(self@),
    {
        match self {
            Error::Io(error) => error.message.clone(),
            Error::WriterAlreadyTaken => "writer already taken".to_owned(),
            Error::CommandNotFound(text) => concat("command not found: ", text.as_str()),
            Error::NotExecutable(text) => concat("not executable: ", text.as_str()),
            Error::IsDirectory(text) => concat("path is a directory: ", text.as_str()),
            Error::PathResolution(text) => text.clone(),
            Error::InvalidUtf8 => "argument is not valid UTF-8".to_owned(),
            Error::Hresult(code) => {
                let mut out = "windows error: HRESULT 0x".to_owned();
                let wide = *code as i64;
                let bits: u64 = if wide < 0 {
                    (wide + 0x1_0000_0000) as u64
                } else {
                    wide as u64
                };
                push_hexadecimal(&mut out, bits, 8);
                out
            },
            Error::Other(text) => text.clone(),
        }
    }
}

} // verus!
