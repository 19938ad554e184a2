use vstd::prelude::*;
use vstd::string::StringExecFns;
use crate::text::{decimal, push_decimal};

verus! {

/// `std::io::Error`, carried through `ErrorKind::Io` without being looked into.
#[verifier::external_type_specification]
#[verifier::external_body]
pub struct ExIoError(std::io::Error);

/// `std::str::Utf8Error`, carried through `ErrorKind::Utf8` without being looked into.
#[verifier::external_type_specification]
#[verifier::external_body]
pub struct ExUtf8Error(std::str::Utf8Error);

/// A line of text and the number of the line it comes from.
#[derive(Clone, Debug, Default, Eq, Hash, Ord, PartialEq, PartialOrd)]
pub struct ErrorLine {
    /// The line number where the error occurred.
    pub number: usize,
    /// The full line holding the error.
    pub line: String,
}

impl ErrorLine {
    /// Creates an `ErrorLine` from a line number and the line's text.
    pub fn new(number: usize, line: &str) -> (r: ErrorLine)
        ensures
            r.number == number,
            r.line@ == line@,
    {
        ErrorLine { number, line: line.to_owned() }
    }
}

/// The errors that may occur when reading a pacman config.
#[derive(Debug)]
pub enum ErrorKind {
    /// A directive outside any section; holds the key.
    NoSection(String),
    /// A directive that needs a value came without one; holds the section and key.
    MissingValue(String, String),
    /// A directive came with an invalid value; holds the section, key and value.
    InvalidValue(String, String, String),
    /// A directive came with an unknown key; holds the section and key.
    UnknownKey(String, String),
    /// Running pacman-conf failed; holds what it wrote to standard error.
    Runtime(String),
    /// Text was not valid UTF-8.
    Utf8(std::str::Utf8Error),
    /// An I/O error.
    Io(std::io::Error),
}

/// The message of an error kind that carries only text.
pub open spec fn kind_message(kind: ErrorKind) -> Seq<char> {
    match kind {
        ErrorKind::NoSection(k) => "Key '"@ + k@ + "' must appear in a section"@,
        ErrorKind::MissingValue(s, k) => "Key '"@ + k@ + "' in section '"@ + s@
            + "' requires a value"@,
        ErrorKind::InvalidValue(s, k, v) => "Invalid value for '"@ + k@ + "' in section '"@
            + s@ + "': '"@ + v@ + "'"@,
        ErrorKind::Runtime(s) => "Failed to execute pacman-conf: "@ + s@,
        ErrorKind::UnknownKey(s, k) => "Unknown key: '"@ + s@ + "' in section '"@ + k@
            + "'"@,
        _ => Seq::empty(),
    }
}

/// Whether the kind wraps an error of the standard library.
pub open spec fn is_std_kind(kind: ErrorKind) -> bool {
    kind is Utf8 || kind is Io
}

impl ErrorKind {
    /// A human-readable description of the error.
    pub fn message(&self) -> (r: String)
        ensures
            !is_std_kind(*self) ==> r@ == kind_message(*self),
    {
        match self {
            ErrorKind::NoSection(k) => {
                let mut r = "Key '".to_owned();
                r.append(k.as_str());
                r.append("' must appear in a section");
                r
            },
            ErrorKind::MissingValue(s, k) => {
                let mut r = "Key '".to_owned();
                r.append(k.as_str());
                r.append("' in section '");
                r.append(s.as_str());
                r.append("' requires a value");
                r
            },
            ErrorKind::InvalidValue(s, k, v) => {
                let mut r = "Invalid value for '".to_owned();
                r.append(k.as_str());
                r.append("' in section '");
                r.append(s.as_str());
                r.append("': '");
                r.append(v.as_str());
                r.append("'");
                r
            },
            ErrorKind::Runtime(s) => {
                let mut r = "Failed to execute pacman-conf: ".to_owned();
                r.append(s.as_str());
                r
            },
            ErrorKind::UnknownKey(s, k) => {
                let mut r = "Unknown key: '".to_owned();
                r.append(s.as_str());
                r.append("' in section '");
                r.append(k.as_str());
                r.append("'");
                r
            },
            ErrorKind::Io(err) => err.to_string(),
            ErrorKind::Utf8(err) => err.to_string(),
        }
    }
}

impl From<std::io::Error> for ErrorKind {
    fn from(e: std::io::Error) -> (r: ErrorKind) {
        ErrorKind::Io(e)
    }
}

impl vstd::std_specs::convert::FromSpecImpl<std::io::Error> for ErrorKind {
    open spec fn obeys_from_spec() -> bool {
        true
    }

    open spec fn from_spec(e: std::io::Error) -> ErrorKind {
        ErrorKind::Io(e)
    }
}

impl From<std::str::Utf8Error> for ErrorKind {
    fn from(e: std::str::Utf8Error) -> (r: ErrorKind) {
        ErrorKind::Utf8(e)
    }
}

impl vstd::std_specs::convert::FromSpecImpl<std::str::Utf8Error> for ErrorKind {
    open spec fn obeys_from_spec() -> bool {
        true
    }

    open spec fn from_spec(e: std::str::Utf8Error) -> ErrorKind {
        ErrorKind::Utf8(e)
    }
}

/// The error type for reading a pacman config.
#[derive(Debug)]
pub struct Error {
    /// The kind of error.
    pub kind: ErrorKind,
    /// The line where the error occurred, if it came from a line.
    pub line: Option<ErrorLine>,
}

impl Error {
    /// A human-readable description of the error, led by the line number and followed by
    /// the line's text where the error came from a line.
    pub fn message(&self) -> (r: String)
        ensures
            match self.line {
                Some(l) => exists|m: Seq<char>|
                    {
                        &&& r@ == #[trigger] ("Line "@ + decimal(l.number as nat) + ": "@ + m
                            + ": "@ + l.line@)
                        &&& !is_std_kind(self.kind) ==> m == kind_message(self.kind)
                    },
                None => !is_std_kind(self.kind) ==> r@ == kind_message(self.kind),
            },
    {
        match &self.line {
            Some(l) => {
                let mut r = "Line ".to_owned();
                push_decimal(&mut r, l.number);
                r.append(": ");
                let m = self.kind.message();
                r.append(m.as_str());
                r.append(": ");
                r.append(l.line.as_str());
                assert(r@ == "Line "@ + decimal(l.number as nat) + ": "@ + m@ + ": "@ + l.line@);
                r
            },
            None => self.kind.message(),
        }
    }
}

impl From<ErrorKind> for Error {
    fn from(kind: ErrorKind) -> (r: Error) {
        Error { kind, line: None }
    }
}

impl vstd::std_specs::convert::FromSpecImpl<ErrorKind> for Error {
    open spec fn obeys_from_spec() -> bool {
        true
    }

    open spec fn from_spec(kind: ErrorKind) -> Error {
        Error { kind, line: None }
    }
}

impl From<std::io::Error> for Error {
    fn from(e: std::io::Error) -> (r: Error) {
        Error { kind: ErrorKind::Io(e), line: None }
    }
}

impl vstd::std_specs::convert::FromSpecImpl<std::io::Error> for Error {
    open spec fn obeys_from_spec() -> bool {
        true
    }

    open spec fn from_spec(e: std::io::Error) -> Error {
        Error { kind: ErrorKind::Io(e), line: None }
    }
}

impl From<std::str::Utf8Error> for Error {
    fn from(e: std::str::Utf8Error) -> (r: Error) {
        Error { kind: ErrorKind::Utf8(e), line: None }
    }
}

impl vstd::std_specs::convert::FromSpecImpl<std::str::Utf8Error> for Error {
    open spec fn obeys_from_spec() -> bool {
        true
    }

    open spec fn from_spec(e: std::str::Utf8Error) -> Error {
        Error { kind: ErrorKind::Utf8(e), line: None }
    }
}

} // verus!
