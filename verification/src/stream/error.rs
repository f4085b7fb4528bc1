//! What can go wrong while a frame is read or written.

use vstd::prelude::*;
use vstd::std_specs::cmp::PartialEqSpecImpl;
use vstd::std_specs::convert::FromSpecImpl;
use vstd::string::to_string_from_display_ensures;

verus! {

/// `std::io::Error`, the error of a channel. Nothing is known of what it holds.
#[verifier::external_type_specification]
#[verifier::external_body]
pub struct ExIoError(std::io::Error);

/// `std::string::FromUtf8Error`, which `String::from_utf8` hands back for
/// bytes that are no UTF-8 text. Nothing is known of what it holds.
#[verifier::external_type_specification]
#[verifier::external_body]
pub struct ExFromUtf8Error(std::string::FromUtf8Error);

/// `std::num::ParseIntError`, which `str::parse` hands back for a text that
/// is no number. Nothing is known of what it holds.
#[verifier::external_type_specification]
#[verifier::external_body]
pub struct ExParseIntError(std::num::ParseIntError);

/// The kinds of failure.
#[derive(Debug)]
pub enum ErrorKind {
    /// The length field went on and on without its closing delimiter.
    BufferDoesntContainDelimiter,
    /// What followed the lead delimiter was not the begin boundary.
    BeginningDoesntMatch,
    /// The frame did not open with the delimiter.
    DelimiterDoesntMatch,
    /// The channel was at its end where a frame would have begun: no
    /// failure, there is no further message.
    BufferEmpty,
    /// The length field was no UTF-8 text.
    NotUTF8(std::string::FromUtf8Error),
    /// The channel failed, or closed in the middle of a frame.
    IOError(std::io::Error),
    /// The length field was no number.
    IntParseError(std::num::ParseIntError),
}

impl ErrorKind {
    /// The kind's place among the kinds, whatever the value wraps.
    pub open spec fn ordinal(&self) -> nat {
        match self {
            ErrorKind::IntParseError(_) => 0,
            ErrorKind::IOError(_) => 1,
            ErrorKind::NotUTF8(_) => 2,
            ErrorKind::BufferDoesntContainDelimiter => 3,
            ErrorKind::BeginningDoesntMatch => 4,
            ErrorKind::DelimiterDoesntMatch => 5,
            ErrorKind::BufferEmpty => 6,
        }
    }

    fn rank(&self) -> (rank: u8)
        ensures
            rank == self.ordinal(),
    {
        match self {
            ErrorKind::IntParseError(_) => 0,
            ErrorKind::IOError(_) => 1,
            ErrorKind::NotUTF8(_) => 2,
            ErrorKind::BufferDoesntContainDelimiter => 3,
            ErrorKind::BeginningDoesntMatch => 4,
            ErrorKind::DelimiterDoesntMatch => 5,
            ErrorKind::BufferEmpty => 6,
        }
    }
}

/// Two kinds are equal when they are the same kind: what they wrap is not
/// compared.
impl PartialEq for ErrorKind {
    fn eq(&self, other: &Self) -> (equal: bool) {
        let me = self.rank();
        let them = other.rank();
        me == them
    }
}

impl PartialEqSpecImpl for ErrorKind {
    open spec fn obeys_eq_spec() -> bool {
        true
    }

    open spec fn eq_spec(&self, other: &Self) -> bool {
        self.ordinal() == other.ordinal()
    }
}

/// A failure of the codec.
#[derive(Debug)]
pub struct Error {
    internal: ErrorKind,
}

impl View for Error {
    type V = ErrorKind;

    closed spec fn view(&self) -> ErrorKind {
        self.internal
    }
}

impl PartialEq for Error {
    fn eq(&self, other: &Self) -> (equal: bool) {
        self.internal == other.internal
    }
}

impl PartialEqSpecImpl for Error {
    open spec fn obeys_eq_spec() -> bool {
        true
    }

    open spec fn eq_spec(&self, other: &Self) -> bool {
        self@.ordinal() == other@.ordinal()
    }
}

impl From<ErrorKind> for Error {
    fn from(kind: ErrorKind) -> (error: Error)
        ensures
            error@ == kind,
    {
        Error { internal: kind }
    }
}

impl FromSpecImpl<ErrorKind> for Error {
    open spec fn obeys_from_spec() -> bool {
        true
    }

    closed spec fn from_spec(kind: ErrorKind) -> Error {
        Error { internal: kind }
    }
}

impl From<std::io::Error> for Error {
    fn from(err: std::io::Error) -> (error: Error)
        ensures
            error@ == ErrorKind::IOError(err),
    {
        Error::from(ErrorKind::IOError(err))
    }
}

impl FromSpecImpl<std::io::Error> for Error {
    open spec fn obeys_from_spec() -> bool {
        true
    }

    closed spec fn from_spec(err: std::io::Error) -> Error {
        Error { internal: ErrorKind::IOError(err) }
    }
}

impl From<std::num::ParseIntError> for Error {
    fn from(err: std::num::ParseIntError) -> (error: Error)
        ensures
            error@ == ErrorKind::IntParseError(err),
    {
        Error::from(ErrorKind::IntParseError(err))
    }
}

impl FromSpecImpl<std::num::ParseIntError> for Error {
    open spec fn obeys_from_spec() -> bool {
        true
    }

    closed spec fn from_spec(err: std::num::ParseIntError) -> Error {
        Error { internal: ErrorKind::IntParseError(err) }
    }
}

impl From<std::string::FromUtf8Error> for Error {
    fn from(err: std::string::FromUtf8Error) -> (error: Error)
        ensures
            error@ == ErrorKind::NotUTF8(err),
    {
        Error::from(ErrorKind::NotUTF8(err))
    }
}

impl FromSpecImpl<std::string::FromUtf8Error> for Error {
    open spec fn obeys_from_spec() -> bool {
        true
    }

    closed spec fn from_spec(err: std::string::FromUtf8Error) -> Error {
        Error { internal: ErrorKind::NotUTF8(err) }
    }
}

impl Error {
    /// The kind of this error, with what it wraps.
    pub fn into_kind(self) -> (kind: ErrorKind)
        ensures
            kind == self@,
    {
        self.internal
    }

    /// What went wrong, in words. A wrapped error speaks for itself.
    pub fn to_string(&self) -> (text: String)
        ensures
            match self@ {
                ErrorKind::IntParseError(e) => to_string_from_display_ensures::<
                    std::num::ParseIntError,
                >(&e, text),
                ErrorKind::IOError(e) => to_string_from_display_ensures::<std::io::Error>(&e, text),
                ErrorKind::NotUTF8(e) => to_string_from_display_ensures::<
                    std::string::FromUtf8Error,
                >(&e, text),
                ErrorKind::BufferDoesntContainDelimiter => text@
                    == "The acclimater buffer doesn't contain the delimiter"@,
                ErrorKind::BeginningDoesntMatch => text@ == "The beginning segments do not match"@,
                ErrorKind::DelimiterDoesntMatch => text@ == "The delimiters do not match"@,
                ErrorKind::BufferEmpty => text@ == "The buffer is empty"@,
            },
    {
        match &self.internal {
            ErrorKind::IntParseError(e) => e.to_string(),
            ErrorKind::IOError(e) => e.to_string(),
            ErrorKind::NotUTF8(e) => e.to_string(),
            ErrorKind::BufferDoesntContainDelimiter => String::from_str(
                "The acclimater buffer doesn't contain the delimiter",
            ),
            ErrorKind::BeginningDoesntMatch => String::from_str(
                "The beginning segments do not match",
            ),
            ErrorKind::DelimiterDoesntMatch => String::from_str("The delimiters do not match"),
            ErrorKind::BufferEmpty => String::from_str("The buffer is empty"),
        }
    }
}

} // verus!
