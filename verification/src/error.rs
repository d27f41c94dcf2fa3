//! The ways in which reading a line fails.

use vstd::prelude::*;
use vstd::std_specs::convert::FromSpecImpl;
use vstd::string::{to_string_from_display_ensures, StringExecFns};
use vstd::utf8::{encode_utf8, valid_utf8};

verus! {

/// `std::io::Error`, carried through as the cause of a failed read. Nothing
/// is known of what it holds.
#[verifier::external_type_specification]
#[verifier::external_body]
pub struct ExIoError(std::io::Error);

/// `std::string::FromUtf8Error`, carried through as the cause of a failed
/// decoding. Nothing is known of what it holds.
#[verifier::external_type_specification]
#[verifier::external_body]
pub struct ExFromUtf8Error(std::string::FromUtf8Error);

/// `String::from_utf8` succeeds exactly on valid UTF-8, and the string it
/// then returns is made of the bytes it was given.
pub assume_specification[ String::from_utf8 ](vec: Vec<u8>) -> (r: Result<
    String,
    std::string::FromUtf8Error,
>)
    ensures
        match r {
            Ok(s) => valid_utf8(vec@) && encode_utf8(s@) == vec@,
            Err(_) => !valid_utf8(vec@),
        },
;

/// Why a line could not be read.
#[derive(Debug)]
pub enum ReadlnError {
    /// The source failed to deliver a byte.
    Io(std::io::Error),
    /// The bytes of the line are not valid UTF-8.
    Utf8(std::string::FromUtf8Error),
}

impl From<std::io::Error> for ReadlnError {
    fn from(error: std::io::Error) -> (e: ReadlnError) {
        ReadlnError::Io(error)
    }
}

impl FromSpecImpl<std::io::Error> for ReadlnError {
    open spec fn obeys_from_spec() -> bool {
        true
    }

    open spec fn from_spec(error: std::io::Error) -> ReadlnError {
        ReadlnError::Io(error)
    }
}

impl From<std::string::FromUtf8Error> for ReadlnError {
    fn from(error: std::string::FromUtf8Error) -> (e: ReadlnError) {
        ReadlnError::Utf8(error)
    }
}

impl FromSpecImpl<std::string::FromUtf8Error> for ReadlnError {
    open spec fn obeys_from_spec() -> bool {
        true
    }

    open spec fn from_spec(error: std::string::FromUtf8Error) -> ReadlnError {
        ReadlnError::Utf8(error)
    }
}

impl ReadlnError {
    /// What the message for this kind of failure starts with.
    pub open spec fn prefix(&self) -> Seq<char> {
        match self {
            ReadlnError::Io(_) => "readln: io error: "@,
            ReadlnError::Utf8(_) => "readln: utf8 error: "@,
        }
    }

    /// The failure of the source that ended the reading, if that is the
    /// cause.
    pub fn io_cause(&self) -> (cause: Option<&std::io::Error>)
        ensures
            match self {
                ReadlnError::Io(error) => cause == Some(error),
                ReadlnError::Utf8(_) => cause is None,
            },
    {
        match self {
            ReadlnError::Io(error) => Some(error),
            ReadlnError::Utf8(_) => None,
        }
    }

    /// The failure to decode the line, if that is the cause.
    pub fn utf8_cause(&self) -> (cause: Option<&std::string::FromUtf8Error>)
        ensures
            match self {
                ReadlnError::Io(_) => cause is None,
                ReadlnError::Utf8(error) => cause == Some(error),
            },
    {
        match self {
            ReadlnError::Io(_) => None,
            ReadlnError::Utf8(error) => Some(error),
        }
    }

    /// The message for this kind of failure with the given words for its
    /// cause.
    pub fn message_with(&self, cause: &str) -> (text: String)
        ensures
            text@ == self.prefix() + cause@,
    {
        let prefix = match self {
            ReadlnError::Io(_) => "readln: io error: ",
            ReadlnError::Utf8(_) => "readln: utf8 error: ",
        };
        String::from_str(prefix).concat(cause)
    }

    /// Whether `words` is what the cause of this failure displays as.
    pub open spec fn cause_displays_as(&self, words: String) -> bool {
        match self {
            ReadlnError::Io(cause) => to_string_from_display_ensures::<std::io::Error>(
                cause,
                words,
            ),
            ReadlnError::Utf8(cause) => to_string_from_display_ensures::<
                std::string::FromUtf8Error,
            >(cause, words),
        }
    }

    /// The message for a reader: the kind of failure, then the cause in its
    /// own words.
    pub fn message(&self) -> (text: String)
        ensures
            exists|words: String|
                #[trigger] self.cause_displays_as(words) && text@ == self.prefix() + words@,
    {
        let cause = match self {
            ReadlnError::Io(cause) => cause.to_string(),
            ReadlnError::Utf8(cause) => cause.to_string(),
        };
        assert(self.cause_displays_as(cause));
        self.message_with(cause.as_str())
    }
}

} // verus!
