//! What can go wrong, and how it is worded.

use crate::text::{decimal, put_decimal};
use vstd::prelude::*;
use vstd::string::*;

verus! {

/// `std::io::Error`, carried through as it came.
#[verifier::external_type_specification]
#[verifier::external_body]
pub struct ExIoError(std::io::Error);

/// Every error of the library.
#[allow(inconsistent_fields)]
#[derive(Debug)]
pub enum QlasterError {
    ConnectionFailed,
    Io(std::io::Error),
    FrameTooLarge(usize),
    PayloadTooLarge { found: usize, max: usize },
    InvalidWireVersion { found: u8, expected: u8 },
    InvalidMessageTag { found: u8, expected: u8 },
    DecodeError(String),
    Timeout(&'static str),
    ConfigError(String),
    MalformedPayload(&'static str),
    IncomingClosed,
    ShmError(String),
    ShmFull,
    UdsError(String),
}

/// A [`QlasterError`] with its texts as character sequences.
#[allow(inconsistent_fields)]
pub enum ErrorModel {
    ConnectionFailed,
    Io(std::io::Error),
    FrameTooLarge(nat),
    PayloadTooLarge { found: nat, max: nat },
    InvalidWireVersion { found: u8, expected: u8 },
    InvalidMessageTag { found: u8, expected: u8 },
    DecodeError(Seq<char>),
    Timeout(Seq<char>),
    ConfigError(Seq<char>),
    MalformedPayload(Seq<char>),
    IncomingClosed,
    ShmError(Seq<char>),
    ShmFull,
    UdsError(Seq<char>),
}

impl View for QlasterError {
    type V = ErrorModel;

    open spec fn view(&self) -> ErrorModel {
        match *self {
            QlasterError::ConnectionFailed => ErrorModel::ConnectionFailed,
            QlasterError::Io(e) => ErrorModel::Io(e),
            QlasterError::FrameTooLarge(n) => ErrorModel::FrameTooLarge(n as nat),
            QlasterError::PayloadTooLarge { found, max } => ErrorModel::PayloadTooLarge {
                found: found as nat,
                max: max as nat,
            },
            QlasterError::InvalidWireVersion { found, expected } => ErrorModel::InvalidWireVersion {
                found,
                expected,
            },
            QlasterError::InvalidMessageTag { found, expected } => ErrorModel::InvalidMessageTag {
                found,
                expected,
            },
            QlasterError::DecodeError(s) => ErrorModel::DecodeError(s@),
            QlasterError::Timeout(s) => ErrorModel::Timeout(s@),
            QlasterError::ConfigError(s) => ErrorModel::ConfigError(s@),
            QlasterError::MalformedPayload(s) => ErrorModel::MalformedPayload(s@),
            QlasterError::IncomingClosed => ErrorModel::IncomingClosed,
            QlasterError::ShmError(s) => ErrorModel::ShmError(s@),
            QlasterError::ShmFull => ErrorModel::ShmFull,
            QlasterError::UdsError(s) => ErrorModel::UdsError(s@),
        }
    }
}

impl From<std::io::Error> for QlasterError {
    fn from(err: std::io::Error) -> (r: QlasterError) {
        QlasterError::Io(err)
    }
}

impl vstd::std_specs::convert::FromSpecImpl<std::io::Error> for QlasterError {
    open spec fn obeys_from_spec() -> bool {
        true
    }

    open spec fn from_spec(err: std::io::Error) -> QlasterError {
        QlasterError::Io(err)
    }
}

/// The words for `e`; those of an I/O error only begin with the given prefix.
pub open spec fn describes(text: Seq<char>, e: ErrorModel) -> bool {
    match e {
        ErrorModel::ConnectionFailed => text == "unable to connect to endpoint"@,
        ErrorModel::Io(_) => "io error: "@.is_prefix_of(text),
        ErrorModel::FrameTooLarge(n) => text == "frame too large: "@ + decimal(n) + " bytes"@,
        ErrorModel::PayloadTooLarge { found, max } => text == "account payload too large: "@
            + decimal(found) + " bytes (max "@ + decimal(max) + " bytes)"@,
        ErrorModel::InvalidWireVersion { found, expected } => text == "invalid wire version "@
            + decimal(found as nat) + "; expected "@ + decimal(expected as nat),
        ErrorModel::InvalidMessageTag { found, expected } => text == "invalid message tag "@
            + decimal(found as nat) + "; expected "@ + decimal(expected as nat),
        ErrorModel::DecodeError(s) => text == "decode error: "@ + s,
        ErrorModel::Timeout(s) => text == "operation timed out: "@ + s,
        ErrorModel::ConfigError(s) => text == "configuration error: "@ + s,
        ErrorModel::MalformedPayload(s) => text == "malformed payload: "@ + s,
        ErrorModel::IncomingClosed => text == "incoming endpoint accept loop closed"@,
        ErrorModel::ShmError(s) => text == "shared memory error: "@ + s,
        ErrorModel::ShmFull => text == "shared memory ring full"@,
        ErrorModel::UdsError(s) => text == "uds error: "@ + s,
    }
}

/// `std::io::Error`'s `to_string`. Nothing is claimed of the words.
#[verifier::external_body]
fn io_error_text(err: &std::io::Error) -> (text: String) {
    err.to_string()
}

/// The words for an I/O error that std puts into these words.
pub fn io_error_message(words: &str) -> (text: String)
    ensures
        text@ == "io error: "@ + words@,
{
    String::from_str("io error: ").concat(words)
}

/// `head`, the decimal `n`, `tail`.
pub fn text_with_number(head: &str, n: usize, tail: &str) -> (text: String)
    ensures
        text@ == head@ + decimal(n as nat) + tail@,
{
    let mut text = String::from_str(head);
    put_decimal(&mut text, n as u64);
    text.append(tail);
    text
}

impl QlasterError {
    /// The error in words.
    pub fn message(&self) -> (text: String)
        ensures
            describes(text@, self@),
    {
        match self {
            QlasterError::ConnectionFailed => String::from_str("unable to connect to endpoint"),
            QlasterError::Io(e) => {
                let words = io_error_text(e);
                io_error_message(words.as_str())
            },
            QlasterError::FrameTooLarge(n) => text_with_number("frame too large: ", *n, " bytes"),
            QlasterError::PayloadTooLarge { found, max } => {
                let mut text = text_with_number("account payload too large: ", *found, " bytes (max ");
                put_decimal(&mut text, *max as u64);
                text.append(" bytes)");
                text
            },
            QlasterError::InvalidWireVersion { found, expected } => {
                let mut text = text_with_number(
                    "invalid wire version ",
                    *found as usize,
                    "; expected ",
                );
                put_decimal(&mut text, *expected as u64);
                text
            },
            QlasterError::InvalidMessageTag { found, expected } => {
                let mut text = text_with_number(
                    "invalid message tag ",
                    *found as usize,
                    "; expected ",
                );
                put_decimal(&mut text, *expected as u64);
                text
            },
            QlasterError::DecodeError(s) => String::from_str("decode error: ").concat(s.as_str()),
            QlasterError::Timeout(s) => String::from_str("operation timed out: ").concat(s),
            QlasterError::ConfigError(s) => String::from_str("configuration error: ").concat(
                s.as_str(),
            ),
            QlasterError::MalformedPayload(s) => String::from_str("malformed payload: ").concat(s),
            QlasterError::IncomingClosed => String::from_str(
                "incoming endpoint accept loop closed",
            ),
            QlasterError::ShmError(s) => String::from_str("shared memory error: ").concat(
                s.as_str(),
            ),
            QlasterError::ShmFull => String::from_str("shared memory ring full"),
            QlasterError::UdsError(s) => String::from_str("uds error: ").concat(s.as_str()),
        }
    }
}

/// Each error is put into words that tell it from the others, with its numbers in
/// decimal and its own words at the end.
pub proof fn law_errors_are_told_apart(text: Seq<char>, n: nat, m: nat, a: u8, b: u8, s: Seq<char>)
    ensures
        describes(text, ErrorModel::ConnectionFailed) == (text == "unable to connect to endpoint"@),
        describes(text, ErrorModel::FrameTooLarge(n)) == (text == "frame too large: "@ + decimal(n)
            + " bytes"@),
        describes(text, ErrorModel::PayloadTooLarge { found: n, max: m }) == (text
            == "account payload too large: "@ + decimal(n) + " bytes (max "@ + decimal(m)
            + " bytes)"@),
        describes(text, ErrorModel::InvalidWireVersion { found: a, expected: b }) == (text
            == "invalid wire version "@ + decimal(a as nat) + "; expected "@ + decimal(b as nat)),
        describes(text, ErrorModel::InvalidMessageTag { found: a, expected: b }) == (text
            == "invalid message tag "@ + decimal(a as nat) + "; expected "@ + decimal(b as nat)),
        describes(text, ErrorModel::DecodeError(s)) == (text == "decode error: "@ + s),
        describes(text, ErrorModel::Timeout(s)) == (text == "operation timed out: "@ + s),
        describes(text, ErrorModel::ConfigError(s)) == (text == "configuration error: "@ + s),
        describes(text, ErrorModel::MalformedPayload(s)) == (text == "malformed payload: "@ + s),
        describes(text, ErrorModel::IncomingClosed) == (text
            == "incoming endpoint accept loop closed"@),
        describes(text, ErrorModel::ShmError(s)) == (text == "shared memory error: "@ + s),
        describes(text, ErrorModel::ShmFull) == (text == "shared memory ring full"@),
        describes(text, ErrorModel::UdsError(s)) == (text == "uds error: "@ + s),
{
}

/// The errors of the library stand for themselves, with their own numbers and words.
pub proof fn law_errors_stand_for_themselves(
    io: std::io::Error,
    n: usize,
    m: usize,
    a: u8,
    b: u8,
    s: String,
    w: &'static str,
    text: Seq<char>,
)
    ensures
        QlasterError::ConnectionFailed@ == ErrorModel::ConnectionFailed,
        QlasterError::Io(io)@ == ErrorModel::Io(io),
        QlasterError::FrameTooLarge(n)@ == ErrorModel::FrameTooLarge(n as nat),
        (QlasterError::PayloadTooLarge { found: n, max: m })@ == (ErrorModel::PayloadTooLarge {
            found: n as nat,
            max: m as nat,
        }),
        (QlasterError::InvalidWireVersion { found: a, expected: b })@ == (
        ErrorModel::InvalidWireVersion { found: a, expected: b }),
        (QlasterError::InvalidMessageTag { found: a, expected: b })@ == (
        ErrorModel::InvalidMessageTag { found: a, expected: b }),
        QlasterError::DecodeError(s)@ == ErrorModel::DecodeError(s@),
        QlasterError::Timeout(w)@ == ErrorModel::Timeout(w@),
        QlasterError::ConfigError(s)@ == ErrorModel::ConfigError(s@),
        QlasterError::MalformedPayload(w)@ == ErrorModel::MalformedPayload(w@),
        QlasterError::IncomingClosed@ == ErrorModel::IncomingClosed,
        QlasterError::ShmError(s)@ == ErrorModel::ShmError(s@),
        QlasterError::ShmFull@ == ErrorModel::ShmFull,
        QlasterError::UdsError(s)@ == ErrorModel::UdsError(s@),
        describes(text, ErrorModel::Io(io)) == "io error: "@.is_prefix_of(text),
{
}

} // verus!
