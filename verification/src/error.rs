//! The failures that reading a drawing can report.

use vstd::prelude::*;
use crate::text::{decimal_text, owned, push_decimal};

verus! {

/// `std::io::Error`, carried through as an opaque value.
#[verifier::external_type_specification]
#[verifier::external_body]
pub struct ExIoError(std::io::Error);

/// Why a drawing could not be read.
#[derive(Debug)]
pub enum JwwError {
    /// The host failed to deliver the bytes.
    Io(std::io::Error),
    /// The first eight bytes are not `JwwData.`.
    InvalidSignature,
    /// A read went past the end of the data; the label says what was being
    /// read.
    UnexpectedEof(&'static str),
    /// No entity list anchor was found.
    EntityListNotFound,
    /// A record names a class id that the dictionary does not hold.
    UnknownClassPid(u32),
    /// A record's class is none of the seven entity classes.
    UnknownEntityClass(String),
}

/// A failure as contracts speak of it: texts by their characters, and
/// nothing of what an I/O error holds.
pub enum Fault {
    Io,
    InvalidSignature,
    UnexpectedEof(Seq<char>),
    EntityListNotFound,
    UnknownClassPid(u32),
    UnknownEntityClass(Seq<char>),
}

impl View for JwwError {
    type V = Fault;

    open spec fn view(&self) -> Fault {
        match self {
            JwwError::Io(_) => Fault::Io,
            JwwError::InvalidSignature => Fault::InvalidSignature,
            JwwError::UnexpectedEof(label) => Fault::UnexpectedEof(label@),
            JwwError::EntityListNotFound => Fault::EntityListNotFound,
            JwwError::UnknownClassPid(pid) => Fault::UnknownClassPid(*pid),
            JwwError::UnknownEntityClass(name) => Fault::UnknownEntityClass(name@),
        }
    }
}

/// The message of a failure other than an I/O error.
pub open spec fn fault_text(f: Fault) -> Seq<char> {
    match f {
        Fault::Io => "I/O error: "@,
        Fault::InvalidSignature => "invalid JWW signature: expected \"JwwData.\""@,
        Fault::UnexpectedEof(label) => "unexpected EOF while reading "@ + label,
        Fault::EntityListNotFound => "could not find entity list in file"@,
        Fault::UnknownClassPid(pid) => "unknown class PID: "@ + decimal_text(pid as nat),
        Fault::UnknownEntityClass(name) => "unknown entity class: "@ + name,
    }
}

/// Text of an I/O error, as the standard library formats it.
///
/// Trusted: calls `ToString::to_string` on the error; nothing is claimed
/// of the text.
#[verifier::external_body]
fn io_error_text(err: &std::io::Error) -> String {
    err.to_string()
}

impl JwwError {
    /// A sentence for the user. For an I/O error it is `I/O error: `
    /// followed by the host's own description.
    pub fn message(&self) -> (r: String)
        ensures
            self@ != Fault::Io ==> r@ == fault_text(self@),
            self@ == Fault::Io ==> fault_text(Fault::Io).is_prefix_of(r@),
    {
        match self {
            JwwError::Io(err) => {
                let mut out = owned("I/O error: ");
                let detail = io_error_text(err);
                out.append(detail.as_str());
                out
            },
            JwwError::InvalidSignature => owned("invalid JWW signature: expected \"JwwData.\""),
            JwwError::UnexpectedEof(label) => {
                let mut out = owned("unexpected EOF while reading ");
                out.append(label);
                out
            },
            JwwError::EntityListNotFound => owned("could not find entity list in file"),
            JwwError::UnknownClassPid(pid) => {
                let mut out = owned("unknown class PID: ");
                push_decimal(&mut out, *pid as u64);
                out
            },
            JwwError::UnknownEntityClass(name) => {
                let mut out = owned("unknown entity class: ");
                out.append(name.as_str());
                out
            },
        }
    }
}

impl From<std::io::Error> for JwwError {
    fn from(value: std::io::Error) -> (r: JwwError)
        ensures
            r == JwwError::Io(value),
    {
        JwwError::Io(value)
    }
}

impl vstd::std_specs::convert::FromSpecImpl<std::io::Error> for JwwError {
    open spec fn obeys_from_spec() -> bool {
        true
    }

    open spec fn from_spec(value: std::io::Error) -> JwwError {
        JwwError::Io(value)
    }
}

} // verus!
