//! The error that parsing and validation report.
use vstd::prelude::*;
use crate::text::push_char;

verus! {

/// What kind of fault an [`HTTPError`] reports.
#[derive(Debug, Clone, Copy, PartialEq, Eq, Structural)]
pub enum HTTPErrorKind {
    BadHeader,
    InvalidMethod,
    UnsupportedVersion,
    Other,
}

/// A fault found in an HTTP message: its kind and a message for people.
#[derive(Debug)]
pub struct HTTPError {
    kind: HTTPErrorKind,
    message: String,
}

/// An error as a value: its kind and its message.
pub struct SpecError {
    pub kind: HTTPErrorKind,
    pub message: Seq<char>,
}

impl View for HTTPError {
    type V = SpecError;

    closed spec fn view(&self) -> SpecError {
        SpecError { kind: self.kind, message: self.message@ }
    }
}

/// The error made of `kind` and `message`.
pub open spec fn error_of(kind: HTTPErrorKind, message: Seq<char>) -> SpecError {
    SpecError { kind, message }
}

/// `head`, then `quoted` between single quotes.
pub open spec fn quoted(head: Seq<char>, q: Seq<char>) -> Seq<char> {
    head + "'"@ + q + "'"@
}

/// How `Debug` writes a kind: the name of its variant.
pub open spec fn kind_text(kind: HTTPErrorKind) -> Seq<char> {
    match kind {
        HTTPErrorKind::BadHeader => "BadHeader"@,
        HTTPErrorKind::InvalidMethod => "InvalidMethod"@,
        HTTPErrorKind::UnsupportedVersion => "UnsupportedVersion"@,
        HTTPErrorKind::Other => "Other"@,
    }
}

/// The text of an error: `kind: message`.
pub open spec fn error_text(e: SpecError) -> Seq<char> {
    kind_text(e.kind) + ": "@ + e.message
}

impl HTTPError {
    pub fn new(kind: HTTPErrorKind, message: &str) -> (e: Self)
        ensures
            e@ == error_of(kind, message@),
    {
        HTTPError { kind, message: message.to_owned() }
    }

    /// An error whose message is `head`, then `'`, `quoted` and `'`.
    pub fn quoting(kind: HTTPErrorKind, head: &str, q: &str) -> (e: Self)
        ensures
            e@ == error_of(kind, quoted(head@, q@)),
    {
        let mut m = head.to_owned();
        push_char(&mut m, '\'');
        m.append(q);
        push_char(&mut m, '\'');
        proof {
            reveal_strlit("'");
        }
        assert(m@ =~= head@ + "'"@ + q@ + "'"@);
        HTTPError { kind, message: m }
    }

    pub fn kind(&self) -> (k: HTTPErrorKind)
        ensures
            k == self@.kind,
    {
        self.kind
    }

    pub fn message(&self) -> (m: &str)
        ensures
            m@ == self@.message,
    {
        self.message.as_str()
    }

    /// The error's text, `kind: message`, as `Display` writes it.
    pub fn to_string(&self) -> (s: String)
        ensures
            s@ == error_text(self@),
    {
        let mut s = match self.kind {
            HTTPErrorKind::BadHeader => String::from_str("BadHeader"),
            HTTPErrorKind::InvalidMethod => String::from_str("InvalidMethod"),
            HTTPErrorKind::UnsupportedVersion => String::from_str("UnsupportedVersion"),
            HTTPErrorKind::Other => String::from_str("Other"),
        };
        s.append(": ");
        s.append(self.message.as_str());
        s
    }
}

} // verus!
