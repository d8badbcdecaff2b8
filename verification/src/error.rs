//! The errors of components and how far they reach.

use vstd::prelude::*;

verus! {

/// How far an error reaches.
#[derive(Clone, Copy, Debug, PartialEq, Eq, Structural)]
pub enum ErrorKind {
    /// The pipeline is used wrongly, as with an argument of the wrong type.
    /// The whole process stops.
    Misuse,
    /// Shared state may be corrupted. The whole process stops.
    Fatal,
    /// One stream has failed and is closed. Other streams go on.
    NonFatal,
}

/// An error of a component: its reach, what it says, and the text of the
/// error that caused it, where there is one.
#[derive(Debug)]
pub struct Error {
    kind: ErrorKind,
    msg: String,
    source: Option<String>,
}

/// What an [`Error`] stands for.
pub struct ErrorValue {
    pub kind: ErrorKind,
    pub msg: Seq<char>,
    pub source: Option<Seq<char>>,
}

impl View for Error {
    type V = ErrorValue;

    closed spec fn view(&self) -> ErrorValue {
        ErrorValue {
            kind: self.kind,
            msg: self.msg@,
            source: match self.source {
                Some(s) => Some(s@),
                None => None,
            },
        }
    }
}

/// A text that may be missing, as the characters that it holds.
pub open spec fn text_view(text: Option<String>) -> Option<Seq<char>> {
    match text {
        Some(s) => Some(s@),
        None => None,
    }
}

impl ErrorValue {
    /// The text that is shown for the error: a prefix for its reach, what it
    /// says, and the text of its source.
    pub open spec fn rendered(self) -> Seq<char> {
        let prefix = match self.kind {
            ErrorKind::Misuse => "Misuse: "@,
            ErrorKind::Fatal => "Fatal: "@,
            ErrorKind::NonFatal => "Error: "@,
        };
        let tail = match self.source {
            Some(s) => s,
            None => Seq::empty(),
        };
        prefix + self.msg + tail
    }
}

impl Error {
    /// An error of the kind [`ErrorKind::Misuse`].
    pub fn misuse(msg: String, source: Option<String>) -> (e: Error)
        ensures
            e@ == (ErrorValue { kind: ErrorKind::Misuse, msg: msg@, source: text_view(source) }),
    {
        Error { kind: ErrorKind::Misuse, msg, source }
    }

    /// An error of the kind [`ErrorKind::Fatal`].
    pub fn fatal(msg: String, source: Option<String>) -> (e: Error)
        ensures
            e@ == (ErrorValue { kind: ErrorKind::Fatal, msg: msg@, source: text_view(source) }),
    {
        Error { kind: ErrorKind::Fatal, msg, source }
    }

    /// An error of the kind [`ErrorKind::NonFatal`].
    pub fn non_fatal(msg: String, source: Option<String>) -> (e: Error)
        ensures
            e@ == (ErrorValue { kind: ErrorKind::NonFatal, msg: msg@, source: text_view(source) }),
    {
        Error { kind: ErrorKind::NonFatal, msg, source }
    }

    /// A misuse with the text `msg` and no source.
    pub fn misused(msg: &str) -> (e: Error)
        ensures
            e@ == (ErrorValue { kind: ErrorKind::Misuse, msg: msg@, source: None }),
    {
        Error { kind: ErrorKind::Misuse, msg: String::from_str(msg), source: None }
    }

    /// The reach of the error.
    pub fn kind(&self) -> (k: ErrorKind)
        ensures
            k == self@.kind,
    {
        self.kind
    }

    /// What the error says, without prefix and source.
    pub fn msg(&self) -> (m: &str)
        ensures
            m@ == self@.msg,
    {
        self.msg.as_str()
    }

    /// The text that is shown for the error.
    pub fn message(&self) -> (m: String)
        ensures
            m@ == self@.rendered(),
    {
        let mut m = String::from_str(
            match self.kind {
                ErrorKind::Misuse => "Misuse: ",
                ErrorKind::Fatal => "Fatal: ",
                ErrorKind::NonFatal => "Error: ",
            },
        );
        m.append(self.msg.as_str());
        match &self.source {
            Some(s) => {
                m.append(s.as_str());
            },
            None => {
                assert(m@ + Seq::<char>::empty() =~= m@);
            },
        }
        m
    }
}

} // verus!
