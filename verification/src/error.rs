//! What a failed parse reports.

use vstd::prelude::*;

verus! {

/// The part of the grammar that did not match.
#[derive(Copy, Clone, Debug, PartialEq, Eq, Hash, Structural)]
pub enum ErrorKind {
    /// A name was expected: one or more ASCII letters.
    Alpha,
    /// The blanks between a node's name and its first edge were expected.
    Space,
    /// The colon between an edge's colour and its target was expected.
    Tag,
}

/// What a [`ParseError`] is to the contracts.
pub struct Fault {
    pub input: Seq<char>,
    pub code: ErrorKind,
}

/// A failed parse: the input that was left when the parser gave up, and the
/// part of the grammar that it did not match.
#[derive(Clone, Debug, PartialEq, Eq)]
pub struct ParseError {
    pub input: String,
    pub code: ErrorKind,
}

impl View for ParseError {
    type V = Fault;

    open spec fn view(&self) -> Fault {
        Fault { input: self.input@, code: self.code }
    }
}

impl ParseError {
    /// The error for input `input` that did not match `code`.
    pub fn new(input: &str, code: ErrorKind) -> (e: ParseError)
        ensures
            e@ == (Fault { input: input@, code }),
    {
        ParseError { input: input.to_owned(), code }
    }

    /// A one-line description of the error.
    pub fn to_string(&self) -> (r: String)
        ensures
            r@ == "error "@ + self.code.name() + " at: "@ + self.input@,
    {
        let mut r = "error ".to_owned();
        r.append(self.code.name_str());
        r.append(" at: ");
        r.append(self.input.as_str());
        r
    }
}

impl ErrorKind {
    /// The name of the grammar rule.
    pub open spec fn name(self) -> Seq<char> {
        match self {
            ErrorKind::Alpha => "Alpha"@,
            ErrorKind::Space => "Space"@,
            ErrorKind::Tag => "Tag"@,
        }
    }

    /// The name of the grammar rule, as text.
    pub fn name_str(self) -> (r: &'static str)
        ensures
            r@ == self.name(),
    {
        match self {
            ErrorKind::Alpha => "Alpha",
            ErrorKind::Space => "Space",
            ErrorKind::Tag => "Tag",
        }
    }
}

} // verus!
