//! The closed taxonomy of failures produced by tokenizing and parsing.
//!
//! Each variant carries enough context to say where and why the front end
//! stopped. Propagation is immediate and total: the first error anywhere
//! aborts the whole run, with no partial result.

use vstd::prelude::*;

verus! {

/// An error raised while tokenizing or parsing.
#[derive(Debug, Clone, PartialEq, Eq)]
pub enum ParseError {
    /// A token other than the expected one was found. Carries what was
    /// expected, what was found, and a short contextual message.
    UnexpectedToken { expected: String, found: String, message: String },
    /// The input ended before a complete construct could be parsed.
    UnexpectedEOF,
    /// A numeric literal's text does not have the shape of a number.
    InvalidNumberFormat(String),
    /// A type-annotation position held a name outside the known types.
    InvalidIdentifier(String),
    /// A string literal never terminates. Reserved for a string-literal
    /// lexical form that the current grammar does not reach.
    UnterminatedString,
    /// A `match` expression has no pattern arms.
    MissingPatternMatchArm,
    /// A catch-all for diagnostics not covered by the other variants.
    Other(String),
}

/// The mathematical model of a [`ParseError`]: the same variants with each
/// diagnostic string as a sequence of characters.
pub enum ParseErrorView {
    UnexpectedToken { expected: Seq<char>, found: Seq<char>, message: Seq<char> },
    UnexpectedEOF,
    InvalidNumberFormat(Seq<char>),
    InvalidIdentifier(Seq<char>),
    UnterminatedString,
    MissingPatternMatchArm,
    Other(Seq<char>),
}

impl View for ParseError {
    type V = ParseErrorView;

    open spec fn view(&self) -> ParseErrorView {
        match self {
            ParseError::UnexpectedToken { expected, found, message } => {
                ParseErrorView::UnexpectedToken {
                    expected: expected@,
                    found: found@,
                    message: message@,
                }
            },
            ParseError::UnexpectedEOF => ParseErrorView::UnexpectedEOF,
            ParseError::InvalidNumberFormat(s) => ParseErrorView::InvalidNumberFormat(s@),
            ParseError::InvalidIdentifier(s) => ParseErrorView::InvalidIdentifier(s@),
            ParseError::UnterminatedString => ParseErrorView::UnterminatedString,
            ParseError::MissingPatternMatchArm => ParseErrorView::MissingPatternMatchArm,
            ParseError::Other(s) => ParseErrorView::Other(s@),
        }
    }
}

/// The user-visible rendering of an error, as a sequence of characters.
pub open spec fn spec_message(e: ParseErrorView) -> Seq<char> {
    match e {
        ParseErrorView::UnexpectedToken { expected, found, message } => {
            message + ": expected '"@ + expected + "', but found '"@ + found + "'."@
        },
        ParseErrorView::UnexpectedEOF => "Unexpected end of file."@,
        ParseErrorView::InvalidNumberFormat(num) => {
            "Invalid number format: '"@ + num + "'."@
        },
        ParseErrorView::InvalidIdentifier(id) => "Invalid identifier: '"@ + id + "'."@,
        ParseErrorView::UnterminatedString => "Unterminated string literal."@,
        ParseErrorView::MissingPatternMatchArm => "Pattern match expression missing arms."@,
        ParseErrorView::Other(msg) => "Error: "@ + msg,
    }
}

impl ParseError {
    /// Renders the error into a user-friendly message.
    pub fn to_message(&self) -> (r: String)
        ensures
            r@ == spec_message(self@),
    {
        let r = match self {
            ParseError::UnexpectedToken { expected, found, message } => {
                message
                    .clone()
                    .concat(": expected '")
                    .concat(expected.as_str())
                    .concat("', but found '")
                    .concat(found.as_str())
                    .concat("'.")
            },
            ParseError::UnexpectedEOF => String::from_str("Unexpected end of file."),
            ParseError::InvalidNumberFormat(num) => {
                String::from_str("Invalid number format: '").concat(num.as_str()).concat("'.")
            },
            ParseError::InvalidIdentifier(id) => {
                String::from_str("Invalid identifier: '").concat(id.as_str()).concat("'.")
            },
            ParseError::UnterminatedString => String::from_str("Unterminated string literal."),
            ParseError::MissingPatternMatchArm => {
                String::from_str("Pattern match expression missing arms.")
            },
            ParseError::Other(msg) => String::from_str("Error: ").concat(msg.as_str()),
        };
        proof {
            assert(r@ =~= spec_message(self@));
        }
        r
    }
}

} // verus!
