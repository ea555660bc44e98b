//! The ways in which a direction name or an encoded gesture can be malformed.

use vstd::prelude::*;

verus! {

/// Why a text was rejected.
#[derive(Debug, Eq)]
pub enum ParseError {
    /// The token is the name of no direction. Carries the token.
    InvalidDirection(String),
    /// The first segment is not a finger count: empty, not a run of ASCII
    /// digits, or a number too large for a `u32`. Carries the segment.
    InvalidFingerCount(String),
    /// There is no first segment. Reading an encoding never gives this:
    /// every text has a first segment, which in the empty text is empty and
    /// gives [`ParseError::InvalidFingerCount`].
    MissingFingerCount,
    /// The text holds no `+`, so there is no second segment.
    MissingDirection,
    /// The text goes on after the second segment. Carries everything that
    /// follows the second `+`.
    TrailingData(String),
    /// A record names a field that a gesture does not have. Carries the name.
    UnknownField(String),
}

/// A [`ParseError`] with its texts as sequences of characters.
#[verifier::ext_equal]
pub enum ParseErrorView {
    InvalidDirection(Seq<char>),
    InvalidFingerCount(Seq<char>),
    MissingFingerCount,
    MissingDirection,
    TrailingData(Seq<char>),
    UnknownField(Seq<char>),
}

impl View for ParseError {
    type V = ParseErrorView;

    open spec fn view(&self) -> ParseErrorView {
        match self {
            ParseError::InvalidDirection(token) => ParseErrorView::InvalidDirection(token@),
            ParseError::InvalidFingerCount(token) => ParseErrorView::InvalidFingerCount(token@),
            ParseError::MissingFingerCount => ParseErrorView::MissingFingerCount,
            ParseError::MissingDirection => ParseErrorView::MissingDirection,
            ParseError::TrailingData(rest) => ParseErrorView::TrailingData(rest@),
            ParseError::UnknownField(name) => ParseErrorView::UnknownField(name@),
        }
    }
}

impl Clone for ParseError {
    fn clone(&self) -> (r: ParseError)
        ensures
            r@ == self@,
    {
        match self {
            ParseError::InvalidDirection(token) => ParseError::InvalidDirection(token.clone()),
            ParseError::InvalidFingerCount(token) => ParseError::InvalidFingerCount(token.clone()),
            ParseError::MissingFingerCount => ParseError::MissingFingerCount,
            ParseError::MissingDirection => ParseError::MissingDirection,
            ParseError::TrailingData(rest) => ParseError::TrailingData(rest.clone()),
            ParseError::UnknownField(name) => ParseError::UnknownField(name.clone()),
        }
    }
}

impl PartialEq for ParseError {
    fn eq(&self, other: &ParseError) -> (r: bool) {
        match (self, other) {
            (ParseError::InvalidDirection(a), ParseError::InvalidDirection(b)) => *a == *b,
            (ParseError::InvalidFingerCount(a), ParseError::InvalidFingerCount(b)) => *a == *b,
            (ParseError::MissingFingerCount, ParseError::MissingFingerCount) => true,
            (ParseError::MissingDirection, ParseError::MissingDirection) => true,
            (ParseError::TrailingData(a), ParseError::TrailingData(b)) => *a == *b,
            (ParseError::UnknownField(a), ParseError::UnknownField(b)) => *a == *b,
            _ => false,
        }
    }
}

impl vstd::std_specs::cmp::PartialEqSpecImpl for ParseError {
    open spec fn obeys_eq_spec() -> bool {
        true
    }

    /// Errors are equal when they are of one kind and carry the same text.
    open spec fn eq_spec(&self, other: &ParseError) -> bool {
        self@ == other@
    }
}

} // verus!
