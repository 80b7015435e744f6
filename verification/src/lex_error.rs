use vstd::prelude::*;

verus! {

/// A lexical error, fail-fast: the first one aborts the whole pass.
/// Positions are `(line, column)` pairs, 1-based line, 0-based column,
/// taken after the offending characters were consumed.
#[derive(Debug, PartialEq)]
pub enum TokenError {
    /// A character no rule accepts, with the position after it.
    Unknown(char, (i32, i32)),
    /// A character that cannot stand where it does (a non-ASCII character
    /// literal), with the position after it.
    Unexpected(char, (i32, i32)),
    /// Malformed literal text (a numeric spelling with more than one dot,
    /// or an integer beyond the 64-bit range), with the position after it.
    Invalid(String, (i32, i32)),
    /// `expect(wanted)` consumed something else: wanted, got, position.
    Expected(char, char, (i32, i32)),
    /// Input ended where at least one more character was required.
    UnexpectedEOF,
}

/// Mathematical model of a lexical error.
pub ghost enum LexErrView {
    Unknown(char, (int, int)),
    Unexpected(char, (int, int)),
    Invalid(Seq<char>, (int, int)),
    Expected(char, char, (int, int)),
    UnexpectedEOF,
}

impl View for TokenError {
    type V = LexErrView;

    open spec fn view(&self) -> LexErrView {
        match self {
            TokenError::Unknown(c, lp) => LexErrView::Unknown(*c, (lp.0 as int, lp.1 as int)),
            TokenError::Unexpected(c, lp) => LexErrView::Unexpected(*c, (lp.0 as int, lp.1 as int)),
            TokenError::Invalid(s, lp) => LexErrView::Invalid(s@, (lp.0 as int, lp.1 as int)),
            TokenError::Expected(w, g, lp) => LexErrView::Expected(
                *w,
                *g,
                (lp.0 as int, lp.1 as int),
            ),
            TokenError::UnexpectedEOF => LexErrView::UnexpectedEOF,
        }
    }
}

impl TokenError {
    /// A short diagnostic text for this error, as the driver prints it.
    pub fn describe(&self) -> String {
        match self {
            TokenError::Unknown(..) => unknown_text(),
            TokenError::Unexpected(..) => unexpected_text(),
            TokenError::Invalid(..) => invalid_text(),
            TokenError::Expected(..) => expected_text(),
            TokenError::UnexpectedEOF => eof_text(),
        }
    }
}

fn unknown_text() -> String {
    "unknown character".to_owned()
}

fn unexpected_text() -> String {
    "unexpected character".to_owned()
}

fn invalid_text() -> String {
    "invalid literal text".to_owned()
}

fn expected_text() -> String {
    "expected another character".to_owned()
}

fn eof_text() -> String {
    "unexpected end of input".to_owned()
}

} // verus!
