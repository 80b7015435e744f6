use vstd::prelude::*;
use crate::token::Token;

verus! {

/// A syntax error, fail-fast: the first one aborts the parse and no
/// partial tree is surfaced.
#[derive(Debug, PartialEq)]
pub enum ParseError {
    /// A token that cannot open or continue an expression.
    BadExpression(Token),
    /// A token that cannot stand where a statement form demands another.
    BadStatement(Token),
    /// An assignment whose target is not a bare identifier reference,
    /// or a variable declaration not followed by `:=` or `;`.
    BadAssignment,
    /// A token that cannot stand here.
    UnexpectedToken(Token),
    /// A malformed list: a separator not followed by an element.
    SyntaxError,
    /// The token sequence ended where more was required.
    UnexpectedEOF,
}

impl ParseError {
    /// A short diagnostic text for this error, as the driver prints it.
    pub fn describe(&self) -> String {
        match self {
            ParseError::BadExpression(_) => bad_expression_text(),
            ParseError::BadStatement(_) => bad_statement_text(),
            ParseError::BadAssignment => bad_assignment_text(),
            ParseError::UnexpectedToken(_) => unexpected_token_text(),
            ParseError::SyntaxError => syntax_error_text(),
            ParseError::UnexpectedEOF => eof_text(),
        }
    }
}

fn bad_expression_text() -> String {
    "bad expression".to_owned()
}

fn bad_statement_text() -> String {
    "bad statement".to_owned()
}

fn bad_assignment_text() -> String {
    "bad assignment".to_owned()
}

fn unexpected_token_text() -> String {
    "unexpected token".to_owned()
}

fn syntax_error_text() -> String {
    "syntax error".to_owned()
}

fn eof_text() -> String {
    "unexpected end of input".to_owned()
}

} // verus!
