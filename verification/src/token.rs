use vstd::prelude::*;

verus! {

/// The closed set of lexical units produced by the tokenizer.
///
/// Tokens are immutable value types compared structurally: two identifier
/// tokens are equal iff their names match.  A decimal literal carries its
/// exact source spelling (ASCII digits with one dot); keeping the spelling
/// keeps the token model exact and lets a later stage pick its own numeric
/// representation.
#[derive(Debug)]
pub enum Token {
    // Keywords
    Let,                // let
    Func,               // func
    Return,             // return
    If,                 // if
    Else,               // else
    While,              // while
    For,                // for
    Break,              // break
    Continue,           // continue
    // Ambiguous symbols, resolved by one character of lookahead
    Plus,               // +
    Increment,          // ++
    PlusEquals,         // +=
    Minus,              // -
    Decrement,          // --
    MinusEquals,        // -=
    Multiply,           // *
    Exponentiate,       // **
    Not,                // !
    NotEquals,          // !=
    GreaterThan,        // >
    GreaterEquals,      // >=
    ShiftRight,         // >>
    LessThan,           // <
    LessEquals,         // <=
    ShiftLeft,          // <<
    BinaryAnd,          // &
    LogicalAnd,         // &&
    BinaryOr,           // |
    LogicalOr,          // ||
    // Unambiguous symbols
    Assign,             // :=
    Equals,             // ==
    Divide,             // /
    Modulo,             // %
    Dot,                // .
    Comma,              // ,
    Semicolon,          // ;
    LeftParenthesis,    // (
    RightParenthesis,   // )
    LeftBracket,        // [
    RightBracket,       // ]
    LeftBrace,          // {
    RightBrace,         // }
    Xor,                // ^
    BinaryNegate,       // ~
    // Literals
    Null,               // null
    Identifier(String),
    StringLiteral(String),
    CharacterLiteral(char),
    IntegerLiteral(i64),
    DecimalLiteral(String),
    BooleanLiteral(bool),
    // End-of-stream marker
    EOF,
}

/// Mathematical model of a token: string payloads become character
/// sequences, machine integers become unbounded integers.
pub ghost enum TokView {
    Let,
    Func,
    Return,
    If,
    Else,
    While,
    For,
    Break,
    Continue,
    Plus,
    Increment,
    PlusEquals,
    Minus,
    Decrement,
    MinusEquals,
    Multiply,
    Exponentiate,
    Not,
    NotEquals,
    GreaterThan,
    GreaterEquals,
    ShiftRight,
    LessThan,
    LessEquals,
    ShiftLeft,
    BinaryAnd,
    LogicalAnd,
    BinaryOr,
    LogicalOr,
    Assign,
    Equals,
    Divide,
    Modulo,
    Dot,
    Comma,
    Semicolon,
    LeftParenthesis,
    RightParenthesis,
    LeftBracket,
    RightBracket,
    LeftBrace,
    RightBrace,
    Xor,
    BinaryNegate,
    Null,
    Identifier(Seq<char>),
    StringLiteral(Seq<char>),
    CharacterLiteral(char),
    IntegerLiteral(int),
    DecimalLiteral(Seq<char>),
    BooleanLiteral(bool),
    EOF,
}

impl View for Token {
    type V = TokView;

    open spec fn view(&self) -> TokView {
        match self {
            Token::Let => TokView::Let,
            Token::Func => TokView::Func,
            Token::Return => TokView::Return,
            Token::If => TokView::If,
            Token::Else => TokView::Else,
            Token::While => TokView::While,
            Token::For => TokView::For,
            Token::Break => TokView::Break,
            Token::Continue => TokView::Continue,
            Token::Plus => TokView::Plus,
            Token::Increment => TokView::Increment,
            Token::PlusEquals => TokView::PlusEquals,
            Token::Minus => TokView::Minus,
            Token::Decrement => TokView::Decrement,
            Token::MinusEquals => TokView::MinusEquals,
            Token::Multiply => TokView::Multiply,
            Token::Exponentiate => TokView::Exponentiate,
            Token::Not => TokView::Not,
            Token::NotEquals => TokView::NotEquals,
            Token::GreaterThan => TokView::GreaterThan,
            Token::GreaterEquals => TokView::GreaterEquals,
            Token::ShiftRight => TokView::ShiftRight,
            Token::LessThan => TokView::LessThan,
            Token::LessEquals => TokView::LessEquals,
            Token::ShiftLeft => TokView::ShiftLeft,
            Token::BinaryAnd => TokView::BinaryAnd,
            Token::LogicalAnd => TokView::LogicalAnd,
            Token::BinaryOr => TokView::BinaryOr,
            Token::LogicalOr => TokView::LogicalOr,
            Token::Assign => TokView::Assign,
            Token::Equals => TokView::Equals,
            Token::Divide => TokView::Divide,
            Token::Modulo => TokView::Modulo,
            Token::Dot => TokView::Dot,
            Token::Comma => TokView::Comma,
            Token::Semicolon => TokView::Semicolon,
            Token::LeftParenthesis => TokView::LeftParenthesis,
            Token::RightParenthesis => TokView::RightParenthesis,
            Token::LeftBracket => TokView::LeftBracket,
            Token::RightBracket => TokView::RightBracket,
            Token::LeftBrace => TokView::LeftBrace,
            Token::RightBrace => TokView::RightBrace,
            Token::Xor => TokView::Xor,
            Token::BinaryNegate => TokView::BinaryNegate,
            Token::Null => TokView::Null,
            Token::Identifier(s) => TokView::Identifier(s@),
            Token::StringLiteral(s) => TokView::StringLiteral(s@),
            Token::CharacterLiteral(c) => TokView::CharacterLiteral(*c),
            Token::IntegerLiteral(i) => TokView::IntegerLiteral(*i as int),
            Token::DecimalLiteral(s) => TokView::DecimalLiteral(s@),
            Token::BooleanLiteral(b) => TokView::BooleanLiteral(*b),
            Token::EOF => TokView::EOF,
        }
    }
}

/// The precedence class of a token, as the parser's climbing uses it:
/// additive operators bind loosest (1), multiplicative and logical
/// operators next (2), relational, equality, bitwise and shift operators
/// next (3), unary operators next (4); call, index and member-access
/// starters get a reserved tightest class (10); everything else is a
/// non-operator (0).
pub open spec fn spec_prec(t: TokView) -> int {
    match t {
        TokView::Plus => 1,
        TokView::Minus => 1,
        TokView::Multiply => 2,
        TokView::Divide => 2,
        TokView::Modulo => 2,
        TokView::LogicalAnd => 2,
        TokView::LogicalOr => 2,
        TokView::Exponentiate => 3,
        TokView::LessThan => 3,
        TokView::LessEquals => 3,
        TokView::GreaterThan => 3,
        TokView::GreaterEquals => 3,
        TokView::Equals => 3,
        TokView::NotEquals => 3,
        TokView::BinaryAnd => 3,
        TokView::BinaryOr => 3,
        TokView::ShiftRight => 3,
        TokView::ShiftLeft => 3,
        TokView::Xor => 4,
        TokView::Not => 4,
        TokView::BinaryNegate => 4,
        TokView::LeftParenthesis => 10,
        TokView::RightBracket => 10,
        TokView::Dot => 10,
        _ => 0,
    }
}

impl Token {
    /// Returns the precedence class for this token.
    pub fn prec(&self) -> (p: i32)
        ensures
            p == spec_prec(self@),
    {
        match self {
            // Binary
            Token::Plus => 1,
            Token::Minus => 1,
            Token::Multiply => 2,
            Token::Divide => 2,
            Token::Modulo => 2,
            Token::LogicalAnd => 2,
            Token::LogicalOr => 2,
            Token::Exponentiate => 3,
            Token::LessThan => 3,
            Token::LessEquals => 3,
            Token::GreaterThan => 3,
            Token::GreaterEquals => 3,
            Token::Equals => 3,
            Token::NotEquals => 3,
            Token::BinaryAnd => 3,
            Token::BinaryOr => 3,
            Token::ShiftRight => 3,
            Token::ShiftLeft => 3,
            // Unary
            Token::Xor => 4,
            Token::Not => 4,
            Token::BinaryNegate => 4,
            // Other
            Token::LeftParenthesis => 10,
            Token::RightBracket => 10,
            Token::Dot => 10,
            _ => 0,
        }
    }
}

impl Clone for Token {
    /// Structural copy: the clone is equal to the original.
    fn clone(&self) -> (res: Token)
        ensures
            res == self,
    {
        match self {
            Token::Let => Token::Let,
            Token::Func => Token::Func,
            Token::Return => Token::Return,
            Token::If => Token::If,
            Token::Else => Token::Else,
            Token::While => Token::While,
            Token::For => Token::For,
            Token::Break => Token::Break,
            Token::Continue => Token::Continue,
            Token::Plus => Token::Plus,
            Token::Increment => Token::Increment,
            Token::PlusEquals => Token::PlusEquals,
            Token::Minus => Token::Minus,
            Token::Decrement => Token::Decrement,
            Token::MinusEquals => Token::MinusEquals,
            Token::Multiply => Token::Multiply,
            Token::Exponentiate => Token::Exponentiate,
            Token::Not => Token::Not,
            Token::NotEquals => Token::NotEquals,
            Token::GreaterThan => Token::GreaterThan,
            Token::GreaterEquals => Token::GreaterEquals,
            Token::ShiftRight => Token::ShiftRight,
            Token::LessThan => Token::LessThan,
            Token::LessEquals => Token::LessEquals,
            Token::ShiftLeft => Token::ShiftLeft,
            Token::BinaryAnd => Token::BinaryAnd,
            Token::LogicalAnd => Token::LogicalAnd,
            Token::BinaryOr => Token::BinaryOr,
            Token::LogicalOr => Token::LogicalOr,
            Token::Assign => Token::Assign,
            Token::Equals => Token::Equals,
            Token::Divide => Token::Divide,
            Token::Modulo => Token::Modulo,
            Token::Dot => Token::Dot,
            Token::Comma => Token::Comma,
            Token::Semicolon => Token::Semicolon,
            Token::LeftParenthesis => Token::LeftParenthesis,
            Token::RightParenthesis => Token::RightParenthesis,
            Token::LeftBracket => Token::LeftBracket,
            Token::RightBracket => Token::RightBracket,
            Token::LeftBrace => Token::LeftBrace,
            Token::RightBrace => Token::RightBrace,
            Token::Xor => Token::Xor,
            Token::BinaryNegate => Token::BinaryNegate,
            Token::Null => Token::Null,
            Token::Identifier(s) => Token::Identifier(s.clone()),
            Token::StringLiteral(s) => Token::StringLiteral(s.clone()),
            Token::CharacterLiteral(c) => Token::CharacterLiteral(*c),
            Token::IntegerLiteral(i) => Token::IntegerLiteral(*i),
            Token::DecimalLiteral(s) => Token::DecimalLiteral(s.clone()),
            Token::BooleanLiteral(b) => Token::BooleanLiteral(*b),
            Token::EOF => Token::EOF,
        }
    }
}

impl PartialEq for Token {
    /// Structural equality; two payload-carrying tokens are equal iff
    /// their payloads are.
    #[verifier::rlimit(60)]
    fn eq(&self, other: &Token) -> (res: bool)
    {
        match (self, other) {
            (Token::Let, Token::Let) => true,
            (Token::Func, Token::Func) => true,
            (Token::Return, Token::Return) => true,
            (Token::If, Token::If) => true,
            (Token::Else, Token::Else) => true,
            (Token::While, Token::While) => true,
            (Token::For, Token::For) => true,
            (Token::Break, Token::Break) => true,
            (Token::Continue, Token::Continue) => true,
            (Token::Plus, Token::Plus) => true,
            (Token::Increment, Token::Increment) => true,
            (Token::PlusEquals, Token::PlusEquals) => true,
            (Token::Minus, Token::Minus) => true,
            (Token::Decrement, Token::Decrement) => true,
            (Token::MinusEquals, Token::MinusEquals) => true,
            (Token::Multiply, Token::Multiply) => true,
            (Token::Exponentiate, Token::Exponentiate) => true,
            (Token::Not, Token::Not) => true,
            (Token::NotEquals, Token::NotEquals) => true,
            (Token::GreaterThan, Token::GreaterThan) => true,
            (Token::GreaterEquals, Token::GreaterEquals) => true,
            (Token::ShiftRight, Token::ShiftRight) => true,
            (Token::LessThan, Token::LessThan) => true,
            (Token::LessEquals, Token::LessEquals) => true,
            (Token::ShiftLeft, Token::ShiftLeft) => true,
            (Token::BinaryAnd, Token::BinaryAnd) => true,
            (Token::LogicalAnd, Token::LogicalAnd) => true,
            (Token::BinaryOr, Token::BinaryOr) => true,
            (Token::LogicalOr, Token::LogicalOr) => true,
            (Token::Assign, Token::Assign) => true,
            (Token::Equals, Token::Equals) => true,
            (Token::Divide, Token::Divide) => true,
            (Token::Modulo, Token::Modulo) => true,
            (Token::Dot, Token::Dot) => true,
            (Token::Comma, Token::Comma) => true,
            (Token::Semicolon, Token::Semicolon) => true,
            (Token::LeftParenthesis, Token::LeftParenthesis) => true,
            (Token::RightParenthesis, Token::RightParenthesis) => true,
            (Token::LeftBracket, Token::LeftBracket) => true,
            (Token::RightBracket, Token::RightBracket) => true,
            (Token::LeftBrace, Token::LeftBrace) => true,
            (Token::RightBrace, Token::RightBrace) => true,
            (Token::Xor, Token::Xor) => true,
            (Token::BinaryNegate, Token::BinaryNegate) => true,
            (Token::Null, Token::Null) => true,
            (Token::Identifier(a), Token::Identifier(b)) => *a == *b,
            (Token::StringLiteral(a), Token::StringLiteral(b)) => *a == *b,
            (Token::CharacterLiteral(a), Token::CharacterLiteral(b)) => *a == *b,
            (Token::IntegerLiteral(a), Token::IntegerLiteral(b)) => *a == *b,
            (Token::DecimalLiteral(a), Token::DecimalLiteral(b)) => *a == *b,
            (Token::BooleanLiteral(a), Token::BooleanLiteral(b)) => *a == *b,
            (Token::EOF, Token::EOF) => true,
            _ => false,
        }
    }
}

impl vstd::std_specs::cmp::PartialEqSpecImpl for Token {
    open spec fn obeys_eq_spec() -> bool {
        true
    }

    open spec fn eq_spec(&self, other: &Token) -> bool {
        self@ == other@
    }
}

} // verus!
