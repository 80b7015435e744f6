use vstd::prelude::*;
use crate::token::{Token, TokView};

verus! {

/// Tokens that may open an expression: exactly those that may open a
/// unary expression.
pub open spec fn spec_is_expr_start(t: TokView) -> bool {
    spec_is_unop_start(t)
}

/// Identifier tokens.
pub open spec fn spec_is_ident(t: TokView) -> bool {
    t is Identifier
}

/// Literal tokens, the null literal included.
pub open spec fn spec_is_literal(t: TokView) -> bool {
    ||| t is Null
    ||| t is IntegerLiteral
    ||| t is DecimalLiteral
    ||| t is StringLiteral
    ||| t is CharacterLiteral
    ||| t is BooleanLiteral
}

/// Tokens that may open a unary expression: a group opener, a prefix
/// operator, an identifier or a literal.
pub open spec fn spec_is_unop_start(t: TokView) -> bool {
    ||| t is LeftParenthesis
    ||| spec_is_unop_prefix(t)
    ||| spec_is_ident(t)
    ||| spec_is_literal(t)
}

/// Prefix unary operators.
pub open spec fn spec_is_unop_prefix(t: TokView) -> bool {
    t is BinaryNegate || t is Minus || t is Not
}

/// Postfix chain openers: a call's `(` or an index's `[`.
pub open spec fn spec_is_unop_postfix(t: TokView) -> bool {
    t is LeftParenthesis || t is LeftBracket
}

/// Tokens the expression loop folds as binary operators; the
/// assignment operator stands among them and is handled apart.
pub open spec fn spec_is_binop(t: TokView) -> bool {
    ||| t is Plus
    ||| t is Minus
    ||| t is NotEquals
    ||| t is Equals
    ||| t is GreaterThan
    ||| t is GreaterEquals
    ||| t is LessThan
    ||| t is LessEquals
    ||| t is BinaryAnd
    ||| t is LogicalAnd
    ||| t is BinaryOr
    ||| t is LogicalOr
    ||| t is Multiply
    ||| t is Divide
    ||| t is Modulo
    ||| t is Xor
    ||| t is ShiftRight
    ||| t is ShiftLeft
    ||| t is Assign
}

/// Compound reassignment operators; recognized but not yet folded by
/// the expression grammar.
pub open spec fn spec_is_reassignment_op(t: TokView) -> bool {
    t is PlusEquals || t is MinusEquals
}

/// True iff `tok` may open an expression.
pub fn is_expr_start(tok: &Token) -> (r: bool)
    ensures
        r == spec_is_expr_start(tok@),
{
    is_unop_start(tok)
}

/// True iff `tok` is an identifier.
pub fn is_ident(tok: &Token) -> (r: bool)
    ensures
        r == spec_is_ident(tok@),
{
    matches!(tok, Token::Identifier(_))
}

/// True iff `tok` is a literal (the null literal included).
pub fn is_literal(tok: &Token) -> (r: bool)
    ensures
        r == spec_is_literal(tok@),
{
    matches!(
        tok,
        Token::Null | Token::IntegerLiteral(_) | Token::DecimalLiteral(_)
            | Token::StringLiteral(_) | Token::CharacterLiteral(_) | Token::BooleanLiteral(_)
    )
}

/// True iff `tok` may open a unary expression.
pub fn is_unop_start(tok: &Token) -> (r: bool)
    ensures
        r == spec_is_unop_start(tok@),
{
    matches!(tok, Token::LeftParenthesis) || is_unop_prefix(tok) || is_ident(tok) || is_literal(
        tok,
    )
}

/// True iff `tok` is a prefix unary operator.
pub fn is_unop_prefix(tok: &Token) -> (r: bool)
    ensures
        r == spec_is_unop_prefix(tok@),
{
    matches!(tok, Token::BinaryNegate | Token::Minus | Token::Not)
}

/// True iff `tok` opens a postfix chain: a call or an index.
pub fn is_unop_postfix(tok: &Token) -> (r: bool)
    ensures
        r == spec_is_unop_postfix(tok@),
{
    matches!(tok, Token::LeftParenthesis | Token::LeftBracket)
}

/// True iff the expression loop folds `tok` as a binary operator.
pub fn is_binop(tok: &Token) -> (r: bool)
    ensures
        r == spec_is_binop(tok@),
{
    matches!(
        tok,
        Token::Plus | Token::Minus | Token::NotEquals | Token::Equals | Token::GreaterThan
            | Token::GreaterEquals | Token::LessThan | Token::LessEquals | Token::BinaryAnd
            | Token::LogicalAnd | Token::BinaryOr | Token::LogicalOr | Token::Multiply
            | Token::Divide | Token::Modulo | Token::Xor | Token::ShiftRight | Token::ShiftLeft
            | Token::Assign
    )
}

/// True iff `tok` is a compound reassignment operator.
pub fn is_reassignment_op(tok: &Token) -> (r: bool)
    ensures
        r == spec_is_reassignment_op(tok@),
{
    matches!(tok, Token::PlusEquals | Token::MinusEquals)
}

} // verus!
