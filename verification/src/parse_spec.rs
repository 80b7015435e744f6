use vstd::prelude::*;
use crate::token::TokView;
use crate::ast::{Block, Declaration, Expression, Identifier, Literal, Scope, Statement};
use crate::parse_error::ParseError;
use crate::token::spec_prec;
use crate::util::{
    spec_is_binop, spec_is_expr_start, spec_is_literal, spec_is_unop_postfix,
    spec_is_unop_prefix, spec_is_unop_start,
};

verus! {

broadcast use vstd::std_specs::vec::group_vec_axioms;

// ----- mathematical models of the syntax tree -----

/// Model of a scope tag.
pub ghost enum ScopeView {
    Global,
    Local(Seq<char>),
}

/// Model of a bound name.
pub ghost struct IdentView {
    pub name: Seq<char>,
    pub scope: ScopeView,
}

/// Model of a literal value.
pub ghost enum LitView {
    Str(Seq<char>),
    Int(int),
    Dec(Seq<char>),
    Char(char),
    Bool(bool),
    Null,
}

/// Model of an expression.
pub ghost enum ExprView {
    Literal(LitView),
    Value(IdentView),
    Member { target: Box<ExprView>, property: Box<ExprView> },
    Array { scope: ScopeView, elements: Seq<ExprView> },
    Assignment { lhs: Box<ExprView>, rhs: Box<ExprView> },
    Call { target: Box<ExprView>, args: Option<Seq<ExprView>> },
    Unary { prefix: Option<TokView>, operand: Box<ExprView> },
    Binary { lhs: Box<ExprView>, operation: TokView, rhs: Box<ExprView> },
}

/// Model of a statement.
#[allow(inconsistent_fields)]
pub ghost enum StmtView {
    If { condition: ExprView, body: BlockView, else_stmt: Option<Box<StmtView>> },
    While { condition: ExprView, body: BlockView },
    For {
        variable: Option<Box<StmtView>>,
        condition: Option<ExprView>,
        step: Option<ExprView>,
        body: BlockView,
    },
    Else { body: BlockView },
    Break,
    Continue,
    Block(BlockView),
    Return(ExprView),
    Expression(ExprView),
    Declaration(Box<DeclView>),
}

/// Model of a block.
pub ghost struct BlockView {
    pub scope: ScopeView,
    pub statements: Seq<StmtView>,
}

/// Model of a declaration.
pub ghost enum DeclView {
    Function { identifier: IdentView, arguments: Option<Seq<IdentView>>, body: BlockView },
    Variable { identifier: IdentView, value: Option<ExprView> },
}

/// Model of a syntax error.
pub ghost enum ParseErrView {
    BadExpression(TokView),
    BadStatement(TokView),
    BadAssignment,
    UnexpectedToken(TokView),
    SyntaxError,
    UnexpectedEOF,
}

// ----- views of the executable tree -----

/// The scope tag `sc` denotes.
pub open spec fn scope_view(sc: Scope) -> ScopeView {
    match sc {
        Scope::Global => ScopeView::Global,
        Scope::Local(n) => ScopeView::Local(n@),
    }
}

/// The label a scope tag denotes; the global scope reads `Global`.
pub open spec fn scope_label(sc: ScopeView) -> Seq<char> {
    match sc {
        ScopeView::Global => "Global"@,
        ScopeView::Local(n) => n,
    }
}

/// The bound name `x` denotes.
pub open spec fn ident_view(x: Identifier) -> IdentView {
    IdentView { name: x.name@, scope: scope_view(x.scope) }
}

/// The literal `l` denotes.
pub open spec fn lit_view(l: Literal) -> LitView {
    match l {
        Literal::String(s) => LitView::Str(s@),
        Literal::Integer(i) => LitView::Int(i as int),
        Literal::Decimal(d) => LitView::Dec(d@),
        Literal::Character(c) => LitView::Char(c),
        Literal::Boolean(b) => LitView::Bool(b),
        Literal::Null => LitView::Null,
    }
}

/// The argument names `ids` denote, in order.
pub open spec fn idents_of(ids: Seq<Identifier>) -> Seq<IdentView> {
    ids.map_values(|x: Identifier| ident_view(x))
}

/// The view of an optional prefix token.
pub open spec fn opt_tok_view(p: Option<crate::token::Token>) -> Option<TokView> {
    match p {
        Option::Some(t) => Option::Some(t@),
        Option::None => Option::None,
    }
}

/// Wraps an operand in a `Unary` node iff a prefix was consumed.
pub open spec fn wrap_unary(p: Option<TokView>, e: ExprView) -> ExprView {
    match p {
        Option::Some(t) => ExprView::Unary { prefix: Option::Some(t), operand: Box::new(e) },
        Option::None => e,
    }
}

/// The view of an optional nested statement.
pub open spec fn opt_box_stmt_view(v: Option<Box<Statement>>) -> Option<Box<StmtView>>
    decreases v,
{
    match v {
        Option::Some(bs) => Option::Some(Box::new(stmt_view(*bs))),
        Option::None => Option::None,
    }
}

/// The view of an optional expression.
pub open spec fn opt_expr_view(v: Option<Expression>) -> Option<ExprView>
    decreases v,
{
    match v {
        Option::Some(e) => Option::Some(expr_view(e)),
        Option::None => Option::None,
    }
}

/// The syntax error `e` denotes.
pub open spec fn err_view(e: ParseError) -> ParseErrView {
    match e {
        ParseError::BadExpression(t) => ParseErrView::BadExpression(t@),
        ParseError::BadStatement(t) => ParseErrView::BadStatement(t@),
        ParseError::BadAssignment => ParseErrView::BadAssignment,
        ParseError::UnexpectedToken(t) => ParseErrView::UnexpectedToken(t@),
        ParseError::SyntaxError => ParseErrView::SyntaxError,
        ParseError::UnexpectedEOF => ParseErrView::UnexpectedEOF,
    }
}

/// The expression `e` denotes.
pub open spec fn expr_view(e: Expression) -> ExprView
    decreases e,
{
    match e {
        Expression::Literal(l) => ExprView::Literal(lit_view(l)),
        Expression::Value(id) => ExprView::Value(ident_view(id)),
        Expression::Member { target, property } => ExprView::Member {
            target: Box::new(expr_view(*target)),
            property: Box::new(expr_view(*property)),
        },
        Expression::Array { scope, elements } => ExprView::Array {
            scope: scope_view(scope),
            elements: exprs_view(elements@),
        },
        Expression::Assignment { lhs, rhs } => ExprView::Assignment {
            lhs: Box::new(expr_view(*lhs)),
            rhs: Box::new(expr_view(*rhs)),
        },
        Expression::Call { target, args } => ExprView::Call {
            target: Box::new(expr_view(*target)),
            args: match args {
                Option::Some(v) => Option::Some(exprs_view(v@)),
                Option::None => Option::None,
            },
        },
        Expression::Unary { prefix, operand } => ExprView::Unary {
            prefix: match prefix {
                Option::Some(t) => Option::Some(t@),
                Option::None => Option::None,
            },
            operand: Box::new(expr_view(*operand)),
        },
        Expression::Binary { lhs, operation, rhs } => ExprView::Binary {
            lhs: Box::new(expr_view(*lhs)),
            operation: operation@,
            rhs: Box::new(expr_view(*rhs)),
        },
    }
}

/// The expressions `es` denote, in order.
pub open spec fn exprs_view(es: Seq<Expression>) -> Seq<ExprView>
    decreases es,
{
    if es.len() == 0 {
        Seq::empty()
    } else {
        seq![expr_view(es[0])] + exprs_view(es.drop_first())
    }
}

/// The statement `st` denotes.
pub open spec fn stmt_view(st: Statement) -> StmtView
    decreases st,
{
    match st {
        Statement::If { condition, body, else_stmt } => StmtView::If {
            condition: expr_view(condition),
            body: block_view(body),
            else_stmt: opt_box_stmt_view(else_stmt),
        },
        Statement::While { condition, body } => StmtView::While {
            condition: expr_view(condition),
            body: block_view(body),
        },
        Statement::For { variable, condition, step, body } => StmtView::For {
            variable: opt_box_stmt_view(variable),
            condition: opt_expr_view(condition),
            step: opt_expr_view(step),
            body: block_view(body),
        },
        Statement::Else { body } => StmtView::Else { body: block_view(body) },
        Statement::Break => StmtView::Break,
        Statement::Continue => StmtView::Continue,
        Statement::Block(b) => StmtView::Block(block_view(b)),
        Statement::Return(e) => StmtView::Return(expr_view(e)),
        Statement::Expression(e) => StmtView::Expression(expr_view(e)),
        Statement::Declaration(d) => StmtView::Declaration(Box::new(decl_view(d))),
    }
}

/// The statements `sts` denote, in order.
pub open spec fn stmts_view(sts: Seq<Statement>) -> Seq<StmtView>
    decreases sts,
{
    if sts.len() == 0 {
        Seq::empty()
    } else {
        seq![stmt_view(sts[0])] + stmts_view(sts.drop_first())
    }
}

/// The block `b` denotes.
pub open spec fn block_view(b: Block) -> BlockView
    decreases b,
{
    BlockView { scope: scope_view(b.scope), statements: stmts_view(b.statements@) }
}

/// The declaration `d` denotes.
pub open spec fn decl_view(d: Declaration) -> DeclView
    decreases d,
{
    match d {
        Declaration::Function { identifier, arguments, body } => DeclView::Function {
            identifier: ident_view(identifier),
            arguments: match arguments {
                Option::Some(v) => Option::Some(idents_of(v@)),
                Option::None => Option::None,
            },
            body: block_view(body),
        },
        Declaration::Variable { identifier, value } => DeclView::Variable {
            identifier: ident_view(identifier),
            value: match value {
                Option::Some(e) => Option::Some(expr_view(e)),
                Option::None => Option::None,
            },
        },
    }
}

/// The declarations `ds` denote, in order.
pub open spec fn decls_view(ds: Seq<Declaration>) -> Seq<DeclView>
    decreases ds,
{
    if ds.len() == 0 {
        Seq::empty()
    } else {
        seq![decl_view(ds[0])] + decls_view(ds.drop_first())
    }
}


// ----- the mathematical parser -----
//
// One spec function per production, over the token-view sequence and a
// position.  On success a production returns its view and a count
// `more`, having consumed exactly `1 + more` tokens; helper functions
// for iterated tails (`..._rest`, `sp_expr_more`, `sp_postfix_chain`)
// return the exact count of tokens they consumed, possibly zero.  The
// `1 + more` shape keeps the mutual recursion visibly well-founded.
// Positions past the end of the sequence never arise on real paths;
// the `i2 <= toks.len()` guards only keep the recursion well-founded.

/// The literal a literal token denotes.
pub open spec fn lit_of(t: TokView) -> LitView {
    match t {
        TokView::Null => LitView::Null,
        TokView::StringLiteral(s) => LitView::Str(s),
        TokView::CharacterLiteral(c) => LitView::Char(c),
        TokView::IntegerLiteral(i) => LitView::Int(i),
        TokView::DecimalLiteral(d) => LitView::Dec(d),
        TokView::BooleanLiteral(b) => LitView::Bool(b),
        _ => LitView::Null,
    }
}

/// One primary operand: a parenthesized group, a literal, or an
/// identifier reference bound to the current scope.
pub open spec fn sp_op(toks: Seq<TokView>, i: int, sc: ScopeView) -> Result<
    (ExprView, nat),
    ParseErrView,
>
    decreases toks.len() - i, 2int,
    when 0 <= i <= toks.len()
{
    if i >= toks.len() {
        Err(ParseErrView::UnexpectedEOF)
    } else if toks[i] == TokView::LeftParenthesis {
        sp_group(toks, i, sc)
    } else if spec_is_literal(toks[i]) {
        Ok((ExprView::Literal(lit_of(toks[i])), 0))
    } else if toks[i] matches TokView::Identifier(nm) {
        Ok((ExprView::Value(IdentView { name: toks[i]->Identifier_0, scope: sc }), 0))
    } else {
        Err(ParseErrView::BadExpression(toks[i]))
    }
}

/// A parenthesized sub-expression; the group adds no node of its own.
pub open spec fn sp_group(toks: Seq<TokView>, i: int, sc: ScopeView) -> Result<
    (ExprView, nat),
    ParseErrView,
>
    decreases toks.len() - i, 1int,
    when 0 <= i <= toks.len()
{
    if i >= toks.len() {
        Err(ParseErrView::UnexpectedEOF)
    } else if toks[i] != TokView::LeftParenthesis {
        Err(ParseErrView::UnexpectedToken(toks[i]))
    } else {
        match sp_expr(toks, i + 1, sc) {
            Ok((e, m)) => {
                let after = i + 2 + m;
                if after >= toks.len() {
                    Err(ParseErrView::UnexpectedEOF)
                } else if toks[after] != TokView::RightParenthesis {
                    Err(ParseErrView::UnexpectedToken(toks[after]))
                } else {
                    Ok((e, (2 + m) as nat))
                }
            },
            Err(e) => Err(e),
        }
    }
}

/// An index access: `[`, the index expression, `]`.
pub open spec fn sp_index(toks: Seq<TokView>, i: int, sc: ScopeView, target: ExprView) -> Result<
    (ExprView, nat),
    ParseErrView,
>
    decreases toks.len() - i, 1int,
    when 0 <= i <= toks.len()
{
    if i >= toks.len() {
        Err(ParseErrView::UnexpectedEOF)
    } else if toks[i] != TokView::LeftBracket {
        Err(ParseErrView::UnexpectedToken(toks[i]))
    } else {
        match sp_expr(toks, i + 1, sc) {
            Ok((e, m)) => {
                let after = i + 2 + m;
                if after >= toks.len() {
                    Err(ParseErrView::UnexpectedEOF)
                } else if toks[after] != TokView::RightBracket {
                    Err(ParseErrView::UnexpectedToken(toks[after]))
                } else {
                    Ok((
                        ExprView::Member { target: Box::new(target), property: Box::new(e) },
                        (2 + m) as nat,
                    ))
                }
            },
            Err(e) => Err(e),
        }
    }
}

/// A parenthesized, comma-separated argument-expression list: `None`
/// exactly for an immediately closed list, else the expressions in
/// source order; a separator must be followed by a value.
pub open spec fn sp_args_call(toks: Seq<TokView>, i: int, sc: ScopeView) -> Result<
    (Option<Seq<ExprView>>, nat),
    ParseErrView,
>
    decreases toks.len() - i, 1int,
    when 0 <= i <= toks.len()
{
    if i >= toks.len() {
        Err(ParseErrView::UnexpectedEOF)
    } else if toks[i] != TokView::LeftParenthesis {
        Err(ParseErrView::UnexpectedToken(toks[i]))
    } else if i + 1 < toks.len() && toks[i + 1] == TokView::RightParenthesis {
        Ok((Option::None, 1))
    } else {
        match sp_expr(toks, i + 1, sc) {
            Ok((e0, m)) => {
                let j = i + 2 + m;
                if j <= toks.len() {
                    match sp_args_call_rest(toks, j, sc, seq![e0]) {
                        Ok((es, m2)) => Ok((Option::Some(es), (2 + m + m2) as nat)),
                        Err(e) => Err(e),
                    }
                } else {
                    Err(ParseErrView::UnexpectedEOF)
                }
            },
            Err(e) => Err(e),
        }
    }
}

/// The tail of an argument-expression list, the closing `)` included.
pub open spec fn sp_args_call_rest(
    toks: Seq<TokView>,
    j: int,
    sc: ScopeView,
    acc: Seq<ExprView>,
) -> Result<(Seq<ExprView>, nat), ParseErrView>
    decreases toks.len() - j, 0int,
    when 0 <= j <= toks.len()
{
    if j >= toks.len() {
        Err(ParseErrView::UnexpectedEOF)
    } else if toks[j] == TokView::RightParenthesis {
        Ok((acc, 0))
    } else if toks[j] != TokView::Comma {
        Err(ParseErrView::UnexpectedToken(toks[j]))
    } else if j + 1 >= toks.len() {
        Err(ParseErrView::SyntaxError)
    } else if toks[j + 1] == TokView::RightParenthesis {
        Err(ParseErrView::SyntaxError)
    } else {
        match sp_expr(toks, j + 1, sc) {
            Ok((e, m)) => {
                let j2 = j + 2 + m;
                if j2 <= toks.len() {
                    match sp_args_call_rest(toks, j2, sc, acc.push(e)) {
                        Ok((es, x)) => Ok((es, (2 + m + x) as nat)),
                        Err(e2) => Err(e2),
                    }
                } else {
                    Err(ParseErrView::UnexpectedEOF)
                }
            },
            Err(e) => Err(e),
        }
    }
}

/// One postfix application: a call on `(`, an index on `[`.
pub open spec fn sp_postfix(toks: Seq<TokView>, i: int, sc: ScopeView, target: ExprView) -> Result<
    (ExprView, nat),
    ParseErrView,
>
    decreases toks.len() - i, 2int,
    when 0 <= i <= toks.len()
{
    if i >= toks.len() {
        Err(ParseErrView::UnexpectedEOF)
    } else if toks[i] == TokView::LeftParenthesis {
        match sp_args_call(toks, i, sc) {
            Ok((args, m)) => Ok((ExprView::Call { target: Box::new(target), args }, m)),
            Err(e) => Err(e),
        }
    } else if toks[i] == TokView::LeftBracket {
        sp_index(toks, i, sc, target)
    } else {
        Err(ParseErrView::BadExpression(toks[i]))
    }
}

/// The postfix chain after a primary: every immediately following `(`
/// or `[` applied left-associatively.  Returns the exact count of
/// tokens consumed, possibly zero.
pub open spec fn sp_postfix_chain(
    toks: Seq<TokView>,
    i: int,
    sc: ScopeView,
    acc: ExprView,
) -> Result<(ExprView, nat), ParseErrView>
    decreases toks.len() - i, 3int,
    when 0 <= i <= toks.len()
{
    if i >= toks.len() {
        Ok((acc, 0))
    } else if !spec_is_unop_postfix(toks[i]) {
        Ok((acc, 0))
    } else {
        match sp_postfix(toks, i, sc, acc) {
            Ok((e2, m)) => {
                let i2 = i + 1 + m;
                if i2 <= toks.len() {
                    match sp_postfix_chain(toks, i2, sc, e2) {
                        Ok((e3, x)) => Ok((e3, (1 + m + x) as nat)),
                        Err(e) => Err(e),
                    }
                } else {
                    Err(ParseErrView::UnexpectedEOF)
                }
            },
            Err(e) => Err(e),
        }
    }
}

/// One unary expression: an optional prefix (a further prefix
/// recurses), one primary, the postfix chain, and a `Unary` wrapper
/// iff a prefix was consumed.
pub open spec fn sp_unary(toks: Seq<TokView>, i: int, sc: ScopeView) -> Result<
    (ExprView, nat),
    ParseErrView,
>
    decreases toks.len() - i, 4int,
    when 0 <= i <= toks.len()
{
    if i < toks.len() && spec_is_unop_prefix(toks[i]) {
        let inner = if i + 1 < toks.len() && spec_is_unop_prefix(toks[i + 1]) {
            sp_unary(toks, i + 1, sc)
        } else {
            sp_op(toks, i + 1, sc)
        };
        match inner {
            Ok((opx, m)) => {
                let p = i + 2 + m;
                if p <= toks.len() {
                    match sp_postfix_chain(toks, p, sc, opx) {
                        Ok((chained, x)) => Ok((
                            ExprView::Unary {
                                prefix: Option::Some(toks[i]),
                                operand: Box::new(chained),
                            },
                            (1 + m + x) as nat,
                        )),
                        Err(e) => Err(e),
                    }
                } else {
                    Err(ParseErrView::UnexpectedEOF)
                }
            },
            Err(e) => Err(e),
        }
    } else {
        match sp_op(toks, i, sc) {
            Ok((opx, m)) => {
                let p = i + 1 + m;
                if p <= toks.len() {
                    match sp_postfix_chain(toks, p, sc, opx) {
                        Ok((chained, x)) => Ok((chained, (m + x) as nat)),
                        Err(e) => Err(e),
                    }
                } else {
                    Err(ParseErrView::UnexpectedEOF)
                }
            },
            Err(e) => Err(e),
        }
    }
}

/// One binary application, climbing: consume the operator and a right
/// operand; a strictly higher-precedence lookahead re-resolves the
/// right side, an equal one folds the node built so far as the new
/// left side, a lower one stops.
pub open spec fn sp_binary(toks: Seq<TokView>, i: int, sc: ScopeView, lhs: ExprView) -> Result<
    (ExprView, nat),
    ParseErrView,
>
    decreases toks.len() - i, 5int,
    when 0 <= i <= toks.len()
{
    if i >= toks.len() {
        Err(ParseErrView::UnexpectedEOF)
    } else {
        let op = toks[i];
        match sp_unary(toks, i + 1, sc) {
            Ok((rhs, m)) => {
                let after = i + 2 + m;
                if after < toks.len() && spec_prec(toks[after]) > spec_prec(op) {
                    match sp_binary(toks, after, sc, rhs) {
                        Ok((rhs2, m2)) => Ok((
                            ExprView::Binary {
                                lhs: Box::new(lhs),
                                operation: op,
                                rhs: Box::new(rhs2),
                            },
                            (2 + m + m2) as nat,
                        )),
                        Err(e) => Err(e),
                    }
                } else if after < toks.len() && spec_prec(toks[after]) == spec_prec(op) {
                    match sp_binary(
                        toks,
                        after,
                        sc,
                        ExprView::Binary { lhs: Box::new(lhs), operation: op, rhs: Box::new(rhs) },
                    ) {
                        Ok((res, m2)) => Ok((res, (2 + m + m2) as nat)),
                        Err(e) => Err(e),
                    }
                } else {
                    Ok((
                        ExprView::Binary { lhs: Box::new(lhs), operation: op, rhs: Box::new(rhs) },
                        (1 + m) as nat,
                    ))
                }
            },
            Err(e) => Err(e),
        }
    }
}

/// Folds `lhs := rhs`: valid only when the accumulated left side is a
/// bare identifier reference.
pub open spec fn sp_reassignment(
    toks: Seq<TokView>,
    i: int,
    sc: ScopeView,
    lhs: ExprView,
) -> Result<(ExprView, nat), ParseErrView>
    decreases toks.len() - i, 5int,
    when 0 <= i <= toks.len()
{
    if !(lhs is Value) {
        Err(ParseErrView::BadAssignment)
    } else if i >= toks.len() {
        Err(ParseErrView::UnexpectedEOF)
    } else if toks[i] != TokView::Assign {
        Err(ParseErrView::UnexpectedToken(toks[i]))
    } else {
        match sp_expr(toks, i + 1, sc) {
            Ok((rhs, m)) => Ok((
                ExprView::Assignment { lhs: Box::new(lhs), rhs: Box::new(rhs) },
                (1 + m) as nat,
            )),
            Err(e) => Err(e),
        }
    }
}

/// The binary/assignment tail of an expression: while the lookahead is
/// a binary operator, fold one more application.  Returns the exact
/// count of tokens consumed, possibly zero.
pub open spec fn sp_expr_more(toks: Seq<TokView>, i: int, sc: ScopeView, acc: ExprView) -> Result<
    (ExprView, nat),
    ParseErrView,
>
    decreases toks.len() - i, 6int,
    when 0 <= i <= toks.len()
{
    if i >= toks.len() {
        Ok((acc, 0))
    } else if !spec_is_binop(toks[i]) {
        Ok((acc, 0))
    } else {
        let folded = if toks[i] == TokView::Assign {
            sp_reassignment(toks, i, sc, acc)
        } else {
            sp_binary(toks, i, sc, acc)
        };
        match folded {
            Ok((e2, m)) => {
                let i2 = i + 1 + m;
                if i2 <= toks.len() {
                    match sp_expr_more(toks, i2, sc, e2) {
                        Ok((e3, x)) => Ok((e3, (1 + m + x) as nat)),
                        Err(e) => Err(e),
                    }
                } else {
                    Err(ParseErrView::UnexpectedEOF)
                }
            },
            Err(e) => Err(e),
        }
    }
}

/// One expression: a unary expression, then the binary/assignment
/// tail.
pub open spec fn sp_expr(toks: Seq<TokView>, i: int, sc: ScopeView) -> Result<
    (ExprView, nat),
    ParseErrView,
>
    decreases toks.len() - i, 7int,
    when 0 <= i <= toks.len()
{
    if i >= toks.len() {
        Err(ParseErrView::UnexpectedEOF)
    } else if !spec_is_unop_start(toks[i]) {
        Err(ParseErrView::BadExpression(toks[i]))
    } else {
        match sp_unary(toks, i, sc) {
            Ok((u, m)) => {
                let j = i + 1 + m;
                if j <= toks.len() {
                    match sp_expr_more(toks, j, sc, u) {
                        Ok((e, x)) => Ok((e, (m + x) as nat)),
                        Err(e2) => Err(e2),
                    }
                } else {
                    Err(ParseErrView::UnexpectedEOF)
                }
            },
            Err(e) => Err(e),
        }
    }
}


/// A parenthesized condition expression.
pub open spec fn sp_condition(toks: Seq<TokView>, i: int, sc: ScopeView) -> Result<
    (ExprView, nat),
    ParseErrView,
>
    decreases toks.len() - i, 8int,
    when 0 <= i <= toks.len()
{
    if i >= toks.len() {
        Err(ParseErrView::UnexpectedEOF)
    } else if toks[i] != TokView::LeftParenthesis {
        Err(ParseErrView::UnexpectedToken(toks[i]))
    } else {
        match sp_expr(toks, i + 1, sc) {
            Ok((e, m)) => {
                let after = i + 2 + m;
                if after >= toks.len() {
                    Err(ParseErrView::UnexpectedEOF)
                } else if toks[after] != TokView::RightParenthesis {
                    Err(ParseErrView::UnexpectedToken(toks[after]))
                } else {
                    Ok((e, (2 + m) as nat))
                }
            },
            Err(e) => Err(e),
        }
    }
}

/// `return` followed by the returned expression.
pub open spec fn sp_return(toks: Seq<TokView>, i: int, sc: ScopeView) -> Result<
    (ExprView, nat),
    ParseErrView,
>
    decreases toks.len() - i, 8int,
    when 0 <= i <= toks.len()
{
    if i >= toks.len() {
        Err(ParseErrView::UnexpectedEOF)
    } else if toks[i] != TokView::Return {
        Err(ParseErrView::UnexpectedToken(toks[i]))
    } else {
        match sp_expr(toks, i + 1, sc) {
            Ok((e, m)) => Ok((e, (1 + m) as nat)),
            Err(e) => Err(e),
        }
    }
}

/// A parenthesized, comma-separated argument-name list: `None` exactly
/// for an immediately closed list, each name bound under the given
/// scope; a separator must be followed by a name.
pub open spec fn sp_args_decl(toks: Seq<TokView>, i: int, sc: ScopeView) -> Result<
    (Option<Seq<IdentView>>, nat),
    ParseErrView,
>
    decreases toks.len() - i, 8int,
    when 0 <= i <= toks.len()
{
    if i >= toks.len() {
        Err(ParseErrView::UnexpectedEOF)
    } else if toks[i] != TokView::LeftParenthesis {
        Err(ParseErrView::UnexpectedToken(toks[i]))
    } else if i + 1 < toks.len() && toks[i + 1] == TokView::RightParenthesis {
        Ok((Option::None, 1))
    } else if i + 1 >= toks.len() {
        Err(ParseErrView::UnexpectedEOF)
    } else if toks[i + 1] matches TokView::Identifier(_) {
        match sp_args_decl_rest(
            toks,
            i + 2,
            sc,
            seq![IdentView { name: toks[i + 1]->Identifier_0, scope: sc }],
        ) {
            Ok((ids, m2)) => Ok((Option::Some(ids), (2 + m2) as nat)),
            Err(e) => Err(e),
        }
    } else {
        Err(ParseErrView::BadAssignment)
    }
}

/// The tail of an argument-name list, the closing `)` included.
pub open spec fn sp_args_decl_rest(
    toks: Seq<TokView>,
    j: int,
    sc: ScopeView,
    acc: Seq<IdentView>,
) -> Result<(Seq<IdentView>, nat), ParseErrView>
    decreases toks.len() - j, 7int,
    when 0 <= j <= toks.len()
{
    if j >= toks.len() {
        Err(ParseErrView::UnexpectedEOF)
    } else if toks[j] == TokView::RightParenthesis {
        Ok((acc, 0))
    } else if toks[j] != TokView::Comma {
        Err(ParseErrView::UnexpectedToken(toks[j]))
    } else if j + 1 >= toks.len() {
        Err(ParseErrView::SyntaxError)
    } else if toks[j + 1] == TokView::RightParenthesis {
        Err(ParseErrView::SyntaxError)
    } else if toks[j + 1] matches TokView::Identifier(_) {
        match sp_args_decl_rest(
            toks,
            j + 2,
            sc,
            acc.push(IdentView { name: toks[j + 1]->Identifier_0, scope: sc }),
        ) {
            Ok((ids, x)) => Ok((ids, (2 + x) as nat)),
            Err(e) => Err(e),
        }
    } else {
        Err(ParseErrView::BadAssignment)
    }
}

/// `[`, comma-separated element expressions, `]`, tagged with the
/// enclosing scope; a separator must be followed by an element.
pub open spec fn sp_array_decl(toks: Seq<TokView>, i: int, sc: ScopeView) -> Result<
    (ExprView, nat),
    ParseErrView,
>
    decreases toks.len() - i, 8int,
    when 0 <= i <= toks.len()
{
    if i >= toks.len() {
        Err(ParseErrView::UnexpectedEOF)
    } else if toks[i] != TokView::LeftBracket {
        Err(ParseErrView::UnexpectedToken(toks[i]))
    } else if i + 1 < toks.len() && toks[i + 1] == TokView::RightBracket {
        Ok((ExprView::Array { scope: sc, elements: Seq::empty() }, 1))
    } else {
        match sp_expr(toks, i + 1, sc) {
            Ok((e0, m)) => {
                let j = i + 2 + m;
                if j <= toks.len() {
                    match sp_array_rest(toks, j, sc, seq![e0]) {
                        Ok((es, m2)) => Ok((
                            ExprView::Array { scope: sc, elements: es },
                            (2 + m + m2) as nat,
                        )),
                        Err(e) => Err(e),
                    }
                } else {
                    Err(ParseErrView::UnexpectedEOF)
                }
            },
            Err(e) => Err(e),
        }
    }
}

/// The tail of an array-element list, the closing `]` included.
pub open spec fn sp_array_rest(
    toks: Seq<TokView>,
    j: int,
    sc: ScopeView,
    acc: Seq<ExprView>,
) -> Result<(Seq<ExprView>, nat), ParseErrView>
    decreases toks.len() - j, 7int,
    when 0 <= j <= toks.len()
{
    if j >= toks.len() {
        Err(ParseErrView::UnexpectedEOF)
    } else if toks[j] == TokView::RightBracket {
        Ok((acc, 0))
    } else if toks[j] != TokView::Comma {
        Err(ParseErrView::UnexpectedToken(toks[j]))
    } else if j + 1 >= toks.len() {
        Err(ParseErrView::SyntaxError)
    } else if toks[j + 1] == TokView::RightBracket {
        Err(ParseErrView::SyntaxError)
    } else {
        match sp_expr(toks, j + 1, sc) {
            Ok((e, m)) => {
                let j2 = j + 2 + m;
                if j2 <= toks.len() {
                    match sp_array_rest(toks, j2, sc, acc.push(e)) {
                        Ok((es, x)) => Ok((es, (2 + m + x) as nat)),
                        Err(e2) => Err(e2),
                    }
                } else {
                    Err(ParseErrView::UnexpectedEOF)
                }
            },
            Err(e) => Err(e),
        }
    }
}

/// `let`, a name bound under the given scope, and either nothing
/// (awaiting `;`), or `:=` followed by an array literal or a general
/// expression.
pub open spec fn sp_variable_decl(toks: Seq<TokView>, i: int, sc: ScopeView) -> Result<
    (DeclView, nat),
    ParseErrView,
>
    decreases toks.len() - i, 8int,
    when 0 <= i <= toks.len()
{
    if i >= toks.len() {
        Err(ParseErrView::UnexpectedEOF)
    } else if toks[i] != TokView::Let {
        Err(ParseErrView::UnexpectedToken(toks[i]))
    } else if i + 1 >= toks.len() {
        Err(ParseErrView::UnexpectedEOF)
    } else if !(toks[i + 1] matches TokView::Identifier(_)) {
        Err(ParseErrView::BadAssignment)
    } else {
        let identifier = IdentView { name: toks[i + 1]->Identifier_0, scope: sc };
        if i + 2 < toks.len() && toks[i + 2] == TokView::Semicolon {
            Ok((DeclView::Variable { identifier, value: Option::None }, 1))
        } else if i + 2 < toks.len() && toks[i + 2] == TokView::Assign {
            if i + 3 >= toks.len() {
                Err(ParseErrView::UnexpectedEOF)
            } else {
                let val = if toks[i + 3] == TokView::LeftBracket {
                    sp_array_decl(toks, i + 3, sc)
                } else {
                    sp_expr(toks, i + 3, sc)
                };
                match val {
                    Ok((e, m)) => Ok((
                        DeclView::Variable { identifier, value: Option::Some(e) },
                        (3 + m) as nat,
                    )),
                    Err(e) => Err(e),
                }
            }
        } else {
            Err(ParseErrView::BadAssignment)
        }
    }
}

/// `func`, a name bound under the caller's scope, an argument list and
/// a body, the latter two under a local scope that extends the
/// enclosing scope's label with the function name.
pub open spec fn sp_func_decl(toks: Seq<TokView>, i: int, sc: ScopeView) -> Result<
    (DeclView, nat),
    ParseErrView,
>
    decreases toks.len() - i, 8int,
    when 0 <= i <= toks.len()
{
    if i >= toks.len() {
        Err(ParseErrView::UnexpectedEOF)
    } else if toks[i] != TokView::Func {
        Err(ParseErrView::UnexpectedToken(toks[i]))
    } else if i + 1 >= toks.len() {
        Err(ParseErrView::UnexpectedEOF)
    } else if !(toks[i + 1] matches TokView::Identifier(_)) {
        Err(ParseErrView::BadAssignment)
    } else {
        let nm = toks[i + 1]->Identifier_0;
        let fsc = ScopeView::Local(scope_label(sc) + nm);
        match sp_args_decl(toks, i + 2, fsc) {
            Ok((args, m1)) => {
                let j = i + 3 + m1;
                if j <= toks.len() {
                    match sp_block(toks, j, fsc) {
                        Ok((b, m2)) => Ok((
                            DeclView::Function {
                                identifier: IdentView { name: nm, scope: sc },
                                arguments: args,
                                body: b,
                            },
                            (3 + m1 + m2) as nat,
                        )),
                        Err(e) => Err(e),
                    }
                } else {
                    Err(ParseErrView::UnexpectedEOF)
                }
            },
            Err(e) => Err(e),
        }
    }
}

/// `{`, statements until `}`, then `}`, under the given scope.
pub open spec fn sp_block(toks: Seq<TokView>, i: int, sc: ScopeView) -> Result<
    (BlockView, nat),
    ParseErrView,
>
    decreases toks.len() - i, 9int,
    when 0 <= i <= toks.len()
{
    if i >= toks.len() {
        Err(ParseErrView::UnexpectedEOF)
    } else if toks[i] != TokView::LeftBrace {
        Err(ParseErrView::UnexpectedToken(toks[i]))
    } else {
        match sp_stmts(toks, i + 1, sc) {
            Ok((sts, m)) => Ok((BlockView { scope: sc, statements: sts }, (1 + m) as nat)),
            Err(e) => Err(e),
        }
    }
}

/// The statements of a block, the closing `}` included: the one
/// token beyond `more` that the consumed-count convention grants
/// every production is, here, the closing brace itself.
pub open spec fn sp_stmts(toks: Seq<TokView>, j: int, sc: ScopeView) -> Result<
    (Seq<StmtView>, nat),
    ParseErrView,
>
    decreases toks.len() - j, 11int,
    when 0 <= j <= toks.len()
{
    if j >= toks.len() {
        Err(ParseErrView::UnexpectedEOF)
    } else if toks[j] == TokView::RightBrace {
        Ok((Seq::empty(), 0))
    } else {
        match sp_stmt(toks, j, sc) {
            Ok((st, m)) => {
                let j2 = j + 1 + m;
                if j2 <= toks.len() {
                    match sp_stmts(toks, j2, sc) {
                        Ok((rest, m2)) => Ok((seq![st] + rest, (1 + m + m2) as nat)),
                        Err(e) => Err(e),
                    }
                } else {
                    Err(ParseErrView::UnexpectedEOF)
                }
            },
            Err(e) => Err(e),
        }
    }
}

/// `if (condition) { body }` with an optional `else` clause; the body
/// lives under a scope suffixed `_if`, the `else` clause under the
/// unchanged parent scope.
pub open spec fn sp_if(toks: Seq<TokView>, i: int, sc: ScopeView) -> Result<
    (StmtView, nat),
    ParseErrView,
>
    decreases toks.len() - i, 8int,
    when 0 <= i <= toks.len()
{
    if i >= toks.len() {
        Err(ParseErrView::UnexpectedEOF)
    } else if toks[i] != TokView::If {
        Err(ParseErrView::UnexpectedToken(toks[i]))
    } else {
        match sp_condition(toks, i + 1, sc) {
            Ok((c, mc)) => {
                let bp = i + 2 + mc;
                if bp <= toks.len() {
                    match sp_block(toks, bp, ScopeView::Local(scope_label(sc) + "_if"@)) {
                        Ok((b, mb)) => {
                            let after = bp + 1 + mb;
                            if after < toks.len() && toks[after] == TokView::Else {
                                match sp_else(toks, after, sc) {
                                    Ok((es, me)) => Ok((
                                        StmtView::If {
                                            condition: c,
                                            body: b,
                                            else_stmt: Option::Some(Box::new(es)),
                                        },
                                        (3 + mc + mb + me) as nat,
                                    )),
                                    Err(e) => Err(e),
                                }
                            } else {
                                Ok((
                                    StmtView::If {
                                        condition: c,
                                        body: b,
                                        else_stmt: Option::None,
                                    },
                                    (2 + mc + mb) as nat,
                                ))
                            }
                        },
                        Err(e) => Err(e),
                    }
                } else {
                    Err(ParseErrView::UnexpectedEOF)
                }
            },
            Err(e) => Err(e),
        }
    }
}

/// An `else` clause: a bare block or a chained `if`, under the
/// unchanged parent scope.
pub open spec fn sp_else(toks: Seq<TokView>, i: int, sc: ScopeView) -> Result<
    (StmtView, nat),
    ParseErrView,
>
    decreases toks.len() - i, 9int,
    when 0 <= i <= toks.len()
{
    if i >= toks.len() {
        Err(ParseErrView::UnexpectedEOF)
    } else if toks[i] != TokView::Else {
        Err(ParseErrView::UnexpectedToken(toks[i]))
    } else if i + 1 >= toks.len() {
        Err(ParseErrView::UnexpectedEOF)
    } else if toks[i + 1] == TokView::LeftBrace {
        match sp_block(toks, i + 1, sc) {
            Ok((b, m)) => Ok((StmtView::Block(b), (1 + m) as nat)),
            Err(e) => Err(e),
        }
    } else if toks[i + 1] == TokView::If {
        match sp_if(toks, i + 1, sc) {
            Ok((st, m)) => Ok((st, (1 + m) as nat)),
            Err(e) => Err(e),
        }
    } else {
        Err(ParseErrView::BadStatement(toks[i + 1]))
    }
}

/// `while (condition) { body }`; the body lives under a scope suffixed
/// `_while`.
pub open spec fn sp_while(toks: Seq<TokView>, i: int, sc: ScopeView) -> Result<
    (StmtView, nat),
    ParseErrView,
>
    decreases toks.len() - i, 8int,
    when 0 <= i <= toks.len()
{
    if i >= toks.len() {
        Err(ParseErrView::UnexpectedEOF)
    } else if toks[i] != TokView::While {
        Err(ParseErrView::UnexpectedToken(toks[i]))
    } else {
        match sp_condition(toks, i + 1, sc) {
            Ok((c, mc)) => {
                let bp = i + 2 + mc;
                if bp <= toks.len() {
                    match sp_block(toks, bp, ScopeView::Local(scope_label(sc) + "_while"@)) {
                        Ok((b, mb)) => Ok((
                            StmtView::While { condition: c, body: b },
                            (2 + mc + mb) as nat,
                        )),
                        Err(e) => Err(e),
                    }
                } else {
                    Err(ParseErrView::UnexpectedEOF)
                }
            },
            Err(e) => Err(e),
        }
    }
}

/// The optional init of a `for` header: a `let` declaration, a bare
/// identifier expression, or nothing.  Returns the exact count of
/// tokens consumed, possibly zero.
pub open spec fn sp_for_var(toks: Seq<TokView>, v0: int, fsc: ScopeView) -> Result<
    (Option<Box<StmtView>>, nat),
    ParseErrView,
>
    decreases toks.len() - v0, 9int,
    when 0 <= v0 <= toks.len()
{
    if v0 < toks.len() && toks[v0] == TokView::Let {
        match sp_variable_decl(toks, v0, fsc) {
            Ok((d, m)) => Ok((
                Option::Some(Box::new(StmtView::Declaration(Box::new(d)))),
                (1 + m) as nat,
            )),
            Err(e) => Err(e),
        }
    } else if v0 < toks.len() && toks[v0] matches TokView::Identifier(_) {
        Ok((
            Option::Some(Box::new(StmtView::Expression(ExprView::Value(IdentView {
                name: toks[v0]->Identifier_0,
                scope: fsc,
            })))),
            1,
        ))
    } else {
        Ok((Option::None, 0))
    }
}

/// An optional expression in a `for` header, absent exactly when the
/// closing token stands first.  Returns the exact count of tokens
/// consumed, possibly zero.
pub open spec fn sp_for_opt_expr(
    toks: Seq<TokView>,
    p: int,
    fsc: ScopeView,
    closer: TokView,
) -> Result<(Option<ExprView>, nat), ParseErrView>
    decreases toks.len() - p, 8int,
    when 0 <= p <= toks.len()
{
    if p >= toks.len() {
        Err(ParseErrView::UnexpectedEOF)
    } else if toks[p] == closer {
        Ok((Option::None, 0))
    } else if spec_is_expr_start(toks[p]) {
        match sp_expr(toks, p, fsc) {
            Ok((e, m)) => Ok((Option::Some(e), (1 + m) as nat)),
            Err(e) => Err(e),
        }
    } else {
        Err(ParseErrView::SyntaxError)
    }
}

/// `for (init; condition; step) { body }`: init, condition and step
/// live under a scope suffixed `_for`; the body stays under the parent
/// scope.
pub open spec fn sp_for(toks: Seq<TokView>, i: int, sc: ScopeView) -> Result<
    (StmtView, nat),
    ParseErrView,
>
    decreases toks.len() - i, 8int,
    when 0 <= i <= toks.len()
{
    if i >= toks.len() {
        Err(ParseErrView::UnexpectedEOF)
    } else if toks[i] != TokView::For {
        Err(ParseErrView::UnexpectedToken(toks[i]))
    } else if i + 1 >= toks.len() {
        Err(ParseErrView::UnexpectedEOF)
    } else if toks[i + 1] != TokView::LeftParenthesis {
        Err(ParseErrView::UnexpectedToken(toks[i + 1]))
    } else {
        let fsc = ScopeView::Local(scope_label(sc) + "_for"@);
        match sp_for_var(toks, i + 2, fsc) {
            Ok((variable, vc)) => {
                let p1 = i + 2 + vc;
                if p1 >= toks.len() {
                    Err(ParseErrView::UnexpectedEOF)
                } else if toks[p1] != TokView::Semicolon {
                    Err(ParseErrView::UnexpectedToken(toks[p1]))
                } else {
                    match sp_for_opt_expr(toks, p1 + 1, fsc, TokView::Semicolon) {
                        Ok((condition, cc)) => {
                            let p3 = p1 + 1 + cc;
                            if p3 >= toks.len() {
                                Err(ParseErrView::UnexpectedEOF)
                            } else if toks[p3] != TokView::Semicolon {
                                Err(ParseErrView::UnexpectedToken(toks[p3]))
                            } else {
                                match sp_for_opt_expr(
                                    toks,
                                    p3 + 1,
                                    fsc,
                                    TokView::RightParenthesis,
                                ) {
                                    Ok((step, sn)) => {
                                        let p5 = p3 + 1 + sn;
                                        if p5 >= toks.len() {
                                            Err(ParseErrView::UnexpectedEOF)
                                        } else if toks[p5] != TokView::RightParenthesis {
                                            Err(ParseErrView::UnexpectedToken(toks[p5]))
                                        } else {
                                            let p6 = p5 + 1;
                                            if p6 <= toks.len() {
                                                match sp_block(toks, p6, sc) {
                                                    Ok((b, mb)) => Ok((
                                                        StmtView::For {
                                                            variable,
                                                            condition,
                                                            step,
                                                            body: b,
                                                        },
                                                        (5 + vc + cc + sn + mb) as nat,
                                                    )),
                                                    Err(e) => Err(e),
                                                }
                                            } else {
                                                Err(ParseErrView::UnexpectedEOF)
                                            }
                                        }
                                    },
                                    Err(e) => Err(e),
                                }
                            }
                        },
                        Err(e) => Err(e),
                    }
                }
            },
            Err(e) => Err(e),
        }
    }
}

/// One statement, dispatched on a single token of lookahead, with a
/// trailing semicolon consumed if present.
pub open spec fn sp_stmt(toks: Seq<TokView>, i: int, sc: ScopeView) -> Result<
    (StmtView, nat),
    ParseErrView,
>
    decreases toks.len() - i, 10int,
    when 0 <= i <= toks.len()
{
    if i >= toks.len() {
        Err(ParseErrView::UnexpectedEOF)
    } else {
        let t0 = toks[i];
        let base: Result<(StmtView, nat), ParseErrView> = if spec_is_expr_start(t0) {
            match sp_expr(toks, i, sc) {
                Ok((e, m)) => Ok((StmtView::Expression(e), m)),
                Err(e) => Err(e),
            }
        } else if t0 == TokView::Let {
            match sp_variable_decl(toks, i, sc) {
                Ok((d, m)) => Ok((StmtView::Declaration(Box::new(d)), m)),
                Err(e) => Err(e),
            }
        } else if t0 == TokView::Func {
            match sp_func_decl(toks, i, sc) {
                Ok((d, m)) => Ok((StmtView::Declaration(Box::new(d)), m)),
                Err(e) => Err(e),
            }
        } else if t0 == TokView::If {
            sp_if(toks, i, sc)
        } else if t0 == TokView::While {
            sp_while(toks, i, sc)
        } else if t0 == TokView::For {
            sp_for(toks, i, sc)
        } else if t0 == TokView::Break {
            Ok((StmtView::Break, 0))
        } else if t0 == TokView::Continue {
            Ok((StmtView::Continue, 0))
        } else if t0 == TokView::LeftBrace {
            match sp_block(toks, i, sc) {
                Ok((b, m)) => Ok((StmtView::Block(b), m)),
                Err(e) => Err(e),
            }
        } else if t0 == TokView::Return {
            match sp_return(toks, i, sc) {
                Ok((e, m)) => Ok((StmtView::Return(e), m)),
                Err(e) => Err(e),
            }
        } else {
            Err(ParseErrView::UnexpectedToken(t0))
        };
        match base {
            Ok((st, m)) => {
                let after = i + 1 + m;
                if after < toks.len() && toks[after] == TokView::Semicolon {
                    Ok((st, (m + 1) as nat))
                } else {
                    Ok((st, m))
                }
            },
            Err(e) => Err(e),
        }
    }
}

/// The whole program: top-level `func` and `let` declarations, each
/// optionally followed by a semicolon, until the sequence or an end
/// marker is reached.
pub open spec fn sp_program(toks: Seq<TokView>, i: int) -> Result<Seq<DeclView>, ParseErrView>
    decreases toks.len() - i, 12int,
    when 0 <= i <= toks.len()
{
    if i >= toks.len() {
        Ok(Seq::empty())
    } else if toks[i] == TokView::EOF {
        Ok(Seq::empty())
    } else if toks[i] == TokView::Func || toks[i] == TokView::Let {
        let d_res = if toks[i] == TokView::Func {
            sp_func_decl(toks, i, ScopeView::Global)
        } else {
            sp_variable_decl(toks, i, ScopeView::Global)
        };
        match d_res {
            Ok((d, m)) => {
                let after = i + 1 + m;
                let j = if after < toks.len() && toks[after] == TokView::Semicolon {
                    after + 1
                } else {
                    after
                };
                if j <= toks.len() {
                    match sp_program(toks, j) {
                        Ok(ds) => Ok(seq![d] + ds),
                        Err(e) => Err(e),
                    }
                } else {
                    Err(ParseErrView::UnexpectedEOF)
                }
            },
            Err(e) => Err(e),
        }
    } else {
        Err(ParseErrView::UnexpectedToken(toks[i]))
    }
}


// ----- composition helpers for the executable parser's loops -----

/// Adds an already-consumed count onto the outcome of an expression
/// tail.
pub open spec fn lift_expr(b: nat, r: Result<(ExprView, nat), ParseErrView>) -> Result<
    (ExprView, nat),
    ParseErrView,
> {
    match r {
        Ok((e, x)) => Ok((e, (b + x) as nat)),
        Err(er) => Err(er),
    }
}





/// Appending an expression extends its sequence's view at the end.
pub proof fn lemma_exprs_view_push(es: Seq<Expression>, e: Expression)
    ensures
        exprs_view(es.push(e)) == exprs_view(es).push(expr_view(e)),
    decreases es.len(),
{
    if es.len() == 0 {
        assert(es.push(e)[0] == e);
        assert(es.push(e).drop_first() =~= Seq::<Expression>::empty());
        assert(exprs_view(Seq::<Expression>::empty()) == Seq::<ExprView>::empty());
        assert(exprs_view(es.push(e)) == seq![expr_view(e)] + Seq::<ExprView>::empty());
        assert(seq![expr_view(e)] + Seq::<ExprView>::empty() =~= Seq::<ExprView>::empty().push(
            expr_view(e),
        ));
    } else {
        assert(es.push(e)[0] == es[0]);
        assert(es.push(e).drop_first() =~= es.drop_first().push(e));
        lemma_exprs_view_push(es.drop_first(), e);
        assert(exprs_view(es.push(e)) == seq![expr_view(es[0])] + exprs_view(
            es.drop_first(),
        ).push(expr_view(e)));
        assert(seq![expr_view(es[0])] + exprs_view(es.drop_first()).push(expr_view(e)) =~= (seq![
            expr_view(es[0]),
        ] + exprs_view(es.drop_first())).push(expr_view(e)));
    }
}




/// Appending a statement extends its sequence's view at the end.
pub proof fn lemma_stmts_view_push(sts: Seq<Statement>, st: Statement)
    ensures
        stmts_view(sts.push(st)) == stmts_view(sts).push(stmt_view(st)),
    decreases sts.len(),
{
    if sts.len() == 0 {
        assert(sts.push(st)[0] == st);
        assert(sts.push(st).drop_first() =~= Seq::<Statement>::empty());
        assert(stmts_view(Seq::<Statement>::empty()) == Seq::<StmtView>::empty());
        assert(stmts_view(sts.push(st)) == seq![stmt_view(st)] + Seq::<StmtView>::empty());
        assert(seq![stmt_view(st)] + Seq::<StmtView>::empty() =~= Seq::<StmtView>::empty().push(
            stmt_view(st),
        ));
    } else {
        assert(sts.push(st)[0] == sts[0]);
        assert(sts.push(st).drop_first() =~= sts.drop_first().push(st));
        lemma_stmts_view_push(sts.drop_first(), st);
        assert(stmts_view(sts.push(st)) == seq![stmt_view(sts[0])] + stmts_view(
            sts.drop_first(),
        ).push(stmt_view(st)));
        assert(seq![stmt_view(sts[0])] + stmts_view(sts.drop_first()).push(stmt_view(st)) =~= (
        seq![stmt_view(sts[0])] + stmts_view(sts.drop_first())).push(stmt_view(st)));
    }
}

/// Appending a declaration extends its sequence's view at the end.
pub proof fn lemma_decls_view_push(ds: Seq<Declaration>, d: Declaration)
    ensures
        decls_view(ds.push(d)) == decls_view(ds).push(decl_view(d)),
    decreases ds.len(),
{
    if ds.len() == 0 {
        assert(ds.push(d)[0] == d);
        assert(ds.push(d).drop_first() =~= Seq::<Declaration>::empty());
        assert(decls_view(Seq::<Declaration>::empty()) == Seq::<DeclView>::empty());
        assert(decls_view(ds.push(d)) == seq![decl_view(d)] + Seq::<DeclView>::empty());
        assert(seq![decl_view(d)] + Seq::<DeclView>::empty() =~= Seq::<DeclView>::empty().push(
            decl_view(d),
        ));
    } else {
        assert(ds.push(d)[0] == ds[0]);
        assert(ds.push(d).drop_first() =~= ds.drop_first().push(d));
        lemma_decls_view_push(ds.drop_first(), d);
        assert(decls_view(ds.push(d)) == seq![decl_view(ds[0])] + decls_view(
            ds.drop_first(),
        ).push(decl_view(d)));
        assert(seq![decl_view(ds[0])] + decls_view(ds.drop_first()).push(decl_view(d)) =~= (seq![
            decl_view(ds[0]),
        ] + decls_view(ds.drop_first())).push(decl_view(d)));
    }
}

} // verus!
