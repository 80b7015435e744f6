use vstd::prelude::*;
use vstd::string::StringExecFns;
use crate::token::{Token, TokView};
use crate::ast::{AST, Block, Declaration, Expression, Identifier, Literal, Scope, Statement};
use crate::parse_error::ParseError;
use crate::lexer::views;
use crate::parse_spec::{
    block_view, decl_view, err_view, expr_view, exprs_view, ident_view, idents_of,
    lemma_decls_view_push, lemma_exprs_view_push, lemma_stmts_view_push, lift_expr,
    opt_tok_view, scope_view,
    sp_args_call, sp_args_call_rest, sp_args_decl, sp_args_decl_rest, sp_array_decl,
    sp_array_rest, sp_binary, sp_block, sp_condition, sp_else, sp_expr, sp_expr_more,
    opt_box_stmt_view, opt_expr_view, sp_for, sp_for_opt_expr, sp_for_var, sp_func_decl,
    sp_group, sp_if, sp_index, sp_op, sp_postfix, sp_postfix_chain,
    sp_program, sp_reassignment, sp_return, sp_stmt, sp_stmts, sp_unary, sp_variable_decl,
    stmts_view, decls_view,
    sp_while, stmt_view, wrap_unary, BlockView, DeclView, ExprView, IdentView, ParseErrView,
    ScopeView, StmtView,
};
use crate::util::{
    is_binop, is_expr_start, is_ident, is_literal, is_unop_postfix, is_unop_prefix,
    is_unop_start, spec_is_binop, spec_is_expr_start, spec_is_ident, spec_is_literal,
    spec_is_unop_postfix, spec_is_unop_prefix, spec_is_unop_start,
};

verus! {

/// The recursive-descent parser: a forward cursor over the finished
/// token sequence, with one token of lookahead and no backtracking.
pub struct Parser {
    toks: Vec<Token>,
    idx: usize,
}

impl Parser {
    /// The token sequence being parsed.
    pub closed spec fn spec_toks(&self) -> Seq<Token> {
        self.toks@
    }

    /// How many tokens were consumed so far.
    pub closed spec fn spec_at(&self) -> int {
        self.idx as int
    }

    /// The cursor stands on or just past the end of the sequence.
    pub closed spec fn wf(&self) -> bool {
        self.idx <= self.toks@.len()
    }

    /// The views of the tokens being parsed.
    pub open spec fn tviews(&self) -> Seq<TokView> {
        views(self.spec_toks())
    }

    /// Indexing the token views is viewing the indexed token.
    pub proof fn tv_index(&self, k: int)
        requires
            0 <= k < self.spec_toks().len(),
        ensures
            self.tviews()[k] == self.spec_toks()[k]@,
    {
    }

    /// The view of the token under the cursor, if one is left.
    pub open spec fn peek_view(&self) -> Option<TokView> {
        if self.spec_at() < self.spec_toks().len() {
            Some(self.spec_toks()[self.spec_at()]@)
        } else {
            None
        }
    }

    /// Creates a parser standing before the first token of `tokens`.
    pub fn new(tokens: &[Token]) -> (p: Parser)
        ensures
            p.wf(),
            p.spec_toks() == tokens@,
            p.spec_at() == 0,
    {
        let mut toks: Vec<Token> = Vec::new();
        let mut i: usize = 0;
        while i < tokens.len()
            invariant
                i <= tokens@.len(),
                toks@ == tokens@.take(i as int),
            decreases tokens@.len() - i,
        {
            toks.push(tokens[i].clone());
            proof {
                assert(tokens@.take(i + 1) =~= tokens@.take(i as int).push(tokens@[i as int]));
            }
            i = i + 1;
        }
        proof {
            assert(tokens@.take(tokens@.len() as int) =~= tokens@);
        }
        Parser { toks, idx: 0 }
    }


    /// True iff a token is left and it is a binary operator.
    fn lookahead_binop(&self) -> (r: bool)
        requires
            self.wf(),
        ensures
            r == (self.spec_at() < self.spec_toks().len() && spec_is_binop(
                self.tviews()[self.spec_at()],
            )),
    {
        proof {
            if self.spec_at() < self.spec_toks().len() {
                assert(self.tviews()[self.spec_at()] == self.spec_toks()[self.spec_at()]@);
            }
        }
        if self.idx < self.toks.len() {
            is_binop(&self.toks[self.idx])
        } else {
            false
        }
    }

    /// True iff a token is left and it opens a postfix application.
    fn lookahead_postfix(&self) -> (r: bool)
        requires
            self.wf(),
        ensures
            r == (self.spec_at() < self.spec_toks().len() && spec_is_unop_postfix(
                self.tviews()[self.spec_at()],
            )),
    {
        proof {
            if self.spec_at() < self.spec_toks().len() {
                assert(self.tviews()[self.spec_at()] == self.spec_toks()[self.spec_at()]@);
            }
        }
        if self.idx < self.toks.len() {
            is_unop_postfix(&self.toks[self.idx])
        } else {
            false
        }
    }

    /// True iff a token is left and it is not the given closing token.
    fn lookahead_not(&self, closer: &Token) -> (r: bool)
        requires
            self.wf(),
        ensures
            r == (self.spec_at() < self.spec_toks().len() && self.tviews()[self.spec_at()]
                != closer@),
    {
        proof {
            if self.spec_at() < self.spec_toks().len() {
                assert(self.tviews()[self.spec_at()] == self.spec_toks()[self.spec_at()]@);
            }
        }
        if self.idx < self.toks.len() {
            !(self.toks[self.idx] == *closer)
        } else {
            false
        }
    }

    /// Consumes and returns the next token, or `UnexpectedEOF` if none
    /// is left.
    pub fn next(&mut self) -> (r: Result<Token, ParseError>)
        requires
            old(self).wf(),
        ensures
            final(self).wf(),
            final(self).spec_toks() == old(self).spec_toks(),
            match r {
                Ok(t) => {
                    &&& old(self).spec_at() < old(self).spec_toks().len()
                    &&& t == old(self).spec_toks()[old(self).spec_at()]
                    &&& final(self).spec_at() == old(self).spec_at() + 1
                },
                Err(e) => {
                    &&& old(self).spec_at() == old(self).spec_toks().len()
                    &&& e == ParseError::UnexpectedEOF
                    &&& final(self).spec_at() == old(self).spec_at()
                },
            },
    {
        if self.idx < self.toks.len() {
            let t = self.toks[self.idx].clone();
            self.idx = self.idx + 1;
            Ok(t)
        } else {
            Err(ParseError::UnexpectedEOF)
        }
    }

    /// Returns the next token without consuming it, or `None` at the
    /// end of the sequence.
    pub fn peek(&mut self) -> (r: Option<Token>)
        requires
            old(self).wf(),
        ensures
            *final(self) == *old(self),
            match r {
                Some(t) => {
                    &&& old(self).spec_at() < old(self).spec_toks().len()
                    &&& t == old(self).spec_toks()[old(self).spec_at()]
                },
                None => old(self).spec_at() == old(self).spec_toks().len(),
            },
    {
        if self.idx < self.toks.len() {
            Some(self.toks[self.idx].clone())
        } else {
            None
        }
    }

    /// Consumes the next token iff it equals `token`; reports whether
    /// it did.
    fn maybe(&mut self, token: Token) -> (r: bool)
        requires
            old(self).wf(),
        ensures
            final(self).wf(),
            final(self).spec_toks() == old(self).spec_toks(),
            if old(self).peek_view() == Some(token@) {
                r && final(self).spec_at() == old(self).spec_at() + 1
            } else {
                !r && final(self).spec_at() == old(self).spec_at()
            },
    {
        let matched = match self.peek() {
            Some(t) => t == token,
            None => false,
        };
        if matched {
            let n = self.next();
            n.is_ok()
        } else {
            false
        }
    }

    /// Consumes one token; fails with `UnexpectedToken` if it differs
    /// from `token`, with `UnexpectedEOF` if none is left.
    fn expect(&mut self, token: Token) -> (r: Result<Token, ParseError>)
        requires
            old(self).wf(),
        ensures
            final(self).wf(),
            final(self).spec_toks() == old(self).spec_toks(),
            match r {
                Ok(t) => {
                    &&& old(self).peek_view() == Some(token@)
                    &&& t == token
                    &&& final(self).spec_at() == old(self).spec_at() + 1
                },
                Err(e) => match e {
                    ParseError::UnexpectedEOF => {
                        &&& old(self).spec_at() == old(self).spec_toks().len()
                        &&& final(self).spec_at() == old(self).spec_at()
                    },
                    ParseError::UnexpectedToken(got) => {
                        &&& old(self).spec_at() < old(self).spec_toks().len()
                        &&& got == old(self).spec_toks()[old(self).spec_at()]
                        &&& got@ != token@
                        &&& final(self).spec_at() == old(self).spec_at() + 1
                    },
                    _ => false,
                },
            },
    {
        let tok = self.next()?;
        if tok == token {
            Ok(token)
        } else {
            Err(ParseError::UnexpectedToken(tok))
        }
    }

    /// Parses the whole token sequence as a program: top-level `func`
    /// and `let` declarations under the global scope, each optionally
    /// followed by a semicolon, until the sequence (or an end marker)
    /// is reached.  Any other leading token is refused.
    #[verifier::loop_isolation(false)]
    #[verifier::rlimit(100)]
    #[verifier::spinoff_prover]
    pub fn parse(&mut self) -> (r: Result<AST, ParseError>)
        requires
            old(self).wf(),
        ensures
            final(self).wf(),
            final(self).spec_toks() == old(self).spec_toks(),
            old(self).spec_at() <= final(self).spec_at(),
            match r {
                Ok(_) => final(self).spec_at() == final(self).spec_toks().len() || final(self).spec_toks()[final(self).spec_at()]@ == TokView::EOF,
                Err(_) => true,
            },
            match r {
                Ok(ast) => sp_program(old(self).tviews(), old(self).spec_at())
                    == Ok::<Seq<DeclView>, ParseErrView>(decls_view(ast.spec_program())),
                Err(er) => sp_program(old(self).tviews(), old(self).spec_at())
                    == Err::<Seq<DeclView>, ParseErrView>(err_view(er)),
            },
    {
        let mut ast = AST::new();
        proof {
            assert(decls_view(ast.spec_program()) == Seq::<DeclView>::empty());
            match sp_program(old(self).tviews(), self.spec_at()) {
                Ok(ds) => {
                    assert(Seq::<DeclView>::empty() + ds =~= ds);
                },
                Err(_) => {},
            }
        }

        while self.lookahead_not(&Token::EOF)
            invariant
                self.wf(),
                self.spec_toks() == old(self).spec_toks(),
                old(self).spec_at() <= self.spec_at() <= self.spec_toks().len(),
                sp_program(old(self).tviews(), old(self).spec_at()) == (match sp_program(
                    old(self).tviews(),
                    self.spec_at(),
                ) {
                    Ok(ds) => Ok::<Seq<DeclView>, ParseErrView>(
                        decls_view(ast.spec_program()) + ds,
                    ),
                    Err(e2) => Err(e2),
                }),
            decreases self.spec_toks().len() - self.spec_at(),
        {
            let ghost a0 = self.spec_at();
            let tok = match self.peek() {
                Some(t) => t,
                None => {
                    return Err(ParseError::UnexpectedEOF);
                },
            };
            let d = match tok {
                Token::Func => self.parse_func_decl(&Scope::Global)?,
                Token::Let => self.parse_variable_decl(&Scope::Global)?,
                e => {
                    return Err(ParseError::UnexpectedToken(e));
                },
            };
            proof {
                if self.spec_at() < self.spec_toks().len() {
                    old(self).tv_index(self.spec_at());
                }
            }
            self.maybe(Token::Semicolon);
            proof {
                let tvv = old(self).tviews();
                lemma_decls_view_push(ast.spec_program(), d);
                assert(sp_program(tvv, a0) == (match sp_program(tvv, self.spec_at()) {
                    Ok(ds) => Ok::<Seq<DeclView>, ParseErrView>(seq![decl_view(d)] + ds),
                    Err(e2) => Err(e2),
                }));
                match sp_program(tvv, self.spec_at()) {
                    Ok(ds) => {
                        assert(decls_view(ast.spec_program()) + (seq![decl_view(d)] + ds)
                            =~= decls_view(ast.spec_program()).push(decl_view(d)) + ds);
                    },
                    Err(_) => {},
                }
            }
            ast.push(d);
        }

        proof {
            if self.spec_at() < self.spec_toks().len() {
                old(self).tv_index(self.spec_at());
            }
            assert(sp_program(old(self).tviews(), self.spec_at()) == Ok::<
                Seq<DeclView>,
                ParseErrView,
            >(Seq::empty()));
            assert(decls_view(ast.spec_program()) + Seq::<DeclView>::empty() =~= decls_view(
                ast.spec_program(),
            ));
        }

        Ok(ast)
    }

    /// Parses `func`, a name, a parenthesized argument list and a block
    /// body; the name binds under `scope`, while the arguments and the
    /// body live under a local scope that extends the enclosing scope's
    /// label with the function name.
    #[verifier::rlimit(100)]
    #[verifier::spinoff_prover]
    fn parse_func_decl(&mut self, scope: &Scope) -> (r: Result<Declaration, ParseError>)
        requires
            old(self).wf(),
        ensures
            final(self).wf(),
            final(self).spec_toks() == old(self).spec_toks(),
            old(self).spec_at() <= final(self).spec_at(),
            match r {
                Ok(d) => {
                    &&& old(self).peek_view() == Some(TokView::Func)
                    &&& old(self).spec_at() < final(self).spec_at()
                    &&& d matches Declaration::Function { identifier, arguments, body }
                    &&& (d matches Declaration::Function { identifier, arguments, body } ==> {
                        &&& identifier.spec_scope() == *scope
                        &&& body.spec_scope() matches Scope::Local(n) && n@
                            == scope.spec_name() + identifier.spec_name()
                        &&& (arguments matches Some(args) ==> args@.len() > 0 && (forall|k: int|
                            0 <= k < args@.len() ==> ((#[trigger] args@[k].spec_scope())
                                matches Scope::Local(n) && n@ == scope.spec_name()
                                + identifier.spec_name())))
                    })
                },
                Err(_) => true,
            },
            match r {
                Ok(okv) => sp_func_decl(old(self).tviews(), old(self).spec_at(), scope_view(*scope)) == Ok::<(DeclView, nat), ParseErrView>((
                    decl_view(okv),
                    (final(self).spec_at() - old(self).spec_at() - 1) as nat,
                )),
                Err(er) => sp_func_decl(old(self).tviews(), old(self).spec_at(), scope_view(*scope)) == Err::<(DeclView, nat), ParseErrView>(err_view(er)),
            },
        decreases self.spec_toks().len() - self.spec_at(), 8int,
    {
        self.expect(Token::Func)?;

        let identifier = self.parse_identifier(scope)?;
        proof {
            old(self).tv_index(old(self).spec_at());
            old(self).tv_index(old(self).spec_at() + 1);
        }
        let name = identifier.name();

        let mut scope_name = scope.name();
        scope_name.append(name.as_str());
        let fn_scope = Scope::Local(scope_name);

        let arguments = self.parse_args_decl(&fn_scope)?;

        let body = self.parse_block(&fn_scope)?;

        let decl = Declaration::Function { identifier, arguments, body };

        Ok(decl)
    }

    /// Parses `{`, statements until `}`, then `}`; the block's
    /// statements live under the given scope, passed through unchanged.
    #[verifier::rlimit(100)]
    #[verifier::spinoff_prover]
    fn parse_block(&mut self, scope: &Scope) -> (r: Result<Block, ParseError>)
        requires
            old(self).wf(),
        ensures
            final(self).wf(),
            final(self).spec_toks() == old(self).spec_toks(),
            old(self).spec_at() <= final(self).spec_at(),
            match r {
                Ok(b) => {
                    &&& old(self).peek_view() == Some(TokView::LeftBrace)
                    &&& old(self).spec_at() + 2 <= final(self).spec_at()
                    &&& b.spec_scope() == *scope
                },
                Err(_) => true,
            },
            match r {
                Ok(okv) => sp_block(old(self).tviews(), old(self).spec_at(), scope_view(*scope))
                    == Ok::<(BlockView, nat), ParseErrView>((
                    block_view(okv),
                    (final(self).spec_at() - old(self).spec_at() - 1) as nat,
                )),
                Err(er) => sp_block(old(self).tviews(), old(self).spec_at(), scope_view(*scope))
                    == Err::<(BlockView, nat), ParseErrView>(err_view(er)),
            },
        decreases self.spec_toks().len() - self.spec_at(), 9int,
    {
        self.expect(Token::LeftBrace)?;

        let statements = self.parse_stmts(scope)?;

        Ok(Block::new(scope.clone(), statements))
    }

    /// Parses the statements of a block up to and including the
    /// closing `}`.
    #[verifier::loop_isolation(false)]
    #[verifier::rlimit(100)]
    #[verifier::spinoff_prover]
    fn parse_stmts(&mut self, scope: &Scope) -> (r: Result<Vec<Statement>, ParseError>)
        requires
            old(self).wf(),
        ensures
            final(self).wf(),
            final(self).spec_toks() == old(self).spec_toks(),
            old(self).spec_at() < final(self).spec_at() || r is Err,
            old(self).spec_at() <= final(self).spec_at(),
            match r {
                Ok(sts) => sp_stmts(old(self).tviews(), old(self).spec_at(), scope_view(*scope))
                    == Ok::<(Seq<StmtView>, nat), ParseErrView>((
                    stmts_view(sts@),
                    (final(self).spec_at() - old(self).spec_at() - 1) as nat,
                )),
                Err(er) => sp_stmts(old(self).tviews(), old(self).spec_at(), scope_view(*scope))
                    == Err::<(Seq<StmtView>, nat), ParseErrView>(err_view(er)),
            },
        decreases self.spec_toks().len() - self.spec_at(), 11int,
    {
        let mut statements: Vec<Statement> = Vec::new();
        proof {
            assert(stmts_view(statements@) == Seq::<StmtView>::empty());
            match sp_stmts(old(self).tviews(), self.spec_at(), scope_view(*scope)) {
                Ok((sts, m)) => {
                    assert(Seq::<StmtView>::empty() + sts =~= sts);
                },
                Err(_) => {},
            }
        }

        while self.lookahead_not(&Token::RightBrace)
            invariant
                self.wf(),
                self.spec_toks() == old(self).spec_toks(),
                old(self).spec_at() <= self.spec_at() <= self.spec_toks().len(),
                sp_stmts(old(self).tviews(), old(self).spec_at(), scope_view(*scope)) == (
                match sp_stmts(old(self).tviews(), self.spec_at(), scope_view(*scope)) {
                    Ok((sts, m)) => Ok::<(Seq<StmtView>, nat), ParseErrView>((
                        stmts_view(statements@) + sts,
                        ((self.spec_at() - old(self).spec_at()) + m) as nat,
                    )),
                    Err(e2) => Err(e2),
                }),
            decreases self.spec_toks().len() - self.spec_at(),
        {
            let ghost a0 = self.spec_at();
            let st = self.parse_stmt(scope)?;
            proof {
                let tvv = old(self).tviews();
                let sv = scope_view(*scope);
                lemma_stmts_view_push(statements@, st);
                assert(sp_stmt(tvv, a0, sv) == Ok::<(StmtView, nat), ParseErrView>((
                    stmt_view(st),
                    (self.spec_at() - a0 - 1) as nat,
                )));
                assert(sp_stmts(tvv, a0, sv) == (match sp_stmts(tvv, self.spec_at(), sv) {
                    Ok((rest, m2)) => Ok::<(Seq<StmtView>, nat), ParseErrView>((
                        seq![stmt_view(st)] + rest,
                        ((self.spec_at() - a0) + m2) as nat,
                    )),
                    Err(e2) => Err(e2),
                }));
                match sp_stmts(tvv, self.spec_at(), sv) {
                    Ok((rest, m2)) => {
                        assert(stmts_view(statements@) + (seq![stmt_view(st)] + rest)
                            =~= stmts_view(statements@).push(stmt_view(st)) + rest);
                    },
                    Err(_) => {},
                }
            }
            statements.push(st);
        }

        proof {
            if self.spec_at() < self.spec_toks().len() {
                old(self).tv_index(self.spec_at());
                assert(sp_stmts(old(self).tviews(), self.spec_at(), scope_view(*scope))
                    == Ok::<(Seq<StmtView>, nat), ParseErrView>((Seq::empty(), 0)));
            } else {
                assert(sp_stmts(old(self).tviews(), self.spec_at(), scope_view(*scope))
                    == Err::<(Seq<StmtView>, nat), ParseErrView>(ParseErrView::UnexpectedEOF));
            }
            assert(stmts_view(statements@) + Seq::<StmtView>::empty() =~= stmts_view(
                statements@,
            ));
        }

        self.expect(Token::RightBrace)?;

        Ok(statements)
    }

    /// Dispatches one statement on a single token of lookahead: an
    /// expression starter gives an expression statement, `let`/`func`
    /// give nested declarations, the control keywords and `{` their
    /// forms; anything else is refused.  A trailing semicolon is
    /// consumed if present.
    #[verifier::rlimit(100)]
    #[verifier::spinoff_prover]
    fn parse_stmt(&mut self, scope: &Scope) -> (r: Result<Statement, ParseError>)
        requires
            old(self).wf(),
        ensures
            final(self).wf(),
            final(self).spec_toks() == old(self).spec_toks(),
            old(self).spec_at() <= final(self).spec_at(),
            match r {
                Ok(st) => {
                    &&& old(self).spec_at() < final(self).spec_at()
                    &&& old(self).peek_view() matches Some(t0)
                    &&& (old(self).peek_view() matches Some(t0) ==> {
                        &&& spec_is_expr_start(t0) ==> st is Expression
                        &&& t0 is Let ==> st is Declaration
                        &&& t0 is Func ==> st is Declaration
                        &&& t0 is If ==> st is If
                        &&& t0 is While ==> st is While
                        &&& t0 is For ==> st is For
                        &&& t0 is Break ==> st == Statement::Break
                        &&& t0 is Continue ==> st == Statement::Continue
                        &&& t0 is LeftBrace ==> st is Block
                        &&& t0 is Return ==> st is Return
                    })
                },
                Err(e) => {
                    &&& (old(self).spec_at() == old(self).spec_toks().len() ==> e
                        == ParseError::UnexpectedEOF)
                    &&& (old(self).peek_view() matches Some(t0) && !spec_is_expr_start(t0) && !(t0
                        is Let) && !(t0 is Func) && !(t0 is If) && !(t0 is While) && !(t0 is For)
                        && !(t0 is Break) && !(t0 is Continue) && !(t0 is LeftBrace) && !(t0
                        is Return) ==> e == ParseError::UnexpectedToken(
                        old(self).spec_toks()[old(self).spec_at()],
                    ))
                },
            },
            match r {
                Ok(okv) => sp_stmt(old(self).tviews(), old(self).spec_at(), scope_view(*scope)) == Ok::<(StmtView, nat), ParseErrView>((
                    stmt_view(okv),
                    (final(self).spec_at() - old(self).spec_at() - 1) as nat,
                )),
                Err(er) => sp_stmt(old(self).tviews(), old(self).spec_at(), scope_view(*scope)) == Err::<(StmtView, nat), ParseErrView>(err_view(er)),
            },
        decreases self.spec_toks().len() - self.spec_at(), 10int,
    {
        let tok = match self.peek() {
            Some(t) => t,
            None => {
                return Err(ParseError::UnexpectedEOF);
            },
        };

        let stmt = if is_expr_start(&tok) {
            Statement::Expression(self.parse_expr(scope)?)
        } else {
            match tok {
                Token::Let => Statement::Declaration(self.parse_variable_decl(scope)?),
                Token::Func => Statement::Declaration(self.parse_func_decl(scope)?),
                Token::If => self.parse_if(scope)?,
                Token::While => self.parse_while(scope)?,
                Token::For => self.parse_for(scope)?,
                Token::Break => self.parse_break()?,
                Token::Continue => self.parse_continue()?,
                Token::LeftBrace => Statement::Block(self.parse_block(scope)?),
                Token::Return => Statement::Return(self.parse_return(scope)?),
                e => {
                    return Err(ParseError::UnexpectedToken(e));
                },
            }
        };

        proof {
            if self.spec_at() < self.spec_toks().len() {
                old(self).tv_index(self.spec_at());
            }
        }
        self.maybe(Token::Semicolon);

        Ok(stmt)
    }

    /// Parses the `break` keyword alone.
    fn parse_break(&mut self) -> (r: Result<Statement, ParseError>)
        requires
            old(self).wf(),
        ensures
            final(self).wf(),
            final(self).spec_toks() == old(self).spec_toks(),
            old(self).spec_at() <= final(self).spec_at(),
            match r {
                Ok(st) => {
                    &&& old(self).peek_view() == Some(TokView::Break)
                    &&& st == Statement::Break
                    &&& final(self).spec_at() == old(self).spec_at() + 1
                },
                Err(e) => match e {
                    ParseError::UnexpectedEOF => {
                        &&& old(self).spec_at() == old(self).spec_toks().len()
                        &&& final(self).spec_at() == old(self).spec_at()
                    },
                    ParseError::UnexpectedToken(got) => {
                        &&& old(self).spec_at() < old(self).spec_toks().len()
                        &&& got == old(self).spec_toks()[old(self).spec_at()]
                        &&& got@ != TokView::Break
                        &&& final(self).spec_at() == old(self).spec_at() + 1
                    },
                    _ => false,
                },
            },
        decreases self.spec_toks().len() - self.spec_at(), 8int,
    {
        self.expect(Token::Break)?;
        Ok(Statement::Break)
    }

    /// Parses the `continue` keyword alone.
    fn parse_continue(&mut self) -> (r: Result<Statement, ParseError>)
        requires
            old(self).wf(),
        ensures
            final(self).wf(),
            final(self).spec_toks() == old(self).spec_toks(),
            old(self).spec_at() <= final(self).spec_at(),
            match r {
                Ok(st) => {
                    &&& old(self).peek_view() == Some(TokView::Continue)
                    &&& st == Statement::Continue
                    &&& final(self).spec_at() == old(self).spec_at() + 1
                },
                Err(e) => match e {
                    ParseError::UnexpectedEOF => {
                        &&& old(self).spec_at() == old(self).spec_toks().len()
                        &&& final(self).spec_at() == old(self).spec_at()
                    },
                    ParseError::UnexpectedToken(got) => {
                        &&& old(self).spec_at() < old(self).spec_toks().len()
                        &&& got == old(self).spec_toks()[old(self).spec_at()]
                        &&& got@ != TokView::Continue
                        &&& final(self).spec_at() == old(self).spec_at() + 1
                    },
                    _ => false,
                },
            },
        decreases self.spec_toks().len() - self.spec_at(), 8int,
    {
        self.expect(Token::Continue)?;
        Ok(Statement::Continue)
    }

    /// Parses the optional init of a `for` header: a `let` declaration
    /// or a bare identifier, both under the header scope, or nothing.
    #[verifier::rlimit(100)]
    #[verifier::spinoff_prover]
    fn parse_for_var(&mut self, fsc: &Scope) -> (r: Result<Option<Box<Statement>>, ParseError>)
        requires
            old(self).wf(),
        ensures
            final(self).wf(),
            final(self).spec_toks() == old(self).spec_toks(),
            old(self).spec_at() <= final(self).spec_at(),
            match r {
                Ok(okv) => sp_for_var(old(self).tviews(), old(self).spec_at(), scope_view(*fsc))
                    == Ok::<(Option<Box<StmtView>>, nat), ParseErrView>((
                    opt_box_stmt_view(okv),
                    (final(self).spec_at() - old(self).spec_at()) as nat,
                )),
                Err(er) => sp_for_var(old(self).tviews(), old(self).spec_at(), scope_view(*fsc))
                    == Err::<(Option<Box<StmtView>>, nat), ParseErrView>(err_view(er)),
            },
        decreases self.spec_toks().len() - self.spec_at(), 9int,
    {
        proof {
            if self.spec_at() < self.spec_toks().len() {
                old(self).tv_index(self.spec_at());
            }
        }
        match self.peek() {
            Some(Token::Let) => Ok(Some(
                Box::new(Statement::Declaration(self.parse_variable_decl(fsc)?)),
            )),
            Some(Token::Identifier(_)) => Ok(Some(
                Box::new(Statement::Expression(Expression::Value(self.parse_identifier(fsc)?))),
            )),
            _ => Ok(None),
        }
    }

    /// Parses an optional expression of a `for` header, absent exactly
    /// when the given closing token stands first.
    #[verifier::rlimit(100)]
    #[verifier::spinoff_prover]
    fn parse_for_opt_expr(&mut self, fsc: &Scope, closer: &Token) -> (r: Result<
        Option<Expression>,
        ParseError,
    >)
        requires
            old(self).wf(),
        ensures
            final(self).wf(),
            final(self).spec_toks() == old(self).spec_toks(),
            old(self).spec_at() <= final(self).spec_at(),
            match r {
                Ok(okv) => sp_for_opt_expr(
                    old(self).tviews(),
                    old(self).spec_at(),
                    scope_view(*fsc),
                    closer@,
                ) == Ok::<(Option<ExprView>, nat), ParseErrView>((
                    opt_expr_view(okv),
                    (final(self).spec_at() - old(self).spec_at()) as nat,
                )),
                Err(er) => sp_for_opt_expr(
                    old(self).tviews(),
                    old(self).spec_at(),
                    scope_view(*fsc),
                    closer@,
                ) == Err::<(Option<ExprView>, nat), ParseErrView>(err_view(er)),
            },
        decreases self.spec_toks().len() - self.spec_at(), 8int,
    {
        proof {
            if self.spec_at() < self.spec_toks().len() {
                old(self).tv_index(self.spec_at());
            }
        }
        match self.peek() {
            Some(t) => {
                if t == *closer {
                    Ok(None)
                } else if is_expr_start(&t) {
                    Ok(Some(self.parse_expr(fsc)?))
                } else {
                    Err(ParseError::SyntaxError)
                }
            },
            None => Err(ParseError::UnexpectedEOF),
        }
    }

    /// Parses `for (init; condition; step) { body }`: the optional init
    /// (a `let` declaration or a bare identifier) and the optional
    /// condition and step expressions live under a scope suffixed
    /// `_for`; the body block stays under the parent scope.
    #[verifier::rlimit(100)]
    #[verifier::spinoff_prover]
    fn parse_for(&mut self, scope: &Scope) -> (r: Result<Statement, ParseError>)
        requires
            old(self).wf(),
        ensures
            final(self).wf(),
            final(self).spec_toks() == old(self).spec_toks(),
            old(self).spec_at() <= final(self).spec_at(),
            match r {
                Ok(st) => {
                    &&& old(self).peek_view() == Some(TokView::For)
                    &&& old(self).spec_at() < final(self).spec_at()
                    &&& st matches Statement::For { variable, condition, step, body }
                    &&& (st matches Statement::For { variable, condition, step, body }
                        ==> body.spec_scope() == *scope)
                },
                Err(_) => true,
            },
            match r {
                Ok(okv) => sp_for(old(self).tviews(), old(self).spec_at(), scope_view(*scope))
                    == Ok::<(StmtView, nat), ParseErrView>((
                    stmt_view(okv),
                    (final(self).spec_at() - old(self).spec_at() - 1) as nat,
                )),
                Err(er) => sp_for(old(self).tviews(), old(self).spec_at(), scope_view(*scope))
                    == Err::<(StmtView, nat), ParseErrView>(err_view(er)),
            },
        decreases self.spec_toks().len() - self.spec_at(), 8int,
    {
        self.expect(Token::For)?;
        self.expect(Token::LeftParenthesis)?;

        let mut for_name = scope.name();
        for_name.append("_for");
        let for_scope = Scope::Local(for_name);

        let variable = self.parse_for_var(&for_scope)?;

        proof {
            if self.spec_at() < self.spec_toks().len() {
                old(self).tv_index(self.spec_at());
            }
        }
        self.expect(Token::Semicolon)?;

        let condition = self.parse_for_opt_expr(&for_scope, &Token::Semicolon)?;

        proof {
            if self.spec_at() < self.spec_toks().len() {
                old(self).tv_index(self.spec_at());
            }
        }
        self.expect(Token::Semicolon)?;

        let step = self.parse_for_opt_expr(&for_scope, &Token::RightParenthesis)?;

        proof {
            if self.spec_at() < self.spec_toks().len() {
                old(self).tv_index(self.spec_at());
            }
        }
        self.expect(Token::RightParenthesis)?;

        let body = self.parse_block(scope)?;

        Ok(Statement::For { variable, condition, step, body })
    }

    /// Parses `if (condition) { body }` with an optional `else` clause;
    /// the body lives under a scope suffixed `_if`, while the `else`
    /// clause is parsed under the unchanged parent scope so that
    /// chained `else if` keeps suffixing the same parent.
    #[verifier::rlimit(100)]
    #[verifier::spinoff_prover]
    fn parse_if(&mut self, scope: &Scope) -> (r: Result<Statement, ParseError>)
        requires
            old(self).wf(),
        ensures
            final(self).wf(),
            final(self).spec_toks() == old(self).spec_toks(),
            old(self).spec_at() <= final(self).spec_at(),
            match r {
                Ok(st) => {
                    &&& old(self).peek_view() == Some(TokView::If)
                    &&& old(self).spec_at() < final(self).spec_at()
                    &&& st matches Statement::If { condition, body, else_stmt }
                    &&& (st matches Statement::If { condition, body, else_stmt } ==> {
                        &&& body.spec_scope() matches Scope::Local(n) && n@ == scope.spec_name()
                            + "_if"@
                        &&& (else_stmt matches Some(es) ==> ((*es) is Block || (*es) is If))
                    })
                },
                Err(_) => true,
            },
            match r {
                Ok(okv) => sp_if(old(self).tviews(), old(self).spec_at(), scope_view(*scope)) == Ok::<(StmtView, nat), ParseErrView>((
                    stmt_view(okv),
                    (final(self).spec_at() - old(self).spec_at() - 1) as nat,
                )),
                Err(er) => sp_if(old(self).tviews(), old(self).spec_at(), scope_view(*scope)) == Err::<(StmtView, nat), ParseErrView>(err_view(er)),
            },
        decreases self.spec_toks().len() - self.spec_at(), 8int,
    {
        self.expect(Token::If)?;

        let condition = self.parse_condition(scope)?;

        let mut local_scope = scope.name();
        local_scope.append("_if");

        let body = self.parse_block(&Scope::Local(local_scope))?;

        proof {
            if self.spec_at() < self.spec_toks().len() {
                old(self).tv_index(self.spec_at());
            }
        }
        let else_stmt = match self.peek() {
            Some(Token::Else) => Some(Box::new(self.parse_else(scope)?)),
            _ => None,
        };

        Ok(Statement::If { condition, body, else_stmt })
    }

    /// Parses an `else` clause: either a bare block or a chained `if`,
    /// both under the unchanged parent scope.
    #[verifier::rlimit(100)]
    #[verifier::spinoff_prover]
    fn parse_else(&mut self, scope: &Scope) -> (r: Result<Statement, ParseError>)
        requires
            old(self).wf(),
        ensures
            final(self).wf(),
            final(self).spec_toks() == old(self).spec_toks(),
            old(self).spec_at() <= final(self).spec_at(),
            match r {
                Ok(st) => {
                    &&& old(self).peek_view() == Some(TokView::Else)
                    &&& old(self).spec_at() < final(self).spec_at()
                    &&& (st is Block || st is If)
                },
                Err(_) => true,
            },
            match r {
                Ok(okv) => sp_else(old(self).tviews(), old(self).spec_at(), scope_view(*scope)) == Ok::<(StmtView, nat), ParseErrView>((
                    stmt_view(okv),
                    (final(self).spec_at() - old(self).spec_at() - 1) as nat,
                )),
                Err(er) => sp_else(old(self).tviews(), old(self).spec_at(), scope_view(*scope)) == Err::<(StmtView, nat), ParseErrView>(err_view(er)),
            },
        decreases self.spec_toks().len() - self.spec_at(), 8int,
    {
        self.expect(Token::Else)?;

        proof {
            if self.spec_at() < self.spec_toks().len() {
                old(self).tv_index(self.spec_at());
            }
        }
        let stmt = match self.peek() {
            Some(Token::LeftBrace) => Statement::Block(self.parse_block(scope)?),
            Some(Token::If) => self.parse_if(scope)?,
            Some(e) => {
                return Err(ParseError::BadStatement(e));
            },
            None => {
                return Err(ParseError::UnexpectedEOF);
            },
        };

        Ok(stmt)
    }

    /// Parses `while (condition) { body }`; the body lives under a
    /// scope suffixed `_while`.
    #[verifier::rlimit(100)]
    #[verifier::spinoff_prover]
    fn parse_while(&mut self, scope: &Scope) -> (r: Result<Statement, ParseError>)
        requires
            old(self).wf(),
        ensures
            final(self).wf(),
            final(self).spec_toks() == old(self).spec_toks(),
            old(self).spec_at() <= final(self).spec_at(),
            match r {
                Ok(st) => {
                    &&& old(self).peek_view() == Some(TokView::While)
                    &&& old(self).spec_at() < final(self).spec_at()
                    &&& st matches Statement::While { condition, body }
                    &&& (st matches Statement::While { condition, body } ==> (body.spec_scope()
                        matches Scope::Local(n) && n@ == scope.spec_name() + "_while"@))
                },
                Err(_) => true,
            },
            match r {
                Ok(okv) => sp_while(old(self).tviews(), old(self).spec_at(), scope_view(*scope)) == Ok::<(StmtView, nat), ParseErrView>((
                    stmt_view(okv),
                    (final(self).spec_at() - old(self).spec_at() - 1) as nat,
                )),
                Err(er) => sp_while(old(self).tviews(), old(self).spec_at(), scope_view(*scope)) == Err::<(StmtView, nat), ParseErrView>(err_view(er)),
            },
        decreases self.spec_toks().len() - self.spec_at(), 8int,
    {
        self.expect(Token::While)?;

        let condition = self.parse_condition(scope)?;

        let mut local_scope = scope.name();
        local_scope.append("_while");

        let body = self.parse_block(&Scope::Local(local_scope))?;

        Ok(Statement::While { condition, body })
    }

    /// Parses a parenthesized condition expression.
    fn parse_condition(&mut self, scope: &Scope) -> (r: Result<Expression, ParseError>)
        requires
            old(self).wf(),
        ensures
            final(self).wf(),
            final(self).spec_toks() == old(self).spec_toks(),
            old(self).spec_at() <= final(self).spec_at(),
            match r {
                Ok(_) => {
                    &&& old(self).peek_view() == Some(TokView::LeftParenthesis)
                    &&& old(self).spec_at() + 3 <= final(self).spec_at()
                },
                Err(_) => true,
            },
            match r {
                Ok(okv) => sp_condition(old(self).tviews(), old(self).spec_at(), scope_view(*scope)) == Ok::<(ExprView, nat), ParseErrView>((
                    expr_view(okv),
                    (final(self).spec_at() - old(self).spec_at() - 1) as nat,
                )),
                Err(er) => sp_condition(old(self).tviews(), old(self).spec_at(), scope_view(*scope)) == Err::<(ExprView, nat), ParseErrView>(err_view(er)),
            },
        decreases self.spec_toks().len() - self.spec_at(), 8int,
    {
        self.expect(Token::LeftParenthesis)?;

        let condition = self.parse_expr(scope)?;

        self.expect(Token::RightParenthesis)?;

        Ok(condition)
    }

    /// Parses `return` followed by the returned expression.
    fn parse_return(&mut self, scope: &Scope) -> (r: Result<Expression, ParseError>)
        requires
            old(self).wf(),
        ensures
            final(self).wf(),
            final(self).spec_toks() == old(self).spec_toks(),
            old(self).spec_at() <= final(self).spec_at(),
            match r {
                Ok(_) => {
                    &&& old(self).peek_view() == Some(TokView::Return)
                    &&& old(self).spec_at() + 2 <= final(self).spec_at()
                },
                Err(_) => true,
            },
            match r {
                Ok(okv) => sp_return(old(self).tviews(), old(self).spec_at(), scope_view(*scope)) == Ok::<(ExprView, nat), ParseErrView>((
                    expr_view(okv),
                    (final(self).spec_at() - old(self).spec_at() - 1) as nat,
                )),
                Err(er) => sp_return(old(self).tviews(), old(self).spec_at(), scope_view(*scope)) == Err::<(ExprView, nat), ParseErrView>(err_view(er)),
            },
        decreases self.spec_toks().len() - self.spec_at(), 8int,
    {
        self.expect(Token::Return)?;

        self.parse_expr(scope)
    }

    /// Parses `let`, a name bound under `scope`, and either nothing
    /// (a bare declaration awaiting `;`), or `:=` followed by an array
    /// literal or a general expression; anything else after the name
    /// fails with `BadAssignment`.
    #[verifier::rlimit(100)]
    #[verifier::spinoff_prover]
    #[verifier::rlimit(100)]
    #[verifier::spinoff_prover]
    fn parse_variable_decl(&mut self, scope: &Scope) -> (r: Result<Declaration, ParseError>)
        requires
            old(self).wf(),
        ensures
            final(self).wf(),
            final(self).spec_toks() == old(self).spec_toks(),
            old(self).spec_at() <= final(self).spec_at(),
            match r {
                Ok(d) => {
                    &&& old(self).peek_view() == Some(TokView::Let)
                    &&& old(self).spec_at() + 2 <= final(self).spec_at()
                    &&& d is Variable
                },
                Err(_) => true,
            },
            match r {
                Ok(okv) => sp_variable_decl(
                    old(self).tviews(),
                    old(self).spec_at(),
                    scope_view(*scope),
                ) == Ok::<(DeclView, nat), ParseErrView>((
                    decl_view(okv),
                    (final(self).spec_at() - old(self).spec_at() - 1) as nat,
                )),
                Err(er) => sp_variable_decl(
                    old(self).tviews(),
                    old(self).spec_at(),
                    scope_view(*scope),
                ) == Err::<(DeclView, nat), ParseErrView>(err_view(er)),
            },
        decreases self.spec_toks().len() - self.spec_at(), 8int,
    {
        self.expect(Token::Let)?;

        let identifier = self.parse_identifier(scope)?;
        proof {
            old(self).tv_index(old(self).spec_at());
            old(self).tv_index(old(self).spec_at() + 1);
            if old(self).spec_at() + 2 < old(self).spec_toks().len() {
                old(self).tv_index(old(self).spec_at() + 2);
            }
            if old(self).spec_at() + 3 < old(self).spec_toks().len() {
                old(self).tv_index(old(self).spec_at() + 3);
            }
        }

        let value = match self.peek() {
            Some(Token::Semicolon) => {
                proof {
                    assert(sp_variable_decl(
                        old(self).tviews(),
                        old(self).spec_at(),
                        scope_view(*scope),
                    ) == Ok::<(DeclView, nat), ParseErrView>((
                        DeclView::Variable {
                            identifier: ident_view(identifier),
                            value: Option::None,
                        },
                        1,
                    )));
                }
                None
            },
            Some(Token::Assign) => {
                self.next()?;

                match self.peek() {
                    Some(Token::LeftBracket) => {
                        let a = self.parse_array_decl(scope)?;
                        proof {
                            assert(sp_variable_decl(
                                old(self).tviews(),
                                old(self).spec_at(),
                                scope_view(*scope),
                            ) == Ok::<(DeclView, nat), ParseErrView>((
                                DeclView::Variable {
                                    identifier: ident_view(identifier),
                                    value: Option::Some(expr_view(a)),
                                },
                                (self.spec_at() - old(self).spec_at() - 1) as nat,
                            )));
                        }
                        Some(a)
                    },
                    None => {
                        return Err(ParseError::UnexpectedEOF);
                    },
                    _ => {
                        let e = self.parse_expr(scope)?;
                        proof {
                            assert(sp_variable_decl(
                                old(self).tviews(),
                                old(self).spec_at(),
                                scope_view(*scope),
                            ) == Ok::<(DeclView, nat), ParseErrView>((
                                DeclView::Variable {
                                    identifier: ident_view(identifier),
                                    value: Option::Some(expr_view(e)),
                                },
                                (self.spec_at() - old(self).spec_at() - 1) as nat,
                            )));
                        }
                        Some(e)
                    },
                }
            },
            _ => {
                return Err(ParseError::BadAssignment);
            },
        };

        let decl = Declaration::Variable { identifier, value };

        Ok(decl)
    }

    /// Parses a parenthesized, comma-separated argument-name list: an
    /// empty list gives `None`; a separator must be followed by a name
    /// and a trailing comma is refused.
    #[verifier::loop_isolation(false)]
    fn parse_args_decl(&mut self, scope: &Scope) -> (r: Result<Option<Vec<Identifier>>, ParseError>)
        requires
            old(self).wf(),
        ensures
            final(self).wf(),
            final(self).spec_toks() == old(self).spec_toks(),
            old(self).spec_at() <= final(self).spec_at(),
            match r {
                Ok(args) => {
                    &&& old(self).peek_view() == Some(TokView::LeftParenthesis)
                    &&& old(self).spec_at() + 2 <= final(self).spec_at()
                    &&& (args matches Some(v) ==> v@.len() > 0 && forall|k: int|
                        0 <= k < v@.len() ==> (#[trigger] v@[k].spec_scope()) == *scope)
                    &&& (args is None ==> final(self).spec_at() == old(self).spec_at() + 2)
                },
                Err(_) => true,
            },
            match r {
                Ok(okv) => sp_args_decl(old(self).tviews(), old(self).spec_at(), scope_view(*scope))
                    == Ok::<(Option<Seq<IdentView>>, nat), ParseErrView>((
                    match okv {
                        Option::Some(v) => Option::Some(idents_of(v@)),
                        Option::None => Option::None,
                    },
                    (final(self).spec_at() - old(self).spec_at() - 1) as nat,
                )),
                Err(er) => sp_args_decl(
                    old(self).tviews(),
                    old(self).spec_at(),
                    scope_view(*scope),
                ) == Err::<(Option<Seq<IdentView>>, nat), ParseErrView>(err_view(er)),
            },
        decreases self.spec_toks().len() - self.spec_at(), 8int,
    {
        self.expect(Token::LeftParenthesis)?;

        let mut args: Vec<Identifier> = Vec::new();

        let first = match self.peek() {
            Some(t) => !(t == Token::RightParenthesis),
            None => true,
        };
        if first {
            let a0 = self.parse_identifier(scope)?;
            proof {
                assert(idents_of(seq![a0]) =~= seq![ident_view(a0)]);
            }
            args.push(a0);

            while self.lookahead_not(&Token::RightParenthesis)
                invariant
                    self.wf(),
                    self.spec_toks() == old(self).spec_toks(),
                    old(self).spec_at() + 2 <= self.spec_at() <= self.spec_toks().len(),
                    args@.len() > 0,
                    forall|k: int| 0 <= k < args@.len() ==> (#[trigger] args@[k].spec_scope())
                        == *scope,
                    sp_args_decl(old(self).tviews(), old(self).spec_at(), scope_view(*scope))
                        == (match sp_args_decl_rest(
                        old(self).tviews(),
                        self.spec_at(),
                        scope_view(*scope),
                        idents_of(args@),
                    ) {
                        Ok((ids, x)) => Ok::<(Option<Seq<IdentView>>, nat), ParseErrView>((
                            Option::Some(ids),
                            ((self.spec_at() - old(self).spec_at()) + x) as nat,
                        )),
                        Err(e2) => Err(e2),
                    }),
                decreases self.spec_toks().len() - self.spec_at(),
            {
                self.expect(Token::Comma)?;

                let arg = match self.peek() {
                    Some(t) => {
                        if t == Token::RightParenthesis {
                            return Err(ParseError::SyntaxError);
                        }
                        self.parse_identifier(scope)?
                    },
                    None => {
                        return Err(ParseError::SyntaxError);
                    },
                };

                proof {
                    assert(idents_of(args@.push(arg)) =~= idents_of(args@).push(ident_view(arg)));
                }
                args.push(arg);
            }
        }

        self.expect(Token::RightParenthesis)?;

        if args.len() == 0 {
            Ok(None)
        } else {
            Ok(Some(args))
        }
    }

    /// Parses `[`, comma-separated element expressions, `]` into an
    /// array literal tagged with the enclosing scope; a separator must
    /// be followed by an element and a trailing comma is refused.
    #[verifier::loop_isolation(false)]
    #[verifier::loop_isolation(false)]
    #[verifier::rlimit(100)]
    #[verifier::spinoff_prover]
    fn parse_array_decl(&mut self, scope: &Scope) -> (r: Result<Expression, ParseError>)
        requires
            old(self).wf(),
        ensures
            final(self).wf(),
            final(self).spec_toks() == old(self).spec_toks(),
            old(self).spec_at() <= final(self).spec_at(),
            match r {
                Ok(e) => {
                    &&& old(self).peek_view() == Some(TokView::LeftBracket)
                    &&& old(self).spec_at() + 2 <= final(self).spec_at()
                    &&& e matches Expression::Array { scope: sc, elements }
                    &&& (e matches Expression::Array { scope: sc, elements } ==> sc == *scope)
                },
                Err(_) => true,
            },
            match r {
                Ok(okv) => sp_array_decl(old(self).tviews(), old(self).spec_at(), scope_view(*scope))
                    == Ok::<(ExprView, nat), ParseErrView>((
                    expr_view(okv),
                    (final(self).spec_at() - old(self).spec_at() - 1) as nat,
                )),
                Err(er) => sp_array_decl(old(self).tviews(), old(self).spec_at(), scope_view(*scope))
                    == Err::<(ExprView, nat), ParseErrView>(err_view(er)),
            },
        decreases self.spec_toks().len() - self.spec_at(), 8int,
    {
        let mut elements: Vec<Expression> = Vec::new();

        self.expect(Token::LeftBracket)?;

        let first = match self.peek() {
            Some(t) => !(t == Token::RightBracket),
            None => true,
        };
        if first {
            let e0 = self.parse_expr(scope)?;
            proof {
                assert(seq![e0].drop_first() =~= Seq::<Expression>::empty());
                assert(exprs_view(Seq::<Expression>::empty()) == Seq::<ExprView>::empty());
                assert(seq![e0][0] == e0);
                assert(exprs_view(seq![e0]) =~= seq![expr_view(e0)]);
            }
            elements.push(e0);

            while self.lookahead_not(&Token::RightBracket)
                invariant
                    self.wf(),
                    self.spec_toks() == old(self).spec_toks(),
                    old(self).spec_at() + 2 <= self.spec_at() <= self.spec_toks().len(),
                    sp_array_decl(old(self).tviews(), old(self).spec_at(), scope_view(*scope))
                        == (match sp_array_rest(
                        old(self).tviews(),
                        self.spec_at(),
                        scope_view(*scope),
                        exprs_view(elements@),
                    ) {
                        Ok((es, x)) => Ok::<(ExprView, nat), ParseErrView>((
                            ExprView::Array { scope: scope_view(*scope), elements: es },
                            ((self.spec_at() - old(self).spec_at()) + x) as nat,
                        )),
                        Err(e2) => Err(e2),
                    }),
                decreases self.spec_toks().len() - self.spec_at(),
            {
                self.expect(Token::Comma)?;

                let arg = match self.peek() {
                    Some(t) => {
                        if t == Token::RightBracket {
                            return Err(ParseError::SyntaxError);
                        }
                        self.parse_expr(scope)?
                    },
                    None => {
                        return Err(ParseError::SyntaxError);
                    },
                };

                proof {
                    lemma_exprs_view_push(elements@, arg);
                }
                elements.push(arg);
            }
        }

        self.expect(Token::RightBracket)?;

        Ok(Expression::Array { scope: scope.clone(), elements })
    }

    /// Parses one expression: a unary expression first, then, while the
    /// lookahead is a binary operator, either a reassignment (on `:=`)
    /// or one more binary application folded in by precedence climbing.
    #[verifier::loop_isolation(false)]
    #[verifier::rlimit(100)]
    #[verifier::spinoff_prover]
    fn parse_expr(&mut self, scope: &Scope) -> (r: Result<Expression, ParseError>)
        requires
            old(self).wf(),
        ensures
            final(self).wf(),
            final(self).spec_toks() == old(self).spec_toks(),
            old(self).spec_at() <= final(self).spec_at(),
            match r {
                Ok(_) => {
                    &&& old(self).peek_view() matches Some(t0) && spec_is_expr_start(t0)
                    &&& old(self).spec_at() < final(self).spec_at()
                },
                Err(e) => {
                    &&& (old(self).spec_at() == old(self).spec_toks().len() ==> e
                        == ParseError::UnexpectedEOF && final(self).spec_at() == old(
                        self,
                    ).spec_at())
                    &&& (old(self).peek_view() matches Some(t0) && !spec_is_expr_start(t0) ==> e
                        == ParseError::BadExpression(old(self).spec_toks()[old(self).spec_at()])
                        && final(self).spec_at() == old(self).spec_at())
                },
            },
            match r {
                Ok(okv) => sp_expr(old(self).tviews(), old(self).spec_at(), scope_view(*scope)) == Ok::<(ExprView, nat), ParseErrView>((
                    expr_view(okv),
                    (final(self).spec_at() - old(self).spec_at() - 1) as nat,
                )),
                Err(er) => sp_expr(old(self).tviews(), old(self).spec_at(), scope_view(*scope)) == Err::<(ExprView, nat), ParseErrView>(err_view(er)),
            },
        decreases self.spec_toks().len() - self.spec_at(), 4int,
    {
        let mut expr = match self.peek() {
            Some(tok) => {
                if is_unop_start(&tok) {
                    self.parse_unary(scope)?
                } else {
                    return Err(ParseError::BadExpression(tok));
                }
            },
            None => {
                return Err(ParseError::UnexpectedEOF);
            },
        };

        while self.lookahead_binop()
            invariant
                self.wf(),
                self.spec_toks() == old(self).spec_toks(),
                old(self).spec_at() < self.spec_at() <= self.spec_toks().len(),
                sp_expr(old(self).tviews(), old(self).spec_at(), scope_view(*scope)) == lift_expr(
                    (self.spec_at() - old(self).spec_at() - 1) as nat,
                    sp_expr_more(
                        old(self).tviews(),
                        self.spec_at(),
                        scope_view(*scope),
                        expr_view(expr),
                    ),
                ),
            decreases self.spec_toks().len() - self.spec_at(),
        {
            let nxt = match self.peek() {
                Some(n) => n,
                None => {
                    return Err(ParseError::UnexpectedEOF);
                },
            };

            expr = match nxt {
                Token::Assign => self.parse_reassignment(expr, scope)?,
                _ => self.parse_binary(expr, scope)?,
            };
        }

        Ok(expr)
    }

    /// Folds one binary application: consume the operator, parse the
    /// right operand, then compare the next token's precedence class
    /// against the operator's.  A strictly higher class re-resolves the
    /// right side by climbing further; an equal class folds the node
    /// built so far as the new left side, which chains equal-precedence
    /// operators left-associatively; a lower class stops the climb.
    fn parse_binary(&mut self, lhs: Expression, scope: &Scope) -> (r: Result<
        Expression,
        ParseError,
    >)
        requires
            old(self).wf(),
        ensures
            final(self).wf(),
            final(self).spec_toks() == old(self).spec_toks(),
            old(self).spec_at() <= final(self).spec_at(),
            match r {
                Ok(e) => {
                    &&& old(self).spec_at() + 2 <= final(self).spec_at()
                    &&& e is Binary
                },
                Err(_) => true,
            },
            match r {
                Ok(okv) => sp_binary(old(self).tviews(), old(self).spec_at(), scope_view(*scope), expr_view(lhs)) == Ok::<(ExprView, nat), ParseErrView>((
                    expr_view(okv),
                    (final(self).spec_at() - old(self).spec_at() - 1) as nat,
                )),
                Err(er) => sp_binary(old(self).tviews(), old(self).spec_at(), scope_view(*scope), expr_view(lhs)) == Err::<(ExprView, nat), ParseErrView>(err_view(er)),
            },
        decreases self.spec_toks().len() - self.spec_at(), 5int,
    {
        let op = self.next()?;
        let mut rhs = self.parse_unary(scope)?;

        match self.peek() {
            Some(nxt) => {
                let np = nxt.prec();
                let opp = op.prec();
                if np > opp {
                    rhs = self.parse_binary(rhs, scope)?;
                } else if np == opp {
                    return self.parse_binary(
                        Expression::Binary {
                            operation: op,
                            lhs: Box::new(lhs),
                            rhs: Box::new(rhs),
                        },
                        scope,
                    );
                }
            },
            None => {},
        }

        Ok(Expression::Binary { operation: op, lhs: Box::new(lhs), rhs: Box::new(rhs) })
    }

    /// Parses one unary expression: an optional prefix operator (a
    /// further prefix recurses), one primary operand, then postfix
    /// calls and indexes applied left-associatively; a consumed prefix
    /// wraps the whole chain in a `Unary` node.
    #[verifier::loop_isolation(false)]
    #[verifier::rlimit(100)]
    #[verifier::spinoff_prover]
    fn parse_unary(&mut self, scope: &Scope) -> (r: Result<Expression, ParseError>)
        requires
            old(self).wf(),
        ensures
            final(self).wf(),
            final(self).spec_toks() == old(self).spec_toks(),
            old(self).spec_at() <= final(self).spec_at(),
            match r {
                Ok(e) => {
                    &&& old(self).spec_at() < final(self).spec_at()
                    &&& old(self).peek_view() matches Some(t0)
                    &&& (old(self).peek_view() matches Some(t0) && spec_is_unop_prefix(t0) ==> (e
                        matches Expression::Unary { prefix, operand } && prefix matches Some(p)
                        && p@ == t0))
                },
                Err(_) => true,
            },
            match r {
                Ok(okv) => sp_unary(old(self).tviews(), old(self).spec_at(), scope_view(*scope)) == Ok::<(ExprView, nat), ParseErrView>((
                    expr_view(okv),
                    (final(self).spec_at() - old(self).spec_at() - 1) as nat,
                )),
                Err(er) => sp_unary(old(self).tviews(), old(self).spec_at(), scope_view(*scope)) == Err::<(ExprView, nat), ParseErrView>(err_view(er)),
            },
        decreases self.spec_toks().len() - self.spec_at(), 3int,
    {
        let prefix = self.parse_prefix();

        let further = match self.peek() {
            Some(t) => is_unop_prefix(&t),
            None => false,
        };

        let mut op = if further {
            self.parse_unary(scope)?
        } else {
            self.parse_op(scope)?
        };

        while self.lookahead_postfix()
            invariant
                self.wf(),
                self.spec_toks() == old(self).spec_toks(),
                old(self).spec_at() < self.spec_at() <= self.spec_toks().len(),
                sp_unary(old(self).tviews(), old(self).spec_at(), scope_view(*scope)) == (
                match sp_postfix_chain(
                    old(self).tviews(),
                    self.spec_at(),
                    scope_view(*scope),
                    expr_view(op),
                ) {
                    Ok((c, x)) => Ok::<(ExprView, nat), ParseErrView>((
                        wrap_unary(opt_tok_view(prefix), c),
                        ((self.spec_at() - old(self).spec_at() - 1) + x) as nat,
                    )),
                    Err(e2) => Err(e2),
                }),
            decreases self.spec_toks().len() - self.spec_at(),
        {
            op = self.parse_postfix(op, scope)?;
        }

        match prefix {
            None => Ok(op),
            Some(_) => Ok(Expression::Unary { prefix, operand: Box::new(op) }),
        }
    }

    /// Consumes one prefix unary operator if the lookahead is one.
    fn parse_prefix(&mut self) -> (r: Option<Token>)
        requires
            old(self).wf(),
        ensures
            final(self).wf(),
            final(self).spec_toks() == old(self).spec_toks(),
            match r {
                Some(t) => {
                    &&& old(self).spec_at() < old(self).spec_toks().len()
                    &&& t == old(self).spec_toks()[old(self).spec_at()]
                    &&& spec_is_unop_prefix(t@)
                    &&& final(self).spec_at() == old(self).spec_at() + 1
                },
                None => {
                    &&& final(self).spec_at() == old(self).spec_at()
                    &&& (old(self).peek_view() matches Some(t0) ==> !spec_is_unop_prefix(t0))
                },
            },
    {
        let take = match self.peek() {
            Some(u) => is_unop_prefix(&u),
            None => false,
        };
        if take {
            match self.next() {
                Ok(t) => Some(t),
                Err(_) => None,
            }
        } else {
            None
        }
    }

    /// Resolves one primary operand: a parenthesized group, a literal,
    /// or an identifier reference bound to the current scope.  The
    /// caller has already taken any prefix operator off the stream.
    fn parse_op(&mut self, scope: &Scope) -> (r: Result<Expression, ParseError>)
        requires
            old(self).wf(),
            old(self).peek_view() matches Some(t0) ==> !spec_is_unop_prefix(t0),
        ensures
            final(self).wf(),
            final(self).spec_toks() == old(self).spec_toks(),
            old(self).spec_at() <= final(self).spec_at(),
            match r {
                Ok(e) => {
                    &&& old(self).spec_at() < final(self).spec_at()
                    &&& old(self).peek_view() matches Some(t0)
                    &&& (old(self).peek_view() matches Some(t0) ==> {
                        &&& (spec_is_literal(t0) ==> e is Literal)
                        &&& (spec_is_ident(t0) ==> (e matches Expression::Value(id)
                            && id.spec_scope() == *scope))
                    })
                },
                Err(e) => {
                    &&& (old(self).spec_at() == old(self).spec_toks().len() ==> e
                        == ParseError::UnexpectedEOF)
                    &&& (old(self).peek_view() matches Some(t0) && !spec_is_unop_start(t0) ==> e
                        == ParseError::BadExpression(
                        old(self).spec_toks()[old(self).spec_at()],
                    ))
                },
            },
            match r {
                Ok(okv) => sp_op(old(self).tviews(), old(self).spec_at(), scope_view(*scope)) == Ok::<(ExprView, nat), ParseErrView>((
                    expr_view(okv),
                    (final(self).spec_at() - old(self).spec_at() - 1) as nat,
                )),
                Err(er) => sp_op(old(self).tviews(), old(self).spec_at(), scope_view(*scope)) == Err::<(ExprView, nat), ParseErrView>(err_view(er)),
            },
        decreases self.spec_toks().len() - self.spec_at(), 2int,
    {
        let tok = match self.peek() {
            Some(t) => t,
            None => {
                return Err(ParseError::UnexpectedEOF);
            },
        };

        if matches!(tok, Token::LeftParenthesis) {
            self.parse_group(scope)
        } else if is_literal(&tok) {
            let l = self.parse_literal()?;
            Ok(Expression::Literal(l))
        } else if is_ident(&tok) {
            let id = self.parse_identifier(scope)?;
            Ok(Expression::Value(id))
        } else {
            Err(ParseError::BadExpression(tok))
        }
    }

    /// Applies one postfix operator to the accumulated target: a call
    /// on `(`, an index on `[`.
    fn parse_postfix(&mut self, target: Expression, scope: &Scope) -> (r: Result<
        Expression,
        ParseError,
    >)
        requires
            old(self).wf(),
        ensures
            final(self).wf(),
            final(self).spec_toks() == old(self).spec_toks(),
            old(self).spec_at() <= final(self).spec_at(),
            match r {
                Ok(e) => {
                    &&& old(self).spec_at() < final(self).spec_at()
                    &&& (e is Call || e is Member)
                },
                Err(_) => true,
            },
            match r {
                Ok(okv) => sp_postfix(old(self).tviews(), old(self).spec_at(), scope_view(*scope), expr_view(target)) == Ok::<(ExprView, nat), ParseErrView>((
                    expr_view(okv),
                    (final(self).spec_at() - old(self).spec_at() - 1) as nat,
                )),
                Err(er) => sp_postfix(old(self).tviews(), old(self).spec_at(), scope_view(*scope), expr_view(target)) == Err::<(ExprView, nat), ParseErrView>(err_view(er)),
            },
        decreases self.spec_toks().len() - self.spec_at(), 2int,
    {
        let tok = match self.peek() {
            Some(t) => t,
            None => {
                return Err(ParseError::UnexpectedEOF);
            },
        };

        match tok {
            Token::LeftParenthesis => self.parse_call(target, scope),
            Token::LeftBracket => self.parse_index(target, scope),
            e => Err(ParseError::BadExpression(e)),
        }
    }

    /// Takes an identifier token off the stream and binds its name
    /// under the given scope; any other token fails with
    /// `BadAssignment`.
    fn parse_identifier(&mut self, scope: &Scope) -> (r: Result<Identifier, ParseError>)
        requires
            old(self).wf(),
        ensures
            final(self).wf(),
            final(self).spec_toks() == old(self).spec_toks(),
            old(self).spec_at() <= final(self).spec_at(),
            match r {
                Ok(id) => {
                    &&& old(self).spec_at() < old(self).spec_toks().len()
                    &&& old(self).spec_toks()[old(self).spec_at()]@ matches TokView::Identifier(n)
                        && id.spec_name() == n
                    &&& id.spec_scope() == *scope
                    &&& final(self).spec_at() == old(self).spec_at() + 1
                },
                Err(e) => match e {
                    ParseError::UnexpectedEOF => old(self).spec_at() == old(self).spec_toks().len(),
                    ParseError::BadAssignment => {
                        &&& old(self).spec_at() < old(self).spec_toks().len()
                        &&& !spec_is_ident(old(self).spec_toks()[old(self).spec_at()]@)
                        &&& final(self).spec_at() == old(self).spec_at() + 1
                    },
                    _ => false,
                },
            },
    {
        let name = match self.next()? {
            Token::Identifier(id) => id,
            _ => {
                return Err(ParseError::BadAssignment);
            },
        };

        Ok(Identifier::new(name, scope.clone()))
    }

    /// Takes a literal token off the stream and keeps its value; any
    /// other token fails with `BadExpression`.
    fn parse_literal(&mut self) -> (r: Result<Literal, ParseError>)
        requires
            old(self).wf(),
        ensures
            final(self).wf(),
            final(self).spec_toks() == old(self).spec_toks(),
            old(self).spec_at() <= final(self).spec_at(),
            match r {
                Ok(lit) => {
                    &&& old(self).spec_at() < old(self).spec_toks().len()
                    &&& final(self).spec_at() == old(self).spec_at() + 1
                    &&& match old(self).spec_toks()[old(self).spec_at()]@ {
                        TokView::Null => lit == Literal::Null,
                        TokView::StringLiteral(s) => lit matches Literal::String(v) && v@ == s,
                        TokView::CharacterLiteral(c) => lit == Literal::Character(c),
                        TokView::IntegerLiteral(i) => lit matches Literal::Integer(v) && v as int
                            == i,
                        TokView::DecimalLiteral(d) => lit matches Literal::Decimal(v) && v@ == d,
                        TokView::BooleanLiteral(b) => lit == Literal::Boolean(b),
                        _ => false,
                    }
                },
                Err(e) => match e {
                    ParseError::UnexpectedEOF => old(self).spec_at() == old(self).spec_toks().len(),
                    ParseError::BadExpression(got) => {
                        &&& old(self).spec_at() < old(self).spec_toks().len()
                        &&& got == old(self).spec_toks()[old(self).spec_at()]
                        &&& !spec_is_literal(got@)
                        &&& final(self).spec_at() == old(self).spec_at() + 1
                    },
                    _ => false,
                },
            },
    {
        let lit = match self.next()? {
            Token::Null => Literal::Null,
            Token::StringLiteral(s) => Literal::String(s),
            Token::CharacterLiteral(c) => Literal::Character(c),
            Token::IntegerLiteral(i) => Literal::Integer(i),
            Token::DecimalLiteral(d) => Literal::Decimal(d),
            Token::BooleanLiteral(b) => Literal::Boolean(b),
            e => {
                return Err(ParseError::BadExpression(e));
            },
        };

        Ok(lit)
    }

    /// Parses a parenthesized sub-expression; the group adds no node
    /// of its own.
    fn parse_group(&mut self, scope: &Scope) -> (r: Result<Expression, ParseError>)
        requires
            old(self).wf(),
        ensures
            final(self).wf(),
            final(self).spec_toks() == old(self).spec_toks(),
            old(self).spec_at() <= final(self).spec_at(),
            match r {
                Ok(_) => {
                    &&& old(self).peek_view() == Some(TokView::LeftParenthesis)
                    &&& old(self).spec_at() + 3 <= final(self).spec_at()
                },
                Err(_) => true,
            },
            match r {
                Ok(okv) => sp_group(old(self).tviews(), old(self).spec_at(), scope_view(*scope)) == Ok::<(ExprView, nat), ParseErrView>((
                    expr_view(okv),
                    (final(self).spec_at() - old(self).spec_at() - 1) as nat,
                )),
                Err(er) => sp_group(old(self).tviews(), old(self).spec_at(), scope_view(*scope)) == Err::<(ExprView, nat), ParseErrView>(err_view(er)),
            },
        decreases self.spec_toks().len() - self.spec_at(), 1int,
    {
        self.expect(Token::LeftParenthesis)?;

        let group = self.parse_expr(scope)?;

        self.expect(Token::RightParenthesis)?;

        Ok(group)
    }

    /// Wraps the accumulated target in a call with its argument list.
    #[verifier::rlimit(100)]
    #[verifier::spinoff_prover]
    fn parse_call(&mut self, target: Expression, scope: &Scope) -> (r: Result<
        Expression,
        ParseError,
    >)
        requires
            old(self).wf(),
        ensures
            final(self).wf(),
            final(self).spec_toks() == old(self).spec_toks(),
            old(self).spec_at() <= final(self).spec_at(),
            match r {
                Ok(e) => {
                    &&& old(self).spec_at() < final(self).spec_at()
                    &&& e matches Expression::Call { target: t, args } && *t == target
                },
                Err(_) => true,
            },
            match r {
                Ok(okv) => {
                    &&& okv matches Expression::Call { target: t2, args }
                    &&& (okv matches Expression::Call { target: t2, args } ==> *t2 == target
                        && sp_args_call(
                        old(self).tviews(),
                        old(self).spec_at(),
                        scope_view(*scope),
                    ) == Ok::<(Option<Seq<ExprView>>, nat), ParseErrView>((
                        match args {
                            Option::Some(v) => Option::Some(exprs_view(v@)),
                            Option::None => Option::None,
                        },
                        (final(self).spec_at() - old(self).spec_at() - 1) as nat,
                    )))
                },
                Err(er) => sp_args_call(old(self).tviews(), old(self).spec_at(), scope_view(*scope))
                    == Err::<(Option<Seq<ExprView>>, nat), ParseErrView>(err_view(er)),
            },
        decreases self.spec_toks().len() - self.spec_at(), 1int,
    {
        let args = self.parse_args_call(scope)?;

        Ok(Expression::Call { target: Box::new(target), args })
    }

    /// Parses a parenthesized, comma-separated argument-expression
    /// list: an empty list gives `None`; a separator must be followed
    /// by a value and a trailing comma is refused.
    #[verifier::loop_isolation(false)]
    #[verifier::rlimit(100)]
    #[verifier::spinoff_prover]
    fn parse_args_call(&mut self, scope: &Scope) -> (r: Result<
        Option<Vec<Expression>>,
        ParseError,
    >)
        requires
            old(self).wf(),
        ensures
            final(self).wf(),
            final(self).spec_toks() == old(self).spec_toks(),
            old(self).spec_at() <= final(self).spec_at(),
            match r {
                Ok(args) => {
                    &&& old(self).peek_view() == Some(TokView::LeftParenthesis)
                    &&& old(self).spec_at() + 2 <= final(self).spec_at()
                    &&& (args matches Some(v) ==> v@.len() > 0)
                    &&& (args is None ==> final(self).spec_at() == old(self).spec_at() + 2)
                },
                Err(_) => true,
            },
            match r {
                Ok(okv) => sp_args_call(old(self).tviews(), old(self).spec_at(), scope_view(*scope))
                    == Ok::<(Option<Seq<ExprView>>, nat), ParseErrView>((
                    match okv {
                        Option::Some(v) => Option::Some(exprs_view(v@)),
                        Option::None => Option::None,
                    },
                    (final(self).spec_at() - old(self).spec_at() - 1) as nat,
                )),
                Err(er) => sp_args_call(
                    old(self).tviews(),
                    old(self).spec_at(),
                    scope_view(*scope),
                ) == Err::<(Option<Seq<ExprView>>, nat), ParseErrView>(err_view(er)),
            },
        decreases self.spec_toks().len() - self.spec_at(), 0int,
    {
        self.expect(Token::LeftParenthesis)?;

        let mut args: Vec<Expression> = Vec::new();

        let first = match self.peek() {
            Some(t) => !(t == Token::RightParenthesis),
            None => true,
        };
        if first {
            let e0 = self.parse_expr(scope)?;
            proof {
                assert(seq![e0].drop_first() =~= Seq::<Expression>::empty());
                assert(exprs_view(Seq::<Expression>::empty()) == Seq::<ExprView>::empty());
                assert(seq![e0][0] == e0);
                assert(exprs_view(seq![e0]) =~= seq![expr_view(e0)]);
            }
            args.push(e0);

            while self.lookahead_not(&Token::RightParenthesis)
                invariant
                    self.wf(),
                    self.spec_toks() == old(self).spec_toks(),
                    old(self).spec_at() + 2 <= self.spec_at() <= self.spec_toks().len(),
                    args@.len() > 0,
                    sp_args_call(old(self).tviews(), old(self).spec_at(), scope_view(*scope))
                        == (match sp_args_call_rest(
                        old(self).tviews(),
                        self.spec_at(),
                        scope_view(*scope),
                        exprs_view(args@),
                    ) {
                        Ok((es, x)) => Ok::<(Option<Seq<ExprView>>, nat), ParseErrView>((
                            Option::Some(es),
                            ((self.spec_at() - old(self).spec_at()) + x) as nat,
                        )),
                        Err(e2) => Err(e2),
                    }),
                decreases self.spec_toks().len() - self.spec_at(),
            {
                let ghost a0 = self.spec_at();
                self.expect(Token::Comma)?;

                let arg = match self.peek() {
                    Some(t) => {
                        if t == Token::RightParenthesis {
                            return Err(ParseError::SyntaxError);
                        }
                        self.parse_expr(scope)?
                    },
                    None => {
                        return Err(ParseError::SyntaxError);
                    },
                };

                proof {
                    let tvv = old(self).tviews();
                    let sv = scope_view(*scope);
                    lemma_exprs_view_push(args@, arg);
                    assert(sp_args_call_rest(tvv, a0, sv, exprs_view(args@)) == (
                    match sp_args_call_rest(tvv, self.spec_at(), sv, exprs_view(args@).push(
                        expr_view(arg),
                    )) {
                        Ok((es, x)) => Ok::<(Seq<ExprView>, nat), ParseErrView>((
                            es,
                            ((self.spec_at() - a0 - 2) + 2 + x) as nat,
                        )),
                        Err(e2) => Err(e2),
                    }));
                }
                args.push(arg);
            }
        }

        self.expect(Token::RightParenthesis)?;

        if args.len() == 0 {
            Ok(None)
        } else {
            Ok(Some(args))
        }
    }

    /// Wraps the accumulated target in an index access: `[`, the index
    /// expression, `]`.
    #[verifier::rlimit(100)]
    #[verifier::spinoff_prover]
    fn parse_index(&mut self, target: Expression, scope: &Scope) -> (r: Result<
        Expression,
        ParseError,
    >)
        requires
            old(self).wf(),
        ensures
            final(self).wf(),
            final(self).spec_toks() == old(self).spec_toks(),
            old(self).spec_at() <= final(self).spec_at(),
            match r {
                Ok(e) => {
                    &&& old(self).peek_view() == Some(TokView::LeftBracket)
                    &&& old(self).spec_at() + 3 <= final(self).spec_at()
                    &&& e matches Expression::Member { target: t, property } && *t == target
                },
                Err(_) => true,
            },
            match r {
                Ok(okv) => sp_index(old(self).tviews(), old(self).spec_at(), scope_view(*scope), expr_view(target)) == Ok::<(ExprView, nat), ParseErrView>((
                    expr_view(okv),
                    (final(self).spec_at() - old(self).spec_at() - 1) as nat,
                )),
                Err(er) => sp_index(old(self).tviews(), old(self).spec_at(), scope_view(*scope), expr_view(target)) == Err::<(ExprView, nat), ParseErrView>(err_view(er)),
            },
        decreases self.spec_toks().len() - self.spec_at(), 1int,
    {
        self.expect(Token::LeftBracket)?;

        let idx = self.parse_expr(scope)?;

        self.expect(Token::RightBracket)?;

        Ok(Expression::Member { target: Box::new(target), property: Box::new(idx) })
    }

    /// Folds `lhs := rhs`: valid only when the accumulated left side
    /// is a bare identifier reference, else fails with `BadAssignment`
    /// before consuming anything.
    fn parse_reassignment(&mut self, lhs: Expression, scope: &Scope) -> (r: Result<
        Expression,
        ParseError,
    >)
        requires
            old(self).wf(),
        ensures
            final(self).wf(),
            final(self).spec_toks() == old(self).spec_toks(),
            old(self).spec_at() <= final(self).spec_at(),
            match r {
                Ok(e) => {
                    &&& lhs is Value
                    &&& old(self).peek_view() == Some(TokView::Assign)
                    &&& old(self).spec_at() + 2 <= final(self).spec_at()
                    &&& e matches Expression::Assignment { lhs: l, rhs } && *l == lhs
                },
                Err(e) => !(lhs is Value) ==> e == ParseError::BadAssignment && final(self).spec_at() == old(self).spec_at(),
            },
            match r {
                Ok(okv) => sp_reassignment(old(self).tviews(), old(self).spec_at(), scope_view(*scope), expr_view(lhs)) == Ok::<(ExprView, nat), ParseErrView>((
                    expr_view(okv),
                    (final(self).spec_at() - old(self).spec_at() - 1) as nat,
                )),
                Err(er) => sp_reassignment(old(self).tviews(), old(self).spec_at(), scope_view(*scope), expr_view(lhs)) == Err::<(ExprView, nat), ParseErrView>(err_view(er)),
            },
        decreases self.spec_toks().len() - self.spec_at(), 5int,
    {
        match lhs {
            Expression::Value(_) => {},
            _ => {
                return Err(ParseError::BadAssignment);
            },
        }

        self.expect(Token::Assign)?;

        let rhs = self.parse_expr(scope)?;

        Ok(Expression::Assignment { lhs: Box::new(lhs), rhs: Box::new(rhs) })
    }
}

} // verus!
