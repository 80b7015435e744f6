use minilang::ast::{Declaration, Expression, Identifier, Literal, Scope, Statement, AST};
use minilang::lex_error::TokenError;
use minilang::lexer::Lexer;
use minilang::util::{
    is_binop, is_expr_start, is_ident, is_literal, is_reassignment_op, is_unop_postfix,
    is_unop_prefix, is_unop_start,
};
use minilang::parse_error::ParseError;
use minilang::parser::Parser;
use minilang::token::Token;

fn parse(text: &str) -> Result<AST, ParseError> {
    let mut lexer = Lexer::new(text.to_string());
    let toks = lexer.lex().unwrap();
    let mut parser = Parser::new(&toks);
    parser.parse()
}

fn global(name: &str) -> Identifier {
    Identifier::new(name.to_string(), Scope::Global)
}

fn local(name: &str, scope: &str) -> Identifier {
    Identifier::new(name.to_string(), Scope::Local(scope.to_string()))
}

fn value(name: &str, scope: &str) -> Expression {
    Expression::Value(local(name, scope))
}

fn int_lit(i: i64) -> Expression {
    Expression::Literal(Literal::Integer(i))
}

#[test]
fn function_declaration_with_precedence() {
    let ast = parse("func add(a, b) { return a + b * 2; }").unwrap();
    let program = ast.program();
    assert_eq!(program.len(), 1);
    match &program[0] {
        Declaration::Function { identifier, arguments, body } => {
            assert_eq!(identifier, &global("add"));
            assert_eq!(
                arguments,
                &Some(vec![local("a", "Globaladd"), local("b", "Globaladd")])
            );
            assert_eq!(body.scope(), &Scope::Local("Globaladd".to_string()));
            let expected = Statement::Return(Expression::Binary {
                lhs: Box::new(value("a", "Globaladd")),
                operation: Token::Plus,
                rhs: Box::new(Expression::Binary {
                    lhs: Box::new(value("b", "Globaladd")),
                    operation: Token::Multiply,
                    rhs: Box::new(int_lit(2)),
                }),
            });
            assert_eq!(body.statements(), &vec![expected]);
        }
        other => panic!("expected a function declaration, got {:?}", other),
    }
}

#[test]
fn equal_precedence_folds_left() {
    let ast = parse("let x := 1 + 2 + 3;").unwrap();
    let program = ast.program();
    assert_eq!(program.len(), 1);
    match &program[0] {
        Declaration::Variable { identifier, value } => {
            assert_eq!(identifier, &global("x"));
            let expected = Expression::Binary {
                lhs: Box::new(Expression::Binary {
                    lhs: Box::new(int_lit(1)),
                    operation: Token::Plus,
                    rhs: Box::new(int_lit(2)),
                }),
                operation: Token::Plus,
                rhs: Box::new(int_lit(3)),
            };
            assert_eq!(value, &Some(expected));
        }
        other => panic!("expected a variable declaration, got {:?}", other),
    }
}

#[test]
fn long_equal_precedence_chain_stays_left_associative() {
    let ast = parse("let x := 1 + 2 + 3 + 4 + 5;").unwrap();
    match &ast.program()[0] {
        Declaration::Variable { value: Some(e), .. } => {
            // peel from the top: each layer's right operand is the next literal
            let mut cur: &Expression = e;
            let mut expect_right = 5;
            while let Expression::Binary { lhs, operation, rhs } = cur {
                assert_eq!(*operation, Token::Plus);
                assert_eq!(rhs.as_ref(), &int_lit(expect_right));
                expect_right -= 1;
                cur = lhs.as_ref();
            }
            assert_eq!(cur, &int_lit(1));
            assert_eq!(expect_right, 1);
        }
        other => panic!("expected an initialized variable, got {:?}", other),
    }
}

#[test]
fn assignment_to_non_identifier_fails() {
    match parse("func f() { 1 := 2; }") {
        Err(ParseError::BadAssignment) => {}
        other => panic!("expected a bad-assignment failure, got {:?}", other),
    }
}

#[test]
fn reassignment_of_identifier_parses() {
    let ast = parse("func f() { x := 2; }").unwrap();
    match &ast.program()[0] {
        Declaration::Function { body, .. } => {
            let expected = Statement::Expression(Expression::Assignment {
                lhs: Box::new(value("x", "Globalf")),
                rhs: Box::new(int_lit(2)),
            });
            assert_eq!(body.statements(), &vec![expected]);
        }
        other => panic!("expected a function declaration, got {:?}", other),
    }
}

#[test]
fn else_if_chain_nests_under_unchanged_parent_scope() {
    let ast = parse("func f() { if (x) { } else if (y) { } else { } }").unwrap();
    match &ast.program()[0] {
        Declaration::Function { body, .. } => {
            assert_eq!(body.statements().len(), 1);
            match &body.statements()[0] {
                Statement::If { condition, body: if_body, else_stmt } => {
                    assert_eq!(condition, &value("x", "Globalf"));
                    assert_eq!(if_body.scope(), &Scope::Local("Globalf_if".to_string()));
                    assert!(if_body.statements().is_empty());
                    match else_stmt.as_deref() {
                        Some(Statement::If {
                            condition: c2,
                            body: b2,
                            else_stmt: e2,
                        }) => {
                            assert_eq!(c2, &value("y", "Globalf"));
                            assert_eq!(b2.scope(), &Scope::Local("Globalf_if".to_string()));
                            match e2.as_deref() {
                                Some(Statement::Block(b3)) => {
                                    assert_eq!(b3.scope(), &Scope::Local("Globalf".to_string()));
                                    assert!(b3.statements().is_empty());
                                }
                                other => panic!("expected a block, got {:?}", other),
                            }
                        }
                        other => panic!("expected a chained if, got {:?}", other),
                    }
                }
                other => panic!("expected an if statement, got {:?}", other),
            }
        }
        other => panic!("expected a function declaration, got {:?}", other),
    }
}

#[test]
fn while_body_scope_is_suffixed() {
    let ast = parse("func f() { while (x) { break; continue; } }").unwrap();
    match &ast.program()[0] {
        Declaration::Function { body, .. } => match &body.statements()[0] {
            Statement::While { condition, body: w_body } => {
                assert_eq!(condition, &value("x", "Globalf"));
                assert_eq!(w_body.scope(), &Scope::Local("Globalf_while".to_string()));
                assert_eq!(
                    w_body.statements(),
                    &vec![Statement::Break, Statement::Continue]
                );
            }
            other => panic!("expected a while statement, got {:?}", other),
        },
        other => panic!("expected a function declaration, got {:?}", other),
    }
}

#[test]
fn for_header_scope_is_suffixed_but_body_is_not() {
    let ast = parse("func g() { for (let i := 0; i < 3; i) { } }").unwrap();
    match &ast.program()[0] {
        Declaration::Function { body, .. } => match &body.statements()[0] {
            Statement::For { variable, condition, step, body: f_body } => {
                match variable.as_deref() {
                    Some(Statement::Declaration(Declaration::Variable {
                        identifier,
                        value: init,
                    })) => {
                        assert_eq!(identifier, &local("i", "Globalg_for"));
                        assert_eq!(init, &Some(int_lit(0)));
                    }
                    other => panic!("expected a let declaration, got {:?}", other),
                }
                let expected_cond = Expression::Binary {
                    lhs: Box::new(value("i", "Globalg_for")),
                    operation: Token::LessThan,
                    rhs: Box::new(int_lit(3)),
                };
                assert_eq!(condition, &Some(expected_cond));
                assert_eq!(step, &Some(value("i", "Globalg_for")));
                assert_eq!(f_body.scope(), &Scope::Local("Globalg".to_string()));
            }
            other => panic!("expected a for statement, got {:?}", other),
        },
        other => panic!("expected a function declaration, got {:?}", other),
    }
}

#[test]
fn for_with_empty_header_sections() {
    let ast = parse("func g() { for (; ; ) { } }").unwrap();
    match &ast.program()[0] {
        Declaration::Function { body, .. } => match &body.statements()[0] {
            Statement::For { variable, condition, step, .. } => {
                assert!(variable.is_none());
                assert!(condition.is_none());
                assert!(step.is_none());
            }
            other => panic!("expected a for statement, got {:?}", other),
        },
        other => panic!("expected a function declaration, got {:?}", other),
    }
}

#[test]
fn bare_variable_declaration() {
    let ast = parse("let x;").unwrap();
    match &ast.program()[0] {
        Declaration::Variable { identifier, value } => {
            assert_eq!(identifier, &global("x"));
            assert!(value.is_none());
        }
        other => panic!("expected a variable declaration, got {:?}", other),
    }
}

#[test]
fn variable_without_semicolon_or_assign_fails() {
    match parse("let x") {
        Err(ParseError::BadAssignment) => {}
        other => panic!("expected a bad-assignment failure, got {:?}", other),
    }
}

#[test]
fn array_literal_initializer() {
    let ast = parse("let x := [1, 2];").unwrap();
    match &ast.program()[0] {
        Declaration::Variable { value, .. } => {
            let expected = Expression::Array {
                scope: Scope::Global,
                elements: vec![int_lit(1), int_lit(2)],
            };
            assert_eq!(value, &Some(expected));
        }
        other => panic!("expected a variable declaration, got {:?}", other),
    }
}

#[test]
fn empty_array_literal() {
    let ast = parse("let x := [];").unwrap();
    match &ast.program()[0] {
        Declaration::Variable { value, .. } => {
            assert_eq!(
                value,
                &Some(Expression::Array { scope: Scope::Global, elements: vec![] })
            );
        }
        other => panic!("expected a variable declaration, got {:?}", other),
    }
}

#[test]
fn trailing_comma_in_array_fails_syntax_error() {
    match parse("let x := [1, 2,];") {
        Err(ParseError::SyntaxError) => {}
        other => panic!("expected a syntax-error failure, got {:?}", other),
    }
}

#[test]
fn trailing_comma_in_argument_names_fails_syntax_error() {
    match parse("func f(a,) { }") {
        Err(ParseError::SyntaxError) => {}
        other => panic!("expected a syntax-error failure, got {:?}", other),
    }
}

#[test]
fn trailing_comma_in_call_arguments_fails_syntax_error() {
    match parse("func f() { g(1,); }") {
        Err(ParseError::SyntaxError) => {}
        other => panic!("expected a syntax-error failure, got {:?}", other),
    }
}

#[test]
fn postfix_call_and_index_chain_left_associatively() {
    let ast = parse("let y := f(1)[0];").unwrap();
    match &ast.program()[0] {
        Declaration::Variable { value, .. } => {
            let expected = Expression::Member {
                target: Box::new(Expression::Call {
                    target: Box::new(Expression::Value(global("f"))),
                    args: Some(vec![int_lit(1)]),
                }),
                property: Box::new(int_lit(0)),
            };
            assert_eq!(value, &Some(expected));
        }
        other => panic!("expected a variable declaration, got {:?}", other),
    }
}

#[test]
fn call_with_no_arguments_carries_none() {
    let ast = parse("let y := f();").unwrap();
    match &ast.program()[0] {
        Declaration::Variable { value, .. } => {
            let expected = Expression::Call {
                target: Box::new(Expression::Value(global("f"))),
                args: None,
            };
            assert_eq!(value, &Some(expected));
        }
        other => panic!("expected a variable declaration, got {:?}", other),
    }
}

#[test]
fn prefix_operator_wraps_postfix_chain() {
    let ast = parse("let y := -x;").unwrap();
    match &ast.program()[0] {
        Declaration::Variable { value, .. } => {
            let expected = Expression::Unary {
                prefix: Some(Token::Minus),
                operand: Box::new(Expression::Value(global("x"))),
            };
            assert_eq!(value, &Some(expected));
        }
        other => panic!("expected a variable declaration, got {:?}", other),
    }
}

#[test]
fn nested_prefix_operators() {
    let ast = parse("let y := - - x;").unwrap();
    match &ast.program()[0] {
        Declaration::Variable { value, .. } => {
            let expected = Expression::Unary {
                prefix: Some(Token::Minus),
                operand: Box::new(Expression::Unary {
                    prefix: Some(Token::Minus),
                    operand: Box::new(Expression::Value(global("x"))),
                }),
            };
            assert_eq!(value, &Some(expected));
        }
        other => panic!("expected a variable declaration, got {:?}", other),
    }
}

#[test]
fn parenthesized_group_overrides_precedence() {
    let ast = parse("let y := (1 + 2) * 3;").unwrap();
    match &ast.program()[0] {
        Declaration::Variable { value, .. } => {
            let expected = Expression::Binary {
                lhs: Box::new(Expression::Binary {
                    lhs: Box::new(int_lit(1)),
                    operation: Token::Plus,
                    rhs: Box::new(int_lit(2)),
                }),
                operation: Token::Multiply,
                rhs: Box::new(int_lit(3)),
            };
            assert_eq!(value, &Some(expected));
        }
        other => panic!("expected a variable declaration, got {:?}", other),
    }
}

#[test]
fn literals_of_every_kind_parse() {
    let ast = parse("let x := [\"s\", 'c', 1, 2.5, true, null];").unwrap();
    match &ast.program()[0] {
        Declaration::Variable { value, .. } => {
            let expected = Expression::Array {
                scope: Scope::Global,
                elements: vec![
                    Expression::Literal(Literal::String("s".to_string())),
                    Expression::Literal(Literal::Character('c')),
                    Expression::Literal(Literal::Integer(1)),
                    Expression::Literal(Literal::Decimal("2.5".to_string())),
                    Expression::Literal(Literal::Boolean(true)),
                    Expression::Literal(Literal::Null),
                ],
            };
            assert_eq!(value, &Some(expected));
        }
        other => panic!("expected a variable declaration, got {:?}", other),
    }
}

#[test]
fn empty_program_parses_to_empty_ast() {
    let ast = parse("").unwrap();
    assert!(ast.program().is_empty());
    assert!(parse("  # nothing here\n").unwrap().program().is_empty());
}

#[test]
fn unexpected_top_level_token_fails() {
    match parse("1") {
        Err(ParseError::UnexpectedToken(Token::IntegerLiteral(1))) => {}
        other => panic!("expected an unexpected-token failure, got {:?}", other),
    }
}

#[test]
fn unexpected_statement_token_fails() {
    match parse("func f() { , }") {
        Err(ParseError::UnexpectedToken(Token::Comma)) => {}
        other => panic!("expected an unexpected-token failure, got {:?}", other),
    }
}

#[test]
fn else_followed_by_bad_statement_fails() {
    match parse("func f() { if (x) { } else return 1; }") {
        Err(ParseError::BadStatement(Token::Return)) => {}
        other => panic!("expected a bad-statement failure, got {:?}", other),
    }
}

#[test]
fn end_marker_token_stops_the_parse() {
    let toks = vec![
        Token::Let,
        Token::Identifier("x".to_string()),
        Token::Semicolon,
        Token::EOF,
    ];
    let mut parser = Parser::new(&toks);
    let ast = parser.parse().unwrap();
    assert_eq!(ast.program().len(), 1);
}

#[test]
fn truncated_input_fails_with_end_of_input() {
    match parse("func f(") {
        Err(ParseError::UnexpectedEOF) => {}
        other => panic!("expected an end-of-input failure, got {:?}", other),
    }
}

#[test]
fn nested_function_declaration_statement() {
    let ast = parse("func f() { func g() { } }").unwrap();
    match &ast.program()[0] {
        Declaration::Function { body, .. } => match &body.statements()[0] {
            Statement::Declaration(Declaration::Function { identifier, arguments, body: g_body }) => {
                assert_eq!(identifier, &local("g", "Globalf"));
                assert!(arguments.is_none());
                assert_eq!(g_body.scope(), &Scope::Local("Globalfg".to_string()));
            }
            other => panic!("expected a nested function, got {:?}", other),
        },
        other => panic!("expected a function declaration, got {:?}", other),
    }
}

#[test]
fn scope_names_expose_their_labels() {
    assert_eq!(Scope::Global.name(), "Global".to_string());
    assert_eq!(Scope::Local("Globalf_if".to_string()).name(), "Globalf_if".to_string());
    let id = local("a", "Globaladd");
    assert_eq!(id.name(), "a".to_string());
    assert_eq!(id.scope(), Scope::Local("Globaladd".to_string()));
}

#[test]
fn parser_cursor_peek_and_next() {
    let toks = vec![Token::Let, Token::Semicolon];
    let mut parser = Parser::new(&toks);
    assert_eq!(parser.peek(), Some(Token::Let));
    assert_eq!(parser.next(), Ok(Token::Let));
    assert_eq!(parser.next(), Ok(Token::Semicolon));
    assert_eq!(parser.peek(), None);
    assert_eq!(parser.next(), Err(ParseError::UnexpectedEOF));
}

#[test]
fn precedence_classes_match_the_table() {
    assert_eq!(Token::Plus.prec(), 1);
    assert_eq!(Token::Minus.prec(), 1);
    assert_eq!(Token::Multiply.prec(), 2);
    assert_eq!(Token::Divide.prec(), 2);
    assert_eq!(Token::Modulo.prec(), 2);
    assert_eq!(Token::LogicalAnd.prec(), 2);
    assert_eq!(Token::LogicalOr.prec(), 2);
    assert_eq!(Token::Exponentiate.prec(), 3);
    assert_eq!(Token::LessThan.prec(), 3);
    assert_eq!(Token::GreaterEquals.prec(), 3);
    assert_eq!(Token::Equals.prec(), 3);
    assert_eq!(Token::NotEquals.prec(), 3);
    assert_eq!(Token::BinaryAnd.prec(), 3);
    assert_eq!(Token::BinaryOr.prec(), 3);
    assert_eq!(Token::ShiftRight.prec(), 3);
    assert_eq!(Token::ShiftLeft.prec(), 3);
    assert_eq!(Token::Xor.prec(), 4);
    assert_eq!(Token::Not.prec(), 4);
    assert_eq!(Token::BinaryNegate.prec(), 4);
    assert_eq!(Token::LeftParenthesis.prec(), 10);
    assert_eq!(Token::RightBracket.prec(), 10);
    assert_eq!(Token::Dot.prec(), 10);
    assert_eq!(Token::Let.prec(), 0);
    assert_eq!(Token::Semicolon.prec(), 0);
    assert_eq!(Token::Identifier("x".to_string()).prec(), 0);
}

#[test]
fn token_class_predicates() {
    assert!(is_ident(&Token::Identifier("x".to_string())));
    assert!(!is_ident(&Token::Let));
    assert!(is_literal(&Token::Null));
    assert!(is_literal(&Token::IntegerLiteral(1)));
    assert!(!is_literal(&Token::Identifier("x".to_string())));
    assert!(is_unop_prefix(&Token::Minus));
    assert!(!is_unop_prefix(&Token::Plus));
    assert!(is_unop_postfix(&Token::LeftParenthesis));
    assert!(is_unop_postfix(&Token::LeftBracket));
    assert!(is_unop_start(&Token::LeftParenthesis));
    assert!(is_expr_start(&Token::BooleanLiteral(true)));
    assert!(!is_expr_start(&Token::RightBrace));
    assert!(is_binop(&Token::Assign));
    assert!(is_binop(&Token::ShiftLeft));
    assert!(!is_binop(&Token::Increment));
    assert!(is_reassignment_op(&Token::PlusEquals));
    assert!(is_reassignment_op(&Token::MinusEquals));
    assert!(!is_reassignment_op(&Token::Assign));
}

#[test]
fn error_descriptions_name_each_kind() {
    assert_eq!(TokenError::UnexpectedEOF.describe(), "unexpected end of input");
    assert_eq!(TokenError::Unknown('@', (1, 1)).describe(), "unknown character");
    assert_eq!(
        TokenError::Invalid("1.2.3".to_string(), (1, 5)).describe(),
        "invalid literal text"
    );
    assert_eq!(ParseError::BadAssignment.describe(), "bad assignment");
    assert_eq!(ParseError::SyntaxError.describe(), "syntax error");
    assert_eq!(
        ParseError::UnexpectedToken(Token::Comma).describe(),
        "unexpected token"
    );
}
