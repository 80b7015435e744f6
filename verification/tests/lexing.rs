use minilang::lexer::Lexer;
use minilang::lex_error::TokenError;
use minilang::token::Token;

fn lex(text: &str) -> Result<Vec<Token>, TokenError> {
    let mut lexer = Lexer::new(text.to_string());
    lexer.lex()
}

#[test]
fn blank_input_yields_no_tokens() {
    assert_eq!(lex("").unwrap(), vec![]);
    assert_eq!(lex("   \t\n  \r\n").unwrap(), vec![]);
    assert_eq!(lex("# a comment\n").unwrap(), vec![]);
    assert_eq!(lex("  # one\n\t# two\n   ").unwrap(), vec![]);
}

#[test]
fn comment_at_end_of_input_without_newline() {
    assert_eq!(lex("# trailing comment with no newline").unwrap(), vec![]);
}

#[test]
fn comment_runs_to_end_of_line_only() {
    let toks = lex("# skip me\nlet").unwrap();
    assert_eq!(toks, vec![Token::Let]);
}

#[test]
fn two_char_operators_lex_atomically() {
    assert_eq!(lex("++").unwrap(), vec![Token::Increment]);
    assert_eq!(lex("+=").unwrap(), vec![Token::PlusEquals]);
    assert_eq!(lex("--").unwrap(), vec![Token::Decrement]);
    assert_eq!(lex("-=").unwrap(), vec![Token::MinusEquals]);
    assert_eq!(lex("!=").unwrap(), vec![Token::NotEquals]);
    assert_eq!(lex(">=").unwrap(), vec![Token::GreaterEquals]);
    assert_eq!(lex("<=").unwrap(), vec![Token::LessEquals]);
    assert_eq!(lex("&&").unwrap(), vec![Token::LogicalAnd]);
    assert_eq!(lex("||").unwrap(), vec![Token::LogicalOr]);
    assert_eq!(lex(":=").unwrap(), vec![Token::Assign]);
    assert_eq!(lex("==").unwrap(), vec![Token::Equals]);
    assert_eq!(lex(">>").unwrap(), vec![Token::ShiftRight]);
    assert_eq!(lex("<<").unwrap(), vec![Token::ShiftLeft]);
}

#[test]
fn single_char_operators() {
    assert_eq!(
        lex("+ - * / % . , ; ( ) [ ] { } ^ ~ ! > < & |").unwrap(),
        vec![
            Token::Plus,
            Token::Minus,
            Token::Multiply,
            Token::Divide,
            Token::Modulo,
            Token::Dot,
            Token::Comma,
            Token::Semicolon,
            Token::LeftParenthesis,
            Token::RightParenthesis,
            Token::LeftBracket,
            Token::RightBracket,
            Token::LeftBrace,
            Token::RightBrace,
            Token::Xor,
            Token::BinaryNegate,
            Token::Not,
            Token::GreaterThan,
            Token::LessThan,
            Token::BinaryAnd,
            Token::BinaryOr,
        ]
    );
}

#[test]
fn keywords_and_identifiers() {
    assert_eq!(
        lex("let func return if else while for break continue").unwrap(),
        vec![
            Token::Let,
            Token::Func,
            Token::Return,
            Token::If,
            Token::Else,
            Token::While,
            Token::For,
            Token::Break,
            Token::Continue,
        ]
    );
    assert_eq!(lex("null").unwrap(), vec![Token::Null]);
    assert_eq!(lex("true").unwrap(), vec![Token::BooleanLiteral(true)]);
    assert_eq!(lex("false").unwrap(), vec![Token::BooleanLiteral(false)]);
    assert_eq!(
        lex("letx _ab ab2").unwrap(),
        vec![
            Token::Identifier("letx".to_string()),
            Token::Identifier("_ab".to_string()),
            Token::Identifier("ab2".to_string()),
        ]
    );
}

#[test]
fn integer_and_decimal_spellings() {
    assert_eq!(lex("12").unwrap(), vec![Token::IntegerLiteral(12)]);
    assert_eq!(lex("12.5").unwrap(), vec![Token::DecimalLiteral("12.5".to_string())]);
    assert_eq!(lex("12.").unwrap(), vec![Token::DecimalLiteral("12.".to_string())]);
    assert_eq!(lex("0").unwrap(), vec![Token::IntegerLiteral(0)]);
    assert_eq!(
        lex("9223372036854775807").unwrap(),
        vec![Token::IntegerLiteral(9223372036854775807)]
    );
}

#[test]
fn malformed_decimal_fails_invalid() {
    match lex("1.2.3") {
        Err(TokenError::Invalid(text, pos)) => {
            assert_eq!(text, "1.2.3".to_string());
            assert_eq!(pos, (1, 5));
        }
        other => panic!("expected an invalid-literal failure, got {:?}", other),
    }
}

#[test]
fn integer_out_of_range_fails_invalid() {
    match lex("9223372036854775808") {
        Err(TokenError::Invalid(text, _)) => {
            assert_eq!(text, "9223372036854775808".to_string());
        }
        other => panic!("expected an invalid-literal failure, got {:?}", other),
    }
}

#[test]
fn number_then_dot_then_digits_compose_one_decimal() {
    assert_eq!(lex("123").unwrap(), vec![Token::IntegerLiteral(123)]);
    assert_eq!(lex(".").unwrap(), vec![Token::Dot]);
    assert_eq!(lex("12.5").unwrap(), vec![Token::DecimalLiteral("12.5".to_string())]);
}

#[test]
fn string_literal_without_escapes() {
    assert_eq!(
        lex("\"hello world\"").unwrap(),
        vec![Token::StringLiteral("hello world".to_string())]
    );
    assert_eq!(lex("\"\"").unwrap(), vec![Token::StringLiteral(String::new())]);
}

#[test]
fn unterminated_string_fails_with_end_of_input() {
    match lex("\"abc") {
        Err(TokenError::UnexpectedEOF) => {}
        other => panic!("expected an end-of-input failure, got {:?}", other),
    }
}

#[test]
fn character_literal() {
    assert_eq!(lex("'a'").unwrap(), vec![Token::CharacterLiteral('a')]);
    assert_eq!(lex("'''").unwrap(), vec![Token::CharacterLiteral('\'')]);
}

#[test]
fn non_ascii_character_literal_fails_unexpected() {
    match lex("'\u{e9}'") {
        Err(TokenError::Unexpected(c, pos)) => {
            assert_eq!(c, '\u{e9}');
            assert_eq!(pos, (1, 2));
        }
        other => panic!("expected an unexpected-character failure, got {:?}", other),
    }
}

#[test]
fn unclosed_character_literal_fails_expected() {
    match lex("'ab") {
        Err(TokenError::Expected(wanted, got, pos)) => {
            assert_eq!(wanted, '\'');
            assert_eq!(got, 'b');
            assert_eq!(pos, (1, 3));
        }
        other => panic!("expected an expected-but-saw failure, got {:?}", other),
    }
}

#[test]
fn bare_equals_fails_expected() {
    match lex("= 1") {
        Err(TokenError::Expected(wanted, got, pos)) => {
            assert_eq!(wanted, '=');
            assert_eq!(got, ' ');
            assert_eq!(pos, (1, 2));
        }
        other => panic!("expected an expected-but-saw failure, got {:?}", other),
    }
}

#[test]
fn bare_colon_fails_expected() {
    match lex(": x") {
        Err(TokenError::Expected(wanted, got, _)) => {
            assert_eq!(wanted, '=');
            assert_eq!(got, ' ');
        }
        other => panic!("expected an expected-but-saw failure, got {:?}", other),
    }
}

#[test]
fn unknown_character_reports_position() {
    match lex("let\n  @") {
        Err(TokenError::Unknown(c, pos)) => {
            assert_eq!(c, '@');
            assert_eq!(pos, (2, 3));
        }
        other => panic!("expected an unknown-character failure, got {:?}", other),
    }
}

#[test]
fn nul_sentinel_stops_the_scan() {
    assert_eq!(lex("let \0 @@@").unwrap(), vec![Token::Let]);
}

#[test]
fn mixed_program_tokens() {
    let toks = lex("func add(a, b) { return a + b * 2; }").unwrap();
    assert_eq!(
        toks,
        vec![
            Token::Func,
            Token::Identifier("add".to_string()),
            Token::LeftParenthesis,
            Token::Identifier("a".to_string()),
            Token::Comma,
            Token::Identifier("b".to_string()),
            Token::RightParenthesis,
            Token::LeftBrace,
            Token::Return,
            Token::Identifier("a".to_string()),
            Token::Plus,
            Token::Identifier("b".to_string()),
            Token::Multiply,
            Token::IntegerLiteral(2),
            Token::Semicolon,
            Token::RightBrace,
        ]
    );
}

fn spelling(tok: &Token) -> String {
    match tok {
        Token::Let => "let".to_string(),
        Token::Func => "func".to_string(),
        Token::Return => "return".to_string(),
        Token::If => "if".to_string(),
        Token::Else => "else".to_string(),
        Token::While => "while".to_string(),
        Token::For => "for".to_string(),
        Token::Break => "break".to_string(),
        Token::Continue => "continue".to_string(),
        Token::Plus => "+".to_string(),
        Token::Increment => "++".to_string(),
        Token::PlusEquals => "+=".to_string(),
        Token::Minus => "-".to_string(),
        Token::Decrement => "--".to_string(),
        Token::MinusEquals => "-=".to_string(),
        Token::Multiply => "*".to_string(),
        Token::Exponentiate => "**".to_string(),
        Token::Not => "!".to_string(),
        Token::NotEquals => "!=".to_string(),
        Token::GreaterThan => ">".to_string(),
        Token::GreaterEquals => ">=".to_string(),
        Token::ShiftRight => ">>".to_string(),
        Token::LessThan => "<".to_string(),
        Token::LessEquals => "<=".to_string(),
        Token::ShiftLeft => "<<".to_string(),
        Token::BinaryAnd => "&".to_string(),
        Token::LogicalAnd => "&&".to_string(),
        Token::BinaryOr => "|".to_string(),
        Token::LogicalOr => "||".to_string(),
        Token::Assign => ":=".to_string(),
        Token::Equals => "==".to_string(),
        Token::Divide => "/".to_string(),
        Token::Modulo => "%".to_string(),
        Token::Dot => ".".to_string(),
        Token::Comma => ",".to_string(),
        Token::Semicolon => ";".to_string(),
        Token::LeftParenthesis => "(".to_string(),
        Token::RightParenthesis => ")".to_string(),
        Token::LeftBracket => "[".to_string(),
        Token::RightBracket => "]".to_string(),
        Token::LeftBrace => "{".to_string(),
        Token::RightBrace => "}".to_string(),
        Token::Xor => "^".to_string(),
        Token::BinaryNegate => "~".to_string(),
        Token::Null => "null".to_string(),
        Token::Identifier(s) => s.clone(),
        Token::StringLiteral(s) => format!("\"{}\"", s),
        Token::CharacterLiteral(c) => format!("'{}'", c),
        Token::IntegerLiteral(i) => format!("{}", i),
        Token::DecimalLiteral(s) => s.clone(),
        Token::BooleanLiteral(b) => format!("{}", b),
        Token::EOF => String::new(),
    }
}

#[test]
fn round_trip_from_spellings_reproduces_tokens() {
    let source = "func add(a, b) { let x := [1, 2.5, \"hi\", 'c', true, null]; \
                  if (a >= b && !x) { return a ++ } else { x := a % 3; } }";
    let first = lex(source).unwrap();
    let rendered = first
        .iter()
        .map(spelling)
        .collect::<Vec<String>>()
        .join(" ");
    let second = lex(&rendered).unwrap();
    assert_eq!(first, second);
}

#[test]
fn lexer_keeps_tokens_on_success() {
    let mut lexer = Lexer::new("let x".to_string());
    let toks = lexer.lex().unwrap();
    assert_eq!(lexer.tokens(), &toks);
}

#[test]
fn positions_track_lines_and_columns() {
    match lex("ok\n   ?") {
        Err(TokenError::Unknown(c, pos)) => {
            assert_eq!(c, '?');
            assert_eq!(pos, (2, 4));
        }
        other => panic!("expected an unknown-character failure, got {:?}", other),
    }
}
