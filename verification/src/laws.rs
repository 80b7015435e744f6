use vstd::prelude::*;
use crate::token::TokView;
use crate::lex_error::LexErrView;
use crate::lex_spec::{
    count_dots, digits_val, is_ascii_char, is_digit_char, is_id_cont_char, is_id_start_char,
    is_num_cont_char, is_space_char, kw_view, lemma_scan_comment_end, num_token, scan_comment_end,
    scan_ident_end, scan_num_end, scan_string_end, spec_lex, spec_lex_from, spec_step, Step,
};

verus! {

/// From position `i` on, the text holds nothing but whitespace and
/// line comments.
pub open spec fn blank_from(s: Seq<char>, i: int) -> bool
    decreases s.len() - i,
    when 0 <= i <= s.len()
    via blank_from_decreases
{
    if i >= s.len() {
        true
    } else if is_space_char(s[i]) {
        blank_from(s, i + 1)
    } else if s[i] == '#' {
        blank_from(s, scan_comment_end(s, i + 1))
    } else {
        false
    }
}

#[via_fn]
proof fn blank_from_decreases(s: Seq<char>, i: int) {
    if 0 <= i < s.len() {
        lemma_scan_comment_end(s, i + 1);
    }
}

/// The whole text consists solely of whitespace and line comments.
pub open spec fn whitespace_and_comments_only(s: Seq<char>) -> bool {
    blank_from(s, 0)
}

proof fn lemma_blank_suffix_lexes_empty(s: Seq<char>, i: int)
    requires
        0 <= i <= s.len(),
        blank_from(s, i),
    ensures
        spec_lex_from(s, i) == Ok::<Seq<TokView>, LexErrView>(Seq::<TokView>::empty()),
    decreases s.len() - i,
{
    if i >= s.len() {
    } else if is_space_char(s[i]) {
        assert(spec_step(s, i) == Step::Skip(i + 1));
        lemma_blank_suffix_lexes_empty(s, i + 1);
    } else {
        lemma_scan_comment_end(s, i + 1);
        assert(spec_step(s, i) == Step::Skip(scan_comment_end(s, i + 1)));
        lemma_blank_suffix_lexes_empty(s, scan_comment_end(s, i + 1));
    }
}

/// Every input consisting solely of whitespace and comments tokenizes
/// to the empty token sequence.
pub proof fn lemma_blank_input_yields_no_tokens(s: Seq<char>)
    requires
        whitespace_and_comments_only(s),
    ensures
        spec_lex(s) == Ok::<Seq<TokView>, LexErrView>(Seq::<TokView>::empty()),
{
    lemma_blank_suffix_lexes_empty(s, 0);
}

/// Every multi-character operator spelling tokenizes to exactly one
/// token of the corresponding kind, never to two single-character
/// tokens.
pub proof fn lemma_two_char_operators_lex_atomically()
    ensures
        spec_lex("++"@) == Ok::<Seq<TokView>, LexErrView>(seq![TokView::Increment]),
        spec_lex("+="@) == Ok::<Seq<TokView>, LexErrView>(seq![TokView::PlusEquals]),
        spec_lex("--"@) == Ok::<Seq<TokView>, LexErrView>(seq![TokView::Decrement]),
        spec_lex("-="@) == Ok::<Seq<TokView>, LexErrView>(seq![TokView::MinusEquals]),
        spec_lex("!="@) == Ok::<Seq<TokView>, LexErrView>(seq![TokView::NotEquals]),
        spec_lex(">="@) == Ok::<Seq<TokView>, LexErrView>(seq![TokView::GreaterEquals]),
        spec_lex("<="@) == Ok::<Seq<TokView>, LexErrView>(seq![TokView::LessEquals]),
        spec_lex("&&"@) == Ok::<Seq<TokView>, LexErrView>(seq![TokView::LogicalAnd]),
        spec_lex("||"@) == Ok::<Seq<TokView>, LexErrView>(seq![TokView::LogicalOr]),
        spec_lex(":="@) == Ok::<Seq<TokView>, LexErrView>(seq![TokView::Assign]),
        spec_lex("=="@) == Ok::<Seq<TokView>, LexErrView>(seq![TokView::Equals]),
        spec_lex(">>"@) == Ok::<Seq<TokView>, LexErrView>(seq![TokView::ShiftRight]),
        spec_lex("<<"@) == Ok::<Seq<TokView>, LexErrView>(seq![TokView::ShiftLeft]),
{
    reveal_strlit("++");
    lemma_one_op("++"@, TokView::Increment);
    reveal_strlit("+=");
    lemma_one_op("+="@, TokView::PlusEquals);
    reveal_strlit("--");
    lemma_one_op("--"@, TokView::Decrement);
    reveal_strlit("-=");
    lemma_one_op("-="@, TokView::MinusEquals);
    reveal_strlit("!=");
    lemma_one_op("!="@, TokView::NotEquals);
    reveal_strlit(">=");
    lemma_one_op(">="@, TokView::GreaterEquals);
    reveal_strlit("<=");
    lemma_one_op("<="@, TokView::LessEquals);
    reveal_strlit("&&");
    lemma_one_op("&&"@, TokView::LogicalAnd);
    reveal_strlit("||");
    lemma_one_op("||"@, TokView::LogicalOr);
    reveal_strlit(":=");
    lemma_one_op(":="@, TokView::Assign);
    reveal_strlit("==");
    lemma_one_op("=="@, TokView::Equals);
    reveal_strlit(">>");
    lemma_one_op(">>"@, TokView::ShiftRight);
    reveal_strlit("<<");
    lemma_one_op("<<"@, TokView::ShiftLeft);
}

/// A text whose one dispatch yields one token consuming the whole
/// text tokenizes to exactly that token.
proof fn lemma_one_op(s: Seq<char>, t: TokView)
    requires
        0 < s.len(),
        spec_step(s, 0) == Step::Tok(t, s.len() as int),
    ensures
        spec_lex(s) == Ok::<Seq<TokView>, LexErrView>(seq![t]),
{
    assert(spec_lex_from(s, s.len() as int) == Ok::<Seq<TokView>, LexErrView>(
        Seq::<TokView>::empty(),
    ));
    assert(seq![t] + Seq::<TokView>::empty() =~= seq![t]);
}

/// A greedy identifier scan that accepts every remaining character
/// runs to the end of the text.
proof fn lemma_scan_ident_all(s: Seq<char>, i: int)
    requires
        0 <= i <= s.len(),
        forall|k: int| i <= k < s.len() ==> is_id_cont_char(#[trigger] s[k]),
    ensures
        scan_ident_end(s, i) == s.len(),
    decreases s.len() - i,
{
    if i < s.len() {
        lemma_scan_ident_all(s, i + 1);
    }
}

/// One keyword spelling tokenizes to exactly its keyword token.
proof fn lemma_one_keyword(s: Seq<char>, t: TokView)
    requires
        0 < s.len(),
        is_id_start_char(s[0]),
        forall|k: int| 1 <= k < s.len() ==> is_id_cont_char(#[trigger] s[k]),
        s[0] != '\0',
        kw_view(s) == t,
    ensures
        spec_lex(s) == Ok::<Seq<TokView>, LexErrView>(seq![t]),
{
    lemma_scan_ident_all(s, 1);
    assert(s.subrange(0, s.len() as int) =~= s);
    assert(spec_step(s, 0) == Step::Tok(t, s.len() as int));
    lemma_one_op(s, t);
}

/// Every keyword spelling, the word literals `null`, `true` and
/// `false` included, tokenizes to exactly one token of its keyword's
/// kind.
pub proof fn lemma_keyword_spellings_lex_atomically()
    ensures
        spec_lex("let"@) == Ok::<Seq<TokView>, LexErrView>(seq![TokView::Let]),
        spec_lex("func"@) == Ok::<Seq<TokView>, LexErrView>(seq![TokView::Func]),
        spec_lex("return"@) == Ok::<Seq<TokView>, LexErrView>(seq![TokView::Return]),
        spec_lex("if"@) == Ok::<Seq<TokView>, LexErrView>(seq![TokView::If]),
        spec_lex("else"@) == Ok::<Seq<TokView>, LexErrView>(seq![TokView::Else]),
        spec_lex("while"@) == Ok::<Seq<TokView>, LexErrView>(seq![TokView::While]),
        spec_lex("for"@) == Ok::<Seq<TokView>, LexErrView>(seq![TokView::For]),
        spec_lex("break"@) == Ok::<Seq<TokView>, LexErrView>(seq![TokView::Break]),
        spec_lex("continue"@) == Ok::<Seq<TokView>, LexErrView>(seq![TokView::Continue]),
        spec_lex("null"@) == Ok::<Seq<TokView>, LexErrView>(seq![TokView::Null]),
        spec_lex("true"@) == Ok::<Seq<TokView>, LexErrView>(
            seq![TokView::BooleanLiteral(true)],
        ),
        spec_lex("false"@) == Ok::<Seq<TokView>, LexErrView>(
            seq![TokView::BooleanLiteral(false)],
        ),
{
    reveal_strlit("let");
    reveal_strlit("func");
    reveal_strlit("return");
    reveal_strlit("if");
    reveal_strlit("else");
    reveal_strlit("while");
    reveal_strlit("for");
    reveal_strlit("break");
    reveal_strlit("continue");
    reveal_strlit("null");
    reveal_strlit("true");
    reveal_strlit("false");
    lemma_one_keyword("let"@, TokView::Let);
    lemma_one_keyword("func"@, TokView::Func);
    lemma_one_keyword("return"@, TokView::Return);
    lemma_one_keyword("if"@, TokView::If);
    lemma_one_keyword("else"@, TokView::Else);
    lemma_one_keyword("while"@, TokView::While);
    lemma_one_keyword("for"@, TokView::For);
    lemma_one_keyword("break"@, TokView::Break);
    lemma_one_keyword("continue"@, TokView::Continue);
    lemma_one_keyword("null"@, TokView::Null);
    lemma_one_keyword("true"@, TokView::BooleanLiteral(true));
    lemma_one_keyword("false"@, TokView::BooleanLiteral(false));
}

/// An identifier-shaped word that matches no keyword tokenizes to one
/// identifier token carrying exactly that word: the spelling-level
/// round trip for identifiers.
pub proof fn lemma_identifier_round_trip(w: Seq<char>)
    requires
        0 < w.len(),
        is_id_start_char(w[0]),
        forall|k: int| 1 <= k < w.len() ==> is_id_cont_char(#[trigger] w[k]),
        kw_view(w) == TokView::Identifier(w),
    ensures
        spec_lex(w) == Ok::<Seq<TokView>, LexErrView>(seq![TokView::Identifier(w)]),
{
    assert(w[0] != '\0');
    lemma_one_keyword(w, TokView::Identifier(w));
}

/// Every single-character operator and punctuation spelling tokenizes
/// to exactly one token of the corresponding kind.
pub proof fn lemma_single_char_spellings_lex_atomically()
    ensures
        spec_lex("+"@) == Ok::<Seq<TokView>, LexErrView>(seq![TokView::Plus]),
        spec_lex("-"@) == Ok::<Seq<TokView>, LexErrView>(seq![TokView::Minus]),
        spec_lex("*"@) == Ok::<Seq<TokView>, LexErrView>(seq![TokView::Multiply]),
        spec_lex("/"@) == Ok::<Seq<TokView>, LexErrView>(seq![TokView::Divide]),
        spec_lex("%"@) == Ok::<Seq<TokView>, LexErrView>(seq![TokView::Modulo]),
        spec_lex("!"@) == Ok::<Seq<TokView>, LexErrView>(seq![TokView::Not]),
        spec_lex(">"@) == Ok::<Seq<TokView>, LexErrView>(seq![TokView::GreaterThan]),
        spec_lex("<"@) == Ok::<Seq<TokView>, LexErrView>(seq![TokView::LessThan]),
        spec_lex("&"@) == Ok::<Seq<TokView>, LexErrView>(seq![TokView::BinaryAnd]),
        spec_lex("|"@) == Ok::<Seq<TokView>, LexErrView>(seq![TokView::BinaryOr]),
        spec_lex("."@) == Ok::<Seq<TokView>, LexErrView>(seq![TokView::Dot]),
        spec_lex(","@) == Ok::<Seq<TokView>, LexErrView>(seq![TokView::Comma]),
        spec_lex(";"@) == Ok::<Seq<TokView>, LexErrView>(seq![TokView::Semicolon]),
        spec_lex("("@) == Ok::<Seq<TokView>, LexErrView>(seq![TokView::LeftParenthesis]),
        spec_lex(")"@) == Ok::<Seq<TokView>, LexErrView>(seq![TokView::RightParenthesis]),
        spec_lex("["@) == Ok::<Seq<TokView>, LexErrView>(seq![TokView::LeftBracket]),
        spec_lex("]"@) == Ok::<Seq<TokView>, LexErrView>(seq![TokView::RightBracket]),
        spec_lex("{"@) == Ok::<Seq<TokView>, LexErrView>(seq![TokView::LeftBrace]),
        spec_lex("}"@) == Ok::<Seq<TokView>, LexErrView>(seq![TokView::RightBrace]),
        spec_lex("^"@) == Ok::<Seq<TokView>, LexErrView>(seq![TokView::Xor]),
        spec_lex("~"@) == Ok::<Seq<TokView>, LexErrView>(seq![TokView::BinaryNegate]),
{
    reveal_strlit("+");
    lemma_one_op("+"@, TokView::Plus);
    reveal_strlit("-");
    lemma_one_op("-"@, TokView::Minus);
    reveal_strlit("*");
    lemma_one_op("*"@, TokView::Multiply);
    reveal_strlit("/");
    lemma_one_op("/"@, TokView::Divide);
    reveal_strlit("%");
    lemma_one_op("%"@, TokView::Modulo);
    reveal_strlit("!");
    lemma_one_op("!"@, TokView::Not);
    reveal_strlit(">");
    lemma_one_op(">"@, TokView::GreaterThan);
    reveal_strlit("<");
    lemma_one_op("<"@, TokView::LessThan);
    reveal_strlit("&");
    lemma_one_op("&"@, TokView::BinaryAnd);
    reveal_strlit("|");
    lemma_one_op("|"@, TokView::BinaryOr);
    reveal_strlit(".");
    lemma_one_op("."@, TokView::Dot);
    reveal_strlit(",");
    lemma_one_op(","@, TokView::Comma);
    reveal_strlit(";");
    lemma_one_op(";"@, TokView::Semicolon);
    reveal_strlit("(");
    lemma_one_op("("@, TokView::LeftParenthesis);
    reveal_strlit(")");
    lemma_one_op(")"@, TokView::RightParenthesis);
    reveal_strlit("[");
    lemma_one_op("["@, TokView::LeftBracket);
    reveal_strlit("]");
    lemma_one_op("]"@, TokView::RightBracket);
    reveal_strlit("{");
    lemma_one_op("{"@, TokView::LeftBrace);
    reveal_strlit("}");
    lemma_one_op("}"@, TokView::RightBrace);
    reveal_strlit("^");
    lemma_one_op("^"@, TokView::Xor);
    reveal_strlit("~");
    lemma_one_op("~"@, TokView::BinaryNegate);
}


/// A greedy numeric scan that accepts every remaining character runs
/// to the end of the text.
proof fn lemma_scan_num_all(s: Seq<char>, i: int)
    requires
        0 <= i <= s.len(),
        forall|k: int| i <= k < s.len() ==> is_num_cont_char(#[trigger] s[k]),
    ensures
        scan_num_end(s, i) == s.len(),
    decreases s.len() - i,
{
    if i < s.len() {
        lemma_scan_num_all(s, i + 1);
    }
}

/// A text of digits alone holds no dot.
proof fn lemma_all_digits_no_dots(cs: Seq<char>)
    requires
        forall|k: int| 0 <= k < cs.len() ==> is_digit_char(#[trigger] cs[k]),
    ensures
        count_dots(cs) == 0,
    decreases cs.len(),
{
    if cs.len() > 0 {
        lemma_all_digits_no_dots(cs.drop_last());
    }
}

/// A nonempty digit string whose value fits 64 signed bits tokenizes
/// to exactly one integer literal carrying that value: the
/// spelling-level round trip for integers.
pub proof fn lemma_integer_round_trip(w: Seq<char>)
    requires
        0 < w.len(),
        forall|k: int| 0 <= k < w.len() ==> is_digit_char(#[trigger] w[k]),
        digits_val(w) <= i64::MAX,
    ensures
        spec_lex(w) == Ok::<Seq<TokView>, LexErrView>(
            seq![TokView::IntegerLiteral(digits_val(w))],
        ),
{
    lemma_scan_num_all(w, 1);
    lemma_all_digits_no_dots(w);
    assert(w.subrange(0, w.len() as int) =~= w);
    assert(spec_step(w, 0) == Step::Tok(
        TokView::IntegerLiteral(digits_val(w)),
        w.len() as int,
    ));
    lemma_one_op(w, TokView::IntegerLiteral(digits_val(w)));
}

/// A digit-and-dot spelling that opens with a digit and holds exactly
/// one dot tokenizes to exactly one decimal literal carrying that
/// spelling: the spelling-level round trip for decimals.
pub proof fn lemma_decimal_round_trip(w: Seq<char>)
    requires
        0 < w.len(),
        is_digit_char(w[0]),
        forall|k: int| 0 <= k < w.len() ==> is_num_cont_char(#[trigger] w[k]),
        count_dots(w) == 1,
    ensures
        spec_lex(w) == Ok::<Seq<TokView>, LexErrView>(seq![TokView::DecimalLiteral(w)]),
{
    lemma_scan_num_all(w, 1);
    assert(w.subrange(0, w.len() as int) =~= w);
    assert(spec_step(w, 0) == Step::Tok(TokView::DecimalLiteral(w), w.len() as int));
    lemma_one_op(w, TokView::DecimalLiteral(w));
}

/// A string scan over quote-free text stops exactly at the closing
/// quote.
proof fn lemma_scan_string_to(s: Seq<char>, i: int, m: int)
    requires
        0 <= i <= m < s.len(),
        forall|k: int| i <= k < m ==> #[trigger] s[k] != '"',
        s[m] == '"',
    ensures
        scan_string_end(s, i) == m,
    decreases m - i,
{
    if i < m {
        lemma_scan_string_to(s, i + 1, m);
    }
}

/// A double-quoted text whose content holds no quote tokenizes to
/// exactly one string literal carrying the content: the
/// spelling-level round trip for strings.
pub proof fn lemma_string_round_trip(w: Seq<char>)
    requires
        2 <= w.len(),
        w[0] == '"',
        w[w.len() - 1] == '"',
        forall|k: int| 1 <= k < w.len() - 1 ==> #[trigger] w[k] != '"',
    ensures
        spec_lex(w) == Ok::<Seq<TokView>, LexErrView>(
            seq![TokView::StringLiteral(w.subrange(1, w.len() - 1))],
        ),
{
    lemma_scan_string_to(w, 1, w.len() - 1);
    assert(spec_step(w, 0) == Step::Tok(
        TokView::StringLiteral(w.subrange(1, w.len() - 1)),
        w.len() as int,
    ));
    lemma_one_op(w, TokView::StringLiteral(w.subrange(1, w.len() - 1)));
}

/// A single-quoted ASCII character tokenizes to exactly one character
/// literal carrying it: the spelling-level round trip for characters.
pub proof fn lemma_character_round_trip(w: Seq<char>)
    requires
        w.len() == 3,
        w[0] == '\'',
        w[2] == '\'',
        is_ascii_char(w[1]),
    ensures
        spec_lex(w) == Ok::<Seq<TokView>, LexErrView>(seq![TokView::CharacterLiteral(w[1])]),
{
    assert(spec_step(w, 0) == Step::Tok(TokView::CharacterLiteral(w[1]), 3int));
    lemma_one_op(w, TokView::CharacterLiteral(w[1]));
}


// ----- the spelling-level round trip for whole token sequences -----

/// `w` is a source spelling of the token `t`: tokenizing `w` alone
/// must give back exactly `t`.  Tokens the tokenizer never produces
/// (the exponentiation operator, the end marker) have no spelling
/// here.
pub open spec fn spells(t: TokView, w: Seq<char>) -> bool {
    match t {
        TokView::Let => w == "let"@,
        TokView::Func => w == "func"@,
        TokView::Return => w == "return"@,
        TokView::If => w == "if"@,
        TokView::Else => w == "else"@,
        TokView::While => w == "while"@,
        TokView::For => w == "for"@,
        TokView::Break => w == "break"@,
        TokView::Continue => w == "continue"@,
        TokView::Null => w == "null"@,
        TokView::BooleanLiteral(b) => w == if b {
            "true"@
        } else {
            "false"@
        },
        TokView::Plus => w == "+"@,
        TokView::Increment => w == "++"@,
        TokView::PlusEquals => w == "+="@,
        TokView::Minus => w == "-"@,
        TokView::Decrement => w == "--"@,
        TokView::MinusEquals => w == "-="@,
        TokView::Multiply => w == "*"@,
        TokView::Not => w == "!"@,
        TokView::NotEquals => w == "!="@,
        TokView::GreaterThan => w == ">"@,
        TokView::GreaterEquals => w == ">="@,
        TokView::ShiftRight => w == ">>"@,
        TokView::LessThan => w == "<"@,
        TokView::LessEquals => w == "<="@,
        TokView::ShiftLeft => w == "<<"@,
        TokView::BinaryAnd => w == "&"@,
        TokView::LogicalAnd => w == "&&"@,
        TokView::BinaryOr => w == "|"@,
        TokView::LogicalOr => w == "||"@,
        TokView::Assign => w == ":="@,
        TokView::Equals => w == "=="@,
        TokView::Divide => w == "/"@,
        TokView::Modulo => w == "%"@,
        TokView::Dot => w == "."@,
        TokView::Comma => w == ","@,
        TokView::Semicolon => w == ";"@,
        TokView::LeftParenthesis => w == "("@,
        TokView::RightParenthesis => w == ")"@,
        TokView::LeftBracket => w == "["@,
        TokView::RightBracket => w == "]"@,
        TokView::LeftBrace => w == "{"@,
        TokView::RightBrace => w == "}"@,
        TokView::Xor => w == "^"@,
        TokView::BinaryNegate => w == "~"@,
        TokView::Identifier(n) => {
            &&& w == n
            &&& 0 < w.len()
            &&& is_id_start_char(w[0])
            &&& (forall|k: int| 1 <= k < w.len() ==> is_id_cont_char(#[trigger] w[k]))
            &&& kw_view(w) == TokView::Identifier(w)
        },
        TokView::IntegerLiteral(i) => {
            &&& 0 < w.len()
            &&& (forall|k: int| 0 <= k < w.len() ==> is_digit_char(#[trigger] w[k]))
            &&& digits_val(w) == i
            &&& i <= i64::MAX
        },
        TokView::DecimalLiteral(d) => {
            &&& w == d
            &&& 0 < w.len()
            &&& is_digit_char(w[0])
            &&& (forall|k: int| 0 <= k < w.len() ==> is_num_cont_char(#[trigger] w[k]))
            &&& count_dots(w) == 1
        },
        TokView::StringLiteral(c) => {
            &&& w.len() >= 2
            &&& w[0] == '"'
            &&& w[w.len() - 1] == '"'
            &&& (forall|k: int| 1 <= k < w.len() - 1 ==> #[trigger] w[k] != '"')
            &&& c == w.subrange(1, w.len() - 1)
        },
        TokView::CharacterLiteral(c) => {
            &&& w.len() == 3
            &&& w[0] == '\''
            &&& w[1] == c
            &&& w[2] == '\''
            &&& is_ascii_char(c)
        },
        _ => false,
    }
}

/// The text built from the given spellings, one space after each.
pub open spec fn join_spaced(ws: Seq<Seq<char>>) -> Seq<char>
    decreases ws.len(),
{
    if ws.len() == 0 {
        Seq::empty()
    } else {
        ws[0] + seq![' '] + join_spaced(ws.drop_first())
    }
}

/// A greedy identifier scan stops exactly where its class first fails.
proof fn lemma_scan_ident_to(s: Seq<char>, i: int, m: int)
    requires
        0 <= i <= m <= s.len(),
        forall|k: int| i <= k < m ==> is_id_cont_char(#[trigger] s[k]),
        m < s.len() ==> !is_id_cont_char(s[m]),
    ensures
        scan_ident_end(s, i) == m,
    decreases m - i,
{
    if i < m {
        lemma_scan_ident_to(s, i + 1, m);
    }
}

/// A greedy numeric scan stops exactly where its class first fails.
proof fn lemma_scan_num_to(s: Seq<char>, i: int, m: int)
    requires
        0 <= i <= m <= s.len(),
        forall|k: int| i <= k < m ==> is_num_cont_char(#[trigger] s[k]),
        m < s.len() ==> !is_num_cont_char(s[m]),
    ensures
        scan_num_end(s, i) == m,
    decreases m - i,
{
    if i < m {
        lemma_scan_num_to(s, i + 1, m);
    }
}

/// An identifier-shaped spelling followed by a space dispatches to
/// the token its word resolves to.
proof fn lemma_step_ident_shaped(s: Seq<char>, w: Seq<char>, t: TokView)
    requires
        0 < w.len(),
        w.len() < s.len(),
        s.subrange(0, w.len() as int) == w,
        s[w.len() as int] == ' ',
        is_id_start_char(w[0]),
        forall|k: int| 1 <= k < w.len() ==> is_id_cont_char(#[trigger] w[k]),
        kw_view(w) == t,
    ensures
        spec_step(s, 0) == Step::Tok(t, w.len() as int),
{
    let n = w.len() as int;
    assert forall|k: int| 0 <= k < n implies s[k] == #[trigger] w[k] by {
        assert(s.subrange(0, n)[k] == s[k]);
    }
    assert forall|k: int| 1 <= k < n implies is_id_cont_char(#[trigger] s[k]) by {
        assert(s[k] == w[k]);
    }
    lemma_scan_ident_to(s, 1, n);
    assert(s.subrange(0, n) =~= w);
    assert(spec_step(s, 0) == Step::Tok(t, n));
}

/// One spelling followed by a space dispatches to exactly its token,
/// whatever text comes after the space.
#[verifier::rlimit(100)]
proof fn lemma_step_of_spelling(t: TokView, w: Seq<char>, s: Seq<char>)
    requires
        spells(t, w),
        w.len() < s.len(),
        s.subrange(0, w.len() as int) == w,
        s[w.len() as int] == ' ',
    ensures
        spec_step(s, 0) == Step::Tok(t, w.len() as int),
{
    reveal_strlit("let");
    reveal_strlit("func");
    reveal_strlit("return");
    reveal_strlit("if");
    reveal_strlit("else");
    reveal_strlit("while");
    reveal_strlit("for");
    reveal_strlit("break");
    reveal_strlit("continue");
    reveal_strlit("null");
    reveal_strlit("true");
    reveal_strlit("false");
    reveal_strlit("+");
    reveal_strlit("++");
    reveal_strlit("+=");
    reveal_strlit("-");
    reveal_strlit("--");
    reveal_strlit("-=");
    reveal_strlit("*");
    reveal_strlit("!");
    reveal_strlit("!=");
    reveal_strlit(">");
    reveal_strlit(">=");
    reveal_strlit("<");
    reveal_strlit("<=");
    reveal_strlit("&");
    reveal_strlit("&&");
    reveal_strlit("|");
    reveal_strlit("||");
    reveal_strlit(":=");
    reveal_strlit("==");
    reveal_strlit(">>");
    reveal_strlit("<<");
    reveal_strlit("/");
    reveal_strlit("%");
    reveal_strlit(".");
    reveal_strlit(",");
    reveal_strlit(";");
    reveal_strlit("(");
    reveal_strlit(")");
    reveal_strlit("[");
    reveal_strlit("]");
    reveal_strlit("{");
    reveal_strlit("}");
    reveal_strlit("^");
    reveal_strlit("~");
    assert forall|k: int| 0 <= k < w.len() implies s[k] == #[trigger] w[k] by {
        assert(s.subrange(0, w.len() as int)[k] == s[k]);
    }
    let n = w.len() as int;
    lemma_spelling_nonempty(t, w);
    assert(s[0] == w[0]);
    match t {
        TokView::Identifier(nm) => {
            assert(w == nm);
            assert(kw_view(w) == t);
            lemma_step_ident_shaped(s, w, t);
            assert(spec_step(s, 0) == Step::Tok(t, w.len() as int));
        },
        TokView::Let | TokView::Func | TokView::Return | TokView::If | TokView::Else
            | TokView::While | TokView::For | TokView::Break | TokView::Continue
            | TokView::Null | TokView::BooleanLiteral(_) => {
            assert(is_id_start_char(w[0]));
            assert(forall|k: int| 1 <= k < w.len() ==> is_id_cont_char(#[trigger] w[k]));
            assert(kw_view(w) == t);
            lemma_step_ident_shaped(s, w, t);
        },
        TokView::IntegerLiteral(_) => {
            assert forall|k: int| 1 <= k < n implies is_num_cont_char(#[trigger] s[k]) by {
                assert(s[k] == w[k]);
            }
            lemma_scan_num_to(s, 1, n);
            assert(s.subrange(0, n) =~= w);
            lemma_all_digits_no_dots(w);
            assert(spec_step(s, 0) == Step::Tok(t, n));
        },
        TokView::DecimalLiteral(_) => {
            assert forall|k: int| 1 <= k < n implies is_num_cont_char(#[trigger] s[k]) by {
                assert(s[k] == w[k]);
            }
            lemma_scan_num_to(s, 1, n);
            assert(s.subrange(0, n) =~= w);
            assert(spec_step(s, 0) == Step::Tok(t, n));
        },
        TokView::StringLiteral(_) => {
            assert forall|k: int| 1 <= k < n - 1 implies #[trigger] s[k] != '"' by {
                assert(s[k] == w[k]);
            }
            lemma_scan_string_to(s, 1, n - 1);
            assert(s.subrange(1, n - 1) =~= w.subrange(1, n - 1));
            assert(spec_step(s, 0) == Step::Tok(t, n));
        },
        TokView::CharacterLiteral(_) => {
            assert(spec_step(s, 0) == Step::Tok(t, n));
        },
        TokView::Plus => {
            assert(s[0] == w[0]);
            assert(s[1] == ' ');
            assert(spec_step(s, 0) == Step::Tok(t, 1int));
        },
        TokView::Minus => {
            assert(s[0] == w[0]);
            assert(s[1] == ' ');
            assert(spec_step(s, 0) == Step::Tok(t, 1int));
        },
        TokView::Multiply => {
            assert(s[0] == w[0]);
            assert(s[1] == ' ');
            assert(spec_step(s, 0) == Step::Tok(t, 1int));
        },
        TokView::Not => {
            assert(s[0] == w[0]);
            assert(s[1] == ' ');
            assert(spec_step(s, 0) == Step::Tok(t, 1int));
        },
        TokView::GreaterThan => {
            assert(s[0] == w[0]);
            assert(s[1] == ' ');
            assert(spec_step(s, 0) == Step::Tok(t, 1int));
        },
        TokView::LessThan => {
            assert(s[0] == w[0]);
            assert(s[1] == ' ');
            assert(spec_step(s, 0) == Step::Tok(t, 1int));
        },
        TokView::BinaryAnd => {
            assert(s[0] == w[0]);
            assert(s[1] == ' ');
            assert(spec_step(s, 0) == Step::Tok(t, 1int));
        },
        TokView::BinaryOr => {
            assert(s[0] == w[0]);
            assert(s[1] == ' ');
            assert(spec_step(s, 0) == Step::Tok(t, 1int));
        },
        TokView::Divide => {
            assert(s[0] == w[0]);
            assert(s[1] == ' ');
            assert(spec_step(s, 0) == Step::Tok(t, 1int));
        },
        TokView::Modulo => {
            assert(s[0] == w[0]);
            assert(s[1] == ' ');
            assert(spec_step(s, 0) == Step::Tok(t, 1int));
        },
        TokView::Dot => {
            assert(s[0] == w[0]);
            assert(s[1] == ' ');
            assert(spec_step(s, 0) == Step::Tok(t, 1int));
        },
        TokView::Comma => {
            assert(s[0] == w[0]);
            assert(s[1] == ' ');
            assert(spec_step(s, 0) == Step::Tok(t, 1int));
        },
        TokView::Semicolon => {
            assert(s[0] == w[0]);
            assert(s[1] == ' ');
            assert(spec_step(s, 0) == Step::Tok(t, 1int));
        },
        TokView::LeftParenthesis => {
            assert(s[0] == w[0]);
            assert(s[1] == ' ');
            assert(spec_step(s, 0) == Step::Tok(t, 1int));
        },
        TokView::RightParenthesis => {
            assert(s[0] == w[0]);
            assert(s[1] == ' ');
            assert(spec_step(s, 0) == Step::Tok(t, 1int));
        },
        TokView::LeftBracket => {
            assert(s[0] == w[0]);
            assert(s[1] == ' ');
            assert(spec_step(s, 0) == Step::Tok(t, 1int));
        },
        TokView::RightBracket => {
            assert(s[0] == w[0]);
            assert(s[1] == ' ');
            assert(spec_step(s, 0) == Step::Tok(t, 1int));
        },
        TokView::LeftBrace => {
            assert(s[0] == w[0]);
            assert(s[1] == ' ');
            assert(spec_step(s, 0) == Step::Tok(t, 1int));
        },
        TokView::RightBrace => {
            assert(s[0] == w[0]);
            assert(s[1] == ' ');
            assert(spec_step(s, 0) == Step::Tok(t, 1int));
        },
        TokView::Xor => {
            assert(s[0] == w[0]);
            assert(s[1] == ' ');
            assert(spec_step(s, 0) == Step::Tok(t, 1int));
        },
        TokView::BinaryNegate => {
            assert(s[0] == w[0]);
            assert(s[1] == ' ');
            assert(spec_step(s, 0) == Step::Tok(t, 1int));
        },
        TokView::Increment => {
            assert(s[0] == w[0] && s[1] == w[1]);
            assert(spec_step(s, 0) == Step::Tok(t, 2int));
        },
        TokView::PlusEquals => {
            assert(s[0] == w[0] && s[1] == w[1]);
            assert(spec_step(s, 0) == Step::Tok(t, 2int));
        },
        TokView::Decrement => {
            assert(s[0] == w[0] && s[1] == w[1]);
            assert(spec_step(s, 0) == Step::Tok(t, 2int));
        },
        TokView::MinusEquals => {
            assert(s[0] == w[0] && s[1] == w[1]);
            assert(spec_step(s, 0) == Step::Tok(t, 2int));
        },
        TokView::NotEquals => {
            assert(s[0] == w[0] && s[1] == w[1]);
            assert(spec_step(s, 0) == Step::Tok(t, 2int));
        },
        TokView::GreaterEquals => {
            assert(s[0] == w[0] && s[1] == w[1]);
            assert(spec_step(s, 0) == Step::Tok(t, 2int));
        },
        TokView::LessEquals => {
            assert(s[0] == w[0] && s[1] == w[1]);
            assert(spec_step(s, 0) == Step::Tok(t, 2int));
        },
        TokView::LogicalAnd => {
            assert(s[0] == w[0] && s[1] == w[1]);
            assert(spec_step(s, 0) == Step::Tok(t, 2int));
        },
        TokView::LogicalOr => {
            assert(s[0] == w[0] && s[1] == w[1]);
            assert(spec_step(s, 0) == Step::Tok(t, 2int));
        },
        TokView::Assign => {
            assert(s[0] == w[0] && s[1] == w[1]);
            assert(spec_step(s, 0) == Step::Tok(t, 2int));
        },
        TokView::Equals => {
            assert(s[0] == w[0] && s[1] == w[1]);
            assert(spec_step(s, 0) == Step::Tok(t, 2int));
        },
        TokView::ShiftRight => {
            assert(s[0] == w[0] && s[1] == w[1]);
            assert(spec_step(s, 0) == Step::Tok(t, 2int));
        },
        TokView::ShiftLeft => {
            assert(s[0] == w[0] && s[1] == w[1]);
            assert(spec_step(s, 0) == Step::Tok(t, 2int));
        },
        _ => {},
    }
}

/// Scans depend only on the text from their start position on: they
/// shift over any prefix.
proof fn lemma_scan_shift(u: Seq<char>, v: Seq<char>, j: int)
    requires
        0 <= j <= v.len(),
    ensures
        scan_comment_end(u + v, u.len() + j) == u.len() + scan_comment_end(v, j),
        scan_ident_end(u + v, u.len() + j) == u.len() + scan_ident_end(v, j),
        scan_num_end(u + v, u.len() + j) == u.len() + scan_num_end(v, j),
        scan_string_end(u + v, u.len() + j) == u.len() + scan_string_end(v, j),
    decreases v.len() - j,
{
    if j < v.len() {
        assert((u + v)[u.len() + j] == v[j]);
        lemma_scan_shift(u, v, j + 1);
    }
}

/// A step that does not fail depends only on the text from its
/// position on: it shifts over any prefix.
proof fn lemma_step_shift(u: Seq<char>, v: Seq<char>, j: int)
    requires
        0 <= j < v.len(),
    ensures
        match spec_step(v, j) {
            Step::Tok(t, m) => spec_step(u + v, u.len() + j) == Step::Tok(t, u.len() + m),
            Step::Skip(m) => spec_step(u + v, u.len() + j) == Step::Skip(u.len() + m),
            Step::Halt => spec_step(u + v, u.len() + j) == Step::Halt,
            Step::Fail(_) => spec_step(u + v, u.len() + j) is Fail,
        },
{
    let s = u + v;
    let b = u.len() as int;
    assert forall|k: int| 0 <= k < v.len() implies s[b + k] == #[trigger] v[k] by {}
    lemma_scan_shift(u, v, j);
    if is_id_start_char(v[j]) {
        let m = scan_ident_end(v, j + 1);
        crate::lex_spec::lemma_scan_ident_end(v, j + 1);
        lemma_scan_shift(u, v, j + 1);
        assert(s.subrange(b + j, b + m) =~= v.subrange(j, m));
    }
    if is_digit_char(v[j]) {
        let m = scan_num_end(v, j + 1);
        crate::lex_spec::lemma_scan_num_end(v, j + 1);
        lemma_scan_shift(u, v, j + 1);
        assert(s.subrange(b + j, b + m) =~= v.subrange(j, m));
    }
    if v[j] == '"' {
        let m = scan_string_end(v, j + 1);
        crate::lex_spec::lemma_scan_string_end(v, j + 1);
        lemma_scan_shift(u, v, j + 1);
        if m < v.len() {
            assert(s.subrange(b + j + 1, b + m) =~= v.subrange(j + 1, m));
        }
    }
    if v[j] == '#' {
        lemma_scan_shift(u, v, j + 1);
    }
}

/// A tokenization that succeeds depends only on the text from its
/// position on: it shifts over any prefix.
proof fn lemma_lex_from_shift(u: Seq<char>, v: Seq<char>, j: int, r: Seq<TokView>)
    requires
        0 <= j <= v.len(),
        spec_lex_from(v, j) == Ok::<Seq<TokView>, LexErrView>(r),
    ensures
        spec_lex_from(u + v, u.len() + j) == Ok::<Seq<TokView>, LexErrView>(r),
    decreases v.len() - j,
{
    let s = u + v;
    let b = u.len() as int;
    if j == v.len() {
        assert(s.len() == b + v.len());
    } else {
        crate::lex_spec::lemma_spec_step_advances(v, j);
        lemma_step_shift(u, v, j);
        match spec_step(v, j) {
            Step::Halt => {},
            Step::Fail(_) => {},
            Step::Skip(m) => {
                lemma_lex_from_shift(u, v, m, r);
            },
            Step::Tok(t, m) => {
                match spec_lex_from(v, m) {
                    Ok(rest) => {
                        lemma_lex_from_shift(u, v, m, rest);
                    },
                    Err(_) => {},
                }
            },
        }
    }
}

/// Spelling-level round trip: re-tokenizing the text built from a
/// token sequence's spellings, one space after each, reproduces
/// exactly that token sequence.
pub proof fn lemma_token_sequence_round_trip(ts: Seq<TokView>, ws: Seq<Seq<char>>)
    requires
        ts.len() == ws.len(),
        forall|k: int| 0 <= k < ts.len() ==> spells(#[trigger] ts[k], ws[k]),
    ensures
        spec_lex(join_spaced(ws)) == Ok::<Seq<TokView>, LexErrView>(ts),
    decreases ts.len(),
{
    let s = join_spaced(ws);
    if ts.len() == 0 {
        assert(ts =~= Seq::<TokView>::empty());
    } else {
        let t = ts[0];
        let w = ws[0];
        let u = w + seq![' '];
        let v = join_spaced(ws.drop_first());
        assert(spells(t, w));
        assert(s == w + seq![' '] + v);
        assert(s =~= u + v);
        assert(s.subrange(0, w.len() as int) =~= w);
        assert(s[w.len() as int] == ' ');
        assert(0 < w.len()) by {
            lemma_spelling_nonempty(t, w);
        }
        lemma_step_of_spelling(t, w, s);
        // after the token, the joining space is skipped
        assert(spec_step(s, w.len() as int) == Step::Skip(w.len() as int + 1));
        // and the rest of the text tokenizes to the rest of the tokens
        lemma_token_sequence_round_trip(ts.drop_first(), ws.drop_first());
        lemma_lex_from_shift(u, v, 0, ts.drop_first());
        assert(u.len() == w.len() + 1);
        assert(spec_lex_from(s, w.len() as int + 1) == Ok::<Seq<TokView>, LexErrView>(ts.drop_first()));
        assert(spec_lex_from(s, w.len() as int) == Ok::<Seq<TokView>, LexErrView>(
            ts.drop_first(),
        ));
        assert(seq![t] + ts.drop_first() =~= ts);
    }
}

/// Every spelling is at least one character long.
proof fn lemma_spelling_nonempty(t: TokView, w: Seq<char>)
    requires
        spells(t, w),
    ensures
        0 < w.len(),
{
    reveal_strlit("let");
    reveal_strlit("func");
    reveal_strlit("return");
    reveal_strlit("if");
    reveal_strlit("else");
    reveal_strlit("while");
    reveal_strlit("for");
    reveal_strlit("break");
    reveal_strlit("continue");
    reveal_strlit("null");
    reveal_strlit("true");
    reveal_strlit("false");
    reveal_strlit("+");
    reveal_strlit("++");
    reveal_strlit("+=");
    reveal_strlit("-");
    reveal_strlit("--");
    reveal_strlit("-=");
    reveal_strlit("*");
    reveal_strlit("!");
    reveal_strlit("!=");
    reveal_strlit(">");
    reveal_strlit(">=");
    reveal_strlit("<");
    reveal_strlit("<=");
    reveal_strlit("&");
    reveal_strlit("&&");
    reveal_strlit("|");
    reveal_strlit("||");
    reveal_strlit(":=");
    reveal_strlit("==");
    reveal_strlit(">>");
    reveal_strlit("<<");
    reveal_strlit("/");
    reveal_strlit("%");
    reveal_strlit(".");
    reveal_strlit(",");
    reveal_strlit(";");
    reveal_strlit("(");
    reveal_strlit(")");
    reveal_strlit("[");
    reveal_strlit("]");
    reveal_strlit("{");
    reveal_strlit("}");
    reveal_strlit("^");
    reveal_strlit("~");
}

} // verus!
