use vstd::prelude::*;
use crate::token::{Token, TokView};
use crate::lex_error::{TokenError, LexErrView};
use crate::source::{Source, pos_at};
use crate::lex_spec::{
    Step, count_dots, digits_val, is_ascii_char, is_digit_char, is_id_cont_char, is_id_start_char,
    is_num_cont_char, is_space_char, kw_view, lemma_scan_comment_end, lemma_scan_ident_end,
    lemma_scan_num_end, lemma_scan_string_end, lemma_spec_step_advances, num_token,
    scan_comment_end, scan_ident_end, scan_num_end, scan_string_end, spec_lex, spec_lex_from,
    spec_step,
};

verus! {

/// The token sequence `ts` denotes, token by token.
pub open spec fn views(ts: Seq<Token>) -> Seq<TokView> {
    ts.map_values(|t: Token| t@)
}

/// Prefixing an already-produced token sequence onto the outcome of
/// tokenizing the rest: errors swallow the prefix, as the tokenizer
/// surfaces no partial results.
pub open spec fn lex_prepend(
    pre: Seq<TokView>,
    r: Result<Seq<TokView>, LexErrView>,
) -> Result<Seq<TokView>, LexErrView> {
    match r {
        Ok(rest) => Ok(pre + rest),
        Err(e) => Err(e),
    }
}

proof fn lemma_views_push(ts: Seq<Token>, t: Token)
    ensures
        views(ts.push(t)) == views(ts).push(t@),
{
    assert(views(ts.push(t)) =~= views(ts).push(t@));
}

proof fn lemma_step_tok(s: Seq<char>, i0: int, pre: Seq<TokView>, t: TokView, j: int)
    requires
        0 <= i0 < s.len(),
        spec_step(s, i0) == Step::Tok(t, j),
        spec_lex(s) == lex_prepend(pre, spec_lex_from(s, i0)),
    ensures
        i0 < j <= s.len(),
        spec_lex(s) == lex_prepend(pre.push(t), spec_lex_from(s, j)),
{
    lemma_spec_step_advances(s, i0);
    match spec_lex_from(s, j) {
        Ok(rest) => {
            assert(pre + (seq![t] + rest) =~= pre.push(t) + rest);
        },
        Err(_) => {},
    }
}

proof fn lemma_step_skip(s: Seq<char>, i0: int, pre: Seq<TokView>, j: int)
    requires
        0 <= i0 < s.len(),
        spec_step(s, i0) == Step::Skip(j),
        spec_lex(s) == lex_prepend(pre, spec_lex_from(s, i0)),
    ensures
        i0 < j <= s.len(),
        spec_lex(s) == lex_prepend(pre, spec_lex_from(s, j)),
{
    lemma_spec_step_advances(s, i0);
}

proof fn lemma_step_fail(s: Seq<char>, i0: int, pre: Seq<TokView>, e: LexErrView)
    requires
        0 <= i0 < s.len(),
        spec_step(s, i0) == Step::Fail(e),
        spec_lex(s) == lex_prepend(pre, spec_lex_from(s, i0)),
    ensures
        spec_lex(s) == Err::<Seq<TokView>, LexErrView>(e),
{
}

proof fn lemma_step_halt(s: Seq<char>, i0: int, pre: Seq<TokView>)
    requires
        0 <= i0 < s.len(),
        spec_step(s, i0) == Step::Halt,
        spec_lex(s) == lex_prepend(pre, spec_lex_from(s, i0)),
    ensures
        spec_lex(s) == Ok::<Seq<TokView>, LexErrView>(pre),
{
    assert(pre + Seq::<TokView>::empty() =~= pre);
}

// ----- character classification, executable -----

/// True iff `c` is whitespace.
fn is_space(c: char) -> (r: bool)
    ensures
        r == is_space_char(c),
{
    let u = c as u32;
    u == 0x20 || (0x09 <= u && u <= 0x0d) || u == 0x85 || u == 0xa0 || u == 0x1680 || (0x2000 <= u
        && u <= 0x200a) || u == 0x2028 || u == 0x2029 || u == 0x202f || u == 0x205f || u == 0x3000
}

/// True iff `c` may open an identifier: an ASCII letter or underscore.
fn is_id_start(c: char) -> (r: bool)
    ensures
        r == is_id_start_char(c),
{
    let u = c as u32;
    (0x41 <= u && u <= 0x5a) || (0x61 <= u && u <= 0x7a) || u == 0x5f
}

/// True iff `c` may continue an identifier.
fn is_id_cont(c: char) -> (r: bool)
    ensures
        r == is_id_cont_char(c),
{
    is_id_start(c) || is_digit(c)
}

/// True iff `c` is an ASCII decimal digit.
fn is_digit(c: char) -> (r: bool)
    ensures
        r == is_digit_char(c),
{
    let u = c as u32;
    0x30 <= u && u <= 0x39
}

/// True iff `c` is an ASCII character.
fn is_ascii(c: char) -> (r: bool)
    ensures
        r == is_ascii_char(c),
{
    c as u32 <= 0x7f
}

// ----- small string helpers -----

/// Relies on `String::push`: appends the given character to the end of
/// the string.
#[verifier::external_body]
fn push_char(s: &mut String, c: char)
    ensures
        final(s)@ == old(s)@.push(c),
{
    s.push(c);
}

/// Character-for-character string comparison.
fn str_eq(a: &str, b: &str) -> (r: bool)
    ensures
        r == (a@ == b@),
{
    let la = a.unicode_len();
    let lb = b.unicode_len();
    if la != lb {
        return false;
    }
    let mut i: usize = 0;
    while i < la
        invariant
            i <= la,
            la == a@.len(),
            lb == b@.len(),
            la == lb,
            forall|k: int| 0 <= k < i ==> a@[k] == #[trigger] b@[k],
        decreases la - i,
    {
        if a.get_char(i) != b.get_char(i) {
            return false;
        }
        i = i + 1;
    }
    proof {
        assert(a@ =~= b@);
    }
    true
}

/// Resolves a scanned word against the fixed keyword table; an
/// unmatched word becomes an identifier.
fn match_keyword(word: &String) -> (t: Token)
    ensures
        t@ == kw_view(word@),
{
    if str_eq(word.as_str(), "let") {
        Token::Let
    } else if str_eq(word.as_str(), "func") {
        Token::Func
    } else if str_eq(word.as_str(), "return") {
        Token::Return
    } else if str_eq(word.as_str(), "if") {
        Token::If
    } else if str_eq(word.as_str(), "else") {
        Token::Else
    } else if str_eq(word.as_str(), "while") {
        Token::While
    } else if str_eq(word.as_str(), "for") {
        Token::For
    } else if str_eq(word.as_str(), "break") {
        Token::Break
    } else if str_eq(word.as_str(), "continue") {
        Token::Continue
    } else if str_eq(word.as_str(), "null") {
        Token::Null
    } else if str_eq(word.as_str(), "true") {
        Token::BooleanLiteral(true)
    } else if str_eq(word.as_str(), "false") {
        Token::BooleanLiteral(false)
    } else {
        Token::Identifier(word.clone())
    }
}

// ----- numeric spellings -----

proof fn lemma_count_dots_nonneg(cs: Seq<char>)
    ensures
        count_dots(cs) >= 0,
    decreases cs.len(),
{
    if cs.len() > 0 {
        lemma_count_dots_nonneg(cs.drop_last());
    }
}

proof fn lemma_dot_counted(cs: Seq<char>, k: int)
    requires
        0 <= k < cs.len(),
        cs[k] == '.',
    ensures
        count_dots(cs) >= 1,
    decreases cs.len(),
{
    lemma_count_dots_nonneg(cs.drop_last());
    if k < cs.len() - 1 {
        lemma_dot_counted(cs.drop_last(), k);
    }
}

proof fn lemma_digits_val_nonneg(cs: Seq<char>)
    requires
        forall|k: int| 0 <= k < cs.len() ==> is_digit_char(#[trigger] cs[k]),
    ensures
        digits_val(cs) >= 0,
    decreases cs.len(),
{
    if cs.len() > 0 {
        lemma_digits_val_nonneg(cs.drop_last());
    }
}

proof fn lemma_digits_val_mono(cs: Seq<char>, m: int)
    requires
        0 <= m <= cs.len(),
        forall|k: int| 0 <= k < cs.len() ==> is_digit_char(#[trigger] cs[k]),
    ensures
        digits_val(cs.take(m)) <= digits_val(cs),
    decreases cs.len() - m,
{
    if m == cs.len() {
        assert(cs.take(m) =~= cs);
    } else {
        lemma_digits_val_nonneg(cs.drop_last());
        lemma_digits_val_mono(cs.drop_last(), m);
        assert(cs.drop_last().take(m) =~= cs.take(m));
    }
}

/// Turns a scanned numeric spelling into its token: an integer when the
/// text has no dot and fits 64 signed bits, a decimal on exactly one
/// dot, `Invalid` otherwise.  `lp` is the position right after the
/// spelling, as the error reports it.
fn parse_num(num: String, lp: (i32, i32)) -> (r: Result<Token, TokenError>)
    requires
        forall|k: int| 0 <= k < num@.len() ==> is_num_cont_char(#[trigger] num@[k]),
    ensures
        match r {
            Ok(t) => num_token(num@, (lp.0 as int, lp.1 as int)) == Ok::<TokView, LexErrView>(t@),
            Err(e) => num_token(num@, (lp.0 as int, lp.1 as int)) == Err::<TokView, LexErrView>(
                e@,
            ),
        },
{
    let n = num.as_str().unicode_len();
    let mut dots: usize = 0;
    let mut i: usize = 0;
    while i < n
        invariant
            i <= n,
            n == num@.len(),
            dots == count_dots(num@.take(i as int)),
            dots <= i,
        decreases n - i,
    {
        proof {
            assert(num@.take(i + 1).drop_last() =~= num@.take(i as int));
            assert(num@.take(i + 1).last() == num@[i as int]);
        }
        if num.as_str().get_char(i) == '.' {
            dots = dots + 1;
        }
        i = i + 1;
    }
    proof {
        assert(num@.take(n as int) =~= num@);
    }
    if dots == 0 {
        let mut val: i64 = 0;
        let mut j: usize = 0;
        proof {
            assert forall|k: int| 0 <= k < num@.len() implies is_digit_char(#[trigger] num@[k]) by {
                if num@[k] == '.' {
                    lemma_dot_counted(num@, k);
                }
            }
        }
        while j < n
            invariant
                j <= n,
                n == num@.len(),
                forall|k: int| 0 <= k < num@.len() ==> is_digit_char(#[trigger] num@[k]),
                count_dots(num@) == 0,
                val == digits_val(num@.take(j as int)),
            decreases n - j,
        {
            let c = num.as_str().get_char(j);
            let d = (c as u32) - 0x30;
            proof {
                assert(num@.take(j + 1).drop_last() =~= num@.take(j as int));
                assert(num@.take(j + 1).last() == num@[j as int]);
                lemma_digits_val_nonneg(num@.take(j as int));
            }
            let scaled = match val.checked_mul(10) {
                Some(v) => v,
                None => {
                    proof {
                        lemma_digits_val_mono(num@, j + 1);
                    }
                    return Err(TokenError::Invalid(num, lp));
                },
            };
            let next = match scaled.checked_add(d as i64) {
                Some(v) => v,
                None => {
                    proof {
                        lemma_digits_val_mono(num@, j + 1);
                    }
                    return Err(TokenError::Invalid(num, lp));
                },
            };
            val = next;
            j = j + 1;
        }
        proof {
            assert(num@.take(n as int) =~= num@);
        }
        Ok(Token::IntegerLiteral(val))
    } else if dots == 1 {
        Ok(Token::DecimalLiteral(num))
    } else {
        Err(TokenError::Invalid(num, lp))
    }
}

// ----- the tokenizer -----

/// The tokenizer: consumes a source cursor end to end and produces the
/// ordered token sequence, or the first lexical error.
pub struct Lexer {
    tokens: Vec<Token>,
    source: String,
}

impl Lexer {
    /// The token sequence kept from the last successful pass.
    pub closed spec fn spec_tokens(&self) -> Seq<Token> {
        self.tokens@
    }

    /// The source text this tokenizer reads.
    pub closed spec fn spec_source(&self) -> Seq<char> {
        self.source@
    }

    /// Creates a tokenizer over the given source text.
    pub fn new(source: String) -> (l: Lexer)
        ensures
            l.spec_source() == source@,
            l.spec_tokens() == Seq::<Token>::empty(),
    {
        Lexer { tokens: Vec::new(), source }
    }

    /// The tokens of the last successful pass.
    pub fn tokens(&self) -> (r: &Vec<Token>)
        ensures
            r@ == self.spec_tokens(),
    {
        &self.tokens
    }

    /// Tokenizes the whole source text eagerly: on success the returned
    /// sequence (also kept in the tokenizer) is exactly the tokenization
    /// of the text; on failure the first lexical error comes back and
    /// nothing is kept.
    #[verifier::loop_isolation(false)]
    #[verifier::rlimit(100)]
    pub fn lex(&mut self) -> (r: Result<Vec<Token>, TokenError>)
        requires
            old(self).spec_source().len() < 0x7fff_ffff,
        ensures
            final(self).spec_source() == old(self).spec_source(),
            match r {
                Ok(v) => {
                    &&& spec_lex(old(self).spec_source()) == Ok::<Seq<TokView>, LexErrView>(
                        views(v@),
                    )
                    &&& final(self).spec_tokens() == v@
                },
                Err(e) => {
                    &&& spec_lex(old(self).spec_source()) == Err::<Seq<TokView>, LexErrView>(e@)
                    &&& final(self).spec_tokens() == old(self).spec_tokens()
                },
            },
    {
        let ghost s = self.source@;
        let mut src = Source::new(&self.source);
        let mut tokens: Vec<Token> = Vec::new();

        while src.has_next()
            invariant
                src.wf(),
                src.text() == s,
                s == self.source@,
                self.tokens@ == old(self).tokens@,
                0 <= src.at() <= s.len(),
                spec_lex(s) == lex_prepend(views(tokens@), spec_lex_from(s, src.at())),
            decreases s.len() - src.at(),
        {
            let ghost i0 = src.at();
            let ghost pre = views(tokens@);
            let c = src.next()?;

            match c {
                '\0' => {
                    proof {
                        lemma_step_halt(s, i0, pre);
                    }
                    let kept = clone_tokens(&tokens);
                    self.tokens = kept;
                    return Ok(tokens);
                },
                '#' => {
                    while src.has_next() && src.peek() != '\n'
                        invariant
                            src.wf(),
                            src.text() == s,
                            i0 < src.at() <= s.len(),
                            scan_comment_end(s, i0 + 1) == scan_comment_end(s, src.at()),
                        decreases s.len() - src.at(),
                    {
                        let _ = src.next();
                    }
                    proof {
                        lemma_step_skip(s, i0, pre, scan_comment_end(s, i0 + 1));
                    }
                },
                w if is_space(w) => {
                    proof {
                        lemma_step_skip(s, i0, pre, i0 + 1);
                    }
                },
                k if is_id_start(k) => {
                    let mut word = String::new();
                    push_char(&mut word, k);
                    while is_id_cont(src.peek())
                        invariant
                            src.wf(),
                            src.text() == s,
                            i0 < src.at() <= s.len(),
                            word@ == s.subrange(i0, src.at()),
                            scan_ident_end(s, i0 + 1) == scan_ident_end(s, src.at()),
                        decreases s.len() - src.at(),
                    {
                        let c2 = src.next()?;
                        push_char(&mut word, c2);
                        proof {
                            assert(s.subrange(i0, src.at()) =~= s.subrange(i0, src.at() - 1).push(
                                s[src.at() - 1],
                            ));
                        }
                    }
                    let tok = match_keyword(&word);
                    proof {
                        let j = scan_ident_end(s, i0 + 1);
                        lemma_step_tok(s, i0, pre, kw_view(s.subrange(i0, j)), j);
                        lemma_views_push(tokens@, tok);
                    }
                    tokens.push(tok);
                },
                d if is_digit(d) => {
                    let mut numtext = String::new();
                    push_char(&mut numtext, d);
                    while is_digit(src.peek()) || src.peek() == '.'
                        invariant
                            src.wf(),
                            src.text() == s,
                            i0 < src.at() <= s.len(),
                            numtext@ == s.subrange(i0, src.at()),
                            scan_num_end(s, i0 + 1) == scan_num_end(s, src.at()),
                        decreases s.len() - src.at(),
                    {
                        let c2 = src.next()?;
                        push_char(&mut numtext, c2);
                        proof {
                            assert(s.subrange(i0, src.at()) =~= s.subrange(i0, src.at() - 1).push(
                                s[src.at() - 1],
                            ));
                        }
                    }
                    proof {
                        lemma_scan_num_end(s, i0 + 1);
                    }
                    match parse_num(numtext, src.lp()) {
                        Ok(tok) => {
                            proof {
                                let j = scan_num_end(s, i0 + 1);
                                lemma_step_tok(s, i0, pre, tok@, j);
                                lemma_views_push(tokens@, tok);
                            }
                            tokens.push(tok);
                        },
                        Err(e) => {
                            proof {
                                lemma_step_fail(s, i0, pre, e@);
                            }
                            return Err(e);
                        },
                    }
                },
                '"' => {
                    let mut content = String::new();
                    while src.has_next() && src.peek() != '"'
                        invariant
                            src.wf(),
                            src.text() == s,
                            i0 < src.at() <= s.len(),
                            content@ == s.subrange(i0 + 1, src.at()),
                            scan_string_end(s, i0 + 1) == scan_string_end(s, src.at()),
                        decreases s.len() - src.at(),
                    {
                        let c2 = src.next()?;
                        push_char(&mut content, c2);
                        proof {
                            assert(s.subrange(i0 + 1, src.at()) =~= s.subrange(
                                i0 + 1,
                                src.at() - 1,
                            ).push(s[src.at() - 1]));
                        }
                    }
                    match src.next() {
                        Ok(_) => {},
                        Err(er) => {
                            proof {
                                lemma_step_fail(s, i0, pre, er@);
                            }
                            return Err(er);
                        },
                    }
                    let tok = Token::StringLiteral(content);
                    proof {
                        let j = scan_string_end(s, i0 + 1);
                        lemma_step_tok(s, i0, pre, tok@, j + 1);
                        lemma_views_push(tokens@, tok);
                    }
                    tokens.push(tok);
                },
                '\'' => {
                    let c2 = match src.next() {
                        Ok(x) => x,
                        Err(er) => {
                            proof {
                                lemma_step_fail(s, i0, pre, er@);
                            }
                            return Err(er);
                        },
                    };
                    if !is_ascii(c2) {
                        let er = TokenError::Unexpected(c2, src.lp());
                        proof {
                            lemma_step_fail(s, i0, pre, er@);
                        }
                        return Err(er);
                    }
                    match src.expect('\'') {
                        Ok(()) => {},
                        Err(er) => {
                            proof {
                                lemma_step_fail(s, i0, pre, er@);
                            }
                            return Err(er);
                        },
                    }
                    let tok = Token::CharacterLiteral(c2);
                    proof {
                        lemma_step_tok(s, i0, pre, tok@, i0 + 3);
                        lemma_views_push(tokens@, tok);
                    }
                    tokens.push(tok);
                },
                ';' => {
                    proof {
                        lemma_step_tok(s, i0, pre, TokView::Semicolon, i0 + 1);
                        lemma_views_push(tokens@, Token::Semicolon);
                    }
                    tokens.push(Token::Semicolon);
                },
                '*' => {
                    proof {
                        lemma_step_tok(s, i0, pre, TokView::Multiply, i0 + 1);
                        lemma_views_push(tokens@, Token::Multiply);
                    }
                    tokens.push(Token::Multiply);
                },
                '/' => {
                    proof {
                        lemma_step_tok(s, i0, pre, TokView::Divide, i0 + 1);
                        lemma_views_push(tokens@, Token::Divide);
                    }
                    tokens.push(Token::Divide);
                },
                '%' => {
                    proof {
                        lemma_step_tok(s, i0, pre, TokView::Modulo, i0 + 1);
                        lemma_views_push(tokens@, Token::Modulo);
                    }
                    tokens.push(Token::Modulo);
                },
                '.' => {
                    proof {
                        lemma_step_tok(s, i0, pre, TokView::Dot, i0 + 1);
                        lemma_views_push(tokens@, Token::Dot);
                    }
                    tokens.push(Token::Dot);
                },
                ',' => {
                    proof {
                        lemma_step_tok(s, i0, pre, TokView::Comma, i0 + 1);
                        lemma_views_push(tokens@, Token::Comma);
                    }
                    tokens.push(Token::Comma);
                },
                '{' => {
                    proof {
                        lemma_step_tok(s, i0, pre, TokView::LeftBrace, i0 + 1);
                        lemma_views_push(tokens@, Token::LeftBrace);
                    }
                    tokens.push(Token::LeftBrace);
                },
                '}' => {
                    proof {
                        lemma_step_tok(s, i0, pre, TokView::RightBrace, i0 + 1);
                        lemma_views_push(tokens@, Token::RightBrace);
                    }
                    tokens.push(Token::RightBrace);
                },
                '(' => {
                    proof {
                        lemma_step_tok(s, i0, pre, TokView::LeftParenthesis, i0 + 1);
                        lemma_views_push(tokens@, Token::LeftParenthesis);
                    }
                    tokens.push(Token::LeftParenthesis);
                },
                ')' => {
                    proof {
                        lemma_step_tok(s, i0, pre, TokView::RightParenthesis, i0 + 1);
                        lemma_views_push(tokens@, Token::RightParenthesis);
                    }
                    tokens.push(Token::RightParenthesis);
                },
                '[' => {
                    proof {
                        lemma_step_tok(s, i0, pre, TokView::LeftBracket, i0 + 1);
                        lemma_views_push(tokens@, Token::LeftBracket);
                    }
                    tokens.push(Token::LeftBracket);
                },
                ']' => {
                    proof {
                        lemma_step_tok(s, i0, pre, TokView::RightBracket, i0 + 1);
                        lemma_views_push(tokens@, Token::RightBracket);
                    }
                    tokens.push(Token::RightBracket);
                },
                '^' => {
                    proof {
                        lemma_step_tok(s, i0, pre, TokView::Xor, i0 + 1);
                        lemma_views_push(tokens@, Token::Xor);
                    }
                    tokens.push(Token::Xor);
                },
                '~' => {
                    proof {
                        lemma_step_tok(s, i0, pre, TokView::BinaryNegate, i0 + 1);
                        lemma_views_push(tokens@, Token::BinaryNegate);
                    }
                    tokens.push(Token::BinaryNegate);
                },
                '=' => {
                    match src.expect('=') {
                        Ok(()) => {},
                        Err(er) => {
                            proof {
                                lemma_step_fail(s, i0, pre, er@);
                            }
                            return Err(er);
                        },
                    }
                    proof {
                        lemma_step_tok(s, i0, pre, TokView::Equals, i0 + 2);
                        lemma_views_push(tokens@, Token::Equals);
                    }
                    tokens.push(Token::Equals);
                },
                ':' => {
                    match src.expect('=') {
                        Ok(()) => {},
                        Err(er) => {
                            proof {
                                lemma_step_fail(s, i0, pre, er@);
                            }
                            return Err(er);
                        },
                    }
                    proof {
                        lemma_step_tok(s, i0, pre, TokView::Assign, i0 + 2);
                        lemma_views_push(tokens@, Token::Assign);
                    }
                    tokens.push(Token::Assign);
                },
                '+' => {
                    match src.peek() {
                        '+' => {
                            let _ = src.next()?;
                            proof {
                                lemma_step_tok(s, i0, pre, TokView::Increment, i0 + 2);
                                lemma_views_push(tokens@, Token::Increment);
                            }
                            tokens.push(Token::Increment);
                        },
                        '=' => {
                            let _ = src.next()?;
                            proof {
                                lemma_step_tok(s, i0, pre, TokView::PlusEquals, i0 + 2);
                                lemma_views_push(tokens@, Token::PlusEquals);
                            }
                            tokens.push(Token::PlusEquals);
                        },
                        _ => {
                            proof {
                                lemma_step_tok(s, i0, pre, TokView::Plus, i0 + 1);
                                lemma_views_push(tokens@, Token::Plus);
                            }
                            tokens.push(Token::Plus);
                        },
                    }
                },
                '-' => {
                    match src.peek() {
                        '-' => {
                            let _ = src.next()?;
                            proof {
                                lemma_step_tok(s, i0, pre, TokView::Decrement, i0 + 2);
                                lemma_views_push(tokens@, Token::Decrement);
                            }
                            tokens.push(Token::Decrement);
                        },
                        '=' => {
                            let _ = src.next()?;
                            proof {
                                lemma_step_tok(s, i0, pre, TokView::MinusEquals, i0 + 2);
                                lemma_views_push(tokens@, Token::MinusEquals);
                            }
                            tokens.push(Token::MinusEquals);
                        },
                        _ => {
                            proof {
                                lemma_step_tok(s, i0, pre, TokView::Minus, i0 + 1);
                                lemma_views_push(tokens@, Token::Minus);
                            }
                            tokens.push(Token::Minus);
                        },
                    }
                },
                '!' => {
                    match src.peek() {
                        '=' => {
                            let _ = src.next()?;
                            proof {
                                lemma_step_tok(s, i0, pre, TokView::NotEquals, i0 + 2);
                                lemma_views_push(tokens@, Token::NotEquals);
                            }
                            tokens.push(Token::NotEquals);
                        },
                        _ => {
                            proof {
                                lemma_step_tok(s, i0, pre, TokView::Not, i0 + 1);
                                lemma_views_push(tokens@, Token::Not);
                            }
                            tokens.push(Token::Not);
                        },
                    }
                },
                '>' => {
                    match src.peek() {
                        '>' => {
                            let _ = src.next()?;
                            proof {
                                lemma_step_tok(s, i0, pre, TokView::ShiftRight, i0 + 2);
                                lemma_views_push(tokens@, Token::ShiftRight);
                            }
                            tokens.push(Token::ShiftRight);
                        },
                        '=' => {
                            let _ = src.next()?;
                            proof {
                                lemma_step_tok(s, i0, pre, TokView::GreaterEquals, i0 + 2);
                                lemma_views_push(tokens@, Token::GreaterEquals);
                            }
                            tokens.push(Token::GreaterEquals);
                        },
                        _ => {
                            proof {
                                lemma_step_tok(s, i0, pre, TokView::GreaterThan, i0 + 1);
                                lemma_views_push(tokens@, Token::GreaterThan);
                            }
                            tokens.push(Token::GreaterThan);
                        },
                    }
                },
                '<' => {
                    match src.peek() {
                        '<' => {
                            let _ = src.next()?;
                            proof {
                                lemma_step_tok(s, i0, pre, TokView::ShiftLeft, i0 + 2);
                                lemma_views_push(tokens@, Token::ShiftLeft);
                            }
                            tokens.push(Token::ShiftLeft);
                        },
                        '=' => {
                            let _ = src.next()?;
                            proof {
                                lemma_step_tok(s, i0, pre, TokView::LessEquals, i0 + 2);
                                lemma_views_push(tokens@, Token::LessEquals);
                            }
                            tokens.push(Token::LessEquals);
                        },
                        _ => {
                            proof {
                                lemma_step_tok(s, i0, pre, TokView::LessThan, i0 + 1);
                                lemma_views_push(tokens@, Token::LessThan);
                            }
                            tokens.push(Token::LessThan);
                        },
                    }
                },
                '&' => {
                    match src.peek() {
                        '&' => {
                            let _ = src.next()?;
                            proof {
                                lemma_step_tok(s, i0, pre, TokView::LogicalAnd, i0 + 2);
                                lemma_views_push(tokens@, Token::LogicalAnd);
                            }
                            tokens.push(Token::LogicalAnd);
                        },
                        _ => {
                            proof {
                                lemma_step_tok(s, i0, pre, TokView::BinaryAnd, i0 + 1);
                                lemma_views_push(tokens@, Token::BinaryAnd);
                            }
                            tokens.push(Token::BinaryAnd);
                        },
                    }
                },
                '|' => {
                    match src.peek() {
                        '|' => {
                            let _ = src.next()?;
                            proof {
                                lemma_step_tok(s, i0, pre, TokView::LogicalOr, i0 + 2);
                                lemma_views_push(tokens@, Token::LogicalOr);
                            }
                            tokens.push(Token::LogicalOr);
                        },
                        _ => {
                            proof {
                                lemma_step_tok(s, i0, pre, TokView::BinaryOr, i0 + 1);
                                lemma_views_push(tokens@, Token::BinaryOr);
                            }
                            tokens.push(Token::BinaryOr);
                        },
                    }
                },
                u => {
                    let er = TokenError::Unknown(u, src.lp());
                    proof {
                        lemma_step_fail(s, i0, pre, er@);
                    }
                    return Err(er);
                },
            }
        }

        let kept = clone_tokens(&tokens);
        self.tokens = kept;
        Ok(tokens)
    }
}

/// An element-for-element copy of a token sequence.
fn clone_tokens(v: &Vec<Token>) -> (r: Vec<Token>)
    ensures
        r@ == v@,
{
    let mut out: Vec<Token> = Vec::new();
    let mut i: usize = 0;
    while i < v.len()
        invariant
            i <= v@.len(),
            out@ == v@.take(i as int),
        decreases v@.len() - i,
    {
        out.push(v[i].clone());
        proof {
            assert(v@.take(i + 1) =~= v@.take(i as int).push(v@[i as int]));
        }
        i = i + 1;
    }
    proof {
        assert(v@.take(v@.len() as int) =~= v@);
    }
    out
}

} // verus!
