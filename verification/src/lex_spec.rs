use vstd::prelude::*;
use crate::token::TokView;
use crate::lex_error::LexErrView;
use crate::source::pos_at;

verus! {

// ----- character classes -----

/// Whitespace, the set `char::is_whitespace` accepts.
pub open spec fn is_space_char(c: char) -> bool {
    ||| c as u32 == 0x20
    ||| (0x09 <= c as u32 && c as u32 <= 0x0d)
    ||| c as u32 == 0x85
    ||| c as u32 == 0xa0
    ||| c as u32 == 0x1680
    ||| (0x2000 <= c as u32 && c as u32 <= 0x200a)
    ||| c as u32 == 0x2028
    ||| c as u32 == 0x2029
    ||| c as u32 == 0x202f
    ||| c as u32 == 0x205f
    ||| c as u32 == 0x3000
}

/// An ASCII decimal digit.
pub open spec fn is_digit_char(c: char) -> bool {
    0x30 <= c as u32 && c as u32 <= 0x39
}

/// A character that may open an identifier: an ASCII letter or `_`.
pub open spec fn is_id_start_char(c: char) -> bool {
    ||| (0x41 <= c as u32 && c as u32 <= 0x5a)
    ||| (0x61 <= c as u32 && c as u32 <= 0x7a)
    ||| c as u32 == 0x5f
}

/// A character that may continue an identifier.
pub open spec fn is_id_cont_char(c: char) -> bool {
    is_id_start_char(c) || is_digit_char(c)
}

/// A character that may continue a numeric spelling: a digit or a dot.
pub open spec fn is_num_cont_char(c: char) -> bool {
    is_digit_char(c) || c == '.'
}

/// An ASCII character (code below 128).
pub open spec fn is_ascii_char(c: char) -> bool {
    c as u32 <= 0x7f
}

// ----- greedy scanning -----

/// Where a line comment ends: the first position at or after `i` that
/// holds a newline, or the end of `s`.
pub open spec fn scan_comment_end(s: Seq<char>, i: int) -> int
    decreases s.len() - i,
    when 0 <= i <= s.len()
{
    if i < s.len() && s[i] != '\n' {
        scan_comment_end(s, i + 1)
    } else {
        i
    }
}

/// The comment scan stays within the text, stops at the first newline,
/// and passes only over characters that are not newlines.
pub proof fn lemma_scan_comment_end(s: Seq<char>, i: int)
    requires
        0 <= i <= s.len(),
    ensures
        i <= scan_comment_end(s, i) <= s.len(),
        scan_comment_end(s, i) < s.len() ==> s[scan_comment_end(s, i)] == '\n',
        forall|k: int| i <= k < scan_comment_end(s, i) ==> #[trigger] s[k] != '\n',
    decreases s.len() - i,
{
    if i < s.len() && s[i] != '\n' {
        lemma_scan_comment_end(s, i + 1);
    }
}

/// Where an identifier ends: the first position at or after `i` whose
/// character cannot continue an identifier, or the end of `s`.
pub open spec fn scan_ident_end(s: Seq<char>, i: int) -> int
    decreases s.len() - i,
    when 0 <= i <= s.len()
{
    if i < s.len() && is_id_cont_char(s[i]) {
        scan_ident_end(s, i + 1)
    } else {
        i
    }
}

/// The identifier scan stays within the text, accepts every character
/// it passed over, and stops at the first it refuses.
pub proof fn lemma_scan_ident_end(s: Seq<char>, i: int)
    requires
        0 <= i <= s.len(),
    ensures
        i <= scan_ident_end(s, i) <= s.len(),
        scan_ident_end(s, i) < s.len() ==> !is_id_cont_char(s[scan_ident_end(s, i)]),
        forall|k: int| i <= k < scan_ident_end(s, i) ==> is_id_cont_char(#[trigger] s[k]),
    decreases s.len() - i,
{
    if i < s.len() && is_id_cont_char(s[i]) {
        lemma_scan_ident_end(s, i + 1);
    }
}

/// Where a numeric spelling ends: the first position at or after `i`
/// whose character is neither a digit nor a dot, or the end of `s`.
pub open spec fn scan_num_end(s: Seq<char>, i: int) -> int
    decreases s.len() - i,
    when 0 <= i <= s.len()
{
    if i < s.len() && is_num_cont_char(s[i]) {
        scan_num_end(s, i + 1)
    } else {
        i
    }
}

/// The numeric scan stays within the text, accepts every character it
/// passed over, and stops at the first it refuses.
pub proof fn lemma_scan_num_end(s: Seq<char>, i: int)
    requires
        0 <= i <= s.len(),
    ensures
        i <= scan_num_end(s, i) <= s.len(),
        scan_num_end(s, i) < s.len() ==> !is_num_cont_char(s[scan_num_end(s, i)]),
        forall|k: int| i <= k < scan_num_end(s, i) ==> is_num_cont_char(#[trigger] s[k]),
    decreases s.len() - i,
{
    if i < s.len() && is_num_cont_char(s[i]) {
        lemma_scan_num_end(s, i + 1);
    }
}

/// Where a string literal's content ends: the first position at or
/// after `i` that holds a double quote, or the end of `s`.
pub open spec fn scan_string_end(s: Seq<char>, i: int) -> int
    decreases s.len() - i,
    when 0 <= i <= s.len()
{
    if i < s.len() && s[i] != '"' {
        scan_string_end(s, i + 1)
    } else {
        i
    }
}

/// The string scan stays within the text, stops at the first quote,
/// and passes only over characters that are not quotes.
pub proof fn lemma_scan_string_end(s: Seq<char>, i: int)
    requires
        0 <= i <= s.len(),
    ensures
        i <= scan_string_end(s, i) <= s.len(),
        scan_string_end(s, i) < s.len() ==> s[scan_string_end(s, i)] == '"',
        forall|k: int| i <= k < scan_string_end(s, i) ==> #[trigger] s[k] != '"',
    decreases s.len() - i,
{
    if i < s.len() && s[i] != '"' {
        lemma_scan_string_end(s, i + 1);
    }
}

// ----- keywords and numbers -----


/// Resolves a scanned word against the fixed keyword table; anything
/// else is an identifier.
pub open spec fn kw_view(w: Seq<char>) -> TokView {
    if w == "let"@ {
        TokView::Let
    } else if w == "func"@ {
        TokView::Func
    } else if w == "return"@ {
        TokView::Return
    } else if w == "if"@ {
        TokView::If
    } else if w == "else"@ {
        TokView::Else
    } else if w == "while"@ {
        TokView::While
    } else if w == "for"@ {
        TokView::For
    } else if w == "break"@ {
        TokView::Break
    } else if w == "continue"@ {
        TokView::Continue
    } else if w == "null"@ {
        TokView::Null
    } else if w == "true"@ {
        TokView::BooleanLiteral(true)
    } else if w == "false"@ {
        TokView::BooleanLiteral(false)
    } else {
        TokView::Identifier(w)
    }
}

/// How many dots a spelling holds.
pub open spec fn count_dots(cs: Seq<char>) -> int
    decreases cs.len(),
{
    if cs.len() == 0 {
        0
    } else {
        count_dots(cs.drop_last()) + if cs.last() == '.' {
            1int
        } else {
            0int
        }
    }
}

/// The value of a digit string read in base ten.
pub open spec fn digits_val(cs: Seq<char>) -> int
    decreases cs.len(),
{
    if cs.len() == 0 {
        0
    } else {
        digits_val(cs.drop_last()) * 10 + (cs.last() as u32 - 0x30)
    }
}

/// The token (or error) a scanned numeric spelling denotes, with `pos`
/// the position right after it.  A spelling without a dot is an integer
/// if its value fits in 64 signed bits; one dot makes a decimal; more
/// make the text invalid, as does an integer out of range.
pub open spec fn num_token(text: Seq<char>, pos: (int, int)) -> Result<TokView, LexErrView> {
    if count_dots(text) == 0 {
        if digits_val(text) <= i64::MAX {
            Ok(TokView::IntegerLiteral(digits_val(text)))
        } else {
            Err(LexErrView::Invalid(text, pos))
        }
    } else if count_dots(text) == 1 {
        Ok(TokView::DecimalLiteral(text))
    } else {
        Err(LexErrView::Invalid(text, pos))
    }
}

// ----- one tokenizer step -----

/// What one dispatch of the tokenizer does at position `i`: produce a
/// token and move on, skip some characters, halt, or fail.
pub ghost enum Step {
    Tok(TokView, int),
    Skip(int),
    Halt,
    Fail(LexErrView),
}

/// One dispatch of the tokenizer at position `i` of `s` (with `i` in
/// range): classify `s[i]` and scan the rest of the lexeme, resolving
/// every ambiguous operator with one character of lookahead.
pub open spec fn spec_step(s: Seq<char>, i: int) -> Step {
    let c = s[i];
    if c == '\0' {
        Step::Halt
    } else if c == '#' {
        Step::Skip(scan_comment_end(s, i + 1))
    } else if is_space_char(c) {
        Step::Skip(i + 1)
    } else if is_id_start_char(c) {
        let j = scan_ident_end(s, i + 1);
        Step::Tok(kw_view(s.subrange(i, j)), j)
    } else if is_digit_char(c) {
        let j = scan_num_end(s, i + 1);
        match num_token(s.subrange(i, j), pos_at(s, j)) {
            Ok(t) => Step::Tok(t, j),
            Err(e) => Step::Fail(e),
        }
    } else if c == '"' {
        let j = scan_string_end(s, i + 1);
        if j < s.len() {
            Step::Tok(TokView::StringLiteral(s.subrange(i + 1, j)), j + 1)
        } else {
            Step::Fail(LexErrView::UnexpectedEOF)
        }
    } else if c == '\'' {
        if i + 1 >= s.len() {
            Step::Fail(LexErrView::UnexpectedEOF)
        } else if !is_ascii_char(s[i + 1]) {
            Step::Fail(LexErrView::Unexpected(s[i + 1], pos_at(s, i + 2)))
        } else if i + 2 >= s.len() {
            Step::Fail(LexErrView::UnexpectedEOF)
        } else if s[i + 2] != '\'' {
            Step::Fail(LexErrView::Expected('\'', s[i + 2], pos_at(s, i + 3)))
        } else {
            Step::Tok(TokView::CharacterLiteral(s[i + 1]), i + 3)
        }
    } else if c == ';' {
        Step::Tok(TokView::Semicolon, i + 1)
    } else if c == '*' {
        Step::Tok(TokView::Multiply, i + 1)
    } else if c == '/' {
        Step::Tok(TokView::Divide, i + 1)
    } else if c == '%' {
        Step::Tok(TokView::Modulo, i + 1)
    } else if c == '.' {
        Step::Tok(TokView::Dot, i + 1)
    } else if c == ',' {
        Step::Tok(TokView::Comma, i + 1)
    } else if c == '{' {
        Step::Tok(TokView::LeftBrace, i + 1)
    } else if c == '}' {
        Step::Tok(TokView::RightBrace, i + 1)
    } else if c == '(' {
        Step::Tok(TokView::LeftParenthesis, i + 1)
    } else if c == ')' {
        Step::Tok(TokView::RightParenthesis, i + 1)
    } else if c == '[' {
        Step::Tok(TokView::LeftBracket, i + 1)
    } else if c == ']' {
        Step::Tok(TokView::RightBracket, i + 1)
    } else if c == '^' {
        Step::Tok(TokView::Xor, i + 1)
    } else if c == '~' {
        Step::Tok(TokView::BinaryNegate, i + 1)
    } else if c == '=' {
        if i + 1 >= s.len() {
            Step::Fail(LexErrView::UnexpectedEOF)
        } else if s[i + 1] != '=' {
            Step::Fail(LexErrView::Expected('=', s[i + 1], pos_at(s, i + 2)))
        } else {
            Step::Tok(TokView::Equals, i + 2)
        }
    } else if c == ':' {
        if i + 1 >= s.len() {
            Step::Fail(LexErrView::UnexpectedEOF)
        } else if s[i + 1] != '=' {
            Step::Fail(LexErrView::Expected('=', s[i + 1], pos_at(s, i + 2)))
        } else {
            Step::Tok(TokView::Assign, i + 2)
        }
    } else if c == '+' {
        if i + 1 < s.len() && s[i + 1] == '+' {
            Step::Tok(TokView::Increment, i + 2)
        } else if i + 1 < s.len() && s[i + 1] == '=' {
            Step::Tok(TokView::PlusEquals, i + 2)
        } else {
            Step::Tok(TokView::Plus, i + 1)
        }
    } else if c == '-' {
        if i + 1 < s.len() && s[i + 1] == '-' {
            Step::Tok(TokView::Decrement, i + 2)
        } else if i + 1 < s.len() && s[i + 1] == '=' {
            Step::Tok(TokView::MinusEquals, i + 2)
        } else {
            Step::Tok(TokView::Minus, i + 1)
        }
    } else if c == '!' {
        if i + 1 < s.len() && s[i + 1] == '=' {
            Step::Tok(TokView::NotEquals, i + 2)
        } else {
            Step::Tok(TokView::Not, i + 1)
        }
    } else if c == '>' {
        if i + 1 < s.len() && s[i + 1] == '>' {
            Step::Tok(TokView::ShiftRight, i + 2)
        } else if i + 1 < s.len() && s[i + 1] == '=' {
            Step::Tok(TokView::GreaterEquals, i + 2)
        } else {
            Step::Tok(TokView::GreaterThan, i + 1)
        }
    } else if c == '<' {
        if i + 1 < s.len() && s[i + 1] == '<' {
            Step::Tok(TokView::ShiftLeft, i + 2)
        } else if i + 1 < s.len() && s[i + 1] == '=' {
            Step::Tok(TokView::LessEquals, i + 2)
        } else {
            Step::Tok(TokView::LessThan, i + 1)
        }
    } else if c == '&' {
        if i + 1 < s.len() && s[i + 1] == '&' {
            Step::Tok(TokView::LogicalAnd, i + 2)
        } else {
            Step::Tok(TokView::BinaryAnd, i + 1)
        }
    } else if c == '|' {
        if i + 1 < s.len() && s[i + 1] == '|' {
            Step::Tok(TokView::LogicalOr, i + 2)
        } else {
            Step::Tok(TokView::BinaryOr, i + 1)
        }
    } else {
        Step::Fail(LexErrView::Unknown(c, pos_at(s, i + 1)))
    }
}

/// Every step stands still or moves forward, never past the end: a
/// produced token always consumes at least one character.
pub proof fn lemma_spec_step_advances(s: Seq<char>, i: int)
    requires
        0 <= i < s.len(),
    ensures
        match spec_step(s, i) {
            Step::Tok(_, j) => i < j <= s.len(),
            Step::Skip(j) => i < j <= s.len(),
            _ => true,
        },
{
    lemma_scan_comment_end(s, i + 1);
    lemma_scan_ident_end(s, i + 1);
    lemma_scan_num_end(s, i + 1);
    lemma_scan_string_end(s, i + 1);
}

// ----- the whole tokenization -----

/// Tokenizing `s` from position `i` on: the ordered sequence of the
/// remaining tokens, or the first lexical error.  The `'\0'` sentinel
/// stops the scan like the end of input.
pub open spec fn spec_lex_from(s: Seq<char>, i: int) -> Result<Seq<TokView>, LexErrView>
    decreases s.len() - i,
    when 0 <= i <= s.len()
    via spec_lex_from_decreases
{
    if i >= s.len() {
        Ok(Seq::empty())
    } else {
        match spec_step(s, i) {
            Step::Halt => Ok(Seq::empty()),
            Step::Fail(e) => Err(e),
            Step::Skip(j) => spec_lex_from(s, j),
            Step::Tok(t, j) => match spec_lex_from(s, j) {
                Ok(rest) => Ok(seq![t] + rest),
                Err(e) => Err(e),
            },
        }
    }
}

#[via_fn]
proof fn spec_lex_from_decreases(s: Seq<char>, i: int) {
    if 0 <= i < s.len() {
        lemma_spec_step_advances(s, i);
    }
}

/// The tokenization of the whole text: what the tokenizer owes for
/// every input.
pub open spec fn spec_lex(s: Seq<char>) -> Result<Seq<TokView>, LexErrView> {
    spec_lex_from(s, 0)
}

} // verus!
