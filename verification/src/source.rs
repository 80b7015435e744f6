use vstd::prelude::*;
use crate::lex_error::TokenError;

verus! {

/// Where a cursor stands after reading the characters `cs`, having started
/// at line `l` (1-based) and column `c` (0-based): a newline moves to the
/// next line and resets the column, any other character advances the column.
pub open spec fn adv_pos(l: int, c: int, cs: Seq<char>) -> (int, int)
    decreases cs.len(),
{
    if cs.len() == 0 {
        (l, c)
    } else if cs[0] == '\n' {
        adv_pos(l + 1, 0, cs.skip(1))
    } else {
        adv_pos(l, c + 1, cs.skip(1))
    }
}

/// Appending one character to the consumed text moves the position by one
/// step: to the next line on a newline, to the next column otherwise.
pub proof fn lemma_adv_pos_snoc(l: int, c: int, cs: Seq<char>, x: char)
    ensures
        adv_pos(l, c, cs.push(x)) == if x == '\n' {
            (adv_pos(l, c, cs).0 + 1, 0)
        } else {
            (adv_pos(l, c, cs).0, adv_pos(l, c, cs).1 + 1)
        },
    decreases cs.len(),
{
    if cs.len() == 0 {
        assert(cs.push(x)[0] == x);
        assert(cs.push(x).skip(1) =~= Seq::<char>::empty());
        assert(adv_pos(l + 1, 0, Seq::<char>::empty()) == (l + 1int, 0int));
        assert(adv_pos(l, c + 1, Seq::<char>::empty()) == (l, c + 1int));
    } else {
        assert(cs.push(x)[0] == cs[0]);
        assert(cs.push(x).skip(1) =~= cs.skip(1).push(x));
        if cs[0] == '\n' {
            lemma_adv_pos_snoc(l + 1, 0, cs.skip(1), x);
        } else {
            lemma_adv_pos_snoc(l, c + 1, cs.skip(1), x);
        }
    }
}

/// The line stays at least 1 and line plus column never outgrow the
/// count of consumed characters, so both fit comfortably in `i32` for
/// any text the cursor accepts.
pub proof fn lemma_adv_pos_bounds(l: int, c: int, cs: Seq<char>)
    requires
        1 <= l,
        0 <= c,
    ensures
        1 <= adv_pos(l, c, cs).0,
        0 <= adv_pos(l, c, cs).1,
        adv_pos(l, c, cs).0 + adv_pos(l, c, cs).1 <= l + c + cs.len(),
    decreases cs.len(),
{
    if cs.len() != 0 {
        if cs[0] == '\n' {
            lemma_adv_pos_bounds(l + 1, 0, cs.skip(1));
        } else {
            lemma_adv_pos_bounds(l, c + 1, cs.skip(1));
        }
    }
}

/// The `(line, column)` pair after consuming the first `i` characters of
/// `s`, starting from line 1, column 0.
pub open spec fn pos_at(s: Seq<char>, i: int) -> (int, int) {
    adv_pos(1, 0, s.take(i))
}

/// A source code cursor: a lookahead-1 character stream over the full
/// source text, tracking the current line and column.
pub struct Source {
    text: String,
    len: usize,
    idx: usize,
    line: i32,
    pos: i32,
}

impl Source {
    /// The character sequence this cursor walks.
    pub closed spec fn text(&self) -> Seq<char> {
        self.text@
    }

    /// How many characters were consumed so far.
    pub closed spec fn at(&self) -> int {
        self.idx as int
    }

    /// The count of consumed characters is never negative.
    pub proof fn lemma_at_nonneg(&self)
        ensures
            0 <= self.at(),
    {
    }

    /// The cursor is consistent: the index is within the text, the length
    /// cache is right, and line and column describe the consumed prefix.
    pub closed spec fn wf(&self) -> bool {
        &&& self.idx <= self.text@.len()
        &&& self.len == self.text@.len()
        &&& self.text@.len() < 0x7fff_ffff
        &&& (self.line as int, self.pos as int) == pos_at(self.text@, self.idx as int)
    }

    /// Creates a new source cursor from a string, standing before its
    /// first character at line 1, column 0.
    pub fn new(src: &String) -> (s: Source)
        requires
            src@.len() < 0x7fff_ffff,
        ensures
            s.wf(),
            s.text() == src@,
            s.at() == 0,
    {
        let text = src.clone();
        let len = text.as_str().unicode_len();
        proof {
            assert(text@.take(0) =~= Seq::<char>::empty());
        }
        Source { text, len, idx: 0, line: 1, pos: 0 }
    }

    /// Consumes and returns the next character, or `UnexpectedEOF` if
    /// none is left.  The position advances over the character.
    pub fn next(&mut self) -> (r: Result<char, TokenError>)
        requires
            old(self).wf(),
        ensures
            final(self).wf(),
            final(self).text() == old(self).text(),
            match r {
                Ok(c) => {
                    &&& old(self).at() < old(self).text().len()
                    &&& c == old(self).text()[old(self).at()]
                    &&& final(self).at() == old(self).at() + 1
                },
                Err(e) => {
                    &&& old(self).at() == old(self).text().len()
                    &&& e@ == crate::lex_error::LexErrView::UnexpectedEOF
                    &&& *final(self) == *old(self)
                },
            },
    {
        if self.idx < self.len {
            let c = self.text.as_str().get_char(self.idx);
            proof {
                assert(self.text@.take(self.idx + 1) =~= self.text@.take(self.idx as int).push(
                    self.text@[self.idx as int],
                ));
                lemma_adv_pos_snoc(1, 0, self.text@.take(self.idx as int), self.text@[self.idx as int]);
                lemma_adv_pos_bounds(1, 0, self.text@.take(self.idx + 1));
            }
            self.idx = self.idx + 1;
            if c == '\n' {
                self.line = self.line + 1;
                self.pos = 0;
            } else {
                self.pos = self.pos + 1;
            }
            Ok(c)
        } else {
            Err(TokenError::UnexpectedEOF)
        }
    }

    /// Returns the next character without consuming it, or the `'\0'`
    /// sentinel at end of input.  Never fails.
    pub fn peek(&self) -> (c: char)
        requires
            self.wf(),
        ensures
            c == if self.at() < self.text().len() {
                self.text()[self.at()]
            } else {
                '\0'
            },
    {
        if self.idx < self.len {
            self.text.as_str().get_char(self.idx)
        } else {
            '\0'
        }
    }

    /// The current `(line, column)` pair: 1-based line, column 0-based and
    /// reset at each line.
    pub fn lp(&self) -> (r: (i32, i32))
        requires
            self.wf(),
        ensures
            (r.0 as int, r.1 as int) == pos_at(self.text(), self.at()),
    {
        (self.line, self.pos)
    }

    /// True iff at least one character remains.
    pub fn has_next(&self) -> (r: bool)
        requires
            self.wf(),
        ensures
            r == (self.at() < self.text().len()),
    {
        self.idx < self.len
    }

    /// Consumes one character; fails with `Expected` if it is not `c`,
    /// with `UnexpectedEOF` if none is left.
    pub fn expect(&mut self, c: char) -> (r: Result<(), TokenError>)
        requires
            old(self).wf(),
        ensures
            final(self).wf(),
            final(self).text() == old(self).text(),
            match r {
                Ok(()) => {
                    &&& old(self).at() < old(self).text().len()
                    &&& old(self).text()[old(self).at()] == c
                    &&& final(self).at() == old(self).at() + 1
                },
                Err(e) => match e@ {
                    crate::lex_error::LexErrView::UnexpectedEOF => {
                        &&& old(self).at() == old(self).text().len()
                        &&& *final(self) == *old(self)
                    },
                    crate::lex_error::LexErrView::Expected(w, g, lp) => {
                        &&& old(self).at() < old(self).text().len()
                        &&& g == old(self).text()[old(self).at()]
                        &&& g != c
                        &&& w == c
                        &&& final(self).at() == old(self).at() + 1
                        &&& lp == pos_at(old(self).text(), old(self).at() + 1)
                    },
                    _ => false,
                },
            },
    {
        let next = self.next()?;
        if next == c {
            Ok(())
        } else {
            Err(TokenError::Expected(c, next, self.lp()))
        }
    }
}

} // verus!
