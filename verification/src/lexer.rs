//! The lexer: consumes source text character by character and produces one
//! token per call to [`Lexer::next_token`].
//!
//! The behaviour is pinned down by the spec-level lexer
//! [`spec_next_token`], which maps a character sequence and a cursor
//! position to the token starting there and the position just past it.

use vstd::prelude::*;

use crate::token::{spec_lookup_ident, Token, TokenV};

verus! {

/// The whitespace characters skipped before a token is classified.
pub open spec fn is_whitespace_char(c: char) -> bool {
    c == ' ' || c == '\t' || c == '\r' || c == '\n'
}

/// The letter class that starts and continues an identifier. Digits are
/// deliberately not part of it, so a mixed alphanumeric run splits into an
/// identifier token immediately followed by a numeric token.
pub open spec fn is_letter_char(c: char) -> bool {
    ('a' <= c && c <= 'z') || ('A' <= c && c <= 'Z') || c == '_'
}

/// The decimal digit class that starts and continues a numeric literal.
pub open spec fn is_digit_char(c: char) -> bool {
    '0' <= c && c <= '9'
}

/// Position just past the maximal whitespace run starting at `i`.
pub open spec fn ws_end(s: Seq<char>, i: int) -> int
    decreases s.len() - i when 0 <= i <= s.len()
{
    if i < s.len() && is_whitespace_char(s[i]) {
        ws_end(s, i + 1)
    } else {
        i
    }
}

/// Position just past the maximal letter run starting at `i`.
pub open spec fn letter_end(s: Seq<char>, i: int) -> int
    decreases s.len() - i when 0 <= i <= s.len()
{
    if i < s.len() && is_letter_char(s[i]) {
        letter_end(s, i + 1)
    } else {
        i
    }
}

/// Position just past the maximal digit run starting at `i`.
pub open spec fn digit_end(s: Seq<char>, i: int) -> int
    decreases s.len() - i when 0 <= i <= s.len()
{
    if i < s.len() && is_digit_char(s[i]) {
        digit_end(s, i + 1)
    } else {
        i
    }
}

pub proof fn lemma_ws_end_bounds(s: Seq<char>, i: int)
    requires
        0 <= i <= s.len(),
    ensures
        i <= ws_end(s, i) <= s.len(),
    decreases s.len() - i,
{
    if i < s.len() && is_whitespace_char(s[i]) {
        lemma_ws_end_bounds(s, i + 1);
    }
}

pub proof fn lemma_letter_end_bounds(s: Seq<char>, i: int)
    requires
        0 <= i <= s.len(),
    ensures
        i <= letter_end(s, i) <= s.len(),
        i < s.len() && is_letter_char(s[i]) ==> i < letter_end(s, i),
    decreases s.len() - i,
{
    if i < s.len() && is_letter_char(s[i]) {
        lemma_letter_end_bounds(s, i + 1);
    }
}

pub proof fn lemma_digit_end_bounds(s: Seq<char>, i: int)
    requires
        0 <= i <= s.len(),
    ensures
        i <= digit_end(s, i) <= s.len(),
        i < s.len() && is_digit_char(s[i]) ==> i < digit_end(s, i),
    decreases s.len() - i,
{
    if i < s.len() && is_digit_char(s[i]) {
        lemma_digit_end_bounds(s, i + 1);
    }
}

/// The token starting at position `j`, where the whitespace before it has
/// already been skipped, and the position just past that token.
pub open spec fn spec_token_at(s: Seq<char>, j: int) -> (TokenV, int) {
    if j >= s.len() {
        (TokenV::Eof, j)
    } else {
        let c = s[j];
        if c == '=' {
            if j + 1 < s.len() && s[j + 1] == '=' {
                (TokenV::Eq, j + 2)
            } else {
                (TokenV::Assign, j + 1)
            }
        } else if c == ';' {
            (TokenV::Semicolon, j + 1)
        } else if c == '(' {
            (TokenV::Lparen, j + 1)
        } else if c == ')' {
            (TokenV::Rparen, j + 1)
        } else if c == '{' {
            (TokenV::Lbrace, j + 1)
        } else if c == '}' {
            (TokenV::Rbrace, j + 1)
        } else if c == '+' {
            (TokenV::Plus, j + 1)
        } else if c == ',' {
            (TokenV::Comma, j + 1)
        } else if c == '<' {
            (TokenV::LessThen, j + 1)
        } else if c == '>' {
            (TokenV::GreaterThen, j + 1)
        } else if c == '!' {
            if j + 1 < s.len() && s[j + 1] == '=' {
                (TokenV::NotEq, j + 2)
            } else {
                (TokenV::Bang, j + 1)
            }
        } else if c == '*' {
            (TokenV::Asterisk, j + 1)
        } else if c == '-' {
            (TokenV::Minus, j + 1)
        } else if c == '/' {
            (TokenV::Slash, j + 1)
        } else if is_letter_char(c) {
            (spec_lookup_ident(s.subrange(j, letter_end(s, j))), letter_end(s, j))
        } else if is_digit_char(c) {
            (TokenV::Int(s.subrange(j, digit_end(s, j))), digit_end(s, j))
        } else {
            (TokenV::Illegal, j + 1)
        }
    }
}

/// The next token of `s` from cursor position `i`: skip the maximal
/// whitespace run, then classify the token starting there. Returns the
/// token together with the cursor position just past it.
pub open spec fn spec_next_token(s: Seq<char>, i: int) -> (TokenV, int) {
    spec_token_at(s, ws_end(s, i))
}

/// Lexing makes progress: each token ends no earlier than it began, a
/// non-terminal token consumes at least one character, and the end-of-input
/// token is produced exactly when only whitespace remains.
pub proof fn lemma_next_token_progress(s: Seq<char>, i: int)
    requires
        0 <= i <= s.len(),
    ensures
        i <= spec_next_token(s, i).1 <= s.len(),
        !(spec_next_token(s, i).0 is Eof) ==> i < spec_next_token(s, i).1,
        spec_next_token(s, i).0 is Eof <==> ws_end(s, i) == s.len(),
        spec_next_token(s, i).0 is Eof ==> spec_next_token(s, i).1 == s.len(),
{
    lemma_ws_end_bounds(s, i);
    let j = ws_end(s, i);
    if j < s.len() {
        if is_letter_char(s[j]) {
            lemma_letter_end_bounds(s, j);
        } else if is_digit_char(s[j]) {
            lemma_digit_end_bounds(s, j);
        }
    }
}

/// Once end-of-input is reached, further reads keep returning the
/// end-of-input token without moving the cursor: the token stream has an
/// idempotent tail.
pub proof fn lemma_eof_idempotent(s: Seq<char>, i: int)
    requires
        0 <= i <= s.len(),
        spec_next_token(s, i).0 is Eof,
    ensures
        spec_next_token(s, i).1 == s.len(),
        spec_next_token(s, s.len() as int) == (TokenV::Eof, s.len() as int),
{
    lemma_next_token_progress(s, i);
}

/// The finite token stream of `s` from position `i`: every token produced
/// before the end-of-input token is reached.
pub open spec fn stream(s: Seq<char>, i: int) -> Seq<TokenV>
    decreases s.len() - i when 0 <= i <= s.len() via stream_decreases
{
    let (t, j) = spec_next_token(s, i);
    if t is Eof {
        Seq::empty()
    } else {
        seq![t] + stream(s, j)
    }
}

#[via_fn]
proof fn stream_decreases(s: Seq<char>, i: int) {
    lemma_next_token_progress(s, i);
}

/// A finite input yields a finite token stream: no more tokens than
/// characters remain, so repeated calls of `next_token` reach end-of-input.
pub proof fn lemma_stream_len(s: Seq<char>, i: int)
    requires
        0 <= i <= s.len(),
    ensures
        stream(s, i).len() <= s.len() - i,
    decreases s.len() - i,
{
    lemma_next_token_progress(s, i);
    let (t, j) = spec_next_token(s, i);
    if !(t is Eof) {
        lemma_stream_len(s, j);
    }
}

/// Keyword exactness: an input that is one maximal letter-run lexes to the
/// single token that the keyword table gives for that run, and a run that
/// is not a reserved word becomes an identifier token carrying exactly its
/// own text.
pub proof fn lemma_keyword_exactness(s: Seq<char>)
    requires
        s.len() > 0,
        forall|k: int| 0 <= k < s.len() ==> is_letter_char(#[trigger] s[k]),
    ensures
        spec_next_token(s, 0) == (spec_lookup_ident(s), s.len() as int),
        !crate::token::is_keyword(s) ==> spec_lookup_ident(s) == TokenV::Ident(s),
{
    lemma_letter_run(s, 0);
    assert(s.subrange(0, s.len() as int) =~= s);
    reveal_strlit("fn");
    reveal_strlit("let");
    reveal_strlit("return");
    reveal_strlit("else");
    reveal_strlit("if");
    reveal_strlit("true");
    reveal_strlit("false");
}

/// A run of letters is ended only by the end of the sequence or a
/// non-letter character.
proof fn lemma_letter_run(s: Seq<char>, i: int)
    requires
        0 <= i <= s.len(),
        forall|k: int| 0 <= k < s.len() ==> is_letter_char(#[trigger] s[k]),
    ensures
        letter_end(s, i) == s.len(),
    decreases s.len() - i,
{
    if i < s.len() {
        lemma_letter_run(s, i + 1);
    }
}

/// Character-level cursor over an immutable borrowed source string.
pub struct Lexer<'a> {
    input: &'a str,
    pos: usize,
}

impl<'a> Lexer<'a> {
    /// The source text being lexed, as a character sequence.
    pub closed spec fn src(self) -> Seq<char> {
        self.input@
    }

    /// The current cursor position, in characters from the start.
    pub closed spec fn at(self) -> int {
        self.pos as int
    }

    /// The cursor never leaves the source text.
    pub open spec fn wf(self) -> bool {
        0 <= self.at() <= self.src().len()
    }

    /// A fresh lexer positioned at the start of `input`.
    pub fn new(input: &'a str) -> (l: Lexer<'a>)
        ensures
            l.wf(),
            l.src() == input@,
            l.at() == 0,
    {
        Lexer { input, pos: 0 }
    }

    /// Advances the cursor past the current character and returns the new
    /// current character, if any.
    fn read_char(&mut self) -> (c: Option<char>)
        requires
            old(self).wf(),
            old(self).at() < old(self).src().len(),
        ensures
            final(self).wf(),
            final(self).src() == old(self).src(),
            final(self).at() == old(self).at() + 1,
            c == (if final(self).at() < final(self).src().len() {
                Some(final(self).src()[final(self).at()])
            } else {
                None::<char>
            }),
    {
        let len = self.input.unicode_len();
        self.pos = self.pos + 1;
        if self.pos < len {
            Some(self.input.get_char(self.pos))
        } else {
            None
        }
    }

    /// The character one past the current one, without consuming anything.
    fn peek_char(&self) -> (c: Option<char>)
        requires
            self.wf(),
            self.at() < self.src().len(),
        ensures
            c == (if self.at() + 1 < self.src().len() {
                Some(self.src()[self.at() + 1])
            } else {
                None::<char>
            }),
    {
        let len = self.input.unicode_len();
        if self.pos + 1 < len {
            Some(self.input.get_char(self.pos + 1))
        } else {
            None
        }
    }

    /// The letter class used for identifiers; digits are not part of it.
    fn is_letter(&self, ch: char) -> (b: bool)
        ensures
            b == is_letter_char(ch),
    {
        ('a' <= ch && ch <= 'z') || ('A' <= ch && ch <= 'Z') || ch == '_'
    }

    /// The decimal digit class used for numeric literals.
    fn is_digit(&self, ch: char) -> (b: bool)
        ensures
            b == is_digit_char(ch),
    {
        '0' <= ch && ch <= '9'
    }

    /// Skips the maximal run of whitespace characters at the cursor.
    fn skip_whitespace(&mut self)
        requires
            old(self).wf(),
        ensures
            final(self).wf(),
            final(self).src() == old(self).src(),
            final(self).at() == ws_end(old(self).src(), old(self).at()),
    {
        let len = self.input.unicode_len();
        loop
            invariant
                self.wf(),
                self.src() == old(self).src(),
                len == self.src().len(),
                ws_end(self.src(), self.at()) == ws_end(old(self).src(), old(self).at()),
            ensures
                self.wf(),
                self.src() == old(self).src(),
                self.at() == ws_end(old(self).src(), old(self).at()),
            decreases self.src().len() - self.at(),
        {
            if self.pos == len {
                break;
            }
            let c = self.input.get_char(self.pos);
            if c == ' ' || c == '\t' || c == '\r' || c == '\n' {
                self.pos = self.pos + 1;
            } else {
                break;
            }
        }
    }

    /// Reads the maximal letter run starting at the cursor and returns its
    /// text, leaving the cursor on the first character past the run.
    fn read_identifier(&mut self) -> (r: String)
        requires
            old(self).wf(),
        ensures
            final(self).wf(),
            final(self).src() == old(self).src(),
            final(self).at() == letter_end(old(self).src(), old(self).at()),
            r@ == old(self).src().subrange(
                old(self).at(),
                letter_end(old(self).src(), old(self).at()),
            ),
    {
        let start = self.pos;
        let len = self.input.unicode_len();
        loop
            invariant
                self.wf(),
                self.src() == old(self).src(),
                len == self.src().len(),
                start <= self.pos,
                letter_end(self.src(), self.at()) == letter_end(old(self).src(), old(self).at()),
            ensures
                self.wf(),
                self.src() == old(self).src(),
                start <= self.pos,
                self.at() == letter_end(old(self).src(), old(self).at()),
            decreases self.src().len() - self.at(),
        {
            if self.pos == len {
                break;
            }
            let c = self.input.get_char(self.pos);
            if self.is_letter(c) {
                self.pos = self.pos + 1;
            } else {
                break;
            }
        }
        let sub = self.input.substring_char(start, self.pos);
        String::from_str(sub)
    }

    /// Reads the maximal digit run starting at the cursor and returns its
    /// text, leaving the cursor on the first character past the run.
    fn read_number(&mut self) -> (r: String)
        requires
            old(self).wf(),
        ensures
            final(self).wf(),
            final(self).src() == old(self).src(),
            final(self).at() == digit_end(old(self).src(), old(self).at()),
            r@ == old(self).src().subrange(
                old(self).at(),
                digit_end(old(self).src(), old(self).at()),
            ),
    {
        let start = self.pos;
        let len = self.input.unicode_len();
        loop
            invariant
                self.wf(),
                self.src() == old(self).src(),
                len == self.src().len(),
                start <= self.pos,
                digit_end(self.src(), self.at()) == digit_end(old(self).src(), old(self).at()),
            ensures
                self.wf(),
                self.src() == old(self).src(),
                start <= self.pos,
                self.at() == digit_end(old(self).src(), old(self).at()),
            decreases self.src().len() - self.at(),
        {
            if self.pos == len {
                break;
            }
            let c = self.input.get_char(self.pos);
            if self.is_digit(c) {
                self.pos = self.pos + 1;
            } else {
                break;
            }
        }
        let sub = self.input.substring_char(start, self.pos);
        String::from_str(sub)
    }

    /// Produces the next token of the source text, advancing the cursor
    /// just past it. At end of input this returns the end-of-input token
    /// and leaves the cursor where it is, so further calls keep returning
    /// it.
    pub fn next_token(&mut self) -> (t: Token)
        requires
            old(self).wf(),
        ensures
            final(self).wf(),
            final(self).src() == old(self).src(),
            t@ == spec_next_token(old(self).src(), old(self).at()).0,
            final(self).at() == spec_next_token(old(self).src(), old(self).at()).1,
    {
        self.skip_whitespace();
        proof {
            lemma_ws_end_bounds(old(self).src(), old(self).at());
        }
        let len = self.input.unicode_len();
        if self.pos == len {
            return Token::Eof;
        }
        let c = self.input.get_char(self.pos);
        let token = if c == '=' {
            match self.peek_char() {
                Some(p) => {
                    if p == '=' {
                        let _ = self.read_char();
                        Token::Eq
                    } else {
                        Token::Assign
                    }
                },
                None => Token::Assign,
            }
        } else if c == ';' {
            Token::Semicolon
        } else if c == '(' {
            Token::Lparen
        } else if c == ')' {
            Token::Rparen
        } else if c == '{' {
            Token::Lbrace
        } else if c == '}' {
            Token::Rbrace
        } else if c == '+' {
            Token::Plus
        } else if c == ',' {
            Token::Comma
        } else if c == '<' {
            Token::LessThen
        } else if c == '>' {
            Token::GreaterThen
        } else if c == '!' {
            match self.peek_char() {
                Some(p) => {
                    if p == '=' {
                        let _ = self.read_char();
                        Token::NotEq
                    } else {
                        Token::Bang
                    }
                },
                None => Token::Bang,
            }
        } else if c == '*' {
            Token::Asterisk
        } else if c == '-' {
            Token::Minus
        } else if c == '/' {
            Token::Slash
        } else if self.is_letter(c) {
            let ident = self.read_identifier();
            return Token::lookup_ident(ident.as_str());
        } else if self.is_digit(c) {
            return Token::Int(self.read_number());
        } else {
            Token::Illegal
        };
        let _ = self.read_char();
        token
    }
}

} // verus!
