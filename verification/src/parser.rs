//! The parser: consumes a lexer's token stream through a two-token
//! lookahead buffer, builds a [`Program`], and accumulates diagnostics
//! instead of aborting on the first malformed construct.
//!
//! The behaviour is pinned down by the spec-level parser [`spec_parse`],
//! which maps the finite token stream of the source text to the statement
//! list and the diagnostic list that one parse pass produces.

use vstd::prelude::*;

use crate::ast::{
    Expression, ExpressionV, Identifier, IdentifierV, LetStatement, LetStatementV, Program,
    Statement, StatementV,
};
use crate::lexer::{lemma_next_token_progress, stream, Lexer};
use crate::token::{spec_describe, Token, TokenV};

verus! {

/// The token at index `k` of a finite token stream, with the idempotent
/// end-of-input tail made explicit: past the end there is always `Eof`.
pub open spec fn tok(ts: Seq<TokenV>, k: int) -> TokenV {
    if 0 <= k < ts.len() {
        ts[k]
    } else {
        TokenV::Eof
    }
}

/// An optional value as a sequence of zero or one elements.
pub open spec fn opt_seq<A>(o: Option<A>) -> Seq<A> {
    match o {
        Option::Some(a) => seq![a],
        Option::None => Seq::empty(),
    }
}

/// The text of the diagnostic recorded for a lookahead mismatch.
pub open spec fn peek_message(expected: Seq<char>, got: Seq<char>) -> Seq<char> {
    "expected next token to be "@ + expected + ", got "@ + got + " instead"@
}

/// The suffix of the token stream starting at the first semicolon, or the
/// empty stream when no semicolon remains.
pub open spec fn skip_to_semicolon(ts: Seq<TokenV>) -> Seq<TokenV>
    decreases ts.len(),
{
    if ts.len() == 0 || ts[0] is Semicolon {
        ts
    } else {
        skip_to_semicolon(ts.drop_first())
    }
}

pub proof fn lemma_skip_to_semicolon_len(ts: Seq<TokenV>)
    ensures
        skip_to_semicolon(ts).len() <= ts.len(),
    decreases ts.len(),
{
    if !(ts.len() == 0 || ts[0] is Semicolon) {
        lemma_skip_to_semicolon_len(ts.drop_first());
    }
}

/// The `let` statement built for a binding of `name`. Expression parsing
/// is not implemented, so the value is a fixed placeholder node.
pub open spec fn let_statement_v(name: Seq<char>) -> StatementV {
    StatementV::Let(
        LetStatementV {
            name: IdentifierV { token: TokenV::Ident(name), value: name },
            value: ExpressionV::Identifier(
                IdentifierV { token: TokenV::Int("42"@), value: "42"@ },
            ),
        },
    )
}

/// One attempt at a `let` statement, with the current token `ts[0]` being
/// the `let` keyword. Yields the statement or the diagnostic recorded, and
/// the token stream left at the new current token.
pub open spec fn spec_parse_let_statement(ts: Seq<TokenV>) -> (Option<StatementV>, Option<
    Seq<char>,
>, Seq<TokenV>) {
    match tok(ts, 1) {
        TokenV::Ident(name) => {
            if tok(ts, 2) is Assign {
                (
                    Option::Some(let_statement_v(name)),
                    Option::None,
                    skip_to_semicolon(ts.drop_first()),
                )
            } else {
                (
                    Option::None,
                    Option::Some(peek_message("Assign"@, spec_describe(tok(ts, 2)))),
                    ts.drop_first(),
                )
            }
        },
        got => (Option::None, Option::Some(peek_message("Ident"@, spec_describe(got))), ts),
    }
}

/// One statement attempt, dispatching on the current token's kind. Only
/// the `let` keyword yields a statement; every other kind yields nothing
/// and leaves the stream where it is.
pub open spec fn spec_parse_statement(ts: Seq<TokenV>) -> (Option<StatementV>, Option<
    Seq<char>,
>, Seq<TokenV>) {
    if tok(ts, 0) is Let {
        spec_parse_let_statement(ts)
    } else {
        (Option::None, Option::None, ts)
    }
}

pub proof fn lemma_parse_statement_len(ts: Seq<TokenV>)
    ensures
        spec_parse_statement(ts).2.len() <= ts.len(),
{
    if tok(ts, 0) is Let {
        if ts.len() > 0 {
            lemma_skip_to_semicolon_len(ts.drop_first());
        }
    }
}

/// One whole parse pass over a finite token stream: statement attempts
/// until the stream is exhausted, each followed by an unconditional
/// one-token advance. Yields the statements built and the diagnostics
/// recorded, in order.
pub open spec fn spec_parse(ts: Seq<TokenV>) -> (Seq<StatementV>, Seq<Seq<char>>)
    decreases ts.len() via spec_parse_decreases
{
    if ts.len() == 0 {
        (Seq::empty(), Seq::empty())
    } else {
        let (st, er, ts1) = spec_parse_statement(ts);
        let ts2 = if ts1.len() == 0 {
            ts1
        } else {
            ts1.drop_first()
        };
        let rest = spec_parse(ts2);
        (opt_seq(st) + rest.0, opt_seq(er) + rest.1)
    }
}

#[via_fn]
proof fn spec_parse_decreases(ts: Seq<TokenV>) {
    if ts.len() > 0 {
        lemma_parse_statement_len(ts);
    }
}

/// Recursive-descent parser over a lexer's token stream, with a
/// current/peek lookahead pair and an accumulated, ordered diagnostic
/// list.
pub struct Parser<'a> {
    lexer: Lexer<'a>,
    cur_token: Token,
    peek_token: Token,
    errors: Vec<String>,
}

impl<'a> Parser<'a> {
    /// The lookahead buffer is consistent with the lexer behind it: once
    /// either slot holds end-of-input, nothing further is pending.
    pub closed spec fn wf(self) -> bool {
        &&& self.lexer.wf()
        &&& (self.cur_token@ is Eof ==> self.peek_token@ is Eof)
        &&& (self.peek_token@ is Eof ==> stream(self.lexer.src(), self.lexer.at()).len() == 0)
    }

    /// The tokens not yet consumed, starting at the current token and
    /// ending just before the end-of-input token.
    pub closed spec fn remaining(self) -> Seq<TokenV> {
        if self.cur_token@ is Eof {
            Seq::empty()
        } else if self.peek_token@ is Eof {
            seq![self.cur_token@]
        } else {
            seq![self.cur_token@, self.peek_token@] + stream(self.lexer.src(), self.lexer.at())
        }
    }

    /// The diagnostics recorded so far, in order.
    pub closed spec fn errors_view(self) -> Seq<Seq<char>> {
        self.errors@.map_values(|e: String| e@)
    }

    /// The lookahead buffer holds the first two tokens of the remaining
    /// stream, and the stream is empty exactly at end-of-input.
    proof fn lemma_rep(self)
        requires
            self.wf(),
        ensures
            self.cur_token@ == tok(self.remaining(), 0),
            self.peek_token@ == tok(self.remaining(), 1),
            self.remaining().len() == 0 <==> self.cur_token@ is Eof,
    {
    }

    /// A parser over `lexer`'s tokens, with the two-token lookahead buffer
    /// pre-fetched and no diagnostics yet.
    pub fn new(mut lexer: Lexer<'a>) -> (p: Parser<'a>)
        requires
            lexer.wf(),
        ensures
            p.wf(),
            p.remaining() == stream(lexer.src(), lexer.at()),
            p.errors_view() == Seq::<Seq<char>>::empty(),
    {
        let ghost s = lexer.src();
        let ghost i0 = lexer.at();
        let cur = lexer.next_token();
        let ghost j1 = lexer.at();
        let peek = lexer.next_token();
        let p = Parser { cur_token: cur, peek_token: peek, lexer, errors: Vec::new() };
        proof {
            lemma_next_token_progress(s, i0);
            lemma_next_token_progress(s, j1);
            assert(p.errors_view() =~= Seq::<Seq<char>>::empty());
            if cur@ is Eof {
                assert(stream(s, i0) =~= Seq::<TokenV>::empty());
            } else if peek@ is Eof {
                assert(stream(s, j1) =~= Seq::<TokenV>::empty());
                assert(stream(s, i0) =~= seq![cur@]);
            } else {
                assert(stream(s, j1) =~= seq![peek@] + stream(s, p.lexer.at()));
                assert(stream(s, i0) =~= seq![cur@] + stream(s, j1));
                assert(stream(s, i0) =~= seq![cur@, peek@] + stream(s, p.lexer.at()));
            }
        }
        p
    }

    /// The diagnostics accumulated so far; never cleared, growing
    /// monotonically during one parse pass.
    pub fn errors(&self) -> (e: &Vec<String>)
        ensures
            e@.map_values(|s: String| s@) == self.errors_view(),
    {
        &self.errors
    }

    /// Records the diagnostic for a lookahead mismatch: the expected token
    /// kind against the peek token actually observed.
    fn peek_error(&mut self, expected: &str)
        ensures
            final(self).lexer == old(self).lexer,
            final(self).cur_token == old(self).cur_token,
            final(self).peek_token == old(self).peek_token,
            final(self).errors_view() == old(self).errors_view().push(
                peek_message(expected@, spec_describe(old(self).peek_token@)),
            ),
    {
        let mut msg = String::from_str("expected next token to be ");
        msg.append(expected);
        msg.append(", got ");
        let d = self.peek_token.describe();
        msg.append(d.as_str());
        msg.append(" instead");
        proof {
            assert(msg@ =~= peek_message(expected@, spec_describe(self.peek_token@)));
        }
        self.errors.push(msg);
        proof {
            assert(self.errors_view() =~= old(self).errors_view().push(
                peek_message(expected@, spec_describe(old(self).peek_token@)),
            ));
        }
    }

    /// Advances the lookahead buffer by one token: the peek token becomes
    /// current and the lexer supplies a fresh peek token.
    fn next_token(&mut self)
        requires
            old(self).wf(),
        ensures
            final(self).wf(),
            final(self).errors == old(self).errors,
            final(self).cur_token == old(self).peek_token,
            old(self).remaining().len() == 0 ==> final(self).remaining()
                == Seq::<TokenV>::empty(),
            old(self).remaining().len() > 0 ==> final(self).remaining()
                == old(self).remaining().drop_first(),
    {
        let ghost s = self.lexer.src();
        let ghost i0 = self.lexer.at();
        let mut t = self.lexer.next_token();
        core::mem::swap(&mut self.peek_token, &mut t);
        core::mem::swap(&mut self.cur_token, &mut t);
        proof {
            lemma_next_token_progress(s, i0);
            let j1 = self.lexer.at();
            lemma_next_token_progress(s, j1);
            if old(self).cur_token@ is Eof {
                assert(self.remaining() =~= Seq::<TokenV>::empty());
            } else if old(self).peek_token@ is Eof {
                assert(old(self).remaining().drop_first() =~= Seq::<TokenV>::empty());
                assert(self.remaining() =~= Seq::<TokenV>::empty());
            } else {
                if self.peek_token@ is Eof {
                    assert(stream(s, i0) =~= Seq::<TokenV>::empty());
                    assert(old(self).remaining().drop_first() =~= seq![old(self).peek_token@]);
                    assert(self.remaining() =~= seq![old(self).peek_token@]);
                } else {
                    assert(stream(s, i0) =~= seq![self.peek_token@] + stream(s, j1));
                    assert(old(self).remaining().drop_first() =~= seq![
                        old(self).peek_token@,
                        self.peek_token@,
                    ] + stream(s, j1));
                    assert(self.remaining() =~= seq![
                        old(self).peek_token@,
                        self.peek_token@,
                    ] + stream(s, j1));
                }
            }
        }
    }

    /// Attempts one statement, dispatching on the current token's kind.
    /// Only the `let` keyword is implemented; every other kind yields no
    /// statement and the input is skipped for this attempt.
    fn parse_statement(&mut self) -> (r: Option<Statement>)
        requires
            old(self).wf(),
        ensures
            final(self).wf(),
            ({
                let (st, er, ts1) = spec_parse_statement(old(self).remaining());
                &&& final(self).remaining() == ts1
                &&& match (r, st) {
                    (Option::Some(rs), Option::Some(sv)) => rs@ == sv,
                    (Option::None, Option::None) => true,
                    _ => false,
                }
                &&& final(self).errors_view() == old(self).errors_view() + opt_seq(er)
            }),
    {
        proof {
            self.lemma_rep();
        }
        match &self.cur_token {
            Token::Let => self.parse_let_statement(),
            _ => {
                proof {
                    assert(self.errors_view() =~= old(self).errors_view() + opt_seq(
                        Option::<Seq<char>>::None,
                    ));
                }
                Option::None
            },
        }
    }

    /// Parses one `let` statement, with the current token being the `let`
    /// keyword. The peek token must be an identifier and the one after it
    /// the assignment operator; on a mismatch a diagnostic is recorded and
    /// no statement is produced. Expression parsing is not implemented:
    /// the tokens up to the next semicolon (or end of input) are consumed
    /// and discarded, and a fixed placeholder value node stands in for the
    /// initializer.
    fn parse_let_statement(&mut self) -> (r: Option<Statement>)
        requires
            old(self).wf(),
            old(self).cur_token@ is Let,
        ensures
            final(self).wf(),
            ({
                let (st, er, ts1) = spec_parse_let_statement(old(self).remaining());
                &&& final(self).remaining() == ts1
                &&& match (r, st) {
                    (Option::Some(rs), Option::Some(sv)) => rs@ == sv,
                    (Option::None, Option::None) => true,
                    _ => false,
                }
                &&& final(self).errors_view() == old(self).errors_view() + opt_seq(er)
            }),
    {
        proof {
            self.lemma_rep();
        }
        let ghost ts = self.remaining();
        let name: String = match &self.peek_token {
            Token::Ident(n) => n.clone(),
            _ => {
                self.peek_error("Ident");
                proof {
                    assert(self.errors_view() =~= old(self).errors_view() + opt_seq(
                        spec_parse_let_statement(ts).1,
                    ));
                }
                return Option::None;
            },
        };
        self.next_token();
        proof {
            self.lemma_rep();
            assert(self.remaining() =~= ts.drop_first());
            assert(tok(ts.drop_first(), 1) == tok(ts, 2));
        }
        match &self.peek_token {
            Token::Assign => {},
            _ => {
                self.peek_error("Assign");
                proof {
                    assert(self.errors_view() =~= old(self).errors_view() + opt_seq(
                        spec_parse_let_statement(ts).1,
                    ));
                }
                return Option::None;
            },
        }
        let identifier = Identifier { token: Token::Ident(name.clone()), value: name };
        let ghost ts_mid = self.remaining();
        let ghost errs0 = self.errors_view();
        loop
            invariant
                self.wf(),
                self.errors_view() == errs0,
                skip_to_semicolon(ts_mid) == skip_to_semicolon(self.remaining()),
            ensures
                self.wf(),
                self.errors_view() == errs0,
                self.remaining() == skip_to_semicolon(ts_mid),
            decreases self.remaining().len(),
        {
            match &self.cur_token {
                Token::Semicolon => {
                    proof {
                        self.lemma_rep();
                        assert(skip_to_semicolon(self.remaining()) == self.remaining());
                    }
                    break;
                },
                Token::Eof => {
                    proof {
                        self.lemma_rep();
                        assert(skip_to_semicolon(self.remaining()) == self.remaining());
                    }
                    break;
                },
                _ => {},
            }
            proof {
                self.lemma_rep();
                assert(skip_to_semicolon(self.remaining()) == skip_to_semicolon(
                    self.remaining().drop_first(),
                ));
            }
            let ghost before = self.remaining();
            self.next_token();
            proof {
                assert(self.remaining() =~= before.drop_first());
            }
        }
        let placeholder = Identifier {
            token: Token::Int(String::from_str("42")),
            value: String::from_str("42"),
        };
        let stmt = Statement::Let(
            LetStatement { name: identifier, value: Expression::Identifier(placeholder) },
        );
        proof {
            assert(self.errors_view() =~= old(self).errors_view() + opt_seq(
                Option::<Seq<char>>::None,
            ));
        }
        Option::Some(stmt)
    }

    /// One whole parse pass: statement attempts until the current token is
    /// end-of-input, each followed by an unconditional one-token advance,
    /// so that every iteration consumes at least one token and the pass
    /// terminates on any finite input. Returns the program built; the
    /// diagnostics recorded stay on the parser.
    pub fn parse_program(&mut self) -> (p: Program)
        requires
            old(self).wf(),
        ensures
            final(self).wf(),
            p@ == spec_parse(old(self).remaining()).0,
            final(self).errors_view() == old(self).errors_view() + spec_parse(
                old(self).remaining(),
            ).1,
            final(self).remaining() == Seq::<TokenV>::empty(),
    {
        let mut statements: Vec<Statement> = Vec::new();
        let ghost ts0 = self.remaining();
        let ghost errs0 = self.errors_view();
        proof {
            assert(stmts_view(statements@) =~= Seq::<StatementV>::empty());
            assert(stmts_view(statements@) + spec_parse(ts0).0 =~= spec_parse(ts0).0);
            assert(errs0 + spec_parse(ts0).1 =~= self.errors_view() + spec_parse(ts0).1);
        }
        loop
            invariant
                self.wf(),
                spec_parse(ts0).0 == stmts_view(statements@) + spec_parse(self.remaining()).0,
                errs0 + spec_parse(ts0).1 == self.errors_view() + spec_parse(self.remaining()).1,
            ensures
                self.wf(),
                self.remaining().len() == 0,
                spec_parse(ts0).0 == stmts_view(statements@) + spec_parse(self.remaining()).0,
                errs0 + spec_parse(ts0).1 == self.errors_view() + spec_parse(self.remaining()).1,
            decreases self.remaining().len(),
        {
            match &self.cur_token {
                Token::Eof => break,
                _ => {},
            }
            proof {
                self.lemma_rep();
            }
            let ghost ts = self.remaining();
            let ghost ev = self.errors_view();
            let ghost stv = stmts_view(statements@);
            let stmt = self.parse_statement();
            match stmt {
                Option::Some(st) => {
                    statements.push(st);
                    proof {
                        assert(stmts_view(statements@) =~= stv + opt_seq(
                            spec_parse_statement(ts).0,
                        ));
                    }
                },
                Option::None => {
                    proof {
                        assert(stmts_view(statements@) =~= stv + opt_seq(
                            spec_parse_statement(ts).0,
                        ));
                    }
                },
            }
            let ghost ts1 = self.remaining();
            self.next_token();
            proof {
                lemma_parse_statement_len(ts);
                let (sv, er, rest) = spec_parse_statement(ts);
                let ts2 = if ts1.len() == 0 {
                    ts1
                } else {
                    ts1.drop_first()
                };
                assert(self.remaining() =~= ts2);
                assert(spec_parse(ts).0 == opt_seq(sv) + spec_parse(ts2).0);
                assert(spec_parse(ts).1 == opt_seq(er) + spec_parse(ts2).1);
                assert(stv + (opt_seq(sv) + spec_parse(ts2).0) =~= (stv + opt_seq(sv))
                    + spec_parse(ts2).0);
                assert(ev + (opt_seq(er) + spec_parse(ts2).1) =~= (ev + opt_seq(er))
                    + spec_parse(ts2).1);
            }
        }
        proof {
            assert(spec_parse(self.remaining()).0 =~= Seq::<StatementV>::empty());
            assert(spec_parse(self.remaining()).1 =~= Seq::<Seq<char>>::empty());
            assert(stmts_view(statements@) + Seq::<StatementV>::empty() =~= stmts_view(
                statements@,
            ));
            assert(self.errors_view() + Seq::<Seq<char>>::empty() =~= self.errors_view());
        }
        let p = Program { statements };
        proof {
            assert(p@ =~= stmts_view(p.statements@));
        }
        p
    }
}

/// The statements of a statement vector, as their mathematical models.
pub open spec fn stmts_view(v: Seq<Statement>) -> Seq<StatementV> {
    v.map_values(|s: Statement| s@)
}

} // verus!
