//! The parser: a token buffer and a cursor, with Pratt expression parsing.
//!
//! `Parser::new` drains a lexer into a token buffer ending at the first
//! `EOF`.  Every parsing function is proved to return exactly what the
//! functional model in `parse_spec` returns, and to leave the cursor
//! exactly where the model says.

use vstd::prelude::*;

use crate::ast::{Program, Statement, StmtV, stmts_view};
use crate::errors::{ParseErr, ParseErrV};
use crate::lexer::{Lexer, spec_token_stream};
use crate::parse_spec::{
    at_least, nxt, rem, spec_parse_program, spec_parse_statement, spec_prec, spec_program_loop,
    tok_at,
};
use crate::parse_statement::parse_statement;
use crate::token::{TOKEN, TokenV, clone_token, tokens_view};

verus! {

/// The binding strength of an infix operator.
pub enum Precedence {
    LOWEST,
    EQUALS,
    LESSGREATER,
    SUM,
    PRODUCT,
    PREFIX,
    CALL,
}

/// The order of a precedence level, ascending with binding strength.
pub open spec fn spec_order(p: Precedence) -> int {
    match p {
        Precedence::LOWEST => 1,
        Precedence::EQUALS => 2,
        Precedence::LESSGREATER => 3,
        Precedence::SUM => 4,
        Precedence::PRODUCT => 5,
        Precedence::PREFIX => 6,
        Precedence::CALL => 7,
    }
}

impl Precedence {
    /// The precedence of a token seen as an infix operator.
    pub fn from_token(token: TOKEN) -> (r: Self)
        ensures
            spec_order(r) == spec_prec(token@),
    {
        match token {
            TOKEN::EQ | TOKEN::NotEQ => Self::EQUALS,
            TOKEN::LT | TOKEN::GT => Self::LESSGREATER,
            TOKEN::PLUS | TOKEN::MINUS => Self::SUM,
            TOKEN::SLASH | TOKEN::ASTERISK => Self::PRODUCT,
            TOKEN::LPAREN => Self::CALL,
            TOKEN::LBRACKET => Self::CALL,
            _ => Self::LOWEST,
        }
    }

    /// This level as a number; higher binds more tightly.
    pub fn order(&self) -> (r: i32)
        ensures
            r as int == spec_order(*self),
    {
        match self {
            Precedence::LOWEST => 1,
            Precedence::EQUALS => 2,
            Precedence::LESSGREATER => 3,
            Precedence::SUM => 4,
            Precedence::PRODUCT => 5,
            Precedence::PREFIX => 6,
            Precedence::CALL => 7,
        }
    }
}

/// The parser: the tokens of the input, and the position of the token the
/// parser currently looks at.
#[derive(Debug)]
pub struct Parser {
    pub tokens: Vec<TOKEN>,
    pub pos: usize,
}

impl Parser {
    /// The tokens as a mathematical sequence.
    pub open spec fn toks(&self) -> Seq<TokenV> {
        tokens_view(self.tokens@)
    }

    /// The current position.
    pub open spec fn cur(&self) -> int {
        self.pos as int
    }

    /// The cursor never moves past the end of the token buffer.
    pub open spec fn wf(&self) -> bool {
        self.pos <= self.tokens@.len()
    }

    /// Builds a parser by reading every token of the lexer's input, up to
    /// and including the first `EOF`.
    #[verifier::loop_isolation(false)]
    pub fn new(l: Lexer) -> (p: Parser)
        requires
            l.wf(),
            0 <= l.cur() <= l.src().len(),
        ensures
            p.wf(),
            p.toks() == spec_token_stream(l.src(), l.cur()),
            p.cur() == 0,
    {
        let ghost s = l.src();
        let ghost start = l.cur();
        let mut lx = l;
        let mut tokens: Vec<TOKEN> = Vec::new();
        loop
            invariant
                lx.wf(),
                lx.src() == s,
                start <= lx.cur(),
                0 <= lx.cur() <= s.len(),
                spec_token_stream(s, start) == tokens_view(tokens@) + spec_token_stream(
                    s,
                    lx.cur(),
                ),
            decreases s.len() - lx.cur() + 1,
        {
            let ghost before = lx.cur();
            let t = lx.next_token();
            proof {
                crate::lexer::lemma_next_token_bounds(s, before);
                crate::lexer::lemma_next_token_progress(s, before);
            }
            let is_eof = t.is_same_with(TOKEN::EOF);
            let ghost tv = t@;
            let ghost ts0 = tokens@;
            let ghost tval = t;
            tokens.push(t);
            proof {
                crate::token::lemma_tokens_view_push(ts0, tval);
                assert(tokens@ == ts0.push(tval));
                assert(tokens_view(tokens@) == tokens_view(ts0).push(tv));
                assert((tokens_view(ts0) + seq![tv]) =~= tokens_view(ts0).push(tv));
                if is_eof {
                    assert(tv == TokenV::EOF);
                    assert(spec_token_stream(s, before) =~= seq![TokenV::EOF]);
                    assert((tokens_view(ts0) + seq![TokenV::EOF]) =~= tokens_view(tokens@));
                    assert(spec_token_stream(s, start) =~= tokens_view(tokens@));
                } else {
                    assert(spec_token_stream(s, before) =~= seq![tv] + spec_token_stream(
                        s,
                        lx.cur(),
                    ));
                    assert(tokens_view(ts0) + (seq![tv] + spec_token_stream(s, lx.cur()))
                        =~= (tokens_view(ts0) + seq![tv]) + spec_token_stream(s, lx.cur()));
                    assert(spec_token_stream(s, start) =~= tokens_view(tokens@)
                        + spec_token_stream(s, lx.cur()));
                }
            }
            if is_eof {
                return Parser { tokens, pos: 0 };
            }
        }
    }

    /// Moves to the next token; at the end of the buffer the cursor stays.
    pub fn next_token(&mut self)
        requires
            old(self).wf(),
        ensures
            final(self).wf(),
            final(self).toks() == old(self).toks(),
            final(self).cur() == nxt(old(self).toks(), old(self).cur()),
    {
        proof {
            crate::token::lemma_tokens_view_len(self.tokens@);
        }
        if self.pos < self.tokens.len() {
            self.pos = self.pos + 1;
        }
    }

    /// The token the parser currently looks at; `EOF` past the end.
    pub fn cur_token(&self) -> (t: TOKEN)
        requires
            self.wf(),
        ensures
            t@ == tok_at(self.toks(), self.cur()),
    {
        proof {
            crate::token::lemma_tokens_view_len(self.tokens@);
        }
        if self.pos < self.tokens.len() {
            clone_token(&self.tokens[self.pos])
        } else {
            TOKEN::EOF
        }
    }

    /// The token after the current one; `EOF` past the end.
    pub fn peek_token(&self) -> (t: TOKEN)
        requires
            self.wf(),
        ensures
            t@ == tok_at(self.toks(), self.cur() + 1),
    {
        proof {
            crate::token::lemma_tokens_view_len(self.tokens@);
        }
        if self.pos < self.tokens.len() {
            if self.pos == self.tokens.len() - 1 {
                TOKEN::EOF
            } else {
                clone_token(&self.tokens[self.pos + 1])
            }
        } else {
            TOKEN::EOF
        }
    }

    /// The precedence of the token after the current one.
    pub fn peek_precedence(&self) -> (r: Precedence)
        requires
            self.wf(),
        ensures
            spec_order(r) == spec_prec(tok_at(self.toks(), self.cur() + 1)),
    {
        Precedence::from_token(self.peek_token())
    }

    /// The precedence of the current token.
    pub fn cur_precedence(&self) -> (r: Precedence)
        requires
            self.wf(),
        ensures
            spec_order(r) == spec_prec(tok_at(self.toks(), self.cur())),
    {
        Precedence::from_token(self.cur_token())
    }

    /// Parses the whole input: statements until `EOF`.
    #[verifier::loop_isolation(false)]
    #[verifier::rlimit(80)]
    pub fn parse_program(&mut self) -> (r: Result<Program, ParseErr>)
        requires
            old(self).wf(),
        ensures
            final(self).wf(),
            final(self).toks() == old(self).toks(),
            final(self).cur() == spec_parse_program(old(self).toks(), old(self).cur()).1,
            (r matches Ok(p) ==> spec_parse_program(old(self).toks(), old(self).cur()).0
                == Ok::<Seq<StmtV>, ParseErrV>(p@)),
            (r matches Err(e) ==> spec_parse_program(old(self).toks(), old(self).cur()).0
                == Err::<Seq<StmtV>, ParseErrV>(e@)),
    {
        let ghost toks = self.toks();
        let ghost start = self.cur();
        let mut statements: Vec<Statement> = Vec::new();

        loop
            invariant
                self.wf(),
                self.toks() == toks,
                start <= self.cur(),
                spec_program_loop(toks, self.cur(), stmts_view(statements@)) == spec_program_loop(
                    toks,
                    start,
                    Seq::empty(),
                ),
            decreases rem(toks, self.cur()),
        {
            let cur = self.cur_token();
            if cur.is_same_with(TOKEN::EOF) {
                proof {
                    assert(spec_program_loop(toks, self.cur(), stmts_view(statements@)) == (
                        Ok::<Seq<StmtV>, ParseErrV>(stmts_view(statements@)),
                        self.cur(),
                    ));
                }
                return Ok(Program { statements });
            }
            let ghost i = self.cur();
            let stmt = match parse_statement(self) {
                Ok(s) => s,
                Err(e) => {
                    return Err(e);
                },
            };
            let ghost j = self.cur();
            proof {
                assert(at_least(j, i) == j);
                crate::render::lemma_stmts_view_len(statements@);
            }
            let ghost ss0 = statements@;
            statements.push(stmt);
            proof {
                assert(statements@.drop_last() =~= ss0);
                lemma_stmts_view_push(statements@);
            }
            self.next_token();
        }
    }

    /// Turns the "nothing to parse here" sentinel into absence and keeps
    /// every other outcome.
    pub fn result_to_option(&self, result: Result<crate::ast::Expression, ParseErr>) -> (r: Result<
        Option<crate::ast::Expression>,
        ParseErr,
    >)
        ensures
            (match result {
                Ok(e) => r matches Ok(o) && o matches Some(x) && x == e,
                Err(e) => if e@ is NoPrefixParseFn {
                    r matches Ok(o) && o is None
                } else {
                    r matches Err(e2) && e2 == e
                },
            }),
    {
        match result {
            Ok(ok_exp) => Ok(Some(ok_exp)),
            Err(ParseErr::NoPrefixParseFn) => Ok(None),
            Err(err) => Err(err),
        }
    }
}

/// Pushing a statement extends the list's view by the statement's view.
proof fn lemma_stmts_view_push(ss: Seq<Statement>)
    requires
        ss.len() > 0,
    ensures
        stmts_view(ss) == stmts_view(ss.drop_last()).push(ss.last()@),
{
}

} // verus!
