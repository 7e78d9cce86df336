//! The statement parsers: dispatch, `let`, reassignment, `return`,
//! expression statements and blocks.

use vstd::prelude::*;

use crate::ast::{
    ExpressionStatement, Identifier, LetStatement, ReassignStatement, ReturnStatement, Statement,
    StmtV, stmts_view,
};
use crate::errors::{ParseErr, ParseErrV};
use crate::parse_expression::parse_expression;
use crate::parse_spec::{
    at_least, nxt, rem, spec_block_loop, spec_parse_block, spec_parse_expr_stmt, spec_parse_let,
    spec_parse_reassign, spec_parse_return, spec_parse_statement, tok_at,
};
use crate::parser::{Parser, Precedence};
use crate::render::lemma_stmts_view_len;
use crate::token::TOKEN;

verus! {

/// Statement dispatch on the current token, exactly as
/// `spec_parse_statement` gives it.
pub fn parse_statement(parser: &mut Parser) -> (r: Result<Statement, ParseErr>)
    requires
        old(parser).wf(),
    ensures
        final(parser).wf(),
        final(parser).toks() == old(parser).toks(),
        final(parser).cur() >= old(parser).cur(),
        final(parser).cur() == spec_parse_statement(old(parser).toks(), old(parser).cur()).1,
        (r matches Ok(s) ==> spec_parse_statement(old(parser).toks(), old(parser).cur()).0
            == Ok::<StmtV, ParseErrV>(s@)),
        (r matches Err(e) ==> spec_parse_statement(old(parser).toks(), old(parser).cur()).0
            == Err::<StmtV, ParseErrV>(e@)),
    decreases rem(old(parser).toks(), old(parser).cur()), 13int,
{
    let cur = parser.cur_token();
    let pk = parser.peek_token();
    if cur.is_same_with(TOKEN::LET) {
        parse_let_statement(parser)
    } else if cur.is_same_with(TOKEN::RETURN) {
        parse_return_statement(parser)
    } else if cur.is_same_with(TOKEN::IDENT(Identifier(String::new()))) && pk.is_same_with(
        TOKEN::ASSIGN,
    ) {
        parse_reassign_statement(parser)
    } else {
        parse_expression_statement(parser)
    }
}

/// A let statement, exactly as `spec_parse_let` gives it.
pub fn parse_let_statement(parser: &mut Parser) -> (r: Result<Statement, ParseErr>)
    requires
        old(parser).wf(),
        tok_at(old(parser).toks(), old(parser).cur()) is LET,
    ensures
        final(parser).wf(),
        final(parser).toks() == old(parser).toks(),
        final(parser).cur() >= old(parser).cur(),
        final(parser).cur() == spec_parse_let(old(parser).toks(), old(parser).cur()).1,
        (r matches Ok(s) ==> spec_parse_let(old(parser).toks(), old(parser).cur()).0 == Ok::<
            StmtV,
            ParseErrV,
        >(s@)),
        (r matches Err(e) ==> spec_parse_let(old(parser).toks(), old(parser).cur()).0 == Err::<
            StmtV,
            ParseErrV,
        >(e@)),
    decreases rem(old(parser).toks(), old(parser).cur()), 12int,
{
    let ghost toks = old(parser).toks();
    let ghost i = old(parser).cur();
    proof {
        assert(0 <= i < toks.len());
    }
    let pk = parser.peek_token();
    if !pk.is_same_with(TOKEN::IDENT(Identifier(String::new()))) {
        return Err(ParseErr::LET(String::from_str("IDENT"), pk));
    }
    parser.next_token();
    let name = parser.cur_token().literal();

    parser.next_token();
    let cur = parser.cur_token();
    if !cur.is_same_with(TOKEN::ASSIGN) {
        return Err(ParseErr::LET(String::from_str("ASSIGN"), cur));
    }

    parser.next_token();
    let value = match parse_expression(parser, Precedence::LOWEST) {
        Ok(x) => x,
        Err(e) => {
            return Err(e);
        },
    };
    proof {
        assert(at_least(parser.cur(), nxt(toks, nxt(toks, i + 1))) == parser.cur());
    }
    let pk2 = parser.peek_token();
    if pk2.is_same_with(TOKEN::SEMICOLON) {
        parser.next_token();
    }

    let stmt = LetStatement::new(Identifier(name), value);
    Ok(Statement::Let(stmt))
}

/// A reassignment of a plain name, exactly as `spec_parse_reassign` gives
/// it; the statement dispatch has already checked the shape.
pub fn parse_reassign_statement(parser: &mut Parser) -> (r: Result<Statement, ParseErr>)
    requires
        old(parser).wf(),
        tok_at(old(parser).toks(), old(parser).cur()) is IDENT,
        tok_at(old(parser).toks(), old(parser).cur() + 1) is ASSIGN,
    ensures
        final(parser).wf(),
        final(parser).toks() == old(parser).toks(),
        final(parser).cur() >= old(parser).cur(),
        final(parser).cur() == spec_parse_reassign(old(parser).toks(), old(parser).cur()).1,
        (r matches Ok(s) ==> spec_parse_reassign(old(parser).toks(), old(parser).cur()).0 == Ok::<
            StmtV,
            ParseErrV,
        >(s@)),
        (r matches Err(e) ==> spec_parse_reassign(old(parser).toks(), old(parser).cur()).0
            == Err::<StmtV, ParseErrV>(e@)),
    decreases rem(old(parser).toks(), old(parser).cur()), 12int,
{
    let ghost toks = old(parser).toks();
    let ghost i = old(parser).cur();
    proof {
        assert(0 <= i < toks.len());
    }
    let name = parser.cur_token().literal();
    parser.next_token();
    parser.next_token();
    let value = match parse_expression(parser, Precedence::LOWEST) {
        Ok(x) => x,
        Err(e) => {
            return Err(e);
        },
    };
    let stmt = ReassignStatement::new(
        crate::ast::Expression::Identifier(Identifier(name)),
        value,
    );
    Ok(Statement::Reassign(stmt))
}

/// A return statement, exactly as `spec_parse_return` gives it.
pub fn parse_return_statement(parser: &mut Parser) -> (r: Result<Statement, ParseErr>)
    requires
        old(parser).wf(),
        tok_at(old(parser).toks(), old(parser).cur()) is RETURN,
    ensures
        final(parser).wf(),
        final(parser).toks() == old(parser).toks(),
        final(parser).cur() >= old(parser).cur(),
        final(parser).cur() == spec_parse_return(old(parser).toks(), old(parser).cur()).1,
        (r matches Ok(s) ==> spec_parse_return(old(parser).toks(), old(parser).cur()).0 == Ok::<
            StmtV,
            ParseErrV,
        >(s@)),
        (r matches Err(e) ==> spec_parse_return(old(parser).toks(), old(parser).cur()).0 == Err::<
            StmtV,
            ParseErrV,
        >(e@)),
    decreases rem(old(parser).toks(), old(parser).cur()), 12int,
{
    let ghost toks = old(parser).toks();
    let ghost i = old(parser).cur();
    proof {
        assert(0 <= i < toks.len());
    }
    let mut stmt = ReturnStatement::new();

    parser.next_token();
    let expression = parse_expression(parser, Precedence::LOWEST);
    proof {
        assert(at_least(parser.cur(), i + 1) == parser.cur());
    }
    match expression {
        Ok(e) => {
            stmt.expression = Some(e);
        },
        Err(ParseErr::NoPrefixParseFn) => {
            stmt.expression = None;
        },
        Err(e) => {
            return Err(e);
        },
    }
    let pk = parser.peek_token();
    if pk.is_same_with(TOKEN::SEMICOLON) {
        parser.next_token();
    }
    Ok(Statement::Return(stmt))
}

/// An expression statement (or, when `=` follows the expression, a
/// reassignment whose left-hand side it is), exactly as
/// `spec_parse_expr_stmt` gives it.
#[verifier::rlimit(80)]
pub fn parse_expression_statement(parser: &mut Parser) -> (r: Result<Statement, ParseErr>)
    requires
        old(parser).wf(),
    ensures
        final(parser).wf(),
        final(parser).toks() == old(parser).toks(),
        final(parser).cur() >= old(parser).cur(),
        final(parser).cur() == spec_parse_expr_stmt(old(parser).toks(), old(parser).cur()).1,
        (r matches Ok(s) ==> spec_parse_expr_stmt(old(parser).toks(), old(parser).cur()).0
            == Ok::<StmtV, ParseErrV>(s@)),
        (r matches Err(e) ==> spec_parse_expr_stmt(old(parser).toks(), old(parser).cur()).0
            == Err::<StmtV, ParseErrV>(e@)),
    decreases rem(old(parser).toks(), old(parser).cur()), 12int,
{
    let ghost toks = old(parser).toks();
    let ghost i = old(parser).cur();
    let token = parser.cur_token();
    let expression = parse_expression(parser, Precedence::LOWEST);
    proof {
        assert(at_least(parser.cur(), i) == parser.cur());
    }
    match expression {
        Ok(lhs) => {
            let ghost j = parser.cur();
            let pk = parser.peek_token();
            if pk.is_same_with(TOKEN::ASSIGN) {
                proof {
                    assert(0 <= j + 1 < toks.len());
                }
                parser.next_token();
                parser.next_token();
                let value = match parse_expression(parser, Precedence::LOWEST) {
                    Ok(v) => v,
                    Err(e) => {
                        return Err(e);
                    },
                };
                let stmt = ReassignStatement::new(lhs, value);
                return Ok(Statement::Reassign(stmt));
            }
            if pk.is_same_with(TOKEN::SEMICOLON) {
                parser.next_token();
            }
            let stmt = ExpressionStatement::new(token, Some(lhs));
            Ok(Statement::Expression(stmt))
        },
        Err(ParseErr::NoPrefixParseFn) => {
            let pk = parser.peek_token();
            if pk.is_same_with(TOKEN::SEMICOLON) {
                parser.next_token();
            }
            let stmt = ExpressionStatement::new(token, None);
            Ok(Statement::Expression(stmt))
        },
        Err(e) => Err(e),
    }
}

/// A block's statements, exactly as `spec_parse_block` gives it; on entry
/// the cursor stands on the opening brace, on success it stands on the
/// closing one.
#[verifier::loop_isolation(false)]
pub fn parse_block_statement(parser: &mut Parser) -> (r: Result<Vec<Statement>, ParseErr>)
    requires
        old(parser).wf(),
    ensures
        final(parser).wf(),
        final(parser).toks() == old(parser).toks(),
        final(parser).cur() >= old(parser).cur(),
        final(parser).cur() == spec_parse_block(old(parser).toks(), old(parser).cur()).1,
        (r matches Ok(b) ==> spec_parse_block(old(parser).toks(), old(parser).cur()).0 == Ok::<
            Seq<StmtV>,
            ParseErrV,
        >(stmts_view(b@))),
        (r matches Err(e) ==> spec_parse_block(old(parser).toks(), old(parser).cur()).0 == Err::<
            Seq<StmtV>,
            ParseErrV,
        >(e@)),
    decreases rem(old(parser).toks(), old(parser).cur()), 15int,
{
    let ghost toks = old(parser).toks();
    let ghost start = old(parser).cur();
    let cur = parser.cur_token();
    if cur.is_same_with(TOKEN::RBRACE) {
        return Err(ParseErr::BLOCK(String::from_str("RBRACE"), cur));
    }
    let mut block_stmts: Vec<Statement> = Vec::new();
    parser.next_token();
    proof {
        assert(stmts_view(block_stmts@) =~= Seq::<StmtV>::empty());
    }

    loop
        invariant
            parser.wf(),
            parser.toks() == toks,
            parser.cur() >= start,
            spec_block_loop(toks, parser.cur(), stmts_view(block_stmts@)) == spec_block_loop(
                toks,
                nxt(toks, start),
                Seq::empty(),
            ),
        decreases rem(toks, parser.cur()),
    {
        let ghost p0 = parser.cur();
        let cur = parser.cur_token();
        if cur.is_same_with(TOKEN::RBRACE) {
            return Ok(block_stmts);
        }
        if cur.is_same_with(TOKEN::EOF) {
            return Err(ParseErr::BLOCK(String::from_str("LBRACE"), cur));
        }
        let stmt = match parse_statement(parser) {
            Ok(s) => s,
            Err(e) => {
                return Err(e);
            },
        };
        proof {
            assert(at_least(parser.cur(), p0) == parser.cur());
            lemma_stmts_view_len(block_stmts@);
        }
        let ghost acc0 = stmts_view(block_stmts@);
        let ghost bs0 = block_stmts@;
        block_stmts.push(stmt);
        proof {
            assert(block_stmts@.drop_last() =~= bs0);
            assert(stmts_view(block_stmts@) == acc0.push(block_stmts@.last()@));
        }
        parser.next_token();
    }
}

} // verus!
