//! The infix parsers: binary operators, calls, and indexing.

use vstd::prelude::*;

use crate::ast::{
    CallExpression, ExprV, Expression, IndexExpression, InfixExpression, exprs_view,
};
use crate::errors::{ParseErr, ParseErrV};
use crate::parse_expression::parse_expression;
use crate::parse_spec::{
    at_least, has_infix, nxt, rem, spec_call_args_loop, spec_parse_call_args,
    spec_parse_infix_op, tok_at,
};
use crate::parser::{Parser, Precedence};
use crate::render::lemma_exprs_view_len;
use crate::token::TOKEN;

verus! {

/// A binary operator applied to the expression parsed so far and a right
/// operand at the operator's own precedence (left associativity), exactly
/// as `spec_parse_infix_op` gives it.
pub fn parse_infix_expression(parser: &mut Parser, left: Expression) -> (r: Result<
    Expression,
    ParseErr,
>)
    requires
        old(parser).wf(),
        has_infix(tok_at(old(parser).toks(), old(parser).cur())),
        !(tok_at(old(parser).toks(), old(parser).cur()) is LPAREN),
        !(tok_at(old(parser).toks(), old(parser).cur()) is LBRACKET),
    ensures
        final(parser).wf(),
        final(parser).toks() == old(parser).toks(),
        final(parser).cur() >= old(parser).cur(),
        final(parser).cur() == spec_parse_infix_op(old(parser).toks(), old(parser).cur(), left@).1,
        (r matches Ok(x) ==> spec_parse_infix_op(old(parser).toks(), old(parser).cur(), left@).0
            == Ok::<ExprV, ParseErrV>(x@)),
        (r matches Err(e) ==> spec_parse_infix_op(old(parser).toks(), old(parser).cur(), left@).0
            == Err::<ExprV, ParseErrV>(e@)),
    decreases rem(old(parser).toks(), old(parser).cur()), 8int,
{
    let operator = parser.cur_token();
    let precedence = parser.cur_precedence();
    parser.next_token();
    let right = match parse_expression(parser, precedence) {
        Ok(x) => x,
        Err(e) => {
            return Err(e);
        },
    };
    let inf_exp = InfixExpression::new(left, operator, right);
    Ok(Expression::Infix(Box::new(inf_exp)))
}

/// A call of the expression parsed so far, exactly as
/// `spec_parse_infix_op` gives it at an opening parenthesis.
pub fn parse_call_expression(parser: &mut Parser, function: Expression) -> (r: Result<
    Expression,
    ParseErr,
>)
    requires
        old(parser).wf(),
        tok_at(old(parser).toks(), old(parser).cur()) is LPAREN,
    ensures
        final(parser).wf(),
        final(parser).toks() == old(parser).toks(),
        final(parser).cur() >= old(parser).cur(),
        final(parser).cur() == spec_parse_infix_op(
            old(parser).toks(),
            old(parser).cur(),
            function@,
        ).1,
        (r matches Ok(x) ==> spec_parse_infix_op(
            old(parser).toks(),
            old(parser).cur(),
            function@,
        ).0 == Ok::<ExprV, ParseErrV>(x@)),
        (r matches Err(e) ==> spec_parse_infix_op(
            old(parser).toks(),
            old(parser).cur(),
            function@,
        ).0 == Err::<ExprV, ParseErrV>(e@)),
    decreases rem(old(parser).toks(), old(parser).cur()), 8int,
{
    let ghost toks = old(parser).toks();
    let ghost i = old(parser).cur();
    let arguments = match parse_call_args(parser) {
        Ok(a) => a,
        Err(e) => {
            return Err(e);
        },
    };
    proof {
        assert(at_least(parser.cur(), i) == parser.cur());
    }
    let pk = parser.peek_token();
    if pk.is_same_with(TOKEN::RPAREN) {
        parser.next_token();
    }
    let call = CallExpression { function, arguments };
    Ok(Expression::Call(Box::new(call)))
}

/// The comma-free argument list of a call: expressions until the closing
/// parenthesis, exactly as `spec_parse_call_args` gives it.
#[verifier::loop_isolation(false)]
pub fn parse_call_args(parser: &mut Parser) -> (r: Result<Vec<Expression>, ParseErr>)
    requires
        old(parser).wf(),
    ensures
        final(parser).wf(),
        final(parser).toks() == old(parser).toks(),
        final(parser).cur() >= old(parser).cur(),
        final(parser).cur() == spec_parse_call_args(old(parser).toks(), old(parser).cur()).1,
        (r matches Ok(a) ==> spec_parse_call_args(old(parser).toks(), old(parser).cur()).0
            == Ok::<Seq<ExprV>, ParseErrV>(exprs_view(a@))),
        (r matches Err(e) ==> spec_parse_call_args(old(parser).toks(), old(parser).cur()).0
            == Err::<Seq<ExprV>, ParseErrV>(e@)),
    decreases rem(old(parser).toks(), old(parser).cur()), 7int,
{
    let ghost toks = old(parser).toks();
    let ghost start = old(parser).cur();
    let mut args: Vec<Expression> = Vec::new();
    proof {
        assert(exprs_view(args@) =~= Seq::<ExprV>::empty());
    }

    loop
        invariant
            parser.wf(),
            parser.toks() == toks,
            parser.cur() >= start,
            spec_call_args_loop(toks, parser.cur(), exprs_view(args@)) == spec_call_args_loop(
                toks,
                start,
                Seq::empty(),
            ),
        decreases rem(toks, parser.cur()),
    {
        let ghost p0 = parser.cur();
        let pk = parser.peek_token();
        if pk.is_same_with(TOKEN::RPAREN) {
            return Ok(args);
        }
        if pk.is_same_with(TOKEN::EOF) {
            return Err(ParseErr::CALL(String::from_str("RPAREN"), pk));
        }
        proof {
            assert(!(tok_at(toks, p0 + 1) is EOF));
            assert(p0 + 1 < toks.len());
        }
        parser.next_token();
        let expression = parse_expression(parser, Precedence::LOWEST);
        proof {
            assert(at_least(parser.cur(), p0 + 1) == parser.cur());
        }
        match expression {
            Ok(exp) => {
                let ghost acc0 = exprs_view(args@);
                let ghost as0 = args@;
                proof {
                    lemma_exprs_view_len(args@);
                }
                args.push(exp);
                proof {
                    assert(args@.drop_last() =~= as0);
                    assert(exprs_view(args@) == acc0.push(args@.last()@));
                }
            },
            Err(ParseErr::NoPrefixParseFn) => {
            },
            Err(e) => {
                return Err(e);
            },
        }
    }
}

/// An index of the expression parsed so far, exactly as
/// `spec_parse_infix_op` gives it at an opening bracket.
pub fn parse_arr_index_expression(parser: &mut Parser, left: Expression) -> (r: Result<
    Expression,
    ParseErr,
>)
    requires
        old(parser).wf(),
        tok_at(old(parser).toks(), old(parser).cur()) is LBRACKET,
    ensures
        final(parser).wf(),
        final(parser).toks() == old(parser).toks(),
        final(parser).cur() >= old(parser).cur(),
        final(parser).cur() == spec_parse_infix_op(old(parser).toks(), old(parser).cur(), left@).1,
        (r matches Ok(x) ==> spec_parse_infix_op(old(parser).toks(), old(parser).cur(), left@).0
            == Ok::<ExprV, ParseErrV>(x@)),
        (r matches Err(e) ==> spec_parse_infix_op(old(parser).toks(), old(parser).cur(), left@).0
            == Err::<ExprV, ParseErrV>(e@)),
    decreases rem(old(parser).toks(), old(parser).cur()), 8int,
{
    let ghost toks = old(parser).toks();
    let ghost i = old(parser).cur();
    parser.next_token();
    let index = match parse_expression(parser, Precedence::LOWEST) {
        Ok(x) => x,
        Err(e) => {
            return Err(e);
        },
    };
    proof {
        assert(at_least(parser.cur(), i) == parser.cur());
    }
    parser.next_token();
    let cur = parser.cur_token();
    if !cur.is_same_with(TOKEN::RBRACKET) {
        return Err(ParseErr::INDEX(String::from_str("RPAREN"), cur));
    }
    let index_exp = IndexExpression::new(left, index);
    Ok(Expression::Index(Box::new(index_exp)))
}

} // verus!
