//! Pratt expression parsing: a prefix form, then every infix operator that
//! binds more tightly than the caller's floor.

use vstd::prelude::*;

use crate::ast::Expression;
use crate::errors::ParseErr;
use crate::parse_infix::{parse_arr_index_expression, parse_call_expression, parse_infix_expression};
use crate::parse_prefix::parse_prefix;
use crate::parse_spec::{
    at_least, has_infix, rem, spec_infix_loop, spec_parse_expression, spec_prec, tok_at,
};
use crate::parser::{Parser, Precedence, spec_order};
use crate::token::TOKEN;

verus! {

/// Parses one expression at the given precedence floor, exactly as
/// `spec_parse_expression` gives it.
pub fn parse_expression(parser: &mut Parser, precedence: Precedence) -> (r: Result<
    Expression,
    ParseErr,
>)
    requires
        old(parser).wf(),
    ensures
        final(parser).wf(),
        final(parser).toks() == old(parser).toks(),
        final(parser).cur() >= old(parser).cur(),
        final(parser).cur() == spec_parse_expression(
            old(parser).toks(),
            old(parser).cur(),
            spec_order(precedence),
        ).1,
        (r matches Ok(x) ==> spec_parse_expression(
            old(parser).toks(),
            old(parser).cur(),
            spec_order(precedence),
        ).0 == Ok::<crate::ast::ExprV, crate::errors::ParseErrV>(x@)),
        (r matches Err(e) ==> spec_parse_expression(
            old(parser).toks(),
            old(parser).cur(),
            spec_order(precedence),
        ).0 == Err::<crate::ast::ExprV, crate::errors::ParseErrV>(e@)),
    decreases rem(old(parser).toks(), old(parser).cur()), 10int,
{
    let ghost toks = old(parser).toks();
    let ghost i = old(parser).cur();
    let left = match parse_prefix(parser) {
        Ok(l) => l,
        Err(e) => {
            return Err(e);
        },
    };
    proof {
        assert(at_least(parser.cur(), i) == parser.cur());
    }
    parse_infix_loop(parser, precedence, left)
}

/// The infix loop: while the token after the current one is no semicolon
/// and binds more tightly than the floor, consume it and its right
/// operand, exactly as `spec_infix_loop` gives it.
fn parse_infix_loop(parser: &mut Parser, precedence: Precedence, left: Expression) -> (r: Result<
    Expression,
    ParseErr,
>)
    requires
        old(parser).wf(),
    ensures
        final(parser).wf(),
        final(parser).toks() == old(parser).toks(),
        final(parser).cur() >= old(parser).cur(),
        final(parser).cur() == spec_infix_loop(
            old(parser).toks(),
            old(parser).cur(),
            spec_order(precedence),
            left@,
        ).1,
        (r matches Ok(x) ==> spec_infix_loop(
            old(parser).toks(),
            old(parser).cur(),
            spec_order(precedence),
            left@,
        ).0 == Ok::<crate::ast::ExprV, crate::errors::ParseErrV>(x@)),
        (r matches Err(e) ==> spec_infix_loop(
            old(parser).toks(),
            old(parser).cur(),
            spec_order(precedence),
            left@,
        ).0 == Err::<crate::ast::ExprV, crate::errors::ParseErrV>(e@)),
    decreases rem(old(parser).toks(), old(parser).cur()), 9int,
{
    let ghost toks = old(parser).toks();
    let ghost j = old(parser).cur();
    let pk = parser.peek_token();
    let pk_order = parser.peek_precedence().order();
    if pk.is_same_with(TOKEN::SEMICOLON) || !(precedence.order() < pk_order) {
        return Ok(left);
    }
    let is_infix_op = pk.is_same_with(TOKEN::PLUS) || pk.is_same_with(TOKEN::MINUS) || pk.is_same_with(
        TOKEN::SLASH,
    ) || pk.is_same_with(TOKEN::ASTERISK) || pk.is_same_with(TOKEN::EQ) || pk.is_same_with(
        TOKEN::NotEQ,
    ) || pk.is_same_with(TOKEN::LT) || pk.is_same_with(TOKEN::GT) || pk.is_same_with(
        TOKEN::LPAREN,
    ) || pk.is_same_with(TOKEN::LBRACKET);
    if !is_infix_op {
        let cur = parser.cur_token();
        return Err(ParseErr::INFIX(String::from_str("INFIX"), cur));
    }
    proof {
        assert(spec_prec(tok_at(toks, j + 1)) > 1);
        assert(!(tok_at(toks, j + 1) is EOF));
        assert(j + 1 < toks.len());
    }
    parser.next_token();
    let is_call = pk.is_same_with(TOKEN::LPAREN);
    let is_index = pk.is_same_with(TOKEN::LBRACKET);
    let step = if is_call {
        parse_call_expression(parser, left)
    } else if is_index {
        parse_arr_index_expression(parser, left)
    } else {
        parse_infix_expression(parser, left)
    };
    let x = match step {
        Ok(x) => x,
        Err(e) => {
            return Err(e);
        },
    };
    proof {
        assert(at_least(parser.cur(), j + 1) == parser.cur());
    }
    parse_infix_loop(parser, precedence, x)
}

} // verus!
