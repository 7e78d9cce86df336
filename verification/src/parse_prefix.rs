//! The prefix parsers: atoms, unary operators, grouping, array literals,
//! conditionals and function literals.

use vstd::prelude::*;

use crate::ast::{
    ArrayLiteral, BlockStatement, ExprV, Expression, ExpressionStatement, FunctionLiteral,
    Identifier, IfExpression, PrefixExpression, Statement, exprs_view, idents_view,
};
use crate::errors::{ParseErr, ParseErrV};
use crate::parse_expression::parse_expression;
use crate::parse_spec::{
    at_least, nxt, rem, spec_array_elems_loop, spec_fn_params_loop, spec_parse_array,
    spec_parse_block, spec_parse_fn_parameters, spec_parse_function, spec_parse_group,
    spec_parse_if, spec_parse_prefix, spec_parse_prefix_op, tok_at,
};
use crate::parse_statement::parse_block_statement;
use crate::parser::{Parser, Precedence};
use crate::render::lemma_exprs_view_len;
use crate::token::TOKEN;

verus! {

/// Dispatches to the prefix parser of the current token, exactly as
/// `spec_parse_prefix` gives it.
pub fn parse_prefix(parser: &mut Parser) -> (r: Result<Expression, ParseErr>)
    requires
        old(parser).wf(),
    ensures
        final(parser).wf(),
        final(parser).toks() == old(parser).toks(),
        final(parser).cur() >= old(parser).cur(),
        final(parser).cur() == spec_parse_prefix(old(parser).toks(), old(parser).cur()).1,
        (r matches Ok(x) ==> spec_parse_prefix(old(parser).toks(), old(parser).cur()).0 == Ok::<
            ExprV,
            ParseErrV,
        >(x@)),
        (r matches Err(e) ==> spec_parse_prefix(old(parser).toks(), old(parser).cur()).0 == Err::<
            ExprV,
            ParseErrV,
        >(e@)),
    decreases rem(old(parser).toks(), old(parser).cur()), 5int,
{
    let cur = parser.cur_token();
    match cur {
        TOKEN::IDENT(_) => parse_identifier(parser),
        TOKEN::NUMBER(_) => parse_int_literal(parser),
        TOKEN::STRING(_) => parse_string(parser),
        TOKEN::TRUE => parse_boolean_literal(parser),
        TOKEN::FALSE => parse_boolean_literal(parser),
        TOKEN::BANG => parse_prefix_expression(parser),
        TOKEN::MINUS => parse_prefix_expression(parser),
        TOKEN::LPAREN => parse_group_expression(parser),
        TOKEN::LBRACKET => parse_array_literal(parser),
        TOKEN::IF => parse_if_expression(parser),
        TOKEN::FUNCTION => parse_function_literal(parser),
        _ => Err(ParseErr::NoPrefixParseFn),
    }
}

/// An identifier atom; the cursor stays on it.
pub fn parse_identifier(parser: &mut Parser) -> (r: Result<Expression, ParseErr>)
    requires
        old(parser).wf(),
        tok_at(old(parser).toks(), old(parser).cur()) is IDENT,
    ensures
        *final(parser) == *old(parser),
        r matches Ok(x) && x@ == ExprV::Identifier(
            tok_at(old(parser).toks(), old(parser).cur())->IDENT_0,
        ),
{
    let cur = parser.cur_token();
    match cur {
        TOKEN::IDENT(id) => Ok(Expression::Identifier(Identifier(id.0))),
        _ => Err(ParseErr::NoPrefixParseFn),
    }
}

/// A string atom; the cursor stays on it.
pub fn parse_string(parser: &mut Parser) -> (r: Result<Expression, ParseErr>)
    requires
        old(parser).wf(),
        tok_at(old(parser).toks(), old(parser).cur()) is STRING,
    ensures
        *final(parser) == *old(parser),
        r matches Ok(x) && x@ == ExprV::Str(
            tok_at(old(parser).toks(), old(parser).cur())->STRING_0,
        ),
{
    let cur = parser.cur_token();
    match cur {
        TOKEN::STRING(s) => Ok(Expression::String(s)),
        _ => Err(ParseErr::NoPrefixParseFn),
    }
}

/// A number atom; the cursor stays on it.
pub fn parse_int_literal(parser: &mut Parser) -> (r: Result<Expression, ParseErr>)
    requires
        old(parser).wf(),
        tok_at(old(parser).toks(), old(parser).cur()) is NUMBER,
    ensures
        *final(parser) == *old(parser),
        r matches Ok(x) && x@ == ExprV::Number(
            tok_at(old(parser).toks(), old(parser).cur())->NUMBER_0,
        ),
{
    let cur = parser.cur_token();
    match cur {
        TOKEN::NUMBER(n) => Ok(Expression::Number(n)),
        _ => Err(ParseErr::NoPrefixParseFn),
    }
}

/// A boolean atom; the cursor stays on it.
pub fn parse_boolean_literal(parser: &mut Parser) -> (r: Result<Expression, ParseErr>)
    requires
        old(parser).wf(),
        tok_at(old(parser).toks(), old(parser).cur()) is TRUE || tok_at(
            old(parser).toks(),
            old(parser).cur(),
        ) is FALSE,
    ensures
        *final(parser) == *old(parser),
        r matches Ok(x) && x@ == ExprV::Bool(tok_at(old(parser).toks(), old(parser).cur()) is TRUE),
{
    let cur = parser.cur_token();
    match cur {
        TOKEN::TRUE => Ok(Expression::Bool(true)),
        _ => Ok(Expression::Bool(false)),
    }
}

/// A unary operator applied to its operand, exactly as
/// `spec_parse_prefix_op` gives it.
pub fn parse_prefix_expression(parser: &mut Parser) -> (r: Result<Expression, ParseErr>)
    requires
        old(parser).wf(),
        tok_at(old(parser).toks(), old(parser).cur()) is BANG || tok_at(
            old(parser).toks(),
            old(parser).cur(),
        ) is MINUS,
    ensures
        final(parser).wf(),
        final(parser).toks() == old(parser).toks(),
        final(parser).cur() >= old(parser).cur(),
        final(parser).cur() == spec_parse_prefix_op(old(parser).toks(), old(parser).cur()).1,
        (r matches Ok(x) ==> spec_parse_prefix_op(old(parser).toks(), old(parser).cur()).0
            == Ok::<ExprV, ParseErrV>(x@)),
        (r matches Err(e) ==> spec_parse_prefix_op(old(parser).toks(), old(parser).cur()).0
            == Err::<ExprV, ParseErrV>(e@)),
    decreases rem(old(parser).toks(), old(parser).cur()), 4int,
{
    let ghost toks = old(parser).toks();
    let ghost i = old(parser).cur();
    proof {
        assert(0 <= i < toks.len());
    }
    let token = parser.cur_token();
    parser.next_token();
    let right_exp = match parse_expression(parser, Precedence::PREFIX) {
        Ok(x) => x,
        Err(e) => {
            return Err(e);
        },
    };
    let expression = PrefixExpression::new(token, right_exp);
    Ok(Expression::Prefix(Box::new(expression)))
}

/// A parenthesised expression, exactly as `spec_parse_group` gives it.
pub fn parse_group_expression(parser: &mut Parser) -> (r: Result<Expression, ParseErr>)
    requires
        old(parser).wf(),
        tok_at(old(parser).toks(), old(parser).cur()) is LPAREN,
    ensures
        final(parser).wf(),
        final(parser).toks() == old(parser).toks(),
        final(parser).cur() >= old(parser).cur(),
        final(parser).cur() == spec_parse_group(old(parser).toks(), old(parser).cur()).1,
        (r matches Ok(x) ==> spec_parse_group(old(parser).toks(), old(parser).cur()).0 == Ok::<
            ExprV,
            ParseErrV,
        >(x@)),
        (r matches Err(e) ==> spec_parse_group(old(parser).toks(), old(parser).cur()).0 == Err::<
            ExprV,
            ParseErrV,
        >(e@)),
    decreases rem(old(parser).toks(), old(parser).cur()), 4int,
{
    let ghost toks = old(parser).toks();
    let ghost i = old(parser).cur();
    proof {
        assert(0 <= i < toks.len());
    }
    parser.next_token();
    let expression = match parse_expression(parser, Precedence::LOWEST) {
        Ok(x) => x,
        Err(e) => {
            return Err(e);
        },
    };
    proof {
        assert(at_least(parser.cur(), i) == parser.cur());
    }
    let pk = parser.peek_token();
    if !pk.is_same_with(TOKEN::RPAREN) {
        return Err(ParseErr::GROUP(String::from_str("RPAREN"), pk));
    }
    parser.next_token();
    Ok(expression)
}

/// An array literal, exactly as `spec_parse_array` gives it.
#[verifier::loop_isolation(false)]
pub fn parse_array_literal(parser: &mut Parser) -> (r: Result<Expression, ParseErr>)
    requires
        old(parser).wf(),
        tok_at(old(parser).toks(), old(parser).cur()) is LBRACKET,
    ensures
        final(parser).wf(),
        final(parser).toks() == old(parser).toks(),
        final(parser).cur() >= old(parser).cur(),
        final(parser).cur() == spec_parse_array(old(parser).toks(), old(parser).cur()).1,
        (r matches Ok(x) ==> spec_parse_array(old(parser).toks(), old(parser).cur()).0 == Ok::<
            ExprV,
            ParseErrV,
        >(x@)),
        (r matches Err(e) ==> spec_parse_array(old(parser).toks(), old(parser).cur()).0 == Err::<
            ExprV,
            ParseErrV,
        >(e@)),
    decreases rem(old(parser).toks(), old(parser).cur()), 4int,
{
    let ghost toks = old(parser).toks();
    let ghost i = old(parser).cur();
    proof {
        assert(0 <= i < toks.len());
    }
    let mut elements: Vec<Expression> = Vec::new();
    parser.next_token();
    let cur = parser.cur_token();
    if cur.is_same_with(TOKEN::RBRACKET) {
        proof {
            assert(exprs_view(elements@) =~= Seq::<ExprV>::empty());
        }
        return Ok(Expression::ArrayLiteral(ArrayLiteral::new(elements)));
    }

    loop
        invariant
            parser.wf(),
            parser.toks() == toks,
            i < parser.cur(),
            spec_array_elems_loop(toks, parser.cur(), exprs_view(elements@))
                == spec_array_elems_loop(toks, i + 1, Seq::empty()),
        decreases rem(toks, parser.cur()),
    {
        let ghost p0 = parser.cur();
        let ghost acc0 = exprs_view(elements@);
        let e = match parse_expression(parser, Precedence::LOWEST) {
            Ok(x) => x,
            Err(err) => {
                return Err(err);
            },
        };
        proof {
            assert(at_least(parser.cur(), p0) == parser.cur());
            lemma_exprs_view_len(elements@);
        }
        let ghost es0 = elements@;
        elements.push(e);
        proof {
            assert(elements@.drop_last() =~= es0);
            assert(exprs_view(elements@) == acc0.push(elements@.last()@));
        }
        parser.next_token();
        let cur = parser.cur_token();
        if cur.is_same_with(TOKEN::COMMA) {
            parser.next_token();
        } else if cur.is_same_with(TOKEN::RBRACKET) {
            return Ok(Expression::ArrayLiteral(ArrayLiteral::new(elements)));
        } else {
            return Err(ParseErr::ARRAY(String::from_str("] or ,"), cur));
        }
    }
}

/// A conditional, exactly as `spec_parse_if` gives it.
#[verifier::rlimit(100)]
pub fn parse_if_expression(parser: &mut Parser) -> (r: Result<Expression, ParseErr>)
    requires
        old(parser).wf(),
        tok_at(old(parser).toks(), old(parser).cur()) is IF,
    ensures
        final(parser).wf(),
        final(parser).toks() == old(parser).toks(),
        final(parser).cur() >= old(parser).cur(),
        final(parser).cur() == spec_parse_if(old(parser).toks(), old(parser).cur()).1,
        (r matches Ok(x) ==> spec_parse_if(old(parser).toks(), old(parser).cur()).0 == Ok::<
            ExprV,
            ParseErrV,
        >(x@)),
        (r matches Err(e) ==> spec_parse_if(old(parser).toks(), old(parser).cur()).0 == Err::<
            ExprV,
            ParseErrV,
        >(e@)),
    decreases rem(old(parser).toks(), old(parser).cur()), 4int,
{
    let ghost toks = old(parser).toks();
    let ghost i = old(parser).cur();
    proof {
        assert(0 <= i < toks.len());
    }
    parser.next_token();
    let condition = match parse_expression(parser, Precedence::LOWEST) {
        Ok(x) => x,
        Err(e) => {
            return Err(e);
        },
    };
    proof {
        assert(at_least(parser.cur(), i) == parser.cur());
    }
    let pk = parser.peek_token();
    if !pk.is_same_with(TOKEN::LBRACE) {
        return Err(ParseErr::IF(String::from_str("LBRACE"), pk));
    }
    parser.next_token();
    let consequence = match parse_block_statement(parser) {
        Ok(b) => b,
        Err(e) => {
            return Err(e);
        },
    };
    let ghost k = parser.cur();
    let pk2 = parser.peek_token();
    if pk2.is_same_with(TOKEN::ELSE) {
        parser.next_token();
        let pk3 = parser.peek_token();
        if pk3.is_same_with(TOKEN::LBRACE) {
            parser.next_token();
            let alt = match parse_block_statement(parser) {
                Ok(b) => b,
                Err(e) => {
                    return Err(e);
                },
            };
            let expression = IfExpression {
                condition,
                consequence: BlockStatement::new(consequence),
                alternative: Some(BlockStatement::new(alt)),
            };
            return Ok(Expression::If(Box::new(expression)));
        } else if pk3.is_same_with(TOKEN::IF) {
            parser.next_token();
            let if_exp = match parse_if_expression(parser) {
                Ok(x) => x,
                Err(e) => {
                    return Err(e);
                },
            };
            let stmt_exp = ExpressionStatement::new(TOKEN::IF, Some(if_exp));
            let mut block: Vec<Statement> = Vec::new();
            block.push(Statement::Expression(stmt_exp));
            proof {
                assert(block@.drop_last() =~= Seq::<Statement>::empty());
                assert(crate::ast::stmts_view(Seq::<Statement>::empty())
                    =~= Seq::<crate::ast::StmtV>::empty());
                assert(crate::ast::stmts_view(block@) == crate::ast::stmts_view(
                    block@.drop_last(),
                ).push(block@.last()@));
                assert(crate::ast::stmts_view(block@) =~= seq![block@.last()@]);
            }
            let expression = IfExpression {
                condition,
                consequence: BlockStatement::new(consequence),
                alternative: Some(BlockStatement::new(block)),
            };
            return Ok(Expression::If(Box::new(expression)));
        } else {
            return Err(ParseErr::ELSE(String::from_str("IF or LBRACE"), pk3));
        }
    }
    let expression = IfExpression {
        condition,
        consequence: BlockStatement::new(consequence),
        alternative: None,
    };
    Ok(Expression::If(Box::new(expression)))
}

/// A function literal, exactly as `spec_parse_function` gives it.
pub fn parse_function_literal(parser: &mut Parser) -> (r: Result<Expression, ParseErr>)
    requires
        old(parser).wf(),
        tok_at(old(parser).toks(), old(parser).cur()) is FUNCTION,
    ensures
        final(parser).wf(),
        final(parser).toks() == old(parser).toks(),
        final(parser).cur() >= old(parser).cur(),
        final(parser).cur() == spec_parse_function(old(parser).toks(), old(parser).cur()).1,
        (r matches Ok(x) ==> spec_parse_function(old(parser).toks(), old(parser).cur()).0 == Ok::<
            ExprV,
            ParseErrV,
        >(x@)),
        (r matches Err(e) ==> spec_parse_function(old(parser).toks(), old(parser).cur()).0
            == Err::<ExprV, ParseErrV>(e@)),
    decreases rem(old(parser).toks(), old(parser).cur()), 4int,
{
    let ghost toks = old(parser).toks();
    let ghost i = old(parser).cur();
    proof {
        assert(0 <= i < toks.len());
    }
    parser.next_token();
    let parameters = match parse_fn_parameters(parser) {
        Ok(ps) => ps,
        Err(e) => {
            return Err(e);
        },
    };
    proof {
        assert(at_least(parser.cur(), i + 1) == parser.cur());
    }
    let body = match parse_block_statement(parser) {
        Ok(b) => b,
        Err(e) => {
            return Err(e);
        },
    };
    let function = FunctionLiteral { parameters, body: BlockStatement::new(body) };
    Ok(Expression::Function(Box::new(function)))
}

/// The parameter list of a function literal, exactly as
/// `spec_parse_fn_parameters` gives it; afterwards the cursor is just past
/// the closing parenthesis.
#[verifier::loop_isolation(false)]
pub fn parse_fn_parameters(parser: &mut Parser) -> (r: Result<Vec<Identifier>, ParseErr>)
    requires
        old(parser).wf(),
    ensures
        final(parser).wf(),
        final(parser).toks() == old(parser).toks(),
        final(parser).cur() >= old(parser).cur(),
        final(parser).cur() == spec_parse_fn_parameters(old(parser).toks(), old(parser).cur()).1,
        (r matches Ok(ps) ==> spec_parse_fn_parameters(old(parser).toks(), old(parser).cur()).0
            == Ok::<Seq<Seq<char>>, ParseErrV>(idents_view(ps@))),
        (r matches Err(e) ==> spec_parse_fn_parameters(old(parser).toks(), old(parser).cur()).0
            == Err::<Seq<Seq<char>>, ParseErrV>(e@)),
    decreases rem(old(parser).toks(), old(parser).cur()), 4int,
{
    let ghost toks = old(parser).toks();
    let ghost start = old(parser).cur();
    let mut identifiers: Vec<Identifier> = Vec::new();
    parser.next_token();
    proof {
        assert(idents_view(identifiers@) =~= Seq::<Seq<char>>::empty());
    }

    loop
        invariant
            parser.wf(),
            parser.toks() == toks,
            spec_fn_params_loop(toks, parser.cur(), idents_view(identifiers@))
                == spec_fn_params_loop(toks, nxt(toks, start), Seq::empty()),
            parser.cur() >= start,
        decreases rem(toks, parser.cur()),
    {
        let cur = parser.cur_token();
        if cur.is_same_with(TOKEN::RPAREN) {
            parser.next_token();
            return Ok(identifiers);
        }
        match cur {
            TOKEN::IDENT(name) => {
                let ghost acc0 = idents_view(identifiers@);
                identifiers.push(Identifier(name.0));
                proof {
                    assert(identifiers@.drop_last() =~= identifiers@.subrange(
                        0,
                        identifiers@.len() - 1,
                    ));
                    assert(idents_view(identifiers@) =~= acc0.push(identifiers@.last().0@));
                }
                parser.next_token();
            },
            _ => {
                return Err(ParseErr::FN(String::from_str("IDENT"), cur));
            },
        }
        let cur2 = parser.cur_token();
        if cur2.is_same_with(TOKEN::COMMA) {
            parser.next_token();
        }
    }
}

} // verus!
