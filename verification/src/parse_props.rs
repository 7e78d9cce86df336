//! Laws of the parser, proved against its functional model.

use vstd::prelude::*;

use crate::ast::ExprV;
use crate::errors::ParseErrV;
use crate::parse_spec::{
    prec_lowest, spec_infix_loop, spec_parse_expression, spec_parse_infix_op, spec_parse_prefix,
    spec_prec, tok_at,
};
use crate::token::TokenV;

verus! {

/// A token that parses as an atom: the cursor stays on it and it becomes
/// the matching leaf expression.
pub open spec fn is_atom(t: TokenV) -> bool {
    t is IDENT || t is NUMBER || t is STRING || t is TRUE || t is FALSE
}

/// The leaf expression an atom token parses to.
pub open spec fn atom_expr(t: TokenV) -> ExprV {
    match t {
        TokenV::IDENT(name) => ExprV::Identifier(name),
        TokenV::NUMBER(n) => ExprV::Number(n),
        TokenV::STRING(s) => ExprV::Str(s),
        TokenV::TRUE => ExprV::Bool(true),
        _ => ExprV::Bool(false),
    }
}

/// A left-associative binary operator token.
pub open spec fn is_binary_op(t: TokenV) -> bool {
    t is PLUS || t is MINUS || t is SLASH || t is ASTERISK || t is EQ || t is NotEQ || t is LT
        || t is GT
}

/// An atom parses to its leaf without moving the cursor.
proof fn lemma_atom_prefix(toks: Seq<TokenV>, i: int)
    requires
        0 <= i < toks.len(),
        is_atom(toks[i]),
    ensures
        spec_parse_prefix(toks, i) == (
            Ok::<ExprV, ParseErrV>(atom_expr(toks[i])),
            i,
        ),
{
}

/// Two same-precedence left-associative operators group to the left:
/// `a o1 b o2 c` parses as `(a o1 b) o2 c`.
#[verifier::rlimit(100)]
pub proof fn lemma_left_associativity(a: TokenV, o1: TokenV, b: TokenV, o2: TokenV, c: TokenV)
    requires
        is_atom(a),
        is_atom(b),
        is_atom(c),
        is_binary_op(o1),
        is_binary_op(o2),
        spec_prec(o1) == spec_prec(o2),
    ensures
        ({
            let toks = seq![a, o1, b, o2, c, TokenV::EOF];
            spec_parse_expression(toks, 0, prec_lowest()).0 == Ok::<ExprV, ParseErrV>(
                ExprV::Infix(
                    o2,
                    Box::new(
                        ExprV::Infix(o1, Box::new(atom_expr(a)), Box::new(atom_expr(b))),
                    ),
                    Box::new(atom_expr(c)),
                ),
            )
        }),
{
    let toks = seq![a, o1, b, o2, c, TokenV::EOF];
    let ea = atom_expr(a);
    let eb = atom_expr(b);
    let ec = atom_expr(c);
    lemma_atom_prefix(toks, 0);
    lemma_atom_prefix(toks, 2);
    lemma_atom_prefix(toks, 4);
    assert(tok_at(toks, 1) == o1);
    assert(tok_at(toks, 3) == o2);
    assert(tok_at(toks, 5) == TokenV::EOF);
    assert(spec_prec(o1) > 1);
    // the right operand of the first operator stops before the second one
    assert(spec_infix_loop(toks, 2, spec_prec(o1), eb) == (Ok::<ExprV, ParseErrV>(eb), 2int));
    assert(spec_parse_expression(toks, 2, spec_prec(o1)) == (Ok::<ExprV, ParseErrV>(eb), 2int));
    let l1 = ExprV::Infix(o1, Box::new(ea), Box::new(eb));
    // the right operand of the second operator runs to the end of input
    assert(spec_infix_loop(toks, 4, spec_prec(o2), ec) == (Ok::<ExprV, ParseErrV>(ec), 4int));
    assert(spec_parse_expression(toks, 4, spec_prec(o2)) == (Ok::<ExprV, ParseErrV>(ec), 4int));
    let l2 = ExprV::Infix(o2, Box::new(l1), Box::new(ec));
    assert(spec_infix_loop(toks, 4, prec_lowest(), l2) == (Ok::<ExprV, ParseErrV>(l2), 4int));
    assert(spec_parse_infix_op(toks, 3, l1) == (Ok::<ExprV, ParseErrV>(l2), 4int));
    assert(spec_infix_loop(toks, 2, prec_lowest(), l1) == (Ok::<ExprV, ParseErrV>(l2), 4int));
    assert(spec_parse_infix_op(toks, 1, ea) == (Ok::<ExprV, ParseErrV>(l1), 2int));
    assert(spec_infix_loop(toks, 0, prec_lowest(), ea) == (Ok::<ExprV, ParseErrV>(l2), 4int));
}

/// Parentheses around the tighter-binding half add nothing: `a + (b * c)`
/// parses to the same tree as `a + b * c`.
#[verifier::rlimit(100)]
pub proof fn lemma_grouping_matches_precedence(a: TokenV, b: TokenV, c: TokenV)
    requires
        is_atom(a),
        is_atom(b),
        is_atom(c),
    ensures
        ({
            let plain = seq![a, TokenV::PLUS, b, TokenV::ASTERISK, c, TokenV::EOF];
            let grouped = seq![
                a,
                TokenV::PLUS,
                TokenV::LPAREN,
                b,
                TokenV::ASTERISK,
                c,
                TokenV::RPAREN,
                TokenV::EOF,
            ];
            spec_parse_expression(plain, 0, prec_lowest()).0 == spec_parse_expression(
                grouped,
                0,
                prec_lowest(),
            ).0 && spec_parse_expression(plain, 0, prec_lowest()).0 == Ok::<ExprV, ParseErrV>(
                ExprV::Infix(
                    TokenV::PLUS,
                    Box::new(atom_expr(a)),
                    Box::new(
                        ExprV::Infix(
                            TokenV::ASTERISK,
                            Box::new(atom_expr(b)),
                            Box::new(atom_expr(c)),
                        ),
                    ),
                ),
            )
        }),
{
    let ea = atom_expr(a);
    let eb = atom_expr(b);
    let ec = atom_expr(c);
    let inner = ExprV::Infix(TokenV::ASTERISK, Box::new(eb), Box::new(ec));
    let whole = ExprV::Infix(TokenV::PLUS, Box::new(ea), Box::new(inner));

    let plain = seq![a, TokenV::PLUS, b, TokenV::ASTERISK, c, TokenV::EOF];
    lemma_atom_prefix(plain, 0);
    lemma_atom_prefix(plain, 2);
    lemma_atom_prefix(plain, 4);
    assert(tok_at(plain, 1) == TokenV::PLUS);
    assert(tok_at(plain, 3) == TokenV::ASTERISK);
    assert(tok_at(plain, 5) == TokenV::EOF);
    assert(spec_infix_loop(plain, 4, spec_prec(TokenV::ASTERISK), ec) == (
        Ok::<ExprV, ParseErrV>(ec),
        4int,
    ));
    assert(spec_parse_expression(plain, 4, spec_prec(TokenV::ASTERISK)) == (
        Ok::<ExprV, ParseErrV>(ec),
        4int,
    ));
    assert(spec_infix_loop(plain, 4, spec_prec(TokenV::PLUS), inner) == (
        Ok::<ExprV, ParseErrV>(inner),
        4int,
    ));
    assert(spec_parse_infix_op(plain, 3, eb) == (Ok::<ExprV, ParseErrV>(inner), 4int));
    assert(spec_infix_loop(plain, 2, spec_prec(TokenV::PLUS), eb) == (
        Ok::<ExprV, ParseErrV>(inner),
        4int,
    ));
    assert(spec_parse_expression(plain, 2, spec_prec(TokenV::PLUS)) == (
        Ok::<ExprV, ParseErrV>(inner),
        4int,
    ));
    assert(spec_infix_loop(plain, 4, prec_lowest(), whole) == (
        Ok::<ExprV, ParseErrV>(whole),
        4int,
    ));
    assert(spec_parse_infix_op(plain, 1, ea) == (Ok::<ExprV, ParseErrV>(whole), 4int));
    assert(spec_infix_loop(plain, 0, prec_lowest(), ea) == (Ok::<ExprV, ParseErrV>(whole), 4int));
    assert(spec_parse_expression(plain, 0, prec_lowest()).0 == Ok::<ExprV, ParseErrV>(whole));

    let grouped = seq![
        a,
        TokenV::PLUS,
        TokenV::LPAREN,
        b,
        TokenV::ASTERISK,
        c,
        TokenV::RPAREN,
        TokenV::EOF,
    ];
    lemma_atom_prefix(grouped, 0);
    lemma_atom_prefix(grouped, 3);
    lemma_atom_prefix(grouped, 5);
    assert(tok_at(grouped, 1) == TokenV::PLUS);
    assert(tok_at(grouped, 2) == TokenV::LPAREN);
    assert(tok_at(grouped, 4) == TokenV::ASTERISK);
    assert(tok_at(grouped, 6) == TokenV::RPAREN);
    assert(tok_at(grouped, 7) == TokenV::EOF);
    // inside the parentheses: b * c up to the closing parenthesis
    assert(spec_infix_loop(grouped, 5, spec_prec(TokenV::ASTERISK), ec) == (
        Ok::<ExprV, ParseErrV>(ec),
        5int,
    ));
    assert(spec_parse_expression(grouped, 5, spec_prec(TokenV::ASTERISK)) == (
        Ok::<ExprV, ParseErrV>(ec),
        5int,
    ));
    assert(spec_infix_loop(grouped, 5, prec_lowest(), inner) == (
        Ok::<ExprV, ParseErrV>(inner),
        5int,
    ));
    assert(spec_parse_infix_op(grouped, 4, eb) == (Ok::<ExprV, ParseErrV>(inner), 5int));
    assert(spec_infix_loop(grouped, 3, prec_lowest(), eb) == (
        Ok::<ExprV, ParseErrV>(inner),
        5int,
    ));
    assert(spec_parse_expression(grouped, 3, prec_lowest()) == (
        Ok::<ExprV, ParseErrV>(inner),
        5int,
    ));
    // the group ends on the closing parenthesis
    assert(spec_parse_prefix(grouped, 2) == (Ok::<ExprV, ParseErrV>(inner), 6int));
    // the grouped operand binds as the right side of the sum
    assert(spec_parse_expression(grouped, 2, spec_prec(TokenV::PLUS)).0 == Ok::<
        ExprV,
        ParseErrV,
    >(inner));
    assert(spec_parse_expression(grouped, 2, spec_prec(TokenV::PLUS)).1 == 6);
    assert(spec_infix_loop(grouped, 6, prec_lowest(), whole) == (
        Ok::<ExprV, ParseErrV>(whole),
        6int,
    ));
    assert(spec_parse_infix_op(grouped, 1, ea) == (Ok::<ExprV, ParseErrV>(whole), 6int));
    assert(spec_infix_loop(grouped, 0, prec_lowest(), ea) == (
        Ok::<ExprV, ParseErrV>(whole),
        6int,
    ));
    assert(spec_parse_expression(grouped, 0, prec_lowest()).0 == Ok::<ExprV, ParseErrV>(whole));
}

} // verus!
