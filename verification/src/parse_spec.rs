//! The functional model of the parser.
//!
//! Each parsing function of the executable parser has a model here: a pure
//! function from a token sequence and the position of the current token to
//! a result and the position the parser stops at.  Positions index the
//! token the parser looks at; reading past the end of input yields `EOF`.
//! The executable parser is proved to agree with this model exactly, result
//! and final position both.

use vstd::prelude::*;

use crate::ast::{ExprV, StmtV};
use crate::errors::ParseErrV;
use crate::token::{TokenV, spec_token_literal, token_kind};

verus! {

/// The token at a position; past the end of input every position reads as
/// `EOF`.
pub open spec fn tok_at(toks: Seq<TokenV>, i: int) -> TokenV {
    if 0 <= i < toks.len() {
        toks[i]
    } else {
        TokenV::EOF
    }
}

/// The position after advancing once: one step forward, but never past the
/// end of input.
pub open spec fn nxt(toks: Seq<TokenV>, i: int) -> int {
    if i < toks.len() {
        i + 1
    } else {
        i
    }
}

/// The later of two positions.
pub open spec fn at_least(p: int, q: int) -> int {
    if p >= q {
        p
    } else {
        q
    }
}

/// How many tokens remain at a position; the parser's recursion measure.
pub open spec fn rem(toks: Seq<TokenV>, i: int) -> int {
    if i < toks.len() {
        toks.len() - i
    } else {
        0
    }
}

/// The precedence of the token, seen as an infix operator.
pub open spec fn spec_prec(t: TokenV) -> int {
    match t {
        TokenV::EQ => 2,
        TokenV::NotEQ => 2,
        TokenV::LT => 3,
        TokenV::GT => 3,
        TokenV::PLUS => 4,
        TokenV::MINUS => 4,
        TokenV::SLASH => 5,
        TokenV::ASTERISK => 5,
        TokenV::LPAREN => 7,
        TokenV::LBRACKET => 7,
        _ => 1,
    }
}

/// The precedence floor a prefix operator imposes on its operand.
pub open spec fn prec_prefix() -> int {
    6
}

/// The lowest precedence: the floor for a whole expression.
pub open spec fn prec_lowest() -> int {
    1
}

/// Whether the token has an infix parser.
pub open spec fn has_infix(t: TokenV) -> bool {
    t is PLUS || t is MINUS || t is SLASH || t is ASTERISK || t is EQ || t is NotEQ || t is LT
        || t is GT || t is LPAREN || t is LBRACKET
}

/// Pratt expression parsing at a precedence floor: a prefix parser gives
/// the leftmost operand, then every infix operator binding more tightly
/// than the floor extends it to the left-associated tree.
pub open spec fn spec_parse_expression(toks: Seq<TokenV>, i: int, prec: int) -> (
    Result<ExprV, ParseErrV>,
    int,
)
    decreases rem(toks, i), 10int,
{
    let (left, j) = spec_parse_prefix(toks, i);
    match left {
        Err(e) => (Err(e), j),
        Ok(l) => spec_infix_loop(toks, at_least(j, i), prec, l),
    }
}

/// The infix loop: while the token after the current one is no semicolon
/// and binds more tightly than the floor, consume it and its right operand.
pub open spec fn spec_infix_loop(toks: Seq<TokenV>, j: int, prec: int, left: ExprV) -> (
    Result<ExprV, ParseErrV>,
    int,
)
    decreases rem(toks, j), 9int,
{
    let pk = tok_at(toks, j + 1);
    if pk is SEMICOLON || !(prec < spec_prec(pk)) {
        (Ok(left), j)
    } else if !has_infix(pk) {
        (Err(ParseErrV::INFIX("INFIX"@, tok_at(toks, j))), j)
    } else if j + 1 >= toks.len() {
        // unreachable: a token with higher precedence lies inside the input
        (Ok(left), j)
    } else {
        let (r, k) = spec_parse_infix_op(toks, j + 1, left);
        match r {
            Err(e) => (Err(e), k),
            Ok(x) => spec_infix_loop(toks, at_least(k, j + 1), prec, x),
        }
    }
}

/// One infix step at the operator's position: an arithmetic or comparison
/// operator, a call, or an index.
pub open spec fn spec_parse_infix_op(toks: Seq<TokenV>, i: int, left: ExprV) -> (
    Result<ExprV, ParseErrV>,
    int,
)
    decreases rem(toks, i), 8int,
{
    let op = tok_at(toks, i);
    if op is LPAREN {
        let (args, j) = spec_parse_call_args(toks, i);
        match args {
            Err(e) => (Err(e), j),
            Ok(a) => {
                let j2 = at_least(j, i);
                if tok_at(toks, j2 + 1) is RPAREN {
                    (Ok(ExprV::Call(Box::new(left), a)), nxt(toks, j2))
                } else {
                    (Ok(ExprV::Call(Box::new(left), a)), j2)
                }
            },
        }
    } else if op is LBRACKET {
        let (r, j) = spec_parse_expression(toks, nxt(toks, i), prec_lowest());
        match r {
            Err(e) => (Err(e), j),
            Ok(x) => {
                let j2 = at_least(j, i);
                let k = nxt(toks, j2);
                if tok_at(toks, k) is RBRACKET {
                    (Ok(ExprV::Index(Box::new(left), Box::new(x))), k)
                } else {
                    (Err(ParseErrV::INDEX("RPAREN"@, tok_at(toks, k))), k)
                }
            },
        }
    } else if has_infix(op) {
        let (r, j) = spec_parse_expression(toks, nxt(toks, i), spec_prec(op));
        match r {
            Err(e) => (Err(e), j),
            Ok(x) => (Ok(ExprV::Infix(op, Box::new(left), Box::new(x))), j),
        }
    } else {
        (Err(ParseErrV::INFIX("INFIX"@, op)), i)
    }
}

/// The arguments of a call: expressions until the closing parenthesis,
/// positions where nothing parses contributing no argument.
pub open spec fn spec_parse_call_args(toks: Seq<TokenV>, i: int) -> (
    Result<Seq<ExprV>, ParseErrV>,
    int,
)
    decreases rem(toks, i), 7int,
{
    spec_call_args_loop(toks, i, Seq::empty())
}

/// The call-argument loop, carrying the arguments collected so far.
pub open spec fn spec_call_args_loop(toks: Seq<TokenV>, i: int, acc: Seq<ExprV>) -> (
    Result<Seq<ExprV>, ParseErrV>,
    int,
)
    decreases rem(toks, i), 6int,
{
    let pk = tok_at(toks, i + 1);
    if pk is RPAREN {
        (Ok(acc), i)
    } else if pk is EOF {
        (Err(ParseErrV::CALL("RPAREN"@, pk)), i)
    } else if i + 1 >= toks.len() {
        // unreachable: the token after the current one is not EOF
        (Ok(acc), i)
    } else {
        let (r, j) = spec_parse_expression(toks, i + 1, prec_lowest());
        let j2 = at_least(j, i + 1);
        match r {
            Err(e) => {
                if e is NoPrefixParseFn {
                    spec_call_args_loop(toks, j2, acc)
                } else {
                    (Err(e), j)
                }
            },
            Ok(x) => spec_call_args_loop(toks, j2, acc.push(x)),
        }
    }
}

/// A prefix form at the current token: an atom, a unary operator, a
/// grouped expression, an array literal, a conditional or a function
/// literal; any other token has no prefix parser.
pub open spec fn spec_parse_prefix(toks: Seq<TokenV>, i: int) -> (Result<ExprV, ParseErrV>, int)
    decreases rem(toks, i), 5int,
{
    let c = tok_at(toks, i);
    match c {
        TokenV::IDENT(name) => (Ok(ExprV::Identifier(name)), i),
        TokenV::NUMBER(n) => (Ok(ExprV::Number(n)), i),
        TokenV::STRING(s) => (Ok(ExprV::Str(s)), i),
        TokenV::TRUE => (Ok(ExprV::Bool(true)), i),
        TokenV::FALSE => (Ok(ExprV::Bool(false)), i),
        TokenV::BANG => spec_parse_prefix_op(toks, i),
        TokenV::MINUS => spec_parse_prefix_op(toks, i),
        TokenV::LPAREN => spec_parse_group(toks, i),
        TokenV::LBRACKET => spec_parse_array(toks, i),
        TokenV::IF => spec_parse_if(toks, i),
        TokenV::FUNCTION => spec_parse_function(toks, i),
        _ => (Err(ParseErrV::NoPrefixParseFn), i),
    }
}

/// A unary operator applied to an operand parsed at prefix precedence.
pub open spec fn spec_parse_prefix_op(toks: Seq<TokenV>, i: int) -> (Result<ExprV, ParseErrV>, int)
    decreases rem(toks, i), 4int,
{
    let op = tok_at(toks, i);
    if i >= toks.len() {
        (Err(ParseErrV::NoPrefixParseFn), i)
    } else {
        let (r, j) = spec_parse_expression(toks, i + 1, prec_prefix());
        match r {
            Err(e) => (Err(e), j),
            Ok(x) => (Ok(ExprV::Prefix(op, Box::new(x))), j),
        }
    }
}

/// A parenthesised expression: parse at the lowest floor, then expect the
/// closing parenthesis.
pub open spec fn spec_parse_group(toks: Seq<TokenV>, i: int) -> (Result<ExprV, ParseErrV>, int)
    decreases rem(toks, i), 4int,
{
    if i >= toks.len() {
        (Err(ParseErrV::NoPrefixParseFn), i)
    } else {
        let (r, j) = spec_parse_expression(toks, i + 1, prec_lowest());
        match r {
            Err(e) => (Err(e), j),
            Ok(x) => {
                let j2 = at_least(j, i);
                if tok_at(toks, j2 + 1) is RPAREN {
                    (Ok(x), nxt(toks, j2))
                } else {
                    (Err(ParseErrV::GROUP("RPAREN"@, tok_at(toks, j2 + 1))), j2)
                }
            },
        }
    }
}

/// An array literal: comma-separated expressions up to the closing
/// bracket; a trailing comma is rejected.
pub open spec fn spec_parse_array(toks: Seq<TokenV>, i: int) -> (Result<ExprV, ParseErrV>, int)
    decreases rem(toks, i), 4int,
{
    if i >= toks.len() {
        (Err(ParseErrV::NoPrefixParseFn), i)
    } else if tok_at(toks, i + 1) is RBRACKET {
        (Ok(ExprV::ArrayLiteral(Seq::empty())), i + 1)
    } else {
        spec_array_elems_loop(toks, i + 1, Seq::empty())
    }
}

/// The array-element loop: an expression, then a comma to continue or the
/// closing bracket to stop.
pub open spec fn spec_array_elems_loop(toks: Seq<TokenV>, i: int, acc: Seq<ExprV>) -> (
    Result<ExprV, ParseErrV>,
    int,
)
    decreases rem(toks, i), 12int,
{
    let (r, j) = spec_parse_expression(toks, i, prec_lowest());
    match r {
        Err(e) => (Err(e), j),
        Ok(x) => {
            let j2 = nxt(toks, at_least(j, i));
            let c = tok_at(toks, j2);
            if c is COMMA {
                if j2 + 1 > i {
                    spec_array_elems_loop(toks, nxt(toks, j2), acc.push(x))
                } else {
                    // unreachable: the position advanced past the element
                    (Ok(ExprV::ArrayLiteral(acc.push(x))), j2)
                }
            } else if c is RBRACKET {
                (Ok(ExprV::ArrayLiteral(acc.push(x))), j2)
            } else {
                (Err(ParseErrV::ARRAY("] or ,"@, c)), j2)
            }
        },
    }
}

/// A conditional: the condition at the lowest floor, a block, and an
/// optional alternative that is either a block or a further conditional
/// (an else-if chain, wrapped as a one-statement block).
pub open spec fn spec_parse_if(toks: Seq<TokenV>, i: int) -> (Result<ExprV, ParseErrV>, int)
    decreases rem(toks, i), 4int,
{
    if i >= toks.len() {
        (Err(ParseErrV::NoPrefixParseFn), i)
    } else {
        let (c, j0) = spec_parse_expression(toks, i + 1, prec_lowest());
        match c {
            Err(e) => (Err(e), j0),
            Ok(cond) => {
                let j = at_least(j0, i);
                if !(tok_at(toks, j + 1) is LBRACE) {
                    (Err(ParseErrV::IF("LBRACE"@, tok_at(toks, j + 1))), j)
                } else {
                    let (b, k0) = spec_parse_block(toks, nxt(toks, j));
                    match b {
                        Err(e) => (Err(e), k0),
                        Ok(cons) => {
                            let k = at_least(k0, j + 1);
                            if tok_at(toks, k + 1) is ELSE {
                                let k1 = nxt(toks, k);
                                let pk = tok_at(toks, k1 + 1);
                                if pk is LBRACE {
                                    let (a, m) = spec_parse_block(toks, nxt(toks, k1));
                                    match a {
                                        Err(e) => (Err(e), m),
                                        Ok(alt) => (
                                            Ok(
                                                ExprV::If(
                                                    Box::new(cond),
                                                    cons,
                                                    Some(alt),
                                                ),
                                            ),
                                            at_least(m, k1 + 1),
                                        ),
                                    }
                                } else if pk is IF {
                                    let (a, m) = spec_parse_if(toks, nxt(toks, k1));
                                    match a {
                                        Err(e) => (Err(e), m),
                                        Ok(alt_if) => (
                                            Ok(
                                                ExprV::If(
                                                    Box::new(cond),
                                                    cons,
                                                    Some(
                                                        seq![
                                                            StmtV::Expr(
                                                                TokenV::IF,
                                                                Some(alt_if),
                                                            ),
                                                        ],
                                                    ),
                                                ),
                                            ),
                                            at_least(m, k1 + 1),
                                        ),
                                    }
                                } else {
                                    (Err(ParseErrV::ELSE("IF or LBRACE"@, pk)), k1)
                                }
                            } else {
                                (Ok(ExprV::If(Box::new(cond), cons, None)), k)
                            }
                        },
                    }
                }
            },
        }
    }
}

/// A function literal: the parameter list, then the body block.
pub open spec fn spec_parse_function(toks: Seq<TokenV>, i: int) -> (Result<ExprV, ParseErrV>, int)
    decreases rem(toks, i), 4int,
{
    if i >= toks.len() {
        (Err(ParseErrV::NoPrefixParseFn), i)
    } else {
        let (ps, j0) = spec_parse_fn_parameters(toks, i + 1);
        match ps {
            Err(e) => (Err(e), j0),
            Ok(params) => {
                let j = at_least(j0, i + 1);
                let (b, k) = spec_parse_block(toks, j);
                match b {
                    Err(e) => (Err(e), k),
                    Ok(body) => (Ok(ExprV::Function(params, body)), k),
                }
            },
        }
    }
}

/// The parameter list: identifiers, with commas between them, up to the
/// closing parenthesis; the position returned is just past it.
pub open spec fn spec_parse_fn_parameters(toks: Seq<TokenV>, i: int) -> (
    Result<Seq<Seq<char>>, ParseErrV>,
    int,
)
    decreases rem(toks, i), 4int,
{
    spec_fn_params_loop(toks, nxt(toks, i), Seq::empty())
}

/// The parameter loop, carrying the names collected so far.
pub open spec fn spec_fn_params_loop(toks: Seq<TokenV>, i: int, acc: Seq<Seq<char>>) -> (
    Result<Seq<Seq<char>>, ParseErrV>,
    int,
)
    decreases rem(toks, i), 3int,
{
    let c = tok_at(toks, i);
    if c is RPAREN {
        (Ok(acc), nxt(toks, i))
    } else {
        match c {
            TokenV::IDENT(name) => {
                let i1 = nxt(toks, i);
                let i2 = if tok_at(toks, i1) is COMMA {
                    nxt(toks, i1)
                } else {
                    i1
                };
                if i < toks.len() {
                    spec_fn_params_loop(toks, i2, acc.push(name))
                } else {
                    // unreachable: an identifier lies inside the input
                    (Ok(acc), i)
                }
            },
            _ => (Err(ParseErrV::FN("IDENT"@, c)), i),
        }
    }
}

/// A block: statements after the opening brace, up to the closing brace;
/// reaching the end of input first is an error.
pub open spec fn spec_parse_block(toks: Seq<TokenV>, i: int) -> (
    Result<Seq<StmtV>, ParseErrV>,
    int,
)
    decreases rem(toks, i), 15int,
{
    if tok_at(toks, i) is RBRACE {
        (Err(ParseErrV::BLOCK("RBRACE"@, tok_at(toks, i))), i)
    } else {
        spec_block_loop(toks, nxt(toks, i), Seq::empty())
    }
}

/// The block-statement loop, carrying the statements collected so far.
pub open spec fn spec_block_loop(toks: Seq<TokenV>, i: int, acc: Seq<StmtV>) -> (
    Result<Seq<StmtV>, ParseErrV>,
    int,
)
    decreases rem(toks, i), 14int,
{
    let c = tok_at(toks, i);
    if c is RBRACE {
        (Ok(acc), i)
    } else if c is EOF {
        (Err(ParseErrV::BLOCK("LBRACE"@, c)), i)
    } else {
        let (r, j) = spec_parse_statement(toks, i);
        match r {
            Err(e) => (Err(e), j),
            Ok(s) => spec_block_loop(toks, nxt(toks, at_least(j, i)), acc.push(s)),
        }
    }
}

/// Statement dispatch on the current token: `let`, `return`, a
/// reassignment of a plain name, or an expression statement.
pub open spec fn spec_parse_statement(toks: Seq<TokenV>, i: int) -> (
    Result<StmtV, ParseErrV>,
    int,
)
    decreases rem(toks, i), 13int,
{
    let c = tok_at(toks, i);
    if c is LET {
        spec_parse_let(toks, i)
    } else if c is RETURN {
        spec_parse_return(toks, i)
    } else if c is IDENT && tok_at(toks, i + 1) is ASSIGN {
        spec_parse_reassign(toks, i)
    } else {
        spec_parse_expr_stmt(toks, i)
    }
}

/// A let statement: `let`, a name, `=`, the value at the lowest floor, and
/// an optional trailing semicolon.
pub open spec fn spec_parse_let(toks: Seq<TokenV>, i: int) -> (Result<StmtV, ParseErrV>, int)
    decreases rem(toks, i), 12int,
{
    if !(tok_at(toks, i + 1) is IDENT) {
        (Err(ParseErrV::LET("IDENT"@, tok_at(toks, i + 1))), i)
    } else if i >= toks.len() {
        (Err(ParseErrV::NoPrefixParseFn), i)
    } else {
        let name = spec_token_literal(tok_at(toks, i + 1));
        let i2 = nxt(toks, i + 1);
        if !(tok_at(toks, i2) is ASSIGN) {
            (Err(ParseErrV::LET("ASSIGN"@, tok_at(toks, i2))), i2)
        } else {
            let i3 = nxt(toks, i2);
            let (r, j0) = spec_parse_expression(toks, i3, prec_lowest());
            match r {
                Err(e) => (Err(e), j0),
                Ok(v) => {
                    let j = at_least(j0, i3);
                    if tok_at(toks, j + 1) is SEMICOLON {
                        (Ok(StmtV::Let(name, v)), nxt(toks, j))
                    } else {
                        (Ok(StmtV::Let(name, v)), j)
                    }
                },
            }
        }
    }
}

/// A reassignment of a plain name: the name, `=`, and the value at the
/// lowest floor.
pub open spec fn spec_parse_reassign(toks: Seq<TokenV>, i: int) -> (Result<StmtV, ParseErrV>, int)
    decreases rem(toks, i), 12int,
{
    if i >= toks.len() {
        (Err(ParseErrV::NoPrefixParseFn), i)
    } else {
        let name = spec_token_literal(tok_at(toks, i));
        let i2 = nxt(toks, nxt(toks, i));
        let (r, j) = spec_parse_expression(toks, i2, prec_lowest());
        match r {
            Err(e) => (Err(e), j),
            Ok(v) => (Ok(StmtV::Reassign(ExprV::Identifier(name), v)), j),
        }
    }
}

/// A return statement: `return`, an optional value, and an optional
/// trailing semicolon.  A position where nothing parses contributes no
/// value.
pub open spec fn spec_parse_return(toks: Seq<TokenV>, i: int) -> (Result<StmtV, ParseErrV>, int)
    decreases rem(toks, i), 12int,
{
    if i >= toks.len() {
        (Ok(StmtV::Return(None)), i)
    } else {
        let (r, j0) = spec_parse_expression(toks, i + 1, prec_lowest());
        let (e, j) = match r {
            Err(err) => {
                if err is NoPrefixParseFn {
                    (Ok(None), at_least(j0, i + 1))
                } else {
                    (Err(err), j0)
                }
            },
            Ok(v) => (Ok(Some(v)), at_least(j0, i + 1)),
        };
        match e {
            Err(err) => (Err(err), j),
            Ok(opt) => {
                if tok_at(toks, j + 1) is SEMICOLON {
                    (Ok(StmtV::Return(opt)), nxt(toks, j))
                } else {
                    (Ok(StmtV::Return(opt)), j)
                }
            },
        }
    }
}

/// An expression statement: an expression at the lowest floor (or nothing,
/// keeping the token), an optional reassignment when `=` follows (the
/// parsed expression becomes the left-hand side, validated at evaluation),
/// and an optional trailing semicolon.
pub open spec fn spec_parse_expr_stmt(toks: Seq<TokenV>, i: int) -> (Result<StmtV, ParseErrV>, int)
    decreases rem(toks, i), 12int,
{
    let token = tok_at(toks, i);
    let (r, j0) = spec_parse_expression(toks, i, prec_lowest());
    match r {
        Err(err) => {
            if err is NoPrefixParseFn {
                let j = at_least(j0, i);
                if tok_at(toks, j + 1) is SEMICOLON {
                    (Ok(StmtV::Expr(token, None)), nxt(toks, j))
                } else {
                    (Ok(StmtV::Expr(token, None)), j)
                }
            } else {
                (Err(err), j0)
            }
        },
        Ok(lhs) => {
            let j = at_least(j0, i);
            if tok_at(toks, j + 1) is ASSIGN {
                if j + 2 > i {
                    let i2 = nxt(toks, nxt(toks, j));
                    let (v, k) = spec_parse_expression(toks, i2, prec_lowest());
                    match v {
                        Err(e) => (Err(e), k),
                        Ok(value) => (Ok(StmtV::Reassign(lhs, value)), k),
                    }
                } else {
                    // unreachable: the assign sign lies after the expression
                    (Ok(StmtV::Expr(token, Some(lhs))), j)
                }
            } else if tok_at(toks, j + 1) is SEMICOLON {
                (Ok(StmtV::Expr(token, Some(lhs))), nxt(toks, j))
            } else {
                (Ok(StmtV::Expr(token, Some(lhs))), j)
            }
        },
    }
}

/// A whole program: statements until `EOF`.
pub open spec fn spec_parse_program(toks: Seq<TokenV>, i: int) -> (
    Result<Seq<StmtV>, ParseErrV>,
    int,
)
    decreases rem(toks, i), 17int,
{
    spec_program_loop(toks, i, Seq::empty())
}

/// The program loop, carrying the statements collected so far.
pub open spec fn spec_program_loop(toks: Seq<TokenV>, i: int, acc: Seq<StmtV>) -> (
    Result<Seq<StmtV>, ParseErrV>,
    int,
)
    decreases rem(toks, i), 16int,
{
    if tok_at(toks, i) is EOF {
        (Ok(acc), i)
    } else {
        let (r, j) = spec_parse_statement(toks, i);
        match r {
            Err(e) => (Err(e), j),
            Ok(s) => spec_program_loop(toks, nxt(toks, at_least(j, i)), acc.push(s)),
        }
    }
}

} // verus!
