//! The functional model of the evaluator.
//!
//! Evaluation is a pure function from a syntax-tree view, a store view, a
//! scope handle and a fuel bound to a result and a new store view.  Fuel
//! only bounds the depth of user-function calls: every other recursion
//! follows the tree structure.  The executable evaluator is proved to agree
//! with this model exactly, result and store both.

use vstd::prelude::*;

use crate::ast::{ExprV, NodeV, StmtV};
use crate::builtin::{spec_builtin, spec_is_builtin};
use crate::environment::{
    ScopeV, StV, arr_at, spec_env_get, spec_env_initiate, spec_env_reassign,
};
use crate::errors::EvalErrV;
use crate::eval_infix::spec_eval_infix;
use crate::object::{ObjV, spec_obj_str};
use crate::render::{spec_expr_literal, spec_expr_str};
use crate::token::{TokenV, spec_token_literal};

verus! {

/// The truthiness coercion used by `if` and `!`.
pub open spec fn spec_truthy(o: ObjV) -> bool {
    match o {
        ObjV::Boolean(b) => b,
        ObjV::Null => false,
        ObjV::Str(s) => s.len() > 0,
        ObjV::Number(n) => n != 0,
        _ => true,
    }
}

/// What a prefix operator yields on its evaluated operand.
pub open spec fn spec_eval_prefix(op: TokenV, right: ObjV) -> Result<ObjV, EvalErrV> {
    match op {
        TokenV::BANG => Ok(ObjV::Boolean(!spec_truthy(right))),
        TokenV::MINUS => match right {
            ObjV::Number(n) => Ok(
                ObjV::Number(vstd::wrapping::i64_specs::wrapping_sub(0, n as i64) as int),
            ),
            _ => Err(EvalErrV::MinusPrefix(spec_obj_str(right))),
        },
        _ => Err(
            EvalErrV::NotImplemented(
                spec_token_literal(op) + " is not implemented for prefix expression"@,
            ),
        ),
    }
}

/// Evaluating one expression.
pub open spec fn seval_expr(e: ExprV, st: StV, env: int, fuel: nat) -> (
    Result<ObjV, EvalErrV>,
    StV,
)
    decreases fuel, 0int, e, 1int,
{
    match e {
        ExprV::Identifier(name) => {
            match spec_env_get(st, env, name) {
                Ok(v) => (Ok(v), st),
                Err(err) => {
                    if spec_is_builtin(name) {
                        (Ok(ObjV::Builtin(name)), st)
                    } else {
                        (Err(err), st)
                    }
                },
            }
        },
        ExprV::Str(s) => (Ok(ObjV::Str(s)), st),
        ExprV::Number(n) => (Ok(ObjV::Number(n)), st),
        ExprV::Bool(b) => (Ok(ObjV::Boolean(b)), st),
        ExprV::ArrayLiteral(es) => {
            let (r, st1) = seval_exprs(es, 0, st, env, fuel);
            match r {
                Err(err) => (Err(err), st1),
                Ok(vs) => (
                    Ok(ObjV::Array(st1.arrays.len() as int)),
                    StV { scopes: st1.scopes, arrays: st1.arrays.push(vs) },
                ),
            }
        },
        ExprV::Prefix(op, right) => {
            let (r, st1) = seval_expr(*right, st, env, fuel);
            match r {
                Err(err) => (Err(err), st1),
                Ok(v) => (spec_eval_prefix(op, v), st1),
            }
        },
        ExprV::Infix(op, left, right) => {
            let (l, st1) = seval_expr(*left, st, env, fuel);
            match l {
                Err(err) => (Err(err), st1),
                Ok(lv) => {
                    let (r, st2) = seval_expr(*right, st1, env, fuel);
                    match r {
                        Err(err) => (Err(err), st2),
                        Ok(rv) => (spec_eval_infix(op, lv, rv), st2),
                    }
                },
            }
        },
        ExprV::If(cond, cons, alt) => {
            let (c, st1) = seval_expr(*cond, st, env, fuel);
            match c {
                Err(err) => (Err(err), st1),
                Ok(cv) => {
                    if spec_truthy(cv) {
                        seval_stmts(cons, 0, st1, env, fuel, ObjV::Null)
                    } else {
                        match alt {
                            Some(a) => seval_stmts(a, 0, st1, env, fuel, ObjV::Null),
                            None => (Ok(ObjV::Null), st1),
                        }
                    }
                },
            }
        },
        ExprV::Function(params, body) => (Ok(ObjV::Function(params, body, env)), st),
        ExprV::Call(f, args) => {
            let (fv, st1) = seval_expr(*f, st, env, fuel);
            match fv {
                Err(err) => (Err(err), st1),
                Ok(fun) => {
                    let (avs, st2) = seval_exprs(args, 0, st1, env, fuel);
                    match avs {
                        Err(err) => (Err(err), st2),
                        Ok(vs) => {
                            match fun {
                                ObjV::Function(_, _, _) => {
                                    if fuel == 0 {
                                        (
                                            Err(
                                                EvalErrV::NotImplemented(
                                                    "call depth limit exceeded"@,
                                                ),
                                            ),
                                            st2,
                                        )
                                    } else {
                                        sapply(fun, vs, st2, (fuel - 1) as nat)
                                    }
                                },
                                ObjV::Builtin(name) => spec_builtin(name, vs, st2),
                                _ => (
                                    Err(
                                        EvalErrV::NotImplemented(
                                            spec_obj_str(fun) + " is not a function"@,
                                        ),
                                    ),
                                    st2,
                                ),
                            }
                        },
                    }
                },
            }
        },
        ExprV::Index(target, ix) => {
            let (l, st1) = seval_expr(*target, st, env, fuel);
            match l {
                Err(err) => (Err(err), st1),
                Ok(lv) => {
                    match lv {
                        ObjV::Array(h) => {
                            let (iv, st2) = seval_expr(*ix, st1, env, fuel);
                            match iv {
                                Err(err) => (Err(err), st2),
                                Ok(ivv) => {
                                    match ivv {
                                        ObjV::Number(n) => {
                                            if n < 0 {
                                                (Err(EvalErrV::IndexOutOfBounds(-1, 0)), st2)
                                            } else if n >= arr_at(st2, h).len() {
                                                (
                                                    Err(
                                                        EvalErrV::IndexOutOfBounds(
                                                            n,
                                                            arr_at(st2, h).len() as int,
                                                        ),
                                                    ),
                                                    st2,
                                                )
                                            } else {
                                                (Ok(arr_at(st2, h)[n]), st2)
                                            }
                                        },
                                        _ => (
                                            Err(
                                                EvalErrV::CoerceObject(
                                                    spec_obj_str(ivv),
                                                    "number"@,
                                                ),
                                            ),
                                            st2,
                                        ),
                                    }
                                },
                            }
                        },
                        _ => (Err(EvalErrV::IndexArray(spec_obj_str(lv))), st1),
                    }
                },
            }
        },
    }
}

/// Evaluating a list of expressions left to right, each failure stopping
/// the rest.
pub open spec fn seval_exprs(es: Seq<ExprV>, i: int, st: StV, env: int, fuel: nat) -> (
    Result<Seq<ObjV>, EvalErrV>,
    StV,
)
    decreases fuel, 0int, es, es.len() - i,
{
    if i < 0 || i >= es.len() {
        (Ok(Seq::empty()), st)
    } else {
        let (r, st1) = seval_expr(es[i], st, env, fuel);
        match r {
            Err(err) => (Err(err), st1),
            Ok(v) => {
                let (rest, st2) = seval_exprs(es, i + 1, st1, env, fuel);
                match rest {
                    Err(err) => (Err(err), st2),
                    Ok(vs) => (Ok(seq![v] + vs), st2),
                }
            },
        }
    }
}

/// Evaluating a statement list in order: the last statement's value is the
/// list's value, and an early-return marker stops the list at once.
pub open spec fn seval_stmts(
    ss: Seq<StmtV>,
    i: int,
    st: StV,
    env: int,
    fuel: nat,
    last: ObjV,
) -> (Result<ObjV, EvalErrV>, StV)
    decreases fuel, 0int, ss, ss.len() - i,
{
    if i < 0 || i >= ss.len() {
        (Ok(last), st)
    } else {
        let (r, st1) = seval_stmt(ss[i], st, env, fuel);
        match r {
            Err(err) => (Err(err), st1),
            Ok(v) => {
                if v is Return {
                    (Ok(v), st1)
                } else {
                    seval_stmts(ss, i + 1, st1, env, fuel, v)
                }
            },
        }
    }
}

/// Evaluating one statement.
pub open spec fn seval_stmt(s: StmtV, st: StV, env: int, fuel: nat) -> (
    Result<ObjV, EvalErrV>,
    StV,
)
    decreases fuel, 0int, s, 1int,
{
    match s {
        StmtV::Let(name, value) => {
            let (r, st1) = seval_expr(value, st, env, fuel);
            match r {
                Err(err) => (Err(err), st1),
                Ok(v) => {
                    let (r2, st2) = spec_env_initiate(st1, env, name, v);
                    match r2 {
                        Err(err) => (Err(err), st2),
                        Ok(_) => (Ok(ObjV::Null), st2),
                    }
                },
            }
        },
        StmtV::Reassign(lhs, value) => {
            let (r, st1) = seval_expr(value, st, env, fuel);
            match r {
                Err(err) => (Err(err), st1),
                Ok(v) => seval_reassign_lhs(lhs, v, st1, env, fuel),
            }
        },
        StmtV::Return(opt) => {
            match opt {
                None => (Ok(ObjV::Return(Box::new(ObjV::Null))), st),
                Some(e) => {
                    let (r, st1) = seval_expr(e, st, env, fuel);
                    match r {
                        Err(err) => (Err(err), st1),
                        Ok(v) => (Ok(ObjV::Return(Box::new(v))), st1),
                    }
                },
            }
        },
        StmtV::Expr(_, opt) => {
            match opt {
                None => (Ok(ObjV::Null), st),
                Some(e) => seval_expr(e, st, env, fuel),
            }
        },
        StmtV::Program(ss) => {
            let (r, st1) = seval_stmts(ss, 0, st, env, fuel, ObjV::Null);
            match r {
                Ok(v) => match v {
                    ObjV::Return(inner) => (Ok(*inner), st1),
                    _ => (Ok(v), st1),
                },
                Err(err) => (Err(err), st1),
            }
        },
        StmtV::Block(ss) => seval_stmts(ss, 0, st, env, fuel, ObjV::Null),
    }
}

/// Assigning into the left-hand side of a reassignment, the value already
/// evaluated: a plain name updates the nearest binding; an index into a
/// named array overwrites one slot through the shared buffer; any other
/// form is rejected.
pub open spec fn seval_reassign_lhs(lhs: ExprV, v: ObjV, st: StV, env: int, fuel: nat) -> (
    Result<ObjV, EvalErrV>,
    StV,
)
    decreases fuel, 0int, lhs, 0int,
{
    match lhs {
        ExprV::Identifier(name) => {
            let (r, st1) = spec_env_reassign(st, env, name, v);
            match r {
                Err(err) => (Err(err), st1),
                Ok(_) => (Ok(ObjV::Null), st1),
            }
        },
        ExprV::Index(target, ix) => {
            match *target {
                ExprV::Identifier(name) => {
                    let (iv, st1) = seval_expr(*ix, st, env, fuel);
                    match iv {
                        Err(err) => (Err(err), st1),
                        Ok(ivv) => seval_index_assign_with(name, ivv, v, st1, env),
                    }
                },
                _ => (
                    Err(
                        EvalErrV::CoerceErr(
                            crate::errors::CoerceErrV::ToIdent(spec_expr_literal(*target)),
                        ),
                    ),
                    st,
                ),
            }
        },
        _ => (Err(EvalErrV::AssignLHS(spec_expr_str(lhs))), st),
    }
}

/// Overwriting one slot of the array a name binds, the index value
/// already evaluated.
pub open spec fn seval_index_assign_with(
    name: Seq<char>,
    ivv: ObjV,
    v: ObjV,
    st: StV,
    env: int,
) -> (Result<ObjV, EvalErrV>, StV) {
    match ivv {
        ObjV::Number(n) => {
            if n < 0 {
                (Err(EvalErrV::IndexOutOfBounds(-1, 0)), st)
            } else {
                match spec_env_get(st, env, name) {
                    Err(err) => (Err(err), st),
                    Ok(av) => {
                        match av {
                            ObjV::Array(h) => {
                                let a = arr_at(st, h);
                                if n >= a.len() {
                                    (
                                        Err(
                                            EvalErrV::IndexOutOfBounds(n, a.len() as int),
                                        ),
                                        st,
                                    )
                                } else if 0 <= h < st.arrays.len() {
                                    (
                                        Ok(ObjV::Null),
                                        StV {
                                            scopes: st.scopes,
                                            arrays: st.arrays.update(h, a.update(n, v)),
                                        },
                                    )
                                } else {
                                    (Ok(ObjV::Null), st)
                                }
                            },
                            _ => (Err(EvalErrV::IndexArray(name)), st),
                        }
                    },
                }
            }
        },
        _ => (Err(EvalErrV::CoerceObject(spec_obj_str(ivv), "number"@)), st),
    }
}

/// Binding parameter names to argument values in a fresh call scope, one
/// by one; a duplicated parameter name is an error.
pub open spec fn spec_bind_params(
    params: Seq<Seq<char>>,
    args: Seq<ObjV>,
    i: int,
    st: StV,
    env: int,
) -> (Result<ObjV, EvalErrV>, StV)
    decreases params.len() - i,
{
    if i < 0 || i >= params.len() || args.len() != params.len() {
        (Ok(ObjV::Null), st)
    } else {
        let (r, st1) = spec_env_initiate(st, env, params[i], args[i]);
        match r {
            Err(err) => (Err(err), st1),
            Ok(_) => spec_bind_params(params, args, i + 1, st1, env),
        }
    }
}

/// Applying a user function, the fuel already charged: the argument count
/// must match the parameter count; a fresh scope over the captured
/// environment binds the parameters; the body runs; an early-return marker
/// is unwrapped at this boundary.
pub open spec fn sapply(f: ObjV, args: Seq<ObjV>, st: StV, fuel: nat) -> (
    Result<ObjV, EvalErrV>,
    StV,
)
    decreases fuel, 1int, f, 1int,
{
    match f {
        ObjV::Function(params, body, fenv) => {
            if args.len() != params.len() {
                (
                    Err(EvalErrV::ArgsCount(params.len() as int, args.len() as int)),
                    st,
                )
            } else {
                let newenv = st.scopes.len() as int;
                let st1 = StV {
                    scopes: st.scopes.push(ScopeV { bindings: Seq::empty(), outer: Some(fenv) }),
                    arrays: st.arrays,
                };
                let (b, st2) = spec_bind_params(params, args, 0, st1, newenv);
                match b {
                    Err(err) => (Err(err), st2),
                    Ok(_) => {
                        let (r, st3) = seval_stmts(body, 0, st2, newenv, fuel, ObjV::Null);
                        match r {
                            Err(err) => (Err(err), st3),
                            Ok(v) => match v {
                                ObjV::Return(inner) => (Ok(*inner), st3),
                                _ => (Ok(v), st3),
                            },
                        }
                    },
                }
            }
        },
        _ => (Err(EvalErrV::NotImplemented(spec_obj_str(f) + " is not a function"@)), st),
    }
}

/// Evaluating a node: an expression or a statement.
pub open spec fn seval_node(n: NodeV, st: StV, env: int, fuel: nat) -> (
    Result<ObjV, EvalErrV>,
    StV,
) {
    match n {
        NodeV::Expression(e) => seval_expr(e, st, env, fuel),
        NodeV::Statement(s) => seval_stmt(s, st, env, fuel),
    }
}

} // verus!
