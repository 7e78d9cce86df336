//! The evaluator: a tree walk over the syntax tree against the store,
//! proved to agree exactly with the functional model in `eval_spec`.
//!
//! The public entry `eval` charges one unit of fuel per user-function
//! call, starting from a bound so large it can never be reached in
//! practice; everything else recurses on the tree structure.

use vstd::prelude::*;

use crate::ast::{
    Expression, Node, Statement, clone_block, clone_idents, exprs_view, stmts_view,
};
use crate::builtin::{builtin_apply, is_builtin};
use crate::environment::{Environment, StV, arr_at, obj_wf, st_wf};
use crate::errors::EvalErr;
use crate::eval_infix::eval_infix_expression;
use crate::eval_spec::{
    sapply, seval_expr, seval_exprs, seval_node, seval_stmt, seval_stmts, spec_bind_params,
    spec_eval_prefix, spec_truthy,
};
use crate::object::{Function, Object, ObjV, object_clone, objs_view};
use crate::render::{expr_to_str, expr_token_literal};
use crate::token::TOKEN;

verus! {

/// The call-depth budget of the public entry: one unit per user-function
/// call, never reachable in practice.
pub const EVAL_FUEL: u64 = 18446744073709551615;

/// The truthiness coercion used by `if` and `!`.
fn is_truthy(value: &Object) -> (r: bool)
    ensures
        r == spec_truthy(value@),
{
    match value {
        Object::Boolean(b) => *b,
        Object::Null => false,
        Object::String(s) => s.as_str().unicode_len() > 0,
        Object::Number(n) => *n != 0,
        _ => true,
    }
}

/// `!`: the negated truthiness of the operand.
fn eval_bang_expression(value: &Object) -> (r: Object)
    ensures
        r@ == ObjV::Boolean(!spec_truthy(value@)),
{
    Object::Boolean(!is_truthy(value))
}

/// A prefix operator applied to its evaluated operand, exactly as
/// `spec_eval_prefix` gives it.
fn eval_prefix_expression(operator: &TOKEN, right: Object) -> (r: Result<Object, EvalErr>)
    ensures
        (r matches Ok(v) ==> spec_eval_prefix(operator@, right@) == Ok::<
            ObjV,
            crate::errors::EvalErrV,
        >(v@)),
        (r matches Err(e) ==> spec_eval_prefix(operator@, right@) == Err::<
            ObjV,
            crate::errors::EvalErrV,
        >(e@)),
        (r matches Ok(v) ==> v@ is Number || v@ is Boolean),
{
    match operator {
        TOKEN::BANG => Ok(eval_bang_expression(&right)),
        TOKEN::MINUS => match right {
            Object::Number(n) => Ok(Object::Number(0i64.wrapping_sub(n))),
            other => Err(EvalErr::MinusPrefix(other.to_string())),
        },
        _ => {
            let mut msg = operator.literal();
            msg.append(" is not implemented for prefix expression");
            Err(EvalErr::NotImplemented(msg))
        },
    }
}

/// The early-return marker unwrapped at a call boundary; every other value
/// passes through.
fn unwrap_return(value: Object) -> (r: Object)
    ensures
        r@ == (match value@ {
            ObjV::Return(inner) => *inner,
            v => v,
        }),
{
    match value {
        Object::Return(v) => *v,
        obj => obj,
    }
}

/// Evaluates a node against the store: the public entry of the evaluator,
/// with the full fuel budget.
pub fn eval(node: &Node, st: &mut Environment, env: usize) -> (r: Result<Object, EvalErr>)
    requires
        st_wf(old(st)@),
        env < old(st)@.scopes.len(),
    ensures
        st_wf(final(st)@),
        old(st)@.scopes.len() <= final(st)@.scopes.len(),
        old(st)@.arrays.len() <= final(st)@.arrays.len(),
        final(st)@ == seval_node(node@, old(st)@, env as int, EVAL_FUEL as nat).1,
        (r matches Ok(v) ==> seval_node(node@, old(st)@, env as int, EVAL_FUEL as nat).0
            == Ok::<ObjV, crate::errors::EvalErrV>(v@) && obj_wf(
            v@,
            final(st)@.scopes.len() as int,
            final(st)@.arrays.len() as int,
        )),
        (r matches Err(e) ==> seval_node(node@, old(st)@, env as int, EVAL_FUEL as nat).0
            == Err::<ObjV, crate::errors::EvalErrV>(e@)),
{
    match node {
        Node::Expression(e) => eval_expr(e, st, env, EVAL_FUEL),
        Node::Statement(s) => eval_stmt(s, st, env, EVAL_FUEL),
    }
}

/// Evaluates one expression, exactly as `seval_expr` gives it.
fn eval_expr(e: &Expression, st: &mut Environment, env: usize, fuel: u64) -> (r: Result<
    Object,
    EvalErr,
>)
    requires
        st_wf(old(st)@),
        env < old(st)@.scopes.len(),
    ensures
        st_wf(final(st)@),
        old(st)@.scopes.len() <= final(st)@.scopes.len(),
        old(st)@.arrays.len() <= final(st)@.arrays.len(),
        final(st)@ == seval_expr(e@, old(st)@, env as int, fuel as nat).1,
        (r matches Ok(v) ==> seval_expr(e@, old(st)@, env as int, fuel as nat).0 == Ok::<
            ObjV,
            crate::errors::EvalErrV,
        >(v@) && obj_wf(v@, final(st)@.scopes.len() as int, final(st)@.arrays.len() as int)),
        (r matches Err(x) ==> seval_expr(e@, old(st)@, env as int, fuel as nat).0 == Err::<
            ObjV,
            crate::errors::EvalErrV,
        >(x@)),
    decreases fuel, 0int, e, 1int,
{
    let ghost st0 = st@;
    match e {
        Expression::Identifier(id) => {
            match st.get(env, &id.0) {
                Ok(v) => Ok(v),
                Err(err) => {
                    if is_builtin(&id.0) {
                        Ok(Object::Builtin(id.0.clone()))
                    } else {
                        Err(err)
                    }
                },
            }
        },
        Expression::String(s) => Ok(Object::String(s.clone())),
        Expression::Number(n) => Ok(Object::Number(*n)),
        Expression::Bool(b) => Ok(Object::Boolean(*b)),
        Expression::ArrayLiteral(arr) => {
            let vs = match eval_call_args(&arr.elements, st, env, fuel) {
                Ok(vs) => vs,
                Err(err) => {
                    return Err(err);
                },
            };
            let h = st.arrays.len();
            let ghost st1 = st@;
            st.arrays.push(vs);
            proof {
                assert(st@.scopes =~~= st1.scopes);
                assert(st@.arrays =~~= st1.arrays.push(objs_view(vs@)));
                lemma_wf_push_array(st1, st@, objs_view(vs@));
            }
            Ok(Object::Array(h))
        },
        Expression::Prefix(p) => {
            let v = match eval_expr(&p.right, st, env, fuel) {
                Ok(v) => v,
                Err(err) => {
                    return Err(err);
                },
            };
            let r = eval_prefix_expression(&p.token, v);
            proof {
                if r is Ok {
                    assert(obj_wf(
                        r->Ok_0@,
                        st@.scopes.len() as int,
                        st@.arrays.len() as int,
                    ));
                }
            }
            r
        },
        Expression::Infix(i) => {
            let l = match eval_expr(&i.left, st, env, fuel) {
                Ok(v) => v,
                Err(err) => {
                    return Err(err);
                },
            };
            let r = match eval_expr(&i.right, st, env, fuel) {
                Ok(v) => v,
                Err(err) => {
                    return Err(err);
                },
            };
            let out = eval_infix_expression(&i.operator, l, r);
            proof {
                crate::eval_infix::lemma_infix_result_plain(i.operator@, l@, r@);
                if out is Ok {
                    assert(obj_wf(
                        out->Ok_0@,
                        st@.scopes.len() as int,
                        st@.arrays.len() as int,
                    ));
                }
            }
            out
        },
        Expression::If(f) => {
            let c = match eval_expr(&f.condition, st, env, fuel) {
                Ok(v) => v,
                Err(err) => {
                    return Err(err);
                },
            };
            if is_truthy(&c) {
                eval_statements(&f.consequence.statements, st, env, fuel)
            } else {
                match &f.alternative {
                    Some(alt) => eval_statements(&alt.statements, st, env, fuel),
                    None => Ok(Object::Null),
                }
            }
        },
        Expression::Function(f) => {
            let params = clone_idents(&f.parameters);
            let body = clone_block(&f.body);
            Ok(Object::Function(Box::new(Function { params, body, env })))
        },
        Expression::Call(c) => {
            let fv = match eval_expr(&c.function, st, env, fuel) {
                Ok(v) => v,
                Err(err) => {
                    return Err(err);
                },
            };
            let ghost st1 = st@;
            let args = match eval_call_args(&c.arguments, st, env, fuel) {
                Ok(a) => a,
                Err(err) => {
                    return Err(err);
                },
            };
            proof {
                crate::environment::lemma_obj_wf_grow(
                    fv@,
                    st1.scopes.len() as int,
                    st1.arrays.len() as int,
                    st@.scopes.len() as int,
                    st@.arrays.len() as int,
                );
            }
            match fv {
                Object::Function(bf) => {
                    if fuel == 0 {
                        let mut msg = String::from_str("call depth limit exceeded");
                        Err(EvalErr::NotImplemented(msg))
                    } else {
                        apply_function(&bf, &args, st, fuel - 1)
                    }
                },
                Object::Builtin(name) => builtin_apply(st, &name, &args),
                other => {
                    let mut msg = other.to_string();
                    msg.append(" is not a function");
                    Err(EvalErr::NotImplemented(msg))
                },
            }
        },
        Expression::Index(ix) => {
            let lv = match eval_expr(&ix.left, st, env, fuel) {
                Ok(v) => v,
                Err(err) => {
                    return Err(err);
                },
            };
            match lv {
                Object::Array(h) => {
                    let ghost st1 = st@;
                    let iv = match eval_expr(&ix.index, st, env, fuel) {
                        Ok(v) => v,
                        Err(err) => {
                            return Err(err);
                        },
                    };
                    let n = match iv.to_num() {
                        Ok(n) => n,
                        Err(err) => {
                            return Err(err);
                        },
                    };
                    if n < 0 {
                        return Err(EvalErr::IndexOutOfBounds(-1, 0));
                    }
                    proof {
                        assert(h < st1.arrays.len());
                        assert(h < st@.arrays.len());
                        assert(arr_at(st@, h as int) == st@.arrays[h as int]);
                    }
                    let buf_len = st.arrays[h].len();
                    if n as u64 >= buf_len as u64 {
                        return Err(EvalErr::IndexOutOfBounds(n, buf_len));
                    }
                    let idx = n as usize;
                    let out = object_clone(&st.arrays[h][idx]);
                    proof {
                        assert(obj_wf(
                            st@.arrays[h as int][n as int],
                            st@.scopes.len() as int,
                            st@.arrays.len() as int,
                        ));
                    }
                    Ok(out)
                },
                other => Err(EvalErr::IndexArray(other.to_string())),
            }
        },
    }
}

/// Evaluates a list of expressions left to right, exactly as `seval_exprs`
/// gives it from the given index on.
fn eval_args_from(
    args: &Vec<Expression>,
    i: usize,
    st: &mut Environment,
    env: usize,
    fuel: u64,
) -> (r: Result<Vec<Object>, EvalErr>)
    requires
        st_wf(old(st)@),
        env < old(st)@.scopes.len(),
        i <= args@.len(),
    ensures
        st_wf(final(st)@),
        old(st)@.scopes.len() <= final(st)@.scopes.len(),
        old(st)@.arrays.len() <= final(st)@.arrays.len(),
        final(st)@ == seval_exprs(
            exprs_view(args@),
            i as int,
            old(st)@,
            env as int,
            fuel as nat,
        ).1,
        (r matches Ok(vs) ==> seval_exprs(
            exprs_view(args@),
            i as int,
            old(st)@,
            env as int,
            fuel as nat,
        ).0 == Ok::<Seq<ObjV>, crate::errors::EvalErrV>(objs_view(vs@)) && forall|j: int|
            0 <= j < vs@.len() ==> obj_wf(
                #[trigger] objs_view(vs@)[j],
                final(st)@.scopes.len() as int,
                final(st)@.arrays.len() as int,
            )),
        (r matches Err(x) ==> seval_exprs(
            exprs_view(args@),
            i as int,
            old(st)@,
            env as int,
            fuel as nat,
        ).0 == Err::<Seq<ObjV>, crate::errors::EvalErrV>(x@)),
    decreases fuel, 0int, args, args@.len() - i,
{
    proof {
        crate::render::lemma_exprs_view_len(args@);
    }
    if i >= args.len() {
        let out: Vec<Object> = Vec::new();
        proof {
            assert(objs_view(out@) =~= Seq::<ObjV>::empty());
        }
        return Ok(out);
    }
    let v = match eval_expr(&args[i], st, env, fuel) {
        Ok(v) => v,
        Err(err) => {
            return Err(err);
        },
    };
    let ghost stv = st@;
    let rest = match eval_args_from(args, i + 1, st, env, fuel) {
        Ok(vs) => vs,
        Err(err) => {
            return Err(err);
        },
    };
    let mut out: Vec<Object> = Vec::new();
    out.push(v);
    let ghost restv = objs_view(rest@);
    let mut rest_mut = rest;
    out.append(&mut rest_mut);
    proof {
        assert(objs_view(out@) =~= seq![v@] + restv);
        assert forall|j: int| 0 <= j < out@.len() implies obj_wf(
            #[trigger] objs_view(out@)[j],
            st@.scopes.len() as int,
            st@.arrays.len() as int,
        ) by {
            if j == 0 {
                assert(objs_view(out@)[0] == v@);
                crate::environment::lemma_obj_wf_grow(
                    v@,
                    stv.scopes.len() as int,
                    stv.arrays.len() as int,
                    st@.scopes.len() as int,
                    st@.arrays.len() as int,
                );
            } else {
                assert(objs_view(out@)[j] == restv[j - 1]);
            }
        }
    }
    Ok(out)
}

/// Evaluates the argument list of a call (and the element list of an array
/// literal), left to right.
fn eval_call_args(args: &Vec<Expression>, st: &mut Environment, env: usize, fuel: u64) -> (r:
    Result<Vec<Object>, EvalErr>)
    requires
        st_wf(old(st)@),
        env < old(st)@.scopes.len(),
    ensures
        st_wf(final(st)@),
        old(st)@.scopes.len() <= final(st)@.scopes.len(),
        old(st)@.arrays.len() <= final(st)@.arrays.len(),
        final(st)@ == seval_exprs(exprs_view(args@), 0, old(st)@, env as int, fuel as nat).1,
        (r matches Ok(vs) ==> seval_exprs(
            exprs_view(args@),
            0,
            old(st)@,
            env as int,
            fuel as nat,
        ).0 == Ok::<Seq<ObjV>, crate::errors::EvalErrV>(objs_view(vs@)) && forall|j: int|
            0 <= j < vs@.len() ==> obj_wf(
                #[trigger] objs_view(vs@)[j],
                final(st)@.scopes.len() as int,
                final(st)@.arrays.len() as int,
            )),
        (r matches Err(x) ==> seval_exprs(
            exprs_view(args@),
            0,
            old(st)@,
            env as int,
            fuel as nat,
        ).0 == Err::<Seq<ObjV>, crate::errors::EvalErrV>(x@)),
    decreases fuel, 0int, args, args@.len() + 1,
{
    eval_args_from(args, 0, st, env, fuel)
}

/// Evaluates a statement list in order from the given index, carrying the
/// last value, exactly as `seval_stmts` gives it.
fn eval_stmts_from(
    stmts: &Vec<Statement>,
    i: usize,
    st: &mut Environment,
    env: usize,
    fuel: u64,
    last: Object,
) -> (r: Result<Object, EvalErr>)
    requires
        st_wf(old(st)@),
        env < old(st)@.scopes.len(),
        i <= stmts@.len(),
        obj_wf(last@, old(st)@.scopes.len() as int, old(st)@.arrays.len() as int),
    ensures
        st_wf(final(st)@),
        old(st)@.scopes.len() <= final(st)@.scopes.len(),
        old(st)@.arrays.len() <= final(st)@.arrays.len(),
        final(st)@ == seval_stmts(
            stmts_view(stmts@),
            i as int,
            old(st)@,
            env as int,
            fuel as nat,
            last@,
        ).1,
        (r matches Ok(v) ==> seval_stmts(
            stmts_view(stmts@),
            i as int,
            old(st)@,
            env as int,
            fuel as nat,
            last@,
        ).0 == Ok::<ObjV, crate::errors::EvalErrV>(v@) && obj_wf(
            v@,
            final(st)@.scopes.len() as int,
            final(st)@.arrays.len() as int,
        )),
        (r matches Err(x) ==> seval_stmts(
            stmts_view(stmts@),
            i as int,
            old(st)@,
            env as int,
            fuel as nat,
            last@,
        ).0 == Err::<ObjV, crate::errors::EvalErrV>(x@)),
    decreases fuel, 0int, stmts, stmts@.len() - i,
{
    proof {
        crate::render::lemma_stmts_view_len(stmts@);
    }
    if i >= stmts.len() {
        return Ok(last);
    }
    let v = match eval_stmt(&stmts[i], st, env, fuel) {
        Ok(v) => v,
        Err(err) => {
            return Err(err);
        },
    };
    if v.is_return() {
        return Ok(v);
    }
    eval_stmts_from(stmts, i + 1, st, env, fuel, v)
}

/// Evaluates a statement list from its start, the last value starting at
/// `Null`.
fn eval_statements(stmts: &Vec<Statement>, st: &mut Environment, env: usize, fuel: u64) -> (r:
    Result<Object, EvalErr>)
    requires
        st_wf(old(st)@),
        env < old(st)@.scopes.len(),
    ensures
        st_wf(final(st)@),
        old(st)@.scopes.len() <= final(st)@.scopes.len(),
        old(st)@.arrays.len() <= final(st)@.arrays.len(),
        final(st)@ == seval_stmts(
            stmts_view(stmts@),
            0,
            old(st)@,
            env as int,
            fuel as nat,
            ObjV::Null,
        ).1,
        (r matches Ok(v) ==> seval_stmts(
            stmts_view(stmts@),
            0,
            old(st)@,
            env as int,
            fuel as nat,
            ObjV::Null,
        ).0 == Ok::<ObjV, crate::errors::EvalErrV>(v@) && obj_wf(
            v@,
            final(st)@.scopes.len() as int,
            final(st)@.arrays.len() as int,
        )),
        (r matches Err(x) ==> seval_stmts(
            stmts_view(stmts@),
            0,
            old(st)@,
            env as int,
            fuel as nat,
            ObjV::Null,
        ).0 == Err::<ObjV, crate::errors::EvalErrV>(x@)),
    decreases fuel, 0int, stmts, stmts@.len() + 1,
{
    eval_stmts_from(stmts, 0, st, env, fuel, Object::Null)
}

/// Evaluates one statement, exactly as `seval_stmt` gives it.
#[verifier::spinoff_prover]
#[verifier::rlimit(100)]
fn eval_stmt(s: &Statement, st: &mut Environment, env: usize, fuel: u64) -> (r: Result<
    Object,
    EvalErr,
>)
    requires
        st_wf(old(st)@),
        env < old(st)@.scopes.len(),
    ensures
        st_wf(final(st)@),
        old(st)@.scopes.len() <= final(st)@.scopes.len(),
        old(st)@.arrays.len() <= final(st)@.arrays.len(),
        final(st)@ == seval_stmt(s@, old(st)@, env as int, fuel as nat).1,
        (r matches Ok(v) ==> seval_stmt(s@, old(st)@, env as int, fuel as nat).0 == Ok::<
            ObjV,
            crate::errors::EvalErrV,
        >(v@) && obj_wf(v@, final(st)@.scopes.len() as int, final(st)@.arrays.len() as int)),
        (r matches Err(x) ==> seval_stmt(s@, old(st)@, env as int, fuel as nat).0 == Err::<
            ObjV,
            crate::errors::EvalErrV,
        >(x@)),
    decreases fuel, 0int, s, 1int,
{
    match s {
        Statement::Let(l) => {
            let v = match eval_expr(&l.value, st, env, fuel) {
                Ok(v) => v,
                Err(err) => {
                    return Err(err);
                },
            };
            match st.initiate(env, l.name.0.clone(), v) {
                Ok(_) => Ok(Object::Null),
                Err(err) => Err(err),
            }
        },
        Statement::Reassign(x) => {
            let v = match eval_expr(&x.value, st, env, fuel) {
                Ok(v) => v,
                Err(err) => {
                    return Err(err);
                },
            };
            eval_reassign_lhs(&x.lhs, v, st, env, fuel)
        },
        Statement::Return(ret) => {
            match &ret.expression {
                None => {
                    let out = Object::Return(Box::new(Object::Null));
                    proof {
                        reveal_with_fuel(crate::object::obj_view, 3);
                        reveal_with_fuel(crate::environment::obj_wf, 3);
                        assert(out@ == ObjV::Return(Box::new(ObjV::Null)));
                        assert(obj_wf(
                            out@,
                            st@.scopes.len() as int,
                            st@.arrays.len() as int,
                        ));
                    }
                    Ok(out)
                },
                Some(e) => {
                    let v = match eval_expr(e, st, env, fuel) {
                        Ok(v) => v,
                        Err(err) => {
                            return Err(err);
                        },
                    };
                    let out = Object::Return(Box::new(v));
                    proof {
                        assert(obj_wf(
                            out@,
                            st@.scopes.len() as int,
                            st@.arrays.len() as int,
                        ));
                    }
                    Ok(out)
                },
            }
        },
        Statement::Expression(es) => {
            match &es.expression {
                None => Ok(Object::Null),
                Some(e) => eval_expr(e, st, env, fuel),
            }
        },
        Statement::Program(p) => {
            let v = match eval_statements(&p.statements, st, env, fuel) {
                Ok(v) => v,
                Err(err) => {
                    return Err(err);
                },
            };
            proof {
                if v@ is Return {
                    assert(obj_wf(v@, st@.scopes.len() as int, st@.arrays.len() as int));
                    assert(obj_wf(
                        *(v@->Return_0),
                        st@.scopes.len() as int,
                        st@.arrays.len() as int,
                    ));
                }
            }
            Ok(unwrap_return(v))
        },
        Statement::Block(b) => eval_statements(&b.statements, st, env, fuel),
    }
}

/// Assigns into the left-hand side of a reassignment, exactly as
/// `seval_reassign_lhs` gives it.
#[verifier::rlimit(100)]
fn eval_reassign_lhs(
    lhs: &Expression,
    v: Object,
    st: &mut Environment,
    env: usize,
    fuel: u64,
) -> (r: Result<Object, EvalErr>)
    requires
        st_wf(old(st)@),
        env < old(st)@.scopes.len(),
        obj_wf(v@, old(st)@.scopes.len() as int, old(st)@.arrays.len() as int),
    ensures
        st_wf(final(st)@),
        old(st)@.scopes.len() <= final(st)@.scopes.len(),
        old(st)@.arrays.len() <= final(st)@.arrays.len(),
        final(st)@ == crate::eval_spec::seval_reassign_lhs(
            lhs@,
            v@,
            old(st)@,
            env as int,
            fuel as nat,
        ).1,
        (r matches Ok(x) ==> crate::eval_spec::seval_reassign_lhs(
            lhs@,
            v@,
            old(st)@,
            env as int,
            fuel as nat,
        ).0 == Ok::<ObjV, crate::errors::EvalErrV>(x@) && obj_wf(
            x@,
            final(st)@.scopes.len() as int,
            final(st)@.arrays.len() as int,
        )),
        (r matches Err(x) ==> crate::eval_spec::seval_reassign_lhs(
            lhs@,
            v@,
            old(st)@,
            env as int,
            fuel as nat,
        ).0 == Err::<ObjV, crate::errors::EvalErrV>(x@)),
    decreases fuel, 0int, lhs, 0int,
{
    match lhs {
        Expression::Identifier(id) => {
            proof {
                assert(lhs@ is Identifier);
            }
            eval_reassign_ident(id, v, st, env)
        },
        Expression::Index(ixe) => {
            proof {
                assert(lhs@ is Index);
            }
            eval_reassign_index(ixe, v, st, env, fuel)
        },
        other => {
            proof {
                assert(!(lhs@ is Identifier) && !(lhs@ is Index)) by {
                }
            }
            Err(EvalErr::AssignLHS(expr_to_str(other)))
        },
    }
}

/// Reassigns a plain name, exactly as the model's name arm of
/// `seval_reassign_lhs` gives it.
#[verifier::spinoff_prover]
#[verifier::rlimit(100)]
fn eval_reassign_ident(
    id: &crate::ast::Identifier,
    v: Object,
    st: &mut Environment,
    env: usize,
) -> (r: Result<Object, EvalErr>)
    requires
        st_wf(old(st)@),
        env < old(st)@.scopes.len(),
        obj_wf(v@, old(st)@.scopes.len() as int, old(st)@.arrays.len() as int),
    ensures
        st_wf(final(st)@),
        old(st)@.scopes.len() <= final(st)@.scopes.len(),
        old(st)@.arrays.len() <= final(st)@.arrays.len(),
        ({
            let m = crate::environment::spec_env_reassign(old(st)@, env as int, id@, v@);
            &&& final(st)@ == m.1
            &&& (r matches Ok(x) ==> m.0 is Ok && x@ == ObjV::Null)
            &&& (r matches Err(e) ==> m.0 == Err::<ObjV, crate::errors::EvalErrV>(e@))
        }),
{
    proof {
        crate::environment::lemma_reassign_shape(st@, env as int, id@, v@);
    }
    match st.reassign(env, &id.0, v) {
        Ok(_) => Ok(Object::Null),
        Err(err) => Err(err),
    }
}

/// Assigns into an index left-hand side, exactly as the model's index arm
/// of `seval_reassign_lhs` gives it.
#[verifier::spinoff_prover]
#[verifier::rlimit(100)]
fn eval_reassign_index(
    ixe: &crate::ast::IndexExpression,
    v: Object,
    st: &mut Environment,
    env: usize,
    fuel: u64,
) -> (r: Result<Object, EvalErr>)
    requires
        st_wf(old(st)@),
        env < old(st)@.scopes.len(),
        obj_wf(v@, old(st)@.scopes.len() as int, old(st)@.arrays.len() as int),
    ensures
        st_wf(final(st)@),
        old(st)@.scopes.len() <= final(st)@.scopes.len(),
        old(st)@.arrays.len() <= final(st)@.arrays.len(),
        final(st)@ == crate::eval_spec::seval_reassign_lhs(
            crate::ast::ExprV::Index(Box::new(ixe.left@), Box::new(ixe.index@)),
            v@,
            old(st)@,
            env as int,
            fuel as nat,
        ).1,
        (r matches Ok(x) ==> crate::eval_spec::seval_reassign_lhs(
            crate::ast::ExprV::Index(Box::new(ixe.left@), Box::new(ixe.index@)),
            v@,
            old(st)@,
            env as int,
            fuel as nat,
        ).0 == Ok::<ObjV, crate::errors::EvalErrV>(x@) && obj_wf(
            x@,
            final(st)@.scopes.len() as int,
            final(st)@.arrays.len() as int,
        )),
        (r matches Err(x) ==> crate::eval_spec::seval_reassign_lhs(
            crate::ast::ExprV::Index(Box::new(ixe.left@), Box::new(ixe.index@)),
            v@,
            old(st)@,
            env as int,
            fuel as nat,
        ).0 == Err::<ObjV, crate::errors::EvalErrV>(x@)),
    decreases fuel, 0int, ixe, 0int,
{
    match &ixe.left {
        Expression::Identifier(id) => {
            let ghost st0 = st@;
            proof {
                assert(ixe.left@ == crate::ast::ExprV::Identifier(id@));
            }
            let iv = match eval_expr(&ixe.index, st, env, fuel) {
                Ok(x) => x,
                Err(err) => {
                    return Err(err);
                },
            };
            proof {
                crate::environment::lemma_obj_wf_grow(
                    v@,
                    st0.scopes.len() as int,
                    st0.arrays.len() as int,
                    st@.scopes.len() as int,
                    st@.arrays.len() as int,
                );
            }
            eval_index_assign_with(id, iv, v, st, env)
        },
        other => Err(
            EvalErr::CoerceErr(
                crate::errors::CoerceErr::ToIdent(expr_token_literal(other)),
            ),
        ),
    }
}

/// Overwrites one slot of the array a name binds, the index value already
/// evaluated, exactly as `seval_index_assign_with` gives it.
#[verifier::rlimit(100)]
fn eval_index_assign_with(
    id: &crate::ast::Identifier,
    iv: Object,
    v: Object,
    st: &mut Environment,
    env: usize,
) -> (r: Result<Object, EvalErr>)
    requires
        st_wf(old(st)@),
        env < old(st)@.scopes.len(),
        obj_wf(v@, old(st)@.scopes.len() as int, old(st)@.arrays.len() as int),
    ensures
        st_wf(final(st)@),
        old(st)@.scopes.len() <= final(st)@.scopes.len(),
        old(st)@.arrays.len() <= final(st)@.arrays.len(),
        final(st)@ == crate::eval_spec::seval_index_assign_with(
            id@,
            iv@,
            v@,
            old(st)@,
            env as int,
        ).1,
        (r matches Ok(x) ==> crate::eval_spec::seval_index_assign_with(
            id@,
            iv@,
            v@,
            old(st)@,
            env as int,
        ).0 == Ok::<ObjV, crate::errors::EvalErrV>(x@) && obj_wf(
            x@,
            final(st)@.scopes.len() as int,
            final(st)@.arrays.len() as int,
        )),
        (r matches Err(x) ==> crate::eval_spec::seval_index_assign_with(
            id@,
            iv@,
            v@,
            old(st)@,
            env as int,
        ).0 == Err::<ObjV, crate::errors::EvalErrV>(x@)),
{
    let n = match iv.to_num() {
        Ok(n) => n,
        Err(err) => {
            return Err(err);
        },
    };
    if n < 0 {
        return Err(EvalErr::IndexOutOfBounds(-1, 0));
    }
    let arrobj = match st.get(env, &id.0) {
        Ok(a) => a,
        Err(err) => {
            return Err(err);
        },
    };
    let h = match arrobj.to_arr(EvalErr::IndexArray(id.0.clone())) {
        Ok(h) => h,
        Err(err) => {
            return Err(err);
        },
    };
    proof {
        assert(h < st@.arrays.len());
        assert(arr_at(st@, h as int) == st@.arrays[h as int]);
    }
    let buf_len = st.arrays[h].len();
    if n as u64 >= buf_len as u64 {
        return Err(EvalErr::IndexOutOfBounds(n, buf_len));
    }
    let idx = n as usize;
    let ghost st1 = st@;
    let ghost vv = v@;
    let buf = &mut st.arrays[h];
    buf.set(idx, v);
    proof {
        let stv = crate::eval_spec::seval_index_assign_with(
            id@,
            iv@,
            vv,
            old(st)@,
            env as int,
        ).1;
        assert(st@.arrays =~~= st1.arrays.update(
            h as int,
            st1.arrays[h as int].update(n as int, vv),
        ));
        assert(st@.scopes =~~= st1.scopes);
        lemma_wf_update_array(st1, st@, h as int, n as int, vv);
        assert(st@ =~~= stv);
    }
    Ok(Object::Null)
}

/// Applies a user function to evaluated arguments, the fuel already
/// charged, exactly as `sapply` gives it.
#[verifier::loop_isolation(false)]
#[verifier::rlimit(100)]
fn apply_function(f: &Function, args: &Vec<Object>, st: &mut Environment, fuel: u64) -> (r:
    Result<Object, EvalErr>)
    requires
        st_wf(old(st)@),
        f.env < old(st)@.scopes.len(),
        forall|j: int|
            0 <= j < args@.len() ==> obj_wf(
                #[trigger] objs_view(args@)[j],
                old(st)@.scopes.len() as int,
                old(st)@.arrays.len() as int,
            ),
    ensures
        st_wf(final(st)@),
        old(st)@.scopes.len() <= final(st)@.scopes.len(),
        old(st)@.arrays.len() <= final(st)@.arrays.len(),
        final(st)@ == sapply(f@, objs_view(args@), old(st)@, fuel as nat).1,
        (r matches Ok(v) ==> sapply(f@, objs_view(args@), old(st)@, fuel as nat).0 == Ok::<
            ObjV,
            crate::errors::EvalErrV,
        >(v@) && obj_wf(v@, final(st)@.scopes.len() as int, final(st)@.arrays.len() as int)),
        (r matches Err(x) ==> sapply(f@, objs_view(args@), old(st)@, fuel as nat).0 == Err::<
            ObjV,
            crate::errors::EvalErrV,
        >(x@)),
    decreases fuel, 1int, f, 1int,
{
    let ghost st0 = st@;
    if args.len() != f.params.len() {
        return Err(EvalErr::ArgsCount(f.params.len(), args.len()));
    }
    let newenv = st.new_with_outer(f.env);
    let ghost st1 = st@;
    proof {
        crate::render::lemma_stmts_view_len(f.body.statements@);
        assert forall|j: int| 0 <= j < args@.len() implies obj_wf(
            #[trigger] objs_view(args@)[j],
            st@.scopes.len() as int,
            st@.arrays.len() as int,
        ) by {
            crate::environment::lemma_obj_wf_grow(
                objs_view(args@)[j],
                st0.scopes.len() as int,
                st0.arrays.len() as int,
                st@.scopes.len() as int,
                st@.arrays.len() as int,
            );
        }
    }

    // bind each parameter to its argument in the fresh scope
    let n = f.params.len();
    let mut i: usize = 0;
    proof {
        assert(spec_bind_params(
            crate::ast::idents_view(f.params@),
            objs_view(args@),
            0,
            st1,
            newenv as int,
        ) == spec_bind_params(
            crate::ast::idents_view(f.params@),
            objs_view(args@),
            0,
            st1,
            newenv as int,
        ));
    }
    while i < n
        invariant
            st_wf(st@),
            n == f.params@.len(),
            n == args@.len(),
            0 <= i <= n,
            newenv < st@.scopes.len(),
            st@.scopes.len() == st1.scopes.len(),
            st@.arrays.len() == st1.arrays.len(),
            forall|j: int|
                0 <= j < args@.len() ==> obj_wf(
                    #[trigger] objs_view(args@)[j],
                    st@.scopes.len() as int,
                    st@.arrays.len() as int,
                ),
            spec_bind_params(
                crate::ast::idents_view(f.params@),
                objs_view(args@),
                i as int,
                st@,
                newenv as int,
            ) == spec_bind_params(
                crate::ast::idents_view(f.params@),
                objs_view(args@),
                0,
                st1,
                newenv as int,
            ),
        decreases n - i,
    {
        let key = f.params[i].0.clone();
        let arg = object_clone(&args[i]);
        proof {
            assert(crate::ast::idents_view(f.params@)[i as int] == f.params@[i as int].0@);
            assert(objs_view(args@)[i as int] == args@[i as int]@);
        }
        match st.initiate(newenv, key, arg) {
            Ok(_) => {},
            Err(err) => {
                return Err(err);
            },
        }
        i = i + 1;
    }

    let v = match eval_statements(&f.body.statements, st, newenv, fuel) {
        Ok(v) => v,
        Err(err) => {
            return Err(err);
        },
    };
    proof {
        if v@ is Return {
            assert(obj_wf(
                *(v@->Return_0),
                st@.scopes.len() as int,
                st@.arrays.len() as int,
            )) by {
                assert(obj_wf(v@, st@.scopes.len() as int, st@.arrays.len() as int));
            }
        }
    }
    Ok(unwrap_return(v))
}

/// A store stays well formed when a buffer of well-formed values is
/// appended to the array arena.
proof fn lemma_wf_push_array(st0: StV, st1: StV, elems: Seq<ObjV>)
    requires
        st_wf(st0),
        st1.scopes == st0.scopes,
        st1.arrays == st0.arrays.push(elems),
        forall|j: int|
            0 <= j < elems.len() ==> obj_wf(
                #[trigger] elems[j],
                st0.scopes.len() as int,
                st0.arrays.len() as int,
            ),
    ensures
        st_wf(st1),
{
    let ns = st1.scopes.len() as int;
    let na = st1.arrays.len() as int;
    assert(na == st0.arrays.len() + 1);
    assert forall|s: int| 0 <= s < st1.scopes.len() implies crate::environment::scope_wf(
        #[trigger] st1.scopes[s],
        s,
        ns,
        na,
    ) by {
        assert(crate::environment::scope_wf(
            st0.scopes[s],
            s,
            st0.scopes.len() as int,
            st0.arrays.len() as int,
        ));
        assert forall|k: int| 0 <= k < st1.scopes[s].bindings.len() implies obj_wf(
            (#[trigger] st1.scopes[s].bindings[k]).1,
            ns,
            na,
        ) by {
            crate::environment::lemma_obj_wf_grow(
                st0.scopes[s].bindings[k].1,
                st0.scopes.len() as int,
                st0.arrays.len() as int,
                ns,
                na,
            );
        }
    }
    assert forall|a: int, k: int|
        0 <= a < st1.arrays.len() && 0 <= k < st1.arrays[a].len() implies obj_wf(
        #[trigger] st1.arrays[a][k],
        ns,
        na,
    ) by {
        if a < st0.arrays.len() {
            assert(st1.arrays[a] == st0.arrays[a]);
            assert(obj_wf(
                st0.arrays[a][k],
                st0.scopes.len() as int,
                st0.arrays.len() as int,
            ));
            crate::environment::lemma_obj_wf_grow(
                st0.arrays[a][k],
                st0.scopes.len() as int,
                st0.arrays.len() as int,
                ns,
                na,
            );
        } else {
            assert(st1.arrays[a] == elems);
            crate::environment::lemma_obj_wf_grow(
                elems[k],
                st0.scopes.len() as int,
                st0.arrays.len() as int,
                ns,
                na,
            );
        }
    }
}

/// A store stays well formed when one slot of one array is overwritten
/// with a well-formed value.
proof fn lemma_wf_update_array(st0: StV, st1: StV, h: int, idx: int, v: ObjV)
    requires
        st_wf(st0),
        0 <= h < st0.arrays.len(),
        0 <= idx < st0.arrays[h].len(),
        obj_wf(v, st0.scopes.len() as int, st0.arrays.len() as int),
        st1.scopes == st0.scopes,
        st1.arrays == st0.arrays.update(h, st0.arrays[h].update(idx, v)),
    ensures
        st_wf(st1),
{
    assert(st1.arrays.len() == st0.arrays.len());
    assert forall|a: int, k: int|
        0 <= a < st1.arrays.len() && 0 <= k < st1.arrays[a].len() implies obj_wf(
        #[trigger] st1.arrays[a][k],
        st1.scopes.len() as int,
        st1.arrays.len() as int,
    ) by {
        if a == h {
            assert(st1.arrays[h] == st0.arrays[h].update(idx, v));
            if k == idx {
                assert(st1.arrays[a][k] == v);
            } else {
                assert(st1.arrays[a][k] == st0.arrays[a][k]);
                assert(obj_wf(
                    st0.arrays[a][k],
                    st0.scopes.len() as int,
                    st0.arrays.len() as int,
                ));
            }
        } else {
            assert(st1.arrays[a] == st0.arrays[a]);
            assert(obj_wf(
                st0.arrays[a][k],
                st0.scopes.len() as int,
                st0.arrays.len() as int,
            ));
        }
    }
}

} // verus!
