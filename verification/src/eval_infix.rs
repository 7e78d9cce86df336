//! Infix operator semantics: arithmetic wraps on the language's 64-bit
//! integers, `+` concatenates strings, `*` repeats a string, `/` by zero
//! is a typed error, comparisons order numbers and strings, equality also
//! covers booleans; everything else is a typed error naming both operands.

use vstd::prelude::*;

use crate::errors::{EvalErr, EvalErrV};
use crate::object::{Object, ObjV, spec_obj_str};
use crate::strutil::str_to_chars;
use crate::token::{TOKEN, TokenV, spec_token_literal};

verus! {

/// Truncating 64-bit division, wrapping on the one overflowing case.
pub open spec fn spec_div_i64(l: int, r: int) -> int {
    let q = if l >= 0 && r > 0 {
        l / r
    } else if l < 0 && r < 0 {
        (-l) / (-r)
    } else if l < 0 {
        -((-l) / r)
    } else {
        -(l / (-r))
    };
    if q > i64::MAX {
        i64::MIN as int
    } else {
        q
    }
}

/// Lexicographic order on character sequences.
pub open spec fn spec_seq_lt(a: Seq<char>, b: Seq<char>) -> bool
    decreases a.len(),
{
    if b.len() == 0 {
        false
    } else if a.len() == 0 {
        true
    } else if a[0] != b[0] {
        a[0] < b[0]
    } else {
        spec_seq_lt(a.drop_first(), b.drop_first())
    }
}

/// A string repeated: the empty sequence when the count is not positive.
pub open spec fn spec_repeat(s: Seq<char>, n: int) -> Seq<char>
    decreases n,
{
    if n <= 0 {
        Seq::empty()
    } else {
        spec_repeat(s, n - 1) + s
    }
}

/// What an infix operator yields on two evaluated operands.
pub open spec fn spec_eval_infix(op: TokenV, l: ObjV, r: ObjV) -> Result<ObjV, EvalErrV> {
    match op {
        TokenV::PLUS => match (l, r) {
            (ObjV::Number(a), ObjV::Number(b)) => Ok(
                ObjV::Number(
                    vstd::wrapping::i64_specs::wrapping_add(a as i64, b as i64) as int,
                ),
            ),
            (ObjV::Str(a), ObjV::Str(b)) => Ok(ObjV::Str(a + b)),
            _ => Err(EvalErrV::PlusError(spec_obj_str(l), spec_obj_str(r))),
        },
        TokenV::MINUS => match (l, r) {
            (ObjV::Number(a), ObjV::Number(b)) => Ok(
                ObjV::Number(
                    vstd::wrapping::i64_specs::wrapping_sub(a as i64, b as i64) as int,
                ),
            ),
            _ => Err(EvalErrV::SubstractError(spec_obj_str(l), spec_obj_str(r))),
        },
        TokenV::ASTERISK => match (l, r) {
            (ObjV::Number(a), ObjV::Number(b)) => Ok(
                ObjV::Number(
                    vstd::wrapping::i64_specs::wrapping_mul(a as i64, b as i64) as int,
                ),
            ),
            (ObjV::Number(n), ObjV::Str(s)) => Ok(ObjV::Str(spec_repeat(s, n))),
            (ObjV::Str(s), ObjV::Number(n)) => Ok(ObjV::Str(spec_repeat(s, n))),
            _ => Err(EvalErrV::MultiplyError(spec_obj_str(l), spec_obj_str(r))),
        },
        TokenV::SLASH => match (l, r) {
            (_, ObjV::Number(b)) => {
                if b == 0 {
                    Err(EvalErrV::DivideByZero)
                } else {
                    match l {
                        ObjV::Number(a) => Ok(ObjV::Number(spec_div_i64(a, b))),
                        _ => Err(EvalErrV::DivideError(spec_obj_str(l), spec_obj_str(r))),
                    }
                }
            },
            _ => Err(EvalErrV::DivideError(spec_obj_str(l), spec_obj_str(r))),
        },
        TokenV::LT => match (l, r) {
            (ObjV::Number(a), ObjV::Number(b)) => Ok(ObjV::Boolean(a < b)),
            (ObjV::Str(a), ObjV::Str(b)) => Ok(ObjV::Boolean(spec_seq_lt(a, b))),
            _ => Err(EvalErrV::Order(spec_obj_str(l), spec_obj_str(r))),
        },
        TokenV::GT => match (l, r) {
            (ObjV::Number(a), ObjV::Number(b)) => Ok(ObjV::Boolean(a > b)),
            (ObjV::Str(a), ObjV::Str(b)) => Ok(ObjV::Boolean(spec_seq_lt(b, a))),
            _ => Err(EvalErrV::Order(spec_obj_str(l), spec_obj_str(r))),
        },
        TokenV::EQ => match (l, r) {
            (ObjV::Number(a), ObjV::Number(b)) => Ok(ObjV::Boolean(a == b)),
            (ObjV::Str(a), ObjV::Str(b)) => Ok(ObjV::Boolean(a == b)),
            (ObjV::Boolean(a), ObjV::Boolean(b)) => Ok(ObjV::Boolean(a == b)),
            _ => Err(EvalErrV::Equal(spec_obj_str(l), spec_obj_str(r))),
        },
        TokenV::NotEQ => match (l, r) {
            (ObjV::Number(a), ObjV::Number(b)) => Ok(ObjV::Boolean(a != b)),
            (ObjV::Str(a), ObjV::Str(b)) => Ok(ObjV::Boolean(a != b)),
            (ObjV::Boolean(a), ObjV::Boolean(b)) => Ok(ObjV::Boolean(a != b)),
            _ => Err(EvalErrV::Equal(spec_obj_str(l), spec_obj_str(r))),
        },
        _ => Err(
            EvalErrV::NotImplemented(
                spec_token_literal(op) + " is not implemented for infix expression"@,
            ),
        ),
    }
}

/// An infix operator's result is never an array, a function or the
/// early-return marker.
pub open spec fn infix_result_plain(r: Result<ObjV, EvalErrV>) -> bool {
    match r {
        Ok(v) => v is Number || v is Str || v is Boolean,
        Err(_) => true,
    }
}

/// The infix results are plain values: numbers, strings or booleans.
pub proof fn lemma_infix_result_plain(op: TokenV, l: ObjV, r: ObjV)
    ensures
        infix_result_plain(spec_eval_infix(op, l, r)),
{
}

/// Compares two strings lexicographically, exactly as `spec_seq_lt`.
fn str_lex_lt(a: &String, b: &String) -> (r: bool)
    ensures
        r == spec_seq_lt(a@, b@),
{
    let av = str_to_chars(a.as_str());
    let bv = str_to_chars(b.as_str());
    let na = av.len();
    let nb = bv.len();
    let mut i: usize = 0;
    proof {
        assert(a@.skip(0) =~= a@);
        assert(b@.skip(0) =~= b@);
    }
    loop
        invariant
            av@ == a@,
            bv@ == b@,
            na == av@.len(),
            nb == bv@.len(),
            0 <= i <= na,
            0 <= i <= nb,
            spec_seq_lt(a@, b@) == spec_seq_lt(a@.skip(i as int), b@.skip(i as int)),
        decreases na - i,
    {
        proof {
            let sa = a@.skip(i as int);
            let sb = b@.skip(i as int);
            assert(sa.len() == na - i);
            assert(sb.len() == nb - i);
            if sa.len() > 0 {
                assert(sa[0] == a@[i as int]);
            }
            if sb.len() > 0 {
                assert(sb[0] == b@[i as int]);
            }
            if sa.len() > 0 && sb.len() > 0 {
                assert(sa.drop_first() =~= a@.skip(i as int + 1));
                assert(sb.drop_first() =~= b@.skip(i as int + 1));
            }
        }
        if i >= nb {
            return false;
        }
        if i >= na {
            return true;
        }
        let ca = av[i];
        let cb = bv[i];
        if ca != cb {
            return ca < cb;
        }
        i = i + 1;
    }
}

/// Repeats a string, exactly as `spec_repeat`.
fn repeat_string(s: &String, n: i64) -> (r: String)
    ensures
        r@ == spec_repeat(s@, n as int),
{
    let mut out = String::new();
    if n <= 0 {
        return out;
    }
    let mut i: i64 = 0;
    while i < n
        invariant
            0 <= i <= n,
            out@ == spec_repeat(s@, i as int),
        decreases n - i,
    {
        out.append(s.as_str());
        i = i + 1;
    }
    out
}

/// Applies an infix operator to two evaluated operands, exactly as
/// `spec_eval_infix` gives it.
pub fn eval_infix_expression(operator: &TOKEN, left: Object, right: Object) -> (r: Result<
    Object,
    EvalErr,
>)
    ensures
        (r matches Ok(v) ==> spec_eval_infix(operator@, left@, right@) == Ok::<ObjV, EvalErrV>(
            v@,
        )),
        (r matches Err(e) ==> spec_eval_infix(operator@, left@, right@) == Err::<ObjV, EvalErrV>(
            e@,
        )),
{
    match operator {
        TOKEN::PLUS => eval_plus_expression(left, right),
        TOKEN::MINUS => eval_substract_expression(left, right),
        TOKEN::ASTERISK => eval_multiply_expression(left, right),
        TOKEN::SLASH => eval_div_expression(left, right),
        TOKEN::LT => eval_order_expression(true, left, right),
        TOKEN::GT => eval_order_expression(false, left, right),
        TOKEN::EQ => eval_eq_expression(true, left, right),
        TOKEN::NotEQ => eval_eq_expression(false, left, right),
        _ => {
            let mut msg = operator.literal();
            msg.append(" is not implemented for infix expression");
            Err(EvalErr::NotImplemented(msg))
        },
    }
}

/// `+`: wrapping addition of numbers, or string concatenation.
fn eval_plus_expression(left: Object, right: Object) -> (r: Result<Object, EvalErr>)
    ensures
        (r matches Ok(v) ==> spec_eval_infix(TokenV::PLUS, left@, right@) == Ok::<
            ObjV,
            EvalErrV,
        >(v@)),
        (r matches Err(e) ==> spec_eval_infix(TokenV::PLUS, left@, right@) == Err::<
            ObjV,
            EvalErrV,
        >(e@)),
{
    match (left, right) {
        (Object::Number(n1), Object::Number(n2)) => Ok(Object::Number(n1.wrapping_add(n2))),
        (Object::String(s1), Object::String(s2)) => {
            let mut s = s1;
            s.append(s2.as_str());
            Ok(Object::String(s))
        },
        (l, r) => Err(EvalErr::PlusError(l.to_string(), r.to_string())),
    }
}

/// `-`: wrapping subtraction of numbers.
fn eval_substract_expression(left: Object, right: Object) -> (r: Result<Object, EvalErr>)
    ensures
        (r matches Ok(v) ==> spec_eval_infix(TokenV::MINUS, left@, right@) == Ok::<
            ObjV,
            EvalErrV,
        >(v@)),
        (r matches Err(e) ==> spec_eval_infix(TokenV::MINUS, left@, right@) == Err::<
            ObjV,
            EvalErrV,
        >(e@)),
{
    match (left, right) {
        (Object::Number(n1), Object::Number(n2)) => Ok(Object::Number(n1.wrapping_sub(n2))),
        (l, r) => Err(EvalErr::SubstractError(l.to_string(), r.to_string())),
    }
}

/// `*`: wrapping multiplication of numbers, or string repetition.
fn eval_multiply_expression(left: Object, right: Object) -> (r: Result<Object, EvalErr>)
    ensures
        (r matches Ok(v) ==> spec_eval_infix(TokenV::ASTERISK, left@, right@) == Ok::<
            ObjV,
            EvalErrV,
        >(v@)),
        (r matches Err(e) ==> spec_eval_infix(TokenV::ASTERISK, left@, right@) == Err::<
            ObjV,
            EvalErrV,
        >(e@)),
{
    match (left, right) {
        (Object::Number(n1), Object::Number(n2)) => Ok(Object::Number(n1.wrapping_mul(n2))),
        (Object::Number(n), Object::String(s)) => Ok(Object::String(repeat_string(&s, n))),
        (Object::String(s), Object::Number(n)) => Ok(Object::String(repeat_string(&s, n))),
        (l, r) => Err(EvalErr::MultiplyError(l.to_string(), r.to_string())),
    }
}

/// `/`: truncating division of numbers; zero divisors are a typed error.
fn eval_div_expression(left: Object, right: Object) -> (r: Result<Object, EvalErr>)
    ensures
        (r matches Ok(v) ==> spec_eval_infix(TokenV::SLASH, left@, right@) == Ok::<
            ObjV,
            EvalErrV,
        >(v@)),
        (r matches Err(e) ==> spec_eval_infix(TokenV::SLASH, left@, right@) == Err::<
            ObjV,
            EvalErrV,
        >(e@)),
{
    match (left, right) {
        (l, Object::Number(n2)) => {
            if n2 == 0 {
                Err(EvalErr::DivideByZero)
            } else {
                match l {
                    Object::Number(n1) => {
                        match n1.checked_div(n2) {
                            Some(q) => Ok(Object::Number(q)),
                            None => Ok(Object::Number(i64::MIN)),
                        }
                    },
                    other => Err(
                        EvalErr::DivideError(
                            other.to_string(),
                            Object::Number(n2).to_string(),
                        ),
                    ),
                }
            }
        },
        (l, r) => Err(EvalErr::DivideError(l.to_string(), r.to_string())),
    }
}

/// `<` and `>`: numeric order, or lexicographic order on strings.
fn eval_order_expression(lt: bool, left: Object, right: Object) -> (r: Result<Object, EvalErr>)
    ensures
        ({
            let op = if lt {
                TokenV::LT
            } else {
                TokenV::GT
            };
            &&& (r matches Ok(v) ==> spec_eval_infix(op, left@, right@) == Ok::<ObjV, EvalErrV>(
                v@,
            ))
            &&& (r matches Err(e) ==> spec_eval_infix(op, left@, right@) == Err::<
                ObjV,
                EvalErrV,
            >(e@))
        }),
{
    match (left, right) {
        (Object::Number(n1), Object::Number(n2)) => {
            if lt {
                Ok(Object::Boolean(n1 < n2))
            } else {
                Ok(Object::Boolean(n1 > n2))
            }
        },
        (Object::String(s1), Object::String(s2)) => {
            if lt {
                Ok(Object::Boolean(str_lex_lt(&s1, &s2)))
            } else {
                Ok(Object::Boolean(str_lex_lt(&s2, &s1)))
            }
        },
        (l, r) => Err(EvalErr::Order(l.to_string(), r.to_string())),
    }
}

/// `==` and `!=`: equality of numbers, strings or booleans.
fn eval_eq_expression(eq: bool, left: Object, right: Object) -> (r: Result<Object, EvalErr>)
    ensures
        ({
            let op = if eq {
                TokenV::EQ
            } else {
                TokenV::NotEQ
            };
            &&& (r matches Ok(v) ==> spec_eval_infix(op, left@, right@) == Ok::<ObjV, EvalErrV>(
                v@,
            ))
            &&& (r matches Err(e) ==> spec_eval_infix(op, left@, right@) == Err::<
                ObjV,
                EvalErrV,
            >(e@))
        }),
{
    match (left, right) {
        (Object::Number(n1), Object::Number(n2)) => {
            if eq {
                Ok(Object::Boolean(n1 == n2))
            } else {
                Ok(Object::Boolean(n1 != n2))
            }
        },
        (Object::String(s1), Object::String(s2)) => {
            let same = s1 == s2;
            if eq {
                Ok(Object::Boolean(same))
            } else {
                Ok(Object::Boolean(!same))
            }
        },
        (Object::Boolean(b1), Object::Boolean(b2)) => {
            if eq {
                Ok(Object::Boolean(b1 == b2))
            } else {
                Ok(Object::Boolean(b1 != b2))
            }
        },
        (l, r) => Err(EvalErr::Equal(l.to_string(), r.to_string())),
    }
}

} // verus!
