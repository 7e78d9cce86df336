//! The built-in function table: `len`, `push`, `pop` and `pop_left`,
//! dispatched by name.

use vstd::prelude::*;

use crate::environment::{Environment, StV, arr_at, obj_wf, st_wf};
use crate::errors::{EvalErr, EvalErrV};
use crate::object::{Object, ObjV, objs_view, object_clone, spec_obj_type_name};
use crate::strutil::char_count;

verus! {

/// Whether a name denotes a built-in function.
pub open spec fn spec_is_builtin(name: Seq<char>) -> bool {
    name == "len"@ || name == "pop"@ || name == "pop_left"@ || name == "push"@
}

/// Whether a name denotes a built-in function.
pub fn is_builtin(name: &String) -> (r: bool)
    ensures
        r == spec_is_builtin(name@),
{
    *name == String::from_str("len") || *name == String::from_str("pop") || *name
        == String::from_str("pop_left") || *name == String::from_str("push")
}

/// A sequence length clamped to the language's integers.
pub open spec fn spec_len_clamped(n: int) -> int {
    if n > i64::MAX {
        i64::MAX as int
    } else {
        n
    }
}

/// What a built-in call yields and how it changes the store.
pub open spec fn spec_builtin(name: Seq<char>, args: Seq<ObjV>, st: StV) -> (
    Result<ObjV, EvalErrV>,
    StV,
) {
    if name == "len"@ {
        if args.len() != 1 {
            (Err(EvalErrV::ArgsCount(1, args.len() as int)), st)
        } else {
            match args[0] {
                ObjV::Str(s) => (Ok(ObjV::Number(spec_len_clamped(s.len() as int))), st),
                ObjV::Array(h) => (
                    Ok(ObjV::Number(spec_len_clamped(arr_at(st, h).len() as int))),
                    st,
                ),
                _ => (
                    Err(
                        EvalErrV::BuiltinArgsType(
                            "len"@,
                            "String|Array"@,
                            spec_obj_type_name(args[0]),
                        ),
                    ),
                    st,
                ),
            }
        }
    } else if name == "push"@ {
        if args.len() != 2 {
            (Err(EvalErrV::ArgsCount(2, args.len() as int)), st)
        } else {
            match args[0] {
                ObjV::Array(h) => {
                    if 0 <= h < st.arrays.len() {
                        (
                            Ok(args[1]),
                            StV {
                                scopes: st.scopes,
                                arrays: st.arrays.update(h, st.arrays[h].push(args[1])),
                            },
                        )
                    } else {
                        (Ok(args[1]), st)
                    }
                },
                _ => (
                    Err(
                        EvalErrV::BuiltinArgsType(
                            "push"@,
                            "Array"@,
                            spec_obj_type_name(args[0]),
                        ),
                    ),
                    st,
                ),
            }
        }
    } else if name == "pop"@ {
        if args.len() != 1 {
            (Err(EvalErrV::ArgsCount(1, args.len() as int)), st)
        } else {
            match args[0] {
                ObjV::Array(h) => {
                    let a = arr_at(st, h);
                    if a.len() == 0 {
                        (Ok(ObjV::Null), st)
                    } else if 0 <= h < st.arrays.len() {
                        (
                            Ok(a.last()),
                            StV {
                                scopes: st.scopes,
                                arrays: st.arrays.update(h, a.drop_last()),
                            },
                        )
                    } else {
                        (Ok(ObjV::Null), st)
                    }
                },
                _ => (
                    Err(
                        EvalErrV::BuiltinArgsType(
                            "pop"@,
                            "Array"@,
                            spec_obj_type_name(args[0]),
                        ),
                    ),
                    st,
                ),
            }
        }
    } else if name == "pop_left"@ {
        if args.len() != 1 {
            (Err(EvalErrV::ArgsCount(1, args.len() as int)), st)
        } else {
            match args[0] {
                ObjV::Array(h) => {
                    let a = arr_at(st, h);
                    if a.len() == 0 {
                        (Ok(ObjV::Null), st)
                    } else if 0 <= h < st.arrays.len() {
                        (
                            Ok(a.first()),
                            StV {
                                scopes: st.scopes,
                                arrays: st.arrays.update(h, a.drop_first()),
                            },
                        )
                    } else {
                        (Ok(ObjV::Null), st)
                    }
                },
                _ => (
                    Err(
                        EvalErrV::BuiltinArgsType(
                            "pop_left"@,
                            "Array"@,
                            spec_obj_type_name(args[0]),
                        ),
                    ),
                    st,
                ),
            }
        }
    } else {
        (Err(EvalErrV::NotImplemented(name + " is not a builtin function"@)), st)
    }
}

/// Applies a built-in function by name, exactly as `spec_builtin` gives
/// it.
pub fn builtin_apply(st: &mut Environment, name: &String, args: &Vec<Object>) -> (r: Result<
    Object,
    EvalErr,
>)
    requires
        st_wf(old(st)@),
        forall|i: int|
            0 <= i < args@.len() ==> obj_wf(
                #[trigger] objs_view(args@)[i],
                old(st)@.scopes.len() as int,
                old(st)@.arrays.len() as int,
            ),
    ensures
        st_wf(final(st)@),
        final(st)@.scopes == old(st)@.scopes,
        final(st)@.arrays.len() == old(st)@.arrays.len(),
        (r matches Ok(v) ==> spec_builtin(name@, objs_view(args@), old(st)@).0 == Ok::<
            ObjV,
            EvalErrV,
        >(v@) && obj_wf(v@, final(st)@.scopes.len() as int, final(st)@.arrays.len() as int)),
        (r matches Err(e) ==> spec_builtin(name@, objs_view(args@), old(st)@).0 == Err::<
            ObjV,
            EvalErrV,
        >(e@)),
        final(st)@ == spec_builtin(name@, objs_view(args@), old(st)@).1,
{
    let ghost st0 = st@;
    let ghost argv = objs_view(args@);
    proof {
        assert(argv.len() == args@.len());
        if args@.len() > 0 {
            assert(argv[0] == args@[0]@);
        }
        if args@.len() > 1 {
            assert(argv[1] == args@[1]@);
        }
    }
    if *name == String::from_str("len") {
        if args.len() != 1 {
            return Err(EvalErr::ArgsCount(1, args.len()));
        }
        match &args[0] {
            Object::String(s) => {
                let n = char_count(s.as_str());
                Ok(Object::Number(clamp_len(n)))
            },
            Object::Array(h) => {
                proof {
                    assert(obj_wf(argv[0], st0.scopes.len() as int, st0.arrays.len() as int));
                    assert(arr_at(st0, *h as int) == st0.arrays[*h as int]);
                }
                let n = st.arrays[*h].len();
                Ok(Object::Number(clamp_len(n)))
            },
            other => Err(
                EvalErr::BuiltinArgsType(
                    String::from_str("len"),
                    String::from_str("String|Array"),
                    other.get_type(),
                ),
            ),
        }
    } else if *name == String::from_str("push") {
        if args.len() != 2 {
            return Err(EvalErr::ArgsCount(2, args.len()));
        }
        match &args[0] {
            Object::Array(h) => {
                proof {
                    assert(obj_wf(argv[0], st0.scopes.len() as int, st0.arrays.len() as int));
                }
                let v = object_clone(&args[1]);
                let out = object_clone(&args[1]);
                let buf = &mut st.arrays[*h];
                buf.push(v);
                proof {
                    let stv = spec_builtin(name@, argv, st0).1;
                    assert(st@.arrays =~~= stv.arrays);
                    assert(st@.scopes =~~= stv.scopes);
                    assert(st@ =~~= stv);
                    lemma_builtin_wf_after_update(st0, st@, *h as int, argv[1]);
                }
                Ok(out)
            },
            other => Err(
                EvalErr::BuiltinArgsType(
                    String::from_str("push"),
                    String::from_str("Array"),
                    other.get_type(),
                ),
            ),
        }
    } else if *name == String::from_str("pop") {
        if args.len() != 1 {
            return Err(EvalErr::ArgsCount(1, args.len()));
        }
        match &args[0] {
            Object::Array(h) => {
                proof {
                    assert(obj_wf(argv[0], st0.scopes.len() as int, st0.arrays.len() as int));
                }
                let buf = &mut st.arrays[*h];
                if buf.len() == 0 {
                    proof {
                        assert(st@ =~~= st0);
                    }
                    Ok(Object::Null)
                } else {
                    let out = match buf.pop() {
                        Some(x) => x,
                        None => Object::Null,
                    };
                    proof {
                        let stv = spec_builtin(name@, argv, st0).1;
                        assert(st@.arrays =~~= stv.arrays);
                        assert(st@.scopes =~~= stv.scopes);
                        assert(st@ =~~= stv);
                        assert(out@ == arr_at(st0, *h as int).last());
                        lemma_builtin_wf_shrink(st0, st@, *h as int);
                        assert(obj_wf(
                            out@,
                            st@.scopes.len() as int,
                            st@.arrays.len() as int,
                        ));
                    }
                    Ok(out)
                }
            },
            other => Err(
                EvalErr::BuiltinArgsType(
                    String::from_str("pop"),
                    String::from_str("Array"),
                    other.get_type(),
                ),
            ),
        }
    } else if *name == String::from_str("pop_left") {
        if args.len() != 1 {
            return Err(EvalErr::ArgsCount(1, args.len()));
        }
        match &args[0] {
            Object::Array(h) => {
                proof {
                    assert(obj_wf(argv[0], st0.scopes.len() as int, st0.arrays.len() as int));
                }
                let buf = &mut st.arrays[*h];
                if buf.len() == 0 {
                    proof {
                        assert(st@ =~~= st0);
                    }
                    Ok(Object::Null)
                } else {
                    let out = buf.remove(0);
                    proof {
                        let stv = spec_builtin(name@, argv, st0).1;
                        assert(st@.arrays[*h as int] =~= arr_at(st0, *h as int).drop_first());
                        assert(st@.arrays =~~= stv.arrays);
                        assert(st@.scopes =~~= stv.scopes);
                        assert(st@ =~~= stv);
                        assert(out@ == arr_at(st0, *h as int).first());
                        lemma_builtin_wf_shrink(st0, st@, *h as int);
                        assert(obj_wf(
                            out@,
                            st@.scopes.len() as int,
                            st@.arrays.len() as int,
                        ));
                    }
                    Ok(out)
                }
            },
            other => Err(
                EvalErr::BuiltinArgsType(
                    String::from_str("pop_left"),
                    String::from_str("Array"),
                    other.get_type(),
                ),
            ),
        }
    } else {
        let mut msg = name.clone();
        msg.append(" is not a builtin function");
        Err(EvalErr::NotImplemented(msg))
    }
}

/// Clamps a length to the language's integers.
fn clamp_len(n: usize) -> (r: i64)
    ensures
        r as int == spec_len_clamped(n as int),
{
    let n64 = n as u64;
    if n64 > i64::MAX as u64 {
        i64::MAX
    } else {
        n64 as i64
    }
}

/// A store stays well formed when one array gains a well-formed element.
proof fn lemma_builtin_wf_after_update(st0: StV, st1: StV, h: int, v: ObjV)
    requires
        st_wf(st0),
        0 <= h < st0.arrays.len(),
        obj_wf(v, st0.scopes.len() as int, st0.arrays.len() as int),
        st1.scopes == st0.scopes,
        st1.arrays == st0.arrays.update(h, st0.arrays[h].push(v)),
    ensures
        st_wf(st1),
{
    assert(st1.arrays.len() == st0.arrays.len());
    assert forall|a: int, i: int|
        0 <= a < st1.arrays.len() && 0 <= i < st1.arrays[a].len() implies obj_wf(
        #[trigger] st1.arrays[a][i],
        st1.scopes.len() as int,
        st1.arrays.len() as int,
    ) by {
        if a == h {
            assert(st1.arrays[h] == st0.arrays[h].push(v));
            assert(st1.arrays[h].len() == st0.arrays[h].len() + 1);
            if i == st0.arrays[h].len() {
                assert(st1.arrays[a][i] == v);
            } else {
                assert(st1.arrays[a][i] == st0.arrays[a][i]);
                assert(obj_wf(
                    st0.arrays[a][i],
                    st0.scopes.len() as int,
                    st0.arrays.len() as int,
                ));
            }
        } else {
            assert(st1.arrays[a] == st0.arrays[a]);
            assert(obj_wf(
                st0.arrays[a][i],
                st0.scopes.len() as int,
                st0.arrays.len() as int,
            ));
        }
    }
}

/// A store stays well formed when one array loses elements.
proof fn lemma_builtin_wf_shrink(st0: StV, st1: StV, h: int)
    requires
        st_wf(st0),
        0 <= h < st0.arrays.len(),
        st0.arrays[h].len() > 0,
        st1.scopes == st0.scopes,
        st1.arrays.len() == st0.arrays.len(),
        forall|a: int|
            0 <= a < st1.arrays.len() && a != h ==> #[trigger] st1.arrays[a] == st0.arrays[a],
        st1.arrays[h] == st0.arrays[h].drop_last() || st1.arrays[h] == st0.arrays[
            h
        ].drop_first(),
    ensures
        st_wf(st1),
{
    assert forall|a: int, i: int|
        0 <= a < st1.arrays.len() && 0 <= i < st1.arrays[a].len() implies obj_wf(
        #[trigger] st1.arrays[a][i],
        st1.scopes.len() as int,
        st1.arrays.len() as int,
    ) by {
        if a == h {
            if st1.arrays[h] == st0.arrays[h].drop_last() {
                assert(st1.arrays[a][i] == st0.arrays[a][i]);
                assert(obj_wf(
                    st0.arrays[a][i],
                    st0.scopes.len() as int,
                    st0.arrays.len() as int,
                ));
            } else {
                assert(st1.arrays[a][i] == st0.arrays[a][i + 1]);
                assert(obj_wf(
                    st0.arrays[a][i + 1],
                    st0.scopes.len() as int,
                    st0.arrays.len() as int,
                ));
            }
        } else {
            assert(st1.arrays[a][i] == st0.arrays[a][i]);
            assert(obj_wf(
                st0.arrays[a][i],
                st0.scopes.len() as int,
                st0.arrays.len() as int,
            ));
        }
    }
}

} // verus!
