//! The store: an arena of scopes and an arena of array buffers.
//!
//! Scopes form a tree through `outer` handles; closures capture a scope by
//! handle and arrays are aliased by handle, so mutation through one alias
//! is seen by all.  Lookups walk the outer chain, initialisation is local
//! to one scope, reassignment walks the chain and overwrites the nearest
//! binding.

use vstd::prelude::*;

use crate::errors::{EvalErr, EvalErrV};
use crate::object::{Object, ObjV, obj_view, object_clone, spec_obj_str};

verus! {

/// Mathematical view of one scope: its bindings in insertion order, and
/// the handle of the enclosing scope, if any.
#[verifier::ext_equal]
pub struct ScopeV {
    pub bindings: Seq<(Seq<char>, ObjV)>,
    pub outer: Option<int>,
}

/// Mathematical view of the store.
#[verifier::ext_equal]
pub struct StV {
    pub scopes: Seq<ScopeV>,
    pub arrays: Seq<Seq<ObjV>>,
}

/// One scope: bindings in insertion order, names unique, plus the handle
/// of the enclosing scope.
#[derive(Debug)]
pub struct Scope {
    pub bindings: Vec<(String, Object)>,
    pub outer: Option<usize>,
}

/// The store of all scopes and all array buffers.
#[derive(Debug)]
pub struct Environment {
    pub scopes: Vec<Scope>,
    pub arrays: Vec<Vec<Object>>,
}

/// The view of one scope's bindings.
pub open spec fn bindings_view(bs: Seq<(String, Object)>) -> Seq<(Seq<char>, ObjV)> {
    bs.map_values(|b: (String, Object)| (b.0@, b.1@))
}

/// The view of one scope.
pub open spec fn scope_view(s: Scope) -> ScopeV {
    ScopeV {
        bindings: bindings_view(s.bindings@),
        outer: match s.outer {
            Some(o) => Some(o as int),
            None => None,
        },
    }
}

impl View for Scope {
    type V = ScopeV;

    open spec fn view(&self) -> ScopeV {
        scope_view(*self)
    }
}

impl View for Environment {
    type V = StV;

    open spec fn view(&self) -> StV {
        StV {
            scopes: self.scopes@.map_values(|s: Scope| scope_view(s)),
            arrays: self.arrays@.map_values(|a: Vec<Object>| a@.map_values(|o: Object| obj_view(o))),
        }
    }
}

/// The index of the first binding of `key` at or after position `i`, or -1.
pub open spec fn find_from(bs: Seq<(Seq<char>, ObjV)>, key: Seq<char>, i: int) -> int
    decreases bs.len() - i,
{
    if i < 0 || i >= bs.len() {
        -1
    } else if bs[i].0 == key {
        i
    } else {
        find_from(bs, key, i + 1)
    }
}

/// The index of the first binding of `key` in a scope, or -1.
pub open spec fn find_index(bs: Seq<(Seq<char>, ObjV)>, key: Seq<char>) -> int {
    find_from(bs, key, 0)
}

/// What the first binding of `key` holds, if the scope binds it.
pub open spec fn scope_find(bs: Seq<(Seq<char>, ObjV)>, key: Seq<char>) -> Option<ObjV> {
    let i = find_index(bs, key);
    if i >= 0 {
        Some(bs[i].1)
    } else {
        None
    }
}

/// The search result lies in range and holds the key; every position the
/// search passed over does not.
pub proof fn lemma_find_from(bs: Seq<(Seq<char>, ObjV)>, key: Seq<char>, i: int)
    requires
        0 <= i,
    ensures
        find_from(bs, key, i) == -1 || find_from(bs, key, i) >= i,
        find_from(bs, key, i) >= 0 ==> i <= find_from(bs, key, i) < bs.len() && bs[find_from(
            bs,
            key,
            i,
        )].0 == key,
        find_from(bs, key, i) == -1 ==> forall|j: int| i <= j < bs.len() ==> (#[trigger] bs[j]).0
            != key,
        find_from(bs, key, i) >= 0 ==> forall|j: int|
            i <= j < find_from(bs, key, i) ==> (#[trigger] bs[j]).0 != key,
    decreases bs.len() - i,
{
    if i < bs.len() && bs[i].0 != key {
        lemma_find_from(bs, key, i + 1);
    }
}

/// The found index lies in range and holds the key; a negative answer
/// means no binding holds it.
pub proof fn lemma_find_index(bs: Seq<(Seq<char>, ObjV)>, key: Seq<char>)
    ensures
        find_index(bs, key) >= 0 ==> 0 <= find_index(bs, key) < bs.len() && bs[find_index(
            bs,
            key,
        )].0 == key,
        find_index(bs, key) == -1 ==> forall|i: int| 0 <= i < bs.len() ==> (#[trigger] bs[i]).0
            != key,
        find_index(bs, key) >= 0 ==> forall|i: int|
            0 <= i < find_index(bs, key) ==> (#[trigger] bs[i]).0 != key,
{
    lemma_find_from(bs, key, 0);
}

/// Looking a name up along the outer chain: the nearest scope that binds
/// it answers; a broken chain or an unbound name is an error.
pub open spec fn spec_env_get(st: StV, env: int, key: Seq<char>) -> Result<ObjV, EvalErrV>
    decreases env,
{
    if !(0 <= env < st.scopes.len()) {
        Err(EvalErrV::IdentifierNotFound(key))
    } else {
        let sc = st.scopes[env];
        match scope_find(sc.bindings, key) {
            Some(v) => Ok(v),
            None => match sc.outer {
                Some(o) => if 0 <= o < env {
                    spec_env_get(st, o, key)
                } else {
                    Err(EvalErrV::IdentifierNotFound(key))
                },
                None => Err(EvalErrV::IdentifierNotFound(key)),
            },
        }
    }
}

/// Initialising a name in one scope: an error when the scope already binds
/// it, else the binding is appended to that scope alone.
pub open spec fn spec_env_initiate(st: StV, env: int, key: Seq<char>, v: ObjV) -> (
    Result<ObjV, EvalErrV>,
    StV,
)
{
    if !(0 <= env < st.scopes.len()) {
        (Err(EvalErrV::AlreadyInitialized(key)), st)
    } else {
        let sc = st.scopes[env];
        if find_index(sc.bindings, key) >= 0 {
            (Err(EvalErrV::AlreadyInitialized(key)), st)
        } else {
            let sc2 = ScopeV { bindings: sc.bindings.push((key, v)), outer: sc.outer };
            (Ok(v), StV { scopes: st.scopes.update(env, sc2), arrays: st.arrays })
        }
    }
}

/// Reassigning a name along the outer chain: the nearest scope that binds
/// it is updated in place; an unbound name is an error and changes
/// nothing.
pub open spec fn spec_env_reassign(st: StV, env: int, key: Seq<char>, v: ObjV) -> (
    Result<ObjV, EvalErrV>,
    StV,
)
    decreases env,
{
    if !(0 <= env < st.scopes.len()) {
        (Err(EvalErrV::IdentifierNotFound(key)), st)
    } else {
        let sc = st.scopes[env];
        let i = find_index(sc.bindings, key);
        if i >= 0 {
            let sc2 = ScopeV { bindings: sc.bindings.update(i, (key, v)), outer: sc.outer };
            (Ok(v), StV { scopes: st.scopes.update(env, sc2), arrays: st.arrays })
        } else {
            match sc.outer {
                Some(o) => if 0 <= o < env {
                    spec_env_reassign(st, o, key, v)
                } else {
                    (Err(EvalErrV::IdentifierNotFound(key)), st)
                },
                None => (Err(EvalErrV::IdentifierNotFound(key)), st),
            }
        }
    }
}

/// The buffer an array handle names; out-of-range handles read as empty.
pub open spec fn arr_at(st: StV, h: int) -> Seq<ObjV> {
    if 0 <= h < st.arrays.len() {
        st.arrays[h]
    } else {
        Seq::empty()
    }
}

/// The textual form of a value seen through the store: an array renders
/// as its comma-space-joined elements inside brackets, following handles,
/// with a depth bound keeping the walk finite on self-referential arrays;
/// an early-return marker renders as its payload; every other value
/// renders as `spec_obj_str` gives it.
pub open spec fn spec_render_value(st: StV, o: ObjV, depth: nat) -> Seq<char>
    decreases depth, o, 1int,
{
    match o {
        ObjV::Array(h) => {
            if depth == 0 {
                "[...]"@
            } else {
                "["@ + spec_render_elems(st, arr_at(st, h), 0, (depth - 1) as nat) + "]"@
            }
        },
        ObjV::Return(r) => spec_render_value(st, *r, depth),
        _ => spec_obj_str(o),
    }
}

/// The renderings of a buffer's elements from index `i` on, joined by
/// comma-space.
pub open spec fn spec_render_elems(st: StV, elems: Seq<ObjV>, i: int, depth: nat) -> Seq<char>
    decreases depth, elems, elems.len() - i,
{
    if i < 0 || i >= elems.len() {
        Seq::empty()
    } else if i == elems.len() - 1 {
        spec_render_value(st, elems[i], depth)
    } else {
        spec_render_value(st, elems[i], depth) + ", "@ + spec_render_elems(
            st,
            elems,
            i + 1,
            depth,
        )
    }
}

/// Appending a binding of a name no binding holds puts its first
/// occurrence at the end.
proof fn lemma_find_from_push(bs: Seq<(Seq<char>, ObjV)>, key: Seq<char>, v: ObjV, i: int)
    requires
        0 <= i <= bs.len(),
        find_from(bs, key, i) == -1,
    ensures
        find_from(bs.push((key, v)), key, i) == bs.len(),
    decreases bs.len() - i,
{
    let pushed = bs.push((key, v));
    if i < bs.len() {
        assert(pushed[i] == bs[i]);
        lemma_find_from_push(bs, key, v, i + 1);
    } else {
        assert(pushed[i] == (key, v));
    }
}

/// Overwriting the first binding of a name in place leaves it the first
/// binding of that name.
proof fn lemma_find_from_update(bs: Seq<(Seq<char>, ObjV)>, key: Seq<char>, v: ObjV, j: int)
    requires
        0 <= j <= find_from(bs, key, 0),
        find_from(bs, key, 0) >= 0,
        find_from(bs, key, j) == find_from(bs, key, 0),
    ensures
        find_from(bs.update(find_from(bs, key, 0), (key, v)), key, j) == find_from(bs, key, 0),
    decreases bs.len() - j,
{
    let i = find_from(bs, key, 0);
    let upd = bs.update(i, (key, v));
    lemma_find_from(bs, key, 0);
    if j < i {
        assert(upd[j] == bs[j]);
        assert(bs[j].0 != key);
        lemma_find_from_update(bs, key, v, j + 1);
    } else {
        assert(upd[i] == (key, v));
    }
}

/// A name bound by `initiate` reads back as the bound value: after
/// `let x = v`, looking `x` up in the same scope yields `v`.
pub proof fn lemma_get_after_initiate(st: StV, env: int, key: Seq<char>, v: ObjV)
    requires
        0 <= env < st.scopes.len(),
        spec_env_initiate(st, env, key, v).0 is Ok,
    ensures
        spec_env_get(spec_env_initiate(st, env, key, v).1, env, key) == Ok::<ObjV, EvalErrV>(v),
{
    let bs = st.scopes[env].bindings;
    let st1 = spec_env_initiate(st, env, key, v).1;
    lemma_find_from(bs, key, 0);
    assert(find_index(bs, key) == -1);
    lemma_find_from_push(bs, key, v, 0);
    assert(st1.scopes[env].bindings == bs.push((key, v)));
    assert(st1.scopes[env].bindings[bs.len() as int] == (key, v));
    assert(scope_find(st1.scopes[env].bindings, key) == Some(v));
}

/// A name overwritten by `reassign` reads back as the new value: after
/// `x = w`, looking `x` up from the same scope yields `w`.
pub proof fn lemma_get_after_reassign(st: StV, env: int, key: Seq<char>, v: ObjV)
    requires
        0 <= env < st.scopes.len(),
        spec_env_reassign(st, env, key, v).0 is Ok,
    ensures
        spec_env_get(spec_env_reassign(st, env, key, v).1, env, key) == Ok::<ObjV, EvalErrV>(v),
    decreases env,
{
    let sc = st.scopes[env];
    let bs = sc.bindings;
    let i = find_index(bs, key);
    let st1 = spec_env_reassign(st, env, key, v).1;
    if i >= 0 {
        lemma_find_from(bs, key, 0);
        lemma_find_from_update(bs, key, v, 0);
        assert(st1.scopes[env].bindings == bs.update(i, (key, v)));
        assert(st1.scopes[env].bindings[i] == (key, v));
        assert(scope_find(st1.scopes[env].bindings, key) == Some(v));
    } else {
        match sc.outer {
            Some(o) => {
                if 0 <= o < env {
                    lemma_get_after_reassign(st, o, key, v);
                    lemma_reassign_shape(st, o, key, v);
                    assert(st1.scopes[env as int] == st.scopes[env as int]);
                    assert(spec_env_get(st1, env, key) == spec_env_get(st1, o, key));
                }
            },
            None => {},
        }
    }
}

/// Reassignment never adds or removes scopes or arrays: it only updates
/// one binding in place.
pub proof fn lemma_reassign_shape(st: StV, env: int, key: Seq<char>, v: ObjV)
    ensures
        spec_env_reassign(st, env, key, v).1.scopes.len() == st.scopes.len(),
        spec_env_reassign(st, env, key, v).1.arrays == st.arrays,
        forall|s: int|
            env < s < st.scopes.len() ==> #[trigger] spec_env_reassign(
                st,
                env,
                key,
                v,
            ).1.scopes[s] == st.scopes[s],
    decreases env,
{
    if 0 <= env < st.scopes.len() {
        let sc = st.scopes[env];
        if find_index(sc.bindings, key) < 0 {
            match sc.outer {
                Some(o) => {
                    if 0 <= o < env {
                        lemma_reassign_shape(st, o, key, v);
                    }
                },
                None => {},
            }
        }
    }
}

/// A value's handles lie inside the store's arenas.
pub open spec fn obj_wf(o: ObjV, ns: int, na: int) -> bool
    decreases o,
{
    match o {
        ObjV::Array(h) => 0 <= h < na,
        ObjV::Function(_, _, e) => 0 <= e < ns,
        ObjV::Return(b) => obj_wf(*b, ns, na),
        _ => true,
    }
}

/// Every binding of a scope holds a well-formed value, and the outer
/// handle points to an earlier scope.
pub open spec fn scope_wf(sc: ScopeV, me: int, ns: int, na: int) -> bool {
    &&& (match sc.outer {
        Some(o) => 0 <= o < me,
        None => true,
    })
    &&& forall|i: int| 0 <= i < sc.bindings.len() ==> obj_wf((#[trigger] sc.bindings[i]).1, ns, na)
}

/// The store is well formed: at least the global scope exists, every
/// scope's outer handle points backwards, and every stored value's handles
/// lie inside the arenas.
pub open spec fn st_wf(st: StV) -> bool {
    &&& st.scopes.len() >= 1
    &&& forall|s: int|
        0 <= s < st.scopes.len() ==> scope_wf(
            #[trigger] st.scopes[s],
            s,
            st.scopes.len() as int,
            st.arrays.len() as int,
        )
    &&& forall|a: int, i: int|
        0 <= a < st.arrays.len() && 0 <= i < st.arrays[a].len() ==> obj_wf(
            #[trigger] st.arrays[a][i],
            st.scopes.len() as int,
            st.arrays.len() as int,
        )
}

/// Well-formedness of a value is kept when the arenas only grow.
pub proof fn lemma_obj_wf_grow(o: ObjV, ns1: int, na1: int, ns2: int, na2: int)
    requires
        obj_wf(o, ns1, na1),
        ns1 <= ns2,
        na1 <= na2,
    ensures
        obj_wf(o, ns2, na2),
    decreases o,
{
    match o {
        ObjV::Return(b) => {
            lemma_obj_wf_grow(*b, ns1, na1, ns2, na2);
        },
        _ => {},
    }
}

impl Environment {
    /// A fresh store: one empty global scope and no arrays.
    pub fn new() -> (r: Self)
        ensures
            st_wf(r@),
            r@.scopes.len() == 1,
            r@.scopes[0].bindings == Seq::<(Seq<char>, ObjV)>::empty(),
            r@.scopes[0].outer is None,
            r@.arrays.len() == 0,
    {
        let mut scopes: Vec<Scope> = Vec::new();
        scopes.push(Scope { bindings: Vec::new(), outer: None });
        let r = Environment { scopes, arrays: Vec::new() };
        proof {
            assert(bindings_view(r.scopes@[0].bindings@) =~= Seq::<(Seq<char>, ObjV)>::empty());
            assert(r@.scopes =~= seq![scope_view(r.scopes@[0])]);
            assert(r@.arrays =~= Seq::<Seq<ObjV>>::empty());
        }
        r
    }

    /// Pushes a fresh scope whose outer scope is `outer`, and hands back
    /// its handle.
    pub fn new_with_outer(&mut self, outer: usize) -> (h: usize)
        requires
            st_wf(old(self)@),
            outer < old(self)@.scopes.len(),
        ensures
            st_wf(final(self)@),
            h as int == old(self)@.scopes.len(),
            final(self)@.scopes == old(self)@.scopes.push(
                ScopeV { bindings: Seq::empty(), outer: Some(outer as int) },
            ),
            final(self)@.arrays == old(self)@.arrays,
    {
        let h = self.scopes.len();
        self.scopes.push(Scope { bindings: Vec::new(), outer: Some(outer) });
        proof {
            assert(bindings_view(Seq::<(String, Object)>::empty()) =~= Seq::<
                (Seq<char>, ObjV),
            >::empty());
            assert(final(self)@.scopes =~= old(self)@.scopes.push(
                ScopeV { bindings: Seq::empty(), outer: Some(outer as int) },
            ));
            assert(final(self)@.arrays =~= old(self)@.arrays);
            assert forall|s: int|
                0 <= s < final(self)@.scopes.len() implies scope_wf(
                #[trigger] final(self)@.scopes[s],
                s,
                final(self)@.scopes.len() as int,
                final(self)@.arrays.len() as int,
            ) by {
                if s < old(self)@.scopes.len() {
                    assert(scope_wf(
                        old(self)@.scopes[s],
                        s,
                        old(self)@.scopes.len() as int,
                        old(self)@.arrays.len() as int,
                    ));
                    assert forall|i: int|
                        0 <= i < final(self)@.scopes[s].bindings.len() implies obj_wf(
                        (#[trigger] final(self)@.scopes[s].bindings[i]).1,
                        final(self)@.scopes.len() as int,
                        final(self)@.arrays.len() as int,
                    ) by {
                        lemma_obj_wf_grow(
                            final(self)@.scopes[s].bindings[i].1,
                            old(self)@.scopes.len() as int,
                            old(self)@.arrays.len() as int,
                            final(self)@.scopes.len() as int,
                            final(self)@.arrays.len() as int,
                        );
                    }
                }
            }
            assert forall|a: int, i: int|
                0 <= a < final(self)@.arrays.len() && 0 <= i < final(self)@.arrays[a].len()
                implies obj_wf(
                #[trigger] final(self)@.arrays[a][i],
                final(self)@.scopes.len() as int,
                final(self)@.arrays.len() as int,
            ) by {
                lemma_obj_wf_grow(
                    final(self)@.arrays[a][i],
                    old(self)@.scopes.len() as int,
                    old(self)@.arrays.len() as int,
                    final(self)@.scopes.len() as int,
                    final(self)@.arrays.len() as int,
                );
            }
        }
        h
    }

    /// Finds the binding of `key` in the scope `env` alone: its index, or
    /// the scope's size when there is none.
    fn find_local(&self, env: usize, key: &String) -> (r: usize)
        requires
            env < self@.scopes.len(),
        ensures
            ({
                let bs = self@.scopes[env as int].bindings;
                if find_index(bs, key@) >= 0 {
                    r as int == find_index(bs, key@)
                } else {
                    r as int == bs.len()
                }
            }),
    {
        let ghost bs = self@.scopes[env as int].bindings;
        let sc = &self.scopes[env];
        let n = sc.bindings.len();
        proof {
            assert(bs.len() == n);
        }
        let mut i: usize = 0;
        while i < n
            invariant
                env < self@.scopes.len(),
                bs == self@.scopes[env as int].bindings,
                sc == self.scopes@[env as int],
                n == sc.bindings@.len(),
                bs.len() == n,
                0 <= i <= n,
                find_from(bs, key@, 0) == find_from(bs, key@, i as int),
            decreases n - i,
        {
            proof {
                assert(bs[i as int] == (sc.bindings@[i as int].0@, sc.bindings@[i as int].1@));
            }
            if sc.bindings[i].0 == *key {
                proof {
                    assert(find_from(bs, key@, i as int) == i);
                }
                return i;
            }
            i = i + 1;
        }
        proof {
            assert(find_from(bs, key@, n as int) == -1);
        }
        n
    }

    /// Binds `key` in the scope `env` alone; an error when that scope
    /// already binds it.  Outer scopes are not consulted.
    pub fn initiate(&mut self, env: usize, key: String, value: Object) -> (r: Result<
        Object,
        EvalErr,
    >)
        requires
            st_wf(old(self)@),
            env < old(self)@.scopes.len(),
            obj_wf(value@, old(self)@.scopes.len() as int, old(self)@.arrays.len() as int),
        ensures
            st_wf(final(self)@),
            (r matches Ok(v) ==> spec_env_initiate(old(self)@, env as int, key@, value@).0
                == Ok::<ObjV, EvalErrV>(v@)),
            (r matches Err(e) ==> spec_env_initiate(old(self)@, env as int, key@, value@).0
                == Err::<ObjV, EvalErrV>(e@)),
            final(self)@ == spec_env_initiate(old(self)@, env as int, key@, value@).1,
    {
        let ghost st0 = self@;
        let idx = self.find_local(env, &key);
        let n = self.scopes[env].bindings.len();
        if idx < n {
            return Err(EvalErr::AlreadyInitialized(key));
        }
        proof {
            lemma_find_index(st0.scopes[env as int].bindings, key@);
        }
        let out = object_clone(&value);
        let sc = &mut self.scopes[env];
        sc.bindings.push((key, value));
        proof {
            let stv = spec_env_initiate(st0, env as int, key@, value@).1;
            assert(bindings_view(self.scopes@[env as int].bindings@) =~= st0.scopes[
                env as int
            ].bindings.push((key@, value@)));
            assert(self@.scopes =~= stv.scopes);
            assert(self@.arrays =~= stv.arrays);
            assert(self@ == stv);
            assert forall|s: int|
                0 <= s < self@.scopes.len() implies scope_wf(
                #[trigger] self@.scopes[s],
                s,
                self@.scopes.len() as int,
                self@.arrays.len() as int,
            ) by {
                assert(scope_wf(
                    st0.scopes[s],
                    s,
                    st0.scopes.len() as int,
                    st0.arrays.len() as int,
                ));
                if s == env as int {
                    assert forall|i: int|
                        0 <= i < self@.scopes[s].bindings.len() implies obj_wf(
                        (#[trigger] self@.scopes[s].bindings[i]).1,
                        self@.scopes.len() as int,
                        self@.arrays.len() as int,
                    ) by {
                        if i < st0.scopes[s].bindings.len() {
                            assert(self@.scopes[s].bindings[i] == st0.scopes[s].bindings[i]);
                        } else {
                            assert(self@.scopes[s].bindings[i].1 == value@);
                        }
                    }
                }
            }
        }
        Ok(out)
    }

    /// The value bound to `key` in the nearest scope, walking the outer
    /// chain from `env`; an error when no scope binds it.
    pub fn get(&self, env: usize, key: &String) -> (r: Result<Object, EvalErr>)
        requires
            st_wf(self@),
            env < self@.scopes.len(),
        ensures
            (r matches Ok(v) ==> spec_env_get(self@, env as int, key@) == Ok::<ObjV, EvalErrV>(
                v@,
            ) && obj_wf(v@, self@.scopes.len() as int, self@.arrays.len() as int)),
            (r matches Err(e) ==> spec_env_get(self@, env as int, key@) == Err::<
                ObjV,
                EvalErrV,
            >(e@)),
        decreases env,
    {
        let idx = self.find_local(env, key);
        let sc = &self.scopes[env];
        let n = sc.bindings.len();
        proof {
            lemma_find_index(self@.scopes[env as int].bindings, key@);
        }
        if idx < n {
            proof {
                assert(bindings_view(sc.bindings@)[idx as int] == (
                    sc.bindings@[idx as int].0@,
                    sc.bindings@[idx as int].1@,
                ));
            }
            return Ok(object_clone(&sc.bindings[idx].1));
        }
        match sc.outer {
            Some(o) => {
                proof {
                    assert(scope_wf(
                        self@.scopes[env as int],
                        env as int,
                        self@.scopes.len() as int,
                        self@.arrays.len() as int,
                    ));
                }
                self.get(o, key)
            },
            None => Err(EvalErr::IdentifierNotFound(key.clone())),
        }
    }

    /// Renders a value through the store, exactly as `spec_render_value`
    /// gives it.
    #[verifier::loop_isolation(false)]
    #[verifier::rlimit(60)]
    pub fn render_value(&self, o: &Object, depth: u32) -> (r: String)
        requires
            st_wf(self@),
            obj_wf(o@, self@.scopes.len() as int, self@.arrays.len() as int),
        ensures
            r@ == spec_render_value(self@, o@, depth as nat),
        decreases depth, o,
    {
        match o {
            Object::Array(h) => {
                if depth == 0 {
                    String::from_str("[...]")
                } else {
                    let ghost d = (depth - 1) as nat;
                    let ghost elems = arr_at(self@, *h as int);
                    proof {
                        assert(elems == self@.arrays[*h as int]);
                    }
                    let mut out = String::from_str("[");
                    let n = self.arrays[*h].len();
                    let mut i: usize = 0;
                    while i < n
                        invariant
                            n == elems.len(),
                            0 <= i <= n,
                            i < n ==> out@ + spec_render_elems(self@, elems, i as int, d)
                                == "["@ + spec_render_elems(self@, elems, 0, d),
                            i == n ==> out@ == "["@ + spec_render_elems(self@, elems, 0, d),
                        decreases n - i,
                    {
                        proof {
                            assert(obj_wf(
                                self@.arrays[*h as int][i as int],
                                self@.scopes.len() as int,
                                self@.arrays.len() as int,
                            ));
                        }
                        let piece = self.render_value(&self.arrays[*h][i], depth - 1);
                        out.append(piece.as_str());
                        if i + 1 < n {
                            out.append(", ");
                        }
                        i = i + 1;
                    }
                    out.append("]");
                    out
                }
            },
            Object::Return(b) => {
                proof {
                    assert(obj_wf(
                        b@,
                        self@.scopes.len() as int,
                        self@.arrays.len() as int,
                    ));
                }
                self.render_value(b, depth)
            },
            other => other.to_string(),
        }
    }

    /// Overwrites the binding of `key` in the nearest scope, walking the
    /// outer chain from `env`; an error, and no change, when no scope
    /// binds it.  New bindings are never created.
    pub fn reassign(&mut self, env: usize, key: &String, value: Object) -> (r: Result<
        Object,
        EvalErr,
    >)
        requires
            st_wf(old(self)@),
            env < old(self)@.scopes.len(),
            obj_wf(value@, old(self)@.scopes.len() as int, old(self)@.arrays.len() as int),
        ensures
            st_wf(final(self)@),
            (r matches Ok(v) ==> spec_env_reassign(old(self)@, env as int, key@, value@).0
                == Ok::<ObjV, EvalErrV>(v@)),
            (r matches Err(e) ==> spec_env_reassign(old(self)@, env as int, key@, value@).0
                == Err::<ObjV, EvalErrV>(e@)),
            final(self)@ == spec_env_reassign(old(self)@, env as int, key@, value@).1,
        decreases env,
    {
        let ghost st0 = self@;
        let idx = self.find_local(env, key);
        let n = self.scopes[env].bindings.len();
        proof {
            lemma_find_index(st0.scopes[env as int].bindings, key@);
        }
        if idx < n {
            let out = object_clone(&value);
            let k = key.clone();
            let sc = &mut self.scopes[env];
            sc.bindings.set(idx, (k, value));
            proof {
                let i = find_index(st0.scopes[env as int].bindings, key@);
                let sc2 = ScopeV {
                    bindings: st0.scopes[env as int].bindings.update(i, (key@, value@)),
                    outer: st0.scopes[env as int].outer,
                };
                let stv = StV { scopes: st0.scopes.update(env as int, sc2), arrays: st0.arrays };
                assert(bindings_view(self.scopes@[env as int].bindings@) =~= sc2.bindings);
                assert(self@.scopes =~= stv.scopes);
                assert(self@.arrays =~= stv.arrays);
                assert(self@ == stv);
                assert forall|s: int|
                    0 <= s < self@.scopes.len() implies scope_wf(
                    #[trigger] self@.scopes[s],
                    s,
                    self@.scopes.len() as int,
                    self@.arrays.len() as int,
                ) by {
                    assert(scope_wf(
                        st0.scopes[s],
                        s,
                        st0.scopes.len() as int,
                        st0.arrays.len() as int,
                    ));
                    if s == env as int {
                        assert forall|j: int|
                            0 <= j < self@.scopes[s].bindings.len() implies obj_wf(
                            (#[trigger] self@.scopes[s].bindings[j]).1,
                            self@.scopes.len() as int,
                            self@.arrays.len() as int,
                        ) by {
                            if j != i {
                                assert(self@.scopes[s].bindings[j] == st0.scopes[s].bindings[j]);
                            } else {
                                assert(self@.scopes[s].bindings[j].1 == value@);
                            }
                        }
                    }
                }
            }
            return Ok(out);
        }
        let outer_opt = self.scopes[env].outer;
        match outer_opt {
            Some(o) => {
                proof {
                    assert(scope_wf(
                        st0.scopes[env as int],
                        env as int,
                        st0.scopes.len() as int,
                        st0.arrays.len() as int,
                    ));
                }
                self.reassign(o, key, value)
            },
            None => Err(EvalErr::IdentifierNotFound(key.clone())),
        }
    }
}

} // verus!
