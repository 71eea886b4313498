//! The binding environment: an ordered sequence of variable scopes. The
//! outermost/session scope lives for the whole interpreter instance and
//! accumulates every top-level binding; calls evaluate their bodies in a
//! fresh one-scope environment holding only the parameters.

use vstd::prelude::*;
use crate::ast::LocalItemId;

verus! {

/// One variable binding.
#[derive(Clone, Copy, PartialEq, Eq, Structural, Debug)]
pub struct Binding {
    pub name: LocalItemId,
    pub value: i64,
}

/// One scope: later bindings shadow earlier ones of the same name.
#[derive(Debug)]
pub struct Scope {
    bindings: Vec<Binding>,
}

/// The content of a scope as a map; the last binding of a name wins.
pub open spec fn scope_map(s: Seq<Binding>) -> Map<int, i64>
    decreases s.len(),
{
    if s.len() == 0 {
        Map::empty()
    } else {
        scope_map(s.drop_last()).insert(s.last().name as int, s.last().value)
    }
}

/// The innermost-first lookup over a sequence of scope contents.
pub open spec fn env_lookup_v(env: Seq<Map<int, i64>>, x: int) -> Option<i64>
    decreases env.len(),
{
    if env.len() == 0 {
        None
    } else if env.last().dom().contains(x) {
        Some(env.last()[x])
    } else {
        env_lookup_v(env.drop_last(), x)
    }
}

/// Overwrites the innermost binding of `x`, or reports that none exists.
pub open spec fn env_assign_v(env: Seq<Map<int, i64>>, x: int, v: i64) -> Option<
    Seq<Map<int, i64>>,
>
    decreases env.len(),
{
    if env.len() == 0 {
        None
    } else if env.last().dom().contains(x) {
        Some(env.drop_last().push(env.last().insert(x, v)))
    } else {
        match env_assign_v(env.drop_last(), x, v) {
            Some(e) => Some(e.push(env.last())),
            None => None,
        }
    }
}

/// Binds `x` in the innermost scope of a non-empty environment.
pub open spec fn env_bind_v(env: Seq<Map<int, i64>>, x: int, v: i64) -> Seq<Map<int, i64>>
    recommends
        env.len() > 0,
{
    env.update(env.len() - 1, env.last().insert(x, v))
}

/// The scope a call's body runs in: each parameter bound to its argument.
pub open spec fn params_scope(params: Seq<LocalItemId>, vals: Seq<i64>) -> Map<int, i64>
    recommends
        params.len() == vals.len(),
    decreases params.len(),
{
    if params.len() == 0 {
        Map::empty()
    } else {
        params_scope(params.drop_last(), vals.drop_last()).insert(
            params.last() as int,
            vals.last(),
        )
    }
}

impl Scope {
    /// The scope's content as a map.
    pub closed spec fn view(&self) -> Map<int, i64> {
        scope_map(self.bindings@)
    }

    fn new() -> (r: Scope)
        ensures
            r@ == Map::<int, i64>::empty(),
    {
        Scope { bindings: Vec::new() }
    }

    /// Adds a binding; it shadows any earlier one of the same name.
    fn bind(&mut self, name: LocalItemId, value: i64)
        ensures
            final(self)@ == old(self)@.insert(name as int, value),
    {
        self.bindings.push(Binding { name, value });
        proof {
            assert(self.bindings@.drop_last() =~= old(self).bindings@);
        }
    }

    /// Reads the visible (last) binding of `name`, if any.
    fn lookup(&self, name: LocalItemId) -> (r: Option<i64>)
        ensures
            match r {
                Some(v) => self@.dom().contains(name as int) && self@[name as int] == v,
                None => !self@.dom().contains(name as int),
            },
    {
        let mut i: usize = self.bindings.len();
        proof {
            assert(self.bindings@.take(i as int) =~= self.bindings@);
        }
        while i > 0
            invariant
                i <= self.bindings@.len(),
                scope_map(self.bindings@.take(i as int)).dom().contains(name as int) == self@.dom(
                ).contains(name as int),
                scope_map(self.bindings@.take(i as int)).dom().contains(name as int)
                    ==> scope_map(self.bindings@.take(i as int))[name as int] == self@[name as int],
            decreases i,
        {
            i = i - 1;
            let b = self.bindings[i];
            proof {
                assert(self.bindings@.take(i + 1).drop_last() =~= self.bindings@.take(i as int));
                assert(self.bindings@.take(i + 1).last() == b);
            }
            if b.name == name {
                return Some(b.value);
            }
        }
        proof {
            assert(self.bindings@.take(0) =~= Seq::<Binding>::empty());
        }
        None
    }
}

/// The ordered sequence of scopes; index 0 is the outermost/session scope,
/// which is never discarded for the lifetime of the interpreter instance.
#[derive(Debug)]
pub struct Env {
    scopes: Vec<Scope>,
}

impl Env {
    /// The environment's content, outermost scope first.
    pub closed spec fn view(&self) -> Seq<Map<int, i64>> {
        Seq::new(self.scopes@.len(), |i: int| self.scopes@[i]@)
    }

    /// An environment holding one empty scope.
    pub fn with_empty_scope() -> (r: Env)
        ensures
            r@ =~= seq![Map::<int, i64>::empty()],
    {
        let mut scopes: Vec<Scope> = Vec::new();
        scopes.push(Scope::new());
        Env { scopes }
    }

    /// An environment holding exactly the given scope, for a call's body.
    pub fn with_scope(scope: Scope) -> (r: Env)
        ensures
            r@ =~= seq![scope@],
    {
        let mut scopes: Vec<Scope> = Vec::new();
        scopes.push(scope);
        Env { scopes }
    }

    /// The one-scope environment for a call's body: only the parameters.
    pub fn for_params(params: &Vec<LocalItemId>, vals: &Vec<i64>) -> (r: Env)
        requires
            params@.len() == vals@.len(),
        ensures
            r@ =~= seq![params_scope(params@, vals@)],
    {
        let mut scope = Scope::new();
        let mut i: usize = 0;
        while i < params.len()
            invariant
                i <= params@.len(),
                params@.len() == vals@.len(),
                scope@ == params_scope(params@.take(i as int), vals@.take(i as int)),
            decreases params@.len() - i,
        {
            scope.bind(params[i], vals[i]);
            i = i + 1;
            proof {
                assert(params@.take(i as int).drop_last() =~= params@.take(i - 1));
                assert(vals@.take(i as int).drop_last() =~= vals@.take(i - 1));
            }
        }
        proof {
            assert(params@.take(params@.len() as int) =~= params@);
            assert(vals@.take(vals@.len() as int) =~= vals@);
        }
        Env::with_scope(scope)
    }

    /// Reads the innermost visible binding of `name`.
    pub fn lookup(&self, name: LocalItemId) -> (r: Option<i64>)
        ensures
            r == env_lookup_v(self@, name as int),
    {
        let mut i: usize = self.scopes.len();
        proof {
            assert(self@.take(i as int) =~= self@);
        }
        while i > 0
            invariant
                i <= self.scopes@.len(),
                env_lookup_v(self@.take(i as int), name as int) == env_lookup_v(
                    self@,
                    name as int,
                ),
            decreases i,
        {
            i = i - 1;
            proof {
                assert(self@.take(i + 1).drop_last() =~= self@.take(i as int));
                assert(self@.take(i + 1).last() == self.scopes@[i as int]@);
            }
            match self.scopes[i].lookup(name) {
                Some(v) => {
                    return Some(v);
                },
                None => {},
            }
        }
        proof {
            assert(self@.take(0) =~= Seq::<Map<int, i64>>::empty());
        }
        None
    }

    /// Binds `name` in the innermost scope.
    pub fn bind(&mut self, name: LocalItemId, value: i64)
        requires
            old(self)@.len() > 0,
        ensures
            final(self)@ =~= env_bind_v(old(self)@, name as int, value),
    {
        let last = self.scopes.len() - 1;
        let mut sc = self.scopes.remove(last);
        sc.bind(name, value);
        self.scopes.insert(last, sc);
        proof {
            assert(self@ =~= env_bind_v(old(self)@, name as int, value));
        }
    }

    /// Overwrites the innermost existing binding of `name`; returns whether
    /// one existed.
    pub fn assign(&mut self, name: LocalItemId, value: i64) -> (r: bool)
        ensures
            match env_assign_v(old(self)@, name as int, value) {
                Some(e) => r && final(self)@ =~= e,
                None => !r && final(self)@ =~= old(self)@,
            },
    {
        let mut i: usize = self.scopes.len();
        while i > 0
            invariant
                i <= self.scopes@.len(),
                forall|j: int|
                    i <= j < self@.len() ==> !(#[trigger] self@[j]).dom().contains(name as int),
                self@ == old(self)@,
            decreases i,
        {
            i = i - 1;
            let found = match self.scopes[i].lookup(name) {
                Some(_) => true,
                None => false,
            };
            if found {
                let mut sc = self.scopes.remove(i);
                sc.bind(name, value);
                self.scopes.insert(i, sc);
                proof {
                    assert(self@ =~= old(self)@.update(
                        i as int,
                        old(self)@[i as int].insert(name as int, value),
                    ));
                    lemma_env_assign_at(old(self)@, name as int, value, i as int);
                }
                return true;
            }
        }
        proof {
            lemma_env_assign_absent(self@, name as int, value);
        }
        false
    }
}

/// If every scope at or above `j` lacks `x` except that scope `j` has it,
/// assignment updates exactly scope `j`.
proof fn lemma_env_assign_at(env: Seq<Map<int, i64>>, x: int, v: i64, j: int)
    requires
        0 <= j < env.len(),
        env[j].dom().contains(x),
        forall|k: int| j < k < env.len() ==> !(#[trigger] env[k]).dom().contains(x),
    ensures
        env_assign_v(env, x, v) == Some(env.update(j, env[j].insert(x, v))),
    decreases env.len(),
{
    if j == env.len() - 1 {
        assert(env.drop_last().push(env.last().insert(x, v)) =~= env.update(
            j,
            env[j].insert(x, v),
        ));
    } else {
        lemma_env_assign_at(env.drop_last(), x, v, j);
        assert(env.drop_last().update(j, env[j].insert(x, v)).push(env.last()) =~= env.update(
            j,
            env[j].insert(x, v),
        ));
    }
}

/// Assignment never adds or drops a scope.
pub proof fn lemma_env_assign_len(env: Seq<Map<int, i64>>, x: int, v: i64)
    ensures
        env_assign_v(env, x, v) matches Some(e) ==> e.len() == env.len(),
    decreases env.len(),
{
    if env.len() > 0 && !env.last().dom().contains(x) {
        lemma_env_assign_len(env.drop_last(), x, v);
    }
}

/// Assignment never removes a name from any scope.
pub proof fn lemma_env_assign_dom(env: Seq<Map<int, i64>>, x: int, v: i64)
    ensures
        env_assign_v(env, x, v) matches Some(e) ==> forall|k: int, y: int|
            0 <= k < env.len() && (#[trigger] env[k].dom().contains(y)) ==> e[k].dom().contains(
                y,
            ),
    decreases env.len(),
{
    if env.len() > 0 {
        if env.last().dom().contains(x) {
            let e = env.drop_last().push(env.last().insert(x, v));
            assert forall|k: int, y: int|
                0 <= k < env.len() && env[k].dom().contains(y) implies e[k].dom().contains(
                y,
            ) by {
                if k < env.len() - 1 {
                    assert(e[k] == env[k]);
                } else {
                    assert(e[k] == env.last().insert(x, v));
                }
            }
        } else {
            lemma_env_assign_len(env.drop_last(), x, v);
            lemma_env_assign_dom(env.drop_last(), x, v);
            match env_assign_v(env.drop_last(), x, v) {
                Some(e1) => {
                    let e = e1.push(env.last());
                    assert forall|k: int, y: int|
                        0 <= k < env.len() && env[k].dom().contains(y) implies e[k].dom().contains(
                        y,
                    ) by {
                        if k < env.len() - 1 {
                            assert(env.drop_last()[k].dom().contains(y));
                            assert(e[k] == e1[k]);
                        } else {
                            assert(e[k] == env.last());
                        }
                    }
                },
                None => {},
            }
        }
    }
}

/// A name some scope binds is readable, and assignable with any value.
pub proof fn lemma_bound_name_usable(env: Seq<Map<int, i64>>, x: int, v: i64)
    requires
        exists|k: int| 0 <= k < env.len() && (#[trigger] env[k]).dom().contains(x),
    ensures
        env_lookup_v(env, x) is Some,
        env_assign_v(env, x, v) is Some,
    decreases env.len(),
{
    if !env.last().dom().contains(x) {
        let k = choose|k: int| 0 <= k < env.len() && (#[trigger] env[k]).dom().contains(x);
        assert(env.drop_last()[k].dom().contains(x));
        lemma_bound_name_usable(env.drop_last(), x, v);
    }
}

/// If no scope binds `x`, assignment fails.
proof fn lemma_env_assign_absent(env: Seq<Map<int, i64>>, x: int, v: i64)
    requires
        forall|k: int| 0 <= k < env.len() ==> !(#[trigger] env[k]).dom().contains(x),
    ensures
        env_assign_v(env, x, v) is None,
    decreases env.len(),
{
    if env.len() > 0 {
        lemma_env_assign_absent(env.drop_last(), x, v);
    }
}

} // verus!
