//! The statement evaluator: executes one statement against the persistent
//! binding environment, resolving calls through the symbol resolver, and on
//! failure returns the error together with the active call stack, innermost
//! frame first. Nesting depth is bounded by a fixed fuel budget.

use vstd::prelude::*;
use crate::ast::{CallableDecl, EvalError, Expr, Frame, GlobalId, ItemKind, Span, Stmt, Value};
use crate::env::{env_assign_v, env_bind_v, env_lookup_v, params_scope, Env};
use crate::index_map::IndexMap;
use crate::resolve::{get_callable, resolve_v};
use crate::store::PackageStore;

verus! {

/// What evaluating an expression yields: its value, or the error and the
/// call frames it crossed.
pub open spec fn eval_expr_s(
    store: Seq<Map<int, ItemKind>>,
    callables: Map<int, CallableDecl>,
    package: int,
    env: Seq<Map<int, i64>>,
    e: Expr,
    fuel: nat,
) -> Result<i64, (EvalError, Seq<Frame>)>
    decreases fuel, 0int,
{
    if fuel == 0 {
        Err((EvalError::RecursionLimit, Seq::empty()))
    } else {
        match e {
            Expr::Lit(i) => Ok(i),
            Expr::Var(x) => match env_lookup_v(env, x as int) {
                Some(v) => Ok(v),
                None => Err((EvalError::UnboundVar(x), Seq::empty())),
            },
            Expr::Add(a, b) => match eval_expr_s(
                store,
                callables,
                package,
                env,
                *a,
                (fuel - 1) as nat,
            ) {
                Ok(va) => match eval_expr_s(store, callables, package, env, *b, (fuel - 1) as nat) {
                    Ok(vb) => if i64::MIN <= va + vb <= i64::MAX {
                        Ok((va + vb) as i64)
                    } else {
                        Err((EvalError::Overflow, Seq::empty()))
                    },
                    Err(err) => Err(err),
                },
                Err(err) => Err(err),
            },
            Expr::Mul(a, b) => match eval_expr_s(
                store,
                callables,
                package,
                env,
                *a,
                (fuel - 1) as nat,
            ) {
                Ok(va) => match eval_expr_s(store, callables, package, env, *b, (fuel - 1) as nat) {
                    Ok(vb) => if i64::MIN <= va * vb <= i64::MAX {
                        Ok((va * vb) as i64)
                    } else {
                        Err((EvalError::Overflow, Seq::empty()))
                    },
                    Err(err) => Err(err),
                },
                Err(err) => Err(err),
            },
            Expr::Fail(m) => Err((EvalError::Fail(m), Seq::empty())),
            Expr::Call(gid, args, span) => match resolve_v(store, callables, package, gid) {
                Some(decl) => if args@.len() != decl.params@.len() {
                    Err(
                        (
                            EvalError::WrongArity {
                                expected: decl.params@.len() as usize,
                                got: args@.len() as usize,
                            },
                            Seq::empty(),
                        ),
                    )
                } else {
                    match eval_args_s(store, callables, package, env, args@, (fuel - 1) as nat) {
                        Ok(vals) => match eval_expr_s(
                            store,
                            callables,
                            package,
                            seq![params_scope(decl.params@, vals)],
                            decl.body,
                            (fuel - 1) as nat,
                        ) {
                            Ok(v) => Ok(v),
                            Err((err, st)) => Err((err, st.push(Frame { callee: gid, span }))),
                        },
                        Err(err) => Err(err),
                    }
                },
                None => Err((EvalError::UnresolvedCallable(gid), Seq::empty())),
            },
        }
    }
}

/// Evaluates an argument list left to right; the first failure wins.
pub open spec fn eval_args_s(
    store: Seq<Map<int, ItemKind>>,
    callables: Map<int, CallableDecl>,
    package: int,
    env: Seq<Map<int, i64>>,
    args: Seq<Expr>,
    fuel: nat,
) -> Result<Seq<i64>, (EvalError, Seq<Frame>)>
    decreases fuel, args.len() + 1,
{
    if args.len() == 0 {
        Ok(Seq::empty())
    } else {
        match eval_expr_s(store, callables, package, env, args[0], fuel) {
            Ok(v) => match eval_args_s(store, callables, package, env, args.drop_first(), fuel) {
                Ok(vs) => Ok(seq![v] + vs),
                Err(err) => Err(err),
            },
            Err(err) => Err(err),
        }
    }
}

/// What evaluating a statement yields: the environment after it, the
/// messages it sent to the output sink, and its value or failure.
pub open spec fn eval_stmt_s(
    store: Seq<Map<int, ItemKind>>,
    callables: Map<int, CallableDecl>,
    package: int,
    env: Seq<Map<int, i64>>,
    s: Stmt,
    fuel: nat,
) -> (Seq<Map<int, i64>>, Seq<Seq<char>>, Result<Value, (EvalError, Seq<Frame>)>) {
    match s {
        Stmt::Expr(e) => match eval_expr_s(store, callables, package, env, e, fuel) {
            Ok(v) => (env, Seq::empty(), Ok(Value::Int(v))),
            Err(err) => (env, Seq::empty(), Err(err)),
        },
        Stmt::Let(x, e) => match eval_expr_s(store, callables, package, env, e, fuel) {
            Ok(v) => (env_bind_v(env, x as int, v), Seq::empty(), Ok(Value::Unit)),
            Err(err) => (env, Seq::empty(), Err(err)),
        },
        Stmt::Assign(x, e) => match eval_expr_s(store, callables, package, env, e, fuel) {
            Ok(v) => match env_assign_v(env, x as int, v) {
                Some(env2) => (env2, Seq::empty(), Ok(Value::Unit)),
                None => (env, Seq::empty(), Err((EvalError::UnboundVar(x), Seq::empty()))),
            },
            Err(err) => (env, Seq::empty(), Err(err)),
        },
        Stmt::Message(m) => (env, seq![m@], Ok(Value::Unit)),
    }
}

/// The mathematical reading of an expression result.
pub open spec fn eres_view(r: Result<i64, (EvalError, Vec<Frame>)>) -> Result<
    i64,
    (EvalError, Seq<Frame>),
> {
    match r {
        Ok(v) => Ok(v),
        Err((err, st)) => Err((err, st@)),
    }
}

/// The mathematical reading of a statement result.
pub open spec fn sres_view(r: Result<Value, (EvalError, Vec<Frame>)>) -> Result<
    Value,
    (EvalError, Seq<Frame>),
> {
    match r {
        Ok(v) => Ok(v),
        Err((err, st)) => Err((err, st@)),
    }
}

/// The messages held by an output sink.
pub open spec fn out_view(v: Vec<String>) -> Seq<Seq<char>> {
    Seq::new(v@.len(), |i: int| v@[i]@)
}

/// Evaluates one expression. Expressions read the environment but never
/// change it; a call's body sees only the call's parameters.
pub fn eval_expr(
    store: &PackageStore,
    callables: &IndexMap<CallableDecl>,
    package: usize,
    env: &Env,
    expr: &Expr,
    fuel: u64,
) -> (r: Result<i64, (EvalError, Vec<Frame>)>)
    ensures
        eres_view(r) == eval_expr_s(
            store@,
            callables.as_map(),
            package as int,
            env@,
            *expr,
            fuel as nat,
        ),
    decreases fuel,
{
    if fuel == 0 {
        return Err((EvalError::RecursionLimit, Vec::new()));
    }
    match expr {
        Expr::Lit(i) => Ok(*i),
        Expr::Var(x) => match env.lookup(*x) {
            Some(v) => Ok(v),
            None => Err((EvalError::UnboundVar(*x), Vec::new())),
        },
        Expr::Add(a, b) => {
            let va = match eval_expr(store, callables, package, env, a, fuel - 1) {
                Ok(v) => v,
                Err(err) => {
                    return Err(err);
                },
            };
            let vb = match eval_expr(store, callables, package, env, b, fuel - 1) {
                Ok(v) => v,
                Err(err) => {
                    return Err(err);
                },
            };
            match va.checked_add(vb) {
                Some(v) => Ok(v),
                None => Err((EvalError::Overflow, Vec::new())),
            }
        },
        Expr::Mul(a, b) => {
            let va = match eval_expr(store, callables, package, env, a, fuel - 1) {
                Ok(v) => v,
                Err(err) => {
                    return Err(err);
                },
            };
            let vb = match eval_expr(store, callables, package, env, b, fuel - 1) {
                Ok(v) => v,
                Err(err) => {
                    return Err(err);
                },
            };
            match va.checked_mul(vb) {
                Some(v) => Ok(v),
                None => Err((EvalError::Overflow, Vec::new())),
            }
        },
        Expr::Fail(m) => Err((EvalError::Fail(m.clone()), Vec::new())),
        Expr::Call(gid, args, span) => {
            let decl = match get_callable(store, callables, package, *gid) {
                Some(d) => d,
                None => {
                    return Err((EvalError::UnresolvedCallable(*gid), Vec::new()));
                },
            };
            if args.len() != decl.params.len() {
                return Err(
                    (
                        EvalError::WrongArity { expected: decl.params.len(), got: args.len() },
                        Vec::new(),
                    ),
                );
            }
            let ghost sm = store@;
            let ghost cm = callables.as_map();
            let ghost pk = package as int;
            let ghost subfuel = (fuel - 1) as nat;
            let mut vals: Vec<i64> = Vec::new();
            let mut i: usize = 0;
            proof {
                assert(args@.skip(0) =~= args@);
                assert(vals@ + Seq::<i64>::empty() =~= vals@);
            }
            #[verifier::loop_isolation(false)]
            while i < args.len()
                invariant
                    i <= args@.len(),
                    vals@.len() == i,
                    fuel >= 1,
                    sm == store@,
                    cm == callables.as_map(),
                    pk == package as int,
                    subfuel == (fuel - 1) as nat,
                    eval_args_s(sm, cm, pk, env@, args@, subfuel) == match eval_args_s(
                        sm,
                        cm,
                        pk,
                        env@,
                        args@.skip(i as int),
                        subfuel,
                    ) {
                        Ok(rest) => Ok::<Seq<i64>, (EvalError, Seq<Frame>)>(vals@ + rest),
                        Err(err) => Err(err),
                    },
                decreases args@.len() - i,
            {
                proof {
                    assert(args@.skip(i as int)[0] == args@[i as int]);
                    assert(args@.skip(i as int).drop_first() =~= args@.skip(i + 1));
                }
                let ghost prev = vals@;
                match eval_expr(store, callables, package, env, &args[i], fuel - 1) {
                    Ok(v) => {
                        vals.push(v);
                        i = i + 1;
                        proof {
                            match eval_args_s(sm, cm, pk, env@, args@.skip(i as int), subfuel) {
                                Ok(vs) => {
                                    assert(prev + (seq![v] + vs) =~= vals@ + vs);
                                },
                                Err(_) => {},
                            }
                        }
                    },
                    Err(err) => {
                        return Err(err);
                    },
                }
            }
            proof {
                assert(args@.skip(args@.len() as int) =~= Seq::<Expr>::empty());
                assert(vals@ + Seq::<i64>::empty() =~= vals@);
            }
            let benv = Env::for_params(&decl.params, &vals);
            match eval_expr(store, callables, package, &benv, &decl.body, fuel - 1) {
                Ok(v) => Ok(v),
                Err((err, mut st)) => {
                    st.push(Frame { callee: *gid, span: *span });
                    Err((err, st))
                },
            }
        },
    }
}

/// Whether an expression contains no call.
pub open spec fn call_free_expr(e: Expr) -> bool
    decreases e,
{
    match e {
        Expr::Lit(_) => true,
        Expr::Var(_) => true,
        Expr::Add(a, b) => call_free_expr(*a) && call_free_expr(*b),
        Expr::Mul(a, b) => call_free_expr(*a) && call_free_expr(*b),
        Expr::Fail(_) => true,
        Expr::Call(..) => false,
    }
}

/// Whether a statement contains no call.
pub open spec fn call_free_stmt(s: Stmt) -> bool {
    match s {
        Stmt::Expr(e) => call_free_expr(e),
        Stmt::Let(_, e) => call_free_expr(e),
        Stmt::Assign(_, e) => call_free_expr(e),
        Stmt::Message(_) => true,
    }
}

/// An error raised by an expression with no nested call crosses no call
/// boundary, so it carries no frames.
pub proof fn lemma_call_free_error_no_frames(
    store: Seq<Map<int, ItemKind>>,
    callables: Map<int, CallableDecl>,
    package: int,
    env: Seq<Map<int, i64>>,
    e: Expr,
    fuel: nat,
)
    requires
        call_free_expr(e),
    ensures
        eval_expr_s(store, callables, package, env, e, fuel) matches Err((err, st)) ==> st.len()
            == 0,
    decreases fuel,
{
    if fuel > 0 {
        match e {
            Expr::Add(a, b) => {
                lemma_call_free_error_no_frames(store, callables, package, env, *a, (fuel - 1) as nat);
                lemma_call_free_error_no_frames(store, callables, package, env, *b, (fuel - 1) as nat);
            },
            Expr::Mul(a, b) => {
                lemma_call_free_error_no_frames(store, callables, package, env, *a, (fuel - 1) as nat);
                lemma_call_free_error_no_frames(store, callables, package, env, *b, (fuel - 1) as nat);
            },
            _ => {},
        }
    }
}

/// A runtime error raised from a direct top-level statement — one with no
/// nested call — yields an empty call stack, hence a diagnostic with no
/// trace.
pub proof fn lemma_top_level_error_no_trace(
    store: Seq<Map<int, ItemKind>>,
    callables: Map<int, CallableDecl>,
    package: int,
    env: Seq<Map<int, i64>>,
    s: Stmt,
    fuel: nat,
)
    requires
        call_free_stmt(s),
    ensures
        eval_stmt_s(store, callables, package, env, s, fuel).2 matches Err((err, st)) ==> st.len()
            == 0,
{
    match s {
        Stmt::Expr(e) => lemma_call_free_error_no_frames(store, callables, package, env, e, fuel),
        Stmt::Let(_, e) => lemma_call_free_error_no_frames(store, callables, package, env, e, fuel),
        Stmt::Assign(_, e) => lemma_call_free_error_no_frames(
            store,
            callables,
            package,
            env,
            e,
            fuel,
        ),
        Stmt::Message(_) => {},
    }
}

/// A runtime error that crosses one call boundary gains exactly one frame,
/// the failing call's own site: where a resolved, arity-correct call's
/// arguments evaluate and its body fails with `k` frames, the call itself
/// fails with those `k` frames followed by its own. Inductively, an error
/// raised at call depth `k` carries exactly `k` frames, innermost first.
pub proof fn lemma_call_error_adds_frame(
    store: Seq<Map<int, ItemKind>>,
    callables: Map<int, CallableDecl>,
    package: int,
    env: Seq<Map<int, i64>>,
    gid: GlobalId,
    args: Vec<Expr>,
    span: Span,
    fuel: nat,
    decl: CallableDecl,
    vals: Seq<i64>,
    err: EvalError,
    st: Seq<Frame>,
)
    requires
        fuel > 0,
        resolve_v(store, callables, package, gid) == Some(decl),
        args@.len() == decl.params@.len(),
        eval_args_s(store, callables, package, env, args@, (fuel - 1) as nat) == Ok::<
            Seq<i64>,
            (EvalError, Seq<Frame>),
        >(vals),
        eval_expr_s(
            store,
            callables,
            package,
            seq![params_scope(decl.params@, vals)],
            decl.body,
            (fuel - 1) as nat,
        ) == Err::<i64, (EvalError, Seq<Frame>)>((err, st)),
    ensures
        eval_expr_s(store, callables, package, env, Expr::Call(gid, args, span), fuel) == Err::<
            i64,
            (EvalError, Seq<Frame>),
        >((err, st.push(Frame { callee: gid, span }))),
{
}

/// Evaluates one statement against the persistent environment, streaming
/// any message through the caller-supplied sink.
pub fn eval_stmt(
    store: &PackageStore,
    callables: &IndexMap<CallableDecl>,
    package: usize,
    env: &mut Env,
    receiver: &mut Vec<String>,
    stmt: &Stmt,
    fuel: u64,
) -> (r: Result<Value, (EvalError, Vec<Frame>)>)
    requires
        old(env)@.len() > 0,
    ensures
        ({
            let (env2, out2, res) = eval_stmt_s(
                store@,
                callables.as_map(),
                package as int,
                old(env)@,
                *stmt,
                fuel as nat,
            );
            &&& final(env)@ == env2
            &&& final(env)@.len() == old(env)@.len()
            &&& out_view(*final(receiver)) =~= out_view(*old(receiver)) + out2
            &&& sres_view(r) == res
        }),
{
    match stmt {
        Stmt::Expr(e) => match eval_expr(store, callables, package, env, e, fuel) {
            Ok(v) => Ok(Value::Int(v)),
            Err(err) => Err(err),
        },
        Stmt::Let(x, e) => match eval_expr(store, callables, package, env, e, fuel) {
            Ok(v) => {
                env.bind(*x, v);
                Ok(Value::Unit)
            },
            Err(err) => Err(err),
        },
        Stmt::Assign(x, e) => match eval_expr(store, callables, package, env, e, fuel) {
            Ok(v) => {
                proof {
                    crate::env::lemma_env_assign_len(env@, *x as int, v);
                }
                if env.assign(*x, v) {
                    Ok(Value::Unit)
                } else {
                    Err((EvalError::UnboundVar(*x), Vec::new()))
                }
            },
            Err(err) => Err(err),
        },
        Stmt::Message(m) => {
            receiver.push(m.clone());
            Ok(Value::Unit)
        },
    }
}

} // verus!
