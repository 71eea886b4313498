//! The interpreter: session state plus the per-line dispatch loop. Each call
//! takes the fragments one compiled line produced, processes them strictly
//! in order, and returns the last computed value or the line's diagnostics.
//! State mutations made by fragments before a failing one are kept.

use vstd::prelude::*;
use crate::ast::{
    CallableDecl,
    CompileError,
    EvalError,
    Fragment,
    Frame,
    ItemKind,
    PackageId,
    Stmt,
    Value,
};
use crate::env::Env;
use crate::eval::{eval_stmt, eval_stmt_s, out_view};
use crate::index_map::IndexMap;
use crate::render::{render_call_stack, render_trace_v};
use crate::store::{CompileUnit, PackageStore};

verus! {

/// The depth budget for evaluating one statement: expression nesting and
/// call nesting together may not exceed it.
pub const LINE_FUEL: u64 = 128;

/// What the external compiler produced for the interpreter's initial
/// sources: one compiled package, or the diagnostics that prevented one.
pub enum CompiledSources {
    Unit(CompileUnit),
    Errors(Vec<CompileError>),
}

/// Which of the two sub-kinds one line diagnostic is.
#[derive(Clone, PartialEq, Eq, Debug)]
pub enum LineErrorKind {
    /// The line itself failed to compile.
    Compile(CompileError),
    /// A runtime failure while evaluating one of the line's statements.
    Eval(EvalError),
}

/// One diagnostic of one interactive line: the offending source text, the
/// error kind, and, for a runtime error inside a nested call, its rendered
/// call-stack trace.
#[derive(Clone, PartialEq, Eq, Debug)]
pub struct LineError {
    line: String,
    kind: LineErrorKind,
    stack_trace: Option<String>,
}

impl LineError {
    /// The offending line's source text.
    pub closed spec fn spec_line(&self) -> Seq<char> {
        self.line@
    }

    /// The error kind.
    pub closed spec fn spec_kind(&self) -> LineErrorKind {
        self.kind
    }

    /// The rendered trace, present only for a runtime error that occurred
    /// inside a nested call.
    pub closed spec fn spec_stack_trace(&self) -> Option<String> {
        self.stack_trace
    }

    pub fn kind(&self) -> (r: &LineErrorKind)
        ensures
            *r == self.spec_kind(),
    {
        &self.kind
    }

    pub fn stack_trace(&self) -> (r: &Option<String>)
        ensures
            *r == self.spec_stack_trace(),
    {
        &self.stack_trace
    }
}

/// How processing one line ends: the last computed value, one runtime
/// failure with its call stack, or the line's compile diagnostics.
pub enum LineOutcome {
    Value(Value),
    EvalErr(EvalError, Seq<Frame>),
    CompileErrs(Seq<CompileError>),
}

/// The session state after processing a line's fragments, and the outcome.
pub struct LineState {
    pub callables: Map<int, CallableDecl>,
    pub env: Seq<Map<int, i64>>,
    pub out: Seq<Seq<char>>,
    pub outcome: LineOutcome,
}

/// What dispatching a line's fragments yields, strictly in order: a callable
/// item is inserted into the callable table and resets the running result to
/// unit, any other item is discarded, a statement is evaluated and its value
/// becomes the running result, and the first failure ends the line with the
/// state mutations made so far kept.
pub open spec fn dispatch_s(
    store: Seq<Map<int, ItemKind>>,
    package: int,
    callables: Map<int, CallableDecl>,
    env: Seq<Map<int, i64>>,
    out: Seq<Seq<char>>,
    result: Value,
    frags: Seq<Fragment>,
    fuel: nat,
) -> LineState
    decreases frags.len(),
{
    if frags.len() == 0 {
        LineState { callables, env, out, outcome: LineOutcome::Value(result) }
    } else {
        match frags[0] {
            Fragment::Item(item) => match item.kind {
                ItemKind::Callable(decl) => dispatch_s(
                    store,
                    package,
                    callables.insert(item.id as int, decl),
                    env,
                    out,
                    Value::Unit,
                    frags.drop_first(),
                    fuel,
                ),
                ItemKind::Other => dispatch_s(
                    store,
                    package,
                    callables,
                    env,
                    out,
                    result,
                    frags.drop_first(),
                    fuel,
                ),
            },
            Fragment::Stmt(stmt) => {
                let (env2, out2, res) = eval_stmt_s(store, callables, package, env, stmt, fuel);
                match res {
                    Ok(v) => dispatch_s(
                        store,
                        package,
                        callables,
                        env2,
                        out + out2,
                        v,
                        frags.drop_first(),
                        fuel,
                    ),
                    Err((err, st)) => LineState {
                        callables,
                        env: env2,
                        out: out + out2,
                        outcome: LineOutcome::EvalErr(err, st),
                    },
                }
            },
            Fragment::Error(errs) => LineState {
                callables,
                env,
                out,
                outcome: LineOutcome::CompileErrs(errs@),
            },
        }
    }
}

/// Whether one fragment declares a callable under `id`.
pub open spec fn frag_declares(f: Fragment, id: int) -> bool {
    f matches Fragment::Item(item) && item.id == id && item.kind is Callable
}

/// Whether some fragment of a line declares a callable under `id`.
pub open spec fn frags_declare(frags: Seq<Fragment>, id: int) -> bool {
    exists|j: int| 0 <= j < frags.len() && #[trigger] frag_declares(frags[j], id)
}

/// The last callable declaration a line makes under `id`, if any.
pub open spec fn last_decl(frags: Seq<Fragment>, id: int) -> Option<CallableDecl>
    decreases frags.len(),
{
    if frags.len() == 0 {
        None
    } else {
        match last_decl(frags.drop_first(), id) {
            Some(d) => Some(d),
            None => match frags[0] {
                Fragment::Item(item) => match item.kind {
                    ItemKind::Callable(decl) => if item.id == id {
                        Some(decl)
                    } else {
                        None
                    },
                    ItemKind::Other => None,
                },
                _ => None,
            },
        }
    }
}

/// A line has a last declaration under `id` exactly when it declares `id`.
proof fn lemma_last_decl_none(frags: Seq<Fragment>, id: int)
    ensures
        (last_decl(frags, id) is None) <==> !frags_declare(frags, id),
    decreases frags.len(),
{
    if frags.len() > 0 {
        lemma_last_decl_none(frags.drop_first(), id);
        if frags_declare(frags, id) {
            let j = choose|j: int|
                0 <= j < frags.len() && #[trigger] frag_declares(frags[j], id);
            if j > 0 {
                assert(frag_declares(frags.drop_first()[j - 1], id));
            }
        }
        if frags_declare(frags.drop_first(), id) {
            let j = choose|j: int|
                0 <= j < frags.drop_first().len() && #[trigger] frag_declares(
                    frags.drop_first()[j],
                    id,
                );
            assert(frag_declares(frags[j + 1], id));
        }
        if frag_declares(frags[0], id) {
            assert(frags_declare(frags, id));
        }
    }
}

/// Visibility monotonicity: a callable the session owns when a line begins
/// is still owned when the line ends, whatever the line does; and one the
/// line does not re-declare keeps its body, so it resolves identically from
/// every later line.
pub proof fn lemma_callable_visibility(
    store: Seq<Map<int, ItemKind>>,
    package: int,
    callables: Map<int, CallableDecl>,
    env: Seq<Map<int, i64>>,
    out: Seq<Seq<char>>,
    result: Value,
    frags: Seq<Fragment>,
    fuel: nat,
    id: int,
)
    ensures
        ({
            let d = dispatch_s(store, package, callables, env, out, result, frags, fuel);
            &&& callables.dom().contains(id) ==> d.callables.dom().contains(id)
            &&& !frags_declare(frags, id) ==> d.callables.dom().contains(id)
                == callables.dom().contains(id) && (callables.dom().contains(id)
                ==> d.callables[id] == callables[id])
        }),
    decreases frags.len(),
{
    if frags.len() > 0 {
        let rest = frags.drop_first();
        assert(!frags_declare(frags, id) ==> !frags_declare(rest, id)) by {
            if frags_declare(rest, id) {
                let j = choose|j: int|
                    0 <= j < rest.len() && #[trigger] frag_declares(rest[j], id);
                assert(frag_declares(frags[j + 1], id));
            }
        }
        match frags[0] {
            Fragment::Item(item) => match item.kind {
                ItemKind::Callable(decl) => {
                    if item.id == id {
                        assert(frag_declares(frags[0], id));
                        assert(frags_declare(frags, id));
                    }
                    lemma_callable_visibility(
                        store,
                        package,
                        callables.insert(item.id as int, decl),
                        env,
                        out,
                        Value::Unit,
                        rest,
                        fuel,
                        id,
                    );
                },
                ItemKind::Other => {
                    lemma_callable_visibility(
                        store,
                        package,
                        callables,
                        env,
                        out,
                        result,
                        rest,
                        fuel,
                        id,
                    );
                },
            },
            Fragment::Stmt(stmt) => {
                let (env2, out2, res) = eval_stmt_s(store, callables, package, env, stmt, fuel);
                match res {
                    Ok(v) => {
                        lemma_callable_visibility(
                            store,
                            package,
                            callables,
                            env2,
                            out + out2,
                            v,
                            rest,
                            fuel,
                            id,
                        );
                    },
                    Err(_) => {},
                }
            },
            Fragment::Error(_) => {},
        }
    }
}

/// Re-declaration replaces: after a line that ran to completion, the body
/// the session owns under `id` is the body of the line's last declaration
/// under `id`. Values computed by calls that completed before the
/// re-declaration are unaffected: they are values already.
pub proof fn lemma_redeclaration_replaces(
    store: Seq<Map<int, ItemKind>>,
    package: int,
    callables: Map<int, CallableDecl>,
    env: Seq<Map<int, i64>>,
    out: Seq<Seq<char>>,
    result: Value,
    frags: Seq<Fragment>,
    fuel: nat,
    id: int,
    decl: CallableDecl,
)
    requires
        last_decl(frags, id) == Some(decl),
        dispatch_s(store, package, callables, env, out, result, frags, fuel).outcome is Value,
    ensures
        ({
            let d = dispatch_s(store, package, callables, env, out, result, frags, fuel);
            &&& d.callables.dom().contains(id)
            &&& d.callables[id] == decl
        }),
    decreases frags.len(),
{
    let rest = frags.drop_first();
    match frags[0] {
        Fragment::Item(item) => match item.kind {
            ItemKind::Callable(dc) => {
                let cal2 = callables.insert(item.id as int, dc);
                if last_decl(rest, id) is Some {
                    lemma_redeclaration_replaces(
                        store,
                        package,
                        cal2,
                        env,
                        out,
                        Value::Unit,
                        rest,
                        fuel,
                        id,
                        decl,
                    );
                } else {
                    lemma_last_decl_none(rest, id);
                    lemma_callable_visibility(
                        store,
                        package,
                        cal2,
                        env,
                        out,
                        Value::Unit,
                        rest,
                        fuel,
                        id,
                    );
                }
            },
            ItemKind::Other => {
                lemma_redeclaration_replaces(
                    store,
                    package,
                    callables,
                    env,
                    out,
                    result,
                    rest,
                    fuel,
                    id,
                    decl,
                );
            },
        },
        Fragment::Stmt(stmt) => {
            let (env2, out2, res) = eval_stmt_s(store, callables, package, env, stmt, fuel);
            match res {
                Ok(v) => {
                    lemma_redeclaration_replaces(
                        store,
                        package,
                        callables,
                        env2,
                        out + out2,
                        v,
                        rest,
                        fuel,
                        id,
                        decl,
                    );
                },
                Err(_) => {},
            }
        },
        Fragment::Error(_) => {},
    }
}

/// A top-level binding persists: dispatching a line never drops a scope and
/// never removes a name from a scope, so a variable bound in one line stays
/// readable and assignable in every later line.
pub proof fn lemma_binding_persists(
    store: Seq<Map<int, ItemKind>>,
    package: int,
    callables: Map<int, CallableDecl>,
    env: Seq<Map<int, i64>>,
    out: Seq<Seq<char>>,
    result: Value,
    frags: Seq<Fragment>,
    fuel: nat,
    k: int,
    x: int,
)
    requires
        env.len() > 0,
    ensures
        ({
            let d = dispatch_s(store, package, callables, env, out, result, frags, fuel);
            &&& d.env.len() == env.len()
            &&& 0 <= k < env.len() && env[k].dom().contains(x) ==> d.env[k].dom().contains(x)
        }),
    decreases frags.len(),
{
    if frags.len() > 0 {
        let rest = frags.drop_first();
        match frags[0] {
            Fragment::Item(item) => match item.kind {
                ItemKind::Callable(decl) => {
                    lemma_binding_persists(
                        store,
                        package,
                        callables.insert(item.id as int, decl),
                        env,
                        out,
                        Value::Unit,
                        rest,
                        fuel,
                        k,
                        x,
                    );
                },
                ItemKind::Other => {
                    lemma_binding_persists(
                        store,
                        package,
                        callables,
                        env,
                        out,
                        result,
                        rest,
                        fuel,
                        k,
                        x,
                    );
                },
            },
            Fragment::Stmt(stmt) => {
                let (env2, out2, res) = eval_stmt_s(store, callables, package, env, stmt, fuel);
                proof_stmt_env_effect(store, callables, package, env, stmt, fuel, k, x);
                match res {
                    Ok(v) => {
                        lemma_binding_persists(
                            store,
                            package,
                            callables,
                            env2,
                            out + out2,
                            v,
                            rest,
                            fuel,
                            k,
                            x,
                        );
                    },
                    Err(_) => {},
                }
            },
            Fragment::Error(_) => {},
        }
    }
}

/// One statement never drops a scope and never removes a name from one.
proof fn proof_stmt_env_effect(
    store: Seq<Map<int, ItemKind>>,
    callables: Map<int, CallableDecl>,
    package: int,
    env: Seq<Map<int, i64>>,
    stmt: Stmt,
    fuel: nat,
    k: int,
    x: int,
)
    requires
        env.len() > 0,
    ensures
        ({
            let (env2, out2, res) = eval_stmt_s(store, callables, package, env, stmt, fuel);
            &&& env2.len() == env.len()
            &&& 0 <= k < env.len() && env[k].dom().contains(x) ==> env2[k].dom().contains(x)
        }),
{
    match stmt {
        Stmt::Assign(y, e) => {
            match crate::eval::eval_expr_s(store, callables, package, env, e, fuel) {
                Ok(v) => {
                    crate::env::lemma_env_assign_len(env, y as int, v);
                    crate::env::lemma_env_assign_dom(env, y as int, v);
                },
                Err(_) => {},
            }
        },
        _ => {},
    }
}

/// Whether a package holds exactly the base library: one callable named
/// `Identity` under id 0, returning its single parameter.
pub open spec fn is_std_unit(m: Map<int, ItemKind>) -> bool {
    &&& m.dom() =~= set![0int]
    &&& m[0] matches ItemKind::Callable(d)
    &&& m[0]->Callable_0.name@ == "Identity"@
    &&& m[0]->Callable_0.params@ =~= seq![0usize]
    &&& m[0]->Callable_0.body == crate::ast::Expr::Var(0)
}

/// The base library package preloaded when construction asks for it.
fn std_unit() -> (r: CompileUnit)
    ensures
        is_std_unit(r@),
{
    let mut items: IndexMap<ItemKind> = IndexMap::new();
    items.insert(
        0,
        ItemKind::Callable(
            CallableDecl {
                name: String::from_str("Identity"),
                params: vec![0],
                body: crate::ast::Expr::Var(0),
            },
        ),
    );
    let r = CompileUnit { items };
    proof {
        assert(r@.dom() =~= set![0int]);
    }
    r
}

/// The incremental, stateful execution core: owns the frozen declaration
/// store, the session's callable table and the persistent binding
/// environment. One instance assumes exclusive, non-reentrant access for the
/// duration of each call.
pub struct Interpreter {
    store: PackageStore,
    package: PackageId,
    callables: IndexMap<CallableDecl>,
    env: Env,
}

impl Interpreter {
    /// The frozen store's content.
    pub closed spec fn store_v(&self) -> Seq<Map<int, ItemKind>> {
        self.store@
    }

    /// The reserved session package handle.
    pub closed spec fn package_v(&self) -> int {
        self.package as int
    }

    /// The session's callable table.
    pub closed spec fn callables_v(&self) -> Map<int, CallableDecl> {
        self.callables.as_map()
    }

    /// The binding environment, outermost scope first.
    pub closed spec fn env_v(&self) -> Seq<Map<int, i64>> {
        self.env@
    }

    /// The instance's invariant: the session scope exists, and the session
    /// package is the reserved slot at the end of the store.
    pub open spec fn wf(&self) -> bool {
        &&& self.env_v().len() > 0
        &&& self.package_v() + 1 == self.store_v().len()
        &&& self.store_v().last() =~= Map::<int, ItemKind>::empty()
    }

    /// Builds a ready instance around the compiled initial sources, with the
    /// base library preloaded when `std` asks for it, an empty callable
    /// table and an empty session scope; or hands back the initial sources'
    /// compile diagnostics unchanged.
    pub fn new(std: bool, sources: CompiledSources) -> (r: Result<Interpreter, Vec<CompileError>>)
        ensures
            match sources {
                CompiledSources::Errors(errs) => r matches Err(es) && es == errs,
                CompiledSources::Unit(unit) => {
                    &&& r matches Ok(interp)
                    &&& interp.wf()
                    &&& interp.store_v().len() == if std {
                        3int
                    } else {
                        2int
                    }
                    &&& std ==> is_std_unit(interp.store_v()[0])
                    &&& interp.store_v()[interp.package_v() - 1] == unit@
                    &&& interp.package_v() == if std {
                        2int
                    } else {
                        1int
                    }
                    &&& interp.callables_v() =~= Map::<int, CallableDecl>::empty()
                    &&& interp.env_v() =~= seq![Map::<int, i64>::empty()]
                },
            },
    {
        let unit = match sources {
            CompiledSources::Unit(unit) => unit,
            CompiledSources::Errors(errs) => {
                return Err(errs);
            },
        };
        let mut store = PackageStore::new();
        if std {
            store.insert(std_unit());
        }
        store.insert(unit);
        let package = store.insert(CompileUnit::empty());
        Ok(
            Interpreter {
                store,
                package,
                callables: IndexMap::new(),
                env: Env::with_empty_scope(),
            },
        )
    }

    /// The reserved session package handle, for building references to
    /// interactively declared callables; the initial sources' package is the
    /// slot just before it.
    pub fn session_package(&self) -> (r: PackageId)
        ensures
            r == self.package_v(),
    {
        self.package
    }

    /// Processes the fragments of one line strictly in order, as
    /// `dispatch_s` states: declarations accumulate in the callable table,
    /// statements run against the persistent environment with messages
    /// streamed through `receiver`, and the first failure ends the line,
    /// keeping earlier fragments' state mutations. A runtime error that
    /// occurred inside a nested call carries a rendered trace.
    pub fn interpret_line(
        &mut self,
        receiver: &mut Vec<String>,
        line: &str,
        fragments: Vec<Fragment>,
    ) -> (r: Result<Value, Vec<LineError>>)
        requires
            old(self).wf(),
        ensures
            final(self).wf(),
            final(self).store_v() == old(self).store_v(),
            final(self).package_v() == old(self).package_v(),
            ({
                let d = dispatch_s(
                    old(self).store_v(),
                    old(self).package_v(),
                    old(self).callables_v(),
                    old(self).env_v(),
                    Seq::empty(),
                    Value::Unit,
                    fragments@,
                    LINE_FUEL as nat,
                );
                &&& final(self).callables_v() == d.callables
                &&& final(self).env_v() == d.env
                &&& out_view(*final(receiver)) =~= out_view(*old(receiver)) + d.out
                &&& match d.outcome {
                    LineOutcome::Value(v) => r == Ok::<Value, Vec<LineError>>(v),
                    LineOutcome::EvalErr(err, st) => {
                        &&& r matches Err(es)
                        &&& es@.len() == 1
                        &&& es@[0].spec_line() == line@
                        &&& es@[0].spec_kind() == LineErrorKind::Eval(err)
                        &&& if st.len() == 0 {
                            es@[0].spec_stack_trace() is None
                        } else {
                            es@[0].spec_stack_trace() matches Some(t) && t@ == render_trace_v(
                                old(self).store_v(),
                                d.callables,
                                old(self).package_v(),
                                err,
                                st,
                            )
                        }
                    },
                    LineOutcome::CompileErrs(errs) => {
                        &&& r matches Err(es)
                        &&& es@.len() == errs.len()
                        &&& forall|j: int|
                            0 <= j < errs.len() ==> (#[trigger] es@[j]).spec_line() == line@
                                && es@[j].spec_kind() == LineErrorKind::Compile(errs[j])
                                && es@[j].spec_stack_trace() is None
                    },
                }
            }),
    {
        let ghost d0 = dispatch_s(
            old(self).store_v(),
            old(self).package_v(),
            old(self).callables_v(),
            old(self).env_v(),
            Seq::empty(),
            Value::Unit,
            fragments@,
            LINE_FUEL as nat,
        );
        let mut fragments = fragments;
        let mut result = Value::Unit;
        let ghost mut produced: Seq<Seq<char>> = Seq::empty();
        #[verifier::loop_isolation(false)]
        while fragments.len() > 0
            invariant
                self.wf(),
                self.store_v() == old(self).store_v(),
                self.package_v() == old(self).package_v(),
                out_view(*receiver) =~= out_view(*old(receiver)) + produced,
                dispatch_s(
                    self.store_v(),
                    self.package_v(),
                    self.callables_v(),
                    self.env_v(),
                    produced,
                    result,
                    fragments@,
                    LINE_FUEL as nat,
                ) == d0,
            decreases fragments@.len(),
        {
            let ghost frags_prev = fragments@;
            let fragment = fragments.remove(0);
            proof {
                assert(frags_prev.remove(0) =~= frags_prev.drop_first());
            }
            match fragment {
                Fragment::Item(item) => {
                    match item.kind {
                        ItemKind::Callable(decl) => {
                            self.callables.insert(item.id, decl);
                            result = Value::Unit;
                        },
                        ItemKind::Other => {},
                    }
                },
                Fragment::Stmt(stmt) => {
                    let ghost step = eval_stmt_s(
                        self.store_v(),
                        self.callables_v(),
                        self.package_v(),
                        self.env_v(),
                        stmt,
                        LINE_FUEL as nat,
                    );
                    let res = eval_stmt(
                        &self.store,
                        &self.callables,
                        self.package,
                        &mut self.env,
                        receiver,
                        &stmt,
                        LINE_FUEL,
                    );
                    proof {
                        produced = produced + step.1;
                    }
                    match res {
                        Ok(v) => {
                            result = v;
                        },
                        Err((err, st)) => {
                            let stack_trace = if st.len() == 0 {
                                None
                            } else {
                                Some(
                                    render_call_stack(
                                        &self.store,
                                        &self.callables,
                                        self.package,
                                        &st,
                                        &err,
                                    ),
                                )
                            };
                            let mut es: Vec<LineError> = Vec::new();
                            es.push(
                                LineError {
                                    line: String::from_str(line),
                                    kind: LineErrorKind::Eval(err),
                                    stack_trace,
                                },
                            );
                            return Err(es);
                        },
                    }
                },
                Fragment::Error(errors) => {
                    let ghost errs0 = errors@;
                    let mut errors = errors;
                    let mut es: Vec<LineError> = Vec::new();
                    while errors.len() > 0
                        invariant
                            es@.len() + errors@.len() == errs0.len(),
                            errors@ =~= errs0.skip(es@.len() as int),
                            forall|j: int|
                                0 <= j < es@.len() ==> (#[trigger] es@[j]).spec_line() == line@
                                    && es@[j].spec_kind() == LineErrorKind::Compile(errs0[j])
                                    && es@[j].spec_stack_trace() is None,
                        decreases errors@.len(),
                    {
                        let ghost errors_prev = errors@;
                        let e0 = errors.remove(0);
                        proof {
                            assert(errors_prev.remove(0) =~= errors_prev.drop_first());
                            assert(errors_prev.drop_first() =~= errs0.skip(es@.len() as int + 1));
                            assert(e0 == errs0[es@.len() as int]);
                        }
                        es.push(
                            LineError {
                                line: String::from_str(line),
                                kind: LineErrorKind::Compile(e0),
                                stack_trace: None,
                            },
                        );
                    }
                    return Err(es);
                },
            }
        }
        proof {
            assert(fragments@ =~= Seq::<Fragment>::empty());
        }
        Ok(result)
    }
}

} // verus!
