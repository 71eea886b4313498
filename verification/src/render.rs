//! The diagnostic renderer: turns a runtime error and its captured call
//! stack into a human-readable trace. Each frame's reference is resolved
//! through the same symbol resolver that execution uses; a frame that no
//! longer resolves is rendered as a placeholder rather than failing the
//! render.

use vstd::prelude::*;
use crate::ast::{CallableDecl, EvalError, Frame, ItemKind};
use crate::index_map::IndexMap;
use crate::resolve::{get_callable, resolve_v};
use crate::store::PackageStore;

verus! {

/// The message a runtime error carries.
pub open spec fn message_v(err: EvalError) -> Seq<char> {
    match err {
        EvalError::UnboundVar(_) => "unbound variable"@,
        EvalError::UnresolvedCallable(_) => "unresolved callable"@,
        EvalError::WrongArity { .. } => "wrong number of arguments"@,
        EvalError::Overflow => "integer overflow"@,
        EvalError::Fail(m) => "fail: "@ + m@,
        EvalError::RecursionLimit => "recursion limit reached"@,
    }
}

/// One trace line for one frame: the resolved display name of the callee,
/// or a placeholder where resolution fails.
pub open spec fn frame_line_v(
    store: Seq<Map<int, ItemKind>>,
    callables: Map<int, CallableDecl>,
    package: int,
    frame: Frame,
) -> Seq<char> {
    "\n  at "@ + match resolve_v(store, callables, package, frame.callee) {
        Some(decl) => decl.name@,
        None => "<unresolved>"@,
    }
}

/// The trace lines for a whole stack, innermost call first.
pub open spec fn frames_v(
    store: Seq<Map<int, ItemKind>>,
    callables: Map<int, CallableDecl>,
    package: int,
    stack: Seq<Frame>,
) -> Seq<char>
    decreases stack.len(),
{
    if stack.len() == 0 {
        Seq::empty()
    } else {
        frames_v(store, callables, package, stack.drop_last()) + frame_line_v(
            store,
            callables,
            package,
            stack.last(),
        )
    }
}

/// A full rendered trace: the error's own message first, then one line per
/// frame from the innermost to the outermost call.
pub open spec fn render_trace_v(
    store: Seq<Map<int, ItemKind>>,
    callables: Map<int, CallableDecl>,
    package: int,
    err: EvalError,
    stack: Seq<Frame>,
) -> Seq<char> {
    message_v(err) + frames_v(store, callables, package, stack)
}

/// The message a runtime error carries, as an owned string.
pub fn error_message(err: &EvalError) -> (r: String)
    ensures
        r@ == message_v(*err),
{
    match err {
        EvalError::UnboundVar(_) => String::from_str("unbound variable"),
        EvalError::UnresolvedCallable(_) => String::from_str("unresolved callable"),
        EvalError::WrongArity { .. } => String::from_str("wrong number of arguments"),
        EvalError::Overflow => String::from_str("integer overflow"),
        EvalError::Fail(m) => {
            let mut s = String::from_str("fail: ");
            s.append(m.as_str());
            s
        },
        EvalError::RecursionLimit => String::from_str("recursion limit reached"),
    }
}

/// Renders a runtime error and its call stack into a trace string.
pub fn render_call_stack(
    store: &PackageStore,
    callables: &IndexMap<CallableDecl>,
    package: usize,
    call_stack: &Vec<Frame>,
    error: &EvalError,
) -> (r: String)
    ensures
        r@ == render_trace_v(store@, callables.as_map(), package as int, *error, call_stack@),
{
    let mut s = error_message(error);
    let mut i: usize = 0;
    proof {
        assert(call_stack@.take(0) =~= Seq::<Frame>::empty());
        assert(s@ =~= message_v(*error) + frames_v(
            store@,
            callables.as_map(),
            package as int,
            call_stack@.take(0),
        ));
    }
    #[verifier::loop_isolation(false)]
    while i < call_stack.len()
        invariant
            i <= call_stack@.len(),
            s@ == message_v(*error) + frames_v(
                store@,
                callables.as_map(),
                package as int,
                call_stack@.take(i as int),
            ),
        decreases call_stack@.len() - i,
    {
        s.append("\n  at ");
        match get_callable(store, callables, package, call_stack[i].callee) {
            Some(decl) => s.append(decl.name.as_str()),
            None => s.append("<unresolved>"),
        }
        i = i + 1;
        proof {
            assert(call_stack@.take(i as int).drop_last() =~= call_stack@.take(i - 1));
            assert(call_stack@.take(i as int).last() == call_stack@[i - 1]);
            assert(s@ =~= message_v(*error) + frames_v(
                store@,
                callables.as_map(),
                package as int,
                call_stack@.take(i as int),
            ));
        }
    }
    proof {
        assert(call_stack@.take(call_stack@.len() as int) =~= call_stack@);
    }
    s
}

} // verus!
