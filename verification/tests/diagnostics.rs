use replcore::ast::{
    CallableDecl, EvalError, Expr, Fragment, GlobalId, Item, ItemKind, Span, Stmt, Value,
};
use replcore::interpret::{CompiledSources, Interpreter, LineErrorKind};
use replcore::store::CompileUnit;

fn sp() -> Span {
    Span { lo: 2, hi: 5 }
}

fn decl(name: &str, params: Vec<usize>, body: Expr) -> CallableDecl {
    CallableDecl { name: name.to_string(), params, body }
}

fn declare(id: usize, d: CallableDecl) -> Fragment {
    Fragment::Item(Item { id, kind: ItemKind::Callable(d) })
}

fn call(package: usize, item: usize, args: Vec<Expr>) -> Expr {
    Expr::Call(GlobalId { package, item }, args, sp())
}

fn new_interp() -> Interpreter {
    Interpreter::new(false, CompiledSources::Unit(CompileUnit::empty())).unwrap()
}

fn run_stmt(interp: &mut Interpreter, line: &str, stmt: Stmt) -> Result<Value, Vec<replcore::interpret::LineError>> {
    let mut out: Vec<String> = Vec::new();
    interp.interpret_line(&mut out, line, vec![Fragment::Stmt(stmt)])
}

#[test]
fn top_level_runtime_error_has_no_trace() {
    let mut interp = new_interp();
    let r = run_stmt(&mut interp, "fail \"boom\"", Stmt::Expr(Expr::Fail("boom".to_string())));
    let errs = r.unwrap_err();
    assert_eq!(errs.len(), 1);
    assert_eq!(*errs[0].kind(), LineErrorKind::Eval(EvalError::Fail("boom".to_string())));
    assert_eq!(*errs[0].stack_trace(), None);
}

#[test]
fn error_at_call_depth_two_renders_two_frames_innermost_first() {
    let mut interp = new_interp();
    let mut out: Vec<String> = Vec::new();
    let session = interp.session_package();

    // F fails; G calls F; the top level calls G
    interp
        .interpret_line(
            &mut out,
            "function F() { fail \"boom\"; }",
            vec![declare(0, decl("F", vec![], Expr::Fail("boom".to_string())))],
        )
        .unwrap();
    interp
        .interpret_line(
            &mut out,
            "function G() { return F(); }",
            vec![declare(1, decl("G", vec![], call(session, 0, vec![])))],
        )
        .unwrap();

    let r = run_stmt(&mut interp, "G()", Stmt::Expr(call(session, 1, vec![])));
    let errs = r.unwrap_err();
    assert_eq!(errs.len(), 1);
    assert_eq!(*errs[0].kind(), LineErrorKind::Eval(EvalError::Fail("boom".to_string())));
    let trace = errs[0].stack_trace().clone().expect("a nested failure carries a trace");
    assert_eq!(trace, "fail: boom\n  at F\n  at G");
}

#[test]
fn error_at_call_depth_one_renders_one_frame() {
    let mut interp = new_interp();
    let mut out: Vec<String> = Vec::new();
    let session = interp.session_package();

    interp
        .interpret_line(
            &mut out,
            "function F() { fail \"boom\"; }",
            vec![declare(0, decl("F", vec![], Expr::Fail("boom".to_string())))],
        )
        .unwrap();
    let r = run_stmt(&mut interp, "F()", Stmt::Expr(call(session, 0, vec![])));
    let errs = r.unwrap_err();
    let trace = errs[0].stack_trace().clone().expect("a nested failure carries a trace");
    assert_eq!(trace, "fail: boom\n  at F");
}

#[test]
fn error_in_call_arguments_stays_at_the_call_site_depth() {
    // the argument fails before the call boundary is crossed: no frames
    let mut interp = new_interp();
    let mut out: Vec<String> = Vec::new();
    let session = interp.session_package();

    interp
        .interpret_line(
            &mut out,
            "function F(x) { return x; }",
            vec![declare(0, decl("F", vec![0], Expr::Var(0)))],
        )
        .unwrap();
    let r = run_stmt(
        &mut interp,
        "F(fail \"boom\")",
        Stmt::Expr(call(session, 0, vec![Expr::Fail("boom".to_string())])),
    );
    let errs = r.unwrap_err();
    assert_eq!(*errs[0].kind(), LineErrorKind::Eval(EvalError::Fail("boom".to_string())));
    assert_eq!(*errs[0].stack_trace(), None);
}

#[test]
fn unbound_variable_read_and_assignment() {
    let mut interp = new_interp();
    let r = run_stmt(&mut interp, "y", Stmt::Expr(Expr::Var(99)));
    let errs = r.unwrap_err();
    assert_eq!(*errs[0].kind(), LineErrorKind::Eval(EvalError::UnboundVar(99)));
    assert_eq!(*errs[0].stack_trace(), None);

    let r = run_stmt(&mut interp, "set y = 1;", Stmt::Assign(99, Expr::Lit(1)));
    let errs = r.unwrap_err();
    assert_eq!(*errs[0].kind(), LineErrorKind::Eval(EvalError::UnboundVar(99)));
}

#[test]
fn unresolved_callable() {
    let mut interp = new_interp();
    let session = interp.session_package();
    let r = run_stmt(&mut interp, "Nope()", Stmt::Expr(call(session, 40, vec![])));
    let errs = r.unwrap_err();
    assert_eq!(
        *errs[0].kind(),
        LineErrorKind::Eval(EvalError::UnresolvedCallable(GlobalId { package: session, item: 40 }))
    );
    assert_eq!(*errs[0].stack_trace(), None);
}

#[test]
fn arithmetic_overflow_is_a_runtime_error() {
    let mut interp = new_interp();
    let r = run_stmt(
        &mut interp,
        "9223372036854775807 * 2",
        Stmt::Expr(Expr::Mul(Box::new(Expr::Lit(i64::MAX)), Box::new(Expr::Lit(2)))),
    );
    let errs = r.unwrap_err();
    assert_eq!(*errs[0].kind(), LineErrorKind::Eval(EvalError::Overflow));

    let r = run_stmt(
        &mut interp,
        "big + big",
        Stmt::Expr(Expr::Add(Box::new(Expr::Lit(i64::MAX)), Box::new(Expr::Lit(1)))),
    );
    let errs = r.unwrap_err();
    assert_eq!(*errs[0].kind(), LineErrorKind::Eval(EvalError::Overflow));

    // in range: exact values
    let r = run_stmt(
        &mut interp,
        "20 + 22",
        Stmt::Expr(Expr::Add(Box::new(Expr::Lit(20)), Box::new(Expr::Lit(22)))),
    );
    assert_eq!(r, Ok(Value::Int(42)));
}

#[test]
fn unbounded_self_recursion_hits_the_depth_budget() {
    let mut interp = new_interp();
    let mut out: Vec<String> = Vec::new();
    let session = interp.session_package();

    interp
        .interpret_line(
            &mut out,
            "function R() { return R(); }",
            vec![declare(0, decl("R", vec![], call(session, 0, vec![])))],
        )
        .unwrap();
    let r = run_stmt(&mut interp, "R()", Stmt::Expr(call(session, 0, vec![])));
    let errs = r.unwrap_err();
    assert_eq!(*errs[0].kind(), LineErrorKind::Eval(EvalError::RecursionLimit));
    let trace = errs[0].stack_trace().clone().expect("deep recursion fails inside calls");
    assert!(trace.starts_with("recursion limit reached\n  at R"));
}

#[test]
fn processing_stops_at_the_first_failing_fragment() {
    let mut interp = new_interp();
    let mut out: Vec<String> = Vec::new();

    let r = interp.interpret_line(
        &mut out,
        "fail \"first\"; Message(\"after\");",
        vec![
            Fragment::Stmt(Stmt::Expr(Expr::Fail("first".to_string()))),
            Fragment::Stmt(Stmt::Message("after".to_string())),
        ],
    );
    let errs = r.unwrap_err();
    assert_eq!(errs.len(), 1);
    assert_eq!(*errs[0].kind(), LineErrorKind::Eval(EvalError::Fail("first".to_string())));
    // the message fragment after the failure never ran
    assert!(out.is_empty());
}

#[test]
fn output_streamed_before_a_failing_fragment_is_kept() {
    let mut interp = new_interp();
    let mut out: Vec<String> = Vec::new();

    let r = interp.interpret_line(
        &mut out,
        "Message(\"before\"); fail \"boom\";",
        vec![
            Fragment::Stmt(Stmt::Message("before".to_string())),
            Fragment::Stmt(Stmt::Expr(Expr::Fail("boom".to_string()))),
        ],
    );
    assert!(r.is_err());
    assert_eq!(out, vec!["before".to_string()]);
}

#[test]
fn every_compile_diagnostic_of_a_line_is_reported() {
    let mut interp = new_interp();
    let mut out: Vec<String> = Vec::new();
    let e1 = replcore::ast::CompileError { message: "expected `;`".to_string(), span: sp() };
    let e2 = replcore::ast::CompileError { message: "unknown name".to_string(), span: sp() };
    let r = interp.interpret_line(&mut out, "?? !!", vec![Fragment::Error(vec![e1.clone(), e2.clone()])]);
    let errs = r.unwrap_err();
    assert_eq!(errs.len(), 2);
    assert_eq!(*errs[0].kind(), LineErrorKind::Compile(e1));
    assert_eq!(*errs[1].kind(), LineErrorKind::Compile(e2));

    // the instance stays usable after a line error
    let r = interp.interpret_line(&mut out, "1", vec![Fragment::Stmt(Stmt::Expr(Expr::Lit(1)))]);
    assert_eq!(r, Ok(Value::Int(1)));
}
