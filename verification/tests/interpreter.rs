use replcore::ast::{
    CallableDecl, EvalError, Expr, Fragment, GlobalId, Item, ItemKind, Span, Stmt, Value,
};
use replcore::index_map::IndexMap;
use replcore::interpret::{CompiledSources, Interpreter, LineErrorKind};
use replcore::store::CompileUnit;

fn sp() -> Span {
    Span { lo: 0, hi: 1 }
}

fn decl(name: &str, params: Vec<usize>, body: Expr) -> CallableDecl {
    CallableDecl { name: name.to_string(), params, body }
}

fn declare(id: usize, d: CallableDecl) -> Fragment {
    Fragment::Item(Item { id, kind: ItemKind::Callable(d) })
}

fn call(package: usize, item: usize, args: Vec<Expr>) -> Expr {
    Expr::Call(GlobalId { package, item }, args, sp())
}

fn new_interp() -> Interpreter {
    Interpreter::new(false, CompiledSources::Unit(CompileUnit::empty())).unwrap()
}

fn double_body() -> Expr {
    Expr::Mul(Box::new(Expr::Var(0)), Box::new(Expr::Lit(2)))
}

#[test]
fn declaration_then_call_yields_value() {
    let mut interp = new_interp();
    let mut out: Vec<String> = Vec::new();
    let session = interp.session_package();

    let r = interp.interpret_line(
        &mut out,
        "function Double(x) { return x * 2; }",
        vec![declare(0, decl("Double", vec![0], double_body()))],
    );
    assert_eq!(r, Ok(Value::Unit));
    assert!(out.is_empty());

    let r = interp.interpret_line(
        &mut out,
        "Double(21)",
        vec![Fragment::Stmt(Stmt::Expr(call(session, 0, vec![Expr::Lit(21)])))],
    );
    assert_eq!(r, Ok(Value::Int(42)));
    assert!(out.is_empty());
}

#[test]
fn wrong_arity_call_is_a_runtime_error_without_trace() {
    let mut interp = new_interp();
    let mut out: Vec<String> = Vec::new();
    let session = interp.session_package();

    let r = interp.interpret_line(
        &mut out,
        "function Double(x) { return x * 2; }",
        vec![declare(0, decl("Double", vec![0], double_body()))],
    );
    assert_eq!(r, Ok(Value::Unit));

    let r = interp.interpret_line(
        &mut out,
        "Double(21, 2)",
        vec![Fragment::Stmt(Stmt::Expr(call(
            session,
            0,
            vec![Expr::Lit(21), Expr::Lit(2)],
        )))],
    );
    let errs = r.unwrap_err();
    assert_eq!(errs.len(), 1);
    assert_eq!(
        *errs[0].kind(),
        LineErrorKind::Eval(EvalError::WrongArity { expected: 1, got: 2 })
    );
    assert_eq!(*errs[0].stack_trace(), None);
}

#[test]
fn callable_stays_visible_across_many_lines() {
    let mut interp = new_interp();
    let mut out: Vec<String> = Vec::new();
    let session = interp.session_package();

    interp
        .interpret_line(
            &mut out,
            "function Double(x) { return x * 2; }",
            vec![declare(0, decl("Double", vec![0], double_body()))],
        )
        .unwrap();
    interp
        .interpret_line(&mut out, "let y = 1;", vec![Fragment::Stmt(Stmt::Let(1, Expr::Lit(1)))])
        .unwrap();
    interp
        .interpret_line(&mut out, "3", vec![Fragment::Stmt(Stmt::Expr(Expr::Lit(3)))])
        .unwrap();

    let r = interp.interpret_line(
        &mut out,
        "Double(5)",
        vec![Fragment::Stmt(Stmt::Expr(call(session, 0, vec![Expr::Lit(5)])))],
    );
    assert_eq!(r, Ok(Value::Int(10)));
}

#[test]
fn redeclaration_replaces_body_for_subsequent_calls() {
    let mut interp = new_interp();
    let mut out: Vec<String> = Vec::new();
    let session = interp.session_package();

    interp
        .interpret_line(
            &mut out,
            "function F(x) { return x * 2; }",
            vec![declare(0, decl("F", vec![0], double_body()))],
        )
        .unwrap();
    let before = interp.interpret_line(
        &mut out,
        "F(21)",
        vec![Fragment::Stmt(Stmt::Expr(call(session, 0, vec![Expr::Lit(21)])))],
    );
    assert_eq!(before, Ok(Value::Int(42)));

    let triple = Expr::Mul(Box::new(Expr::Var(0)), Box::new(Expr::Lit(3)));
    interp
        .interpret_line(
            &mut out,
            "function F(x) { return x * 3; }",
            vec![declare(0, decl("F", vec![0], triple))],
        )
        .unwrap();
    let after = interp.interpret_line(
        &mut out,
        "F(21)",
        vec![Fragment::Stmt(Stmt::Expr(call(session, 0, vec![Expr::Lit(21)])))],
    );
    assert_eq!(after, Ok(Value::Int(63)));
    // the call made before the redeclaration is unaffected
    assert_eq!(before, Ok(Value::Int(42)));
}

#[test]
fn top_level_binding_is_readable_and_mutable_in_later_lines() {
    let mut interp = new_interp();
    let mut out: Vec<String> = Vec::new();

    interp
        .interpret_line(&mut out, "let x = 10;", vec![Fragment::Stmt(Stmt::Let(3, Expr::Lit(10)))])
        .unwrap();
    let read = interp.interpret_line(&mut out, "x", vec![Fragment::Stmt(Stmt::Expr(Expr::Var(3)))]);
    assert_eq!(read, Ok(Value::Int(10)));

    let set = interp.interpret_line(
        &mut out,
        "set x = 11;",
        vec![Fragment::Stmt(Stmt::Assign(3, Expr::Lit(11)))],
    );
    assert_eq!(set, Ok(Value::Unit));
    let read = interp.interpret_line(&mut out, "x", vec![Fragment::Stmt(Stmt::Expr(Expr::Var(3)))]);
    assert_eq!(read, Ok(Value::Int(11)));
}

#[test]
fn frozen_store_resolution_is_stable_under_session_declarations() {
    // the initial sources hold Sq under id 7; its package sits just before
    // the session package
    let mut items: IndexMap<ItemKind> = IndexMap::new();
    items.insert(
        7,
        ItemKind::Callable(decl(
            "Sq",
            vec![0],
            Expr::Mul(Box::new(Expr::Var(0)), Box::new(Expr::Var(0))),
        )),
    );
    let mut interp = Interpreter::new(false, CompiledSources::Unit(CompileUnit { items })).unwrap();
    let mut out: Vec<String> = Vec::new();
    let session = interp.session_package();
    let frozen = session - 1;

    let before = interp.interpret_line(
        &mut out,
        "Sq(6)",
        vec![Fragment::Stmt(Stmt::Expr(call(frozen, 7, vec![Expr::Lit(6)])))],
    );
    assert_eq!(before, Ok(Value::Int(36)));

    // add arbitrary session-local declarations, one under the same local id
    interp
        .interpret_line(
            &mut out,
            "function Sq(x) { return 0; }",
            vec![declare(7, decl("Sq", vec![0], Expr::Lit(0)))],
        )
        .unwrap();

    let after = interp.interpret_line(
        &mut out,
        "Sq(6)",
        vec![Fragment::Stmt(Stmt::Expr(call(frozen, 7, vec![Expr::Lit(6)])))],
    );
    assert_eq!(after, Ok(Value::Int(36)));
}

#[test]
fn std_flag_preloads_base_library() {
    let mut interp = Interpreter::new(true, CompiledSources::Unit(CompileUnit::empty())).unwrap();
    let mut out: Vec<String> = Vec::new();
    assert_eq!(interp.session_package(), 2);

    // the base library's Identity callable lives in package 0 under id 0
    let r = interp.interpret_line(
        &mut out,
        "Identity(9)",
        vec![Fragment::Stmt(Stmt::Expr(call(0, 0, vec![Expr::Lit(9)])))],
    );
    assert_eq!(r, Ok(Value::Int(9)));
}

#[test]
fn construction_fails_with_the_sources_diagnostics() {
    let errs = vec![replcore::ast::CompileError {
        message: "expected `;`".to_string(),
        span: sp(),
    }];
    let r = Interpreter::new(false, CompiledSources::Errors(errs.clone()));
    match r {
        Ok(_) => panic!("construction should fail"),
        Err(es) => assert_eq!(es, errs),
    }
}

#[test]
fn declaration_survives_compile_error_later_in_the_same_line() {
    let mut interp = new_interp();
    let mut out: Vec<String> = Vec::new();
    let session = interp.session_package();

    let bad = replcore::ast::CompileError { message: "syntax error".to_string(), span: sp() };
    let r = interp.interpret_line(
        &mut out,
        "function D(x) { return x * 2; } ???",
        vec![
            declare(0, decl("D", vec![0], double_body())),
            Fragment::Error(vec![bad.clone()]),
        ],
    );
    let errs = r.unwrap_err();
    assert_eq!(errs.len(), 1);
    assert_eq!(*errs[0].kind(), LineErrorKind::Compile(bad));
    assert_eq!(*errs[0].stack_trace(), None);

    // the declaration before the failing fragment was kept
    let r = interp.interpret_line(
        &mut out,
        "D(4)",
        vec![Fragment::Stmt(Stmt::Expr(call(session, 0, vec![Expr::Lit(4)])))],
    );
    assert_eq!(r, Ok(Value::Int(8)));
}

#[test]
fn bindings_made_before_a_failing_fragment_are_kept() {
    let mut interp = new_interp();
    let mut out: Vec<String> = Vec::new();

    let r = interp.interpret_line(
        &mut out,
        "let x = 1; fail",
        vec![
            Fragment::Stmt(Stmt::Let(0, Expr::Lit(1))),
            Fragment::Stmt(Stmt::Expr(Expr::Fail("boom".to_string()))),
        ],
    );
    assert!(r.is_err());

    let read = interp.interpret_line(&mut out, "x", vec![Fragment::Stmt(Stmt::Expr(Expr::Var(0)))]);
    assert_eq!(read, Ok(Value::Int(1)));
}

#[test]
fn other_items_are_discarded_and_declarations_reset_the_result() {
    let mut interp = new_interp();
    let mut out: Vec<String> = Vec::new();

    // a non-callable item has no observable effect: the running result stays
    let r = interp.interpret_line(
        &mut out,
        "5 newtype T = Int;",
        vec![
            Fragment::Stmt(Stmt::Expr(Expr::Lit(5))),
            Fragment::Item(Item { id: 9, kind: ItemKind::Other }),
        ],
    );
    assert_eq!(r, Ok(Value::Int(5)));

    // a callable declaration resets the running result to unit
    let r = interp.interpret_line(
        &mut out,
        "5 function D(x) { return x * 2; }",
        vec![
            Fragment::Stmt(Stmt::Expr(Expr::Lit(5))),
            declare(0, decl("D", vec![0], double_body())),
        ],
    );
    assert_eq!(r, Ok(Value::Unit));
}

#[test]
fn messages_stream_through_the_receiver() {
    let mut interp = new_interp();
    let mut out: Vec<String> = Vec::new();

    let r = interp.interpret_line(
        &mut out,
        "Message(\"hi\"); Message(\"there\");",
        vec![
            Fragment::Stmt(Stmt::Message("hi".to_string())),
            Fragment::Stmt(Stmt::Message("there".to_string())),
        ],
    );
    assert_eq!(r, Ok(Value::Unit));
    assert_eq!(out, vec!["hi".to_string(), "there".to_string()]);
}

#[test]
fn re_binding_a_name_shadows_the_earlier_value() {
    let mut interp = new_interp();
    let mut out: Vec<String> = Vec::new();

    interp
        .interpret_line(&mut out, "let x = 1;", vec![Fragment::Stmt(Stmt::Let(0, Expr::Lit(1)))])
        .unwrap();
    interp
        .interpret_line(&mut out, "let x = 2;", vec![Fragment::Stmt(Stmt::Let(0, Expr::Lit(2)))])
        .unwrap();
    let read = interp.interpret_line(&mut out, "x", vec![Fragment::Stmt(Stmt::Expr(Expr::Var(0)))]);
    assert_eq!(read, Ok(Value::Int(2)));
}

#[test]
fn empty_line_yields_unit() {
    let mut interp = new_interp();
    let mut out: Vec<String> = Vec::new();
    let r = interp.interpret_line(&mut out, "", vec![]);
    assert_eq!(r, Ok(Value::Unit));
}
