//! Core data model: values, expressions, statements, declarations and the
//! tagged fragments that one compiled line is made of.

use vstd::prelude::*;

verus! {

/// Stable handle of one compiled package held in the store.
pub type PackageId = usize;

/// Identifier of a declaration, unique within one package (or within the
/// session's own virtual package).
pub type LocalItemId = usize;

/// Addresses one declaration anywhere in the system: a package handle plus
/// the declaration's id local to that package.
#[derive(Clone, Copy, PartialEq, Eq, Structural, Debug)]
pub struct GlobalId {
    pub package: PackageId,
    pub item: LocalItemId,
}

/// A half-open source range, used to record call sites.
#[derive(Clone, Copy, PartialEq, Eq, Structural, Debug)]
pub struct Span {
    pub lo: u32,
    pub hi: u32,
}

/// The result of processing one line: either the unit value (declarations
/// only) or the integer produced by the last statement.
#[derive(Clone, Copy, PartialEq, Eq, Structural, Debug)]
pub enum Value {
    Unit,
    Int(i64),
}

/// A runtime failure raised while evaluating a statement.
#[derive(Clone, PartialEq, Eq, Debug)]
pub enum EvalError {
    /// A variable was read or assigned that no scope binds.
    UnboundVar(LocalItemId),
    /// A call named a declaration that neither the store nor the session has.
    UnresolvedCallable(GlobalId),
    /// A call handed the wrong number of arguments to a callable.
    WrongArity { expected: usize, got: usize },
    /// An addition or multiplication left the 64-bit signed range.
    Overflow,
    /// A `fail` expression was evaluated.
    Fail(String),
    /// Evaluation exceeded the fixed nesting-depth budget.
    RecursionLimit,
}

/// One active call site at the moment a runtime error occurred.
#[derive(Clone, Copy, PartialEq, Eq, Structural, Debug)]
pub struct Frame {
    /// The callee that was running.
    pub callee: GlobalId,
    /// Where the call stood in the source.
    pub span: Span,
}

/// An expression of the evaluated language. Expressions always produce a
/// 64-bit integer; the unit value arises only at statement level.
#[derive(Debug)]
pub enum Expr {
    /// An integer literal.
    Lit(i64),
    /// A read of a bound variable.
    Var(LocalItemId),
    /// Checked addition.
    Add(Box<Expr>, Box<Expr>),
    /// Checked multiplication.
    Mul(Box<Expr>, Box<Expr>),
    /// Raises a runtime error carrying the given message.
    Fail(String),
    /// A call of a callable, with its argument list and call site.
    Call(GlobalId, Vec<Expr>, Span),
}

/// An executable statement of one fragment.
#[derive(Debug)]
pub enum Stmt {
    /// Evaluate an expression; its value becomes the running result.
    Expr(Expr),
    /// Bind a fresh variable in the innermost scope.
    Let(LocalItemId, Expr),
    /// Overwrite the innermost existing binding of a variable.
    Assign(LocalItemId, Expr),
    /// Send a message to the output sink.
    Message(String),
}

/// The signature and body of one function-like unit.
#[derive(Debug)]
pub struct CallableDecl {
    /// Display name, used when rendering stack traces.
    pub name: String,
    /// Parameter variable ids, bound in a fresh scope at each call.
    pub params: Vec<LocalItemId>,
    /// The body; its value is the call's value.
    pub body: Expr,
}

/// What one declared item is.
#[derive(Debug)]
pub enum ItemKind {
    /// A callable declaration; the only kind this core acts on.
    Callable(CallableDecl),
    /// Any other kind of item; discarded by the dispatcher.
    Other,
}

/// One declared item of a fragment, with its id local to its package.
#[derive(Debug)]
pub struct Item {
    pub id: LocalItemId,
    pub kind: ItemKind,
}

/// One compile diagnostic, for the initial sources or for one line.
#[derive(Clone, PartialEq, Eq, Debug)]
pub struct CompileError {
    pub message: String,
    pub span: Span,
}

/// One classified unit of output from compiling a single line.
#[derive(Debug)]
pub enum Fragment {
    /// A declaration.
    Item(Item),
    /// Executable code.
    Stmt(Stmt),
    /// The line failed to compile; one or more diagnostics.
    Error(Vec<CompileError>),
}

} // verus!
