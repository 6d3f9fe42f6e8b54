//! Abstract syntax of the source language.
//!
//! Every node is built by the concrete-syntax parser, stays immutable across
//! the analyses, and is discarded with the report. The enum is closed: each
//! analyzer matches exhaustively on it.

use vstd::prelude::*;

verus! {

/// A named I/O resource that a capability can guard.
#[derive(Debug, Clone, PartialEq, Eq, Hash)]
pub enum ResourceType {
    UartTx,
    UartRx,
    Gpio,
    I2c,
    Spi,
    SensorRead,
    NetworkSend,
    NetworkRecv,
}

/// Types of the source language.
#[derive(Debug, PartialEq, Eq, Hash)]
pub enum Type {
    Int32,
    Int64,
    Uint32,
    Uint64,
    Float32,
    Float64,
    Bool,
    String,
    Void,
    Array { elem_type: Box<Type>, size: usize },
    Capability { resource: ResourceType },
    Function { params: Vec<Type>, return_type: Box<Type> },
}

/// A formal parameter with an optional type annotation.
#[derive(Debug, PartialEq, Eq)]
pub struct Parameter {
    pub name: String,
    pub type_annotation: Option<Type>,
}

impl Parameter {
    pub fn new(name: String, type_annotation: Option<Type>) -> (r: Self)
        ensures
            r.name == name,
            r.type_annotation == type_annotation,
    {
        Self { name, type_annotation }
    }
}

/// One dimension of a resource budget.
#[derive(Debug, Clone, PartialEq, Eq)]
pub enum ResourceKind {
    TimeMs,
    MemoryBytes,
    NetworkBytes,
    StorageBytes,
}

/// A declared amount of one resource kind.
#[derive(Debug, Clone, PartialEq, Eq)]
pub struct ResourceSpec {
    pub kind: ResourceKind,
    pub amount: u64,
}

impl ResourceSpec {
    pub fn new(kind: ResourceKind, amount: u64) -> (r: Self)
        ensures
            r.kind == kind,
            r.amount == amount,
    {
        Self { kind, amount }
    }
}

/// Phase classification of an expression. `Mixed` is the error value:
/// deploy-time syntax that transitively holds a compile-only form.
#[derive(Debug, Clone, PartialEq, Eq, Structural)]
pub enum Phase {
    Compile,
    Deploy,
    Mixed,
}

/// An expression of the source language.
///
/// The `Float` payload is the IEEE-754 bit pattern of the literal; no
/// analysis interprets it, so it is carried as plain bits and the front end
/// converts at the boundary.
#[derive(Debug, PartialEq)]
pub enum Expr {
    // Literals and names
    Int(i64),
    Float(u64),
    Bool(bool),
    String(String),
    Ident(String),
    // Deploy-time constructs
    DefunDeploy { name: String, params: Vec<Parameter>, return_type: Option<Type>, body: Vec<Expr> },
    BoundedFor { var: String, start: Box<Expr>, end: Box<Expr>, body: Vec<Expr> },
    WithCapability { capability: Box<Expr>, body: Vec<Expr> },
    // Compile-time constructs
    DefunCompile { name: String, params: Vec<Parameter>, return_type: Option<Type>, body: Vec<Expr> },
    Macro { name: String, params: Vec<Parameter>, body: Vec<Expr> },
    EvalCompile(Box<Expr>),
    Include(String),
    For { var: String, iterable: Box<Expr>, body: Vec<Expr> },
    While { condition: Box<Expr>, body: Vec<Expr> },
    // Common constructs
    Let { bindings: Vec<(String, Expr)>, body: Vec<Expr> },
    SetVar { var: String, value: Box<Expr> },
    If { condition: Box<Expr>, then_branch: Box<Expr>, else_branch: Box<Expr> },
    FunctionCall { func: Box<Expr>, args: Vec<Expr> },
    // Array operations
    ArrayLiteral { elem_type: Type, size: usize },
    ArrayGet { array: Box<Expr>, index: Box<Expr> },
    ArraySet { array: Box<Expr>, index: Box<Expr>, value: Box<Expr> },
    ArrayLength(Box<Expr>),
    // I/O operations
    GpioSet { device: Box<Expr>, value: Box<Expr> },
    GpioGet(Box<Expr>),
    UartSend { device: Box<Expr>, data: Box<Expr> },
    UartRecv(Box<Expr>),
    SensorRead(Box<Expr>),
    NetworkSend { device: Box<Expr>, data: Box<Expr> },
    NetworkRecv(Box<Expr>),
    SleepMs(Box<Expr>),
    Timestamp,
    // Resource management
    ResourceBudget { specs: Vec<ResourceSpec> },
    DefCap { name: String, params: Vec<Parameter>, description: String },
    // Program envelope
    Program { name: String, budget: Box<Expr>, forms: Vec<Expr> },
}

/// A node is compile-only exactly when its kind is one of the six
/// compile-time constructs.
pub open spec fn spec_is_compile_only(e: Expr) -> bool {
    match e {
        Expr::DefunCompile { .. } => true,
        Expr::Macro { .. } => true,
        Expr::EvalCompile(_) => true,
        Expr::Include(_) => true,
        Expr::For { .. } => true,
        Expr::While { .. } => true,
        _ => false,
    }
}

/// No node of the subtree rooted at `e` (through every kind of
/// sub-expression) is compile-only.
pub open spec fn compile_free(e: Expr) -> bool
    decreases e,
{
    match e {
        Expr::Int(_) => true,
        Expr::Float(_) => true,
        Expr::Bool(_) => true,
        Expr::String(_) => true,
        Expr::Ident(_) => true,
        Expr::DefunDeploy { body, .. } => all_compile_free(body@),
        Expr::BoundedFor { start, end, body, .. } => compile_free(*start) && compile_free(*end)
            && all_compile_free(body@),
        Expr::WithCapability { capability, body } => compile_free(*capability) && all_compile_free(
            body@,
        ),
        Expr::DefunCompile { .. } => false,
        Expr::Macro { .. } => false,
        Expr::EvalCompile(_) => false,
        Expr::Include(_) => false,
        Expr::For { .. } => false,
        Expr::While { .. } => false,
        Expr::Let { bindings, body } => all_bindings_compile_free(bindings@) && all_compile_free(
            body@,
        ),
        Expr::SetVar { value, .. } => compile_free(*value),
        Expr::If { condition, then_branch, else_branch } => compile_free(*condition)
            && compile_free(*then_branch) && compile_free(*else_branch),
        Expr::FunctionCall { func, args } => compile_free(*func) && all_compile_free(args@),
        Expr::ArrayLiteral { .. } => true,
        Expr::ArrayGet { array, index } => compile_free(*array) && compile_free(*index),
        Expr::ArraySet { array, index, value } => compile_free(*array) && compile_free(*index)
            && compile_free(*value),
        Expr::ArrayLength(a) => compile_free(*a),
        Expr::GpioSet { device, value } => compile_free(*device) && compile_free(*value),
        Expr::GpioGet(d) => compile_free(*d),
        Expr::UartSend { device, data } => compile_free(*device) && compile_free(*data),
        Expr::UartRecv(d) => compile_free(*d),
        Expr::SensorRead(d) => compile_free(*d),
        Expr::NetworkSend { device, data } => compile_free(*device) && compile_free(*data),
        Expr::NetworkRecv(d) => compile_free(*d),
        Expr::SleepMs(m) => compile_free(*m),
        Expr::Timestamp => true,
        Expr::ResourceBudget { .. } => true,
        Expr::DefCap { .. } => true,
        Expr::Program { budget, forms, .. } => compile_free(*budget) && all_compile_free(forms@),
    }
}

/// Every element of the sequence is compile-free.
pub open spec fn all_compile_free(es: Seq<Expr>) -> bool
    decreases es,
{
    forall|i: int| 0 <= i < es.len() ==> compile_free(#[trigger] es[i])
}

/// Every right-hand side of a binding list is compile-free.
pub open spec fn all_bindings_compile_free(bs: Seq<(String, Expr)>) -> bool
    decreases bs,
{
    forall|i: int| 0 <= i < bs.len() ==> compile_free(#[trigger] bs[i].1)
}

/// The phase of an expression: a compile-only kind is `Compile`; any other
/// kind that transitively holds a compile-only form is `Mixed`; everything
/// else, literals included, defaults to `Deploy`.
pub open spec fn phase_of(e: Expr) -> Phase {
    if spec_is_compile_only(e) {
        Phase::Compile
    } else if !compile_free(e) {
        Phase::Mixed
    } else {
        Phase::Deploy
    }
}

/// The partial bound evaluator: an expression reduces to a constant exactly
/// when it is an integer literal (the baseline does not constant-fold).
pub open spec fn spec_eval_const(e: Expr) -> Option<i64> {
    match e {
        Expr::Int(n) => Some(n),
        _ => None,
    }
}

/// The iteration count of a bounded loop over `[s, e)`: `e - s`, or zero
/// when the range is empty.
pub open spec fn iter_count(s: i64, e: i64) -> u64 {
    if e >= s {
        (e - s) as u64
    } else {
        0
    }
}

/// Whether `sub` occurs as a node of the subtree rooted at `e`, through
/// every kind of sub-expression, `e` itself included.
pub open spec fn occurs_in(sub: Expr, e: Expr) -> bool
    decreases e,
{
    ||| e == sub
    ||| match e {
        Expr::Int(_) => false,
        Expr::Float(_) => false,
        Expr::Bool(_) => false,
        Expr::String(_) => false,
        Expr::Ident(_) => false,
        Expr::DefunDeploy { body, .. } => occurs_in_list(sub, body@),
        Expr::BoundedFor { start, end, body, .. } => occurs_in(sub, *start) || occurs_in(
            sub,
            *end,
        ) || occurs_in_list(sub, body@),
        Expr::WithCapability { capability, body } => occurs_in(sub, *capability) || occurs_in_list(
            sub,
            body@,
        ),
        Expr::DefunCompile { body, .. } => occurs_in_list(sub, body@),
        Expr::Macro { body, .. } => occurs_in_list(sub, body@),
        Expr::EvalCompile(inner) => occurs_in(sub, *inner),
        Expr::Include(_) => false,
        Expr::For { iterable, body, .. } => occurs_in(sub, *iterable) || occurs_in_list(
            sub,
            body@,
        ),
        Expr::While { condition, body } => occurs_in(sub, *condition) || occurs_in_list(
            sub,
            body@,
        ),
        Expr::Let { bindings, body } => occurs_in_bindings(sub, bindings@) || occurs_in_list(
            sub,
            body@,
        ),
        Expr::SetVar { value, .. } => occurs_in(sub, *value),
        Expr::If { condition, then_branch, else_branch } => occurs_in(sub, *condition)
            || occurs_in(sub, *then_branch) || occurs_in(sub, *else_branch),
        Expr::FunctionCall { func, args } => occurs_in(sub, *func) || occurs_in_list(sub, args@),
        Expr::ArrayLiteral { .. } => false,
        Expr::ArrayGet { array, index } => occurs_in(sub, *array) || occurs_in(sub, *index),
        Expr::ArraySet { array, index, value } => occurs_in(sub, *array) || occurs_in(
            sub,
            *index,
        ) || occurs_in(sub, *value),
        Expr::ArrayLength(a) => occurs_in(sub, *a),
        Expr::GpioSet { device, value } => occurs_in(sub, *device) || occurs_in(sub, *value),
        Expr::GpioGet(d) => occurs_in(sub, *d),
        Expr::UartSend { device, data } => occurs_in(sub, *device) || occurs_in(sub, *data),
        Expr::UartRecv(d) => occurs_in(sub, *d),
        Expr::SensorRead(d) => occurs_in(sub, *d),
        Expr::NetworkSend { device, data } => occurs_in(sub, *device) || occurs_in(sub, *data),
        Expr::NetworkRecv(d) => occurs_in(sub, *d),
        Expr::SleepMs(m) => occurs_in(sub, *m),
        Expr::Timestamp => false,
        Expr::ResourceBudget { .. } => false,
        Expr::DefCap { .. } => false,
        Expr::Program { budget, forms, .. } => occurs_in(sub, *budget) || occurs_in_list(
            sub,
            forms@,
        ),
    }
}

/// Whether `sub` occurs in some expression of the list.
pub open spec fn occurs_in_list(sub: Expr, es: Seq<Expr>) -> bool
    decreases es,
{
    exists|i: int| 0 <= i < es.len() && occurs_in(sub, #[trigger] es[i])
}

/// Whether `sub` occurs in some right-hand side of a binding list.
pub open spec fn occurs_in_bindings(sub: Expr, bs: Seq<(String, Expr)>) -> bool
    decreases bs,
{
    exists|i: int| 0 <= i < bs.len() && occurs_in(sub, (#[trigger] bs[i]).1)
}

impl Expr {
    /// Whether this node's kind is one of the six compile-time constructs.
    pub fn is_compile_only(&self) -> (r: bool)
        ensures
            r == spec_is_compile_only(*self),
    {
        match self {
            Expr::DefunCompile { .. } => true,
            Expr::Macro { .. } => true,
            Expr::EvalCompile(_) => true,
            Expr::Include(_) => true,
            Expr::For { .. } => true,
            Expr::While { .. } => true,
            _ => false,
        }
    }
}

} // verus!
