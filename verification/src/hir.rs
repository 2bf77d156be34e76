//! The subset of Perry's high-level IR that the WebAssembly emitter reads.
//!
//! Numbers are carried as the bit patterns of their IEEE-754 doubles, so that
//! no floating-point value runs through the verified code.

use vstd::prelude::*;

verus! {

pub type LocalId = u32;

pub type FuncId = u32;

pub type GlobalId = u32;

pub type ClassId = u32;

#[derive(Clone, Copy, PartialEq, Eq, Structural)]
pub enum BinaryOp {
    Add,
    Sub,
    Mul,
    Div,
    Mod,
    Pow,
    BitAnd,
    BitOr,
    BitXor,
    Shl,
    Shr,
    UShr,
}

#[derive(Clone, Copy, PartialEq, Eq, Structural)]
pub enum CompareOp {
    Eq,
    Ne,
    Lt,
    Le,
    Gt,
    Ge,
}

#[derive(Clone, Copy, PartialEq, Eq, Structural)]
pub enum LogicalOp {
    And,
    Or,
    Coalesce,
}

#[derive(Clone, Copy, PartialEq, Eq, Structural)]
pub enum UnaryOp {
    Neg,
    Pos,
    Not,
    BitNot,
}

#[derive(Clone, Copy, PartialEq, Eq, Structural)]
pub enum UpdateOp {
    Increment,
    Decrement,
}

/// A key/value pair of an object literal.
pub struct ObjectField {
    pub key: String,
    pub value: Expr,
}

pub enum Expr {
    /// A number literal, as the bits of its IEEE-754 double.
    Number(u64),
    Integer(i64),
    Bool(bool),
    Undefined,
    Null,
    String(String),
    LocalGet(LocalId),
    LocalSet(LocalId, Box<Expr>),
    GlobalGet(GlobalId),
    GlobalSet(GlobalId, Box<Expr>),
    Update { id: LocalId, op: UpdateOp, prefix: bool },
    Binary { op: BinaryOp, left: Box<Expr>, right: Box<Expr> },
    Compare { op: CompareOp, left: Box<Expr>, right: Box<Expr> },
    Logical { op: LogicalOp, left: Box<Expr>, right: Box<Expr> },
    Unary { op: UnaryOp, operand: Box<Expr> },
    Call { callee: Box<Expr>, args: Vec<Expr> },
    FuncRef(FuncId),
    ExternFuncRef { name: String },
    NativeMethodCall { module: String, method: String, args: Vec<Expr> },
    Conditional { condition: Box<Expr>, then_expr: Box<Expr>, else_expr: Box<Expr> },
    MathFloor(Box<Expr>),
    MathCeil(Box<Expr>),
    MathAbs(Box<Expr>),
    MathSqrt(Box<Expr>),
    MathRound(Box<Expr>),
    MathPow(Box<Expr>, Box<Expr>),
    MathMin(Vec<Expr>),
    MathMax(Vec<Expr>),
    MathRandom,
    TypeOf(Box<Expr>),
    Await(Box<Expr>),
    Void(Box<Expr>),
    Delete(Box<Expr>),
    ClassRef(ClassId),
    This,
    SuperCall(Vec<Expr>),
    New { class_name: String, args: Vec<Expr> },
    Array(Vec<Expr>),
    Object(Vec<ObjectField>),
    PropertyGet { object: Box<Expr>, property: String },
    PropertySet { object: Box<Expr>, property: String, value: Box<Expr> },
    IndexGet { object: Box<Expr>, index: Box<Expr> },
    IndexSet { object: Box<Expr>, index: Box<Expr>, value: Box<Expr> },
    InstanceOf { expr: Box<Expr>, ty: String },
    In { property: Box<Expr>, object: Box<Expr> },
    Closure { func_id: FuncId, body: Vec<Stmt> },
    DateNow,
    Sequence(Vec<Expr>),
}

pub struct CatchClause {
    pub param: Option<LocalId>,
    pub body: Vec<Stmt>,
}

pub struct SwitchCase {
    pub test: Option<Expr>,
    pub body: Vec<Stmt>,
}

pub enum Stmt {
    Let { id: LocalId, name: String, init: Option<Expr> },
    Expr(Expr),
    Return(Option<Expr>),
    If { condition: Expr, then_branch: Vec<Stmt>, else_branch: Option<Vec<Stmt>> },
    While { condition: Expr, body: Vec<Stmt> },
    For {
        init: Option<Box<Stmt>>,
        condition: Option<Expr>,
        update: Option<Expr>,
        body: Vec<Stmt>,
    },
    Break,
    Continue,
    Throw(Expr),
    Try { body: Vec<Stmt>, catch: Option<CatchClause>, finally: Option<Vec<Stmt>> },
    Switch { discriminant: Expr, cases: Vec<SwitchCase> },
}

pub struct Param {
    pub id: LocalId,
    pub name: String,
}

pub struct HirFunction {
    pub id: FuncId,
    pub name: String,
    pub params: Vec<Param>,
    pub body: Vec<Stmt>,
}

pub struct Global {
    pub id: GlobalId,
    pub name: String,
    pub init: Option<Expr>,
}

pub struct HirModule {
    pub name: String,
    pub functions: Vec<HirFunction>,
    pub globals: Vec<Global>,
    pub init: Vec<Stmt>,
}

} // verus!
