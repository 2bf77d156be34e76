//! The code HIR compiles to: the WebAssembly instructions of each
//! expression and statement.
//!
//! Every JavaScript value is an `f64` NaN-box. Runtime operations are calls
//! to functions imported from the JavaScript bridge, at fixed indices.

use vstd::prelude::*;
use crate::double_bits::int_to_double_bits;
use crate::hir::{
    Expr, Stmt, BinaryOp, CompareOp, LogicalOp, UnaryOp, UpdateOp, SwitchCase, ObjectField,
    CatchClause, HirModule, HirFunction, Global,
};

verus! {

/// NaN-box of `undefined`.
pub const TAG_UNDEFINED: u64 = 0x7FFC_0000_0000_0001;

/// NaN-box of `null`.
pub const TAG_NULL: u64 = 0x7FFC_0000_0000_0002;

/// NaN-box of `false`.
pub const TAG_FALSE: u64 = 0x7FFC_0000_0000_0003;

/// NaN-box of `true`.
pub const TAG_TRUE: u64 = 0x7FFC_0000_0000_0004;

/// The top 16 bits of a NaN-boxed string id.
pub const STRING_TAG: u64 = 0x7FFF;

/// Bits of the double `1.0`.
pub const F64_ONE: u64 = 0x3FF0_0000_0000_0000;

/// Bits of the double `5.0`, the platform id of the web.
pub const F64_FIVE: u64 = 0x4014_0000_0000_0000;

/// Bits of the canonical quiet NaN.
pub const F64_NAN: u64 = 0x7FF8_0000_0000_0000;

// Indices of the functions imported from the runtime bridge, in import order.
pub const RT_STRING_NEW: u32 = 0;
pub const RT_CONSOLE_LOG: u32 = 1;
pub const RT_CONSOLE_WARN: u32 = 2;
pub const RT_CONSOLE_ERROR: u32 = 3;
pub const RT_STRING_CONCAT: u32 = 4;
pub const RT_JS_ADD: u32 = 5;
pub const RT_STRING_EQ: u32 = 6;
pub const RT_STRING_LEN: u32 = 7;
pub const RT_JSVALUE_TO_STRING: u32 = 8;
pub const RT_IS_TRUTHY: u32 = 9;
pub const RT_JS_STRICT_EQ: u32 = 10;
pub const RT_MATH_FLOOR: u32 = 11;
pub const RT_MATH_CEIL: u32 = 12;
pub const RT_MATH_ROUND: u32 = 13;
pub const RT_MATH_ABS: u32 = 14;
pub const RT_MATH_SQRT: u32 = 15;
pub const RT_MATH_POW: u32 = 16;
pub const RT_MATH_RANDOM: u32 = 17;
pub const RT_MATH_LOG: u32 = 18;
pub const RT_DATE_NOW: u32 = 19;
pub const RT_JS_TYPEOF: u32 = 20;
pub const RT_MATH_MIN: u32 = 21;
pub const RT_MATH_MAX: u32 = 22;
pub const RT_PARSE_INT: u32 = 23;
pub const RT_PARSE_FLOAT: u32 = 24;

/// The number of imported runtime functions.
pub const NUM_RUNTIME_IMPORTS: u32 = 25;

/// The result type of a structured control instruction.
#[derive(Clone, Copy, PartialEq, Eq, Structural)]
pub enum BlockKind {
    Empty,
    F64,
}

/// The WebAssembly instructions the emitter produces.
#[derive(Clone, Copy, PartialEq, Eq, Structural)]
pub enum WasmInstr {
    /// `f64.const` with the given bit pattern.
    F64Const(u64),
    I32Const(i32),
    Call(u32),
    End,
    LocalGet(u32),
    LocalSet(u32),
    LocalTee(u32),
    GlobalGet(u32),
    GlobalSet(u32),
    Drop,
    Return,
    If(BlockKind),
    Else,
    Block(BlockKind),
    Loop(BlockKind),
    Br(u32),
    BrIf(u32),
    I32Eqz,
    Unreachable,
    F64Add,
    F64Sub,
    F64Mul,
    F64Div,
    F64Neg,
    F64Abs,
    F64Floor,
    F64Ceil,
    F64Sqrt,
    F64Nearest,
    F64Min,
    F64Max,
    F64Lt,
    F64Le,
    F64Gt,
    F64Ge,
    I32TruncF64S,
    I32Xor,
    F64ConvertI32S,
}

/// What the translation of an expression depends on.
pub struct EmitEnv {
    /// Interned string literals; a literal is boxed by its index here.
    pub strings: Seq<Seq<char>>,
    /// HIR function id to WebAssembly function index.
    pub funcs: Map<u32, u32>,
    /// HIR function id to whether the function leaves a result.
    pub results: Map<u32, bool>,
    /// HIR global id to WebAssembly global index.
    pub globals: Map<u32, u32>,
    /// HIR local id to WebAssembly local index.
    pub locals: Map<u32, u32>,
}

/// The id of a string literal: its index in the table, or 0 if it was not
/// interned.
pub open spec fn string_id(strings: Seq<Seq<char>>, s: Seq<char>) -> nat {
    if exists|i: int| 0 <= i < strings.len() && strings[i] == s {
        (choose|i: int| 0 <= i < strings.len() && strings[i] == s) as nat
    } else {
        0
    }
}

pub open spec fn undef() -> Seq<WasmInstr> {
    seq![WasmInstr::F64Const(TAG_UNDEFINED)]
}

/// Turns the `i32` on the stack into a NaN-boxed boolean.
pub open spec fn bool_of_i32() -> Seq<WasmInstr> {
    seq![
        WasmInstr::If(BlockKind::F64),
        WasmInstr::F64Const(TAG_TRUE),
        WasmInstr::Else,
        WasmInstr::F64Const(TAG_FALSE),
        WasmInstr::End,
    ]
}

pub open spec fn lit_console() -> Seq<char> {
    seq!['c', 'o', 'n', 's', 'o', 'l', 'e']
}

pub open spec fn lit_node_prefix() -> Seq<char> {
    seq!['n', 'o', 'd', 'e', ':']
}

pub open spec fn lit_log() -> Seq<char> {
    seq!['l', 'o', 'g']
}

pub open spec fn lit_warn() -> Seq<char> {
    seq!['w', 'a', 'r', 'n']
}

pub open spec fn lit_error() -> Seq<char> {
    seq!['e', 'r', 'r', 'o', 'r']
}

/// A module name without its `node:` prefix.
pub open spec fn strip_node(m: Seq<char>) -> Seq<char> {
    if m.len() >= 5 && m.take(5) == lit_node_prefix() {
        m.skip(5)
    } else {
        m
    }
}

/// The console import that a console method name selects.
pub open spec fn console_import(method: Seq<char>) -> Option<u32> {
    if method == lit_log() {
        Some(RT_CONSOLE_LOG)
    } else if method == lit_warn() {
        Some(RT_CONSOLE_WARN)
    } else if method == lit_error() {
        Some(RT_CONSOLE_ERROR)
    } else {
        None
    }
}

/// `console.log(..)` and its siblings as HIR writes them: a call whose
/// callee reads property `log`, `warn` or `error` of a global.
pub open spec fn console_callee(callee: Expr) -> Option<u32> {
    match callee {
        Expr::PropertyGet { object, property } => match *object {
            Expr::GlobalGet(_) => console_import(property@),
            _ => None,
        },
        _ => None,
    }
}

/// Whether a call of user function `id` leaves a value: a function that is
/// known and declared without a result leaves none; an unknown one is
/// replaced by `undefined`.
pub open spec fn call_has_value(env: EmitEnv, id: u32) -> bool {
    !(env.funcs.contains_key(id) && env.results.contains_key(id) && !env.results[id])
}

/// Whether the code of `e` leaves a value on the stack (else it leaves
/// nothing): native module calls and console calls leave none, and neither
/// does a call of a user function without a result.
pub open spec fn has_value(env: EmitEnv, e: Expr) -> bool {
    match e {
        Expr::NativeMethodCall { .. } => false,
        Expr::Call { callee, .. } => console_callee(*callee) is None && match *callee {
            Expr::FuncRef(id) => call_has_value(env, id),
            _ => true,
        },
        _ => true,
    }
}

/// `n` drops.
pub open spec fn drops(n: nat) -> Seq<WasmInstr>
    decreases n,
{
    if n == 0 {
        Seq::empty()
    } else {
        drops((n - 1) as nat).push(WasmInstr::Drop)
    }
}

pub open spec fn binary_op_code(op: BinaryOp) -> Seq<WasmInstr> {
    match op {
        BinaryOp::Add => seq![WasmInstr::Call(RT_JS_ADD)],
        BinaryOp::Sub => seq![WasmInstr::F64Sub],
        BinaryOp::Mul => seq![WasmInstr::F64Mul],
        BinaryOp::Div => seq![WasmInstr::F64Div],
        BinaryOp::Mod => seq![WasmInstr::F64Div],
        BinaryOp::Pow => seq![WasmInstr::Call(RT_MATH_POW)],
        _ => seq![WasmInstr::F64Add],
    }
}

pub open spec fn compare_op_code(op: CompareOp) -> Seq<WasmInstr> {
    match op {
        CompareOp::Eq => seq![WasmInstr::Call(RT_JS_STRICT_EQ)],
        CompareOp::Ne => seq![WasmInstr::Call(RT_JS_STRICT_EQ), WasmInstr::I32Eqz],
        CompareOp::Lt => seq![WasmInstr::F64Lt],
        CompareOp::Le => seq![WasmInstr::F64Le],
        CompareOp::Gt => seq![WasmInstr::F64Gt],
        CompareOp::Ge => seq![WasmInstr::F64Ge],
    }
}

pub open spec fn update_op_code(op: UpdateOp) -> WasmInstr {
    match op {
        UpdateOp::Increment => WasmInstr::F64Add,
        UpdateOp::Decrement => WasmInstr::F64Sub,
    }
}

/// The code of an expression.
pub open spec fn expr_code(env: EmitEnv, e: Expr) -> Seq<WasmInstr>
    decreases e,
{
    match e {
        Expr::Number(bits) => seq![WasmInstr::F64Const(bits)],
        Expr::Integer(i) => seq![WasmInstr::F64Const(int_to_double_bits(i as int))],
        Expr::Bool(b) => seq![WasmInstr::F64Const(if b { TAG_TRUE } else { TAG_FALSE })],
        Expr::Undefined => undef(),
        Expr::Null => seq![WasmInstr::F64Const(TAG_NULL)],
        Expr::String(s) => seq![
            WasmInstr::F64Const((STRING_TAG << 48u64) | (string_id(env.strings, s@) as u32 as u64)),
        ],
        Expr::LocalGet(id) => if env.locals.contains_key(id) {
            seq![WasmInstr::LocalGet(env.locals[id])]
        } else {
            undef()
        },
        Expr::LocalSet(id, v) => expr_code(env, *v) + if env.locals.contains_key(id) {
            seq![WasmInstr::LocalTee(env.locals[id])]
        } else {
            Seq::empty()
        },
        Expr::GlobalGet(id) => if env.globals.contains_key(id) {
            seq![WasmInstr::GlobalGet(env.globals[id])]
        } else {
            undef()
        },
        Expr::GlobalSet(id, v) => expr_code(env, *v) + if env.globals.contains_key(id) {
            seq![WasmInstr::GlobalSet(env.globals[id]), WasmInstr::GlobalGet(env.globals[id])]
        } else {
            Seq::empty()
        },
        Expr::Update { id, op, prefix } => if env.locals.contains_key(id) {
            let idx = env.locals[id];
            if prefix {
                seq![
                    WasmInstr::LocalGet(idx),
                    WasmInstr::F64Const(F64_ONE),
                    update_op_code(op),
                    WasmInstr::LocalTee(idx),
                ]
            } else {
                seq![
                    WasmInstr::LocalGet(idx),
                    WasmInstr::LocalGet(idx),
                    WasmInstr::F64Const(F64_ONE),
                    update_op_code(op),
                    WasmInstr::LocalSet(idx),
                ]
            }
        } else {
            seq![WasmInstr::F64Const(F64_NAN)]
        },
        Expr::Binary { op, left, right } => expr_code(env, *left) + expr_code(env, *right)
            + binary_op_code(op),
        Expr::Compare { op, left, right } => expr_code(env, *left) + expr_code(env, *right)
            + compare_op_code(op) + bool_of_i32(),
        Expr::Logical { op, left, right } => match op {
            LogicalOp::And => expr_code(env, *left) + seq![
                WasmInstr::Call(RT_IS_TRUTHY),
                WasmInstr::If(BlockKind::F64),
            ] + expr_code(env, *right) + seq![WasmInstr::Else] + expr_code(env, *left) + seq![
                WasmInstr::End,
            ],
            _ => expr_code(env, *left) + seq![
                WasmInstr::Call(RT_IS_TRUTHY),
                WasmInstr::If(BlockKind::F64),
            ] + expr_code(env, *left) + seq![WasmInstr::Else] + expr_code(env, *right) + seq![
                WasmInstr::End,
            ],
        },
        Expr::Unary { op, operand } => expr_code(env, *operand) + match op {
            UnaryOp::Neg => seq![WasmInstr::F64Neg],
            UnaryOp::Pos => Seq::empty(),
            UnaryOp::Not => seq![WasmInstr::Call(RT_IS_TRUTHY), WasmInstr::I32Eqz] + bool_of_i32(),
            UnaryOp::BitNot => seq![
                WasmInstr::I32TruncF64S,
                WasmInstr::I32Const(-1i32),
                WasmInstr::I32Xor,
                WasmInstr::F64ConvertI32S,
            ],
        },
        Expr::Call { callee, args } => match console_callee(*callee) {
            Some(f) => console_args_code(env, args@, f),
            None => args_code(env, args@) + match *callee {
                Expr::FuncRef(id) => if env.funcs.contains_key(id) {
                    seq![WasmInstr::Call(env.funcs[id])]
                } else {
                    drops(args@.len()) + undef()
                },
                _ => drops(args@.len()) + undef(),
            },
        },
        Expr::NativeMethodCall { module, method, args } => if strip_node(module@) == lit_console() {
            match console_import(method@) {
                Some(f) => console_args_code(env, args@, f),
                None => Seq::empty(),
            }
        } else {
            Seq::empty()
        },
        Expr::Conditional { condition, then_expr, else_expr } => expr_code(env, *condition) + seq![
            WasmInstr::Call(RT_IS_TRUTHY),
            WasmInstr::If(BlockKind::F64),
        ] + expr_code(env, *then_expr) + seq![WasmInstr::Else] + expr_code(env, *else_expr) + seq![
            WasmInstr::End,
        ],
        Expr::MathFloor(x) => expr_code(env, *x) + seq![WasmInstr::F64Floor],
        Expr::MathCeil(x) => expr_code(env, *x) + seq![WasmInstr::F64Ceil],
        Expr::MathAbs(x) => expr_code(env, *x) + seq![WasmInstr::F64Abs],
        Expr::MathSqrt(x) => expr_code(env, *x) + seq![WasmInstr::F64Sqrt],
        Expr::MathRound(x) => expr_code(env, *x) + seq![WasmInstr::F64Nearest],
        Expr::MathPow(b, x) => expr_code(env, *b) + expr_code(env, *x) + seq![
            WasmInstr::Call(RT_MATH_POW),
        ],
        Expr::MathMin(args) => if args@.len() == 2 {
            expr_code(env, args@[0]) + expr_code(env, args@[1]) + seq![WasmInstr::F64Min]
        } else {
            undef()
        },
        Expr::MathMax(args) => if args@.len() == 2 {
            expr_code(env, args@[0]) + expr_code(env, args@[1]) + seq![WasmInstr::F64Max]
        } else {
            undef()
        },
        Expr::MathRandom => seq![WasmInstr::Call(RT_MATH_RANDOM)],
        Expr::TypeOf(x) => expr_code(env, *x) + seq![WasmInstr::Call(RT_JS_TYPEOF)],
        Expr::Await(x) => expr_code(env, *x),
        Expr::DateNow => seq![WasmInstr::Call(RT_DATE_NOW)],
        Expr::Sequence(es) => if es@.len() == 0 {
            undef()
        } else {
            sequence_code(env, es@)
        },
        Expr::FuncRef(_) => undef(),
        _ => undef(),
    }
}

/// Each argument followed by a call of the console import `f`.
pub open spec fn console_args_code(env: EmitEnv, args: Seq<Expr>, f: u32) -> Seq<WasmInstr>
    decreases args,
{
    if args.len() == 0 {
        Seq::empty()
    } else {
        console_args_code(env, args.drop_last(), f) + expr_code(env, args.last()) + seq![
            WasmInstr::Call(f),
        ]
    }
}

/// The arguments, left to right.
pub open spec fn args_code(env: EmitEnv, args: Seq<Expr>) -> Seq<WasmInstr>
    decreases args,
{
    if args.len() == 0 {
        Seq::empty()
    } else {
        args_code(env, args.drop_last()) + expr_code(env, args.last())
    }
}

/// A non-empty sequence expression: each value but the last is dropped.
pub open spec fn sequence_code(env: EmitEnv, es: Seq<Expr>) -> Seq<WasmInstr>
    decreases es,
{
    if es.len() <= 1 {
        if es.len() == 1 { expr_code(env, es[0]) } else { Seq::empty() }
    } else {
        sequence_code(env, es.drop_last()) + seq![WasmInstr::Drop] + expr_code(env, es.last())
    }
}


/// `is_truthy` of the value on the stack, then a branch out of the enclosing
/// loop when it is false.
pub open spec fn exit_unless_truthy() -> Seq<WasmInstr> {
    seq![WasmInstr::Call(RT_IS_TRUTHY), WasmInstr::I32Eqz, WasmInstr::BrIf(1)]
}

/// The code of an expression evaluated for its effect: its value, if it
/// leaves one, is dropped.
pub open spec fn discarded_code(env: EmitEnv, e: Expr) -> Seq<WasmInstr> {
    expr_code(env, e) + if has_value(env, e) {
        seq![WasmInstr::Drop]
    } else {
        Seq::empty()
    }
}

/// The code of a statement. `ret` tells whether the enclosing function
/// returns a value.
pub open spec fn stmt_code(env: EmitEnv, s: Stmt, ret: bool) -> Seq<WasmInstr>
    decreases s,
{
    match s {
        Stmt::Let { id, init, .. } => (match init {
            Some(e) => expr_code(env, e),
            None => undef(),
        }) + if env.locals.contains_key(id) {
            seq![WasmInstr::LocalSet(env.locals[id])]
        } else {
            seq![WasmInstr::Drop]
        },
        Stmt::Expr(e) => discarded_code(env, e),
        Stmt::Return(oe) => (match oe {
            Some(e) => expr_code(env, e),
            None => if ret { undef() } else { Seq::empty() },
        }) + seq![WasmInstr::Return],
        Stmt::If { condition, then_branch, else_branch } => expr_code(env, condition) + seq![
            WasmInstr::Call(RT_IS_TRUTHY),
            WasmInstr::If(BlockKind::Empty),
        ] + stmts_code(env, then_branch@, ret) + match else_branch {
            Some(eb) => seq![WasmInstr::Else] + stmts_code(env, eb@, ret),
            None => Seq::empty(),
        } + seq![WasmInstr::End],
        Stmt::While { condition, body } => seq![
            WasmInstr::Block(BlockKind::Empty),
            WasmInstr::Loop(BlockKind::Empty),
        ] + expr_code(env, condition) + exit_unless_truthy() + stmts_code(env, body@, ret) + seq![
            WasmInstr::Br(0),
            WasmInstr::End,
            WasmInstr::End,
        ],
        Stmt::For { init, condition, update, body } => (match init {
            Some(i) => stmt_code(env, *i, ret),
            None => Seq::empty(),
        }) + seq![WasmInstr::Block(BlockKind::Empty), WasmInstr::Loop(BlockKind::Empty)]
            + match condition {
            Some(c) => expr_code(env, c) + exit_unless_truthy(),
            None => Seq::empty(),
        } + stmts_code(env, body@, ret) + match update {
            Some(u) => discarded_code(env, u),
            None => Seq::empty(),
        } + seq![WasmInstr::Br(0), WasmInstr::End, WasmInstr::End],
        Stmt::Break => seq![WasmInstr::Br(1)],
        Stmt::Continue => seq![WasmInstr::Br(0)],
        Stmt::Throw(e) => expr_code(env, e) + seq![
            WasmInstr::Call(RT_CONSOLE_ERROR),
            WasmInstr::Unreachable,
        ],
        Stmt::Try { body, .. } => stmts_code(env, body@, ret),
        Stmt::Switch { discriminant, cases } => expr_code(env, discriminant) + seq![WasmInstr::Drop]
            + cases_code(env, cases@, ret),
    }
}

/// Statements in order.
pub open spec fn stmts_code(env: EmitEnv, ss: Seq<Stmt>, ret: bool) -> Seq<WasmInstr>
    decreases ss,
{
    if ss.len() == 0 {
        Seq::empty()
    } else {
        stmts_code(env, ss.drop_last(), ret) + stmt_code(env, ss.last(), ret)
    }
}

/// The bodies of the cases of a switch, in order (the tests are not
/// evaluated).
pub open spec fn cases_code(env: EmitEnv, cs: Seq<SwitchCase>, ret: bool) -> Seq<WasmInstr>
    decreases cs,
{
    if cs.len() == 0 {
        Seq::empty()
    } else {
        cases_code(env, cs.drop_last(), ret) + stmts_code(env, cs.last().body@, ret)
    }
}


/// A table after interning `x`: unchanged when `x` is in it, else `x` is
/// appended.
pub open spec fn intern1<T>(t: Seq<T>, x: T) -> Seq<T> {
    if t.contains(x) {
        t
    } else {
        t.push(x)
    }
}

/// A table after interning each element of `xs` in order.
pub open spec fn intern_all<T>(t: Seq<T>, xs: Seq<T>) -> Seq<T>
    decreases xs.len(),
{
    if xs.len() == 0 {
        t
    } else {
        intern1(intern_all(t, xs.drop_last()), xs.last())
    }
}

/// The string literals of an expression, in the order the collection pass
/// visits them (property names and object keys included).
pub open spec fn expr_lits(e: Expr) -> Seq<Seq<char>>
    decreases e,
{
    match e {
        Expr::String(s) => seq![s@],
        Expr::Binary { left, right, .. } => expr_lits(*left) + expr_lits(*right),
        Expr::Compare { left, right, .. } => expr_lits(*left) + expr_lits(*right),
        Expr::Logical { left, right, .. } => expr_lits(*left) + expr_lits(*right),
        Expr::Unary { operand, .. } => expr_lits(*operand),
        Expr::Call { callee, args } => expr_lits(*callee) + exprs_lits(args@),
        Expr::LocalSet(_, v) => expr_lits(*v),
        Expr::GlobalSet(_, v) => expr_lits(*v),
        Expr::Conditional { condition, then_expr, else_expr } => expr_lits(*condition) + expr_lits(
            *then_expr,
        ) + expr_lits(*else_expr),
        Expr::Closure { body, .. } => stmts_lits(body@),
        Expr::NativeMethodCall { args, .. } => exprs_lits(args@),
        Expr::Array(elems) => exprs_lits(elems@),
        Expr::Object(fields) => fields_lits(fields@),
        Expr::PropertyGet { object, property } => expr_lits(*object) + seq![property@],
        Expr::PropertySet { object, property, value } => expr_lits(*object) + expr_lits(*value)
            + seq![property@],
        Expr::IndexGet { object, index } => expr_lits(*object) + expr_lits(*index),
        Expr::IndexSet { object, index, value } => expr_lits(*object) + expr_lits(*index)
            + expr_lits(*value),
        Expr::Await(x) => expr_lits(*x),
        Expr::TypeOf(x) => expr_lits(*x),
        Expr::Void(x) => expr_lits(*x),
        Expr::New { args, .. } => exprs_lits(args@),
        Expr::MathFloor(x) => expr_lits(*x),
        Expr::MathCeil(x) => expr_lits(*x),
        Expr::MathAbs(x) => expr_lits(*x),
        Expr::MathSqrt(x) => expr_lits(*x),
        Expr::MathRound(x) => expr_lits(*x),
        Expr::MathPow(b, x) => expr_lits(*b) + expr_lits(*x),
        Expr::MathMin(args) => exprs_lits(args@),
        Expr::MathMax(args) => exprs_lits(args@),
        Expr::Delete(x) => expr_lits(*x),
        Expr::SuperCall(args) => exprs_lits(args@),
        Expr::InstanceOf { expr, .. } => expr_lits(*expr),
        Expr::In { property, object } => expr_lits(*property) + expr_lits(*object),
        Expr::Sequence(es) => exprs_lits(es@),
        _ => Seq::empty(),
    }
}

pub open spec fn exprs_lits(es: Seq<Expr>) -> Seq<Seq<char>>
    decreases es,
{
    if es.len() == 0 {
        Seq::empty()
    } else {
        exprs_lits(es.drop_last()) + expr_lits(es.last())
    }
}

/// Each key, then its value.
pub open spec fn fields_lits(fs: Seq<ObjectField>) -> Seq<Seq<char>>
    decreases fs,
{
    if fs.len() == 0 {
        Seq::empty()
    } else {
        fields_lits(fs.drop_last()) + seq![fs.last().key@] + expr_lits(fs.last().value)
    }
}

pub open spec fn opt_expr_lits(oe: Option<Expr>) -> Seq<Seq<char>> {
    match oe {
        Some(e) => expr_lits(e),
        None => Seq::empty(),
    }
}

pub open spec fn stmt_lits(s: Stmt) -> Seq<Seq<char>>
    decreases s,
{
    match s {
        Stmt::Let { init, .. } => match init {
            Some(e) => expr_lits(e),
            None => Seq::empty(),
        },
        Stmt::Expr(e) => expr_lits(e),
        Stmt::Return(oe) => match oe {
            Some(e) => expr_lits(e),
            None => Seq::empty(),
        },
        Stmt::If { condition, then_branch, else_branch } => expr_lits(condition) + stmts_lits(
            then_branch@,
        ) + match else_branch {
            Some(eb) => stmts_lits(eb@),
            None => Seq::empty(),
        },
        Stmt::While { condition, body } => expr_lits(condition) + stmts_lits(body@),
        Stmt::For { init, condition, update, body } => (match init {
            Some(i) => stmt_lits(*i),
            None => Seq::empty(),
        }) + (match condition {
            Some(c) => expr_lits(c),
            None => Seq::empty(),
        }) + (match update {
            Some(u) => expr_lits(u),
            None => Seq::empty(),
        }) + stmts_lits(body@),
        Stmt::Throw(e) => expr_lits(e),
        Stmt::Try { body, catch, finally } => stmts_lits(body@) + (match catch {
            Some(c) => stmts_lits(c.body@),
            None => Seq::empty(),
        }) + match finally {
            Some(f) => stmts_lits(f@),
            None => Seq::empty(),
        },
        Stmt::Switch { discriminant, cases } => expr_lits(discriminant) + cases_lits(cases@),
        Stmt::Break => Seq::empty(),
        Stmt::Continue => Seq::empty(),
    }
}

pub open spec fn stmts_lits(ss: Seq<Stmt>) -> Seq<Seq<char>>
    decreases ss,
{
    if ss.len() == 0 {
        Seq::empty()
    } else {
        stmts_lits(ss.drop_last()) + stmt_lits(ss.last())
    }
}

/// Each case's test, then its body.
pub open spec fn cases_lits(cs: Seq<SwitchCase>) -> Seq<Seq<char>>
    decreases cs,
{
    if cs.len() == 0 {
        Seq::empty()
    } else {
        cases_lits(cs.drop_last()) + (match cs.last().test {
            Some(t) => expr_lits(t),
            None => Seq::empty(),
        }) + stmts_lits(cs.last().body@)
    }
}


/// Whether a statement contains a `return` (not looking into expressions).
pub open spec fn stmt_returns(s: Stmt) -> bool
    decreases s,
{
    match s {
        Stmt::Return(_) => true,
        Stmt::If { then_branch, else_branch, .. } => stmts_return(then_branch@) || match else_branch {
            Some(eb) => stmts_return(eb@),
            None => false,
        },
        Stmt::While { body, .. } => stmts_return(body@),
        Stmt::For { body, .. } => stmts_return(body@),
        Stmt::Try { body, catch, finally } => stmts_return(body@) || (match catch {
            Some(c) => stmts_return(c.body@),
            None => false,
        }) || match finally {
            Some(f) => stmts_return(f@),
            None => false,
        },
        Stmt::Switch { cases, .. } => cases_return(cases@),
        _ => false,
    }
}

/// Whether the body of any case contains a `return`.
pub open spec fn cases_return(cs: Seq<SwitchCase>) -> bool
    decreases cs,
{
    if cs.len() == 0 {
        false
    } else {
        cases_return(cs.drop_last()) || stmts_return(cs.last().body@)
    }
}

pub open spec fn stmts_return(ss: Seq<Stmt>) -> bool
    decreases ss,
{
    if ss.len() == 0 {
        false
    } else {
        stmts_return(ss.drop_last()) || stmt_returns(ss.last())
    }
}

/// Local slots of the `let` declarations of a body (and of `catch`
/// parameters), numbered from `offset + count` in order of first
/// appearance (a `for` header before its body). Returns the extended map
/// and the new count.
pub open spec fn locals_of_stmts(ss: Seq<Stmt>, m: Map<u32, u32>, count: u32, offset: u32) -> (Map<u32, u32>, u32)
    decreases ss,
{
    if ss.len() == 0 {
        (m, count)
    } else {
        let (m1, c1) = locals_of_stmts(ss.drop_last(), m, count, offset);
        locals_of_stmt(ss.last(), m1, c1, offset)
    }
}

/// Declares `id` unless it is already declared.
pub open spec fn declare_local(id: u32, m: Map<u32, u32>, count: u32, offset: u32) -> (Map<u32, u32>, u32) {
    if m.contains_key(id) {
        (m, count)
    } else {
        (m.insert(id, offset.wrapping_add(count)), count.wrapping_add(1))
    }
}

pub open spec fn locals_of_stmt(s: Stmt, m: Map<u32, u32>, count: u32, offset: u32) -> (Map<u32, u32>, u32)
    decreases s,
{
    match s {
        Stmt::Let { id, .. } => declare_local(id, m, count, offset),
        Stmt::If { then_branch, else_branch, .. } => {
            let (m1, c1) = locals_of_stmts(then_branch@, m, count, offset);
            match else_branch {
                Some(eb) => locals_of_stmts(eb@, m1, c1, offset),
                None => (m1, c1),
            }
        },
        Stmt::While { body, .. } => locals_of_stmts(body@, m, count, offset),
        Stmt::For { init, body, .. } => {
            let (m1, c1) = match init {
                Some(i) => locals_of_stmt(*i, m, count, offset),
                None => (m, count),
            };
            locals_of_stmts(body@, m1, c1, offset)
        },
        Stmt::Try { body, catch, finally } => {
            let (m1, c1) = locals_of_stmts(body@, m, count, offset);
            let (m2, c2) = match catch {
                Some(c) => {
                    let (m3, c3) = match c.param {
                        Some(id) => declare_local(id, m1, c1, offset),
                        None => (m1, c1),
                    };
                    locals_of_stmts(c.body@, m3, c3, offset)
                },
                None => (m1, c1),
            };
            match finally {
                Some(f) => locals_of_stmts(f@, m2, c2, offset),
                None => (m2, c2),
            }
        },
        Stmt::Switch { cases, .. } => locals_of_cases(cases@, m, count, offset),
        _ => (m, count),
    }
}

pub open spec fn locals_of_cases(cs: Seq<SwitchCase>, m: Map<u32, u32>, count: u32, offset: u32) -> (Map<u32, u32>, u32)
    decreases cs,
{
    if cs.len() == 0 {
        (m, count)
    } else {
        let (m1, c1) = locals_of_cases(cs.drop_last(), m, count, offset);
        locals_of_stmts(cs.last().body@, m1, c1, offset)
    }
}

/// A comparison compiles to its two operands, the WebAssembly test with the
/// same meaning (strict equality through the runtime, its negation for
/// `!=`, and `f64.lt`, `f64.le`, `f64.gt`, `f64.ge` for `<`, `<=`, `>`,
/// `>=`), and the boxing of the `i32` it gives as `true` or `false`.
pub proof fn lemma_compare_code(env: EmitEnv, op: CompareOp, left: Expr, right: Expr)
    ensures
        expr_code(env, Expr::Compare { op, left: Box::new(left), right: Box::new(right) })
            == expr_code(env, left) + expr_code(env, right) + (match op {
            CompareOp::Eq => seq![WasmInstr::Call(RT_JS_STRICT_EQ)],
            CompareOp::Ne => seq![WasmInstr::Call(RT_JS_STRICT_EQ), WasmInstr::I32Eqz],
            CompareOp::Lt => seq![WasmInstr::F64Lt],
            CompareOp::Le => seq![WasmInstr::F64Le],
            CompareOp::Gt => seq![WasmInstr::F64Gt],
            CompareOp::Ge => seq![WasmInstr::F64Ge],
        }) + seq![
            WasmInstr::If(BlockKind::F64),
            WasmInstr::F64Const(0x7FFC_0000_0000_0004u64),
            WasmInstr::Else,
            WasmInstr::F64Const(0x7FFC_0000_0000_0003u64),
            WasmInstr::End,
        ],
{
}

/// Arithmetic compiles to its operands and the operation with the same
/// meaning: `+` through the runtime's `js_add` (strings concatenate),
/// `-`, `*`, `/` as `f64.sub`, `f64.mul`, `f64.div`, `%` approximated by
/// `f64.div`, `**` through `math_pow`, the bitwise operators by the
/// placeholder `f64.add`.
pub proof fn lemma_binary_code(env: EmitEnv, op: BinaryOp, left: Expr, right: Expr)
    ensures
        expr_code(env, Expr::Binary { op, left: Box::new(left), right: Box::new(right) })
            == expr_code(env, left) + expr_code(env, right) + match op {
            BinaryOp::Add => seq![WasmInstr::Call(5u32)],
            BinaryOp::Sub => seq![WasmInstr::F64Sub],
            BinaryOp::Mul => seq![WasmInstr::F64Mul],
            BinaryOp::Div => seq![WasmInstr::F64Div],
            BinaryOp::Mod => seq![WasmInstr::F64Div],
            BinaryOp::Pow => seq![WasmInstr::Call(16u32)],
            _ => seq![WasmInstr::F64Add],
        },
{
}

/// `-x` negates, `+x` is `x`, `!x` is `true` exactly when `x` is not
/// truthy, and `~x` is the 32-bit complement (xor with -1) of `x`
/// truncated to an integer.
pub proof fn lemma_unary_code(env: EmitEnv, op: UnaryOp, x: Expr)
    ensures
        expr_code(env, Expr::Unary { op, operand: Box::new(x) }) == expr_code(env, x) + match op {
            UnaryOp::Neg => seq![WasmInstr::F64Neg],
            UnaryOp::Pos => Seq::<WasmInstr>::empty(),
            UnaryOp::Not => seq![
                WasmInstr::Call(9u32),
                WasmInstr::I32Eqz,
                WasmInstr::If(BlockKind::F64),
                WasmInstr::F64Const(0x7FFC_0000_0000_0004u64),
                WasmInstr::Else,
                WasmInstr::F64Const(0x7FFC_0000_0000_0003u64),
                WasmInstr::End,
            ],
            UnaryOp::BitNot => seq![
                WasmInstr::I32TruncF64S,
                WasmInstr::I32Const(-1i32),
                WasmInstr::I32Xor,
                WasmInstr::F64ConvertI32S,
            ],
        },
{
}

/// `i++`/`++i` add one and `i--`/`--i` subtract one; the prefix form
/// leaves the new value, the postfix form the old one.
pub proof fn lemma_update_code(env: EmitEnv, id: u32, op: UpdateOp, prefix: bool)
    requires
        env.locals.contains_key(id),
    ensures
        ({
            let idx = env.locals[id];
            let step = match op {
                UpdateOp::Increment => WasmInstr::F64Add,
                UpdateOp::Decrement => WasmInstr::F64Sub,
            };
            expr_code(env, Expr::Update { id, op, prefix }) == if prefix {
                seq![
                    WasmInstr::LocalGet(idx),
                    WasmInstr::F64Const(0x3FF0_0000_0000_0000u64),
                    step,
                    WasmInstr::LocalTee(idx),
                ]
            } else {
                seq![
                    WasmInstr::LocalGet(idx),
                    WasmInstr::LocalGet(idx),
                    WasmInstr::F64Const(0x3FF0_0000_0000_0000u64),
                    step,
                    WasmInstr::LocalSet(idx),
                ]
            }
        }),
{
}

/// The `Math` functions compile to the instruction with the same meaning:
/// `floor`, `ceil`, `abs`, `sqrt`, `round` (to nearest), two-argument
/// `min` and `max`; `pow`, `random` and `Date.now` call the runtime.
pub proof fn lemma_math_code(env: EmitEnv, x: Expr, y: Expr)
    ensures
        expr_code(env, Expr::MathFloor(Box::new(x))) == expr_code(env, x) + seq![WasmInstr::F64Floor],
        expr_code(env, Expr::MathCeil(Box::new(x))) == expr_code(env, x) + seq![WasmInstr::F64Ceil],
        expr_code(env, Expr::MathAbs(Box::new(x))) == expr_code(env, x) + seq![WasmInstr::F64Abs],
        expr_code(env, Expr::MathSqrt(Box::new(x))) == expr_code(env, x) + seq![WasmInstr::F64Sqrt],
        expr_code(env, Expr::MathRound(Box::new(x))) == expr_code(env, x) + seq![WasmInstr::F64Nearest],
        expr_code(env, Expr::MathPow(Box::new(x), Box::new(y))) == expr_code(env, x) + expr_code(env, y)
            + seq![WasmInstr::Call(16u32)],
        expr_code(env, Expr::MathRandom) == seq![WasmInstr::Call(17u32)],
        expr_code(env, Expr::DateNow) == seq![WasmInstr::Call(19u32)],
        expr_code(env, Expr::TypeOf(Box::new(x))) == expr_code(env, x) + seq![WasmInstr::Call(20u32)],
{
}

/// `console.log`, `console.warn` and `console.error` (also from module
/// `node:console`) print each argument with the runtime's function of the
/// same name; other console methods print nothing.
pub proof fn lemma_console_methods()
    ensures
        console_import("log"@) == Some(1u32),
        console_import("warn"@) == Some(2u32),
        console_import("error"@) == Some(3u32),
        strip_node("node:console"@) == "console"@,
        strip_node("console"@) == "console"@,
        lit_console() == "console"@,
{
    reveal_strlit("log");
    reveal_strlit("warn");
    reveal_strlit("error");
    reveal_strlit("node:console");
    reveal_strlit("console");
    assert("log"@ =~= lit_log());
    assert("warn"@ =~= lit_warn());
    assert("error"@ =~= lit_error());
    assert("node:console"@.take(5) =~= lit_node_prefix());
    assert("node:console"@.skip(5) =~= "console"@);
    assert("console"@ =~= lit_console());
    assert("console"@.take(5) != lit_node_prefix());
}

/// The control statements: `break` leaves the block around the innermost
/// loop (`br 1`), `continue` goes back to the loop (`br 0`), `return`
/// returns its value (`undefined` in a function with a result when there is
/// none), `throw` reports its value with `console_error` and traps, and a
/// `while` loop is a block around a loop that leaves when the condition is
/// not truthy, runs the body and branches back.
pub proof fn lemma_control_code(env: EmitEnv, e: Expr, body: Vec<Stmt>, ret: bool)
    ensures
        stmt_code(env, Stmt::Break, ret) == seq![WasmInstr::Br(1u32)],
        stmt_code(env, Stmt::Continue, ret) == seq![WasmInstr::Br(0u32)],
        stmt_code(env, Stmt::Return(Some(e)), ret) == expr_code(env, e) + seq![WasmInstr::Return],
        stmt_code(env, Stmt::Return(None), ret) == (if ret {
            seq![WasmInstr::F64Const(0x7FFC_0000_0000_0001u64), WasmInstr::Return]
        } else {
            seq![WasmInstr::Return]
        }),
        stmt_code(env, Stmt::Throw(e), ret) == expr_code(env, e) + seq![
            WasmInstr::Call(3u32),
            WasmInstr::Unreachable,
        ],
        stmt_code(env, Stmt::While { condition: e, body }, ret) == seq![
            WasmInstr::Block(BlockKind::Empty),
            WasmInstr::Loop(BlockKind::Empty),
        ] + expr_code(env, e) + seq![
            WasmInstr::Call(9u32),
            WasmInstr::I32Eqz,
            WasmInstr::BrIf(1u32),
        ] + stmts_code(env, body@, ret) + seq![
            WasmInstr::Br(0u32),
            WasmInstr::End,
            WasmInstr::End,
        ],
{
    assert(stmt_code(env, Stmt::Return(None), ret) =~= (if ret {
        seq![WasmInstr::F64Const(0x7FFC_0000_0000_0001u64), WasmInstr::Return]
    } else {
        seq![WasmInstr::Return]
    }));
}

} // verus!
