//! Structured control in the emitted code: the code of an expression or a
//! statement closes with `end` every `block`, `loop` and `if` it opens,
//! and never closes one it did not open.

use vstd::prelude::*;
use crate::hir::{Expr, Stmt, SwitchCase, Global, HirModule};
use crate::wasm_module::{
    module_view, init_strings_code, globals_init_code, modules_init_code, function_locals,
    function_returns, flat_functions, start_env, flat_globals,
};
use crate::wasm_code::{
    WasmInstr, EmitEnv, expr_code, stmt_code, stmts_code, cases_code, args_code, console_args_code,
    sequence_code, drops, binary_op_code, compare_op_code, console_callee, console_import,
};

verus! {

/// What one instruction does to the nesting of structured control.
pub open spec fn nesting_step(i: WasmInstr) -> int {
    match i {
        WasmInstr::Block(_) => 1,
        WasmInstr::Loop(_) => 1,
        WasmInstr::If(_) => 1,
        WasmInstr::End => -1,
        _ => 0,
    }
}

/// How many `block`, `loop` and `if` the code opens, less the `end`s.
pub open spec fn nesting(code: Seq<WasmInstr>) -> int
    decreases code.len(),
{
    if code.len() == 0 {
        0
    } else {
        nesting(code.drop_last()) + nesting_step(code.last())
    }
}

pub broadcast proof fn lemma_nesting_push(code: Seq<WasmInstr>, i: WasmInstr)
    ensures
        #[trigger] nesting(code.push(i)) == nesting(code) + nesting_step(i),
{
    assert(code.push(i).drop_last() =~= code);
}

pub broadcast proof fn lemma_nesting_add(a: Seq<WasmInstr>, b: Seq<WasmInstr>)
    ensures
        #[trigger] nesting(a + b) == nesting(a) + nesting(b),
    decreases b.len(),
{
    if b.len() == 0 {
        assert(a + b =~= a);
    } else {
        lemma_nesting_add(a, b.drop_last());
        assert((a + b).drop_last() =~= a + b.drop_last());
    }
}

/// The nesting of a short sequence, instruction by instruction.
pub open spec fn short_nesting(s: Seq<WasmInstr>) -> int {
    (if s.len() > 0 { nesting_step(s[0]) } else { 0 }) + (if s.len() > 1 {
        nesting_step(s[1])
    } else {
        0
    }) + (if s.len() > 2 { nesting_step(s[2]) } else { 0 }) + (if s.len() > 3 {
        nesting_step(s[3])
    } else {
        0
    }) + (if s.len() > 4 { nesting_step(s[4]) } else { 0 })
}

pub broadcast proof fn lemma_nesting_short(s: Seq<WasmInstr>)
    requires
        s.len() <= 5,
    ensures
        #[trigger] nesting(s) == short_nesting(s),
    decreases s.len(),
{
    if s.len() > 0 {
        lemma_nesting_short(s.drop_last());
    }
}

/// The least nesting over the prefixes of the code, the empty one included:
/// 0 when no `end` closes more than the code opened before it.
pub open spec fn min_depth(code: Seq<WasmInstr>) -> int
    decreases code.len(),
{
    if code.len() == 0 {
        0
    } else {
        let m = min_depth(code.drop_last());
        if nesting(code) < m {
            nesting(code)
        } else {
            m
        }
    }
}

pub open spec fn min2(a: int, b: int) -> int {
    if a < b {
        a
    } else {
        b
    }
}

proof fn lemma_min_depth_le(code: Seq<WasmInstr>)
    ensures
        min_depth(code) <= nesting(code),
        min_depth(code) <= 0,
    decreases code.len(),
{
    if code.len() > 0 {
        lemma_min_depth_le(code.drop_last());
    }
}

pub broadcast proof fn lemma_min_depth_add(a: Seq<WasmInstr>, b: Seq<WasmInstr>)
    ensures
        #[trigger] min_depth(a + b) == min2(min_depth(a), nesting(a) + min_depth(b)),
    decreases b.len(),
{
    lemma_min_depth_le(a);
    if b.len() == 0 {
        assert(a + b =~= a);
    } else {
        lemma_min_depth_add(a, b.drop_last());
        assert((a + b).drop_last() =~= a + b.drop_last());
        lemma_nesting_add(a, b);
    }
}

pub broadcast proof fn lemma_min_depth_push(code: Seq<WasmInstr>, i: WasmInstr)
    ensures
        #[trigger] min_depth(code.push(i)) == min2(min_depth(code), nesting(code) + nesting_step(i)),
{
    assert(code.push(i).drop_last() =~= code);
    lemma_nesting_push(code, i);
}

/// The least nesting over the prefixes of a short sequence.
pub open spec fn short_min_depth(s: Seq<WasmInstr>) -> int {
    min2(
        0,
        min2(
            if s.len() > 0 { short_nesting(s.take(1)) } else { 0 },
            min2(
                if s.len() > 1 { short_nesting(s.take(2)) } else { 0 },
                min2(
                    if s.len() > 2 { short_nesting(s.take(3)) } else { 0 },
                    min2(
                        if s.len() > 3 { short_nesting(s.take(4)) } else { 0 },
                        if s.len() > 4 { short_nesting(s.take(5)) } else { 0 },
                    ),
                ),
            ),
        ),
    )
}

pub broadcast proof fn lemma_min_depth_short(s: Seq<WasmInstr>)
    requires
        s.len() <= 5,
    ensures
        #[trigger] min_depth(s) == short_min_depth(s),
    decreases s.len(),
{
    broadcast use lemma_nesting_short;
    if s.len() > 0 {
        lemma_min_depth_short(s.drop_last());
        let d = s.drop_last();
        assert forall|k: int| 0 <= k <= d.len() implies #[trigger] d.take(k) =~= s.take(k) by {}
        assert(s.take(s.len() as int) =~= s);
    }
}

proof fn lemma_nesting_empty()
    ensures
        nesting(Seq::<WasmInstr>::empty()) == 0,
        min_depth(Seq::<WasmInstr>::empty()) == 0,
{
}

proof fn lemma_drops_flat(n: nat)
    ensures
        nesting(drops(n)) == 0,
        min_depth(drops(n)) == 0,
    decreases n,
{
    broadcast use {lemma_nesting_push, lemma_min_depth_push};
    lemma_nesting_empty();
    if n > 0 {
        lemma_drops_flat((n - 1) as nat);
    }
}

/// The code of an expression closes every structured instruction it opens.
pub proof fn lemma_expr_code_balanced(env: EmitEnv, e: Expr)
    ensures
        nesting(expr_code(env, e)) == 0,
        min_depth(expr_code(env, e)) == 0,
    decreases e,
{
    broadcast use {lemma_nesting_push, lemma_nesting_add, lemma_nesting_short, lemma_min_depth_add, lemma_min_depth_short, lemma_min_depth_push};
    lemma_nesting_empty();
    match e {
        Expr::LocalGet(id) => {
            if env.locals.contains_key(id) {
                assert(nesting(seq![WasmInstr::LocalGet(env.locals[id])]) == 0);
            }
        },
        Expr::GlobalGet(id) => {
            if env.globals.contains_key(id) {
                assert(nesting(seq![WasmInstr::GlobalGet(env.globals[id])]) == 0);
            }
        },
        Expr::LocalSet(id, v) => {
            lemma_expr_code_balanced(env, *v);
            if env.locals.contains_key(id) {
                assert(nesting(seq![WasmInstr::LocalTee(env.locals[id])]) == 0);
            }
        },
        Expr::GlobalSet(id, v) => {
            lemma_expr_code_balanced(env, *v);
            if env.globals.contains_key(id) {
                let g = env.globals[id];
                assert(nesting(seq![WasmInstr::GlobalSet(g), WasmInstr::GlobalGet(g)]) == 0);
            }
        },
        Expr::Binary { op, left, right } => {
            lemma_expr_code_balanced(env, *left);
            lemma_expr_code_balanced(env, *right);
            match op {
                crate::hir::BinaryOp::Add => assert(nesting(binary_op_code(op)) == 0),
                crate::hir::BinaryOp::Pow => assert(nesting(binary_op_code(op)) == 0),
                _ => assert(nesting(binary_op_code(op)) == 0),
            }
        },
        Expr::Compare { op, left, right } => {
            lemma_expr_code_balanced(env, *left);
            lemma_expr_code_balanced(env, *right);
            match op {
                crate::hir::CompareOp::Eq => assert(nesting(compare_op_code(op)) == 0),
                crate::hir::CompareOp::Ne => assert(nesting(compare_op_code(op)) == 0),
                _ => assert(nesting(compare_op_code(op)) == 0),
            }
        },
        Expr::Logical { op, left, right } => {
            lemma_expr_code_balanced(env, *left);
            lemma_expr_code_balanced(env, *right);
        },
        Expr::Unary { op, operand } => {
            lemma_expr_code_balanced(env, *operand);
        },
        Expr::Call { callee, args } => {
            match console_callee(*callee) {
                Some(f) => lemma_console_args_balanced(env, args@, f),
                None => {
                    lemma_args_balanced(env, args@);
                    lemma_drops_flat(args@.len());
                    match *callee {
                        Expr::FuncRef(id) => {
                            if env.funcs.contains_key(id) {
                                assert(nesting(seq![WasmInstr::Call(env.funcs[id])]) == 0);
                            }
                        },
                        _ => {},
                    }
                },
            }
        },
        Expr::NativeMethodCall { module, method, args } => {
            match console_import(method@) {
                Some(f) => lemma_console_args_balanced(env, args@, f),
                None => {},
            }
        },
        Expr::Conditional { condition, then_expr, else_expr } => {
            lemma_expr_code_balanced(env, *condition);
            lemma_expr_code_balanced(env, *then_expr);
            lemma_expr_code_balanced(env, *else_expr);
        },
        Expr::MathFloor(x) => lemma_expr_code_balanced(env, *x),
        Expr::MathCeil(x) => lemma_expr_code_balanced(env, *x),
        Expr::MathAbs(x) => lemma_expr_code_balanced(env, *x),
        Expr::MathSqrt(x) => lemma_expr_code_balanced(env, *x),
        Expr::MathRound(x) => lemma_expr_code_balanced(env, *x),
        Expr::MathPow(b, x) => {
            lemma_expr_code_balanced(env, *b);
            lemma_expr_code_balanced(env, *x);
        },
        Expr::MathMin(args) => {
            if args@.len() == 2 {
                lemma_expr_code_balanced(env, args@[0]);
                lemma_expr_code_balanced(env, args@[1]);
            }
        },
        Expr::MathMax(args) => {
            if args@.len() == 2 {
                lemma_expr_code_balanced(env, args@[0]);
                lemma_expr_code_balanced(env, args@[1]);
            }
        },
        Expr::TypeOf(x) => lemma_expr_code_balanced(env, *x),
        Expr::Await(x) => lemma_expr_code_balanced(env, *x),
        Expr::Sequence(es) => {
            if es@.len() > 0 {
                lemma_sequence_balanced(env, es@);
            }
        },
        _ => {},
    }
}

proof fn lemma_args_balanced(env: EmitEnv, args: Seq<Expr>)
    ensures
        nesting(args_code(env, args)) == 0,
        min_depth(args_code(env, args)) == 0,
    decreases args,
{
    broadcast use {lemma_nesting_add, lemma_min_depth_add};
    lemma_nesting_empty();
    if args.len() > 0 {
        lemma_args_balanced(env, args.drop_last());
        lemma_expr_code_balanced(env, args.last());
    }
}

proof fn lemma_console_args_balanced(env: EmitEnv, args: Seq<Expr>, f: u32)
    ensures
        nesting(console_args_code(env, args, f)) == 0,
        min_depth(console_args_code(env, args, f)) == 0,
    decreases args,
{
    broadcast use {lemma_nesting_push, lemma_nesting_add, lemma_nesting_short, lemma_min_depth_add, lemma_min_depth_short, lemma_min_depth_push};
    lemma_nesting_empty();
    if args.len() > 0 {
        lemma_console_args_balanced(env, args.drop_last(), f);
        lemma_expr_code_balanced(env, args.last());
    }
}

proof fn lemma_sequence_balanced(env: EmitEnv, es: Seq<Expr>)
    ensures
        nesting(sequence_code(env, es)) == 0,
        min_depth(sequence_code(env, es)) == 0,
    decreases es,
{
    broadcast use {lemma_nesting_push, lemma_nesting_add, lemma_nesting_short, lemma_min_depth_add, lemma_min_depth_short, lemma_min_depth_push};
    lemma_nesting_empty();
    if es.len() == 1 {
        lemma_expr_code_balanced(env, es[0]);
    } else if es.len() > 1 {
        lemma_sequence_balanced(env, es.drop_last());
        lemma_expr_code_balanced(env, es.last());
    }
}

/// The code of a statement closes every structured instruction it opens.
pub proof fn lemma_stmt_code_balanced(env: EmitEnv, s: Stmt, ret: bool)
    ensures
        nesting(stmt_code(env, s, ret)) == 0,
        min_depth(stmt_code(env, s, ret)) == 0,
    decreases s,
{
    broadcast use {lemma_nesting_push, lemma_nesting_add, lemma_nesting_short, lemma_min_depth_add, lemma_min_depth_short, lemma_min_depth_push};
    lemma_nesting_empty();
    match s {
        Stmt::Let { id, init, .. } => {
            if let Some(e) = init {
                lemma_expr_code_balanced(env, e);
            }
            if env.locals.contains_key(id) {
                assert(nesting(seq![WasmInstr::LocalSet(env.locals[id])]) == 0);
            }
        },
        Stmt::Expr(e) => lemma_expr_code_balanced(env, e),
        Stmt::Return(oe) => {
            if let Some(e) = oe {
                lemma_expr_code_balanced(env, e);
            }
        },
        Stmt::If { condition, then_branch, else_branch } => {
            lemma_expr_code_balanced(env, condition);
            lemma_stmts_code_balanced(env, then_branch@, ret);
            if let Some(eb) = else_branch {
                lemma_stmts_code_balanced(env, eb@, ret);
            }
        },
        Stmt::While { condition, body } => {
            lemma_expr_code_balanced(env, condition);
            lemma_stmts_code_balanced(env, body@, ret);
        },
        Stmt::For { init, condition, update, body } => {
            if let Some(i) = init {
                lemma_stmt_code_balanced(env, *i, ret);
            }
            if let Some(c) = condition {
                lemma_expr_code_balanced(env, c);
            }
            if let Some(u) = update {
                lemma_expr_code_balanced(env, u);
            }
            lemma_stmts_code_balanced(env, body@, ret);
        },
        Stmt::Throw(e) => lemma_expr_code_balanced(env, e),
        Stmt::Try { body, .. } => lemma_stmts_code_balanced(env, body@, ret),
        Stmt::Switch { discriminant, cases } => {
            lemma_expr_code_balanced(env, discriminant);
            lemma_cases_code_balanced(env, cases@, ret);
        },
        _ => {},
    }
}

/// Statements in order close every structured instruction they open.
pub proof fn lemma_stmts_code_balanced(env: EmitEnv, ss: Seq<Stmt>, ret: bool)
    ensures
        nesting(stmts_code(env, ss, ret)) == 0,
        min_depth(stmts_code(env, ss, ret)) == 0,
    decreases ss,
{
    broadcast use {lemma_nesting_add, lemma_min_depth_add};
    lemma_nesting_empty();
    if ss.len() > 0 {
        lemma_stmts_code_balanced(env, ss.drop_last(), ret);
        lemma_stmt_code_balanced(env, ss.last(), ret);
    }
}

proof fn lemma_cases_code_balanced(env: EmitEnv, cs: Seq<SwitchCase>, ret: bool)
    ensures
        nesting(cases_code(env, cs, ret)) == 0,
        min_depth(cases_code(env, cs, ret)) == 0,
    decreases cs,
{
    broadcast use {lemma_nesting_add, lemma_min_depth_add};
    lemma_nesting_empty();
    if cs.len() > 0 {
        lemma_cases_code_balanced(env, cs.drop_last(), ret);
        lemma_stmts_code_balanced(env, cs.last().body@, ret);
    }
}

proof fn lemma_init_strings_flat(lits: Seq<Seq<char>>)
    ensures
        nesting(init_strings_code(lits)) == 0,
        min_depth(init_strings_code(lits)) == 0,
    decreases lits.len(),
{
    broadcast use {lemma_nesting_push, lemma_nesting_add, lemma_nesting_short, lemma_min_depth_add, lemma_min_depth_short, lemma_min_depth_push};
    lemma_nesting_empty();
    if lits.len() > 0 {
        lemma_init_strings_flat(lits.drop_last());
    }
}

proof fn lemma_globals_init_flat(env: EmitEnv, gs: Seq<Global>)
    ensures
        nesting(globals_init_code(env, gs)) == 0,
        min_depth(globals_init_code(env, gs)) == 0,
    decreases gs.len(),
{
    broadcast use {lemma_nesting_push, lemma_nesting_add, lemma_nesting_short, lemma_min_depth_add, lemma_min_depth_short, lemma_min_depth_push};
    lemma_nesting_empty();
    if gs.len() > 0 {
        lemma_globals_init_flat(env, gs.drop_last());
        if let Some(e) = gs.last().init {
            lemma_expr_code_balanced(env, e);
        }
    }
}

proof fn lemma_modules_init_flat(env: EmitEnv, ms: Seq<(String, HirModule)>)
    ensures
        nesting(modules_init_code(env, ms)) == 0,
        min_depth(modules_init_code(env, ms)) == 0,
    decreases ms.len(),
{
    broadcast use {lemma_nesting_add, lemma_min_depth_add};
    if ms.len() > 0 {
        lemma_modules_init_flat(env, ms.drop_last());
        lemma_stmts_code_balanced(env, ms.last().1.init@, false);
    }
}

/// Every function body of a compiled module is well nested: its code
/// before the final `end` never closes more blocks, loops and ifs than it
/// opened, and closes all it opens; the final `end` closes the body.
pub proof fn lemma_module_bodies_balanced(ms: Seq<(String, HirModule)>, k: int)
    requires
        0 <= k < module_view(ms).code.len(),
    ensures
        module_view(ms).code[k].1.len() > 0,
        module_view(ms).code[k].1.last() == WasmInstr::End,
        nesting(module_view(ms).code[k].1.drop_last()) == 0,
        min_depth(module_view(ms).code[k].1.drop_last()) == 0,
        nesting(module_view(ms).code[k].1) == -1,
{
    broadcast use {lemma_nesting_push, lemma_nesting_add, lemma_nesting_short, lemma_min_depth_add, lemma_min_depth_short, lemma_min_depth_push};
    lemma_nesting_empty();
    let v = module_view(ms);
    let n = flat_functions(ms).len();
    let body = v.code[k].1;
    if k == 0 {
        let strings = crate::wasm_module::final_strings(ms);
        lemma_init_strings_flat(strings);
        assert(body.drop_last() =~= init_strings_code(strings));
    } else if k <= n {
        let f = flat_functions(ms)[k - 1];
        let env = EmitEnv {
            strings: crate::wasm_module::final_strings(ms),
            funcs: crate::wasm_module::func_indices(flat_functions(ms)),
            results: crate::wasm_module::func_results(flat_functions(ms)),
            globals: crate::wasm_module::global_indices(flat_globals(ms)),
            locals: function_locals(f).0,
        };
        let ret = function_returns(f);
        lemma_stmts_code_balanced(env, f.body@, ret);
        let tail: Seq<WasmInstr> = if ret { crate::wasm_code::undef() } else { Seq::empty() };
        assert(body.drop_last() =~= stmts_code(env, f.body@, ret) + tail);
    } else {
        lemma_globals_init_flat(start_env(ms), flat_globals(ms));
        lemma_modules_init_flat(start_env(ms), ms);
        assert(body.drop_last() =~= seq![WasmInstr::Call(crate::wasm_module::INIT_STRINGS_FUNC)]
            + globals_init_code(start_env(ms), flat_globals(ms)) + modules_init_code(start_env(ms), ms));
    }
    assert(body =~= body.drop_last().push(WasmInstr::End));
}

} // verus!
