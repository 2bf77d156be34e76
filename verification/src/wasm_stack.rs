//! The operand stack in the emitted code: the code of an expression whose
//! operands all leave a value pushes exactly one value when `has_value`
//! says so and none otherwise, and an expression statement leaves the
//! stack as it found it.
//!
//! Heights are counted instruction by instruction. Inside an expression
//! the only structured instruction is `if` with an `f64` result: `if` takes
//! its condition, `else` drops the value of the first branch (the second
//! one pushes its own) and `end` changes nothing, so the count matches the
//! height after the whole `if`.

use vstd::prelude::*;
use crate::hir::{Expr, BinaryOp, CompareOp, UpdateOp};
use crate::wasm_code::{
    WasmInstr, EmitEnv, expr_code, args_code, console_args_code, sequence_code, drops,
    bool_of_i32, binary_op_code, compare_op_code, console_callee, console_import,
    has_value, call_has_value, discarded_code, strip_node, lit_console, RT_CONSOLE_LOG,
    RT_CONSOLE_WARN, RT_CONSOLE_ERROR, RT_IS_TRUTHY, RT_JS_ADD, RT_MATH_POW, RT_JS_STRICT_EQ,
    RT_JS_TYPEOF, RT_MATH_RANDOM, RT_DATE_NOW, NUM_RUNTIME_IMPORTS,
};
use crate::wasm_emit::ValType;
use crate::hir::HirFunction;
use crate::wasm_module::{
    base_sigs, import_type, fn_sig, func_indices, func_results, counted, lemma_counted, FIRST_USER_FUNC,
};

verus! {

/// What one instruction does to the height of the operand stack; `calls`
/// gives the net effect of calling each function index (its results less
/// its parameters).
pub open spec fn height_step(i: WasmInstr, calls: Map<u32, int>) -> int {
    match i {
        WasmInstr::F64Const(_) => 1,
        WasmInstr::I32Const(_) => 1,
        WasmInstr::LocalGet(_) => 1,
        WasmInstr::GlobalGet(_) => 1,
        WasmInstr::LocalSet(_) => -1,
        WasmInstr::GlobalSet(_) => -1,
        WasmInstr::Drop => -1,
        WasmInstr::Call(f) => calls[f],
        WasmInstr::If(_) => -1,
        WasmInstr::Else => -1,
        WasmInstr::BrIf(_) => -1,
        WasmInstr::F64Add => -1,
        WasmInstr::F64Sub => -1,
        WasmInstr::F64Mul => -1,
        WasmInstr::F64Div => -1,
        WasmInstr::F64Min => -1,
        WasmInstr::F64Max => -1,
        WasmInstr::F64Lt => -1,
        WasmInstr::F64Le => -1,
        WasmInstr::F64Gt => -1,
        WasmInstr::F64Ge => -1,
        WasmInstr::I32Xor => -1,
        _ => 0,
    }
}

/// The net change of the stack height over the code.
pub open spec fn height(code: Seq<WasmInstr>, calls: Map<u32, int>) -> int
    decreases code.len(),
{
    if code.len() == 0 {
        0
    } else {
        height(code.drop_last(), calls) + height_step(code.last(), calls)
    }
}

pub broadcast proof fn lemma_height_add(a: Seq<WasmInstr>, b: Seq<WasmInstr>, calls: Map<u32, int>)
    ensures
        #[trigger] height(a + b, calls) == height(a, calls) + height(b, calls),
    decreases b.len(),
{
    if b.len() == 0 {
        assert(a + b =~= a);
    } else {
        lemma_height_add(a, b.drop_last(), calls);
        assert((a + b).drop_last() =~= a + b.drop_last());
    }
}

/// The height change of a short sequence, instruction by instruction.
pub open spec fn short_height(s: Seq<WasmInstr>, calls: Map<u32, int>) -> int {
    (if s.len() > 0 { height_step(s[0], calls) } else { 0 }) + (if s.len() > 1 {
        height_step(s[1], calls)
    } else {
        0
    }) + (if s.len() > 2 { height_step(s[2], calls) } else { 0 }) + (if s.len() > 3 {
        height_step(s[3], calls)
    } else {
        0
    }) + (if s.len() > 4 { height_step(s[4], calls) } else { 0 })
}

pub broadcast proof fn lemma_height_short(s: Seq<WasmInstr>, calls: Map<u32, int>)
    requires
        s.len() <= 5,
    ensures
        #[trigger] height(s, calls) == short_height(s, calls),
    decreases s.len(),
{
    if s.len() > 0 {
        lemma_height_short(s.drop_last(), calls);
    }
}

/// The effects of the runtime imports that expressions call: the console
/// functions take a value, `is_truthy` and `typeof` turn one value into
/// another, `js_add`, `math_pow` and `js_strict_eq` take two and give one,
/// `math_random` and `date_now` give one.
pub open spec fn runtime_calls(calls: Map<u32, int>) -> bool {
    &&& calls[RT_CONSOLE_LOG] == -1
    &&& calls[RT_CONSOLE_WARN] == -1
    &&& calls[RT_CONSOLE_ERROR] == -1
    &&& calls[RT_IS_TRUTHY] == 0
    &&& calls[RT_JS_TYPEOF] == 0
    &&& calls[RT_JS_ADD] == -1
    &&& calls[RT_MATH_POW] == -1
    &&& calls[RT_JS_STRICT_EQ] == -1
    &&& calls[RT_MATH_RANDOM] == 1
    &&& calls[RT_DATE_NOW] == 1
}

/// What calling a function of this signature does to the stack height.
pub open spec fn sig_effect(sig: (Seq<ValType>, Seq<ValType>)) -> int {
    sig.1.len() - sig.0.len()
}

/// The height effect of each runtime import, by the type it is declared
/// with.
pub open spec fn import_effects() -> Map<u32, int> {
    Map::new(
        |k: u32| k < NUM_RUNTIME_IMPORTS,
        |k: u32| sig_effect(base_sigs()[import_type(k) as int]),
    )
}

/// The runtime imports are declared with the effects that expressions
/// rely on.
pub proof fn lemma_import_effects()
    ensures
        runtime_calls(import_effects()),
{
    let m = import_effects();
    assert(m[RT_CONSOLE_LOG] == -1);
    assert(m[RT_CONSOLE_WARN] == -1);
    assert(m[RT_CONSOLE_ERROR] == -1);
    assert(m[RT_IS_TRUTHY] == 0);
    assert(m[RT_JS_TYPEOF] == 0);
    assert(m[RT_JS_ADD] == -1);
    assert(m[RT_MATH_POW] == -1);
    assert(m[RT_JS_STRICT_EQ] == -1);
    assert(m[RT_MATH_RANDOM] == 1);
    assert(m[RT_DATE_NOW] == 1);
}

/// Each known user function takes `arity[id]` values and gives one when it
/// has a result.
pub open spec fn user_calls(env: EmitEnv, calls: Map<u32, int>, arity: Map<u32, nat>) -> bool {
    forall|id: u32|
        #[trigger] env.funcs.contains_key(id) ==> arity.contains_key(id) && calls[env.funcs[id]] == (
        if call_has_value(env, id) {
            1int
        } else {
            0int
        }) - arity[id]
}

/// How many arguments each user function takes, by HIR id.
pub open spec fn func_arities(fs: Seq<HirFunction>) -> Map<u32, nat>
    decreases fs.len(),
{
    if fs.len() == 0 {
        Map::empty()
    } else {
        func_arities(fs.drop_last()).insert(fs.last().id, fs.last().params@.len())
    }
}

/// The height effect of every function of a module with these user
/// functions: the runtime imports, then user function `k` at index
/// `26 + k`, by its signature.
pub open spec fn module_effects(fs: Seq<HirFunction>) -> Map<u32, int>
    decreases fs.len(),
{
    if fs.len() == 0 {
        import_effects()
    } else {
        module_effects(fs.drop_last()).insert(
            counted(FIRST_USER_FUNC, (fs.len() - 1) as nat),
            sig_effect(fn_sig(fs.last())),
        )
    }
}

proof fn lemma_module_effects_step(fs: Seq<HirFunction>)
    requires
        FIRST_USER_FUNC + fs.len() <= u32::MAX,
    ensures
        forall|k: u32| k < NUM_RUNTIME_IMPORTS ==> #[trigger] module_effects(fs)[k] == import_effects()[k],
        forall|id: u32|
            #[trigger] func_indices(fs).contains_key(id) ==> {
                &&& func_results(fs).contains_key(id)
                &&& func_arities(fs).contains_key(id)
                &&& FIRST_USER_FUNC <= func_indices(fs)[id] < FIRST_USER_FUNC + fs.len()
                &&& module_effects(fs)[func_indices(fs)[id]] == (if func_results(fs)[id] {
                    1int
                } else {
                    0int
                }) - func_arities(fs)[id]
            },
    decreases fs.len(),
{
    if fs.len() > 0 {
        let p = fs.drop_last();
        let f = fs.last();
        let n = (fs.len() - 1) as nat;
        lemma_module_effects_step(p);
        lemma_counted(FIRST_USER_FUNC, n);
        let idx = counted(FIRST_USER_FUNC, n);
        assert forall|k: u32| k < NUM_RUNTIME_IMPORTS implies #[trigger] module_effects(fs)[k]
            == import_effects()[k] by {
            assert(k != idx);
            assert(module_effects(p)[k] == import_effects()[k]);
        }
        assert forall|id: u32| #[trigger] func_indices(fs).contains_key(id) implies {
            &&& func_results(fs).contains_key(id)
            &&& func_arities(fs).contains_key(id)
            &&& FIRST_USER_FUNC <= func_indices(fs)[id] < FIRST_USER_FUNC + fs.len()
            &&& module_effects(fs)[func_indices(fs)[id]] == (if func_results(fs)[id] {
                1int
            } else {
                0int
            }) - func_arities(fs)[id]
        } by {
            if id == f.id {
                assert(fn_sig(f).1.len() == 1 || fn_sig(f).1.len() == 0);
            } else {
                assert(func_indices(p).contains_key(id));
                assert(func_indices(p)[id] != idx);
            }
        }
    }
}

/// In a module, with fewer user functions than indices, the functions that
/// expressions call have the effects the height law relies on: the runtime
/// imports by their declared types, each user function by its signature.
pub proof fn lemma_module_calls(
    fs: Seq<HirFunction>,
    strings: Seq<Seq<char>>,
    globals: Map<u32, u32>,
    locals: Map<u32, u32>,
)
    requires
        FIRST_USER_FUNC + fs.len() <= u32::MAX,
    ensures
        ({
            let env = EmitEnv {
                strings,
                funcs: func_indices(fs),
                results: func_results(fs),
                globals,
                locals,
            };
            &&& runtime_calls(module_effects(fs))
            &&& user_calls(env, module_effects(fs), func_arities(fs))
        }),
{
    lemma_module_effects_step(fs);
    lemma_import_effects();
    let m = module_effects(fs);
    assert(m[RT_CONSOLE_LOG] == import_effects()[RT_CONSOLE_LOG]);
    assert(m[RT_CONSOLE_WARN] == import_effects()[RT_CONSOLE_WARN]);
    assert(m[RT_CONSOLE_ERROR] == import_effects()[RT_CONSOLE_ERROR]);
    assert(m[RT_IS_TRUTHY] == import_effects()[RT_IS_TRUTHY]);
    assert(m[RT_JS_TYPEOF] == import_effects()[RT_JS_TYPEOF]);
    assert(m[RT_JS_ADD] == import_effects()[RT_JS_ADD]);
    assert(m[RT_MATH_POW] == import_effects()[RT_MATH_POW]);
    assert(m[RT_JS_STRICT_EQ] == import_effects()[RT_JS_STRICT_EQ]);
    assert(m[RT_MATH_RANDOM] == import_effects()[RT_MATH_RANDOM]);
    assert(m[RT_DATE_NOW] == import_effects()[RT_DATE_NOW]);
}

/// Every operand of `e`, at any depth, leaves a value, and every call of a
/// known user function passes as many arguments as it takes.
pub open spec fn operands_valued(env: EmitEnv, arity: Map<u32, nat>, e: Expr) -> bool
    decreases e, 0nat,
{
    match e {
        Expr::LocalSet(_, v) => valued(env, arity, *v),
        Expr::GlobalSet(_, v) => valued(env, arity, *v),
        Expr::Binary { left, right, .. } => valued(env, arity, *left) && valued(env, arity, *right),
        Expr::Compare { left, right, .. } => valued(env, arity, *left) && valued(env, arity, *right),
        Expr::Logical { left, right, .. } => valued(env, arity, *left) && valued(env, arity, *right),
        Expr::Unary { operand, .. } => valued(env, arity, *operand),
        Expr::Call { callee, args } => all_valued(env, arity, args@) && (match *callee {
            Expr::FuncRef(id) => console_callee(*callee) is None && env.funcs.contains_key(id)
                ==> args@.len() == arity[id],
            _ => true,
        }),
        Expr::NativeMethodCall { args, .. } => all_valued(env, arity, args@),
        Expr::Conditional { condition, then_expr, else_expr } => valued(env, arity, *condition)
            && valued(env, arity, *then_expr) && valued(env, arity, *else_expr),
        Expr::MathFloor(x) => valued(env, arity, *x),
        Expr::MathCeil(x) => valued(env, arity, *x),
        Expr::MathAbs(x) => valued(env, arity, *x),
        Expr::MathSqrt(x) => valued(env, arity, *x),
        Expr::MathRound(x) => valued(env, arity, *x),
        Expr::MathPow(b, x) => valued(env, arity, *b) && valued(env, arity, *x),
        Expr::MathMin(args) => all_valued(env, arity, args@),
        Expr::MathMax(args) => all_valued(env, arity, args@),
        Expr::TypeOf(x) => valued(env, arity, *x),
        Expr::Await(x) => valued(env, arity, *x),
        Expr::Sequence(es) => all_valued(env, arity, es@),
        _ => true,
    }
}

/// `e` leaves a value and its operands do.
pub open spec fn valued(env: EmitEnv, arity: Map<u32, nat>, e: Expr) -> bool
    decreases e, 1nat,
{
    has_value(env, e) && operands_valued(env, arity, e)
}

/// Every expression of `es` leaves a value and its operands do.
pub open spec fn all_valued(env: EmitEnv, arity: Map<u32, nat>, es: Seq<Expr>) -> bool
    decreases es, 0nat,
{
    if es.len() == 0 {
        true
    } else {
        all_valued(env, arity, es.drop_last()) && valued(env, arity, es.last())
    }
}

/// The code of an expression whose operands leave values pushes one value
/// when `has_value` holds, and nothing otherwise.
pub proof fn lemma_expr_height(env: EmitEnv, calls: Map<u32, int>, arity: Map<u32, nat>, e: Expr)
    requires
        runtime_calls(calls),
        user_calls(env, calls, arity),
        operands_valued(env, arity, e),
    ensures
        height(expr_code(env, e), calls) == if has_value(env, e) {
            1int
        } else {
            0int
        },
    decreases e,
{
    broadcast use {lemma_height_add, lemma_height_short};
    match e {
        Expr::LocalSet(id, v) => {
            lemma_expr_height(env, calls, arity, *v);
        },
        Expr::GlobalSet(id, v) => {
            lemma_expr_height(env, calls, arity, *v);
        },
        Expr::Update { id, op, prefix } => {
            match op {
                UpdateOp::Increment => {},
                UpdateOp::Decrement => {},
            }
        },
        Expr::Binary { op, left, right } => {
            lemma_expr_height(env, calls, arity, *left);
            lemma_expr_height(env, calls, arity, *right);
            match op {
                BinaryOp::Add => assert(height(binary_op_code(op), calls) == -1),
                BinaryOp::Pow => assert(height(binary_op_code(op), calls) == -1),
                _ => assert(height(binary_op_code(op), calls) == -1),
            }
        },
        Expr::Compare { op, left, right } => {
            lemma_expr_height(env, calls, arity, *left);
            lemma_expr_height(env, calls, arity, *right);
            assert(height(bool_of_i32(), calls) == 0);
            match op {
                CompareOp::Eq => assert(height(compare_op_code(op), calls) == -1),
                CompareOp::Ne => assert(height(compare_op_code(op), calls) == -1),
                _ => assert(height(compare_op_code(op), calls) == -1),
            }
        },
        Expr::Logical { op, left, right } => {
            lemma_expr_height(env, calls, arity, *left);
            lemma_expr_height(env, calls, arity, *right);
        },
        Expr::Unary { op, operand } => {
            lemma_expr_height(env, calls, arity, *operand);
            assert(height(bool_of_i32(), calls) == 0);
        },
        Expr::Call { callee, args } => {
            match console_callee(*callee) {
                Some(f) => {
                    lemma_console_args_height(env, calls, arity, args@, f);
                },
                None => {
                    lemma_args_height(env, calls, arity, args@);
                    lemma_drops_height(args@.len(), calls);
                    match *callee {
                        Expr::FuncRef(id) => {
                            if env.funcs.contains_key(id) {
                                assert(height(seq![WasmInstr::Call(env.funcs[id])], calls)
                                    == calls[env.funcs[id]]);
                            }
                        },
                        _ => {},
                    }
                },
            }
        },
        Expr::NativeMethodCall { module, method, args } => {
            if strip_node(module@) == lit_console() {
                match console_import(method@) {
                    Some(f) => lemma_console_args_height(env, calls, arity, args@, f),
                    None => {},
                }
            }
        },
        Expr::Conditional { condition, then_expr, else_expr } => {
            lemma_expr_height(env, calls, arity, *condition);
            lemma_expr_height(env, calls, arity, *then_expr);
            lemma_expr_height(env, calls, arity, *else_expr);
        },
        Expr::MathFloor(x) => lemma_expr_height(env, calls, arity, *x),
        Expr::MathCeil(x) => lemma_expr_height(env, calls, arity, *x),
        Expr::MathAbs(x) => lemma_expr_height(env, calls, arity, *x),
        Expr::MathSqrt(x) => lemma_expr_height(env, calls, arity, *x),
        Expr::MathRound(x) => lemma_expr_height(env, calls, arity, *x),
        Expr::MathPow(b, x) => {
            lemma_expr_height(env, calls, arity, *b);
            lemma_expr_height(env, calls, arity, *x);
        },
        Expr::MathMin(args) => {
            if args@.len() == 2 {
                lemma_pair_valued(env, arity, args@);
                lemma_expr_height(env, calls, arity, args@[0]);
                lemma_expr_height(env, calls, arity, args@[1]);
            }
        },
        Expr::MathMax(args) => {
            if args@.len() == 2 {
                lemma_pair_valued(env, arity, args@);
                lemma_expr_height(env, calls, arity, args@[0]);
                lemma_expr_height(env, calls, arity, args@[1]);
            }
        },
        Expr::TypeOf(x) => lemma_expr_height(env, calls, arity, *x),
        Expr::Await(x) => lemma_expr_height(env, calls, arity, *x),
        Expr::Sequence(es) => {
            if es@.len() > 0 {
                lemma_sequence_height(env, calls, arity, es@);
            }
        },
        _ => {},
    }
}

proof fn lemma_pair_valued(env: EmitEnv, arity: Map<u32, nat>, es: Seq<Expr>)
    requires
        all_valued(env, arity, es),
        es.len() == 2,
    ensures
        valued(env, arity, es[0]),
        valued(env, arity, es[1]),
{
    reveal_with_fuel(all_valued, 3);
    assert(es.drop_last().last() == es[0]);
}

proof fn lemma_args_height(env: EmitEnv, calls: Map<u32, int>, arity: Map<u32, nat>, args: Seq<Expr>)
    requires
        runtime_calls(calls),
        user_calls(env, calls, arity),
        all_valued(env, arity, args),
    ensures
        height(args_code(env, args), calls) == args.len(),
    decreases args,
{
    reveal_with_fuel(all_valued, 2);
    reveal_with_fuel(valued, 2);
    broadcast use lemma_height_add;
    if args.len() > 0 {
        lemma_args_height(env, calls, arity, args.drop_last());
        lemma_expr_height(env, calls, arity, args.last());
    }
}

proof fn lemma_console_args_height(
    env: EmitEnv,
    calls: Map<u32, int>,
    arity: Map<u32, nat>,
    args: Seq<Expr>,
    f: u32,
)
    requires
        runtime_calls(calls),
        user_calls(env, calls, arity),
        all_valued(env, arity, args),
        calls[f] == -1,
    ensures
        height(console_args_code(env, args, f), calls) == 0,
    decreases args,
{
    reveal_with_fuel(all_valued, 2);
    reveal_with_fuel(valued, 2);
    broadcast use {lemma_height_add, lemma_height_short};
    if args.len() > 0 {
        lemma_console_args_height(env, calls, arity, args.drop_last(), f);
        lemma_expr_height(env, calls, arity, args.last());
    }
}

proof fn lemma_sequence_height(env: EmitEnv, calls: Map<u32, int>, arity: Map<u32, nat>, es: Seq<Expr>)
    requires
        runtime_calls(calls),
        user_calls(env, calls, arity),
        all_valued(env, arity, es),
        es.len() > 0,
    ensures
        height(sequence_code(env, es), calls) == 1,
    decreases es,
{
    reveal_with_fuel(all_valued, 2);
    reveal_with_fuel(valued, 2);
    broadcast use {lemma_height_add, lemma_height_short};
    if es.len() == 1 {
        lemma_expr_height(env, calls, arity, es[0]);
    } else {
        lemma_sequence_height(env, calls, arity, es.drop_last());
        lemma_expr_height(env, calls, arity, es.last());
    }
}

proof fn lemma_drops_height(n: nat, calls: Map<u32, int>)
    ensures
        height(drops(n), calls) == -n,
    decreases n,
{
    if n > 0 {
        lemma_drops_height((n - 1) as nat, calls);
        assert(drops(n).drop_last() =~= drops((n - 1) as nat));
    }
}

/// An expression statement leaves the stack as it found it: its value is
/// dropped exactly when it leaves one.
pub proof fn lemma_discarded_neutral(env: EmitEnv, calls: Map<u32, int>, arity: Map<u32, nat>, e: Expr)
    requires
        runtime_calls(calls),
        user_calls(env, calls, arity),
        operands_valued(env, arity, e),
    ensures
        height(discarded_code(env, e), calls) == 0,
{
    broadcast use {lemma_height_add, lemma_height_short};
    lemma_expr_height(env, calls, arity, e);
}

/// In the code of a module, an expression whose operands leave values
/// pushes one value exactly when `has_value` says so, and its statement
/// form leaves the stack as it found it.
pub proof fn lemma_module_expr_height(
    fs: Seq<HirFunction>,
    strings: Seq<Seq<char>>,
    globals: Map<u32, u32>,
    locals: Map<u32, u32>,
    e: Expr,
)
    requires
        FIRST_USER_FUNC + fs.len() <= u32::MAX,
        operands_valued(
            EmitEnv { strings, funcs: func_indices(fs), results: func_results(fs), globals, locals },
            func_arities(fs),
            e,
        ),
    ensures
        ({
            let env = EmitEnv {
                strings,
                funcs: func_indices(fs),
                results: func_results(fs),
                globals,
                locals,
            };
            &&& height(expr_code(env, e), module_effects(fs)) == if has_value(env, e) {
                1int
            } else {
                0int
            }
            &&& height(discarded_code(env, e), module_effects(fs)) == 0
        }),
{
    let env = EmitEnv { strings, funcs: func_indices(fs), results: func_results(fs), globals, locals };
    lemma_module_calls(fs, strings, globals, locals);
    lemma_expr_height(env, module_effects(fs), func_arities(fs), e);
    lemma_discarded_neutral(env, module_effects(fs), func_arities(fs), e);
}

} // verus!
