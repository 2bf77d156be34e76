//! HIR modules to a WebAssembly module plan: type, import, function,
//! memory, global, export, code and data sections.
//!
//! All JavaScript values are `f64` NaN-boxes. String literals are packed
//! into linear memory at address 0 and registered with the runtime by a
//! generated `__init_strings` function, which `_start` calls first.

use vstd::prelude::*;
use vstd::string::*;
use vstd::utf8::encode_utf8;
use crate::hir::{Expr, Stmt, HirFunction, Global, HirModule, Param};
use crate::id_map::IdMap;
use crate::wasm_binary::{ModuleView, plan_view, view_fits, module_binary, encode_plan, plan_fits};
use crate::wasm_code::{
    WasmInstr, EmitEnv, undef, stmts_code, expr_code, stmts_return, locals_of_stmts, intern1,
    intern_all, stmts_lits, expr_lits, NUM_RUNTIME_IMPORTS, TAG_UNDEFINED, RT_STRING_NEW, F64_FIVE,
};
use crate::wasm_emit::{
    packed,
    ValType, FuncType, StringEntry, WasmModuleEmitter, FuncEmitCtx, any_return, collect_locals, env_of,
    lemma_intern_all_append,
};

verus! {

/// The name under which runtime import `i` is imported from module `rt`.
pub open spec fn import_name(i: u32) -> Seq<char> {
    match i {
        0 => seq!['s', 't', 'r', 'i', 'n', 'g', '_', 'n', 'e', 'w'],
        1 => seq!['c', 'o', 'n', 's', 'o', 'l', 'e', '_', 'l', 'o', 'g'],
        2 => seq!['c', 'o', 'n', 's', 'o', 'l', 'e', '_', 'w', 'a', 'r', 'n'],
        3 => seq!['c', 'o', 'n', 's', 'o', 'l', 'e', '_', 'e', 'r', 'r', 'o', 'r'],
        4 => seq!['s', 't', 'r', 'i', 'n', 'g', '_', 'c', 'o', 'n', 'c', 'a', 't'],
        5 => seq!['j', 's', '_', 'a', 'd', 'd'],
        6 => seq!['s', 't', 'r', 'i', 'n', 'g', '_', 'e', 'q'],
        7 => seq!['s', 't', 'r', 'i', 'n', 'g', '_', 'l', 'e', 'n'],
        8 => seq!['j', 's', 'v', 'a', 'l', 'u', 'e', '_', 't', 'o', '_', 's', 't', 'r', 'i', 'n', 'g'],
        9 => seq!['i', 's', '_', 't', 'r', 'u', 't', 'h', 'y'],
        10 => seq!['j', 's', '_', 's', 't', 'r', 'i', 'c', 't', '_', 'e', 'q'],
        11 => seq!['m', 'a', 't', 'h', '_', 'f', 'l', 'o', 'o', 'r'],
        12 => seq!['m', 'a', 't', 'h', '_', 'c', 'e', 'i', 'l'],
        13 => seq!['m', 'a', 't', 'h', '_', 'r', 'o', 'u', 'n', 'd'],
        14 => seq!['m', 'a', 't', 'h', '_', 'a', 'b', 's'],
        15 => seq!['m', 'a', 't', 'h', '_', 's', 'q', 'r', 't'],
        16 => seq!['m', 'a', 't', 'h', '_', 'p', 'o', 'w'],
        17 => seq!['m', 'a', 't', 'h', '_', 'r', 'a', 'n', 'd', 'o', 'm'],
        18 => seq!['m', 'a', 't', 'h', '_', 'l', 'o', 'g'],
        19 => seq!['d', 'a', 't', 'e', '_', 'n', 'o', 'w'],
        20 => seq!['j', 's', '_', 't', 'y', 'p', 'e', 'o', 'f'],
        21 => seq!['m', 'a', 't', 'h', '_', 'm', 'i', 'n'],
        22 => seq!['m', 'a', 't', 'h', '_', 'm', 'a', 'x'],
        23 => seq!['p', 'a', 'r', 's', 'e', '_', 'i', 'n', 't'],
        24 => seq!['p', 'a', 'r', 's', 'e', '_', 'f', 'l', 'o', 'a', 't'],
        _ => Seq::empty(),
    }
}

/// The name of runtime import `i`.
pub fn runtime_import_name(i: u32) -> (name: &'static str)
    requires
        i < NUM_RUNTIME_IMPORTS,
    ensures
        name@ == import_name(i),
{
    match i {
        0 => {
            proof {
                reveal_strlit("string_new");
            }
            "string_new"
        },
        1 => {
            proof {
                reveal_strlit("console_log");
            }
            "console_log"
        },
        2 => {
            proof {
                reveal_strlit("console_warn");
            }
            "console_warn"
        },
        3 => {
            proof {
                reveal_strlit("console_error");
            }
            "console_error"
        },
        4 => {
            proof {
                reveal_strlit("string_concat");
            }
            "string_concat"
        },
        5 => {
            proof {
                reveal_strlit("js_add");
            }
            "js_add"
        },
        6 => {
            proof {
                reveal_strlit("string_eq");
            }
            "string_eq"
        },
        7 => {
            proof {
                reveal_strlit("string_len");
            }
            "string_len"
        },
        8 => {
            proof {
                reveal_strlit("jsvalue_to_string");
            }
            "jsvalue_to_string"
        },
        9 => {
            proof {
                reveal_strlit("is_truthy");
            }
            "is_truthy"
        },
        10 => {
            proof {
                reveal_strlit("js_strict_eq");
            }
            "js_strict_eq"
        },
        11 => {
            proof {
                reveal_strlit("math_floor");
            }
            "math_floor"
        },
        12 => {
            proof {
                reveal_strlit("math_ceil");
            }
            "math_ceil"
        },
        13 => {
            proof {
                reveal_strlit("math_round");
            }
            "math_round"
        },
        14 => {
            proof {
                reveal_strlit("math_abs");
            }
            "math_abs"
        },
        15 => {
            proof {
                reveal_strlit("math_sqrt");
            }
            "math_sqrt"
        },
        16 => {
            proof {
                reveal_strlit("math_pow");
            }
            "math_pow"
        },
        17 => {
            proof {
                reveal_strlit("math_random");
            }
            "math_random"
        },
        18 => {
            proof {
                reveal_strlit("math_log");
            }
            "math_log"
        },
        19 => {
            proof {
                reveal_strlit("date_now");
            }
            "date_now"
        },
        20 => {
            proof {
                reveal_strlit("js_typeof");
            }
            "js_typeof"
        },
        21 => {
            proof {
                reveal_strlit("math_min");
            }
            "math_min"
        },
        22 => {
            proof {
                reveal_strlit("math_max");
            }
            "math_max"
        },
        23 => {
            proof {
                reveal_strlit("parse_int");
            }
            "parse_int"
        },
        24 => {
            proof {
                reveal_strlit("parse_float");
            }
            "parse_float"
        },
        _ => {
            proof {
                reveal_strlit("parse_float");
            }
            "parse_float"
        },
    }
}

/// A signature as plain sequences.
pub open spec fn sig_of(t: FuncType) -> (Seq<ValType>, Seq<ValType>) {
    (t.params@, t.results@)
}

pub open spec fn distinct<T>(s: Seq<T>) -> bool {
    forall|i: int, j: int| 0 <= i < s.len() && 0 <= j < s.len() && i != j ==> s[i] != s[j]
}

/// The literals of a module: those of its functions' bodies, then of its
/// top-level statements, then of its globals' initialisers.
pub open spec fn module_lits(m: HirModule) -> Seq<Seq<char>> {
    functions_lits(m.functions@) + stmts_lits(m.init@) + globals_lits(m.globals@)
}

pub open spec fn functions_lits(fs: Seq<HirFunction>) -> Seq<Seq<char>>
    decreases fs.len(),
{
    if fs.len() == 0 {
        Seq::empty()
    } else {
        functions_lits(fs.drop_last()) + stmts_lits(fs.last().body@)
    }
}

pub open spec fn globals_lits(gs: Seq<Global>) -> Seq<Seq<char>>
    decreases gs.len(),
{
    if gs.len() == 0 {
        Seq::empty()
    } else {
        globals_lits(gs.drop_last()) + match gs.last().init {
            Some(e) => expr_lits(e),
            None => Seq::empty(),
        }
    }
}

/// The local index of each parameter: its position.
pub open spec fn param_locals(ps: Seq<Param>) -> Map<u32, u32>
    decreases ps.len(),
{
    if ps.len() == 0 {
        Map::empty()
    } else {
        param_locals(ps.drop_last()).insert(ps.last().id, (ps.len() - 1) as u32)
    }
}

/// The locals of a function: its parameters, then its `let`s, and how many
/// `let` slots there are.
pub open spec fn function_locals(f: HirFunction) -> (Map<u32, u32>, u32) {
    locals_of_stmts(f.body@, param_locals(f.params@), 0, f.params@.len() as u32)
}

/// Whether a function returns a value: it contains a `return`.
pub open spec fn function_returns(f: HirFunction) -> bool {
    stmts_return(f.body@)
}

/// The declared extra locals of a function body.
pub open spec fn function_local_decls(f: HirFunction) -> Seq<(u32, ValType)> {
    let extra = function_locals(f).1;
    if extra > 0 {
        seq![(extra, ValType::F64)]
    } else {
        Seq::empty()
    }
}

/// The instructions of a function body: its statements, an `undefined`
/// fallback result when it returns a value, and `end`.
pub open spec fn function_instrs(
    strings: Seq<Seq<char>>,
    funcs: Map<u32, u32>,
    results: Map<u32, bool>,
    globals: Map<u32, u32>,
    f: HirFunction,
) -> Seq<WasmInstr> {
    let env = EmitEnv { strings, funcs, results, globals, locals: function_locals(f).0 };
    let ret = function_returns(f);
    stmts_code(env, f.body@, ret) + (if ret { undef() } else { Seq::empty() }) + seq![WasmInstr::End]
}

/// A function body: declared locals (count and type) and instructions.
pub struct FunctionBody {
    pub locals: Vec<(u32, ValType)>,
    pub instrs: Vec<WasmInstr>,
}

impl WasmModuleEmitter {
    pub open spec fn type_sigs(&self) -> Seq<(Seq<ValType>, Seq<ValType>)> {
        self.types@.map_values(|t: FuncType| sig_of(t))
    }

    pub fn new() -> (e: WasmModuleEmitter)
        ensures
            e.wf(),
            e.layout_wf(),
            distinct(e.type_sigs()),
            e.strings().len() == 0,
            e.string_data@.len() == 0,
            e.type_sigs().len() == 0,
            e.func_map@ == Map::<u32, u32>::empty(),
            e.func_results@ == Map::<u32, bool>::empty(),
            e.global_map@ == Map::<u32, u32>::empty(),
            e.num_imports == 0,
            e.num_globals == 0,
    {
        let e = WasmModuleEmitter {
            string_table: Vec::new(),
            string_data: Vec::new(),
            types: Vec::new(),
            func_map: IdMap::new(),
            func_results: IdMap::new(),
            num_imports: 0,
            global_map: IdMap::new(),
            num_globals: 0,
        };
        assert(e.strings() =~= Seq::<Seq<char>>::empty());
        assert(e.type_sigs() =~= Seq::<(Seq<ValType>, Seq<ValType>)>::empty());
        e
    }

    /// The index of the signature `(params) -> (results)` in the type
    /// section, adding it if it is not there.
    pub fn get_type_idx(&mut self, params: Vec<ValType>, results: Vec<ValType>) -> (idx: u32)
        requires
            distinct(old(self).type_sigs()),
        ensures
            distinct(final(self).type_sigs()),
            final(self).type_sigs() == intern1(old(self).type_sigs(), (params@, results@)),
            exists|i: int|
                0 <= i < final(self).type_sigs().len() && final(self).type_sigs()[i] == (
                    params@,
                    results@,
                ) && idx == i as u32,
            old(self).type_sigs().contains((params@, results@)) ==> final(self).types == old(
                self,
            ).types,
            final(self).string_table == old(self).string_table,
            final(self).string_data == old(self).string_data,
            final(self).func_map == old(self).func_map,
            final(self).func_results == old(self).func_results,
            final(self).global_map == old(self).global_map,
            final(self).num_imports == old(self).num_imports,
            final(self).num_globals == old(self).num_globals,
    {
        let ghost sigs = self.type_sigs();
        let ghost key = (params@, results@);
        let n = self.types.len();
        let mut i: usize = 0;
        while i < n
            invariant
                n == self.types@.len(),
                sigs == self.type_sigs(),
                distinct(sigs),
                key == (params@, results@),
                i <= n,
                forall|j: int| 0 <= j < i ==> sigs[j] != key,
            decreases n - i,
        {
            assert(sigs[i as int] == (self.types@[i as int].params@, self.types@[i as int].results@));
            let pe = vals_eq(&self.types[i].params, &params);
            let re = vals_eq(&self.types[i].results, &results);
            if pe && re {
                assert(self.types@[i as int].params@ == params@);
                assert(self.types@[i as int].results@ == results@);
                assert(sigs[i as int] == key);
                assert(sigs.contains(key));
                return i as u32;
            }
            i = i + 1;
        }
        assert(!sigs.contains(key)) by {
            if sigs.contains(key) {
                let w = choose|w: int| 0 <= w < sigs.len() && sigs[w] == key;
                assert(sigs[w] != key);
            }
        }
        let idx = self.types.len() as u32;
        self.types.push(FuncType { params, results });
        assert(self.type_sigs() =~= sigs.push(key));
        assert(self.type_sigs()[n as int] == key);
        idx
    }

    /// Interns the literals of a module: function bodies, then top-level
    /// statements, then global initialisers.
    pub fn collect_strings(&mut self, module: &HirModule)
        requires
            old(self).wf(),
            old(self).layout_wf(),
        ensures
            final(self).wf(),
            final(self).layout_wf(),
            final(self).same_but_strings(&*old(self)),
            final(self).strings() == intern_all(old(self).strings(), module_lits(*module)),
    {
        let ghost t0 = self.strings();
        let fs = &module.functions;
        let n = fs.len();
        let mut i: usize = 0;
        while i < n
            invariant
                self.wf(),
                self.layout_wf(),
                self.same_but_strings(&*old(self)),
                n == fs@.len(),
                i <= n,
                self.strings() == intern_all(t0, functions_lits(fs@.take(i as int))),
            decreases n - i,
        {
            self.collect_strings_in_stmts(&fs[i].body);
            proof {
                assert(fs@.take(i + 1).drop_last() =~= fs@.take(i as int));
                lemma_intern_all_append(t0, functions_lits(fs@.take(i as int)), stmts_lits(fs@[i as int].body@));
            }
            i = i + 1;
        }
        assert(fs@.take(n as int) =~= fs@);
        let ghost a = functions_lits(fs@);
        self.collect_strings_in_stmts(&module.init);
        proof {
            lemma_intern_all_append(t0, a, stmts_lits(module.init@));
        }
        let ghost b = a + stmts_lits(module.init@);
        let gs = &module.globals;
        let ng = gs.len();
        let mut j: usize = 0;
        while j < ng
            invariant
                self.wf(),
                self.layout_wf(),
                self.same_but_strings(&*old(self)),
                ng == gs@.len(),
                j <= ng,
                self.strings() == intern_all(t0, b + globals_lits(gs@.take(j as int))),
            decreases ng - j,
        {
            let ghost g = gs@[j as int];
            let ghost gl: Seq<Seq<char>> = match g.init {
                Some(e) => expr_lits(e),
                None => Seq::empty(),
            };
            match &gs[j].init {
                Some(init) => self.collect_strings_in_expr(init),
                None => {},
            }
            proof {
                assert(gs@.take(j + 1).drop_last() =~= gs@.take(j as int));
                lemma_intern_all_append(t0, b + globals_lits(gs@.take(j as int)), gl);
                assert(b + globals_lits(gs@.take(j + 1)) =~= b + globals_lits(gs@.take(j as int)) + gl);
            }
            j = j + 1;
        }
        assert(gs@.take(ng as int) =~= gs@);
        assert(module_lits(*module) =~= b + globals_lits(gs@));
    }

    /// The body of a user function: parameters take the first local slots,
    /// its `let`s the following ones.
    pub fn compile_function(&self, hir_func: &HirFunction) -> (body: FunctionBody)
        requires
            self.wf(),
        ensures
            body.locals@ == function_local_decls(*hir_func),
            body.instrs@ == function_instrs(
                self.strings(),
                self.func_map@,
                self.func_results@,
                self.global_map@,
                *hir_func,
            ),
    {
        let mut local_map = IdMap::new();
        let ps = &hir_func.params;
        let np = ps.len();
        let mut i: usize = 0;
        while i < np
            invariant
                np == ps@.len(),
                i <= np,
                local_map@ == param_locals(ps@.take(i as int)),
            decreases np - i,
        {
            local_map.insert(ps[i].id, i as u32);
            assert(ps@.take(i + 1).drop_last() =~= ps@.take(i as int));
            i = i + 1;
        }
        assert(ps@.take(np as int) =~= ps@);
        let param_count = np as u32;
        let mut extra_locals: u32 = 0;
        collect_locals(&hir_func.body, &mut local_map, &mut extra_locals, param_count);
        let mut locals: Vec<(u32, ValType)> = Vec::new();
        if extra_locals > 0 {
            locals.push((extra_locals, ValType::F64));
        }
        let has_ret = any_return(&hir_func.body);
        let mut instrs: Vec<WasmInstr> = Vec::new();
        let mut ctx = FuncEmitCtx::new(self, &local_map);
        ctx.emit_stmts(&mut instrs, &hir_func.body, has_ret);
        if has_ret {
            // undefined is the result of a function that falls off its end
            instrs.push(WasmInstr::F64Const(TAG_UNDEFINED));
        }
        instrs.push(WasmInstr::End);
        assert(locals@ =~= function_local_decls(*hir_func));
        assert(instrs@ =~= function_instrs(
            self.strings(),
            self.func_map@,
            self.func_results@,
            self.global_map@,
            *hir_func,
        ));
        FunctionBody { locals, instrs }
    }
}

/// Whether two value-type lists are equal.
fn vals_eq(a: &Vec<ValType>, b: &Vec<ValType>) -> (r: bool)
    ensures
        r == (a@ == b@),
{
    if a.len() != b.len() {
        return false;
    }
    let n = a.len();
    let mut i: usize = 0;
    while i < n
        invariant
            n == a@.len(),
            n == b@.len(),
            i <= n,
            forall|j: int| 0 <= j < i ==> a@[j] == b@[j],
        decreases n - i,
    {
        if a[i] != b[i] {
            return false;
        }
        i = i + 1;
    }
    assert(a@ =~= b@);
    true
}

/// The type index of each runtime import.
pub open spec fn import_type(i: u32) -> u32 {
    match i {
        0 => 1,
        1 | 2 | 3 => 2,
        4 | 5 | 16 | 21 | 22 => 3,
        6 | 10 => 4,
        9 => 6,
        17 | 19 => 7,
        _ => 5,
    }
}

/// The signatures the runtime imports need, registered first and in this
/// order: `() -> ()`, `(i32, i32) -> ()`, `(f64) -> ()`, `(f64, f64) -> f64`,
/// `(f64, f64) -> i32`, `(f64) -> f64`, `(f64) -> i32`, `() -> f64`.
pub open spec fn base_sigs() -> Seq<(Seq<ValType>, Seq<ValType>)> {
    seq![
        (Seq::empty(), Seq::empty()),
        (seq![ValType::I32, ValType::I32], Seq::empty()),
        (seq![ValType::F64], Seq::empty()),
        (seq![ValType::F64, ValType::F64], seq![ValType::F64]),
        (seq![ValType::F64, ValType::F64], seq![ValType::I32]),
        (seq![ValType::F64], seq![ValType::F64]),
        (seq![ValType::F64], seq![ValType::I32]),
        (Seq::empty(), seq![ValType::F64]),
    ]
}

pub open spec fn lit_main() -> Seq<char> {
    seq!['m', 'a', 'i', 'n']
}

pub open spec fn lit_platform() -> Seq<char> {
    seq!['_', '_', 'p', 'l', 'a', 't', 'f', 'o', 'r', 'm', '_', '_']
}

/// The signature of a user function: an `f64` per parameter, and an `f64`
/// result when it contains a `return` or is called `main`.
pub open spec fn fn_sig(f: HirFunction) -> (Seq<ValType>, Seq<ValType>) {
    (
        Seq::new(f.params@.len(), |i: int| ValType::F64),
        if function_returns(f) || f.name@ == lit_main() {
            seq![ValType::F64]
        } else {
            Seq::empty()
        },
    )
}

/// The functions of all modules, in order.
pub open spec fn flat_functions(ms: Seq<(String, HirModule)>) -> Seq<HirFunction>
    decreases ms.len(),
{
    if ms.len() == 0 {
        Seq::empty()
    } else {
        flat_functions(ms.drop_last()) + ms.last().1.functions@
    }
}

/// The globals of all modules, in order.
pub open spec fn flat_globals(ms: Seq<(String, HirModule)>) -> Seq<Global>
    decreases ms.len(),
{
    if ms.len() == 0 {
        Seq::empty()
    } else {
        flat_globals(ms.drop_last()) + ms.last().1.globals@
    }
}

/// The top-level statements of all modules, in order.
pub open spec fn flat_init(ms: Seq<(String, HirModule)>) -> Seq<Stmt>
    decreases ms.len(),
{
    if ms.len() == 0 {
        Seq::empty()
    } else {
        flat_init(ms.drop_last()) + ms.last().1.init@
    }
}

/// The literals of all modules, in order.
pub open spec fn all_lits(ms: Seq<(String, HirModule)>) -> Seq<Seq<char>>
    decreases ms.len(),
{
    if ms.len() == 0 {
        Seq::empty()
    } else {
        all_lits(ms.drop_last()) + module_lits(ms.last().1)
    }
}

pub open spec fn sigs_of(fs: Seq<HirFunction>) -> Seq<(Seq<ValType>, Seq<ValType>)> {
    fs.map_values(|f: HirFunction| fn_sig(f))
}

/// The index of `__init_strings`, the first defined function.
pub const INIT_STRINGS_FUNC: u32 = 25;

/// The index of the first user function.
pub const FIRST_USER_FUNC: u32 = 26;

/// `start + k` in 32-bit arithmetic that wraps around.
pub open spec fn counted(start: u32, k: nat) -> u32
    decreases k,
{
    if k == 0 {
        start
    } else {
        counted(start, (k - 1) as nat).wrapping_add(1)
    }
}

/// User function `k` (over all modules) gets index `26 + k`: after the
/// runtime imports and `__init_strings`.
pub open spec fn func_indices(fs: Seq<HirFunction>) -> Map<u32, u32>
    decreases fs.len(),
{
    if fs.len() == 0 {
        Map::empty()
    } else {
        func_indices(fs.drop_last()).insert(
            fs.last().id,
            counted(FIRST_USER_FUNC, (fs.len() - 1) as nat),
        )
    }
}

/// Whether each user function leaves a result, by HIR id.
pub open spec fn func_results(fs: Seq<HirFunction>) -> Map<u32, bool>
    decreases fs.len(),
{
    if fs.len() == 0 {
        Map::empty()
    } else {
        func_results(fs.drop_last()).insert(fs.last().id, fn_sig(fs.last()).1.len() > 0)
    }
}

/// Global `k` (over all modules) gets index `k`.
pub open spec fn global_indices(gs: Seq<Global>) -> Map<u32, u32>
    decreases gs.len(),
{
    if gs.len() == 0 {
        Map::empty()
    } else {
        global_indices(gs.drop_last()).insert(gs.last().id, counted(0, (gs.len() - 1) as nat))
    }
}

/// The position of a signature in the type section.
pub open spec fn type_index(tys: Seq<(Seq<ValType>, Seq<ValType>)>, sig: (Seq<ValType>, Seq<ValType>)) -> u32 {
    (choose|i: int| 0 <= i < tys.len() && tys[i] == sig) as u32
}

/// The locals of `_start`: each top-level `let` gets the next slot (a
/// repeated id takes the slot number current at its repetition).
pub open spec fn init_locals(ss: Seq<Stmt>) -> Map<u32, u32>
    decreases ss.len(),
{
    if ss.len() == 0 {
        Map::empty()
    } else {
        let m = init_locals(ss.drop_last());
        match ss.last() {
            Stmt::Let { id, .. } => m.insert(id, m.dom().len() as u32),
            _ => m,
        }
    }
}

/// `__init_strings`: registers each literal with the runtime by the offset
/// and the length of its UTF-8 bytes in the packed data.
pub open spec fn init_strings_code(lits: Seq<Seq<char>>) -> Seq<WasmInstr>
    decreases lits.len(),
{
    if lits.len() == 0 {
        Seq::empty()
    } else {
        init_strings_code(lits.drop_last()) + seq![
            WasmInstr::I32Const(packed(lits.drop_last()).len() as u32 as i32),
            WasmInstr::I32Const(encode_utf8(lits.last()).len() as u32 as i32),
            WasmInstr::Call(RT_STRING_NEW),
        ]
    }
}

/// The initialisation of the globals: the value of the initialiser, or
/// the web platform id for `__platform__`, stored into the global.
pub open spec fn globals_init_code(env: EmitEnv, gs: Seq<Global>) -> Seq<WasmInstr>
    decreases gs.len(),
{
    if gs.len() == 0 {
        Seq::empty()
    } else {
        let g = gs.last();
        globals_init_code(env, gs.drop_last()) + match g.init {
            Some(e) => expr_code(env, e) + seq![WasmInstr::GlobalSet(env.globals[g.id])],
            None => if g.name@ == lit_platform() {
                seq![WasmInstr::F64Const(F64_FIVE), WasmInstr::GlobalSet(env.globals[g.id])]
            } else {
                Seq::empty()
            },
        }
    }
}

/// The top-level statements of the modules, each module's in turn.
pub open spec fn modules_init_code(env: EmitEnv, ms: Seq<(String, HirModule)>) -> Seq<WasmInstr>
    decreases ms.len(),
{
    if ms.len() == 0 {
        Seq::empty()
    } else {
        modules_init_code(env, ms.drop_last()) + stmts_code(env, ms.last().1.init@, false)
    }
}

/// The linear memory: at least one 64 KiB page, enough for the literals.
pub open spec fn memory_pages(data_len: nat) -> nat {
    if data_len == 0 {
        1
    } else {
        ((data_len + 65535) / 65536) as nat
    }
}

#[derive(Clone, Copy, PartialEq, Eq, Structural)]
pub enum ExportKind {
    Func,
    Memory,
}

pub struct WasmExport {
    pub name: &'static str,
    pub kind: ExportKind,
    pub index: u32,
}

pub struct WasmImport {
    pub module: &'static str,
    pub name: &'static str,
    pub type_idx: u32,
}

/// The sections of a WebAssembly module, as plain values.
pub struct WasmModulePlan {
    pub types: Vec<FuncType>,
    pub imports: Vec<WasmImport>,
    /// The type index of each defined function.
    pub functions: Vec<u32>,
    /// Minimum size of the single memory, in 64 KiB pages.
    pub memory_pages: u64,
    /// Number of mutable `f64` globals, each initialised to `undefined`.
    pub num_globals: u32,
    pub exports: Vec<WasmExport>,
    /// Whether a data-count section precedes the code section.
    pub data_count: bool,
    pub code: Vec<FunctionBody>,
    /// One active data segment at address 0, when not empty.
    pub data: Vec<u8>,
}

proof fn lemma_flat_step(ms: Seq<(String, HirModule)>, i: int)
    requires
        0 <= i < ms.len(),
    ensures
        flat_functions(ms.take(i + 1)) == flat_functions(ms.take(i)) + ms[i].1.functions@,
        flat_globals(ms.take(i + 1)) == flat_globals(ms.take(i)) + ms[i].1.globals@,
        flat_init(ms.take(i + 1)) == flat_init(ms.take(i)) + ms[i].1.init@,
        all_lits(ms.take(i + 1)) == all_lits(ms.take(i)) + module_lits(ms[i].1),
{
    assert(ms.take(i + 1).drop_last() =~= ms.take(i));
}

/// Interns the literals of every module, in order.
fn collect_all_strings(em: &mut WasmModuleEmitter, modules: &[(String, HirModule)])
    requires
        old(em).wf(),
        old(em).layout_wf(),
    ensures
        final(em).wf(),
        final(em).layout_wf(),
        final(em).same_but_strings(&*old(em)),
        final(em).strings() == intern_all(old(em).strings(), all_lits(modules@)),
{
    let ghost t0 = em.strings();
    let n = modules.len();
    let mut i: usize = 0;
    while i < n
        invariant
            n == modules@.len(),
            i <= n,
            em.wf(),
            em.layout_wf(),
            em.same_but_strings(&*old(em)),
            em.strings() == intern_all(t0, all_lits(modules@.take(i as int))),
        decreases n - i,
    {
        em.collect_strings(&modules[i].1);
        proof {
            lemma_flat_step(modules@, i as int);
            lemma_intern_all_append(t0, all_lits(modules@.take(i as int)), module_lits(modules@[i as int].1));
        }
        i = i + 1;
    }
    assert(modules@.take(n as int) =~= modules@);
}

/// Registers the signatures of the runtime imports.
fn register_base_types(em: &mut WasmModuleEmitter)
    requires
        old(em).type_sigs().len() == 0,
    ensures
        final(em).type_sigs() == base_sigs(),
        distinct(final(em).type_sigs()),
        final(em).string_table == old(em).string_table,
        final(em).string_data == old(em).string_data,
        final(em).func_map == old(em).func_map,
        final(em).func_results == old(em).func_results,
        final(em).global_map == old(em).global_map,
        final(em).num_imports == old(em).num_imports,
        final(em).num_globals == old(em).num_globals,
{
    assert(distinct(em.type_sigs()));
    proof {
        lemma_base_sigs_distinct();
    }
    let p: Vec<ValType> = vec![];
    let r: Vec<ValType> = vec![];
    assert((p@, r@) =~~= base_sigs()[0]);
    let _ = em.get_type_idx(p, r);
    assert(em.type_sigs() =~= base_sigs().take(1));
    let p: Vec<ValType> = vec![ValType::I32, ValType::I32];
    let r: Vec<ValType> = vec![];
    assert((p@, r@) =~~= base_sigs()[1]);
    let _ = em.get_type_idx(p, r);
    assert(em.type_sigs() =~= base_sigs().take(2));
    let p: Vec<ValType> = vec![ValType::F64];
    let r: Vec<ValType> = vec![];
    assert((p@, r@) =~~= base_sigs()[2]);
    let _ = em.get_type_idx(p, r);
    assert(em.type_sigs() =~= base_sigs().take(3));
    let p: Vec<ValType> = vec![ValType::F64, ValType::F64];
    let r: Vec<ValType> = vec![ValType::F64];
    assert((p@, r@) =~~= base_sigs()[3]);
    let _ = em.get_type_idx(p, r);
    assert(em.type_sigs() =~= base_sigs().take(4));
    let p: Vec<ValType> = vec![ValType::F64, ValType::F64];
    let r: Vec<ValType> = vec![ValType::I32];
    assert((p@, r@) =~~= base_sigs()[4]);
    let _ = em.get_type_idx(p, r);
    assert(em.type_sigs() =~= base_sigs().take(5));
    let p: Vec<ValType> = vec![ValType::F64];
    let r: Vec<ValType> = vec![ValType::F64];
    assert((p@, r@) =~~= base_sigs()[5]);
    let _ = em.get_type_idx(p, r);
    assert(em.type_sigs() =~= base_sigs().take(6));
    let p: Vec<ValType> = vec![ValType::F64];
    let r: Vec<ValType> = vec![ValType::I32];
    assert((p@, r@) =~~= base_sigs()[6]);
    let _ = em.get_type_idx(p, r);
    assert(em.type_sigs() =~= base_sigs().take(7));
    let p: Vec<ValType> = vec![];
    let r: Vec<ValType> = vec![ValType::F64];
    assert((p@, r@) =~~= base_sigs()[7]);
    let _ = em.get_type_idx(p, r);
    assert(em.type_sigs() =~= base_sigs().take(8));
    assert(em.type_sigs() =~= base_sigs());
}

/// Tells the base signatures apart.
pub open spec fn sig_code(s: (Seq<ValType>, Seq<ValType>)) -> int {
    100 * s.0.len() + 10 * s.1.len() + if s.1.len() > 0 && s.1[0] == ValType::I32 { 1int } else { 0 }
}

proof fn lemma_base_sigs_distinct()
    ensures
        distinct(base_sigs()),
        forall|k: int| 0 <= k < 8 ==> !(#[trigger] base_sigs().take(k)).contains(base_sigs()[k]),
{
    let b = base_sigs();
    assert(sig_code(b[0]) == 0);
    assert(sig_code(b[1]) == 200);
    assert(sig_code(b[2]) == 100);
    assert(sig_code(b[3]) == 210);
    assert(sig_code(b[4]) == 211);
    assert(sig_code(b[5]) == 110);
    assert(sig_code(b[6]) == 111);
    assert(sig_code(b[7]) == 10);
    assert forall|i: int, j: int| 0 <= i < b.len() && 0 <= j < b.len() && i != j implies b[i] != b[j] by {
        assert(sig_code(b[i]) != sig_code(b[j]));
    }
    assert forall|k: int| 0 <= k < 8 implies !(#[trigger] b.take(k)).contains(b[k]) by {
        if b.take(k).contains(b[k]) {
            let i = choose|i: int| 0 <= i < b.take(k).len() && b.take(k)[i] == b[k];
            assert(b[i] == b[k]);
        }
    }
}

/// The signature of a user function.
fn function_sig(f: &HirFunction) -> (r: (Vec<ValType>, Vec<ValType>))
    ensures
        (r.0@, r.1@) == fn_sig(*f),
{
    let n = f.params.len();
    let mut params: Vec<ValType> = Vec::new();
    let mut i: usize = 0;
    while i < n
        invariant
            n == f.params@.len(),
            i <= n,
            params@ =~= Seq::new(i as nat, |k: int| ValType::F64),
        decreases n - i,
    {
        params.push(ValType::F64);
        i = i + 1;
    }
    let mut results: Vec<ValType> = Vec::new();
    proof {
        reveal_strlit("main");
        assert("main"@ =~= lit_main());
    }
    if any_return(&f.body) || crate::text::chars_eq(f.name.as_str(), "main") {
        results.push(ValType::F64);
    }
    assert(results@ =~= fn_sig(*f).1);
    (params, results)
}

/// Registers the signature and the index of every user function; returns
/// the index that follows the last one (that of `_start`).
fn register_functions(em: &mut WasmModuleEmitter, modules: &[(String, HirModule)]) -> (next: u32)
    requires
        old(em).func_map@ == Map::<u32, u32>::empty(),
        old(em).func_results@ == Map::<u32, bool>::empty(),
        distinct(old(em).type_sigs()),
    ensures
        final(em).func_map@ == func_indices(flat_functions(modules@)),
        final(em).func_results@ == func_results(flat_functions(modules@)),
        distinct(final(em).type_sigs()),
        final(em).type_sigs() == intern_all(old(em).type_sigs(), sigs_of(flat_functions(modules@))),
        next == counted(FIRST_USER_FUNC, flat_functions(modules@).len()),
        final(em).string_table == old(em).string_table,
        final(em).string_data == old(em).string_data,
        final(em).global_map == old(em).global_map,
        final(em).num_imports == old(em).num_imports,
        final(em).num_globals == old(em).num_globals,
{
    let ghost s0 = em.type_sigs();
    let mut user_func_idx: u32 = FIRST_USER_FUNC;
    let n = modules.len();
    let mut i: usize = 0;
    while i < n
        invariant
            n == modules@.len(),
            i <= n,
            em.func_map@ == func_indices(flat_functions(modules@.take(i as int))),
            em.func_results@ == func_results(flat_functions(modules@.take(i as int))),
            distinct(em.type_sigs()),
            em.type_sigs() == intern_all(s0, sigs_of(flat_functions(modules@.take(i as int)))),
            user_func_idx == counted(FIRST_USER_FUNC, flat_functions(modules@.take(i as int)).len()),
            em.string_table == old(em).string_table,
            em.string_data == old(em).string_data,
            em.global_map == old(em).global_map,
            em.num_imports == old(em).num_imports,
            em.num_globals == old(em).num_globals,
        decreases n - i,
    {
        let ghost done = flat_functions(modules@.take(i as int));
        let fs = &modules[i].1.functions;
        let nf = fs.len();
        let mut j: usize = 0;
        while j < nf
            invariant
                nf == fs@.len(),
                fs@ == modules@[i as int].1.functions@,
                j <= nf,
                em.func_map@ == func_indices(done + fs@.take(j as int)),
                em.func_results@ == func_results(done + fs@.take(j as int)),
                distinct(em.type_sigs()),
                em.type_sigs() == intern_all(s0, sigs_of(done + fs@.take(j as int))),
                user_func_idx == counted(FIRST_USER_FUNC, (done + fs@.take(j as int)).len()),
                em.string_table == old(em).string_table,
                em.string_data == old(em).string_data,
                em.global_map == old(em).global_map,
                em.num_imports == old(em).num_imports,
                em.num_globals == old(em).num_globals,
            decreases nf - j,
        {
            let (params, results) = function_sig(&fs[j]);
            let leaves_result = results.len() > 0;
            let _ = em.get_type_idx(params, results);
            em.func_map.insert(fs[j].id, user_func_idx);
            em.func_results.insert(fs[j].id, leaves_result);
            user_func_idx = user_func_idx.wrapping_add(1);
            proof {
                let pre = done + fs@.take(j as int);
                let post = done + fs@.take(j + 1);
                assert(post =~= pre.push(fs@[j as int]));
                assert(post.drop_last() =~= pre);
                assert(sigs_of(post) =~= sigs_of(pre).push(fn_sig(fs@[j as int])));
                assert(sigs_of(post).drop_last() =~= sigs_of(pre));
            }
            j = j + 1;
        }
        proof {
            lemma_flat_step(modules@, i as int);
            assert(fs@.take(nf as int) =~= fs@);
        }
        i = i + 1;
    }
    assert(modules@.take(n as int) =~= modules@);
    user_func_idx
}

/// Gives each global of each module the next global index.
fn register_globals(em: &mut WasmModuleEmitter, modules: &[(String, HirModule)])
    requires
        old(em).global_map@ == Map::<u32, u32>::empty(),
        old(em).num_globals == 0,
    ensures
        final(em).global_map@ == global_indices(flat_globals(modules@)),
        final(em).num_globals == counted(0, flat_globals(modules@).len()),
        final(em).string_table == old(em).string_table,
        final(em).string_data == old(em).string_data,
        final(em).types == old(em).types,
        final(em).func_map == old(em).func_map,
        final(em).func_results == old(em).func_results,
        final(em).num_imports == old(em).num_imports,
{
    let n = modules.len();
    let mut i: usize = 0;
    while i < n
        invariant
            n == modules@.len(),
            i <= n,
            em.global_map@ == global_indices(flat_globals(modules@.take(i as int))),
            em.num_globals == counted(0, flat_globals(modules@.take(i as int)).len()),
            em.string_table == old(em).string_table,
            em.string_data == old(em).string_data,
            em.types == old(em).types,
            em.func_map == old(em).func_map,
            em.func_results == old(em).func_results,
            em.num_imports == old(em).num_imports,
        decreases n - i,
    {
        let ghost done = flat_globals(modules@.take(i as int));
        let gs = &modules[i].1.globals;
        let ng = gs.len();
        let mut j: usize = 0;
        while j < ng
            invariant
                ng == gs@.len(),
                gs@ == modules@[i as int].1.globals@,
                j <= ng,
                em.global_map@ == global_indices(done + gs@.take(j as int)),
                em.num_globals == counted(0, (done + gs@.take(j as int)).len()),
                em.string_table == old(em).string_table,
                em.string_data == old(em).string_data,
                em.types == old(em).types,
                em.func_map == old(em).func_map,
                em.func_results == old(em).func_results,
                em.num_imports == old(em).num_imports,
            decreases ng - j,
        {
            em.global_map.insert(gs[j].id, em.num_globals);
            em.num_globals = em.num_globals.wrapping_add(1);
            proof {
                let pre = done + gs@.take(j as int);
                let post = done + gs@.take(j + 1);
                assert(post.drop_last() =~= pre);
            }
            j = j + 1;
        }
        proof {
            lemma_flat_step(modules@, i as int);
            assert(gs@.take(ng as int) =~= gs@);
        }
        i = i + 1;
    }
    assert(modules@.take(n as int) =~= modules@);
}

/// Interning keeps what was there and adds every element interned.
pub proof fn lemma_intern_all_contains<T>(t: Seq<T>, xs: Seq<T>)
    ensures
        t.len() <= intern_all(t, xs).len(),
        intern_all(t, xs).take(t.len() as int) == t,
        forall|i: int| 0 <= i < xs.len() ==> intern_all(t, xs).contains(#[trigger] xs[i]),
    decreases xs.len(),
{
    if xs.len() > 0 {
        let p = intern_all(t, xs.drop_last());
        lemma_intern_all_contains(t, xs.drop_last());
        assert forall|i: int| 0 <= i < xs.len() implies intern_all(t, xs).contains(#[trigger] xs[i]) by {
            if i < xs.len() - 1 {
                assert(p.contains(xs.drop_last()[i]));
                let k = choose|k: int| 0 <= k < p.len() && p[k] == xs.drop_last()[i];
                if !p.contains(xs.last()) {
                    assert(p.push(xs.last())[k] == xs[i]);
                }
            } else {
                if !p.contains(xs.last()) {
                    assert(p.push(xs.last())[p.len() as int] == xs[i]);
                }
            }
        }
        if !p.contains(xs.last()) {
            assert(p.push(xs.last()).take(t.len() as int) =~= p.take(t.len() as int));
        }
    }
}

proof fn lemma_global_indices_dom(gs: Seq<Global>, i: int)
    requires
        0 <= i < gs.len(),
    ensures
        global_indices(gs).contains_key(gs[i].id),
    decreases gs.len(),
{
    if i < gs.len() - 1 {
        lemma_global_indices_dom(gs.drop_last(), i);
        assert(gs.drop_last()[i] == gs[i]);
    }
}

/// The function section: `__init_strings`, the user functions, `_start`.
fn function_section(em: &mut WasmModuleEmitter, modules: &[(String, HirModule)]) -> (fs: Vec<u32>)
    requires
        distinct(old(em).type_sigs()),
        forall|k: int|
            0 <= k < flat_functions(modules@).len() ==> old(em).type_sigs().contains(
                #[trigger] fn_sig(flat_functions(modules@)[k]),
            ),
        old(em).type_sigs().len() > 0,
        old(em).type_sigs()[0] == base_sigs()[0],
    ensures
        final(em).types == old(em).types,
        final(em).string_table == old(em).string_table,
        final(em).string_data == old(em).string_data,
        final(em).func_map == old(em).func_map,
        final(em).func_results == old(em).func_results,
        final(em).global_map == old(em).global_map,
        final(em).num_imports == old(em).num_imports,
        final(em).num_globals == old(em).num_globals,
        fs@ == seq![0u32] + sigs_of(flat_functions(modules@)).map_values(
            |sig: (Seq<ValType>, Seq<ValType>)| type_index(old(em).type_sigs(), sig),
        ) + seq![0u32],
{
    let ghost sigs = em.type_sigs();
    let ghost flat = flat_functions(modules@);
    let ghost want = sigs_of(flat).map_values(
        |sig: (Seq<ValType>, Seq<ValType>)| type_index(sigs, sig),
    );
    let mut out: Vec<u32> = Vec::new();
    out.push(0);
    let n = modules.len();
    let mut i: usize = 0;
    while i < n
        invariant
            n == modules@.len(),
            i <= n,
            flat == flat_functions(modules@),
            want == sigs_of(flat).map_values(
                |sig: (Seq<ValType>, Seq<ValType>)| type_index(sigs, sig),
            ),
            distinct(sigs),
            forall|k: int| 0 <= k < flat.len() ==> sigs.contains(#[trigger] fn_sig(flat[k])),
            em.type_sigs() == sigs,
            em.types == old(em).types,
            em.string_table == old(em).string_table,
            em.string_data == old(em).string_data,
            em.func_map == old(em).func_map,
            em.func_results == old(em).func_results,
            em.global_map == old(em).global_map,
            em.num_imports == old(em).num_imports,
            em.num_globals == old(em).num_globals,
            flat_functions(modules@.take(i as int)).len() <= flat.len(),
            flat_functions(modules@.take(i as int)) == flat.take(flat_functions(modules@.take(i as int)).len() as int),
            out@ == seq![0u32] + want.take(flat_functions(modules@.take(i as int)).len() as int),
        decreases n - i,
    {
        let ghost done = flat_functions(modules@.take(i as int));
        let fs = &modules[i].1.functions;
        proof {
            lemma_flat_step(modules@, i as int);
            lemma_flat_prefix(modules@, i as int + 1);
        }
        let nf = fs.len();
        let mut j: usize = 0;
        while j < nf
            invariant
                nf == fs@.len(),
                fs@ == modules@[i as int].1.functions@,
                j <= nf,
                flat == flat_functions(modules@),
                want == sigs_of(flat).map_values(
                    |sig: (Seq<ValType>, Seq<ValType>)| type_index(sigs, sig),
                ),
                distinct(sigs),
                forall|k: int| 0 <= k < flat.len() ==> sigs.contains(#[trigger] fn_sig(flat[k])),
                done + fs@ == flat.take((done + fs@).len() as int),
                (done + fs@).len() <= flat.len(),
                em.type_sigs() == sigs,
                em.types == old(em).types,
                em.string_table == old(em).string_table,
                em.string_data == old(em).string_data,
                em.func_map == old(em).func_map,
                em.func_results == old(em).func_results,
                em.global_map == old(em).global_map,
                em.num_imports == old(em).num_imports,
                em.num_globals == old(em).num_globals,
                out@ == seq![0u32] + want.take(done.len() + j),
            decreases nf - j,
        {
            let ghost k: int = done.len() + j;
            assert((done + fs@)[k] == fs@[j as int]);
            assert(flat[k] == fs@[j as int]);
            let (params, results) = function_sig(&fs[j]);
            let ghost types_before = em.types;
            let idx = em.get_type_idx(params, results);
            proof {
                let key = fn_sig(fs@[j as int]);
                assert(sigs.contains(fn_sig(flat[k])));
                assert(em.type_sigs() == sigs);
                let c = choose|c: int| 0 <= c < sigs.len() && sigs[c] == key;
                let w = choose|w: int| 0 <= w < em.type_sigs().len() && em.type_sigs()[w] == key && idx == w as u32;
                assert(c == w);
                assert(want[k] == type_index(sigs, key));
                assert(want.take(k + 1) =~= want.take(k).push(want[k]));
            }
            out.push(idx);
            j = j + 1;
        }
        i = i + 1;
    }
    assert(modules@.take(n as int) =~= modules@);
    assert(want.take(flat.len() as int) =~= want);
    out.push(0);
    out
}

proof fn lemma_flat_prefix(ms: Seq<(String, HirModule)>, i: int)
    requires
        0 <= i <= ms.len(),
    ensures
        flat_functions(ms.take(i)).len() <= flat_functions(ms).len(),
        flat_functions(ms.take(i)) == flat_functions(ms).take(flat_functions(ms.take(i)).len() as int),
    decreases ms.len() - i,
{
    if i < ms.len() {
        lemma_flat_prefix(ms, i + 1);
        lemma_flat_step(ms, i);
        let a = flat_functions(ms.take(i));
        let b = flat_functions(ms.take(i + 1));
        assert(a =~= b.take(a.len() as int));
        assert(b.take(a.len() as int) =~= flat_functions(ms).take(a.len() as int));
    } else {
        assert(ms.take(i) =~= ms);
        assert(flat_functions(ms).take(flat_functions(ms).len() as int) =~= flat_functions(ms));
    }
}

/// `__init_strings`: `i32.const offset; i32.const len; call string_new` for
/// each literal, then `end`.
fn init_strings_body(em: &WasmModuleEmitter) -> (body: FunctionBody)
    requires
        em.layout_wf(),
    ensures
        body.locals@.len() == 0,
        body.instrs@ == init_strings_code(em.strings()) + seq![WasmInstr::End],
{
    let ghost t = em.strings();
    let mut instrs: Vec<WasmInstr> = Vec::new();
    let n = em.string_table.len();
    let mut i: usize = 0;
    while i < n
        invariant
            n == em.string_table@.len(),
            t == em.strings(),
            t.len() == n,
            i <= n,
            forall|k: int|
                0 <= k < n ==> {
                    &&& (#[trigger] em.string_table@[k]).offset == packed(t.take(k)).len() as u32
                    &&& em.string_table@[k].len == encode_utf8(t[k]).len() as u32
                },
            instrs@ == init_strings_code(t.take(i as int)),
        decreases n - i,
    {
        let e = &em.string_table[i];
        instrs.push(WasmInstr::I32Const(e.offset as i32));
        instrs.push(WasmInstr::I32Const(e.len as i32));
        instrs.push(WasmInstr::Call(RT_STRING_NEW));
        proof {
            let p = t.take(i + 1);
            assert(p.drop_last() =~= t.take(i as int));
            assert(p.last() == t[i as int]);
        }
        i = i + 1;
    }
    assert(t.take(n as int) =~= t);
    instrs.push(WasmInstr::End);
    FunctionBody { locals: Vec::new(), instrs }
}

/// The bodies of the user functions, in order.
fn user_function_bodies(em: &WasmModuleEmitter, modules: &[(String, HirModule)]) -> (bodies: Vec<FunctionBody>)
    requires
        em.wf(),
    ensures
        bodies@.len() == flat_functions(modules@).len(),
        forall|k: int|
            0 <= k < bodies@.len() ==> {
                &&& (#[trigger] bodies@[k]).locals@ == function_local_decls(flat_functions(modules@)[k])
                &&& bodies@[k].instrs@ == function_instrs(
                    em.strings(),
                    em.func_map@,
                    em.func_results@,
                    em.global_map@,
                    flat_functions(modules@)[k],
                )
            },
{
    let mut bodies: Vec<FunctionBody> = Vec::new();
    let n = modules.len();
    let mut i: usize = 0;
    while i < n
        invariant
            n == modules@.len(),
            i <= n,
            em.wf(),
            bodies@.len() == flat_functions(modules@.take(i as int)).len(),
            forall|k: int|
                0 <= k < bodies@.len() ==> {
                    &&& (#[trigger] bodies@[k]).locals@ == function_local_decls(
                        flat_functions(modules@.take(i as int))[k],
                    )
                    &&& bodies@[k].instrs@ == function_instrs(
                        em.strings(),
                        em.func_map@,
                        em.func_results@,
                        em.global_map@,
                        flat_functions(modules@.take(i as int))[k],
                    )
                },
        decreases n - i,
    {
        let ghost done = flat_functions(modules@.take(i as int));
        let fs = &modules[i].1.functions;
        let nf = fs.len();
        let mut j: usize = 0;
        while j < nf
            invariant
                nf == fs@.len(),
                fs@ == modules@[i as int].1.functions@,
                j <= nf,
                em.wf(),
                bodies@.len() == done.len() + j,
                forall|k: int|
                    0 <= k < bodies@.len() ==> {
                        &&& (#[trigger] bodies@[k]).locals@ == function_local_decls(
                            (done + fs@)[k],
                        )
                        &&& bodies@[k].instrs@ == function_instrs(
                            em.strings(),
                            em.func_map@,
                            em.func_results@,
                            em.global_map@,
                            (done + fs@)[k],
                        )
                    },
            decreases nf - j,
        {
            let body = em.compile_function(&fs[j]);
            bodies.push(body);
            assert((done + fs@)[done.len() + j] == fs@[j as int]);
            j = j + 1;
        }
        proof {
            lemma_flat_step(modules@, i as int);
        }
        i = i + 1;
    }
    assert(modules@.take(n as int) =~= modules@);
    bodies
}

/// Slots for the top-level `let`s of all modules.
fn start_locals(modules: &[(String, HirModule)]) -> (m: IdMap<u32>)
    ensures
        m@ == init_locals(flat_init(modules@)),
{
    let mut m = IdMap::new();
    let n = modules.len();
    let mut i: usize = 0;
    while i < n
        invariant
            n == modules@.len(),
            i <= n,
            m@ == init_locals(flat_init(modules@.take(i as int))),
        decreases n - i,
    {
        let ghost done = flat_init(modules@.take(i as int));
        let ss = &modules[i].1.init;
        let ns = ss.len();
        let mut j: usize = 0;
        while j < ns
            invariant
                ns == ss@.len(),
                ss@ == modules@[i as int].1.init@,
                j <= ns,
                m@ == init_locals(done + ss@.take(j as int)),
            decreases ns - j,
        {
            match &ss[j] {
                Stmt::Let { id, .. } => {
                    let l = m.len() as u32;
                    m.insert(*id, l);
                },
                _ => {},
            }
            assert((done + ss@.take(j + 1)).drop_last() =~= done + ss@.take(j as int));
            j = j + 1;
        }
        proof {
            lemma_flat_step(modules@, i as int);
            assert(ss@.take(ns as int) =~= ss@);
        }
        i = i + 1;
    }
    assert(modules@.take(n as int) =~= modules@);
    m
}

/// Stores each global's initial value.
fn emit_globals_init(
    ctx: &FuncEmitCtx,
    out: &mut Vec<WasmInstr>,
    modules: &[(String, HirModule)],
)
    requires
        ctx.wf(),
        forall|k: int|
            0 <= k < flat_globals(modules@).len() ==> ctx.emitter.global_map@.contains_key(
                (#[trigger] flat_globals(modules@)[k]).id,
            ),
    ensures
        final(out)@ == old(out)@ + globals_init_code(ctx.env(), flat_globals(modules@)),
{
    let ghost o = out@;
    let ghost flat = flat_globals(modules@);
    let n = modules.len();
    let mut i: usize = 0;
    proof {
        reveal_strlit("__platform__");
        assert("__platform__"@ =~= lit_platform());
    }
    while i < n
        invariant
            n == modules@.len(),
            i <= n,
            ctx.wf(),
            flat == flat_globals(modules@),
            forall|k: int| 0 <= k < flat.len() ==> ctx.emitter.global_map@.contains_key((#[trigger] flat[k]).id),
            "__platform__"@ == lit_platform(),
            flat_globals(modules@.take(i as int)).len() <= flat.len(),
            flat_globals(modules@.take(i as int)) == flat.take(flat_globals(modules@.take(i as int)).len() as int),
            out@ == o + globals_init_code(ctx.env(), flat_globals(modules@.take(i as int))),
        decreases n - i,
    {
        let ghost done = flat_globals(modules@.take(i as int));
        proof {
            lemma_flat_step(modules@, i as int);
            lemma_flat_globals_prefix(modules@, i as int + 1);
        }
        let gs = &modules[i].1.globals;
        let ng = gs.len();
        let mut j: usize = 0;
        while j < ng
            invariant
                ng == gs@.len(),
                gs@ == modules@[i as int].1.globals@,
                j <= ng,
                ctx.wf(),
                done + gs@ == flat.take((done + gs@).len() as int),
                (done + gs@).len() <= flat.len(),
                forall|k: int| 0 <= k < flat.len() ==> ctx.emitter.global_map@.contains_key((#[trigger] flat[k]).id),
                "__platform__"@ == lit_platform(),
                out@ == o + globals_init_code(ctx.env(), done + gs@.take(j as int)),
            decreases ng - j,
        {
            let g = &gs[j];
            assert(flat[done.len() + j] == gs@[j as int]) by {
                assert((done + gs@)[done.len() + j] == gs@[j as int]);
            }
            assert(ctx.emitter.global_map@.contains_key(g.id));
            let gidx = ctx.emitter.global_map.get(g.id).unwrap();
            match &g.init {
                Some(init) => {
                    ctx.emit_expr(out, init);
                    out.push(WasmInstr::GlobalSet(gidx));
                },
                None => {
                    if crate::text::chars_eq(g.name.as_str(), "__platform__") {
                        // the web platform's id
                        out.push(WasmInstr::F64Const(F64_FIVE));
                        out.push(WasmInstr::GlobalSet(gidx));
                    }
                },
            }
            proof {
                let pre = done + gs@.take(j as int);
                let post = done + gs@.take(j + 1);
                assert(post.drop_last() =~= pre);
                assert(post.last() == gs@[j as int]);
            }
            j = j + 1;
        }
        assert(gs@.take(ng as int) =~= gs@);
        i = i + 1;
    }
    assert(modules@.take(n as int) =~= modules@);
}

proof fn lemma_flat_globals_prefix(ms: Seq<(String, HirModule)>, i: int)
    requires
        0 <= i <= ms.len(),
    ensures
        flat_globals(ms.take(i)).len() <= flat_globals(ms).len(),
        flat_globals(ms.take(i)) == flat_globals(ms).take(flat_globals(ms.take(i)).len() as int),
    decreases ms.len() - i,
{
    if i < ms.len() {
        lemma_flat_globals_prefix(ms, i + 1);
        lemma_flat_step(ms, i);
        let a = flat_globals(ms.take(i));
        let b = flat_globals(ms.take(i + 1));
        assert(a =~= b.take(a.len() as int));
        assert(b.take(a.len() as int) =~= flat_globals(ms).take(a.len() as int));
    } else {
        assert(ms.take(i) =~= ms);
        assert(flat_globals(ms).take(flat_globals(ms).len() as int) =~= flat_globals(ms));
    }
}

/// Runs the top-level statements of each module in turn.
fn emit_modules_init(
    em: &WasmModuleEmitter,
    locals: &IdMap<u32>,
    out: &mut Vec<WasmInstr>,
    modules: &[(String, HirModule)],
)
    requires
        em.wf(),
    ensures
        final(out)@ == old(out)@ + modules_init_code(
            env_of(em, locals),
            modules@,
        ),
{
    let ghost o = out@;
    let n = modules.len();
    let mut i: usize = 0;
    while i < n
        invariant
            n == modules@.len(),
            i <= n,
            em.wf(),
            out@ == o + modules_init_code(env_of(em, locals), modules@.take(i as int)),
        decreases n - i,
    {
        let mut ctx = FuncEmitCtx::new(em, locals);
        ctx.emit_stmts(out, &modules[i].1.init, false);
        assert(modules@.take(i + 1).drop_last() =~= modules@.take(i as int));
        i = i + 1;
    }
    assert(modules@.take(n as int) =~= modules@);
}

/// The module after collection: its literals, type section, function and
/// global indices.
pub open spec fn final_strings(ms: Seq<(String, HirModule)>) -> Seq<Seq<char>> {
    intern_all(Seq::empty(), all_lits(ms))
}

pub open spec fn final_sigs(ms: Seq<(String, HirModule)>) -> Seq<(Seq<ValType>, Seq<ValType>)> {
    intern_all(base_sigs(), sigs_of(flat_functions(ms)))
}

/// What the code of `_start` depends on.
pub open spec fn start_env(ms: Seq<(String, HirModule)>) -> EmitEnv {
    EmitEnv {
        strings: final_strings(ms),
        funcs: func_indices(flat_functions(ms)),
        results: func_results(flat_functions(ms)),
        globals: global_indices(flat_globals(ms)),
        locals: init_locals(flat_init(ms)),
    }
}

/// `_start`: `__init_strings`, the globals' initialisers, each module's
/// top-level statements, `end`.
pub open spec fn start_instrs(ms: Seq<(String, HirModule)>) -> Seq<WasmInstr> {
    seq![WasmInstr::Call(INIT_STRINGS_FUNC)] + globals_init_code(start_env(ms), flat_globals(ms))
        + modules_init_code(start_env(ms), ms) + seq![WasmInstr::End]
}

pub open spec fn start_local_decls(ms: Seq<(String, HirModule)>) -> Seq<(u32, ValType)> {
    let n = init_locals(flat_init(ms)).dom().len();
    if n > 0 {
        seq![(n as u32, ValType::F64)]
    } else {
        Seq::empty()
    }
}

pub open spec fn lit_rt() -> Seq<char> {
    seq!['r', 't']
}

pub open spec fn lit_start() -> Seq<char> {
    seq!['_', 's', 't', 'a', 'r', 't']
}

pub open spec fn lit_memory() -> Seq<char> {
    seq!['m', 'e', 'm', 'o', 'r', 'y']
}

/// The plan of the module compiled from `ms`.
pub open spec fn is_module_plan(plan: WasmModulePlan, ms: Seq<(String, HirModule)>) -> bool {
    let strings = final_strings(ms);
    let sigs = final_sigs(ms);
    let flat = flat_functions(ms);
    let n = flat.len();
    &&& plan.types@.map_values(|t: FuncType| sig_of(t)) == sigs
    &&& plan.imports@.len() == NUM_RUNTIME_IMPORTS
    &&& forall|i: int|
        0 <= i < NUM_RUNTIME_IMPORTS ==> {
            &&& (#[trigger] plan.imports@[i]).module@ == lit_rt()
            &&& plan.imports@[i].name@ == import_name(i as u32)
            &&& plan.imports@[i].type_idx == import_type(i as u32)
        }
    &&& plan.functions@ == seq![0u32] + sigs_of(flat).map_values(
        |sig: (Seq<ValType>, Seq<ValType>)| type_index(sigs, sig),
    ) + seq![0u32]
    &&& plan.memory_pages == memory_pages(packed(strings).len())
    &&& plan.num_globals == counted(0, flat_globals(ms).len())
    &&& plan.exports@.len() == 2
    &&& plan.exports@[0].name@ == lit_start()
    &&& plan.exports@[0].kind == ExportKind::Func
    &&& plan.exports@[0].index == counted(FIRST_USER_FUNC, n)
    &&& plan.exports@[1].name@ == lit_memory()
    &&& plan.exports@[1].kind == ExportKind::Memory
    &&& plan.exports@[1].index == 0
    &&& plan.data_count == (packed(strings).len() > 0)
    &&& plan.data@ == packed(strings)
    &&& plan.code@.len() == n + 2
    &&& plan.code@[0].locals@.len() == 0
    &&& plan.code@[0].instrs@ == init_strings_code(strings) + seq![WasmInstr::End]
    &&& forall|k: int|
        0 <= k < n ==> {
            &&& (#[trigger] plan.code@[k + 1]).locals@ == function_local_decls(flat[k])
            &&& plan.code@[k + 1].instrs@ == function_instrs(
                strings,
                func_indices(flat),
                func_results(flat),
                global_indices(flat_globals(ms)),
                flat[k],
            )
        }
    &&& plan.code@[n + 1int].locals@ == start_local_decls(ms)
    &&& plan.code@[n + 1int].instrs@ == start_instrs(ms)
}

/// The runtime imports, all from module `rt`.
fn import_section() -> (imports: Vec<WasmImport>)
    ensures
        imports@.len() == NUM_RUNTIME_IMPORTS,
        forall|i: int|
            0 <= i < NUM_RUNTIME_IMPORTS ==> {
                &&& (#[trigger] imports@[i]).module@ == lit_rt()
                &&& imports@[i].name@ == import_name(i as u32)
                &&& imports@[i].type_idx == import_type(i as u32)
            },
{
    let mut imports: Vec<WasmImport> = Vec::new();
    let types: [u32; 25] = [1, 2, 2, 2, 3, 3, 4, 5, 5, 6, 4, 5, 5, 5, 5, 5, 3, 7, 5, 7, 5, 3, 3, 5, 5];
    proof {
        reveal_strlit("rt");
        assert("rt"@ =~= lit_rt());
    }
    let mut i: u32 = 0;
    while i < NUM_RUNTIME_IMPORTS
        invariant
            i <= NUM_RUNTIME_IMPORTS,
            "rt"@ == lit_rt(),
            types@ == seq![1u32, 2, 2, 2, 3, 3, 4, 5, 5, 6, 4, 5, 5, 5, 5, 5, 3, 7, 5, 7, 5, 3, 3, 5, 5],
            imports@.len() == i,
            forall|k: int|
                0 <= k < i ==> {
                    &&& (#[trigger] imports@[k]).module@ == lit_rt()
                    &&& imports@[k].name@ == import_name(k as u32)
                    &&& imports@[k].type_idx == import_type(k as u32)
                },
        decreases NUM_RUNTIME_IMPORTS - i,
    {
        let t = types[i as usize];
        assert(t == import_type(i));
        imports.push(WasmImport { module: "rt", name: runtime_import_name(i), type_idx: t });
        i = i + 1;
    }
    imports
}

/// The smallest number of 64 KiB pages holding `len` bytes, at least one.
fn pages_for(len: usize) -> (pages: u64)
    ensures
        pages == memory_pages(len as nat),
{
    if len == 0 {
        1
    } else {
        let full = len / 65536;
        let part: usize = if len % 65536 != 0 { 1 } else { 0 };
        assert(((len + 65535) / 65536) as nat == full + part) by (nonlinear_arith)
            requires
                len > 0,
                full == len / 65536,
                part == (if len % 65536 != 0 { 1int } else { 0int }),
        ;
        (full + part) as u64
    }
}

impl WasmModuleEmitter {
    /// Compiles HIR modules into the sections of one WebAssembly module. The
    /// emitter must be fresh.
    pub fn plan(&mut self, modules: &[(String, HirModule)]) -> (plan: WasmModulePlan)
        requires
            old(self).wf(),
            old(self).layout_wf(),
            old(self).strings().len() == 0,
            old(self).string_data@.len() == 0,
            old(self).type_sigs().len() == 0,
            old(self).func_map@ == Map::<u32, u32>::empty(),
            old(self).func_results@ == Map::<u32, bool>::empty(),
            old(self).global_map@ == Map::<u32, u32>::empty(),
            old(self).num_globals == 0,
        ensures
            is_module_plan(plan, modules@),
    {
        assert(old(self).strings() =~= Seq::<Seq<char>>::empty());
        // first pass: string literals
        collect_all_strings(self, modules);
        let ghost strings = self.strings();
        // the runtime imports' signatures come first
        register_base_types(self);
        self.num_imports = NUM_RUNTIME_IMPORTS;
        // user functions: signatures and indices after `__init_strings`
        let start_idx = register_functions(self, modules);
        register_globals(self, modules);
        let ghost flat = flat_functions(modules@);
        proof {
            lemma_intern_all_contains(base_sigs(), sigs_of(flat));
            assert forall|k: int| 0 <= k < flat.len() implies self.type_sigs().contains(
                #[trigger] fn_sig(flat[k]),
            ) by {
                assert(sigs_of(flat)[k] == fn_sig(flat[k]));
            }
            assert(self.type_sigs()[0] == base_sigs()[0]) by {
                assert(self.type_sigs().take(8)[0] == self.type_sigs()[0]);
            }
        }
        let functions = function_section(self, modules);
        let ghost final_type_sigs = self.type_sigs();
        let mut types: Vec<FuncType> = Vec::new();
        std::mem::swap(&mut types, &mut self.types);
        assert(types@.map_values(|f: FuncType| sig_of(f)) =~= final_type_sigs);
        let pages = pages_for(self.string_data.len());
        let mut exports: Vec<WasmExport> = Vec::new();
        proof {
            reveal_strlit("_start");
            reveal_strlit("memory");
            assert("_start"@ =~= lit_start());
            assert("memory"@ =~= lit_memory());
        }
        exports.push(WasmExport { name: "_start", kind: ExportKind::Func, index: start_idx });
        exports.push(WasmExport { name: "memory", kind: ExportKind::Memory, index: 0 });
        let data_count = self.string_data.len() > 0;
        // code: `__init_strings`, the user functions, `_start`
        let mut code: Vec<FunctionBody> = Vec::new();
        let init_body = init_strings_body(self);
        let ghost init_view = init_body;
        code.push(init_body);
        let mut bodies = user_function_bodies(self, modules);
        let ghost bodies_view = bodies@;
        code.append(&mut bodies);
        assert(code@ =~= seq![init_view] + bodies_view);
        let init_locals = start_locals(modules);
        let nl = init_locals.len();
        let mut start_locals_decl: Vec<(u32, ValType)> = Vec::new();
        if nl > 0 {
            start_locals_decl.push((nl as u32, ValType::F64));
        }
        let mut start: Vec<WasmInstr> = Vec::new();
        start.push(WasmInstr::Call(INIT_STRINGS_FUNC));
        proof {
            assert forall|k: int| 0 <= k < flat_globals(modules@).len() implies self.global_map@.contains_key(
                (#[trigger] flat_globals(modules@)[k]).id,
            ) by {
                lemma_global_indices_dom(flat_globals(modules@), k);
            }
        }
        {
            let ctx = FuncEmitCtx::new(self, &init_locals);
            emit_globals_init(&ctx, &mut start, modules);
        }
        emit_modules_init(self, &init_locals, &mut start, modules);
        start.push(WasmInstr::End);
        let start_body = FunctionBody { locals: start_locals_decl, instrs: start };
        let ghost start_view = start_body;
        code.push(start_body);
        assert(code@ =~= seq![init_view] + bodies_view + seq![start_view]);
        let mut data: Vec<u8> = Vec::new();
        let nd = self.string_data.len();
        let mut d: usize = 0;
        while d < nd
            invariant
                nd == self.string_data@.len(),
                d <= nd,
                data@ == self.string_data@.take(d as int),
            decreases nd - d,
        {
            data.push(self.string_data[d]);
            assert(self.string_data@.take(d + 1) =~= data@);
            d = d + 1;
        }
        assert(self.string_data@.take(nd as int) =~= self.string_data@);
        let imports = import_section();
        let plan = WasmModulePlan {
            types,
            imports,
            functions,
            memory_pages: pages,
            num_globals: self.num_globals,
            exports,
            data_count,
            code,
            data,
        };
        proof {
            let n = flat.len();
            assert(plan.code@.len() == n + 2);
            assert forall|k: int| 0 <= k < n implies {
                &&& (#[trigger] plan.code@[k + 1]).locals@ == function_local_decls(flat[k])
                &&& plan.code@[k + 1].instrs@ == function_instrs(
                    final_strings(modules@),
                    func_indices(flat),
                    func_results(flat),
                    global_indices(flat_globals(modules@)),
                    flat[k],
                )
            } by {
                assert(plan.code@[k + 1] == bodies_view[k]);
            }
            let ms = modules@;
            assert(plan.types@.map_values(|t: FuncType| sig_of(t)) == final_sigs(ms));
            assert(plan.functions@ == seq![0u32] + sigs_of(flat).map_values(
                |sig: (Seq<ValType>, Seq<ValType>)| type_index(final_sigs(ms), sig),
            ) + seq![0u32]);
            assert(plan.memory_pages == memory_pages(packed(final_strings(ms)).len()));
            assert(plan.num_globals == counted(0, flat_globals(ms).len()));
            assert(plan.exports@[0].index == counted(FIRST_USER_FUNC, n));
            assert(plan.data_count == (packed(final_strings(ms)).len() > 0));
            assert(plan.data@ == packed(final_strings(ms)));
            assert(plan.code@[0].instrs@ == init_strings_code(final_strings(ms)) + seq![WasmInstr::End]);
            assert(plan.code@[n + 1int].locals@ == start_local_decls(ms));
            assert(plan.code@[n + 1int].instrs@ == start_instrs(ms));
        }
        plan
    }
}

/// Compiles HIR modules to the sections of a WebAssembly module.
pub fn plan_wasm_module(modules: &[(String, HirModule)]) -> (plan: WasmModulePlan)
    ensures
        is_module_plan(plan, modules@),
{
    let mut emitter = WasmModuleEmitter::new();
    emitter.plan(modules)
}

/// The sections of the module compiled from `ms`, by their entries.
pub open spec fn module_view(ms: Seq<(String, HirModule)>) -> ModuleView {
    let strings = final_strings(ms);
    let sigs = final_sigs(ms);
    let flat = flat_functions(ms);
    let n = flat.len();
    ModuleView {
        types: sigs,
        imports: Seq::new(
            NUM_RUNTIME_IMPORTS as nat,
            |i: int| (lit_rt(), import_name(i as u32), import_type(i as u32)),
        ),
        functions: seq![0u32] + sigs_of(flat).map_values(
            |sig: (Seq<ValType>, Seq<ValType>)| type_index(sigs, sig),
        ) + seq![0u32],
        memory_pages: memory_pages(packed(strings).len()) as u64,
        num_globals: counted(0, flat_globals(ms).len()),
        exports: seq![
            (lit_start(), ExportKind::Func, counted(FIRST_USER_FUNC, n)),
            (lit_memory(), ExportKind::Memory, 0u32),
        ],
        data_count: packed(strings).len() > 0,
        code: Seq::new(
            n + 2,
            |k: int|
                if k == 0 {
                    (Seq::empty(), init_strings_code(strings) + seq![WasmInstr::End])
                } else if k <= n {
                    (
                        function_local_decls(flat[k - 1]),
                        function_instrs(
                            strings,
                            func_indices(flat),
                            func_results(flat),
                            global_indices(flat_globals(ms)),
                            flat[k - 1],
                        ),
                    )
                } else {
                    (start_local_decls(ms), start_instrs(ms))
                },
        ),
        data: packed(strings),
    }
}

/// A plan of `ms` describes exactly the module of `ms`.
pub proof fn lemma_plan_view(plan: WasmModulePlan, ms: Seq<(String, HirModule)>)
    requires
        is_module_plan(plan, ms),
    ensures
        plan_view(plan) == module_view(ms),
{
    let v = plan_view(plan);
    let w = module_view(ms);
    let n = flat_functions(ms).len();
    assert(v.imports =~= w.imports);
    assert(v.exports =~= w.exports);
    assert(v.code =~= w.code) by {
        assert forall|k: int| 0 <= k < n + 2 implies v.code[k] == w.code[k] by {
            if 1 <= k <= n {
                assert(plan.code@[(k - 1) + 1] == plan.code@[k]);
            }
        }
    }
    assert(v.types =~= w.types);
    assert(v.functions =~= w.functions);
    assert(v.data =~= w.data);
}

impl WasmModuleEmitter {
    /// Compiles HIR modules to a WebAssembly binary. The emitter must be
    /// fresh, and the module within what the encoder can write.
    pub fn compile(&mut self, modules: &[(String, HirModule)]) -> (bytes: Vec<u8>)
        requires
            old(self).wf(),
            old(self).layout_wf(),
            old(self).strings().len() == 0,
            old(self).string_data@.len() == 0,
            old(self).type_sigs().len() == 0,
            old(self).func_map@ == Map::<u32, u32>::empty(),
            old(self).func_results@ == Map::<u32, bool>::empty(),
            old(self).global_map@ == Map::<u32, u32>::empty(),
            old(self).num_globals == 0,
            view_fits(module_view(modules@)),
        ensures
            bytes@ == module_binary(module_view(modules@)),
    {
        let plan = self.plan(modules);
        proof {
            lemma_plan_view(plan, modules@);
        }
        encode_plan(&plan)
    }
}

/// Compiles HIR modules to a WebAssembly binary, for a module within what
/// the encoder can write.
pub fn compile_to_wasm(modules: &[(String, HirModule)]) -> (bytes: Vec<u8>)
    requires
        view_fits(module_view(modules@)),
    ensures
        bytes@ == module_binary(module_view(modules@)),
{
    let mut emitter = WasmModuleEmitter::new();
    emitter.compile(modules)
}

/// Compiles HIR modules to a WebAssembly binary; `None` when a section
/// would exceed what the encoder can write.
pub fn try_compile_to_wasm(modules: &[(String, HirModule)]) -> (r: Option<Vec<u8>>)
    ensures
        r is Some <==> view_fits(module_view(modules@)),
        r matches Some(bytes) ==> bytes@ == module_binary(module_view(modules@)),
{
    let plan = plan_wasm_module(modules);
    proof {
        lemma_plan_view(plan, modules@);
    }
    if plan_fits(&plan) {
        Some(encode_plan(&plan))
    } else {
        None
    }
}

/// Interning keeps a table free of duplicates.
pub proof fn lemma_intern_all_distinct<T>(t: Seq<T>, xs: Seq<T>)
    requires
        distinct(t),
    ensures
        distinct(intern_all(t, xs)),
    decreases xs.len(),
{
    if xs.len() > 0 {
        lemma_intern_all_distinct(t, xs.drop_last());
        let p = intern_all(t, xs.drop_last());
        if !p.contains(xs.last()) {
            let q = p.push(xs.last());
            assert forall|i: int, j: int| 0 <= i < q.len() && 0 <= j < q.len() && i != j implies q[i] != q[j] by {
                if i == p.len() && q[i] == q[j] {
                    assert(p[j] == xs.last());
                }
                if j == p.len() && q[i] == q[j] {
                    assert(p[i] == xs.last());
                }
            }
        }
    }
}

proof fn lemma_packed_take(tab: Seq<Seq<char>>, i: int)
    requires
        0 <= i < tab.len(),
    ensures
        packed(tab.take(i + 1)) == packed(tab.take(i)) + encode_utf8(tab[i]),
{
    assert(tab.take(i + 1).drop_last() =~= tab.take(i));
}

proof fn lemma_packed_prefix(tab: Seq<Seq<char>>, k: int)
    requires
        0 <= k <= tab.len(),
    ensures
        packed(tab.take(k)).len() <= packed(tab).len(),
        packed(tab).subrange(0, packed(tab.take(k)).len() as int) == packed(tab.take(k)),
    decreases tab.len() - k,
{
    if k == tab.len() {
        assert(tab.take(k) =~= tab);
        assert(packed(tab).subrange(0, packed(tab).len() as int) =~= packed(tab));
    } else {
        lemma_packed_prefix(tab, k + 1);
        lemma_packed_take(tab, k);
        let a = packed(tab.take(k));
        let b = packed(tab.take(k + 1));
        assert(packed(tab).subrange(0, a.len() as int) =~= b.subrange(0, a.len() as int));
        assert(b.subrange(0, a.len() as int) =~= a);
    }
}

/// Literal `i` of the string table is registered with the runtime by
/// `__init_strings` with the offset and the length of its bytes in the
/// data segment, and those bytes are the literal's UTF-8.
pub proof fn lemma_string_registration(lits: Seq<Seq<char>>, i: int)
    requires
        0 <= i < lits.len(),
    ensures
        ({
            let off = packed(lits.take(i)).len();
            let bytes = encode_utf8(lits[i]);
            &&& off + bytes.len() <= packed(lits).len()
            &&& packed(lits).subrange(off as int, (off + bytes.len()) as int) == bytes
            &&& init_strings_code(lits).len() == 3 * lits.len()
            &&& init_strings_code(lits)[3 * i] == WasmInstr::I32Const(off as u32 as i32)
            &&& init_strings_code(lits)[3 * i + 1] == WasmInstr::I32Const(bytes.len() as u32 as i32)
            &&& init_strings_code(lits)[3 * i + 2] == WasmInstr::Call(RT_STRING_NEW)
        }),
{
    lemma_packed_prefix(lits, i + 1);
    lemma_packed_take(lits, i);
    let a = packed(lits.take(i));
    let b = packed(lits.take(i + 1));
    let bytes = encode_utf8(lits[i]);
    assert(packed(lits).subrange(a.len() as int, (a.len() + bytes.len()) as int) =~= b.subrange(
        a.len() as int,
        (a.len() + bytes.len()) as int,
    ));
    assert(b.subrange(a.len() as int, (a.len() + bytes.len()) as int) =~= bytes);
    lemma_init_strings_code(lits, i);
}

proof fn lemma_init_strings_code(lits: Seq<Seq<char>>, i: int)
    requires
        0 <= i < lits.len(),
    ensures
        init_strings_code(lits).len() == 3 * lits.len(),
        init_strings_code(lits)[3 * i] == WasmInstr::I32Const(packed(lits.take(i)).len() as u32 as i32),
        init_strings_code(lits)[3 * i + 1] == WasmInstr::I32Const(encode_utf8(lits[i]).len() as u32 as i32),
        init_strings_code(lits)[3 * i + 2] == WasmInstr::Call(RT_STRING_NEW),
    decreases lits.len(),
{
    let d = lits.drop_last();
    if i < lits.len() - 1 {
        lemma_init_strings_code(d, i);
        assert(d.take(i) =~= lits.take(i));
    } else {
        if d.len() > 0 {
            lemma_init_strings_code(d, 0);
        }
        assert(d =~= lits.take(i));
    }
}

/// Every string literal of the program is in the string table, and no
/// literal is there twice.
pub proof fn lemma_literals_interned(ms: Seq<(String, HirModule)>, s: Seq<char>)
    requires
        all_lits(ms).contains(s),
    ensures
        distinct(final_strings(ms)),
        final_strings(ms).contains(s),
{
    let lits = all_lits(ms);
    lemma_intern_all_distinct(Seq::<Seq<char>>::empty(), lits);
    lemma_intern_all_contains(Seq::<Seq<char>>::empty(), lits);
    let k = choose|k: int| 0 <= k < lits.len() && lits[k] == s;
    assert(final_strings(ms).contains(lits[k]));
}

/// The type section has no duplicates; the runtime imports' signatures
/// keep the first places, where the imports' type indices point; and the
/// type index of each user function names that function's signature (for
/// a type section indexable by `u32`).
pub proof fn lemma_type_section(ms: Seq<(String, HirModule)>, k: int)
    requires
        0 <= k < flat_functions(ms).len(),
        final_sigs(ms).len() <= 0x1_0000_0000,
    ensures
        distinct(final_sigs(ms)),
        final_sigs(ms).take(8) == base_sigs(),
        ({
            let sig = fn_sig(flat_functions(ms)[k]);
            let t = type_index(final_sigs(ms), sig);
            &&& t < final_sigs(ms).len()
            &&& final_sigs(ms)[t as int] == sig
        }),
{
    let fs = flat_functions(ms);
    let sigs = sigs_of(fs);
    lemma_base_sigs_distinct();
    lemma_intern_all_distinct(base_sigs(), sigs);
    lemma_intern_all_contains(base_sigs(), sigs);
    assert(sigs[k] == fn_sig(fs[k]));
    assert(final_sigs(ms).contains(sigs[k]));
}

/// With distinct function ids, a call to the function at position `k`
/// over all modules goes to index `26 + k`: its code is entry `k + 1` of the
/// code section, after `__init_strings`.
pub proof fn lemma_function_index(fs: Seq<HirFunction>, k: int)
    requires
        0 <= k < fs.len(),
        forall|i: int, j: int| 0 <= i < fs.len() && 0 <= j < fs.len() && i != j ==> fs[i].id != fs[j].id,
    ensures
        func_indices(fs).dom().contains(fs[k].id),
        func_indices(fs)[fs[k].id] == counted(FIRST_USER_FUNC, k as nat),
    decreases fs.len(),
{
    if k < fs.len() - 1 {
        lemma_function_index(fs.drop_last(), k);
        assert(fs.drop_last()[k] == fs[k]);
        assert(fs.last().id != fs[k].id);
    }
}

/// With distinct global ids, the global at position `k` over all modules
/// gets global index `k`.
pub proof fn lemma_global_index(gs: Seq<Global>, k: int)
    requires
        0 <= k < gs.len(),
        forall|i: int, j: int| 0 <= i < gs.len() && 0 <= j < gs.len() && i != j ==> gs[i].id != gs[j].id,
    ensures
        global_indices(gs).dom().contains(gs[k].id),
        global_indices(gs)[gs[k].id] == counted(0, k as nat),
    decreases gs.len(),
{
    if k < gs.len() - 1 {
        lemma_global_index(gs.drop_last(), k);
        assert(gs.drop_last()[k] == gs[k]);
        assert(gs.last().id != gs[k].id);
    }
}

/// Indices counted from a start agree with plain addition while they fit.
pub proof fn lemma_counted(start: u32, k: nat)
    requires
        start + k <= u32::MAX,
    ensures
        counted(start, k) == start + k,
    decreases k,
{
    if k > 0 {
        lemma_counted(start, (k - 1) as nat);
    }
}

/// The runtime imports, in index order, each with the name it is imported
/// under from module `rt` and its signature: `string_new(i32, i32)`, the
/// three console functions of one value, `string_concat` and `js_add` of
/// two values, `string_eq` and `js_strict_eq` giving an `i32`, `is_truthy`
/// of one value giving an `i32`, `math_random` and `date_now` of none, and
/// the rest of one or two values giving one.
pub proof fn lemma_runtime_imports()
    ensures
        import_name(0u32) == "string_new"@,
        base_sigs()[import_type(0u32) as int] == (seq![ValType::I32, ValType::I32], Seq::<ValType>::empty()),
        import_name(1u32) == "console_log"@,
        base_sigs()[import_type(1u32) as int] == (seq![ValType::F64], Seq::<ValType>::empty()),
        import_name(2u32) == "console_warn"@,
        base_sigs()[import_type(2u32) as int] == (seq![ValType::F64], Seq::<ValType>::empty()),
        import_name(3u32) == "console_error"@,
        base_sigs()[import_type(3u32) as int] == (seq![ValType::F64], Seq::<ValType>::empty()),
        import_name(4u32) == "string_concat"@,
        base_sigs()[import_type(4u32) as int] == (seq![ValType::F64, ValType::F64], seq![ValType::F64]),
        import_name(5u32) == "js_add"@,
        base_sigs()[import_type(5u32) as int] == (seq![ValType::F64, ValType::F64], seq![ValType::F64]),
        import_name(6u32) == "string_eq"@,
        base_sigs()[import_type(6u32) as int] == (seq![ValType::F64, ValType::F64], seq![ValType::I32]),
        import_name(7u32) == "string_len"@,
        base_sigs()[import_type(7u32) as int] == (seq![ValType::F64], seq![ValType::F64]),
        import_name(8u32) == "jsvalue_to_string"@,
        base_sigs()[import_type(8u32) as int] == (seq![ValType::F64], seq![ValType::F64]),
        import_name(9u32) == "is_truthy"@,
        base_sigs()[import_type(9u32) as int] == (seq![ValType::F64], seq![ValType::I32]),
        import_name(10u32) == "js_strict_eq"@,
        base_sigs()[import_type(10u32) as int] == (seq![ValType::F64, ValType::F64], seq![ValType::I32]),
        import_name(11u32) == "math_floor"@,
        base_sigs()[import_type(11u32) as int] == (seq![ValType::F64], seq![ValType::F64]),
        import_name(12u32) == "math_ceil"@,
        base_sigs()[import_type(12u32) as int] == (seq![ValType::F64], seq![ValType::F64]),
        import_name(13u32) == "math_round"@,
        base_sigs()[import_type(13u32) as int] == (seq![ValType::F64], seq![ValType::F64]),
        import_name(14u32) == "math_abs"@,
        base_sigs()[import_type(14u32) as int] == (seq![ValType::F64], seq![ValType::F64]),
        import_name(15u32) == "math_sqrt"@,
        base_sigs()[import_type(15u32) as int] == (seq![ValType::F64], seq![ValType::F64]),
        import_name(16u32) == "math_pow"@,
        base_sigs()[import_type(16u32) as int] == (seq![ValType::F64, ValType::F64], seq![ValType::F64]),
        import_name(17u32) == "math_random"@,
        base_sigs()[import_type(17u32) as int] == (Seq::<ValType>::empty(), seq![ValType::F64]),
        import_name(18u32) == "math_log"@,
        base_sigs()[import_type(18u32) as int] == (seq![ValType::F64], seq![ValType::F64]),
        import_name(19u32) == "date_now"@,
        base_sigs()[import_type(19u32) as int] == (Seq::<ValType>::empty(), seq![ValType::F64]),
        import_name(20u32) == "js_typeof"@,
        base_sigs()[import_type(20u32) as int] == (seq![ValType::F64], seq![ValType::F64]),
        import_name(21u32) == "math_min"@,
        base_sigs()[import_type(21u32) as int] == (seq![ValType::F64, ValType::F64], seq![ValType::F64]),
        import_name(22u32) == "math_max"@,
        base_sigs()[import_type(22u32) as int] == (seq![ValType::F64, ValType::F64], seq![ValType::F64]),
        import_name(23u32) == "parse_int"@,
        base_sigs()[import_type(23u32) as int] == (seq![ValType::F64], seq![ValType::F64]),
        import_name(24u32) == "parse_float"@,
        base_sigs()[import_type(24u32) as int] == (seq![ValType::F64], seq![ValType::F64]),
{
    reveal_strlit("string_new");
    reveal_strlit("console_log");
    reveal_strlit("console_warn");
    reveal_strlit("console_error");
    reveal_strlit("string_concat");
    reveal_strlit("js_add");
    reveal_strlit("string_eq");
    reveal_strlit("string_len");
    reveal_strlit("jsvalue_to_string");
    reveal_strlit("is_truthy");
    reveal_strlit("js_strict_eq");
    reveal_strlit("math_floor");
    reveal_strlit("math_ceil");
    reveal_strlit("math_round");
    reveal_strlit("math_abs");
    reveal_strlit("math_sqrt");
    reveal_strlit("math_pow");
    reveal_strlit("math_random");
    reveal_strlit("math_log");
    reveal_strlit("date_now");
    reveal_strlit("js_typeof");
    reveal_strlit("math_min");
    reveal_strlit("math_max");
    reveal_strlit("parse_int");
    reveal_strlit("parse_float");
    assert(import_name(0u32) =~= "string_new"@);
    assert(import_name(1u32) =~= "console_log"@);
    assert(import_name(2u32) =~= "console_warn"@);
    assert(import_name(3u32) =~= "console_error"@);
    assert(import_name(4u32) =~= "string_concat"@);
    assert(import_name(5u32) =~= "js_add"@);
    assert(import_name(6u32) =~= "string_eq"@);
    assert(import_name(7u32) =~= "string_len"@);
    assert(import_name(8u32) =~= "jsvalue_to_string"@);
    assert(import_name(9u32) =~= "is_truthy"@);
    assert(import_name(10u32) =~= "js_strict_eq"@);
    assert(import_name(11u32) =~= "math_floor"@);
    assert(import_name(12u32) =~= "math_ceil"@);
    assert(import_name(13u32) =~= "math_round"@);
    assert(import_name(14u32) =~= "math_abs"@);
    assert(import_name(15u32) =~= "math_sqrt"@);
    assert(import_name(16u32) =~= "math_pow"@);
    assert(import_name(17u32) =~= "math_random"@);
    assert(import_name(18u32) =~= "math_log"@);
    assert(import_name(19u32) =~= "date_now"@);
    assert(import_name(20u32) =~= "js_typeof"@);
    assert(import_name(21u32) =~= "math_min"@);
    assert(import_name(22u32) =~= "math_max"@);
    assert(import_name(23u32) =~= "parse_int"@);
    assert(import_name(24u32) =~= "parse_float"@);
}

/// The names a module uses: imports come from module `rt`, the entry point
/// is exported as `_start` and the memory as `memory`, a function called
/// `main` always returns a value, and the global `__platform__` holds the
/// platform id.
pub proof fn lemma_module_names()
    ensures
        lit_rt() == "rt"@,
        lit_start() == "_start"@,
        lit_memory() == "memory"@,
        lit_main() == "main"@,
        lit_platform() == "__platform__"@,
{
    reveal_strlit("rt");
    reveal_strlit("_start");
    reveal_strlit("memory");
    reveal_strlit("main");
    reveal_strlit("__platform__");
    assert(lit_rt() =~= "rt"@);
    assert(lit_start() =~= "_start"@);
    assert(lit_memory() =~= "memory"@);
    assert(lit_main() =~= "main"@);
    assert(lit_platform() =~= "__platform__"@);
}

} // verus!
