//! HIR to WebAssembly: the function-body emitter.

use vstd::prelude::*;
use crate::double_bits::int_to_f64_bits;
use vstd::string::*;
use vstd::utf8::encode_utf8;
use crate::hir::{
    Expr, Stmt, BinaryOp, CompareOp, LogicalOp, UnaryOp, UpdateOp, SwitchCase, ObjectField,
};
use crate::id_map::IdMap;
use crate::text::chars_eq;
use crate::wasm_code::{
    WasmInstr, BlockKind, EmitEnv, string_id, undef, bool_of_i32, strip_node, lit_console,
    lit_node_prefix, lit_log, lit_warn, lit_error, console_import, console_callee, has_value, discarded_code,
    drops, binary_op_code, compare_op_code, update_op_code, expr_code, console_args_code,
    args_code, sequence_code, exit_unless_truthy, stmt_code, stmts_code, cases_code, intern1,
    intern_all, expr_lits, exprs_lits, fields_lits, stmt_lits, stmts_lits, cases_lits,
    stmt_returns, stmts_return, cases_return, locals_of_stmts, locals_of_stmt, locals_of_cases, declare_local,
    TAG_UNDEFINED, TAG_NULL, TAG_TRUE, TAG_FALSE, STRING_TAG, F64_ONE, F64_NAN, RT_CONSOLE_LOG,
    RT_CONSOLE_WARN, RT_CONSOLE_ERROR, RT_JS_ADD, RT_IS_TRUTHY, RT_JS_STRICT_EQ, RT_MATH_POW,
    RT_MATH_RANDOM, RT_DATE_NOW, RT_JS_TYPEOF,
};

verus! {

#[derive(Clone, Copy, PartialEq, Eq, Structural)]
pub enum ValType {
    I32,
    F64,
}

/// A function signature.
pub struct FuncType {
    pub params: Vec<ValType>,
    pub results: Vec<ValType>,
}

/// An interned string literal: its content and where its bytes lie in the
/// data segment.
pub struct StringEntry {
    pub content: String,
    pub offset: u32,
    pub len: u32,
}

/// The bytes of the literals, packed in table order.
pub open spec fn packed(tab: Seq<Seq<char>>) -> Seq<u8>
    decreases tab.len(),
{
    if tab.len() == 0 {
        Seq::empty()
    } else {
        packed(tab.drop_last()) + encode_utf8(tab.last())
    }
}

pub open spec fn distinct_strings(s: Seq<Seq<char>>) -> bool {
    forall|i: int, j: int| 0 <= i < s.len() && 0 <= j < s.len() && i != j ==> s[i] != s[j]
}

/// The state of a module compilation.
pub struct WasmModuleEmitter {
    /// Interned string literals; a literal's id is its index.
    pub string_table: Vec<StringEntry>,
    /// The bytes of all interned literals, packed.
    pub string_data: Vec<u8>,
    /// The type section, without duplicates.
    pub types: Vec<FuncType>,
    /// HIR function id to function index.
    pub func_map: IdMap<u32>,
    /// HIR function id to whether the function leaves a result.
    pub func_results: IdMap<bool>,
    /// The number of imported functions (they come first in the index space).
    pub num_imports: u32,
    /// HIR global id to global index.
    pub global_map: IdMap<u32>,
    pub num_globals: u32,
}

impl WasmModuleEmitter {
    pub open spec fn strings(&self) -> Seq<Seq<char>> {
        self.string_table@.map_values(|e: StringEntry| e.content@)
    }

    pub open spec fn wf(&self) -> bool {
        &&& distinct_strings(self.strings())
    }

    /// The data segment is the packed bytes of the literals, and each entry
    /// records where its bytes start and how many there are.
    pub open spec fn layout_wf(&self) -> bool {
        &&& self.string_data@ == packed(self.strings())
        &&& forall|i: int|
            0 <= i < self.string_table@.len() ==> {
                &&& (#[trigger] self.string_table@[i]).offset == packed(
                    self.strings().take(i),
                ).len() as u32
                &&& self.string_table@[i].len == encode_utf8(self.strings()[i]).len() as u32
            }
    }

    fn find_string(&self, s: &String) -> (r: Option<usize>)
        ensures
            r matches Some(i) ==> i < self.strings().len() && self.strings()[i as int] == s@,
            r is None ==> !self.strings().contains(s@),
    {
        let ghost tab = self.strings();
        let n = self.string_table.len();
        let mut i: usize = 0;
        while i < n
            invariant
                n == self.string_table@.len(),
                tab == self.strings(),
                i <= n,
                forall|j: int| 0 <= j < i ==> tab[j] != s@,
            decreases n - i,
        {
            if self.string_table[i].content == *s {
                return Some(i);
            }
            i = i + 1;
        }
        None
    }

    /// Interns a string literal and returns its id. A literal seen before
    /// keeps its id; a new one gets the next id and its bytes are appended
    /// to the data segment.
    pub fn intern_string(&mut self, s: &String) -> (id: u32)
        requires
            old(self).wf(),
            old(self).layout_wf(),
        ensures
            final(self).wf(),
            final(self).layout_wf(),
            final(self).strings() == intern1(old(self).strings(), s@),
            exists|i: int|
                0 <= i < final(self).strings().len() && final(self).strings()[i] == s@ && id == i as u32,
            final(self).types == old(self).types,
            final(self).func_map == old(self).func_map,
            final(self).func_results == old(self).func_results,
            final(self).global_map == old(self).global_map,
            final(self).num_imports == old(self).num_imports,
            final(self).num_globals == old(self).num_globals,
    {
        match self.find_string(s) {
            Some(i) => {
                proof {
                    let tab = self.strings();
                    assert(tab.contains(s@));
                    assert(tab[i as int] == s@);
                }
                i as u32
            },
            None => {
                let ghost tab = self.strings();
                let id = self.string_table.len() as u32;
                let offset = self.string_data.len() as u32;
                let bytes = s.as_str().as_bytes();
                let n = bytes.len();
                let ghost d0 = self.string_data@;
                let mut k: usize = 0;
                while k < n
                    invariant
                        n == bytes@.len(),
                        k <= n,
                        self.string_data@ == d0 + bytes@.take(k as int),
                        self.string_table == old(self).string_table,
                        self.types == old(self).types,
                        self.func_map == old(self).func_map,
                        self.func_results == old(self).func_results,
                        self.global_map == old(self).global_map,
                        self.num_imports == old(self).num_imports,
                        self.num_globals == old(self).num_globals,
                    decreases n - k,
                {
                    self.string_data.push(bytes[k]);
                    assert(bytes@.take(k + 1) =~= bytes@.take(k as int).push(bytes@[k as int]));
                    k = k + 1;
                }
                assert(bytes@.take(n as int) =~= bytes@);
                self.string_table.push(StringEntry { content: s.clone(), offset, len: n as u32 });
                proof {
                    let t2 = self.strings();
                    assert(t2 =~= tab.push(s@));
                    assert(t2.drop_last() =~= tab);
                    assert forall|i: int| 0 <= i < t2.len() implies t2.take(i) =~= tab.take(i) || i
                        == tab.len() by {}
                    assert(t2.take(tab.len() as int) =~= tab);
                    assert(t2[tab.len() as int] == s@);
                    assert forall|i: int, j: int|
                        0 <= i < t2.len() && 0 <= j < t2.len() && i != j implies t2[i] != t2[j] by {
                        if i == tab.len() {
                            assert(tab[j] != s@);
                        } else if j == tab.len() {
                            assert(tab[i] != s@);
                        }
                    }
                    assert forall|i: int| 0 <= i < self.string_table@.len() implies {
                        &&& (#[trigger] self.string_table@[i]).offset == packed(t2.take(i)).len() as u32
                        &&& self.string_table@[i].len == encode_utf8(t2[i]).len() as u32
                    } by {
                        if i < tab.len() {
                            assert(t2.take(i) =~= tab.take(i));
                            assert(self.string_table@[i] == old(self).string_table@[i]);
                        }
                    }
                }
                id
            },
        }
    }

    /// Everything but the string table and data is as in `other`.
    pub open spec fn same_but_strings(&self, other: &Self) -> bool {
        &&& self.types == other.types
        &&& self.func_map == other.func_map
        &&& self.func_results == other.func_results
        &&& self.global_map == other.global_map
        &&& self.num_imports == other.num_imports
        &&& self.num_globals == other.num_globals
    }

    fn collect_strings_in_exprs(&mut self, es: &Vec<Expr>)
        requires
            old(self).wf(),
            old(self).layout_wf(),
        ensures
            final(self).wf(),
            final(self).layout_wf(),
            final(self).same_but_strings(&*old(self)),
            final(self).strings() == intern_all(old(self).strings(), exprs_lits(es@)),
        decreases es,
    {
        let ghost t0 = self.strings();
        let n = es.len();
        let mut i: usize = 0;
        while i < n
            invariant
                self.wf(),
                self.layout_wf(),
                self.same_but_strings(&*old(self)),
                n == es@.len(),
                i <= n,
                self.strings() == intern_all(t0, exprs_lits(es@.take(i as int))),
            decreases n - i,
        {
            let ghost before = self.strings();
            self.collect_strings_in_expr(&es[i]);
            proof {
                assert(es@.take(i + 1).drop_last() =~= es@.take(i as int));
                lemma_intern_all_append(t0, exprs_lits(es@.take(i as int)), expr_lits(es@[i as int]));
            }
            i = i + 1;
        }
        assert(es@.take(n as int) =~= es@);
    }

    fn collect_strings_in_fields(&mut self, fs: &Vec<ObjectField>)
        requires
            old(self).wf(),
            old(self).layout_wf(),
        ensures
            final(self).wf(),
            final(self).layout_wf(),
            final(self).same_but_strings(&*old(self)),
            final(self).strings() == intern_all(old(self).strings(), fields_lits(fs@)),
        decreases fs,
    {
        let ghost t0 = self.strings();
        let n = fs.len();
        let mut i: usize = 0;
        while i < n
            invariant
                self.wf(),
                self.layout_wf(),
                self.same_but_strings(&*old(self)),
                n == fs@.len(),
                i <= n,
                self.strings() == intern_all(t0, fields_lits(fs@.take(i as int))),
            decreases n - i,
        {
            self.intern_string(&fs[i].key);
            self.collect_strings_in_expr(&fs[i].value);
            proof {
                assert(fs@.take(i + 1).drop_last() =~= fs@.take(i as int));
                let pre = fields_lits(fs@.take(i as int));
                lemma_intern_all_append(t0, pre, seq![fs@[i as int].key@]);
                lemma_intern_all_append(t0, pre + seq![fs@[i as int].key@], expr_lits(fs@[i as int].value));
                lemma_intern_all_single(intern_all(t0, pre), fs@[i as int].key@);
            }
            i = i + 1;
        }
        assert(fs@.take(n as int) =~= fs@);
    }

    /// Interns every literal of an expression, in traversal order.
    #[verifier::rlimit(40)]
    pub fn collect_strings_in_expr(&mut self, e: &Expr)
        requires
            old(self).wf(),
            old(self).layout_wf(),
        ensures
            final(self).wf(),
            final(self).layout_wf(),
            final(self).same_but_strings(&*old(self)),
            final(self).strings() == intern_all(old(self).strings(), expr_lits(*e)),
        decreases e,
    {
        let ghost t0 = self.strings();
        match e {
            Expr::String(s) => {
                self.intern_string(s);
                proof {
                    lemma_intern_all_single(t0, s@);
                }
            },
            Expr::Binary { left, right, .. } | Expr::Compare { left, right, .. }
            | Expr::Logical { left, right, .. } | Expr::IndexGet { object: left, index: right }
            | Expr::MathPow(left, right) | Expr::In { property: left, object: right } => {
                self.collect_strings_in_expr(left);
                self.collect_strings_in_expr(right);
                proof {
                    lemma_intern_all_append(t0, expr_lits(**left), expr_lits(**right));
                }
            },
            Expr::Unary { operand: x, .. } | Expr::LocalSet(_, x) | Expr::GlobalSet(_, x)
            | Expr::Await(x) | Expr::TypeOf(x) | Expr::Void(x) | Expr::MathFloor(x)
            | Expr::MathCeil(x) | Expr::MathAbs(x) | Expr::MathSqrt(x) | Expr::MathRound(x)
            | Expr::Delete(x) | Expr::InstanceOf { expr: x, .. } => {
                self.collect_strings_in_expr(x);
            },
            Expr::Call { callee, args } => {
                self.collect_strings_in_expr(callee);
                self.collect_strings_in_exprs(args);
                proof {
                    lemma_intern_all_append(t0, expr_lits(**callee), exprs_lits(args@));
                }
            },
            Expr::Conditional { condition, then_expr, else_expr } => {
                self.collect_strings_in_expr(condition);
                self.collect_strings_in_expr(then_expr);
                self.collect_strings_in_expr(else_expr);
                proof {
                    lemma_intern_all_append(t0, expr_lits(**condition), expr_lits(**then_expr));
                    lemma_intern_all_append(
                        t0,
                        expr_lits(**condition) + expr_lits(**then_expr),
                        expr_lits(**else_expr),
                    );
                }
            },
            Expr::Closure { body, .. } => {
                self.collect_strings_in_stmts(body);
            },
            Expr::NativeMethodCall { args, .. } | Expr::Array(args) | Expr::New { args, .. }
            | Expr::MathMin(args) | Expr::MathMax(args) | Expr::SuperCall(args)
            | Expr::Sequence(args) => {
                self.collect_strings_in_exprs(args);
            },
            Expr::Object(fields) => {
                self.collect_strings_in_fields(fields);
            },
            Expr::PropertyGet { object, property } => {
                self.collect_strings_in_expr(object);
                self.intern_string(property);
                proof {
                    lemma_intern_all_append(t0, expr_lits(**object), seq![property@]);
                    lemma_intern_all_single(intern_all(t0, expr_lits(**object)), property@);
                }
            },
            Expr::PropertySet { object, value, property } => {
                self.collect_strings_in_expr(object);
                self.collect_strings_in_expr(value);
                self.intern_string(property);
                proof {
                    lemma_intern_all_append(t0, expr_lits(**object), expr_lits(**value));
                    lemma_intern_all_append(
                        t0,
                        expr_lits(**object) + expr_lits(**value),
                        seq![property@],
                    );
                    lemma_intern_all_single(
                        intern_all(t0, expr_lits(**object) + expr_lits(**value)),
                        property@,
                    );
                }
            },
            Expr::IndexSet { object, index, value } => {
                self.collect_strings_in_expr(object);
                self.collect_strings_in_expr(index);
                self.collect_strings_in_expr(value);
                proof {
                    lemma_intern_all_append(t0, expr_lits(**object), expr_lits(**index));
                    lemma_intern_all_append(
                        t0,
                        expr_lits(**object) + expr_lits(**index),
                        expr_lits(**value),
                    );
                }
            },
            _ => {},
        }
    }

    fn collect_strings_in_opt_expr(&mut self, oe: &Option<Expr>)
        requires
            old(self).wf(),
            old(self).layout_wf(),
        ensures
            final(self).wf(),
            final(self).layout_wf(),
            final(self).same_but_strings(&*old(self)),
            final(self).strings() == intern_all(old(self).strings(), match *oe {
                Some(e) => expr_lits(e),
                None => Seq::empty(),
            }),
        decreases oe,
    {
        match oe {
            Some(e) => self.collect_strings_in_expr(e),
            None => {},
        }
    }

    /// Interns every literal of the statements, in order.
    pub fn collect_strings_in_stmts(&mut self, ss: &Vec<Stmt>)
        requires
            old(self).wf(),
            old(self).layout_wf(),
        ensures
            final(self).wf(),
            final(self).layout_wf(),
            final(self).same_but_strings(&*old(self)),
            final(self).strings() == intern_all(old(self).strings(), stmts_lits(ss@)),
        decreases ss,
    {
        let ghost t0 = self.strings();
        let n = ss.len();
        let mut i: usize = 0;
        while i < n
            invariant
                self.wf(),
                self.layout_wf(),
                self.same_but_strings(&*old(self)),
                n == ss@.len(),
                i <= n,
                self.strings() == intern_all(t0, stmts_lits(ss@.take(i as int))),
            decreases n - i,
        {
            self.collect_strings_in_stmt(&ss[i]);
            proof {
                assert(ss@.take(i + 1).drop_last() =~= ss@.take(i as int));
                lemma_intern_all_append(t0, stmts_lits(ss@.take(i as int)), stmt_lits(ss@[i as int]));
            }
            i = i + 1;
        }
        assert(ss@.take(n as int) =~= ss@);
    }

    fn collect_strings_in_cases(&mut self, cs: &Vec<SwitchCase>)
        requires
            old(self).wf(),
            old(self).layout_wf(),
        ensures
            final(self).wf(),
            final(self).layout_wf(),
            final(self).same_but_strings(&*old(self)),
            final(self).strings() == intern_all(old(self).strings(), cases_lits(cs@)),
        decreases cs,
    {
        let ghost t0 = self.strings();
        let n = cs.len();
        let mut i: usize = 0;
        while i < n
            invariant
                self.wf(),
                self.layout_wf(),
                self.same_but_strings(&*old(self)),
                n == cs@.len(),
                i <= n,
                self.strings() == intern_all(t0, cases_lits(cs@.take(i as int))),
            decreases n - i,
        {
            let ghost pre = cases_lits(cs@.take(i as int));
            let ghost tl: Seq<Seq<char>> = match cs@[i as int].test {
                Some(t) => expr_lits(t),
                None => Seq::empty(),
            };
            match &cs[i].test {
                Some(t) => self.collect_strings_in_expr(t),
                None => {},
            }
            self.collect_strings_in_stmts(&cs[i].body);
            proof {
                assert(cs@.take(i + 1).drop_last() =~= cs@.take(i as int));
                lemma_intern_all_append(t0, pre, tl);
                lemma_intern_all_append(t0, pre + tl, stmts_lits(cs@[i as int].body@));
            }
            i = i + 1;
        }
        assert(cs@.take(n as int) =~= cs@);
    }

    /// Interns every literal of a statement, in traversal order.
    #[verifier::rlimit(40)]
    pub fn collect_strings_in_stmt(&mut self, stmt: &Stmt)
        requires
            old(self).wf(),
            old(self).layout_wf(),
        ensures
            final(self).wf(),
            final(self).layout_wf(),
            final(self).same_but_strings(&*old(self)),
            final(self).strings() == intern_all(old(self).strings(), stmt_lits(*stmt)),
        decreases stmt,
    {
        let ghost t0 = self.strings();
        match stmt {
            Stmt::Let { init, .. } => {
                self.collect_strings_in_opt_expr(init);
            },
            Stmt::Expr(e) | Stmt::Throw(e) => {
                self.collect_strings_in_expr(e);
            },
            Stmt::Return(e) => {
                self.collect_strings_in_opt_expr(e);
            },
            Stmt::If { condition, then_branch, else_branch } => {
                self.collect_strings_in_expr(condition);
                self.collect_strings_in_stmts(then_branch);
                let ghost t1 = self.strings();
                match else_branch {
                    Some(eb) => self.collect_strings_in_stmts(eb),
                    None => {},
                }
                proof {
                    let a = expr_lits(*condition);
                    let b = stmts_lits(then_branch@);
                    let c: Seq<Seq<char>> = match else_branch {
                        Some(eb) => stmts_lits(eb@),
                        None => Seq::empty(),
                    };
                    lemma_intern_all_append(t0, a, b);
                    lemma_intern_all_append(t0, a + b, c);
                }
            },
            Stmt::While { condition, body } => {
                self.collect_strings_in_expr(condition);
                self.collect_strings_in_stmts(body);
                proof {
                    lemma_intern_all_append(t0, expr_lits(*condition), stmts_lits(body@));
                }
            },
            Stmt::For { init, condition, update, body } => {
                match init {
                    Some(i) => self.collect_strings_in_stmt(i),
                    None => {},
                }
                self.collect_strings_in_opt_expr(condition);
                self.collect_strings_in_opt_expr(update);
                self.collect_strings_in_stmts(body);
                proof {
                    let a: Seq<Seq<char>> = match init {
                        Some(i) => stmt_lits(**i),
                        None => Seq::empty(),
                    };
                    let b: Seq<Seq<char>> = match condition {
                        Some(c) => expr_lits(*c),
                        None => Seq::empty(),
                    };
                    let c: Seq<Seq<char>> = match update {
                        Some(u) => expr_lits(*u),
                        None => Seq::empty(),
                    };
                    lemma_intern_all_append(t0, a, b);
                    lemma_intern_all_append(t0, a + b, c);
                    lemma_intern_all_append(t0, a + b + c, stmts_lits(body@));
                }
            },
            Stmt::Try { body, catch, finally } => {
                self.collect_strings_in_stmts(body);
                match catch {
                    Some(c) => self.collect_strings_in_stmts(&c.body),
                    None => {},
                }
                match finally {
                    Some(f) => self.collect_strings_in_stmts(f),
                    None => {},
                }
                proof {
                    let a = stmts_lits(body@);
                    let b: Seq<Seq<char>> = match catch {
                        Some(c) => stmts_lits(c.body@),
                        None => Seq::empty(),
                    };
                    let c: Seq<Seq<char>> = match finally {
                        Some(f) => stmts_lits(f@),
                        None => Seq::empty(),
                    };
                    lemma_intern_all_append(t0, a, b);
                    lemma_intern_all_append(t0, a + b, c);
                }
            },
            Stmt::Switch { discriminant, cases } => {
                self.collect_strings_in_expr(discriminant);
                self.collect_strings_in_cases(cases);
                proof {
                    lemma_intern_all_append(t0, expr_lits(*discriminant), cases_lits(cases@));
                }
            },
            Stmt::Break | Stmt::Continue => {},
        }
    }

    /// The id of an interned literal, or 0.
    pub fn string_id_of(&self, s: &String) -> (id: u32)
        requires
            self.wf(),
        ensures
            id == string_id(self.strings(), s@) as u32,
    {
        let ghost tab = self.strings();
        let n = self.string_table.len();
        let mut i: usize = 0;
        while i < n
            invariant
                n == self.string_table@.len(),
                tab == self.strings(),
                distinct_strings(tab),
                i <= n,
                forall|j: int| 0 <= j < i ==> tab[j] != s@,
            decreases n - i,
        {
            if self.string_table[i].content == *s {
                proof {
                    assert(tab[i as int] == s@);
                    let k = choose|k: int| 0 <= k < tab.len() && tab[k] == s@;
                    assert(k == i);
                }
                return i as u32;
            }
            i = i + 1;
        }
        assert(!exists|k: int| 0 <= k < tab.len() && tab[k] == s@);
        0
    }
}

/// Whether `m`, without a `node:` prefix, is `console`.
pub fn is_console_module(m: &String) -> (b: bool)
    ensures
        b == (strip_node(m@) == lit_console()),
{
    proof {
        reveal_strlit("node:");
        reveal_strlit("console");
        assert("node:"@ =~= lit_node_prefix());
        assert("console"@ =~= lit_console());
    }
    let s = m.as_str();
    let n = s.unicode_len();
    if n >= 5 && chars_eq(s.substring_char(0, 5), "node:") {
        chars_eq(s.substring_char(5, n), "console")
    } else {
        chars_eq(s, "console")
    }
}

/// The console import that `method` selects, if any.
pub fn console_import_of(method: &String) -> (r: Option<u32>)
    ensures
        r == console_import(method@),
{
    proof {
        reveal_strlit("log");
        reveal_strlit("warn");
        reveal_strlit("error");
        assert("log"@ =~= lit_log());
        assert("warn"@ =~= lit_warn());
        assert("error"@ =~= lit_error());
    }
    let s = method.as_str();
    if chars_eq(s, "log") {
        Some(RT_CONSOLE_LOG)
    } else if chars_eq(s, "warn") {
        Some(RT_CONSOLE_WARN)
    } else if chars_eq(s, "error") {
        Some(RT_CONSOLE_ERROR)
    } else {
        None
    }
}

/// The console import called by `callee`, when it reads `log`, `warn` or
/// `error` of a global.
pub fn console_callee_of(callee: &Expr) -> (r: Option<u32>)
    ensures
        r == console_callee(*callee),
{
    match callee {
        Expr::PropertyGet { object, property } => match &**object {
            Expr::GlobalGet(_) => console_import_of(property),
            _ => None,
        },
        _ => None,
    }
}


proof fn lemma_wrapping_round_trip(d: u32)
    ensures
        d.wrapping_add(1).wrapping_add(1).wrapping_sub(1).wrapping_sub(1) == d,
        d.wrapping_add(1).wrapping_sub(1) == d,
{
}

/// Interning `a + b` is interning `a`, then `b`.
pub proof fn lemma_intern_all_append<T>(t: Seq<T>, a: Seq<T>, b: Seq<T>)
    ensures
        intern_all(t, a + b) == intern_all(intern_all(t, a), b),
    decreases b.len(),
{
    if b.len() == 0 {
        assert(a + b =~= a);
    } else {
        lemma_intern_all_append(t, a, b.drop_last());
        assert((a + b).drop_last() =~= a + b.drop_last());
    }
}

pub proof fn lemma_intern_all_single<T>(t: Seq<T>, x: T)
    ensures
        intern_all(t, seq![x]) == intern1(t, x),
{
    assert(seq![x].drop_last() =~= Seq::<T>::empty());
    assert(intern_all(t, Seq::<T>::empty()) == t);
}

fn push_drops(out: &mut Vec<WasmInstr>, n: usize)
    ensures
        final(out)@ == old(out)@ + drops(n as nat),
{
    let ghost o = out@;
    let mut i: usize = 0;
    while i < n
        invariant
            i <= n,
            out@ == o + drops(i as nat),
        decreases n - i,
    {
        out.push(WasmInstr::Drop);
        i = i + 1;
    }
}

fn push_undef(out: &mut Vec<WasmInstr>)
    ensures
        final(out)@ == old(out)@ + undef(),
{
    out.push(WasmInstr::F64Const(TAG_UNDEFINED));
}

fn push_bool_of_i32(out: &mut Vec<WasmInstr>)
    ensures
        final(out)@ == old(out)@ + bool_of_i32(),
{
    out.push(WasmInstr::If(BlockKind::F64));
    out.push(WasmInstr::F64Const(TAG_TRUE));
    out.push(WasmInstr::Else);
    out.push(WasmInstr::F64Const(TAG_FALSE));
    out.push(WasmInstr::End);
}


/// What the code of a function body depends on: the module's literals,
/// functions and globals, and the body's locals.
pub open spec fn env_of(em: &WasmModuleEmitter, locals: &IdMap<u32>) -> EmitEnv {
    EmitEnv {
        strings: em.strings(),
        funcs: em.func_map@,
        results: em.func_results@,
        globals: em.global_map@,
        locals: locals@,
    }
}

/// The state of emitting one function body.
pub struct FuncEmitCtx<'a> {
    pub emitter: &'a WasmModuleEmitter,
    pub local_map: &'a IdMap<u32>,
    /// Depths of the enclosing `break` targets.
    pub break_depth: Vec<u32>,
    /// Depths of the enclosing `continue` targets.
    pub loop_depth: Vec<u32>,
    /// Current nesting of structured control instructions.
    pub block_depth: u32,
}

impl<'a> FuncEmitCtx<'a> {
    pub open spec fn env(&self) -> EmitEnv {
        env_of(self.emitter, self.local_map)
    }

    pub open spec fn wf(&self) -> bool {
        self.emitter.wf()
    }

    pub fn new(emitter: &'a WasmModuleEmitter, local_map: &'a IdMap<u32>) -> (c: FuncEmitCtx<'a>)
        ensures
            c.emitter == emitter,
            c.local_map == local_map,
            c.break_depth@.len() == 0,
            c.loop_depth@.len() == 0,
            c.block_depth == 0,
    {
        FuncEmitCtx {
            emitter,
            local_map,
            break_depth: Vec::new(),
            loop_depth: Vec::new(),
            block_depth: 0,
        }
    }

    /// Whether the code of `e` leaves a value on the stack.
    pub fn expr_has_value(&self, e: &Expr) -> (b: bool)
        requires
            self.wf(),
        ensures
            b == has_value(self.env(), *e),
    {
        match e {
            Expr::NativeMethodCall { .. } => false,
            Expr::Call { callee, .. } => {
                if console_callee_of(callee).is_some() {
                    return false;
                }
                match &**callee {
                    Expr::FuncRef(id) => {
                        if !self.emitter.func_map.contains_key(*id) {
                            return true;
                        }
                        match self.emitter.func_results.get_ref(*id) {
                            Some(r) => *r,
                            None => true,
                        }
                    },
                    _ => true,
                }
            },
            _ => true,
        }
    }

    /// Emits each argument followed by a call of the console import `f`.
    fn emit_console_args(&self, out: &mut Vec<WasmInstr>, args: &Vec<Expr>, f: u32)
        requires
            self.wf(),
        ensures
            final(out)@ == old(out)@ + console_args_code(self.env(), args@, f),
        decreases args,
    {
        let ghost o = out@;
        let n = args.len();
        let mut i: usize = 0;
        while i < n
            invariant
                self.wf(),
                n == args@.len(),
                i <= n,
                out@ == o + console_args_code(self.env(), args@.take(i as int), f),
            decreases n - i,
        {
            self.emit_expr(out, &args[i]);
            out.push(WasmInstr::Call(f));
            assert(args@.take(i + 1).drop_last() =~= args@.take(i as int));
            i = i + 1;
        }
        assert(args@.take(n as int) =~= args@);
    }

    /// Emits the arguments, left to right.
    fn emit_args(&self, out: &mut Vec<WasmInstr>, args: &Vec<Expr>)
        requires
            self.wf(),
        ensures
            final(out)@ == old(out)@ + args_code(self.env(), args@),
        decreases args,
    {
        let ghost o = out@;
        let n = args.len();
        let mut i: usize = 0;
        while i < n
            invariant
                self.wf(),
                n == args@.len(),
                i <= n,
                out@ == o + args_code(self.env(), args@.take(i as int)),
            decreases n - i,
        {
            self.emit_expr(out, &args[i]);
            assert(args@.take(i + 1).drop_last() =~= args@.take(i as int));
            i = i + 1;
        }
        assert(args@.take(n as int) =~= args@);
    }

    /// Emits a non-empty sequence expression; every value but the last is
    /// dropped.
    fn emit_sequence(&self, out: &mut Vec<WasmInstr>, es: &Vec<Expr>)
        requires
            self.wf(),
            es@.len() > 0,
        ensures
            final(out)@ == old(out)@ + sequence_code(self.env(), es@),
        decreases es,
    {
        let ghost o = out@;
        let n = es.len();
        self.emit_expr(out, &es[0]);
        assert(es@.take(1).len() == 1 && es@.take(1)[0] == es@[0]);
        let mut i: usize = 1;
        while i < n
            invariant
                self.wf(),
                n == es@.len(),
                1 <= i <= n,
                out@ == o + sequence_code(self.env(), es@.take(i as int)),
            decreases n - i,
        {
            out.push(WasmInstr::Drop);
            self.emit_expr(out, &es[i]);
            assert(es@.take(i + 1).drop_last() =~= es@.take(i as int));
            i = i + 1;
        }
        assert(es@.take(n as int) =~= es@);
    }

    /// Emits the code of an expression.
    #[verifier::rlimit(40)]
    pub fn emit_expr(&self, out: &mut Vec<WasmInstr>, e: &Expr)
        requires
            self.wf(),
        ensures
            final(out)@ == old(out)@ + expr_code(self.env(), *e),
        decreases e,
    {
        let ghost o = out@;
        let ghost env = self.env();
        match e {
            Expr::Number(bits) => {
                out.push(WasmInstr::F64Const(*bits));
            },
            Expr::Integer(i) => {
                out.push(WasmInstr::F64Const(int_to_f64_bits(*i)));
            },
            Expr::Bool(b) => {
                out.push(WasmInstr::F64Const(if *b { TAG_TRUE } else { TAG_FALSE }));
            },
            Expr::Undefined => {
                push_undef(out);
            },
            Expr::Null => {
                out.push(WasmInstr::F64Const(TAG_NULL));
            },
            Expr::String(s) => {
                let id = self.emitter.string_id_of(s);
                out.push(WasmInstr::F64Const((STRING_TAG << 48u64) | (id as u64)));
            },
            Expr::LocalGet(id) => {
                match self.local_map.get(*id) {
                    Some(idx) => out.push(WasmInstr::LocalGet(idx)),
                    None => push_undef(out),
                }
            },
            Expr::LocalSet(id, v) => {
                self.emit_expr(out, v);
                match self.local_map.get(*id) {
                    Some(idx) => out.push(WasmInstr::LocalTee(idx)),
                    None => {},
                }
            },
            Expr::GlobalGet(id) => {
                match self.emitter.global_map.get(*id) {
                    Some(idx) => out.push(WasmInstr::GlobalGet(idx)),
                    None => push_undef(out),
                }
            },
            Expr::GlobalSet(id, v) => {
                self.emit_expr(out, v);
                match self.emitter.global_map.get(*id) {
                    Some(idx) => {
                        out.push(WasmInstr::GlobalSet(idx));
                        out.push(WasmInstr::GlobalGet(idx));
                    },
                    None => {},
                }
            },
            Expr::Update { id, op, prefix } => {
                match self.local_map.get(*id) {
                    Some(idx) => {
                        let arith = match op {
                            UpdateOp::Increment => WasmInstr::F64Add,
                            UpdateOp::Decrement => WasmInstr::F64Sub,
                        };
                        if *prefix {
                            out.push(WasmInstr::LocalGet(idx));
                            out.push(WasmInstr::F64Const(F64_ONE));
                            out.push(arith);
                            out.push(WasmInstr::LocalTee(idx));
                        } else {
                            out.push(WasmInstr::LocalGet(idx));
                            out.push(WasmInstr::LocalGet(idx));
                            out.push(WasmInstr::F64Const(F64_ONE));
                            out.push(arith);
                            out.push(WasmInstr::LocalSet(idx));
                        }
                    },
                    None => out.push(WasmInstr::F64Const(F64_NAN)),
                }
            },
            Expr::Binary { op, left, right } => {
                self.emit_expr(out, left);
                self.emit_expr(out, right);
                match op {
                    BinaryOp::Add => out.push(WasmInstr::Call(RT_JS_ADD)),
                    BinaryOp::Sub => out.push(WasmInstr::F64Sub),
                    BinaryOp::Mul => out.push(WasmInstr::F64Mul),
                    BinaryOp::Div => out.push(WasmInstr::F64Div),
                    // f64 has no remainder instruction; division stands in
                    BinaryOp::Mod => out.push(WasmInstr::F64Div),
                    BinaryOp::Pow => out.push(WasmInstr::Call(RT_MATH_POW)),
                    _ => out.push(WasmInstr::F64Add),
                }
            },
            Expr::Compare { op, left, right } => {
                self.emit_expr(out, left);
                self.emit_expr(out, right);
                match op {
                    CompareOp::Eq => out.push(WasmInstr::Call(RT_JS_STRICT_EQ)),
                    CompareOp::Ne => {
                        out.push(WasmInstr::Call(RT_JS_STRICT_EQ));
                        out.push(WasmInstr::I32Eqz);
                    },
                    CompareOp::Lt => out.push(WasmInstr::F64Lt),
                    CompareOp::Le => out.push(WasmInstr::F64Le),
                    CompareOp::Gt => out.push(WasmInstr::F64Gt),
                    CompareOp::Ge => out.push(WasmInstr::F64Ge),
                }
                push_bool_of_i32(out);
            },
            Expr::Logical { op, left, right } => {
                self.emit_expr(out, left);
                out.push(WasmInstr::Call(RT_IS_TRUTHY));
                out.push(WasmInstr::If(BlockKind::F64));
                match op {
                    LogicalOp::And => {
                        self.emit_expr(out, right);
                        out.push(WasmInstr::Else);
                        self.emit_expr(out, left);
                    },
                    _ => {
                        self.emit_expr(out, left);
                        out.push(WasmInstr::Else);
                        self.emit_expr(out, right);
                    },
                }
                out.push(WasmInstr::End);
            },
            Expr::Unary { op, operand } => {
                self.emit_expr(out, operand);
                match op {
                    UnaryOp::Neg => out.push(WasmInstr::F64Neg),
                    UnaryOp::Pos => {},
                    UnaryOp::Not => {
                        out.push(WasmInstr::Call(RT_IS_TRUTHY));
                        out.push(WasmInstr::I32Eqz);
                        push_bool_of_i32(out);
                    },
                    UnaryOp::BitNot => {
                        out.push(WasmInstr::I32TruncF64S);
                        out.push(WasmInstr::I32Const(-1i32));
                        out.push(WasmInstr::I32Xor);
                        out.push(WasmInstr::F64ConvertI32S);
                    },
                }
            },
            Expr::Call { callee, args } => {
                match console_callee_of(callee) {
                    Some(f) => self.emit_console_args(out, args, f),
                    None => {
                        self.emit_args(out, args);
                        match &**callee {
                            Expr::FuncRef(id) => {
                                match self.emitter.func_map.get(*id) {
                                    Some(idx) => out.push(WasmInstr::Call(idx)),
                                    None => {
                                        push_drops(out, args.len());
                                        push_undef(out);
                                    },
                                }
                            },
                            _ => {
                                push_drops(out, args.len());
                                push_undef(out);
                            },
                        }
                    },
                }
            },
            Expr::NativeMethodCall { module, method, args } => {
                if is_console_module(module) {
                    match console_import_of(method) {
                        Some(f) => self.emit_console_args(out, args, f),
                        None => {},
                    }
                }
            },
            Expr::Conditional { condition, then_expr, else_expr } => {
                self.emit_expr(out, condition);
                out.push(WasmInstr::Call(RT_IS_TRUTHY));
                out.push(WasmInstr::If(BlockKind::F64));
                self.emit_expr(out, then_expr);
                out.push(WasmInstr::Else);
                self.emit_expr(out, else_expr);
                out.push(WasmInstr::End);
            },
            Expr::MathFloor(x) => {
                self.emit_expr(out, x);
                out.push(WasmInstr::F64Floor);
            },
            Expr::MathCeil(x) => {
                self.emit_expr(out, x);
                out.push(WasmInstr::F64Ceil);
            },
            Expr::MathAbs(x) => {
                self.emit_expr(out, x);
                out.push(WasmInstr::F64Abs);
            },
            Expr::MathSqrt(x) => {
                self.emit_expr(out, x);
                out.push(WasmInstr::F64Sqrt);
            },
            Expr::MathRound(x) => {
                self.emit_expr(out, x);
                out.push(WasmInstr::F64Nearest);
            },
            Expr::MathPow(b, x) => {
                self.emit_expr(out, b);
                self.emit_expr(out, x);
                out.push(WasmInstr::Call(RT_MATH_POW));
            },
            Expr::MathMin(args) => {
                if args.len() == 2 {
                    self.emit_expr(out, &args[0]);
                    self.emit_expr(out, &args[1]);
                    out.push(WasmInstr::F64Min);
                } else {
                    push_undef(out);
                }
            },
            Expr::MathMax(args) => {
                if args.len() == 2 {
                    self.emit_expr(out, &args[0]);
                    self.emit_expr(out, &args[1]);
                    out.push(WasmInstr::F64Max);
                } else {
                    push_undef(out);
                }
            },
            Expr::MathRandom => {
                out.push(WasmInstr::Call(RT_MATH_RANDOM));
            },
            Expr::TypeOf(x) => {
                self.emit_expr(out, x);
                out.push(WasmInstr::Call(RT_JS_TYPEOF));
            },
            Expr::Await(x) => {
                // WebAssembly is synchronous: just evaluate the operand
                self.emit_expr(out, x);
            },
            Expr::DateNow => {
                out.push(WasmInstr::Call(RT_DATE_NOW));
            },
            Expr::Sequence(es) => {
                if es.len() == 0 {
                    push_undef(out);
                } else {
                    self.emit_sequence(out, es);
                }
            },
            _ => {
                // function references as values, classes, objects, arrays,
                // properties and closures are not supported yet: undefined
                push_undef(out);
            },
        }
        assert(out@ =~= o + expr_code(env, *e));
    }

    /// The nesting bookkeeping is the same as at entry.
    pub open spec fn same_depths(&self, other: &Self) -> bool {
        &&& self.emitter == other.emitter
        &&& self.local_map == other.local_map
        &&& self.break_depth@ == other.break_depth@
        &&& self.loop_depth@ == other.loop_depth@
        &&& self.block_depth == other.block_depth
    }

    /// Opens a `block`/`loop` pair: the break target and the continue target.
    fn enter_loop(&mut self, out: &mut Vec<WasmInstr>)
        ensures
            final(out)@ == old(out)@ + seq![
                WasmInstr::Block(BlockKind::Empty),
                WasmInstr::Loop(BlockKind::Empty),
            ],
            final(self).emitter == old(self).emitter,
            final(self).local_map == old(self).local_map,
            final(self).break_depth@ == old(self).break_depth@.push(
                old(self).block_depth.wrapping_add(1),
            ),
            final(self).loop_depth@ == old(self).loop_depth@.push(
                old(self).block_depth.wrapping_add(1).wrapping_add(1),
            ),
            final(self).block_depth == old(self).block_depth.wrapping_add(1).wrapping_add(1),
    {
        out.push(WasmInstr::Block(BlockKind::Empty));
        self.block_depth = self.block_depth.wrapping_add(1);
        self.break_depth.push(self.block_depth);
        out.push(WasmInstr::Loop(BlockKind::Empty));
        self.block_depth = self.block_depth.wrapping_add(1);
        self.loop_depth.push(self.block_depth);
    }

    /// Closes the pair opened by `enter_loop`: branch back to the loop head,
    /// then end the loop and the block.
    fn exit_loop(&mut self, out: &mut Vec<WasmInstr>, Ghost(entry): Ghost<Self>)
        requires
            old(self).emitter == entry.emitter,
            old(self).local_map == entry.local_map,
            old(self).break_depth@ == entry.break_depth@.push(entry.block_depth.wrapping_add(1)),
            old(self).loop_depth@ == entry.loop_depth@.push(
                entry.block_depth.wrapping_add(1).wrapping_add(1),
            ),
            old(self).block_depth == entry.block_depth.wrapping_add(1).wrapping_add(1),
        ensures
            final(out)@ == old(out)@ + seq![WasmInstr::Br(0), WasmInstr::End, WasmInstr::End],
            final(self).same_depths(&entry),
    {
        out.push(WasmInstr::Br(0));
        self.block_depth = self.block_depth.wrapping_sub(1);
        out.push(WasmInstr::End);
        let _ = self.loop_depth.pop();
        let _ = self.break_depth.pop();
        self.block_depth = self.block_depth.wrapping_sub(1);
        out.push(WasmInstr::End);
        assert(self.loop_depth@ =~= entry.loop_depth@);
        assert(self.break_depth@ =~= entry.break_depth@);
        proof {
            lemma_wrapping_round_trip(entry.block_depth);
        }
    }

    /// The optional condition of a `for`, leaving the loop when it is falsy.
    fn emit_loop_condition(&self, out: &mut Vec<WasmInstr>, condition: &Option<Expr>)
        requires
            self.wf(),
        ensures
            final(out)@ == old(out)@ + match *condition {
                Some(c) => expr_code(self.env(), c) + exit_unless_truthy(),
                None => Seq::empty(),
            },
    {
        let ghost o = out@;
        match condition {
            Some(cond) => {
                self.emit_expr(out, cond);
                out.push(WasmInstr::Call(RT_IS_TRUTHY));
                out.push(WasmInstr::I32Eqz);
                out.push(WasmInstr::BrIf(1));
                assert(out@ =~= o + expr_code(self.env(), *cond) + exit_unless_truthy());
            },
            None => {
                assert(out@ =~= o + Seq::<WasmInstr>::empty());
            },
        }
    }

    /// The optional update of a `for`, its value dropped.
    fn emit_update(&self, out: &mut Vec<WasmInstr>, update: &Option<Expr>)
        requires
            self.wf(),
        ensures
            final(out)@ == old(out)@ + match *update {
                Some(u) => discarded_code(self.env(), u),
                None => Seq::empty(),
            },
    {
        let ghost o = out@;
        match update {
            Some(upd) => {
                self.emit_expr(out, upd);
                if self.expr_has_value(upd) {
                    out.push(WasmInstr::Drop);
                }
                assert(out@ =~= o + discarded_code(self.env(), *upd));
            },
            None => {
                assert(out@ =~= o + Seq::<WasmInstr>::empty());
            },
        }
    }

    /// Emits statements in order.
    pub fn emit_stmts(&mut self, out: &mut Vec<WasmInstr>, ss: &Vec<Stmt>, in_returning_func: bool)
        requires
            old(self).wf(),
        ensures
            final(out)@ == old(out)@ + stmts_code(old(self).env(), ss@, in_returning_func),
            final(self).same_depths(&*old(self)),
        decreases ss, 0nat,
    {
        let ghost o = out@;
        let ghost entry = *self;
        let n = ss.len();
        let mut i: usize = 0;
        while i < n
            invariant
                self.same_depths(&entry),
                entry.wf(),
                n == ss@.len(),
                i <= n,
                out@ == o + stmts_code(entry.env(), ss@.take(i as int), in_returning_func),
            decreases n - i,
        {
            self.emit_stmt(out, &ss[i], in_returning_func);
            assert(ss@.take(i + 1).drop_last() =~= ss@.take(i as int));
            i = i + 1;
        }
        assert(ss@.take(n as int) =~= ss@);
    }

    /// Emits the bodies of the cases of a switch, in order.
    fn emit_cases(&mut self, out: &mut Vec<WasmInstr>, cs: &Vec<SwitchCase>, in_returning_func: bool)
        requires
            old(self).wf(),
        ensures
            final(out)@ == old(out)@ + cases_code(old(self).env(), cs@, in_returning_func),
            final(self).same_depths(&*old(self)),
        decreases cs, 0nat,
    {
        let ghost o = out@;
        let ghost entry = *self;
        let n = cs.len();
        let mut i: usize = 0;
        while i < n
            invariant
                self.same_depths(&entry),
                entry.wf(),
                n == cs@.len(),
                i <= n,
                out@ == o + cases_code(entry.env(), cs@.take(i as int), in_returning_func),
            decreases n - i,
        {
            self.emit_stmts(out, &cs[i].body, in_returning_func);
            assert(cs@.take(i + 1).drop_last() =~= cs@.take(i as int));
            i = i + 1;
        }
        assert(cs@.take(n as int) =~= cs@);
    }

    /// `if`: the condition through `is_truthy`, then the branches.
    fn emit_if(&mut self, out: &mut Vec<WasmInstr>, stmt: &Stmt, in_returning_func: bool)
        requires
            old(self).wf(),
            stmt is If,
        ensures
            final(out)@ == old(out)@ + stmt_code(old(self).env(), *stmt, in_returning_func),
            final(self).same_depths(&*old(self)),
        decreases stmt, 0nat,
    {
        let ghost o = out@;
        let ghost entry = *self;
        match stmt {
            Stmt::If { condition, then_branch, else_branch } => {
                self.emit_expr(out, condition);
                out.push(WasmInstr::Call(RT_IS_TRUTHY));
                out.push(WasmInstr::If(BlockKind::Empty));
                self.block_depth = self.block_depth.wrapping_add(1);
                self.emit_stmts(out, then_branch, in_returning_func);
                match else_branch {
                    Some(else_stmts) => {
                        out.push(WasmInstr::Else);
                        self.emit_stmts(out, else_stmts, in_returning_func);
                    },
                    None => {},
                }
                self.block_depth = self.block_depth.wrapping_sub(1);
                proof {
                    lemma_wrapping_round_trip(entry.block_depth);
                }
                out.push(WasmInstr::End);
                assert(out@ =~= o + stmt_code(entry.env(), *stmt, in_returning_func));
            },
            _ => {},
        }
    }

    /// `while`:
    /// `block { loop { <cond> is_truthy i32.eqz br_if 1 <body> br 0 } }`.
    fn emit_while(&mut self, out: &mut Vec<WasmInstr>, stmt: &Stmt, in_returning_func: bool)
        requires
            old(self).wf(),
            stmt is While,
        ensures
            final(out)@ == old(out)@ + stmt_code(old(self).env(), *stmt, in_returning_func),
            final(self).same_depths(&*old(self)),
        decreases stmt, 0nat,
    {
        let ghost o = out@;
        let ghost entry = *self;
        match stmt {
            Stmt::While { condition, body } => {
                self.enter_loop(out);
                self.emit_expr(out, condition);
                out.push(WasmInstr::Call(RT_IS_TRUTHY));
                out.push(WasmInstr::I32Eqz);
                out.push(WasmInstr::BrIf(1));
                self.emit_stmts(out, body, in_returning_func);
                self.exit_loop(out, Ghost(entry));
                assert(out@ =~= o + stmt_code(entry.env(), *stmt, in_returning_func));
            },
            _ => {},
        }
    }

    /// `for`: the init statement, then a `while` whose body ends with the
    /// update.
    #[verifier::rlimit(100)]
    fn emit_for(&mut self, out: &mut Vec<WasmInstr>, stmt: &Stmt, in_returning_func: bool)
        requires
            old(self).wf(),
            stmt is For,
        ensures
            final(out)@ == old(out)@ + stmt_code(old(self).env(), *stmt, in_returning_func),
            final(self).same_depths(&*old(self)),
        decreases stmt, 0nat,
    {
        let ghost o = out@;
        let ghost entry = *self;
        match stmt {
            Stmt::For { init, condition, update, body } => {
                let ghost env = entry.env();
                let ghost p_init: Seq<WasmInstr> = match init {
                    Some(i) => stmt_code(env, **i, in_returning_func),
                    None => Seq::empty(),
                };
                let ghost p_cond: Seq<WasmInstr> = match condition {
                    Some(c) => expr_code(env, *c) + exit_unless_truthy(),
                    None => Seq::empty(),
                };
                let ghost p_upd: Seq<WasmInstr> = match update {
                    Some(u) => discarded_code(env, *u),
                    None => Seq::empty(),
                };
                match init {
                    Some(init_stmt) => self.emit_stmt(out, init_stmt, in_returning_func),
                    None => {},
                }
                assert(out@ =~= o + p_init);
                let ghost mid = *self;
                let ghost o1 = out@;
                self.enter_loop(out);
                self.emit_loop_condition(out, condition);
                assert(out@ =~= o1 + seq![
                    WasmInstr::Block(BlockKind::Empty),
                    WasmInstr::Loop(BlockKind::Empty),
                ] + p_cond);
                let ghost o2 = out@;
                self.emit_stmts(out, body, in_returning_func);
                let ghost o3 = out@;
                self.emit_update(out, update);
                assert(out@ =~= o3 + p_upd);
                self.exit_loop(out, Ghost(mid));
                assert(out@ =~= o + stmt_code(entry.env(), *stmt, in_returning_func));
            },
            _ => {},
        }
    }

    /// Emits the code of a statement. `in_returning_func` tells whether the
    /// enclosing function returns a value.
    pub fn emit_stmt(&mut self, out: &mut Vec<WasmInstr>, stmt: &Stmt, in_returning_func: bool)
        requires
            old(self).wf(),
        ensures
            final(out)@ == old(out)@ + stmt_code(old(self).env(), *stmt, in_returning_func),
            final(self).same_depths(&*old(self)),
        decreases stmt, 1nat,
    {
        let ghost o = out@;
        let ghost env = self.env();
        match stmt {
            Stmt::Let { id, init, .. } => {
                match init {
                    Some(init_expr) => self.emit_expr(out, init_expr),
                    None => push_undef(out),
                }
                match self.local_map.get(*id) {
                    Some(idx) => out.push(WasmInstr::LocalSet(idx)),
                    None => out.push(WasmInstr::Drop),
                }
                assert(out@ =~= o + stmt_code(env, *stmt, in_returning_func));
            },
            Stmt::Expr(expr) => {
                self.emit_expr(out, expr);
                if self.expr_has_value(expr) {
                    out.push(WasmInstr::Drop);
                }
                assert(out@ =~= o + stmt_code(env, *stmt, in_returning_func));
            },
            Stmt::Return(expr) => {
                match expr {
                    Some(e) => self.emit_expr(out, e),
                    None => {
                        if in_returning_func {
                            push_undef(out);
                        }
                    },
                }
                out.push(WasmInstr::Return);
                assert(out@ =~= o + stmt_code(env, *stmt, in_returning_func));
            },
            Stmt::If { .. } => self.emit_if(out, stmt, in_returning_func),
            Stmt::While { .. } => self.emit_while(out, stmt, in_returning_func),
            Stmt::For { .. } => self.emit_for(out, stmt, in_returning_func),
            Stmt::Break => {
                // the break target is the block around the innermost loop
                out.push(WasmInstr::Br(1));
                assert(out@ =~= o + stmt_code(env, *stmt, in_returning_func));
            },
            Stmt::Continue => {
                out.push(WasmInstr::Br(0));
                assert(out@ =~= o + stmt_code(env, *stmt, in_returning_func));
            },
            Stmt::Throw(expr) => {
                // no exceptions: report the value and trap
                self.emit_expr(out, expr);
                out.push(WasmInstr::Call(RT_CONSOLE_ERROR));
                out.push(WasmInstr::Unreachable);
                assert(out@ =~= o + stmt_code(env, *stmt, in_returning_func));
            },
            Stmt::Try { body, .. } => {
                // no exception handling: only the try body runs
                self.emit_stmts(out, body, in_returning_func);
            },
            Stmt::Switch { discriminant, cases } => {
                // the discriminant is evaluated and dropped; every case body
                // follows in order
                self.emit_expr(out, discriminant);
                out.push(WasmInstr::Drop);
                self.emit_cases(out, cases, in_returning_func);
                assert(out@ =~= o + stmt_code(env, *stmt, in_returning_func));
            },
        }
    }
}

/// Whether any of the statements contains a `return`.
pub fn any_return(ss: &Vec<Stmt>) -> (b: bool)
    ensures
        b == stmts_return(ss@),
    decreases ss,
{
    let n = ss.len();
    let mut i: usize = 0;
    while i < n
        invariant
            n == ss@.len(),
            i <= n,
            !stmts_return(ss@.take(i as int)),
        decreases n - i,
    {
        assert(ss@.take(i + 1).drop_last() =~= ss@.take(i as int));
        if has_return(&ss[i]) {
            proof {
                lemma_stmts_return_prefix(ss@, i as int + 1);
            }
            return true;
        }
        i = i + 1;
    }
    assert(ss@.take(n as int) =~= ss@);
    false
}

proof fn lemma_stmts_return_prefix(ss: Seq<Stmt>, k: int)
    requires
        0 <= k <= ss.len(),
        stmts_return(ss.take(k)),
    ensures
        stmts_return(ss),
    decreases ss.len() - k,
{
    if k < ss.len() {
        assert(ss.take(k + 1).drop_last() =~= ss.take(k));
        lemma_stmts_return_prefix(ss, k + 1);
    } else {
        assert(ss.take(k) =~= ss);
    }
}

/// Whether any case body contains a `return`.
fn any_case_returns(cs: &Vec<SwitchCase>) -> (b: bool)
    ensures
        b == cases_return(cs@),
    decreases cs,
{
    let n = cs.len();
    let mut i: usize = 0;
    while i < n
        invariant
            n == cs@.len(),
            i <= n,
            !cases_return(cs@.take(i as int)),
        decreases n - i,
    {
        assert(cs@.take(i + 1).drop_last() =~= cs@.take(i as int));
        if any_return(&cs[i].body) {
            proof {
                lemma_cases_return_prefix(cs@, i as int + 1);
            }
            return true;
        }
        i = i + 1;
    }
    assert(cs@.take(n as int) =~= cs@);
    false
}

proof fn lemma_cases_return_prefix(cs: Seq<SwitchCase>, k: int)
    requires
        0 <= k <= cs.len(),
        cases_return(cs.take(k)),
    ensures
        cases_return(cs),
    decreases cs.len() - k,
{
    if k < cs.len() {
        assert(cs.take(k + 1).drop_last() =~= cs.take(k));
        lemma_cases_return_prefix(cs, k + 1);
    } else {
        assert(cs.take(k) =~= cs);
    }
}

/// Whether a statement contains a `return` (not looking into expressions).
pub fn has_return(stmt: &Stmt) -> (b: bool)
    ensures
        b == stmt_returns(*stmt),
    decreases stmt,
{
    match stmt {
        Stmt::Return(_) => true,
        Stmt::If { then_branch, else_branch, .. } => {
            any_return(then_branch) || match else_branch {
                Some(eb) => any_return(eb),
                None => false,
            }
        },
        Stmt::While { body, .. } | Stmt::For { body, .. } => any_return(body),
        Stmt::Try { body, catch, finally } => {
            any_return(body) || (match catch {
                Some(c) => any_return(&c.body),
                None => false,
            }) || match finally {
                Some(f) => any_return(f),
                None => false,
            }
        },
        Stmt::Switch { cases, .. } => any_case_returns(cases),
        _ => false,
    }
}

fn declare(id: u32, map: &mut IdMap<u32>, count: &mut u32, offset: u32)
    requires
    ensures
        (final(map)@, *final(count)) == declare_local(id, old(map)@, *old(count), offset),
{
    if !map.contains_key(id) {
        map.insert(id, offset.wrapping_add(*count));
        *count = count.wrapping_add(1);
    }
}

fn collect_locals_in_cases(cs: &Vec<SwitchCase>, map: &mut IdMap<u32>, count: &mut u32, offset: u32)
    requires
    ensures
        (final(map)@, *final(count)) == locals_of_cases(cs@, old(map)@, *old(count), offset),
    decreases cs,
{
    let ghost m0 = map@;
    let ghost c0 = *count;
    let n = cs.len();
    let mut i: usize = 0;
    while i < n
        invariant
            n == cs@.len(),
            i <= n,
            (map@, *count) == locals_of_cases(cs@.take(i as int), m0, c0, offset),
        decreases n - i,
    {
        collect_locals(&cs[i].body, map, count, offset);
        assert(cs@.take(i + 1).drop_last() =~= cs@.take(i as int));
        i = i + 1;
    }
    assert(cs@.take(n as int) =~= cs@);
}

fn collect_locals_in_stmt(stmt: &Stmt, map: &mut IdMap<u32>, count: &mut u32, offset: u32)
    requires
    ensures
        (final(map)@, *final(count)) == locals_of_stmt(*stmt, old(map)@, *old(count), offset),
    decreases stmt,
{
    match stmt {
        Stmt::Let { id, .. } => {
            declare(*id, map, count, offset);
        },
        Stmt::If { then_branch, else_branch, .. } => {
            collect_locals(then_branch, map, count, offset);
            match else_branch {
                Some(eb) => collect_locals(eb, map, count, offset),
                None => {},
            }
        },
        Stmt::While { body, .. } => {
            collect_locals(body, map, count, offset);
        },
        Stmt::For { init, body, .. } => {
            match init {
                Some(i) => collect_locals_in_stmt(i, map, count, offset),
                None => {},
            }
            collect_locals(body, map, count, offset);
        },
        Stmt::Try { body, catch, finally } => {
            collect_locals(body, map, count, offset);
            match catch {
                Some(c) => {
                    match c.param {
                        Some(id) => declare(id, map, count, offset),
                        None => {},
                    }
                    collect_locals(&c.body, map, count, offset);
                },
                None => {},
            }
            match finally {
                Some(f) => collect_locals(f, map, count, offset),
                None => {},
            }
        },
        Stmt::Switch { cases, .. } => {
            collect_locals_in_cases(cases, map, count, offset);
        },
        _ => {},
    }
}

/// Gives a local slot to each `let` (and `catch` parameter) of a body not
/// declared yet, numbered from `offset + count`; `count` ends as the number
/// of slots declared so far.
pub fn collect_locals(stmts: &Vec<Stmt>, map: &mut IdMap<u32>, count: &mut u32, offset: u32)
    requires
    ensures
        (final(map)@, *final(count)) == locals_of_stmts(stmts@, old(map)@, *old(count), offset),
    decreases stmts,
{
    let ghost m0 = map@;
    let ghost c0 = *count;
    let n = stmts.len();
    let mut i: usize = 0;
    while i < n
        invariant
            n == stmts@.len(),
            i <= n,
            (map@, *count) == locals_of_stmts(stmts@.take(i as int), m0, c0, offset),
        decreases n - i,
    {
        collect_locals_in_stmt(&stmts[i], map, count, offset);
        assert(stmts@.take(i + 1).drop_last() =~= stmts@.take(i as int));
        i = i + 1;
    }
    assert(stmts@.take(n as int) =~= stmts@);
}

} // verus!
