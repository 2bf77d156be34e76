//! The parts of HIR to LLVM lowering that decide names, targets and what is
//! supported.

use vstd::prelude::*;
use vstd::string::*;
use crate::llvm_function::{LlvmType, push_str};
use crate::text::{push_char, push_decimal, decimal, chars_eq};
use crate::id_map::IdMap;

verus! {

/// Options of a compilation.
pub struct CompileOptions {
    /// Target triple override. `None` uses the host default.
    pub target: Option<String>,
    /// Whether this module is the program entry point; when it is, a `main`
    /// that initialises the GC and runs the top-level statements is emitted.
    pub is_entry_module: bool,
}

impl Default for CompileOptions {
    fn default() -> (o: CompileOptions)
        ensures
            o.target is None,
            !o.is_entry_module,
    {
        CompileOptions { target: None, is_entry_module: false }
    }
}

pub open spec fn is_ascii_alphanumeric(c: char) -> bool {
    ('0' <= c && c <= '9') || ('a' <= c && c <= 'z') || ('A' <= c && c <= 'Z')
}

/// A character allowed in a symbol name, else `_`.
pub open spec fn symbol_char(c: char) -> char {
    if is_ascii_alphanumeric(c) || c == '_' {
        c
    } else {
        '_'
    }
}

/// `perry_fn_` followed by the name with every character that is not an
/// ASCII letter, digit or `_` replaced by `_`.
pub open spec fn llvm_symbol(hir_name: Seq<char>) -> Seq<char> {
    seq!['p', 'e', 'r', 'r', 'y', '_', 'f', 'n', '_'] + hir_name.map_values(|c: char| symbol_char(c))
}

/// The LLVM symbol of a HIR function. The prefix keeps user functions clear
/// of runtime symbols (`main`, `js_*`, the C library).
pub fn llvm_fn_name(hir_name: &str) -> (name: String)
    ensures
        name@ == llvm_symbol(hir_name@),
{
    let mut name = String::new();
    push_str(&mut name, "perry_fn_");
    proof {
        reveal_strlit("perry_fn_");
    }
    let ghost prefix = name@;
    let n = hir_name.unicode_len();
    let mut i: usize = 0;
    while i < n
        invariant
            n == hir_name@.len(),
            i <= n,
            prefix == seq!['p', 'e', 'r', 'r', 'y', '_', 'f', 'n', '_'],
            name@ == prefix + hir_name@.take(i as int).map_values(|c: char| symbol_char(c)),
        decreases n - i,
    {
        let c = hir_name.get_char(i);
        let keep = ('0' <= c && c <= '9') || ('a' <= c && c <= 'z') || ('A' <= c && c <= 'Z') || c == '_';
        push_char(&mut name, if keep { c } else { '_' });
        assert(hir_name@.take(i + 1).map_values(|c: char| symbol_char(c)) =~= hir_name@.take(
            i as int,
        ).map_values(|c: char| symbol_char(c)).push(symbol_char(c)));
        i = i + 1;
    }
    assert(hir_name@.take(n as int) =~= hir_name@);
    name
}

/// The default target triple of a host, by its operating system and
/// architecture (as Rust names them): Apple Silicon macOS when nothing
/// more specific is known.
pub open spec fn host_triple(os: Seq<char>, arch: Seq<char>) -> Seq<char> {
    if os == "macos"@ && arch == "aarch64"@ {
        "arm64-apple-macosx15.0.0"@
    } else if os == "macos"@ && arch == "x86_64"@ {
        "x86_64-apple-macosx15.0.0"@
    } else if os == "linux"@ && arch == "x86_64"@ {
        "x86_64-unknown-linux-gnu"@
    } else if os == "linux"@ && arch == "aarch64"@ {
        "aarch64-unknown-linux-gnu"@
    } else {
        "arm64-apple-macosx15.0.0"@
    }
}

/// The default target triple of the host with operating system `os` and
/// architecture `arch`.
pub fn default_target_triple(os: &str, arch: &str) -> (triple: String)
    ensures
        triple@ == host_triple(os@, arch@),
{
    if chars_eq(os, "macos") && chars_eq(arch, "aarch64") {
        String::from_str("arm64-apple-macosx15.0.0")
    } else if chars_eq(os, "macos") && chars_eq(arch, "x86_64") {
        String::from_str("x86_64-apple-macosx15.0.0")
    } else if chars_eq(os, "linux") && chars_eq(arch, "x86_64") {
        String::from_str("x86_64-unknown-linux-gnu")
    } else if chars_eq(os, "linux") && chars_eq(arch, "aarch64") {
        String::from_str("aarch64-unknown-linux-gnu")
    } else {
        String::from_str("arm64-apple-macosx15.0.0")
    }
}

/// The target of a compilation: the override, else the host default.
pub fn resolve_target_triple(opts: &CompileOptions, os: &str, arch: &str) -> (triple: String)
    ensures
        triple@ == match opts.target {
            Some(t) => t@,
            None => host_triple(os@, arch@),
        },
{
    match &opts.target {
        Some(t) => t.clone(),
        None => default_target_triple(os, arch),
    }
}


/// Why a module cannot be compiled by this back end.
pub enum CodegenError {
    /// Only the program's entry module is supported.
    NotEntryModule { module: String },
    /// Imports are not supported.
    Imports { module: String, count: usize },
    /// Classes are not supported.
    Classes { module: String, count: usize },
    /// A function whose symbol was not resolved.
    NameNotResolved { function: String },
}

/// The message of an error.
pub open spec fn error_message(e: CodegenError) -> Seq<char> {
    match e {
        CodegenError::NotEntryModule { module } =>
            "perry-codegen-llvm Phase 2 only supports the entry module; non-entry module '"@ + module@
                + "' is not yet supported"@,
        CodegenError::Imports { module, count } =>
            "perry-codegen-llvm Phase 2 does not support imports; module '"@ + module@ + "' has "@
                + decimal(count as nat) + " imports"@,
        CodegenError::Classes { module, count } =>
            "perry-codegen-llvm Phase 2 does not support classes; module '"@ + module@ + "' has "@
                + decimal(count as nat) + " classes"@,
        CodegenError::NameNotResolved { function } => "function name not resolved for "@ + function@,
    }
}

impl CodegenError {
    /// The error's message.
    pub fn message(&self) -> (m: String)
        ensures
            m@ == error_message(*self),
    {
        let mut m = String::new();
        match self {
            CodegenError::NotEntryModule { module } => {
                push_str(&mut m, "perry-codegen-llvm Phase 2 only supports the entry module; non-entry module '");
                push_str(&mut m, module.as_str());
                push_str(&mut m, "' is not yet supported");
            },
            CodegenError::Imports { module, count } => {
                push_str(&mut m, "perry-codegen-llvm Phase 2 does not support imports; module '");
                push_str(&mut m, module.as_str());
                push_str(&mut m, "' has ");
                push_decimal(&mut m, *count as u64);
                push_str(&mut m, " imports");
            },
            CodegenError::Classes { module, count } => {
                push_str(&mut m, "perry-codegen-llvm Phase 2 does not support classes; module '");
                push_str(&mut m, module.as_str());
                push_str(&mut m, "' has ");
                push_decimal(&mut m, *count as u64);
                push_str(&mut m, " classes");
            },
            CodegenError::NameNotResolved { function } => {
                push_str(&mut m, "function name not resolved for ");
                push_str(&mut m, function.as_str());
            },
        }
        assert(m@ =~= error_message(*self));
        m
    }
}

/// Checks that a module is one this back end supports: the entry module,
/// without imports or classes (checked in that order).
pub fn check_module_supported(
    opts: &CompileOptions,
    module_name: &str,
    num_imports: usize,
    num_classes: usize,
) -> (r: Result<(), CodegenError>)
    ensures
        !opts.is_entry_module ==> (r matches Err(CodegenError::NotEntryModule { module })
            && module@ == module_name@),
        opts.is_entry_module && num_imports > 0 ==> (r matches Err(
            CodegenError::Imports { module, count },
        ) && module@ == module_name@ && count == num_imports),
        opts.is_entry_module && num_imports == 0 && num_classes > 0 ==> (r matches Err(
            CodegenError::Classes { module, count },
        ) && module@ == module_name@ && count == num_classes),
        opts.is_entry_module && num_imports == 0 && num_classes == 0 <==> r is Ok,
{
    if !opts.is_entry_module {
        return Err(CodegenError::NotEntryModule { module: String::from_str(module_name) });
    }
    if num_imports > 0 {
        return Err(CodegenError::Imports { module: String::from_str(module_name), count: num_imports });
    }
    if num_classes > 0 {
        return Err(CodegenError::Classes { module: String::from_str(module_name), count: num_classes });
    }
    Ok(())
}

/// The LLVM symbol of each HIR function id (a later function with the same
/// id replaces an earlier one).
pub open spec fn symbol_table(fs: Seq<(u32, String)>) -> Map<u32, Seq<char>>
    decreases fs.len(),
{
    if fs.len() == 0 {
        Map::empty()
    } else {
        symbol_table(fs.drop_last()).insert(fs.last().0, llvm_symbol(fs.last().1@))
    }
}

/// Resolves the symbols of all user functions, given as `(id, name)`, up
/// front, so that bodies can call functions defined later.
pub fn resolve_function_names(functions: &Vec<(u32, String)>) -> (names: IdMap<String>)
    ensures
        names@.map_values(|s: String| s@) == symbol_table(functions@),
{
    let mut names: IdMap<String> = IdMap::new();
    let n = functions.len();
    let mut i: usize = 0;
    while i < n
        invariant
            n == functions@.len(),
            i <= n,
            names@.map_values(|s: String| s@) == symbol_table(functions@.take(i as int)),
        decreases n - i,
    {
        let sym = llvm_fn_name(functions[i].1.as_str());
        let ghost before = names@;
        names.insert(functions[i].0, sym);
        assert(functions@.take(i + 1).drop_last() =~= functions@.take(i as int));
        assert(names@.map_values(|s: String| s@) =~= before.map_values(|s: String| s@).insert(
            functions@[i as int].0,
            llvm_symbol(functions@[i as int].1@),
        ));
        i = i + 1;
    }
    assert(functions@.take(n as int) =~= functions@);
    names
}

/// The symbol of function `id`, or the error that names the function.
pub fn function_symbol(names: &IdMap<String>, id: u32, hir_name: &str) -> (r: Result<String, CodegenError>)
    requires
    ensures
        names@.contains_key(id) ==> (r matches Ok(s) && s@ == names@[id]@),
        !names@.contains_key(id) ==> (r matches Err(CodegenError::NameNotResolved { function })
            && function@ == hir_name@),
{
    match names.get_ref(id) {
        Some(s) => Ok(s.clone()),
        None => Err(CodegenError::NameNotResolved { function: String::from_str(hir_name) }),
    }
}

/// The register that carries parameter `id`: `%arg<id>`.
pub open spec fn arg_register(id: u32) -> Seq<char> {
    seq!['%', 'a', 'r', 'g'] + decimal(id as nat)
}

/// The parameters of a user function: every one a `double`, in a register
/// named after its HIR local id.
pub fn function_params(param_ids: &Vec<u32>) -> (ps: Vec<(LlvmType, String)>)
    ensures
        ps@.len() == param_ids@.len(),
        forall|i: int|
            0 <= i < ps@.len() ==> (#[trigger] ps@[i]).0 == LlvmType::Double && ps@[i].1@
                == arg_register(param_ids@[i]),
{
    let mut ps: Vec<(LlvmType, String)> = Vec::new();
    let n = param_ids.len();
    let mut i: usize = 0;
    while i < n
        invariant
            n == param_ids@.len(),
            i <= n,
            ps@.len() == i,
            forall|k: int|
                0 <= k < i ==> (#[trigger] ps@[k]).0 == LlvmType::Double && ps@[k].1@ == arg_register(
                    param_ids@[k],
                ),
        decreases n - i,
    {
        let mut r = String::new();
        push_char(&mut r, '%');
        push_char(&mut r, 'a');
        push_char(&mut r, 'r');
        push_char(&mut r, 'g');
        push_decimal(&mut r, param_ids[i] as u64);
        assert(r@ =~= arg_register(param_ids@[i as int]));
        ps.push((LlvmType::Double, r));
        i = i + 1;
    }
    ps
}

/// A symbol keeps every ASCII letter, digit and `_` of the name and turns
/// every other character into `_`, after the `perry_fn_` prefix; a name made
/// only of letters, digits and `_` is kept whole.
pub proof fn lemma_symbol_keeps_identifiers(n: Seq<char>)
    ensures
        llvm_symbol(n).len() == 9 + n.len(),
        llvm_symbol(n).take(9) == "perry_fn_"@,
        forall|i: int|
            0 <= i < n.len() ==> #[trigger] llvm_symbol(n)[9 + i] == if ('0' <= n[i] && n[i] <= '9') || (
            'a' <= n[i] && n[i] <= 'z') || ('A' <= n[i] && n[i] <= 'Z') || n[i] == '_' {
                n[i]
            } else {
                '_'
            },
        (forall|i: int|
            0 <= i < n.len() ==> ('0' <= #[trigger] n[i] && n[i] <= '9') || ('a' <= n[i] && n[i] <= 'z')
                || ('A' <= n[i] && n[i] <= 'Z') || n[i] == '_') ==> llvm_symbol(n) == "perry_fn_"@ + n,
{
    reveal_strlit("perry_fn_");
    let s = llvm_symbol(n);
    assert(s.take(9) =~= "perry_fn_"@);
    if forall|i: int|
        0 <= i < n.len() ==> ('0' <= #[trigger] n[i] && n[i] <= '9') || ('a' <= n[i] && n[i] <= 'z')
            || ('A' <= n[i] && n[i] <= 'Z') || n[i] == '_' {
        assert(s =~= "perry_fn_"@ + n);
    }
}

/// The default targets: Apple Silicon and Intel macOS, x86-64 and AArch64
/// Linux with the GNU environment, and Apple Silicon macOS for any other
/// host.
pub proof fn lemma_host_triples(os: Seq<char>, arch: Seq<char>)
    ensures
        host_triple("macos"@, "aarch64"@) == "arm64-apple-macosx15.0.0"@,
        host_triple("macos"@, "x86_64"@) == "x86_64-apple-macosx15.0.0"@,
        host_triple("linux"@, "x86_64"@) == "x86_64-unknown-linux-gnu"@,
        host_triple("linux"@, "aarch64"@) == "aarch64-unknown-linux-gnu"@,
        os != "macos"@ && os != "linux"@ ==> host_triple(os, arch) == "arm64-apple-macosx15.0.0"@,
{
    reveal_strlit("macos");
    reveal_strlit("linux");
    reveal_strlit("aarch64");
    reveal_strlit("x86_64");
    assert("macos"@[0] != "linux"@[0]);
    assert("aarch64"@[0] != "x86_64"@[0]);
}

/// Parameter `id` is passed in register `%arg<id>`.
pub proof fn lemma_arg_register(id: u32)
    ensures
        arg_register(id) == "%arg"@ + decimal(id as nat),
{
    reveal_strlit("%arg");
    assert(arg_register(id) =~= "%arg"@ + decimal(id as nat));
}

} // verus!
