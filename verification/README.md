# perry

The verified core of the Perry TypeScript toolchain, written in Verus.

- `src/` is the library. Every function in it is proved against its
  `requires`/`ensures` contract; the laws of the library are public proof
  functions (`lemma_*`).
  - `hir`: the subset of Perry's HIR that the WebAssembly back end reads.
  - `wasm_code`, `wasm_emit`, `wasm_module`: the WebAssembly emitter — the
    instructions of each expression and statement, string interning,
    the type section, function and global indices, and the plan of every
    section of a module.
  - `wasm_nesting`: every compiled body closes the blocks, loops and ifs
    it opens.
  - `wasm_stack`: the code of an expression whose operands leave values
    pushes one value exactly when the emitter says it does, so an
    expression statement leaves the operand stack as it found it.
  - `wasm_binary`: writes a module plan with `wasm-encoder`, through
    wrappers whose contracts describe what each encoder call adds.
  - `double_bits`: the double nearest to an integer, with integer
    arithmetic only.
  - `llvm_function`, `codegen_llvm`: the LLVM IR function builder, symbol
    names, target triples and the checks of the LLVM back end.
  - `png`: the PNG encoder used for screenshots (stored deflate blocks,
    CRC-32, Adler-32).
  - `symbol`, `closure`: the runtime's symbols (registry, symbol-keyed
    properties) and closures (layout, call dispatch), on NaN-boxed values.
  - `ui`: reactive state cells and their text bindings, system icons, the
    input fuzzer's port.
- `tests/` runs the library on concrete values; the WebAssembly it writes
  is checked with `wasmparser`'s validator.
- `app/` holds what stays outside the proofs: thread-local and process-wide
  state, floating-point formatting, the C allocator, threads.
