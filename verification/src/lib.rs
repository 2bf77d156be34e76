//! Verified core of the Perry toolchain: LLVM IR text building, the
//! WebAssembly emitter, the PNG encoder used for screenshots, and the
//! bookkeeping of the runtime (symbols, closures) and of UI state cells.

pub mod text;
pub mod llvm_function;
pub mod id_map;
pub mod hir;
pub mod double_bits;
pub mod wasm_code;
pub mod wasm_emit;
pub mod wasm_module;
pub mod wasm_binary;
pub mod wasm_nesting;
pub mod wasm_stack;
pub mod png;
pub mod codegen_llvm;
pub mod symbol;
pub mod closure;
pub mod ui;
