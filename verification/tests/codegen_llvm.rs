use perry::codegen_llvm::{
    check_module_supported, default_target_triple, function_params, function_symbol, llvm_fn_name,
    resolve_function_names, resolve_target_triple, CodegenError, CompileOptions,
};
use perry::llvm_function::LlvmType;

#[test]
fn function_names_are_prefixed_and_sanitised() {
    assert_eq!(llvm_fn_name("main"), "perry_fn_main");
    assert_eq!(llvm_fn_name("my-func$2"), "perry_fn_my_func_2");
    assert_eq!(llvm_fn_name("a_b9Z"), "perry_fn_a_b9Z");
    assert_eq!(llvm_fn_name("héllo"), "perry_fn_h_llo");
    assert_eq!(llvm_fn_name(""), "perry_fn_");
}

#[test]
fn host_triples() {
    assert_eq!(default_target_triple("macos", "aarch64"), "arm64-apple-macosx15.0.0");
    assert_eq!(default_target_triple("macos", "x86_64"), "x86_64-apple-macosx15.0.0");
    assert_eq!(default_target_triple("linux", "x86_64"), "x86_64-unknown-linux-gnu");
    assert_eq!(default_target_triple("linux", "aarch64"), "aarch64-unknown-linux-gnu");
    assert_eq!(default_target_triple("windows", "x86_64"), "arm64-apple-macosx15.0.0");
}

#[test]
fn target_override_wins() {
    let opts = CompileOptions { target: Some("wasm32-unknown-unknown".to_string()), is_entry_module: true };
    assert_eq!(resolve_target_triple(&opts, "linux", "x86_64"), "wasm32-unknown-unknown");
    let opts = CompileOptions::default();
    assert!(!opts.is_entry_module);
    assert!(opts.target.is_none());
    assert_eq!(resolve_target_triple(&opts, "linux", "x86_64"), "x86_64-unknown-linux-gnu");
}

#[test]
fn only_entry_modules_without_imports_or_classes() {
    let entry = CompileOptions { target: None, is_entry_module: true };
    let other = CompileOptions { target: None, is_entry_module: false };
    assert!(check_module_supported(&entry, "app", 0, 0).is_ok());
    match check_module_supported(&other, "lib", 3, 2) {
        Err(e @ CodegenError::NotEntryModule { .. }) => assert_eq!(
            e.message(),
            "perry-codegen-llvm Phase 2 only supports the entry module; non-entry module 'lib' is not yet supported"
        ),
        _ => panic!("expected NotEntryModule"),
    }
    match check_module_supported(&entry, "app", 3, 2) {
        Err(e @ CodegenError::Imports { .. }) => assert_eq!(
            e.message(),
            "perry-codegen-llvm Phase 2 does not support imports; module 'app' has 3 imports"
        ),
        _ => panic!("expected Imports"),
    }
    match check_module_supported(&entry, "app", 0, 12) {
        Err(e @ CodegenError::Classes { .. }) => assert_eq!(
            e.message(),
            "perry-codegen-llvm Phase 2 does not support classes; module 'app' has 12 classes"
        ),
        _ => panic!("expected Classes"),
    }
}

#[test]
fn names_resolve_up_front() {
    let names = resolve_function_names(&vec![(1, "fib".to_string()), (2, "do-it".to_string())]);
    assert_eq!(function_symbol(&names, 2, "do-it").ok().unwrap(), "perry_fn_do_it");
    assert_eq!(function_symbol(&names, 1, "fib").ok().unwrap(), "perry_fn_fib");
    match function_symbol(&names, 9, "ghost") {
        Err(e @ CodegenError::NameNotResolved { .. }) => {
            assert_eq!(e.message(), "function name not resolved for ghost")
        }
        _ => panic!("expected NameNotResolved"),
    }
}

#[test]
fn later_function_with_same_id_wins() {
    let names = resolve_function_names(&vec![(4, "a".to_string()), (4, "b".to_string())]);
    assert_eq!(names.len(), 1);
    assert_eq!(function_symbol(&names, 4, "b").ok().unwrap(), "perry_fn_b");
}

#[test]
fn params_are_doubles_named_after_locals() {
    let ps = function_params(&vec![0, 17, 4096]);
    assert_eq!(ps.len(), 3);
    assert!(ps.iter().all(|p| p.0 == LlvmType::Double));
    assert_eq!(ps[0].1, "%arg0");
    assert_eq!(ps[1].1, "%arg17");
    assert_eq!(ps[2].1, "%arg4096");
}
