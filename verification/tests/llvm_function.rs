use perry::llvm_function::{LlFunction, LlvmType};

#[test]
fn empty_function_is_a_bare_define() {
    let f = LlFunction::new("f", LlvmType::Double, vec![]);
    assert_eq!(f.to_ir(), "define double @f() {\n}\n");
    assert_eq!(f.num_blocks(), 0);
    assert_eq!(f.last_block_label(), None);
}

#[test]
fn linkage_params_and_try_attribute() {
    let mut f = LlFunction::new(
        "perry_fn_add",
        LlvmType::Double,
        vec![(LlvmType::Double, "%arg1".to_string()), (LlvmType::I32, "%arg2".to_string())],
    );
    f.linkage = "internal".to_string();
    f.has_try = true;
    assert_eq!(
        f.to_ir(),
        "define internal double @perry_fn_add(double %arg1, i32 %arg2) #1 {\n}\n"
    );
}

#[test]
fn blocks_are_numbered_in_creation_order() {
    let mut f = LlFunction::new("main", LlvmType::I32, vec![]);
    let b = f.create_block("entry");
    assert_eq!(b.label, "entry.0");
    f.create_block("if.then");
    f.create_block("if.then");
    assert_eq!(f.num_blocks(), 3);
    assert_eq!(f.blocks()[1].label, "if.then.1");
    assert_eq!(f.last_block_label(), Some("if.then.2"));
}

#[test]
fn block_mut_appends_to_an_earlier_block() {
    let mut f = LlFunction::new("main", LlvmType::I32, vec![]);
    f.create_block("entry");
    f.create_block("exit");
    f.block_mut(0).unwrap().push_instruction("call void @js_gc_init()".to_string());
    assert!(f.block_mut(2).is_none());
    assert_eq!(f.blocks()[0].instructions, vec!["call void @js_gc_init()".to_string()]);
    assert!(f.blocks()[1].instructions.is_empty());
}

#[test]
fn entry_allocas_are_spliced_after_the_entry_label() {
    let mut f = LlFunction::new("g", LlvmType::Double, vec![]);
    f.create_block("entry").push_instruction("ret double 0.0".to_string());
    let r0 = f.alloca_entry(LlvmType::Double);
    let r1 = f.alloca_entry(LlvmType::I64);
    assert_eq!(r0, "%r0");
    assert_eq!(r1, "%r1");
    f.create_block("exit");
    assert_eq!(
        f.to_ir(),
        "define double @g() {\nentry.0:\n  %r0 = alloca double\n  %r1 = alloca i64\n  ret double 0.0\n\n\nexit.1:\n\n}\n"
    );
}

#[test]
fn blocks_are_separated_by_a_blank_line() {
    let mut f = LlFunction::new("h", LlvmType::Void, vec![(LlvmType::Ptr, "%p".to_string())]);
    f.create_block("a").push_instruction("ret void".to_string());
    f.create_block("b").push_instruction("unreachable".to_string());
    assert_eq!(
        f.to_ir(),
        "define void @h(ptr %p) {\na.0:\n  ret void\n\n\nb.1:\n  unreachable\n\n}\n"
    );
}

#[test]
fn setters_give_the_define_line() {
    let mut f = LlFunction::new("main", LlvmType::I32, vec![]);
    f.set_linkage("internal".to_string());
    f.set_has_try(true);
    assert_eq!(f.to_ir(), "define internal i32 @main() #1 {\n}\n");
    f.set_has_try(false);
    f.set_linkage(String::new());
    assert_eq!(f.to_ir(), "define i32 @main() {\n}\n");
}
