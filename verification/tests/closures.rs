use perry::closure::{
    bound_method_call, call_arguments, callee_address, capture_offset, closure_alloc_size, closure_call, closure_header,
    is_valid_closure_ptr, ClosureCall, BOUND_METHOD_FUNC_PTR, CLOSURE_MAGIC, TAG_NULL,
};
use perry::symbol::{POINTER_TAG, TAG_UNDEFINED};

#[test]
fn header_and_layout() {
    let h = closure_header(0xABCD, 3);
    assert_eq!(h.func_ptr, 0xABCD);
    assert_eq!(h.capture_count, 3);
    assert_eq!(h.type_tag, CLOSURE_MAGIC);
    assert_eq!(closure_alloc_size(0), 16);
    assert_eq!(closure_alloc_size(3), 40);
    assert_eq!(capture_offset(0), 16);
    assert_eq!(capture_offset(2), 32);
}

#[test]
fn valid_addresses() {
    assert!(!is_valid_closure_ptr(0));
    assert!(!is_valid_closure_ptr(0xFFF));
    assert!(is_valid_closure_ptr(0x1000));
}

#[test]
fn call_dispatch() {
    let direct = closure_header(0x4000_0000, 0);
    let bound = closure_header(BOUND_METHOD_FUNC_PTR, 2);
    assert!(matches!(closure_call(0x8000, Some(direct)), ClosureCall::Direct(0x4000_0000)));
    assert!(matches!(closure_call(0x8000, Some(bound)), ClosureCall::BoundMethod));
    assert!(matches!(closure_call(0x10, Some(direct)), ClosureCall::Undefined));
    assert!(matches!(closure_call(0x8000, None), ClosureCall::Undefined));
}

#[test]
fn callee_of_a_function_value() {
    assert_eq!(callee_address(POINTER_TAG | 0x9000), Some(0x9000));
    assert_eq!(callee_address(POINTER_TAG), None);
    assert_eq!(callee_address(TAG_UNDEFINED), None);
    assert_eq!(callee_address(TAG_NULL), None);
    assert_eq!(callee_address(f64::NAN.to_bits()), None);
    assert_eq!(callee_address(0x7000), Some(0x7000));
    assert_eq!(callee_address(0), None);
}

#[test]
fn arguments_of_a_dynamic_call() {
    let args: Vec<u64> = (1..=20).collect();
    assert_eq!(call_arguments(Some(&args[..3]), 3), vec![1, 2, 3]);
    assert_eq!(call_arguments(Some(&args), 20), (1..=16).collect::<Vec<u64>>());
    assert_eq!(call_arguments(None, 2), vec![0, 0]);
    assert_eq!(call_arguments(None, 0), Vec::<u64>::new());
}

#[test]
fn bound_method_dispatch_arguments() {
    let receiver = 0x7FFD_0000_0000_1234u64;
    let captures = [receiver, 0x5000, 8];
    let c = bound_method_call(&captures, &[1.0f64.to_bits(), 2.0f64.to_bits()]);
    assert_eq!(c.receiver, receiver);
    assert_eq!(c.name_ptr, 0x5000);
    assert_eq!(c.name_len, 8);
    assert_eq!(c.args, vec![1.0f64.to_bits(), 2.0f64.to_bits()]);
    let none = bound_method_call(&captures, &[]);
    assert!(none.args.is_empty());
}
