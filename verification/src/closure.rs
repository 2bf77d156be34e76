//! Closures: a header (function address, capture count, type tag) followed
//! by 8-byte captured values, and the decisions of calling one.
//!
//! Values are the 64 bits of their NaN-boxed double; closures are handled
//! by address. Reading and writing memory, and the call itself, are the
//! caller's part.

use vstd::prelude::*;
use crate::symbol::{POINTER_TAG, POINTER_MASK, TAG_MASK, TAG_UNDEFINED};

verus! {

/// Marks a `ClosureHeader` ("CLOS"), so that `typeof` says "function".
pub const CLOSURE_MAGIC: u32 = 0x434C_4F53;

/// The function address of a bound method on a native module: a call
/// dispatches through the runtime with the captured namespace object and
/// method name.
pub const BOUND_METHOD_FUNC_PTR: u64 = 0xBADD_DEAD;

/// NaN-box of `null`.
pub const TAG_NULL: u64 = 0x7FFC_0000_0000_0002;

/// Size of the header in bytes (an address and two 32-bit fields).
pub const CLOSURE_HEADER_SIZE: usize = 16;

/// Size of one captured value in bytes.
pub const CAPTURE_SIZE: usize = 8;

/// The most arguments a closure is called with.
pub const MAX_CLOSURE_ARGS: usize = 16;

/// The header of a heap-allocated closure.
#[derive(Clone, Copy)]
pub struct ClosureHeader {
    /// Address of the compiled function.
    pub func_ptr: u64,
    /// Number of captured values.
    pub capture_count: u32,
    /// `CLOSURE_MAGIC`.
    pub type_tag: u32,
}

/// The header of a new closure.
pub fn closure_header(func_ptr: u64, capture_count: u32) -> (h: ClosureHeader)
    ensures
        h.func_ptr == func_ptr,
        h.capture_count == capture_count,
        h.type_tag == CLOSURE_MAGIC,
{
    ClosureHeader { func_ptr, capture_count, type_tag: CLOSURE_MAGIC }
}

/// The bytes a closure with `capture_count` captures takes.
pub fn closure_alloc_size(capture_count: u32) -> (size: usize)
    requires
        CLOSURE_HEADER_SIZE + CAPTURE_SIZE * capture_count <= usize::MAX,
    ensures
        size == CLOSURE_HEADER_SIZE + CAPTURE_SIZE * capture_count,
{
    CLOSURE_HEADER_SIZE + (capture_count as usize) * CAPTURE_SIZE
}

/// The byte offset of capture `index` from the start of the closure.
pub fn capture_offset(index: u32) -> (offset: usize)
    requires
        CLOSURE_HEADER_SIZE + CAPTURE_SIZE * index <= usize::MAX,
    ensures
        offset == CLOSURE_HEADER_SIZE + CAPTURE_SIZE * index,
{
    CLOSURE_HEADER_SIZE + (index as usize) * CAPTURE_SIZE
}

/// A closure address is valid when it is not null and not in the low page
/// (as dereferencing the tag of `undefined` would give).
pub open spec fn valid_closure_address(addr: usize) -> bool {
    addr != 0 && addr >= 0x1000
}

pub fn is_valid_closure_ptr(addr: usize) -> (b: bool)
    ensures
        b == valid_closure_address(addr),
{
    addr != 0 && addr >= 0x1000
}

/// How a call of a closure proceeds.
pub enum ClosureCall {
    /// The closure is invalid: the call gives `undefined`.
    Undefined,
    /// A bound method of a native module: dispatch through the runtime.
    BoundMethod,
    /// Call the compiled function at this address.
    Direct(u64),
}

/// The dispatch of a call of the closure at `addr`, given its header when
/// the address is valid.
pub open spec fn closure_call_spec(addr: usize, header: Option<ClosureHeader>) -> ClosureCall {
    if !valid_closure_address(addr) {
        ClosureCall::Undefined
    } else {
        match header {
            Some(h) => if h.func_ptr == BOUND_METHOD_FUNC_PTR {
                ClosureCall::BoundMethod
            } else {
                ClosureCall::Direct(h.func_ptr)
            },
            None => ClosureCall::Undefined,
        }
    }
}

pub fn closure_call(addr: usize, header: Option<ClosureHeader>) -> (c: ClosureCall)
    ensures
        c == closure_call_spec(addr, header),
{
    if !is_valid_closure_ptr(addr) {
        return ClosureCall::Undefined;
    }
    match header {
        Some(h) => {
            if h.func_ptr == BOUND_METHOD_FUNC_PTR {
                ClosureCall::BoundMethod
            } else {
                ClosureCall::Direct(h.func_ptr)
            }
        },
        None => ClosureCall::Undefined,
    }
}

/// The runtime call that a call of a bound method makes: the method is
/// looked up by name on the receiver and called with the arguments.
pub struct BoundMethodCall {
    /// Capture 0: the namespace object, as the bits of its value.
    pub receiver: u64,
    /// Capture 1: the address of the method name's bytes.
    pub name_ptr: u64,
    /// Capture 2: the length of the method name in bytes.
    pub name_len: u64,
    /// The call's arguments, in order; their count is the argument count.
    pub args: Vec<u64>,
}

/// The runtime call of a bound method, from the closure's captures (at
/// least three) and the arguments of the call.
pub fn bound_method_call(captures: &[u64], args: &[u64]) -> (c: BoundMethodCall)
    requires
        captures@.len() >= 3,
    ensures
        c.receiver == captures@[0],
        c.name_ptr == captures@[1],
        c.name_len == captures@[2],
        c.args@ == args@,
{
    let mut a: Vec<u64> = Vec::new();
    let n = args.len();
    let mut i: usize = 0;
    while i < n
        invariant
            n == args@.len(),
            i <= n,
            a@ == args@.take(i as int),
        decreases n - i,
    {
        a.push(args[i]);
        assert(args@.take(i + 1) =~= args@.take(i as int).push(args@[i as int]));
        i = i + 1;
    }
    assert(args@.take(n as int) =~= args@);
    BoundMethodCall { receiver: captures[0], name_ptr: captures[1], name_len: captures[2], args: a }
}

/// Whether the bits are a NaN.
pub open spec fn is_nan_bits(bits: u64) -> bool {
    bits & 0x7FF0_0000_0000_0000 == 0x7FF0_0000_0000_0000 && bits & 0x000F_FFFF_FFFF_FFFF != 0
}

/// The closure address a function value calls: a boxed pointer's address;
/// nothing for `undefined`, `null` and other NaNs; else the bits taken as an
/// address. Address 0 calls nothing.
pub open spec fn callee_address_spec(func_value: u64) -> Option<u64> {
    let addr = if func_value & TAG_MASK == POINTER_TAG {
        func_value & POINTER_MASK
    } else if func_value == TAG_UNDEFINED || func_value == TAG_NULL || is_nan_bits(func_value) {
        0
    } else {
        func_value
    };
    if addr == 0 {
        None
    } else {
        Some(addr)
    }
}

pub fn callee_address(func_value: u64) -> (addr: Option<u64>)
    ensures
        addr == callee_address_spec(func_value),
{
    let addr = if func_value & TAG_MASK == POINTER_TAG {
        func_value & POINTER_MASK
    } else if func_value == TAG_UNDEFINED || func_value == TAG_NULL || (func_value
        & 0x7FF0_0000_0000_0000 == 0x7FF0_0000_0000_0000 && func_value & 0x000F_FFFF_FFFF_FFFF
        != 0) {
        0
    } else {
        func_value
    };
    if addr == 0 {
        None
    } else {
        Some(addr)
    }
}

/// The number of arguments a dynamic call passes: at most 16.
pub open spec fn call_arity_spec(args_len: usize) -> usize {
    if args_len < MAX_CLOSURE_ARGS {
        args_len
    } else {
        MAX_CLOSURE_ARGS
    }
}

/// The arguments of a dynamic call: the first (at most 16) values of the
/// argument array, or zeros (`0.0`) when there is no array.
pub fn call_arguments(args: Option<&[u64]>, args_len: usize) -> (r: Vec<u64>)
    requires
        args matches Some(a) ==> a@.len() >= call_arity_spec(args_len),
    ensures
        r@.len() == call_arity_spec(args_len),
        forall|i: int|
            0 <= i < r@.len() ==> #[trigger] r@[i] == match args {
                Some(a) => a@[i],
                None => 0u64,
            },
{
    let n = if args_len < MAX_CLOSURE_ARGS { args_len } else { MAX_CLOSURE_ARGS };
    let mut r: Vec<u64> = Vec::new();
    let mut i: usize = 0;
    while i < n
        invariant
            n == call_arity_spec(args_len),
            args matches Some(a) ==> a@.len() >= n,
            i <= n,
            r@.len() == i,
            forall|k: int|
                0 <= k < i ==> #[trigger] r@[k] == match args {
                    Some(a) => a@[k],
                    None => 0u64,
                },
        decreases n - i,
    {
        match args {
            Some(a) => r.push(a[i]),
            None => r.push(0),
        }
        i = i + 1;
    }
    r
}

/// The captures of a closure lie one after another inside its allocation,
/// without overlapping the header or each other.
pub proof fn lemma_captures_in_allocation(capture_count: u32, index: u32)
    requires
        index < capture_count,
    ensures
        CLOSURE_HEADER_SIZE <= CLOSURE_HEADER_SIZE + CAPTURE_SIZE * index,
        CLOSURE_HEADER_SIZE + CAPTURE_SIZE * index + CAPTURE_SIZE <= CLOSURE_HEADER_SIZE + CAPTURE_SIZE
            * capture_count,
        CLOSURE_HEADER_SIZE + CAPTURE_SIZE * (index + 1) == CLOSURE_HEADER_SIZE + CAPTURE_SIZE * index
            + CAPTURE_SIZE,
{
}

/// Two different captures occupy disjoint 8-byte slots, so setting one
/// leaves the other as it was.
pub proof fn lemma_capture_slots_disjoint(i: u32, j: u32)
    requires
        i != j,
    ensures
        CLOSURE_HEADER_SIZE + CAPTURE_SIZE * i + CAPTURE_SIZE <= CLOSURE_HEADER_SIZE + CAPTURE_SIZE * j
            || CLOSURE_HEADER_SIZE + CAPTURE_SIZE * j + CAPTURE_SIZE <= CLOSURE_HEADER_SIZE
            + CAPTURE_SIZE * i,
{
}

/// A closure made with a compiled function's address is called by a
/// direct call to that function, at any valid address.
pub proof fn lemma_call_made_closure(addr: usize, func_ptr: u64, capture_count: u32)
    requires
        valid_closure_address(addr),
        func_ptr != BOUND_METHOD_FUNC_PTR,
    ensures
        closure_call_spec(
            addr,
            Some(ClosureHeader { func_ptr, capture_count, type_tag: CLOSURE_MAGIC }),
        ) == ClosureCall::Direct(func_ptr),
{
}

} // verus!
