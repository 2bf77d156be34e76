//! The WebAssembly binary of a module plan, written with `wasm-encoder`.
//!
//! The encoder's types are opaque here. Each section is described by the
//! entries added to it and by a bound on the bytes it holds, so that no
//! size the encoder checks with an assertion can be exceeded. The bytes of
//! each section are stated over its entries, but for the code section,
//! whose bytes are a name over its bodies.

use vstd::prelude::*;
use vstd::utf8::encode_utf8;
use vstd::arithmetic::power2::pow2;
use wasm_encoder::{
    BlockType, CodeSection, ConstExpr, DataCountSection, DataSection, EntityType, ExportSection,
    FunctionSection, GlobalSection, GlobalType, Ieee64, ImportSection, MemorySection,
    MemoryType, TypeSection,
};
use crate::wasm_code::{WasmInstr, BlockKind, TAG_UNDEFINED};
use crate::wasm_emit::{ValType, FuncType};
use crate::wasm_module::{
    ExportKind, FunctionBody, WasmExport, WasmImport, WasmModulePlan, sig_of,
};

verus! {

/// `wasm_encoder::Module`, opaque here.
#[verifier::external_type_specification]
#[verifier::external_body]
pub struct ExModule(wasm_encoder::Module);

/// `wasm_encoder::TypeSection`, opaque here.
#[verifier::external_type_specification]
#[verifier::external_body]
pub struct ExTypeSection(TypeSection);

/// `wasm_encoder::ImportSection`, opaque here.
#[verifier::external_type_specification]
#[verifier::external_body]
pub struct ExImportSection(ImportSection);

/// `wasm_encoder::FunctionSection`, opaque here.
#[verifier::external_type_specification]
#[verifier::external_body]
pub struct ExFunctionSection(FunctionSection);

/// `wasm_encoder::MemorySection`, opaque here.
#[verifier::external_type_specification]
#[verifier::external_body]
pub struct ExMemorySection(MemorySection);

/// `wasm_encoder::GlobalSection`, opaque here.
#[verifier::external_type_specification]
#[verifier::external_body]
pub struct ExGlobalSection(GlobalSection);

/// `wasm_encoder::ExportSection`, opaque here.
#[verifier::external_type_specification]
#[verifier::external_body]
pub struct ExExportSection(ExportSection);

/// `wasm_encoder::CodeSection`, opaque here.
#[verifier::external_type_specification]
#[verifier::external_body]
pub struct ExCodeSection(CodeSection);

/// `wasm_encoder::DataSection`, opaque here.
#[verifier::external_type_specification]
#[verifier::external_body]
pub struct ExDataSection(DataSection);

/// `wasm_encoder::Function`, opaque here.
#[verifier::external_type_specification]
#[verifier::external_body]
pub struct ExFunction(wasm_encoder::Function);

/// The bytes a module buffer holds so far.
pub uninterp spec fn module_bytes(m: wasm_encoder::Module) -> Seq<u8>;

/// The function types added to a type section: parameters and results.
pub uninterp spec fn type_entries(s: TypeSection) -> Seq<(Seq<ValType>, Seq<ValType>)>;

/// The number of bytes a type section holds for its entries.
pub uninterp spec fn type_payload_len(s: TypeSection) -> nat;

/// The imports added to an import section: module, name, type index.
pub uninterp spec fn import_entries(s: ImportSection) -> Seq<(Seq<char>, Seq<char>, u32)>;

/// The number of bytes an import section holds for its entries.
pub uninterp spec fn import_payload_len(s: ImportSection) -> nat;

/// The type indices added to a function section.
pub uninterp spec fn function_entries(s: FunctionSection) -> Seq<u32>;

/// The number of bytes a function section holds for its entries.
pub uninterp spec fn function_payload_len(s: FunctionSection) -> nat;

/// The memories added to a memory section: minimum, maximum, 64-bit,
/// shared, page size (log 2).
pub uninterp spec fn memory_entries(s: MemorySection) -> Seq<(u64, Option<u64>, bool, bool, Option<u32>)>;

/// The number of bytes a memory section holds for its entries.
pub uninterp spec fn memory_payload_len(s: MemorySection) -> nat;

/// The globals added to a global section: type, mutable, shared, and the
/// bits of the `f64.const` that initialises it.
pub uninterp spec fn global_entries(s: GlobalSection) -> Seq<(ValType, bool, bool, u64)>;

/// The number of bytes a global section holds for its entries.
pub uninterp spec fn global_payload_len(s: GlobalSection) -> nat;

/// The exports added to an export section: name, kind, index.
pub uninterp spec fn export_entries(s: ExportSection) -> Seq<(Seq<char>, ExportKind, u32)>;

/// The number of bytes an export section holds for its entries.
pub uninterp spec fn export_payload_len(s: ExportSection) -> nat;

/// The function bodies added to a code section: locals and instructions.
pub uninterp spec fn code_entries(s: CodeSection) -> Seq<(Seq<(u32, ValType)>, Seq<WasmInstr>)>;

/// The number of bytes a code section holds for its entries.
pub uninterp spec fn code_payload_len(s: CodeSection) -> nat;

/// The segments added to a data section: memory index, `i32.const`
/// offset, bytes.
pub uninterp spec fn data_entries(s: DataSection) -> Seq<(u32, i32, Seq<u8>)>;

/// The number of bytes a data section holds for its entries.
pub uninterp spec fn data_payload_len(s: DataSection) -> nat;

/// The local declarations a function body was made with.
pub uninterp spec fn body_locals(f: wasm_encoder::Function) -> Seq<(u32, ValType)>;

/// The instructions written to a function body.
pub uninterp spec fn body_instrs(f: wasm_encoder::Function) -> Seq<WasmInstr>;

/// The number of bytes a function body holds.
pub uninterp spec fn body_len(f: wasm_encoder::Function) -> nat;

/// The encoding of a code section with these bodies: it takes the
/// encoding of every instruction, and is named here.
pub uninterp spec fn code_section_encoding(entries: Seq<(Seq<(u32, ValType)>, Seq<WasmInstr>)>) -> Seq<u8>;

/// Unsigned LEB128: seven bits per byte, low bits first; every byte but
/// the last has its top bit set.
pub open spec fn uleb128(n: nat) -> Seq<u8>
    decreases n,
{
    if n < 128 {
        seq![n as u8]
    } else {
        seq![(n % 128 + 128) as u8] + uleb128(n / 128)
    }
}

/// The payload of a data count section: its size, then the count, both in
/// LEB128.
pub open spec fn data_count_contents(count: u32) -> Seq<u8> {
    section_contents(count as nat, Seq::empty())
}

/// A section's contents after its id: its size, the number of entries
/// and the entries' bytes, the two numbers in LEB128.
pub open spec fn section_contents(count: nat, body: Seq<u8>) -> Seq<u8> {
    uleb128(uleb128(count).len() + body.len()) + uleb128(count) + body
}

/// Signed LEB128: seven bits per byte, low bits first, until the rest is
/// the sign extension of the last byte's bit 6; every byte but the last has
/// its top bit set.
pub open spec fn sleb128(v: int) -> Seq<u8>
    decreases (if v >= 0 { v } else { -v }),
{
    let b = v % 128;
    let rest = (v - b) / 128;
    if (rest == 0 && b < 64) || (rest == -1 && b >= 64) {
        seq![b as u8]
    } else {
        seq![(b + 128) as u8] + sleb128(rest)
    }
}

/// The byte of a value type.
pub open spec fn val_type_byte(t: ValType) -> u8 {
    match t {
        ValType::I32 => 0x7F,
        ValType::F64 => 0x7C,
    }
}

pub open spec fn val_types_bytes(ts: Seq<ValType>) -> Seq<u8> {
    ts.map_values(|t: ValType| val_type_byte(t))
}

/// A name: the length of its UTF-8 bytes, then the bytes.
pub open spec fn name_bytes(s: Seq<char>) -> Seq<u8> {
    uleb128(encode_utf8(s).len()) + encode_utf8(s)
}

/// The 8 bytes of a 64-bit value, least significant first.
pub open spec fn le_bytes(bits: u64) -> Seq<u8> {
    Seq::new(8, |k: int| ((bits as nat / pow2((8 * k) as nat)) % 256) as u8)
}

/// A function type: `0x60`, the parameter types and the result types, each
/// list after its length.
pub open spec fn type_entry_bytes(e: (Seq<ValType>, Seq<ValType>)) -> Seq<u8> {
    seq![0x60u8] + uleb128(e.0.len()) + val_types_bytes(e.0) + uleb128(e.1.len()) + val_types_bytes(
        e.1,
    )
}

/// A function import: module name, field name, `0x00` and the type index.
pub open spec fn import_entry_bytes(e: (Seq<char>, Seq<char>, u32)) -> Seq<u8> {
    name_bytes(e.0) + name_bytes(e.1) + seq![0x00u8] + uleb128(e.2 as nat)
}

/// A memory type: the flags (maximum, shared, 64-bit, page size), the
/// minimum, and the maximum and page size when present.
pub open spec fn memory_entry_bytes(e: (u64, Option<u64>, bool, bool, Option<u32>)) -> Seq<u8> {
    let flags: int = (if e.1 is Some { 1int } else { 0int }) + (if e.3 { 2int } else { 0int }) + (if e.2 {
        4int
    } else {
        0int
    }) + (if e.4 is Some { 8int } else { 0int });
    seq![flags as u8] + uleb128(e.0 as nat) + (match e.1 {
        Some(m) => uleb128(m as nat),
        None => Seq::empty(),
    }) + match e.4 {
        Some(p) => uleb128(p as nat),
        None => Seq::empty(),
    }
}

/// A global with an `f64.const` initialiser: the value type, the flags
/// (mutable, shared), `0x44`, the constant's 8 bytes and `end`.
pub open spec fn global_entry_bytes(e: (ValType, bool, bool, u64)) -> Seq<u8> {
    let flags: int = (if e.1 { 1int } else { 0int }) + (if e.2 { 2int } else { 0int });
    seq![val_type_byte(e.0), flags as u8, 0x44u8] + le_bytes(e.3) + seq![0x0Bu8]
}

/// The byte of an export kind.
pub open spec fn export_kind_byte(k: ExportKind) -> u8 {
    match k {
        ExportKind::Func => 0x00,
        ExportKind::Memory => 0x02,
    }
}

/// An export: its name, its kind and the index.
pub open spec fn export_entry_bytes(e: (Seq<char>, ExportKind, u32)) -> Seq<u8> {
    name_bytes(e.0) + seq![export_kind_byte(e.1)] + uleb128(e.2 as nat)
}

/// An active data segment with an `i32.const` offset: `0x00` for memory 0,
/// else `0x02` and the memory index; `0x41`, the offset and `end`; the
/// length of the bytes and the bytes.
pub open spec fn data_entry_bytes(e: (u32, i32, Seq<u8>)) -> Seq<u8> {
    (if e.0 == 0 {
        seq![0x00u8]
    } else {
        seq![0x02u8] + uleb128(e.0 as nat)
    }) + seq![0x41u8] + sleb128(e.1 as int) + seq![0x0Bu8] + uleb128(e.2.len()) + e.2
}

/// The encoding of a type section with these entries (without its id).
pub open spec fn type_section_encoding(entries: Seq<(Seq<ValType>, Seq<ValType>)>) -> Seq<u8> {
    section_contents(entries.len(), entries.map_values(|e: (Seq<ValType>, Seq<ValType>)| type_entry_bytes(e)).flatten())
}

/// The encoding of an import section with these entries.
pub open spec fn import_section_encoding(entries: Seq<(Seq<char>, Seq<char>, u32)>) -> Seq<u8> {
    section_contents(entries.len(), entries.map_values(|e: (Seq<char>, Seq<char>, u32)| import_entry_bytes(e)).flatten())
}

/// The encoding of a function section with these type indices.
pub open spec fn function_section_encoding(entries: Seq<u32>) -> Seq<u8> {
    section_contents(entries.len(), entries.map_values(|t: u32| uleb128(t as nat)).flatten())
}

/// The encoding of a memory section with these memories.
pub open spec fn memory_section_encoding(entries: Seq<(u64, Option<u64>, bool, bool, Option<u32>)>) -> Seq<u8> {
    section_contents(
        entries.len(),
        entries.map_values(|e: (u64, Option<u64>, bool, bool, Option<u32>)| memory_entry_bytes(e)).flatten(),
    )
}

/// The encoding of a global section with these globals.
pub open spec fn global_section_encoding(entries: Seq<(ValType, bool, bool, u64)>) -> Seq<u8> {
    section_contents(entries.len(), entries.map_values(|e: (ValType, bool, bool, u64)| global_entry_bytes(e)).flatten())
}

/// The encoding of an export section with these exports.
pub open spec fn export_section_encoding(entries: Seq<(Seq<char>, ExportKind, u32)>) -> Seq<u8> {
    section_contents(entries.len(), entries.map_values(|e: (Seq<char>, ExportKind, u32)| export_entry_bytes(e)).flatten())
}

/// The encoding of a data section with these segments.
pub open spec fn data_section_encoding(entries: Seq<(u32, i32, Seq<u8>)>) -> Seq<u8> {
    section_contents(entries.len(), entries.map_values(|e: (u32, i32, Seq<u8>)| data_entry_bytes(e)).flatten())
}

/// The most bytes one instruction of `WasmInstr` takes (`f64.const`: an
/// opcode and 8 bytes).
pub const MAX_INSTR_LEN: u64 = 9;

/// The most bytes one section may hold for its entries: with the count in
/// front (at most 5 bytes) its size must fit in a `u32`.
pub const MAX_PAYLOAD: u64 = 0xFFFF_FFFA;

/// The first 8 bytes of every module: `\0asm`, version 1.
pub open spec fn wasm_header() -> Seq<u8> {
    seq![0x00u8, 0x61, 0x73, 0x6D, 0x01, 0x00, 0x00, 0x00]
}

/// `wasm_encoder::Module::new`: the buffer starts with the header.
#[verifier::external_body]
fn module_new() -> (m: wasm_encoder::Module)
    ensures
        module_bytes(m) == wasm_header(),
{
    wasm_encoder::Module::new()
}

/// `wasm_encoder::Module::finish`: the bytes written.
#[verifier::external_body]
fn module_finish(m: wasm_encoder::Module) -> (bytes: Vec<u8>)
    ensures
        bytes@ == module_bytes(m),
{
    m.finish()
}

/// `wasm_encoder::Module::section` with a type section: its id (1), then its encoding.
/// The encoder asserts that the section's size fits in a `u32`.
#[verifier::external_body]
fn module_add_types(m: &mut wasm_encoder::Module, s: &TypeSection)
    requires
        type_payload_len(*s) <= MAX_PAYLOAD,
    ensures
        module_bytes(*final(m)) == module_bytes(*old(m)) + seq![1u8] + type_section_encoding(type_entries(*s)),
{
    m.section(s);
}

/// `wasm_encoder::Module::section` with an import section: id 2, then its encoding.
#[verifier::external_body]
fn module_add_imports(m: &mut wasm_encoder::Module, s: &ImportSection)
    requires
        import_payload_len(*s) <= MAX_PAYLOAD,
    ensures
        module_bytes(*final(m)) == module_bytes(*old(m)) + seq![2u8] + import_section_encoding(import_entries(*s)),
{
    m.section(s);
}

/// `wasm_encoder::Module::section` with a function section: id 3, then its encoding.
#[verifier::external_body]
fn module_add_functions(m: &mut wasm_encoder::Module, s: &FunctionSection)
    requires
        function_payload_len(*s) <= MAX_PAYLOAD,
    ensures
        module_bytes(*final(m)) == module_bytes(*old(m)) + seq![3u8] + function_section_encoding(
            function_entries(*s),
        ),
{
    m.section(s);
}

/// `wasm_encoder::Module::section` with a memory section: id 5, then its encoding.
#[verifier::external_body]
fn module_add_memories(m: &mut wasm_encoder::Module, s: &MemorySection)
    requires
        memory_payload_len(*s) <= MAX_PAYLOAD,
    ensures
        module_bytes(*final(m)) == module_bytes(*old(m)) + seq![5u8] + memory_section_encoding(memory_entries(*s)),
{
    m.section(s);
}

/// `wasm_encoder::Module::section` with a global section: id 6, then its encoding.
#[verifier::external_body]
fn module_add_globals(m: &mut wasm_encoder::Module, s: &GlobalSection)
    requires
        global_payload_len(*s) <= MAX_PAYLOAD,
    ensures
        module_bytes(*final(m)) == module_bytes(*old(m)) + seq![6u8] + global_section_encoding(global_entries(*s)),
{
    m.section(s);
}

/// `wasm_encoder::Module::section` with an export section: id 7, then its encoding.
#[verifier::external_body]
fn module_add_exports(m: &mut wasm_encoder::Module, s: &ExportSection)
    requires
        export_payload_len(*s) <= MAX_PAYLOAD,
    ensures
        module_bytes(*final(m)) == module_bytes(*old(m)) + seq![7u8] + export_section_encoding(export_entries(*s)),
{
    m.section(s);
}

/// `wasm_encoder::Module::section` with a code section: id 10, then its encoding.
#[verifier::external_body]
fn module_add_code(m: &mut wasm_encoder::Module, s: &CodeSection)
    requires
        code_payload_len(*s) <= MAX_PAYLOAD,
    ensures
        module_bytes(*final(m)) == module_bytes(*old(m)) + seq![10u8] + code_section_encoding(code_entries(*s)),
{
    m.section(s);
}

/// `wasm_encoder::Module::section` with a data section: id 11, then its encoding.
#[verifier::external_body]
fn module_add_data(m: &mut wasm_encoder::Module, s: &DataSection)
    requires
        data_payload_len(*s) <= MAX_PAYLOAD,
    ensures
        module_bytes(*final(m)) == module_bytes(*old(m)) + seq![11u8] + data_section_encoding(data_entries(*s)),
{
    m.section(s);
}

/// `wasm_encoder::Module::section` with a data count section: id 12, then its encoding.
#[verifier::external_body]
fn module_add_data_count(m: &mut wasm_encoder::Module, count: u32)
    ensures
        module_bytes(*final(m)) == module_bytes(*old(m)) + seq![12u8] + data_count_contents(count),
{
    m.section(&DataCountSection { count });
}

/// `TypeSection::new`: no entries.
#[verifier::external_body]
fn type_section_new() -> (s: TypeSection)
    ensures
        type_entries(s) == Seq::<(Seq<ValType>, Seq<ValType>)>::empty(),
        type_payload_len(s) == 0,
{
    TypeSection::new()
}

/// `TypeSection::ty().function`: adds a function type; it takes `0x60`,
/// two counts (at most 5 bytes each) and a byte per value type. The
/// counts are asserted to fit in a `u32`, and the entry count is a `u32`.
#[verifier::external_body]
fn type_section_add(s: &mut TypeSection, params: &Vec<ValType>, results: &Vec<ValType>)
    requires
        type_entries(*old(s)).len() < u32::MAX,
        params@.len() <= u32::MAX,
        results@.len() <= u32::MAX,
    ensures
        type_entries(*final(s)) == type_entries(*old(s)).push((params@, results@)),
        type_payload_len(*final(s)) <= type_payload_len(*old(s)) + 11 + params@.len() + results@.len(),
{
    let conv = |t: &ValType| match t {
        ValType::I32 => wasm_encoder::ValType::I32,
        ValType::F64 => wasm_encoder::ValType::F64,
    };
    let p: Vec<wasm_encoder::ValType> = params.iter().map(conv).collect();
    let r: Vec<wasm_encoder::ValType> = results.iter().map(conv).collect();
    s.ty().function(p, r);
}

/// `ImportSection::new`: no entries.
#[verifier::external_body]
fn import_section_new() -> (s: ImportSection)
    ensures
        import_entries(s) == Seq::<(Seq<char>, Seq<char>, u32)>::empty(),
        import_payload_len(s) == 0,
{
    ImportSection::new()
}

/// `ImportSection::import` of a function: two strings (a count of at most
/// 5 bytes and at most 4 bytes per character each), the kind byte and the
/// type index (at most 5 bytes). String lengths are asserted to fit in a
/// `u32`.
#[verifier::external_body]
fn import_section_add(s: &mut ImportSection, module: &str, name: &str, type_idx: u32)
    requires
        import_entries(*old(s)).len() < u32::MAX,
        4 * module@.len() <= u32::MAX,
        4 * name@.len() <= u32::MAX,
    ensures
        import_entries(*final(s)) == import_entries(*old(s)).push((module@, name@, type_idx)),
        import_payload_len(*final(s)) <= import_payload_len(*old(s)) + 16 + 4 * module@.len() + 4
            * name@.len(),
{
    s.import(module, name, EntityType::Function(type_idx));
}

/// `FunctionSection::new`: no entries.
#[verifier::external_body]
fn function_section_new() -> (s: FunctionSection)
    ensures
        function_entries(s) == Seq::<u32>::empty(),
        function_payload_len(s) == 0,
{
    FunctionSection::new()
}

/// `FunctionSection::function`: adds a type index (at most 5 bytes).
#[verifier::external_body]
fn function_section_add(s: &mut FunctionSection, type_idx: u32)
    requires
        function_entries(*old(s)).len() < u32::MAX,
    ensures
        function_entries(*final(s)) == function_entries(*old(s)).push(type_idx),
        function_payload_len(*final(s)) <= function_payload_len(*old(s)) + 5,
{
    s.function(type_idx);
}

/// `MemorySection::new`: no entries.
#[verifier::external_body]
fn memory_section_new() -> (s: MemorySection)
    ensures
        memory_entries(s) == Seq::<(u64, Option<u64>, bool, bool, Option<u32>)>::empty(),
        memory_payload_len(s) == 0,
{
    MemorySection::new()
}

/// `MemorySection::memory`: adds a memory type (a flags byte, two 64-bit
/// limits of at most 10 bytes each, a page size of at most 5 bytes).
#[verifier::external_body]
fn memory_section_add(
    s: &mut MemorySection,
    minimum: u64,
    maximum: Option<u64>,
    memory64: bool,
    shared: bool,
    page_size_log2: Option<u32>,
)
    requires
        memory_entries(*old(s)).len() < u32::MAX,
    ensures
        memory_entries(*final(s)) == memory_entries(*old(s)).push(
            (minimum, maximum, memory64, shared, page_size_log2),
        ),
        memory_payload_len(*final(s)) <= memory_payload_len(*old(s)) + 26,
{
    s.memory(MemoryType { minimum, maximum, memory64, shared, page_size_log2 });
}

/// `GlobalSection::new`: no entries.
#[verifier::external_body]
fn global_section_new() -> (s: GlobalSection)
    ensures
        global_entries(s) == Seq::<(ValType, bool, bool, u64)>::empty(),
        global_payload_len(s) == 0,
{
    GlobalSection::new()
}

/// `GlobalSection::global` with an `f64.const` initialiser: a type byte,
/// a flags byte, and the constant expression (opcode, 8 bytes, `end`).
#[verifier::external_body]
fn global_section_add(s: &mut GlobalSection, val_type: ValType, mutable: bool, shared: bool, init_bits: u64)
    requires
        global_entries(*old(s)).len() < u32::MAX,
    ensures
        global_entries(*final(s)) == global_entries(*old(s)).push((val_type, mutable, shared, init_bits)),
        global_payload_len(*final(s)) <= global_payload_len(*old(s)) + 12,
{
    let val_type = match val_type {
        ValType::I32 => wasm_encoder::ValType::I32,
        ValType::F64 => wasm_encoder::ValType::F64,
    };
    s.global(GlobalType { val_type, mutable, shared }, &ConstExpr::f64_const(Ieee64::new(init_bits)));
}

/// `ExportSection::new`: no entries.
#[verifier::external_body]
fn export_section_new() -> (s: ExportSection)
    ensures
        export_entries(s) == Seq::<(Seq<char>, ExportKind, u32)>::empty(),
        export_payload_len(s) == 0,
{
    ExportSection::new()
}

/// `ExportSection::export`: a string (count and at most 4 bytes per
/// character), the kind byte and the index (at most 5 bytes).
#[verifier::external_body]
fn export_section_add(s: &mut ExportSection, name: &str, kind: ExportKind, index: u32)
    requires
        export_entries(*old(s)).len() < u32::MAX,
        4 * name@.len() <= u32::MAX,
    ensures
        export_entries(*final(s)) == export_entries(*old(s)).push((name@, kind, index)),
        export_payload_len(*final(s)) <= export_payload_len(*old(s)) + 11 + 4 * name@.len(),
{
    let kind = match kind {
        ExportKind::Func => wasm_encoder::ExportKind::Func,
        ExportKind::Memory => wasm_encoder::ExportKind::Memory,
    };
    s.export(name, kind, index);
}

/// `CodeSection::new`: no entries.
#[verifier::external_body]
fn code_section_new() -> (s: CodeSection)
    ensures
        code_entries(s) == Seq::<(Seq<(u32, ValType)>, Seq<WasmInstr>)>::empty(),
        code_payload_len(s) == 0,
{
    CodeSection::new()
}

/// `CodeSection::function`: adds a body, its size (at most 5 bytes, and
/// asserted to fit in a `u32`) in front.
#[verifier::external_body]
fn code_section_add(s: &mut CodeSection, f: &wasm_encoder::Function)
    requires
        code_entries(*old(s)).len() < u32::MAX,
        body_len(*f) <= u32::MAX,
    ensures
        code_entries(*final(s)) == code_entries(*old(s)).push((body_locals(*f), body_instrs(*f))),
        code_payload_len(*final(s)) <= code_payload_len(*old(s)) + 5 + body_len(*f),
{
    s.function(f);
}

/// `DataSection::new`: no entries.
#[verifier::external_body]
fn data_section_new() -> (s: DataSection)
    ensures
        data_entries(s) == Seq::<(u32, i32, Seq<u8>)>::empty(),
        data_payload_len(s) == 0,
{
    DataSection::new()
}

/// `DataSection::active` with an `i32.const` offset: a mode byte, the
/// memory index (at most 5 bytes), the offset expression (at most 7
/// bytes), the length (at most 5 bytes, asserted to fit in a `u32`) and
/// the bytes.
#[verifier::external_body]
fn data_section_add_active(s: &mut DataSection, memory_index: u32, offset: i32, data: &Vec<u8>)
    requires
        data_entries(*old(s)).len() < u32::MAX,
        data@.len() <= u32::MAX,
    ensures
        data_entries(*final(s)) == data_entries(*old(s)).push((memory_index, offset, data@)),
        data_payload_len(*final(s)) <= data_payload_len(*old(s)) + 18 + data@.len(),
{
    s.active(memory_index, &ConstExpr::i32_const(offset), data.iter().copied());
}

/// `wasm_encoder::Function::new`: a body with these local declarations (a count, and
/// at most 6 bytes per declaration) and no instructions. The count is
/// asserted to fit in a `u32`.
#[verifier::external_body]
fn function_new(locals: &Vec<(u32, ValType)>) -> (f: wasm_encoder::Function)
    requires
        locals@.len() <= u32::MAX,
    ensures
        body_locals(f) == locals@,
        body_instrs(f) == Seq::<WasmInstr>::empty(),
        body_len(f) <= 5 + 6 * locals@.len(),
{
    let l: Vec<(u32, wasm_encoder::ValType)> = locals.iter().map(|(n, t)| (*n, match t {
        ValType::I32 => wasm_encoder::ValType::I32,
        ValType::F64 => wasm_encoder::ValType::F64,
    })).collect();
    wasm_encoder::Function::new(l)
}

/// `InstructionSink::unreachable`: appends `Unreachable` to the body.
#[verifier::external_body]
fn op_unreachable(f: &mut wasm_encoder::Function)
    ensures
        body_locals(*final(f)) == body_locals(*old(f)),
        body_instrs(*final(f)) == body_instrs(*old(f)).push(WasmInstr::Unreachable),
        body_len(*final(f)) <= body_len(*old(f)) + MAX_INSTR_LEN,
{
    f.instructions().unreachable();
}

/// `InstructionSink::else_`: appends `Else` to the body.
#[verifier::external_body]
fn op_else(f: &mut wasm_encoder::Function)
    ensures
        body_locals(*final(f)) == body_locals(*old(f)),
        body_instrs(*final(f)) == body_instrs(*old(f)).push(WasmInstr::Else),
        body_len(*final(f)) <= body_len(*old(f)) + MAX_INSTR_LEN,
{
    f.instructions().else_();
}

/// `InstructionSink::end`: appends `End` to the body.
#[verifier::external_body]
fn op_end(f: &mut wasm_encoder::Function)
    ensures
        body_locals(*final(f)) == body_locals(*old(f)),
        body_instrs(*final(f)) == body_instrs(*old(f)).push(WasmInstr::End),
        body_len(*final(f)) <= body_len(*old(f)) + MAX_INSTR_LEN,
{
    f.instructions().end();
}

/// `InstructionSink::return_`: appends `Return` to the body.
#[verifier::external_body]
fn op_return(f: &mut wasm_encoder::Function)
    ensures
        body_locals(*final(f)) == body_locals(*old(f)),
        body_instrs(*final(f)) == body_instrs(*old(f)).push(WasmInstr::Return),
        body_len(*final(f)) <= body_len(*old(f)) + MAX_INSTR_LEN,
{
    f.instructions().return_();
}

/// `InstructionSink::drop`: appends `Drop` to the body.
#[verifier::external_body]
fn op_drop(f: &mut wasm_encoder::Function)
    ensures
        body_locals(*final(f)) == body_locals(*old(f)),
        body_instrs(*final(f)) == body_instrs(*old(f)).push(WasmInstr::Drop),
        body_len(*final(f)) <= body_len(*old(f)) + MAX_INSTR_LEN,
{
    f.instructions().drop();
}

/// `InstructionSink::i32_eqz`: appends `I32Eqz` to the body.
#[verifier::external_body]
fn op_i32_eqz(f: &mut wasm_encoder::Function)
    ensures
        body_locals(*final(f)) == body_locals(*old(f)),
        body_instrs(*final(f)) == body_instrs(*old(f)).push(WasmInstr::I32Eqz),
        body_len(*final(f)) <= body_len(*old(f)) + MAX_INSTR_LEN,
{
    f.instructions().i32_eqz();
}

/// `InstructionSink::f64_lt`: appends `F64Lt` to the body.
#[verifier::external_body]
fn op_f64_lt(f: &mut wasm_encoder::Function)
    ensures
        body_locals(*final(f)) == body_locals(*old(f)),
        body_instrs(*final(f)) == body_instrs(*old(f)).push(WasmInstr::F64Lt),
        body_len(*final(f)) <= body_len(*old(f)) + MAX_INSTR_LEN,
{
    f.instructions().f64_lt();
}

/// `InstructionSink::f64_gt`: appends `F64Gt` to the body.
#[verifier::external_body]
fn op_f64_gt(f: &mut wasm_encoder::Function)
    ensures
        body_locals(*final(f)) == body_locals(*old(f)),
        body_instrs(*final(f)) == body_instrs(*old(f)).push(WasmInstr::F64Gt),
        body_len(*final(f)) <= body_len(*old(f)) + MAX_INSTR_LEN,
{
    f.instructions().f64_gt();
}

/// `InstructionSink::f64_le`: appends `F64Le` to the body.
#[verifier::external_body]
fn op_f64_le(f: &mut wasm_encoder::Function)
    ensures
        body_locals(*final(f)) == body_locals(*old(f)),
        body_instrs(*final(f)) == body_instrs(*old(f)).push(WasmInstr::F64Le),
        body_len(*final(f)) <= body_len(*old(f)) + MAX_INSTR_LEN,
{
    f.instructions().f64_le();
}

/// `InstructionSink::f64_ge`: appends `F64Ge` to the body.
#[verifier::external_body]
fn op_f64_ge(f: &mut wasm_encoder::Function)
    ensures
        body_locals(*final(f)) == body_locals(*old(f)),
        body_instrs(*final(f)) == body_instrs(*old(f)).push(WasmInstr::F64Ge),
        body_len(*final(f)) <= body_len(*old(f)) + MAX_INSTR_LEN,
{
    f.instructions().f64_ge();
}

/// `InstructionSink::i32_xor`: appends `I32Xor` to the body.
#[verifier::external_body]
fn op_i32_xor(f: &mut wasm_encoder::Function)
    ensures
        body_locals(*final(f)) == body_locals(*old(f)),
        body_instrs(*final(f)) == body_instrs(*old(f)).push(WasmInstr::I32Xor),
        body_len(*final(f)) <= body_len(*old(f)) + MAX_INSTR_LEN,
{
    f.instructions().i32_xor();
}

/// `InstructionSink::f64_abs`: appends `F64Abs` to the body.
#[verifier::external_body]
fn op_f64_abs(f: &mut wasm_encoder::Function)
    ensures
        body_locals(*final(f)) == body_locals(*old(f)),
        body_instrs(*final(f)) == body_instrs(*old(f)).push(WasmInstr::F64Abs),
        body_len(*final(f)) <= body_len(*old(f)) + MAX_INSTR_LEN,
{
    f.instructions().f64_abs();
}

/// `InstructionSink::f64_neg`: appends `F64Neg` to the body.
#[verifier::external_body]
fn op_f64_neg(f: &mut wasm_encoder::Function)
    ensures
        body_locals(*final(f)) == body_locals(*old(f)),
        body_instrs(*final(f)) == body_instrs(*old(f)).push(WasmInstr::F64Neg),
        body_len(*final(f)) <= body_len(*old(f)) + MAX_INSTR_LEN,
{
    f.instructions().f64_neg();
}

/// `InstructionSink::f64_ceil`: appends `F64Ceil` to the body.
#[verifier::external_body]
fn op_f64_ceil(f: &mut wasm_encoder::Function)
    ensures
        body_locals(*final(f)) == body_locals(*old(f)),
        body_instrs(*final(f)) == body_instrs(*old(f)).push(WasmInstr::F64Ceil),
        body_len(*final(f)) <= body_len(*old(f)) + MAX_INSTR_LEN,
{
    f.instructions().f64_ceil();
}

/// `InstructionSink::f64_floor`: appends `F64Floor` to the body.
#[verifier::external_body]
fn op_f64_floor(f: &mut wasm_encoder::Function)
    ensures
        body_locals(*final(f)) == body_locals(*old(f)),
        body_instrs(*final(f)) == body_instrs(*old(f)).push(WasmInstr::F64Floor),
        body_len(*final(f)) <= body_len(*old(f)) + MAX_INSTR_LEN,
{
    f.instructions().f64_floor();
}

/// `InstructionSink::f64_nearest`: appends `F64Nearest` to the body.
#[verifier::external_body]
fn op_f64_nearest(f: &mut wasm_encoder::Function)
    ensures
        body_locals(*final(f)) == body_locals(*old(f)),
        body_instrs(*final(f)) == body_instrs(*old(f)).push(WasmInstr::F64Nearest),
        body_len(*final(f)) <= body_len(*old(f)) + MAX_INSTR_LEN,
{
    f.instructions().f64_nearest();
}

/// `InstructionSink::f64_sqrt`: appends `F64Sqrt` to the body.
#[verifier::external_body]
fn op_f64_sqrt(f: &mut wasm_encoder::Function)
    ensures
        body_locals(*final(f)) == body_locals(*old(f)),
        body_instrs(*final(f)) == body_instrs(*old(f)).push(WasmInstr::F64Sqrt),
        body_len(*final(f)) <= body_len(*old(f)) + MAX_INSTR_LEN,
{
    f.instructions().f64_sqrt();
}

/// `InstructionSink::f64_add`: appends `F64Add` to the body.
#[verifier::external_body]
fn op_f64_add(f: &mut wasm_encoder::Function)
    ensures
        body_locals(*final(f)) == body_locals(*old(f)),
        body_instrs(*final(f)) == body_instrs(*old(f)).push(WasmInstr::F64Add),
        body_len(*final(f)) <= body_len(*old(f)) + MAX_INSTR_LEN,
{
    f.instructions().f64_add();
}

/// `InstructionSink::f64_sub`: appends `F64Sub` to the body.
#[verifier::external_body]
fn op_f64_sub(f: &mut wasm_encoder::Function)
    ensures
        body_locals(*final(f)) == body_locals(*old(f)),
        body_instrs(*final(f)) == body_instrs(*old(f)).push(WasmInstr::F64Sub),
        body_len(*final(f)) <= body_len(*old(f)) + MAX_INSTR_LEN,
{
    f.instructions().f64_sub();
}

/// `InstructionSink::f64_mul`: appends `F64Mul` to the body.
#[verifier::external_body]
fn op_f64_mul(f: &mut wasm_encoder::Function)
    ensures
        body_locals(*final(f)) == body_locals(*old(f)),
        body_instrs(*final(f)) == body_instrs(*old(f)).push(WasmInstr::F64Mul),
        body_len(*final(f)) <= body_len(*old(f)) + MAX_INSTR_LEN,
{
    f.instructions().f64_mul();
}

/// `InstructionSink::f64_div`: appends `F64Div` to the body.
#[verifier::external_body]
fn op_f64_div(f: &mut wasm_encoder::Function)
    ensures
        body_locals(*final(f)) == body_locals(*old(f)),
        body_instrs(*final(f)) == body_instrs(*old(f)).push(WasmInstr::F64Div),
        body_len(*final(f)) <= body_len(*old(f)) + MAX_INSTR_LEN,
{
    f.instructions().f64_div();
}

/// `InstructionSink::f64_min`: appends `F64Min` to the body.
#[verifier::external_body]
fn op_f64_min(f: &mut wasm_encoder::Function)
    ensures
        body_locals(*final(f)) == body_locals(*old(f)),
        body_instrs(*final(f)) == body_instrs(*old(f)).push(WasmInstr::F64Min),
        body_len(*final(f)) <= body_len(*old(f)) + MAX_INSTR_LEN,
{
    f.instructions().f64_min();
}

/// `InstructionSink::f64_max`: appends `F64Max` to the body.
#[verifier::external_body]
fn op_f64_max(f: &mut wasm_encoder::Function)
    ensures
        body_locals(*final(f)) == body_locals(*old(f)),
        body_instrs(*final(f)) == body_instrs(*old(f)).push(WasmInstr::F64Max),
        body_len(*final(f)) <= body_len(*old(f)) + MAX_INSTR_LEN,
{
    f.instructions().f64_max();
}

/// `InstructionSink::i32_trunc_f64_s`: appends `I32TruncF64S` to the body.
#[verifier::external_body]
fn op_i32_trunc_f64_s(f: &mut wasm_encoder::Function)
    ensures
        body_locals(*final(f)) == body_locals(*old(f)),
        body_instrs(*final(f)) == body_instrs(*old(f)).push(WasmInstr::I32TruncF64S),
        body_len(*final(f)) <= body_len(*old(f)) + MAX_INSTR_LEN,
{
    f.instructions().i32_trunc_f64_s();
}

/// `InstructionSink::f64_convert_i32_s`: appends `F64ConvertI32S` to the body.
#[verifier::external_body]
fn op_f64_convert_i32_s(f: &mut wasm_encoder::Function)
    ensures
        body_locals(*final(f)) == body_locals(*old(f)),
        body_instrs(*final(f)) == body_instrs(*old(f)).push(WasmInstr::F64ConvertI32S),
        body_len(*final(f)) <= body_len(*old(f)) + MAX_INSTR_LEN,
{
    f.instructions().f64_convert_i32_s();
}

/// `InstructionSink::br`: appends `Br` with its immediate to the body.
#[verifier::external_body]
fn op_br(f: &mut wasm_encoder::Function, x: u32)
    ensures
        body_locals(*final(f)) == body_locals(*old(f)),
        body_instrs(*final(f)) == body_instrs(*old(f)).push(WasmInstr::Br(x)),
        body_len(*final(f)) <= body_len(*old(f)) + MAX_INSTR_LEN,
{
    f.instructions().br(x);
}

/// `InstructionSink::br_if`: appends `BrIf` with its immediate to the body.
#[verifier::external_body]
fn op_br_if(f: &mut wasm_encoder::Function, x: u32)
    ensures
        body_locals(*final(f)) == body_locals(*old(f)),
        body_instrs(*final(f)) == body_instrs(*old(f)).push(WasmInstr::BrIf(x)),
        body_len(*final(f)) <= body_len(*old(f)) + MAX_INSTR_LEN,
{
    f.instructions().br_if(x);
}

/// `InstructionSink::call`: appends `Call` with its immediate to the body.
#[verifier::external_body]
fn op_call(f: &mut wasm_encoder::Function, x: u32)
    ensures
        body_locals(*final(f)) == body_locals(*old(f)),
        body_instrs(*final(f)) == body_instrs(*old(f)).push(WasmInstr::Call(x)),
        body_len(*final(f)) <= body_len(*old(f)) + MAX_INSTR_LEN,
{
    f.instructions().call(x);
}

/// `InstructionSink::local_get`: appends `LocalGet` with its immediate to the body.
#[verifier::external_body]
fn op_local_get(f: &mut wasm_encoder::Function, x: u32)
    ensures
        body_locals(*final(f)) == body_locals(*old(f)),
        body_instrs(*final(f)) == body_instrs(*old(f)).push(WasmInstr::LocalGet(x)),
        body_len(*final(f)) <= body_len(*old(f)) + MAX_INSTR_LEN,
{
    f.instructions().local_get(x);
}

/// `InstructionSink::local_set`: appends `LocalSet` with its immediate to the body.
#[verifier::external_body]
fn op_local_set(f: &mut wasm_encoder::Function, x: u32)
    ensures
        body_locals(*final(f)) == body_locals(*old(f)),
        body_instrs(*final(f)) == body_instrs(*old(f)).push(WasmInstr::LocalSet(x)),
        body_len(*final(f)) <= body_len(*old(f)) + MAX_INSTR_LEN,
{
    f.instructions().local_set(x);
}

/// `InstructionSink::local_tee`: appends `LocalTee` with its immediate to the body.
#[verifier::external_body]
fn op_local_tee(f: &mut wasm_encoder::Function, x: u32)
    ensures
        body_locals(*final(f)) == body_locals(*old(f)),
        body_instrs(*final(f)) == body_instrs(*old(f)).push(WasmInstr::LocalTee(x)),
        body_len(*final(f)) <= body_len(*old(f)) + MAX_INSTR_LEN,
{
    f.instructions().local_tee(x);
}

/// `InstructionSink::global_get`: appends `GlobalGet` with its immediate to the body.
#[verifier::external_body]
fn op_global_get(f: &mut wasm_encoder::Function, x: u32)
    ensures
        body_locals(*final(f)) == body_locals(*old(f)),
        body_instrs(*final(f)) == body_instrs(*old(f)).push(WasmInstr::GlobalGet(x)),
        body_len(*final(f)) <= body_len(*old(f)) + MAX_INSTR_LEN,
{
    f.instructions().global_get(x);
}

/// `InstructionSink::global_set`: appends `GlobalSet` with its immediate to the body.
#[verifier::external_body]
fn op_global_set(f: &mut wasm_encoder::Function, x: u32)
    ensures
        body_locals(*final(f)) == body_locals(*old(f)),
        body_instrs(*final(f)) == body_instrs(*old(f)).push(WasmInstr::GlobalSet(x)),
        body_len(*final(f)) <= body_len(*old(f)) + MAX_INSTR_LEN,
{
    f.instructions().global_set(x);
}

/// `InstructionSink::block`: appends `Block` with its block type (empty, or
/// one `f64` result) to the body.
#[verifier::external_body]
fn op_block(f: &mut wasm_encoder::Function, k: BlockKind)
    ensures
        body_locals(*final(f)) == body_locals(*old(f)),
        body_instrs(*final(f)) == body_instrs(*old(f)).push(WasmInstr::Block(k)),
        body_len(*final(f)) <= body_len(*old(f)) + MAX_INSTR_LEN,
{
    f.instructions().block(match k {
        BlockKind::Empty => BlockType::Empty,
        BlockKind::F64 => BlockType::Result(wasm_encoder::ValType::F64),
    });
}

/// `InstructionSink::loop_`: appends `Loop` with its block type (empty, or
/// one `f64` result) to the body.
#[verifier::external_body]
fn op_loop(f: &mut wasm_encoder::Function, k: BlockKind)
    ensures
        body_locals(*final(f)) == body_locals(*old(f)),
        body_instrs(*final(f)) == body_instrs(*old(f)).push(WasmInstr::Loop(k)),
        body_len(*final(f)) <= body_len(*old(f)) + MAX_INSTR_LEN,
{
    f.instructions().loop_(match k {
        BlockKind::Empty => BlockType::Empty,
        BlockKind::F64 => BlockType::Result(wasm_encoder::ValType::F64),
    });
}

/// `InstructionSink::if_`: appends `If` with its block type (empty, or
/// one `f64` result) to the body.
#[verifier::external_body]
fn op_if(f: &mut wasm_encoder::Function, k: BlockKind)
    ensures
        body_locals(*final(f)) == body_locals(*old(f)),
        body_instrs(*final(f)) == body_instrs(*old(f)).push(WasmInstr::If(k)),
        body_len(*final(f)) <= body_len(*old(f)) + MAX_INSTR_LEN,
{
    f.instructions().if_(match k {
        BlockKind::Empty => BlockType::Empty,
        BlockKind::F64 => BlockType::Result(wasm_encoder::ValType::F64),
    });
}

/// `InstructionSink::i32_const`: appends `I32Const` to the body.
#[verifier::external_body]
fn op_i32_const(f: &mut wasm_encoder::Function, x: i32)
    ensures
        body_locals(*final(f)) == body_locals(*old(f)),
        body_instrs(*final(f)) == body_instrs(*old(f)).push(WasmInstr::I32Const(x)),
        body_len(*final(f)) <= body_len(*old(f)) + MAX_INSTR_LEN,
{
    f.instructions().i32_const(x);
}

/// `InstructionSink::f64_const`: appends `F64Const` with the given bit
/// pattern to the body.
#[verifier::external_body]
fn op_f64_const(f: &mut wasm_encoder::Function, bits: u64)
    ensures
        body_locals(*final(f)) == body_locals(*old(f)),
        body_instrs(*final(f)) == body_instrs(*old(f)).push(WasmInstr::F64Const(bits)),
        body_len(*final(f)) <= body_len(*old(f)) + MAX_INSTR_LEN,
{
    f.instructions().f64_const(Ieee64::new(bits));
}

/// Appends one instruction to a function body.
fn emit_instr(f: &mut wasm_encoder::Function, i: WasmInstr)
    ensures
        body_locals(*final(f)) == body_locals(*old(f)),
        body_instrs(*final(f)) == body_instrs(*old(f)).push(i),
        body_len(*final(f)) <= body_len(*old(f)) + MAX_INSTR_LEN,
{
    match i {
        WasmInstr::Unreachable => op_unreachable(f),
        WasmInstr::Else => op_else(f),
        WasmInstr::End => op_end(f),
        WasmInstr::Return => op_return(f),
        WasmInstr::Drop => op_drop(f),
        WasmInstr::I32Eqz => op_i32_eqz(f),
        WasmInstr::F64Lt => op_f64_lt(f),
        WasmInstr::F64Gt => op_f64_gt(f),
        WasmInstr::F64Le => op_f64_le(f),
        WasmInstr::F64Ge => op_f64_ge(f),
        WasmInstr::I32Xor => op_i32_xor(f),
        WasmInstr::F64Abs => op_f64_abs(f),
        WasmInstr::F64Neg => op_f64_neg(f),
        WasmInstr::F64Ceil => op_f64_ceil(f),
        WasmInstr::F64Floor => op_f64_floor(f),
        WasmInstr::F64Nearest => op_f64_nearest(f),
        WasmInstr::F64Sqrt => op_f64_sqrt(f),
        WasmInstr::F64Add => op_f64_add(f),
        WasmInstr::F64Sub => op_f64_sub(f),
        WasmInstr::F64Mul => op_f64_mul(f),
        WasmInstr::F64Div => op_f64_div(f),
        WasmInstr::F64Min => op_f64_min(f),
        WasmInstr::F64Max => op_f64_max(f),
        WasmInstr::I32TruncF64S => op_i32_trunc_f64_s(f),
        WasmInstr::F64ConvertI32S => op_f64_convert_i32_s(f),
        WasmInstr::Br(x) => op_br(f, x),
        WasmInstr::BrIf(x) => op_br_if(f, x),
        WasmInstr::Call(x) => op_call(f, x),
        WasmInstr::LocalGet(x) => op_local_get(f, x),
        WasmInstr::LocalSet(x) => op_local_set(f, x),
        WasmInstr::LocalTee(x) => op_local_tee(f, x),
        WasmInstr::GlobalGet(x) => op_global_get(f, x),
        WasmInstr::GlobalSet(x) => op_global_set(f, x),
        WasmInstr::Block(k) => op_block(f, k),
        WasmInstr::Loop(k) => op_loop(f, k),
        WasmInstr::If(k) => op_if(f, k),
        WasmInstr::I32Const(x) => op_i32_const(f, x),
        WasmInstr::F64Const(bits) => op_f64_const(f, bits),
    }
}

/// The sections a plan encodes, by their entries.
pub struct ModuleView {
    pub types: Seq<(Seq<ValType>, Seq<ValType>)>,
    pub imports: Seq<(Seq<char>, Seq<char>, u32)>,
    pub functions: Seq<u32>,
    pub memory_pages: u64,
    pub num_globals: u32,
    pub exports: Seq<(Seq<char>, ExportKind, u32)>,
    pub data_count: bool,
    pub code: Seq<(Seq<(u32, ValType)>, Seq<WasmInstr>)>,
    pub data: Seq<u8>,
}

pub open spec fn import_view(i: WasmImport) -> (Seq<char>, Seq<char>, u32) {
    (i.module@, i.name@, i.type_idx)
}

pub open spec fn export_view(e: WasmExport) -> (Seq<char>, ExportKind, u32) {
    (e.name@, e.kind, e.index)
}

pub open spec fn body_view(b: FunctionBody) -> (Seq<(u32, ValType)>, Seq<WasmInstr>) {
    (b.locals@, b.instrs@)
}

/// The entries of each section of a plan.
pub open spec fn plan_view(plan: WasmModulePlan) -> ModuleView {
    ModuleView {
        types: plan.types@.map_values(|t: FuncType| sig_of(t)),
        imports: plan.imports@.map_values(|i: WasmImport| import_view(i)),
        functions: plan.functions@,
        memory_pages: plan.memory_pages,
        num_globals: plan.num_globals,
        exports: plan.exports@.map_values(|e: WasmExport| export_view(e)),
        data_count: plan.data_count,
        code: plan.code@.map_values(|b: FunctionBody| body_view(b)),
        data: plan.data@,
    }
}

/// The single memory: its minimum, no maximum, 32-bit, unshared, default
/// pages.
pub open spec fn memory_decls(pages: u64) -> Seq<(u64, Option<u64>, bool, bool, Option<u32>)> {
    seq![(pages, None, false, false, None)]
}

/// The globals: mutable, unshared `f64`s holding `undefined`.
pub open spec fn global_decls(n: u32) -> Seq<(ValType, bool, bool, u64)> {
    Seq::new(n as nat, |i: int| (ValType::F64, true, false, TAG_UNDEFINED))
}

/// One active segment at offset 0 of memory 0.
pub open spec fn data_segments(data: Seq<u8>) -> Seq<(u32, i32, Seq<u8>)> {
    seq![(0u32, 0i32, data)]
}

/// The binary of a module: the header, then the sections in the order the
/// format requires (globals only when there are some; the data count and
/// the data only with data).
pub open spec fn module_binary(v: ModuleView) -> Seq<u8> {
    wasm_header() + seq![1u8] + type_section_encoding(v.types) + seq![2u8] + import_section_encoding(
        v.imports,
    ) + seq![3u8] + function_section_encoding(v.functions) + seq![5u8] + memory_section_encoding(
        memory_decls(v.memory_pages),
    ) + (if v.num_globals > 0 {
        seq![6u8] + global_section_encoding(global_decls(v.num_globals))
    } else {
        Seq::empty()
    }) + seq![7u8] + export_section_encoding(v.exports) + (if v.data_count {
        seq![12u8] + data_count_contents(1)
    } else {
        Seq::empty()
    }) + seq![10u8] + code_section_encoding(v.code) + (if v.data.len() > 0 {
        seq![11u8] + data_section_encoding(data_segments(v.data))
    } else {
        Seq::empty()
    })
}

/// The sum of sizes.
pub open spec fn total(sizes: Seq<nat>) -> nat
    decreases sizes.len(),
{
    if sizes.len() == 0 {
        0
    } else {
        total(sizes.drop_last()) + sizes.last()
    }
}

/// A size that cannot fit in any section.
pub open spec fn too_big() -> nat {
    (MAX_PAYLOAD + 1) as nat
}

/// The most bytes a type entry takes.
pub open spec fn type_cost(t: (Seq<ValType>, Seq<ValType>)) -> nat {
    if t.0.len() > u32::MAX || t.1.len() > u32::MAX {
        too_big()
    } else {
        11 + t.0.len() + t.1.len()
    }
}

/// The most bytes an import entry takes.
pub open spec fn import_cost(i: (Seq<char>, Seq<char>, u32)) -> nat {
    if 4 * i.0.len() > u32::MAX || 4 * i.1.len() > u32::MAX {
        too_big()
    } else {
        16 + 4 * i.0.len() + 4 * i.1.len()
    }
}

/// The most bytes an export entry takes.
pub open spec fn export_cost(e: (Seq<char>, ExportKind, u32)) -> nat {
    if 4 * e.0.len() > u32::MAX {
        too_big()
    } else {
        11 + 4 * e.0.len()
    }
}

/// The most bytes a function body takes.
pub open spec fn body_cost(b: (Seq<(u32, ValType)>, Seq<WasmInstr>)) -> nat {
    (5 + 6 * b.0.len() + MAX_INSTR_LEN * b.1.len()) as nat
}

/// The most bytes a code entry takes: the body and its size.
pub open spec fn code_cost(b: (Seq<(u32, ValType)>, Seq<WasmInstr>)) -> nat {
    if b.0.len() > u32::MAX || body_cost(b) > u32::MAX {
        too_big()
    } else {
        5 + body_cost(b)
    }
}

/// The most bytes the data segment takes.
pub open spec fn data_cost(data: Seq<u8>) -> nat {
    if data.len() > u32::MAX {
        too_big()
    } else {
        18 + data.len()
    }
}

/// Whether every section of the module stays within what the encoder can
/// write: at most `u32::MAX` entries, and sizes that fit in a `u32`.
pub open spec fn view_fits(v: ModuleView) -> bool {
    &&& v.types.len() <= u32::MAX
    &&& total(v.types.map_values(|t: (Seq<ValType>, Seq<ValType>)| type_cost(t))) <= MAX_PAYLOAD
    &&& v.imports.len() <= u32::MAX
    &&& total(v.imports.map_values(|i: (Seq<char>, Seq<char>, u32)| import_cost(i))) <= MAX_PAYLOAD
    &&& v.functions.len() <= u32::MAX
    &&& 5 * v.functions.len() <= MAX_PAYLOAD
    &&& 12 * v.num_globals <= MAX_PAYLOAD
    &&& v.exports.len() <= u32::MAX
    &&& total(v.exports.map_values(|e: (Seq<char>, ExportKind, u32)| export_cost(e))) <= MAX_PAYLOAD
    &&& v.code.len() <= u32::MAX
    &&& total(v.code.map_values(|b: (Seq<(u32, ValType)>, Seq<WasmInstr>)| code_cost(b))) <= MAX_PAYLOAD
    &&& data_cost(v.data) <= MAX_PAYLOAD
}

proof fn lemma_total_step(sizes: Seq<nat>, i: int)
    requires
        0 <= i < sizes.len(),
    ensures
        total(sizes.take(i + 1)) == total(sizes.take(i)) + sizes[i],
{
    assert(sizes.take(i + 1).drop_last() =~= sizes.take(i));
}

proof fn lemma_total_prefix(sizes: Seq<nat>, i: int)
    requires
        0 <= i <= sizes.len(),
    ensures
        total(sizes.take(i)) <= total(sizes),
    decreases sizes.len() - i,
{
    if i == sizes.len() {
        assert(sizes.take(i) =~= sizes);
    } else {
        lemma_total_step(sizes, i);
        lemma_total_prefix(sizes, i + 1);
    }
}

/// Whether sizes add up to at most `limit`.
fn within(sizes: &Vec<u64>, limit: u64) -> (b: bool)
    ensures
        b == (total(sizes@.map_values(|c: u64| c as nat)) <= limit),
{
    let ghost s = sizes@.map_values(|c: u64| c as nat);
    let n = sizes.len();
    let mut acc: u64 = 0;
    let mut i: usize = 0;
    while i < n
        invariant
            n == sizes@.len(),
            s == sizes@.map_values(|c: u64| c as nat),
            i <= n,
            acc == total(s.take(i as int)),
            acc <= limit,
        decreases n - i,
    {
        proof {
            lemma_total_step(s, i as int);
        }
        if sizes[i] > limit - acc {
            proof {
                lemma_total_prefix(s, i + 1);
            }
            return false;
        }
        acc = acc + sizes[i];
        i = i + 1;
    }
    assert(s.take(n as int) =~= s);
    true
}

/// The type section of the types.
fn types_section(types: &Vec<FuncType>) -> (s: TypeSection)
    requires
        types@.len() <= u32::MAX,
        total(types@.map_values(|t: FuncType| sig_of(t)).map_values(
            |t: (Seq<ValType>, Seq<ValType>)| type_cost(t),
        )) <= MAX_PAYLOAD,
    ensures
        type_entries(s) == types@.map_values(|t: FuncType| sig_of(t)),
        type_payload_len(s) <= MAX_PAYLOAD,
{
    let ghost v = types@.map_values(|t: FuncType| sig_of(t));
    let ghost c = v.map_values(|t: (Seq<ValType>, Seq<ValType>)| type_cost(t));
    let mut s = type_section_new();
    let n = types.len();
    let mut i: usize = 0;
    while i < n
        invariant
            n == types@.len() <= u32::MAX,
            v == types@.map_values(|t: FuncType| sig_of(t)),
            c == v.map_values(|t: (Seq<ValType>, Seq<ValType>)| type_cost(t)),
            total(c) <= MAX_PAYLOAD,
            i <= n,
            type_entries(s) == v.take(i as int),
            type_payload_len(s) <= total(c.take(i as int)),
        decreases n - i,
    {
        proof {
            lemma_total_step(c, i as int);
            lemma_total_prefix(c, i + 1);
        }
        type_section_add(&mut s, &types[i].params, &types[i].results);
        assert(v.take(i + 1) =~= v.take(i as int).push(v[i as int]));
        i = i + 1;
    }
    assert(v.take(n as int) =~= v);
    assert(c.take(n as int) =~= c);
    s
}

/// The import section of the imports.
fn imports_section(imports: &Vec<WasmImport>) -> (s: ImportSection)
    requires
        imports@.len() <= u32::MAX,
        total(imports@.map_values(|i: WasmImport| import_view(i)).map_values(
            |i: (Seq<char>, Seq<char>, u32)| import_cost(i),
        )) <= MAX_PAYLOAD,
    ensures
        import_entries(s) == imports@.map_values(|i: WasmImport| import_view(i)),
        import_payload_len(s) <= MAX_PAYLOAD,
{
    let ghost v = imports@.map_values(|i: WasmImport| import_view(i));
    let ghost c = v.map_values(|i: (Seq<char>, Seq<char>, u32)| import_cost(i));
    let mut s = import_section_new();
    let n = imports.len();
    let mut i: usize = 0;
    while i < n
        invariant
            n == imports@.len() <= u32::MAX,
            v == imports@.map_values(|i: WasmImport| import_view(i)),
            c == v.map_values(|i: (Seq<char>, Seq<char>, u32)| import_cost(i)),
            total(c) <= MAX_PAYLOAD,
            i <= n,
            import_entries(s) == v.take(i as int),
            import_payload_len(s) <= total(c.take(i as int)),
        decreases n - i,
    {
        proof {
            lemma_total_step(c, i as int);
            lemma_total_prefix(c, i + 1);
        }
        import_section_add(&mut s, imports[i].module, imports[i].name, imports[i].type_idx);
        assert(v.take(i + 1) =~= v.take(i as int).push(v[i as int]));
        i = i + 1;
    }
    assert(v.take(n as int) =~= v);
    assert(c.take(n as int) =~= c);
    s
}

/// The function section of the type indices.
fn functions_section(functions: &Vec<u32>) -> (s: FunctionSection)
    requires
        functions@.len() <= u32::MAX,
        5 * functions@.len() <= MAX_PAYLOAD,
    ensures
        function_entries(s) == functions@,
        function_payload_len(s) <= MAX_PAYLOAD,
{
    let mut s = function_section_new();
    let n = functions.len();
    let mut i: usize = 0;
    while i < n
        invariant
            n == functions@.len() <= u32::MAX,
            5 * n <= MAX_PAYLOAD,
            i <= n,
            function_entries(s) == functions@.take(i as int),
            function_payload_len(s) <= 5 * i,
        decreases n - i,
    {
        function_section_add(&mut s, functions[i]);
        assert(functions@.take(i + 1) =~= functions@.take(i as int).push(functions@[i as int]));
        i = i + 1;
    }
    assert(functions@.take(n as int) =~= functions@);
    s
}

/// The global section: `n` mutable `f64` globals holding `undefined`.
fn globals_section(n: u32) -> (s: GlobalSection)
    requires
        12 * n <= MAX_PAYLOAD,
    ensures
        global_entries(s) == global_decls(n),
        global_payload_len(s) <= MAX_PAYLOAD,
{
    let mut s = global_section_new();
    let mut i: u32 = 0;
    while i < n
        invariant
            12 * n <= MAX_PAYLOAD,
            i <= n,
            global_entries(s) == global_decls(i),
            global_payload_len(s) <= 12 * i,
        decreases n - i,
    {
        global_section_add(&mut s, ValType::F64, true, false, TAG_UNDEFINED);
        assert(global_decls((i + 1) as u32) =~= global_decls(i).push((ValType::F64, true, false, TAG_UNDEFINED)));
        i = i + 1;
    }
    s
}

/// The export section of the exports.
fn exports_section(exports: &Vec<WasmExport>) -> (s: ExportSection)
    requires
        exports@.len() <= u32::MAX,
        total(exports@.map_values(|e: WasmExport| export_view(e)).map_values(
            |e: (Seq<char>, ExportKind, u32)| export_cost(e),
        )) <= MAX_PAYLOAD,
    ensures
        export_entries(s) == exports@.map_values(|e: WasmExport| export_view(e)),
        export_payload_len(s) <= MAX_PAYLOAD,
{
    let ghost v = exports@.map_values(|e: WasmExport| export_view(e));
    let ghost c = v.map_values(|e: (Seq<char>, ExportKind, u32)| export_cost(e));
    let mut s = export_section_new();
    let n = exports.len();
    let mut i: usize = 0;
    while i < n
        invariant
            n == exports@.len() <= u32::MAX,
            v == exports@.map_values(|e: WasmExport| export_view(e)),
            c == v.map_values(|e: (Seq<char>, ExportKind, u32)| export_cost(e)),
            total(c) <= MAX_PAYLOAD,
            i <= n,
            export_entries(s) == v.take(i as int),
            export_payload_len(s) <= total(c.take(i as int)),
        decreases n - i,
    {
        proof {
            lemma_total_step(c, i as int);
            lemma_total_prefix(c, i + 1);
        }
        export_section_add(&mut s, exports[i].name, exports[i].kind, exports[i].index);
        assert(v.take(i + 1) =~= v.take(i as int).push(v[i as int]));
        i = i + 1;
    }
    assert(v.take(n as int) =~= v);
    assert(c.take(n as int) =~= c);
    s
}

/// A function body with its locals and instructions.
fn function_of(body: &FunctionBody) -> (f: wasm_encoder::Function)
    requires
        body.locals@.len() <= u32::MAX,
        body_cost(body_view(*body)) <= u32::MAX,
    ensures
        body_locals(f) == body.locals@,
        body_instrs(f) == body.instrs@,
        body_len(f) <= body_cost(body_view(*body)),
{
    let mut f = function_new(&body.locals);
    let n = body.instrs.len();
    let mut i: usize = 0;
    while i < n
        invariant
            n == body.instrs@.len(),
            i <= n,
            body_locals(f) == body.locals@,
            body_instrs(f) == body.instrs@.take(i as int),
            body_len(f) <= 5 + 6 * body.locals@.len() + MAX_INSTR_LEN * i,
        decreases n - i,
    {
        emit_instr(&mut f, body.instrs[i]);
        assert(body.instrs@.take(i + 1) =~= body.instrs@.take(i as int).push(body.instrs@[i as int]));
        i = i + 1;
    }
    assert(body.instrs@.take(n as int) =~= body.instrs@);
    f
}

/// The code section of the bodies.
fn code_section(code: &Vec<FunctionBody>) -> (s: CodeSection)
    requires
        code@.len() <= u32::MAX,
        total(code@.map_values(|b: FunctionBody| body_view(b)).map_values(
            |b: (Seq<(u32, ValType)>, Seq<WasmInstr>)| code_cost(b),
        )) <= MAX_PAYLOAD,
    ensures
        code_entries(s) == code@.map_values(|b: FunctionBody| body_view(b)),
        code_payload_len(s) <= MAX_PAYLOAD,
{
    let ghost v = code@.map_values(|b: FunctionBody| body_view(b));
    let ghost c = v.map_values(|b: (Seq<(u32, ValType)>, Seq<WasmInstr>)| code_cost(b));
    let mut s = code_section_new();
    let n = code.len();
    let mut i: usize = 0;
    while i < n
        invariant
            n == code@.len() <= u32::MAX,
            v == code@.map_values(|b: FunctionBody| body_view(b)),
            c == v.map_values(|b: (Seq<(u32, ValType)>, Seq<WasmInstr>)| code_cost(b)),
            total(c) <= MAX_PAYLOAD,
            i <= n,
            code_entries(s) == v.take(i as int),
            code_payload_len(s) <= total(c.take(i as int)),
        decreases n - i,
    {
        proof {
            lemma_total_step(c, i as int);
            lemma_total_prefix(c, i + 1);
        }
        let f = function_of(&code[i]);
        code_section_add(&mut s, &f);
        assert(v.take(i + 1) =~= v.take(i as int).push(v[i as int]));
        i = i + 1;
    }
    assert(v.take(n as int) =~= v);
    assert(c.take(n as int) =~= c);
    s
}

/// Writes the module of a plan with `wasm-encoder`.
pub fn encode_plan(plan: &WasmModulePlan) -> (bytes: Vec<u8>)
    requires
        view_fits(plan_view(*plan)),
    ensures
        bytes@ == module_binary(plan_view(*plan)),
{
    let ghost v = plan_view(*plan);
    let mut m = module_new();
    let ts = types_section(&plan.types);
    module_add_types(&mut m, &ts);
    let is = imports_section(&plan.imports);
    module_add_imports(&mut m, &is);
    let fs = functions_section(&plan.functions);
    module_add_functions(&mut m, &fs);
    let mut mem = memory_section_new();
    memory_section_add(&mut mem, plan.memory_pages, None, false, false, None);
    module_add_memories(&mut m, &mem);
    let ghost after_memory = module_bytes(m);
    if plan.num_globals > 0 {
        let gs = globals_section(plan.num_globals);
        module_add_globals(&mut m, &gs);
    }
    let es = exports_section(&plan.exports);
    module_add_exports(&mut m, &es);
    let ghost after_exports = module_bytes(m);
    if plan.data_count {
        module_add_data_count(&mut m, 1);
    }
    let cs = code_section(&plan.code);
    module_add_code(&mut m, &cs);
    let ghost after_code = module_bytes(m);
    if plan.data.len() > 0 {
        let mut ds = data_section_new();
        data_section_add_active(&mut ds, 0, 0, &plan.data);
        module_add_data(&mut m, &ds);
    }
    let bytes = module_finish(m);
    assert(memory_entries(mem) =~= memory_decls(v.memory_pages));
    assert(bytes@ =~= module_binary(v));
    bytes
}

proof fn lemma_costs_step(c: Seq<u64>, x: u64)
    ensures
        c.push(x).map_values(|v: u64| v as nat) == c.map_values(|v: u64| v as nat).push(x as nat),
{
    assert(c.push(x).map_values(|v: u64| v as nat) =~= c.map_values(|v: u64| v as nat).push(x as nat));
}

/// Whether the type entries fit.
fn types_fit(types: &Vec<FuncType>) -> (b: bool)
    ensures
        b == (total(types@.map_values(|t: FuncType| sig_of(t)).map_values(
            |t: (Seq<ValType>, Seq<ValType>)| type_cost(t),
        )) <= MAX_PAYLOAD),
{
    let ghost c = types@.map_values(|t: FuncType| sig_of(t)).map_values(
        |t: (Seq<ValType>, Seq<ValType>)| type_cost(t),
    );
    let mut costs: Vec<u64> = Vec::new();
    let n = types.len();
    let mut i: usize = 0;
    while i < n
        invariant
            n == types@.len(),
            c == types@.map_values(|t: FuncType| sig_of(t)).map_values(
                |t: (Seq<ValType>, Seq<ValType>)| type_cost(t),
            ),
            i <= n,
            costs@.map_values(|v: u64| v as nat) == c.take(i as int),
        decreases n - i,
    {
        let p = types[i].params.len();
        let r = types[i].results.len();
        let cost: u64 = if p > 0xFFFF_FFFF || r > 0xFFFF_FFFF {
            MAX_PAYLOAD + 1
        } else {
            11 + p as u64 + r as u64
        };
        proof {
            lemma_costs_step(costs@, cost);
        }
        costs.push(cost);
        assert(c.take(i + 1) =~= c.take(i as int).push(c[i as int]));
        i = i + 1;
    }
    assert(c.take(n as int) =~= c);
    within(&costs, MAX_PAYLOAD)
}

/// Whether the import entries fit.
fn imports_fit(imports: &Vec<WasmImport>) -> (b: bool)
    ensures
        b == (total(imports@.map_values(|i: WasmImport| import_view(i)).map_values(
            |i: (Seq<char>, Seq<char>, u32)| import_cost(i),
        )) <= MAX_PAYLOAD),
{
    let ghost c = imports@.map_values(|i: WasmImport| import_view(i)).map_values(
        |i: (Seq<char>, Seq<char>, u32)| import_cost(i),
    );
    let mut costs: Vec<u64> = Vec::new();
    let n = imports.len();
    let mut i: usize = 0;
    while i < n
        invariant
            n == imports@.len(),
            c == imports@.map_values(|i: WasmImport| import_view(i)).map_values(
                |i: (Seq<char>, Seq<char>, u32)| import_cost(i),
            ),
            i <= n,
            costs@.map_values(|v: u64| v as nat) == c.take(i as int),
        decreases n - i,
    {
        let a = imports[i].module.unicode_len();
        let b = imports[i].name.unicode_len();
        let cost: u64 = if a > 0x3FFF_FFFF || b > 0x3FFF_FFFF {
            MAX_PAYLOAD + 1
        } else {
            16 + 4 * (a as u64) + 4 * (b as u64)
        };
        proof {
            lemma_costs_step(costs@, cost);
        }
        costs.push(cost);
        assert(c.take(i + 1) =~= c.take(i as int).push(c[i as int]));
        i = i + 1;
    }
    assert(c.take(n as int) =~= c);
    within(&costs, MAX_PAYLOAD)
}

/// Whether the export entries fit.
fn exports_fit(exports: &Vec<WasmExport>) -> (b: bool)
    ensures
        b == (total(exports@.map_values(|e: WasmExport| export_view(e)).map_values(
            |e: (Seq<char>, ExportKind, u32)| export_cost(e),
        )) <= MAX_PAYLOAD),
{
    let ghost c = exports@.map_values(|e: WasmExport| export_view(e)).map_values(
        |e: (Seq<char>, ExportKind, u32)| export_cost(e),
    );
    let mut costs: Vec<u64> = Vec::new();
    let n = exports.len();
    let mut i: usize = 0;
    while i < n
        invariant
            n == exports@.len(),
            c == exports@.map_values(|e: WasmExport| export_view(e)).map_values(
                |e: (Seq<char>, ExportKind, u32)| export_cost(e),
            ),
            i <= n,
            costs@.map_values(|v: u64| v as nat) == c.take(i as int),
        decreases n - i,
    {
        let a = exports[i].name.unicode_len();
        let cost: u64 = if a > 0x3FFF_FFFF { MAX_PAYLOAD + 1 } else { 11 + 4 * (a as u64) };
        proof {
            lemma_costs_step(costs@, cost);
        }
        costs.push(cost);
        assert(c.take(i + 1) =~= c.take(i as int).push(c[i as int]));
        i = i + 1;
    }
    assert(c.take(n as int) =~= c);
    within(&costs, MAX_PAYLOAD)
}

/// Whether the function bodies fit.
fn code_fits(code: &Vec<FunctionBody>) -> (b: bool)
    ensures
        b == (total(code@.map_values(|b: FunctionBody| body_view(b)).map_values(
            |b: (Seq<(u32, ValType)>, Seq<WasmInstr>)| code_cost(b),
        )) <= MAX_PAYLOAD),
{
    let ghost c = code@.map_values(|b: FunctionBody| body_view(b)).map_values(
        |b: (Seq<(u32, ValType)>, Seq<WasmInstr>)| code_cost(b),
    );
    let mut costs: Vec<u64> = Vec::new();
    let n = code.len();
    let mut i: usize = 0;
    while i < n
        invariant
            n == code@.len(),
            c == code@.map_values(|b: FunctionBody| body_view(b)).map_values(
                |b: (Seq<(u32, ValType)>, Seq<WasmInstr>)| code_cost(b),
            ),
            i <= n,
            costs@.map_values(|v: u64| v as nat) == c.take(i as int),
        decreases n - i,
    {
        let l = code[i].locals.len();
        let k = code[i].instrs.len();
        let cost: u64 = if l > 0xFFFF_FFFF || k > 0xFFFF_FFFF {
            MAX_PAYLOAD + 1
        } else {
            let body = 5 + 6 * (l as u64) + MAX_INSTR_LEN * (k as u64);
            if body > 0xFFFF_FFFF {
                MAX_PAYLOAD + 1
            } else {
                5 + body
            }
        };
        proof {
            lemma_costs_step(costs@, cost);
        }
        costs.push(cost);
        assert(c.take(i + 1) =~= c.take(i as int).push(c[i as int]));
        i = i + 1;
    }
    assert(c.take(n as int) =~= c);
    within(&costs, MAX_PAYLOAD)
}

/// Whether `encode_plan` can write the plan: every section within what the
/// encoder accepts.
pub fn plan_fits(plan: &WasmModulePlan) -> (b: bool)
    ensures
        b == view_fits(plan_view(*plan)),
{
    let n_types = plan.types.len();
    let n_imports = plan.imports.len();
    let n_functions = plan.functions.len();
    let n_exports = plan.exports.len();
    let n_code = plan.code.len();
    let n_data = plan.data.len();
    if n_types > 0xFFFF_FFFF || n_imports > 0xFFFF_FFFF || n_functions > 0xFFFF_FFFF
        || n_exports > 0xFFFF_FFFF || n_code > 0xFFFF_FFFF || n_data > 0xFFFF_FFFF {
        return false;
    }
    if 5 * (n_functions as u64) > MAX_PAYLOAD || 12 * (plan.num_globals as u64) > MAX_PAYLOAD
        || 18 + (n_data as u64) > MAX_PAYLOAD {
        return false;
    }
    types_fit(&plan.types) && imports_fit(&plan.imports) && exports_fit(&plan.exports) && code_fits(
        &plan.code,
    )
}

} // verus!
