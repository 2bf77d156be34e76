//! Symbols: NaN-boxed pointers to a `SymbolHeader`, the `Symbol.for`
//! registry, and the side table of symbol-keyed object properties.
//!
//! Values are handled as the 64 bits of their NaN-boxed double; heap
//! objects by their address. Reading a header out of memory is the
//! caller's part: the functions here decide on the header it read.

use vstd::prelude::*;
use vstd::string::*;
use std::collections::HashMap;
use crate::llvm_function::push_str;

verus! {

/// NaN-box of `undefined`.
pub const TAG_UNDEFINED: u64 = 0x7FFC_0000_0000_0001;

/// Tag of a boxed object pointer.
pub const POINTER_TAG: u64 = 0x7FFD_0000_0000_0000;

/// Tag of a boxed string pointer.
pub const STRING_TAG: u64 = 0x7FFF_0000_0000_0000;

/// The address bits of a boxed pointer.
pub const POINTER_MASK: u64 = 0x0000_FFFF_FFFF_FFFF;

/// The tag bits of a boxed value.
pub const TAG_MASK: u64 = 0xFFFF_0000_0000_0000;

/// Addresses below this are never valid heap objects.
pub const MIN_HEAP_ADDRESS: u64 = 0x1000;

/// Marks a `SymbolHeader` ("SYMB").
pub const SYMBOL_MAGIC: u32 = 0x5359_4D42;

/// The header of a symbol object.
#[derive(Clone, Copy)]
pub struct SymbolHeader {
    /// Always `SYMBOL_MAGIC`.
    pub magic: u32,
    /// Non-zero when the symbol is in the `Symbol.for` registry; its
    /// description is then its registry key.
    pub registered: u32,
    /// Address of the description string, or 0 for `Symbol()`.
    pub description: u64,
    /// Unique id; two symbols are equal when their ids are.
    pub id: u64,
}

/// Returns the current id and advances the counter (wrapping around).
pub fn next_id(counter: &mut u64) -> (id: u64)
    ensures
        id == *old(counter),
        *final(counter) == old(counter).wrapping_add(1),
{
    let v = *counter;
    *counter = v.wrapping_add(1);
    v
}

/// A fresh symbol header with the given description and id.
pub fn new_symbol_header(description: u64, registered: bool, id: u64) -> (h: SymbolHeader)
    ensures
        h.magic == SYMBOL_MAGIC,
        h.registered == (if registered { 1u32 } else { 0u32 }),
        h.description == description,
        h.id == id,
{
    SymbolHeader { magic: SYMBOL_MAGIC, registered: if registered { 1 } else { 0 }, description, id }
}

/// An object address boxed as a pointer value.
pub open spec fn box_pointer_spec(addr: u64) -> u64 {
    POINTER_TAG | (addr & POINTER_MASK)
}

pub fn box_pointer(addr: u64) -> (bits: u64)
    ensures
        bits == box_pointer_spec(addr),
{
    POINTER_TAG | (addr & POINTER_MASK)
}

/// A string address boxed as a string value.
pub open spec fn box_string_spec(addr: u64) -> u64 {
    STRING_TAG | (addr & POINTER_MASK)
}

pub fn box_string(addr: u64) -> (bits: u64)
    ensures
        bits == box_string_spec(addr),
{
    STRING_TAG | (addr & POINTER_MASK)
}

/// The address of a pointer value that may hold a heap object: tagged as a
/// pointer, and not below the first heap address.
pub open spec fn heap_pointer_spec(bits: u64) -> Option<u64> {
    if bits & TAG_MASK == POINTER_TAG && (bits & POINTER_MASK) >= MIN_HEAP_ADDRESS {
        Some(bits & POINTER_MASK)
    } else {
        None
    }
}

/// Where to look for a symbol header in a value, if anywhere.
pub fn heap_pointer(bits: u64) -> (addr: Option<u64>)
    ensures
        addr == heap_pointer_spec(bits),
{
    if bits & TAG_MASK == POINTER_TAG && (bits & POINTER_MASK) >= MIN_HEAP_ADDRESS {
        Some(bits & POINTER_MASK)
    } else {
        None
    }
}

/// Whether a value is a symbol, given the header read at its address (if
/// it has one): its magic must be `SYMBOL_MAGIC`.
pub fn is_symbol(bits: u64, header: Option<SymbolHeader>) -> (b: bool)
    ensures
        b == (heap_pointer_spec(bits) is Some && (header matches Some(h) && h.magic == SYMBOL_MAGIC)),
{
    match heap_pointer(bits) {
        Some(_) => match header {
            Some(h) => h.magic == SYMBOL_MAGIC,
            None => false,
        },
        None => false,
    }
}

/// The description address of `Symbol(description)`: a boxed string's
/// address, none for `undefined`, a raw address taken as it is, else none.
pub open spec fn description_address_spec(bits: u64) -> u64 {
    if bits & TAG_MASK == STRING_TAG {
        bits & POINTER_MASK
    } else if bits == TAG_UNDEFINED {
        0
    } else if MIN_HEAP_ADDRESS <= bits && bits < POINTER_MASK {
        bits
    } else {
        0
    }
}

pub fn description_address(bits: u64) -> (addr: u64)
    ensures
        addr == description_address_spec(bits),
{
    if bits & TAG_MASK == STRING_TAG {
        bits & POINTER_MASK
    } else if bits == TAG_UNDEFINED {
        0
    } else if MIN_HEAP_ADDRESS <= bits && bits < POINTER_MASK {
        bits
    } else {
        0
    }
}

/// The key address of `Symbol.for(key)`: a boxed string's address or a raw
/// address; other values have no key.
pub open spec fn registry_key_address_spec(bits: u64) -> Option<u64> {
    if bits & TAG_MASK == STRING_TAG {
        Some(bits & POINTER_MASK)
    } else if MIN_HEAP_ADDRESS <= bits && bits < POINTER_MASK {
        Some(bits)
    } else {
        None
    }
}

pub fn registry_key_address(bits: u64) -> (addr: Option<u64>)
    ensures
        addr == registry_key_address_spec(bits),
{
    if bits & TAG_MASK == STRING_TAG {
        Some(bits & POINTER_MASK)
    } else if MIN_HEAP_ADDRESS <= bits && bits < POINTER_MASK {
        Some(bits)
    } else {
        None
    }
}

/// `Symbol.keyFor(sym)`: the key of a registered symbol as a boxed string,
/// else `undefined`.
pub open spec fn key_for_spec(bits: u64, header: Option<SymbolHeader>) -> u64 {
    match header {
        Some(h) => if heap_pointer_spec(bits) is Some && h.magic == SYMBOL_MAGIC && h.registered != 0
            && h.description != 0 {
            box_string_spec(h.description)
        } else {
            TAG_UNDEFINED
        },
        None => TAG_UNDEFINED,
    }
}

pub fn symbol_key_for(bits: u64, header: Option<SymbolHeader>) -> (r: u64)
    ensures
        r == key_for_spec(bits, header),
{
    match header {
        Some(h) => {
            if heap_pointer(bits).is_some() && h.magic == SYMBOL_MAGIC && h.registered != 0
                && h.description != 0 {
                box_string(h.description)
            } else {
                TAG_UNDEFINED
            }
        },
        None => TAG_UNDEFINED,
    }
}

/// `sym.description`: the description as a boxed string, else `undefined`.
pub open spec fn description_spec(bits: u64, header: Option<SymbolHeader>) -> u64 {
    match header {
        Some(h) => if heap_pointer_spec(bits) is Some && h.magic == SYMBOL_MAGIC && h.description != 0 {
            box_string_spec(h.description)
        } else {
            TAG_UNDEFINED
        },
        None => TAG_UNDEFINED,
    }
}

pub fn symbol_description(bits: u64, header: Option<SymbolHeader>) -> (r: u64)
    ensures
        r == description_spec(bits, header),
{
    match header {
        Some(h) => {
            if heap_pointer(bits).is_some() && h.magic == SYMBOL_MAGIC && h.description != 0 {
                box_string(h.description)
            } else {
                TAG_UNDEFINED
            }
        },
        None => TAG_UNDEFINED,
    }
}

/// `sym.toString()`: `Symbol(<description>)`.
pub fn symbol_to_string(description: &str) -> (s: String)
    ensures
        s@ == "Symbol("@ + description@ + ")"@,
{
    let mut s = String::new();
    push_str(&mut s, "Symbol(");
    push_str(&mut s, description);
    push_str(&mut s, ")");
    s
}

/// The text of `String(value)` for a value that should be a symbol:
/// `Symbol(<description>)` for a symbol, whose description text (empty
/// when it has none) the caller read; `Symbol()` for anything else.
pub open spec fn symbol_text_spec(bits: u64, header: Option<SymbolHeader>, description: Seq<char>) -> Seq<
    char,
> {
    if heap_pointer_spec(bits) is Some && (header matches Some(h) && h.magic == SYMBOL_MAGIC) {
        "Symbol("@ + description + ")"@
    } else {
        "Symbol()"@
    }
}

pub fn symbol_text(bits: u64, header: Option<SymbolHeader>, description: &str) -> (s: String)
    ensures
        s@ == symbol_text_spec(bits, header, description@),
{
    if is_symbol(bits, header) {
        symbol_to_string(description)
    } else {
        let mut s = String::new();
        push_str(&mut s, "Symbol()");
        s
    }
}

/// Symbol equality: the same bits, or two symbols with the same id. The
/// headers are those read at each value's address, when it has one.
pub open spec fn symbols_equal_spec(
    a: u64,
    b: u64,
    ha: Option<SymbolHeader>,
    hb: Option<SymbolHeader>,
) -> bool {
    if a == b {
        true
    } else if a & TAG_MASK != POINTER_TAG || b & TAG_MASK != POINTER_TAG {
        false
    } else if a & POINTER_MASK == 0 || b & POINTER_MASK == 0 {
        false
    } else {
        match (ha, hb) {
            (Some(x), Some(y)) => x.magic == SYMBOL_MAGIC && y.magic == SYMBOL_MAGIC && x.id == y.id,
            _ => false,
        }
    }
}

pub fn symbols_equal(a: u64, b: u64, ha: Option<SymbolHeader>, hb: Option<SymbolHeader>) -> (r: bool)
    ensures
        r == symbols_equal_spec(a, b, ha, hb),
{
    if a == b {
        return true;
    }
    if a & TAG_MASK != POINTER_TAG || b & TAG_MASK != POINTER_TAG {
        return false;
    }
    if a & POINTER_MASK == 0 || b & POINTER_MASK == 0 {
        return false;
    }
    match (ha, hb) {
        (Some(x), Some(y)) => x.magic == SYMBOL_MAGIC && y.magic == SYMBOL_MAGIC && x.id == y.id,
        _ => false,
    }
}

/// The side-table key of an object value: its address when it is a boxed
/// pointer, else 0 (no entries).
pub open spec fn object_key_spec(bits: u64) -> u64 {
    if bits & TAG_MASK == POINTER_TAG {
        bits & POINTER_MASK
    } else {
        0
    }
}

pub fn object_key(bits: u64) -> (k: u64)
    ensures
        k == object_key_spec(bits),
{
    if bits & TAG_MASK == POINTER_TAG {
        bits & POINTER_MASK
    } else {
        0
    }
}

/// The side-table key of a symbol value: its address when it is a symbol,
/// else 0.
pub open spec fn symbol_key_spec(bits: u64, header: Option<SymbolHeader>) -> u64 {
    match (heap_pointer_spec(bits), header) {
        (Some(addr), Some(h)) => if h.magic == SYMBOL_MAGIC { addr } else { 0 },
        _ => 0,
    }
}

pub fn symbol_key(bits: u64, header: Option<SymbolHeader>) -> (k: u64)
    ensures
        k == symbol_key_spec(bits, header),
{
    match (heap_pointer(bits), header) {
        (Some(addr), Some(h)) => if h.magic == SYMBOL_MAGIC { addr } else { 0 },
        _ => 0,
    }
}


/// The `Symbol.for` registry: key to symbol address, keys distinct.
pub struct SymbolRegistry {
    pub entries: Vec<(String, u64)>,
}

/// The address registered under `key`, if any.
pub open spec fn registry_lookup(entries: Seq<(String, u64)>, key: Seq<char>) -> Option<u64> {
    if exists|i: int| 0 <= i < entries.len() && entries[i].0@ == key {
        Some(entries[choose|i: int| 0 <= i < entries.len() && entries[i].0@ == key].1)
    } else {
        None
    }
}

impl SymbolRegistry {
    pub open spec fn wf(&self) -> bool {
        forall|i: int, j: int|
            0 <= i < self.entries@.len() && 0 <= j < self.entries@.len() && i != j ==> self.entries@[i].0@
                != self.entries@[j].0@
    }

    pub open spec fn lookup(&self, key: Seq<char>) -> Option<u64> {
        registry_lookup(self.entries@, key)
    }

    pub fn new() -> (r: SymbolRegistry)
        ensures
            r.wf(),
            forall|k: Seq<char>| r.lookup(k) is None,
    {
        SymbolRegistry { entries: Vec::new() }
    }

    /// The symbol registered under `key`, if any.
    pub fn get(&self, key: &str) -> (r: Option<u64>)
        requires
            self.wf(),
        ensures
            r == self.lookup(key@),
    {
        let n = self.entries.len();
        let mut i: usize = 0;
        while i < n
            invariant
                n == self.entries@.len(),
                i <= n,
                self.wf(),
                forall|j: int| 0 <= j < i ==> self.entries@[j].0@ != key@,
            decreases n - i,
        {
            if crate::text::chars_eq(self.entries[i].0.as_str(), key) {
                proof {
                    let c = choose|c: int| 0 <= c < self.entries@.len() && self.entries@[c].0@ == key@;
                    assert(c == i);
                }
                return Some(self.entries[i].1);
            }
            i = i + 1;
        }
        None
    }

    /// Registers `sym` under a key not registered yet.
    pub fn register(&mut self, key: String, sym: u64)
        requires
            old(self).wf(),
            old(self).lookup(key@) is None,
        ensures
            final(self).wf(),
            final(self).lookup(key@) == Some(sym),
            forall|k: Seq<char>| k != key@ ==> final(self).lookup(k) == old(self).lookup(k),
    {
        let ghost k0 = key@;
        self.entries.push((key, sym));
        let ghost n = self.entries@.len() - 1;
        proof {
            assert(self.entries@[n].0@ == k0);
            let c = choose|c: int| 0 <= c < self.entries@.len() && self.entries@[c].0@ == k0;
            assert(c == n);
            assert forall|k: Seq<char>| k != k0 implies self.lookup(k) == old(self).lookup(k) by {
                if exists|i: int| 0 <= i < old(self).entries@.len() && old(self).entries@[i].0@ == k {
                    let i = choose|i: int| 0 <= i < old(self).entries@.len() && old(self).entries@[i].0@ == k;
                    assert(self.entries@[i] == old(self).entries@[i]);
                }
                if exists|i: int| 0 <= i < self.entries@.len() && self.entries@[i].0@ == k {
                    let i = choose|i: int| 0 <= i < self.entries@.len() && self.entries@[i].0@ == k;
                    assert(i < n);
                    assert(old(self).entries@[i] == self.entries@[i]);
                }
            }
        }
    }
}

impl SymbolRegistry {
    /// `Symbol.for(key)`: the symbol registered under `key`; if there is
    /// none, a new one made by `make_symbol`, registered under `key`.
    pub fn symbol_for<F: FnOnce() -> u64>(&mut self, key: String, make_symbol: F) -> (addr: u64)
        requires
            old(self).wf(),
            make_symbol.requires(()),
        ensures
            final(self).wf(),
            old(self).lookup(key@) matches Some(a) ==> addr == a && *final(self) == *old(self),
            old(self).lookup(key@) is None ==> {
                &&& make_symbol.ensures((), addr)
                &&& final(self).lookup(key@) == Some(addr)
                &&& forall|k: Seq<char>| k != key@ ==> final(self).lookup(k) == old(self).lookup(k)
            },
    {
        match self.get(key.as_str()) {
            Some(a) => a,
            None => {
                let a = make_symbol();
                self.register(key, a);
                a
            },
        }
    }
}

/// The symbol-keyed properties of objects: for each object, its
/// `(symbol, value)` pairs in the order the symbols were first set.
pub struct SymbolProperties {
    pub table: HashMap<u64, Vec<(u64, u64)>>,
}

/// The value paired with `sym`, if any.
pub open spec fn pair_value(s: Seq<(u64, u64)>, sym: u64) -> Option<u64> {
    if exists|i: int| 0 <= i < s.len() && s[i].0 == sym {
        Some(s[choose|i: int| 0 <= i < s.len() && s[i].0 == sym].1)
    } else {
        None
    }
}

/// The pairs after `sym` is set to `value`: its pair takes the value, or a
/// new pair is appended.
pub open spec fn pairs_after_set(s: Seq<(u64, u64)>, sym: u64, value: u64) -> Seq<(u64, u64)> {
    if exists|i: int| 0 <= i < s.len() && s[i].0 == sym {
        s.update(choose|i: int| 0 <= i < s.len() && s[i].0 == sym, (sym, value))
    } else {
        s.push((sym, value))
    }
}

/// No symbol is paired twice.
pub open spec fn distinct_symbols(s: Seq<(u64, u64)>) -> bool {
    forall|i: int, j: int| 0 <= i < s.len() && 0 <= j < s.len() && i != j ==> s[i].0 != s[j].0
}

/// The pairs of `obj`: none when it has no entry.
pub open spec fn object_pairs(m: Map<u64, Seq<(u64, u64)>>, obj: u64) -> Seq<(u64, u64)> {
    if m.contains_key(obj) {
        m[obj]
    } else {
        Seq::empty()
    }
}

/// The value of property `sym` of object `obj`, if set.
pub open spec fn property_value(m: Map<u64, Seq<(u64, u64)>>, obj: u64, sym: u64) -> Option<u64> {
    pair_value(object_pairs(m, obj), sym)
}

/// The table after `obj[sym] = value`; keys 0 store nothing.
pub open spec fn after_set(m: Map<u64, Seq<(u64, u64)>>, obj: u64, sym: u64, value: u64) -> Map<
    u64,
    Seq<(u64, u64)>,
> {
    if obj == 0 || sym == 0 {
        m
    } else {
        m.insert(obj, pairs_after_set(object_pairs(m, obj), sym, value))
    }
}

/// The symbols set on `obj`, boxed, in the order they were first set.
pub open spec fn property_symbols(m: Map<u64, Seq<(u64, u64)>>, obj: u64) -> Seq<u64> {
    object_pairs(m, obj).map_values(|p: (u64, u64)| box_pointer_spec(p.0))
}

/// Each object pairs each symbol once.
pub open spec fn table_wf(m: Map<u64, Seq<(u64, u64)>>) -> bool {
    forall|o: u64| #[trigger] m.contains_key(o) ==> distinct_symbols(m[o])
}

/// Where `sym` is paired in `pairs`, if anywhere.
fn find_symbol(pairs: &Vec<(u64, u64)>, sym: u64) -> (r: Option<usize>)
    requires
        distinct_symbols(pairs@),
    ensures
        r matches Some(i) ==> i < pairs@.len() && pairs@[i as int].0 == sym && pair_value(pairs@, sym)
            == Some(pairs@[i as int].1),
        r is None ==> pair_value(pairs@, sym) is None && !(exists|i: int|
            0 <= i < pairs@.len() && pairs@[i].0 == sym),
{
    let n = pairs.len();
    let mut i: usize = 0;
    while i < n
        invariant
            n == pairs@.len(),
            i <= n,
            distinct_symbols(pairs@),
            forall|j: int| 0 <= j < i ==> pairs@[j].0 != sym,
        decreases n - i,
    {
        if pairs[i].0 == sym {
            proof {
                let c = choose|c: int| 0 <= c < pairs@.len() && pairs@[c].0 == sym;
                assert(c == i);
            }
            return Some(i);
        }
        i = i + 1;
    }
    None
}

impl SymbolProperties {
    pub open spec fn spec_table(&self) -> Map<u64, Seq<(u64, u64)>> {
        self.table@.map_values(|v: Vec<(u64, u64)>| v@)
    }

    pub open spec fn wf(&self) -> bool {
        table_wf(self.spec_table())
    }

    pub open spec fn value(&self, obj: u64, sym: u64) -> Option<u64> {
        property_value(self.spec_table(), obj, sym)
    }

    pub fn new() -> (t: SymbolProperties)
        ensures
            t.wf(),
            t.spec_table() == Map::<u64, Seq<(u64, u64)>>::empty(),
    {
        let t = SymbolProperties { table: HashMap::new() };
        assert(t.spec_table() =~= Map::<u64, Seq<(u64, u64)>>::empty());
        t
    }

    /// `obj[sym] = value`. Values that are no object or no symbol (key 0)
    /// store nothing. Returns the value, for chained assignment.
    pub fn set_symbol_property(&mut self, obj_key: u64, sym_key: u64, value: u64) -> (r: u64)
        requires
            old(self).wf(),
        ensures
            r == value,
            final(self).wf(),
            final(self).spec_table() == after_set(old(self).spec_table(), obj_key, sym_key, value),
    {
        broadcast use vstd::std_specs::hash::group_hash_axioms;
        if obj_key == 0 || sym_key == 0 {
            return value;
        }
        let ghost m0 = self.spec_table();
        let mut pairs = match self.table.remove(&obj_key) {
            Some(v) => v,
            None => Vec::new(),
        };
        assert(pairs@ == object_pairs(m0, obj_key));
        let ghost p0 = pairs@;
        match find_symbol(&pairs, sym_key) {
            Some(i) => {
                proof {
                    let c = choose|c: int| 0 <= c < p0.len() && p0[c].0 == sym_key;
                    assert(c == i);
                }
                pairs.set(i, (sym_key, value));
            },
            None => {
                pairs.push((sym_key, value));
            },
        }
        assert(pairs@ =~= pairs_after_set(p0, sym_key, value));
        proof {
            let q = pairs@;
            assert forall|a: int, b: int| 0 <= a < q.len() && 0 <= b < q.len() && a != b implies q[a].0
                != q[b].0 by {
                if a < p0.len() && b < p0.len() {
                } else if exists|i: int| 0 <= i < p0.len() && p0[i].0 == sym_key {
                } else {
                    if a == p0.len() {
                        assert(p0[b].0 != sym_key);
                    } else {
                        assert(p0[a].0 != sym_key);
                    }
                }
            }
        }
        self.table.insert(obj_key, pairs);
        assert(self.spec_table() =~= after_set(m0, obj_key, sym_key, value));
        value
    }

    /// `obj[sym]`: the stored value, else `undefined`.
    pub fn get_symbol_property(&self, obj_key: u64, sym_key: u64) -> (r: u64)
        requires
            self.wf(),
        ensures
            r == (if obj_key == 0 || sym_key == 0 {
                TAG_UNDEFINED
            } else {
                match self.value(obj_key, sym_key) {
                    Some(v) => v,
                    None => TAG_UNDEFINED,
                }
            }),
    {
        broadcast use vstd::std_specs::hash::group_hash_axioms;
        if obj_key == 0 || sym_key == 0 {
            return TAG_UNDEFINED;
        }
        match self.table.get(&obj_key) {
            Some(pairs) => {
                assert(pairs@ == object_pairs(self.spec_table(), obj_key));
                match find_symbol(pairs, sym_key) {
                    Some(i) => pairs[i].1,
                    None => TAG_UNDEFINED,
                }
            },
            None => TAG_UNDEFINED,
        }
    }

    /// `Object.getOwnPropertySymbols(obj)`: the symbols set on the object,
    /// boxed as pointers, in the order they were first set.
    pub fn own_property_symbols(&self, obj_key: u64) -> (syms: Vec<u64>)
        ensures
            syms@ == (if obj_key == 0 { Seq::empty() } else { property_symbols(self.spec_table(), obj_key) }),
    {
        broadcast use vstd::std_specs::hash::group_hash_axioms;
        let mut syms: Vec<u64> = Vec::new();
        if obj_key == 0 {
            return syms;
        }
        match self.table.get(&obj_key) {
            Some(pairs) => {
                let ghost ps = object_pairs(self.spec_table(), obj_key);
                assert(pairs@ == ps);
                let n = pairs.len();
                let mut i: usize = 0;
                while i < n
                    invariant
                        n == pairs@.len(),
                        i <= n,
                        syms@ =~= pairs@.take(i as int).map_values(|p: (u64, u64)| box_pointer_spec(p.0)),
                    decreases n - i,
                {
                    syms.push(box_pointer(pairs[i].0));
                    i = i + 1;
                }
                assert(pairs@.take(n as int) =~= pairs@);
            },
            None => {
                assert(property_symbols(self.spec_table(), obj_key) =~= Seq::<u64>::empty());
            },
        }
        syms
    }
}

/// After `obj[sym] = value` (with an object and a symbol), `obj[sym]` reads
/// `value`, and every other property reads as before.
pub proof fn lemma_set_then_get(
    m: Map<u64, Seq<(u64, u64)>>,
    obj: u64,
    sym: u64,
    value: u64,
    o2: u64,
    s2: u64,
)
    requires
        table_wf(m),
        obj != 0,
        sym != 0,
    ensures
        table_wf(after_set(m, obj, sym, value)),
        property_value(after_set(m, obj, sym, value), obj, sym) == Some(value),
        !(o2 == obj && s2 == sym) ==> property_value(after_set(m, obj, sym, value), o2, s2)
            == property_value(m, o2, s2),
{
    let p = object_pairs(m, obj);
    let q = pairs_after_set(p, sym, value);
    let t = after_set(m, obj, sym, value);
    assert(distinct_symbols(p));
    if exists|i: int| 0 <= i < p.len() && p[i].0 == sym {
        let c = choose|i: int| 0 <= i < p.len() && p[i].0 == sym;
        assert(q[c] == (sym, value));
        let k = choose|i: int| 0 <= i < q.len() && q[i].0 == sym;
        assert(k == c);
        if o2 == obj && s2 != sym {
            if exists|i: int| 0 <= i < p.len() && p[i].0 == s2 {
                let a = choose|i: int| 0 <= i < p.len() && p[i].0 == s2;
                assert(q[a] == p[a]);
                let b = choose|i: int| 0 <= i < q.len() && q[i].0 == s2;
                assert(b == a);
            }
            if exists|i: int| 0 <= i < q.len() && q[i].0 == s2 {
                let b = choose|i: int| 0 <= i < q.len() && q[i].0 == s2;
                assert(p[b] == q[b]);
            }
        }
    } else {
        let n = p.len() as int;
        assert(q[n] == (sym, value));
        let k = choose|i: int| 0 <= i < q.len() && q[i].0 == sym;
        assert(k == n);
        if o2 == obj && s2 != sym {
            if exists|i: int| 0 <= i < p.len() && p[i].0 == s2 {
                let a = choose|i: int| 0 <= i < p.len() && p[i].0 == s2;
                assert(q[a] == p[a]);
                let b = choose|i: int| 0 <= i < q.len() && q[i].0 == s2;
                assert(b == a);
            }
            if exists|i: int| 0 <= i < q.len() && q[i].0 == s2 {
                let b = choose|i: int| 0 <= i < q.len() && q[i].0 == s2;
                assert(b < n);
                assert(p[b] == q[b]);
            }
        }
    }
    assert(distinct_symbols(q)) by {
        assert forall|a: int, b: int| 0 <= a < q.len() && 0 <= b < q.len() && a != b implies q[a].0
            != q[b].0 by {
            if a < p.len() && b < p.len() {
            } else if exists|i: int| 0 <= i < p.len() && p[i].0 == sym {
            } else {
                if a == p.len() {
                    assert(p[b].0 != sym);
                } else {
                    assert(p[a].0 != sym);
                }
            }
        }
    }
    assert forall|o: u64| #[trigger] t.contains_key(o) implies distinct_symbols(t[o]) by {
        if o != obj {
            assert(m.contains_key(o));
        }
    }
}

/// Setting a property a second time does not list its symbol again:
/// `Object.getOwnPropertySymbols` is unchanged by overwriting.
pub proof fn lemma_overwrite_keeps_symbols(
    m: Map<u64, Seq<(u64, u64)>>,
    obj: u64,
    sym: u64,
    value: u64,
    o2: u64,
)
    requires
        table_wf(m),
        property_value(m, obj, sym) is Some,
    ensures
        property_symbols(after_set(m, obj, sym, value), o2) == property_symbols(m, o2),
{
    if obj != 0 && sym != 0 {
        let p = object_pairs(m, obj);
        let c = choose|i: int| 0 <= i < p.len() && p[i].0 == sym;
        let q = pairs_after_set(p, sym, value);
        assert(q =~= p.update(c, (sym, value)));
        if o2 == obj {
            assert(property_symbols(after_set(m, obj, sym, value), o2) =~= property_symbols(m, o2));
        } else {
            assert(object_pairs(after_set(m, obj, sym, value), o2) == object_pairs(m, o2));
        }
    }
}

/// `Symbol.for(key)` gives one symbol per key: once registered, the key
/// finds the symbol it was registered with, and other keys are unaffected.
pub proof fn lemma_registry_stable(
    before: Seq<(String, u64)>,
    key: String,
    sym: u64,
    other: Seq<char>,
)
    requires
        forall|i: int, j: int|
            0 <= i < before.len() && 0 <= j < before.len() && i != j ==> before[i].0@ != before[j].0@,
        registry_lookup(before, key@) is None,
    ensures
        registry_lookup(before.push((key, sym)), key@) == Some(sym),
        other != key@ ==> registry_lookup(before.push((key, sym)), other) == registry_lookup(before, other),
{
    let after = before.push((key, sym));
    let n = before.len() as int;
    assert(after[n].0@ == key@);
    let c = choose|c: int| 0 <= c < after.len() && after[c].0@ == key@;
    if c < n {
        assert(before[c].0@ == key@);
    }
    if other != key@ {
        if exists|i: int| 0 <= i < before.len() && before[i].0@ == other {
            let i = choose|i: int| 0 <= i < before.len() && before[i].0@ == other;
            assert(after[i] == before[i]);
        }
        if exists|i: int| 0 <= i < after.len() && after[i].0@ == other {
            let j = choose|j: int| 0 <= j < after.len() && after[j].0@ == other;
            assert(j < n);
            assert(before[j] == after[j]);
            let i = choose|i: int| 0 <= i < before.len() && before[i].0@ == other;
            assert(i == j);
        }
    }
}

/// A boxed heap address unboxes to itself.
pub proof fn lemma_box_pointer_round_trip(addr: u64)
    requires
        MIN_HEAP_ADDRESS <= addr <= POINTER_MASK,
    ensures
        heap_pointer_spec(box_pointer_spec(addr)) == Some(addr),
{
    let b = box_pointer_spec(addr);
    assert(b & 0xFFFF_0000_0000_0000u64 == 0x7FFD_0000_0000_0000u64) by (bit_vector)
        requires
            b == 0x7FFD_0000_0000_0000u64 | (addr & 0x0000_FFFF_FFFF_FFFFu64),
    ;
    assert(b & 0x0000_FFFF_FFFF_FFFFu64 == addr) by (bit_vector)
        requires
            b == 0x7FFD_0000_0000_0000u64 | (addr & 0x0000_FFFF_FFFF_FFFFu64),
            addr <= 0x0000_FFFF_FFFF_FFFFu64,
    ;
}

/// `Symbol.keyFor` gives back the key of a symbol made by `Symbol.for`,
/// and `undefined` for one made by `Symbol(description)`; the description
/// is the same either way.
pub proof fn lemma_key_for_registered(addr: u64, key: u64, registered: bool, id: u64)
    requires
        MIN_HEAP_ADDRESS <= addr <= POINTER_MASK,
        key != 0,
    ensures
        ({
            let h = SymbolHeader {
                magic: SYMBOL_MAGIC,
                registered: if registered { 1u32 } else { 0u32 },
                description: key,
                id,
            };
            &&& key_for_spec(box_pointer_spec(addr), Some(h)) == (if registered {
                box_string_spec(key)
            } else {
                TAG_UNDEFINED
            })
            &&& description_spec(box_pointer_spec(addr), Some(h)) == box_string_spec(key)
        }),
{
    lemma_box_pointer_round_trip(addr);
}

/// Symbols made one after another differ, whatever their descriptions;
/// a symbol equals itself.
pub proof fn lemma_fresh_symbols_differ(
    a: u64,
    b: u64,
    ha: SymbolHeader,
    hb: SymbolHeader,
)
    requires
        a != b,
        ha.id != hb.id,
    ensures
        !symbols_equal_spec(a, b, Some(ha), Some(hb)),
        symbols_equal_spec(a, a, Some(ha), Some(ha)),
{
}

/// `Symbol()` at a heap address gives a symbol tagged as a pointer, with
/// no description and no registry key, printed `Symbol()`, and different
/// from every symbol made before it (a different value with another id).
pub proof fn lemma_empty_symbol(addr: u64, id: u64, other: u64, other_header: SymbolHeader)
    requires
        MIN_HEAP_ADDRESS <= addr <= POINTER_MASK,
        other != box_pointer_spec(addr),
        other_header.id != id,
    ensures
        ({
            let bits = box_pointer_spec(addr);
            let h = SymbolHeader { magic: SYMBOL_MAGIC, registered: 0, description: 0, id };
            &&& bits & TAG_MASK == POINTER_TAG
            &&& heap_pointer_spec(bits) is Some && h.magic == SYMBOL_MAGIC
            &&& !symbols_equal_spec(bits, other, Some(h), Some(other_header))
            &&& description_spec(bits, Some(h)) == TAG_UNDEFINED
            &&& key_for_spec(bits, Some(h)) == TAG_UNDEFINED
            &&& symbol_text_spec(bits, Some(h), Seq::empty()) == "Symbol("@ + ")"@
        }),
{
    lemma_box_pointer_round_trip(addr);
    let bits = box_pointer_spec(addr);
    assert(bits & 0xFFFF_0000_0000_0000u64 == 0x7FFD_0000_0000_0000u64) by (bit_vector)
        requires
            bits == 0x7FFD_0000_0000_0000u64 | (addr & 0x0000_FFFF_FFFF_FFFFu64),
    ;
    assert("Symbol("@ + Seq::<char>::empty() + ")"@ =~= "Symbol("@ + ")"@);
}

/// `Symbol(description)` at a heap address gives a symbol, not registered,
/// different from every symbol made before it (even one with the same
/// description); its description is the boxed string it was given, and
/// `undefined` when it was given `undefined`.
pub proof fn lemma_new_symbol(addr: u64, description: u64, id: u64, other: u64, other_header: SymbolHeader)
    requires
        MIN_HEAP_ADDRESS <= addr <= POINTER_MASK,
        other != box_pointer_spec(addr),
        other_header.id != id,
    ensures
        ({
            let bits = box_pointer_spec(addr);
            let d = description_address_spec(description);
            let h = SymbolHeader { magic: SYMBOL_MAGIC, registered: 0, description: d, id };
            &&& bits & TAG_MASK == POINTER_TAG
            &&& heap_pointer_spec(bits) is Some && h.magic == SYMBOL_MAGIC
            &&& !symbols_equal_spec(bits, other, Some(h), Some(other_header))
            &&& key_for_spec(bits, Some(h)) == TAG_UNDEFINED
            &&& description_spec(bits, Some(h)) == (if d != 0 {
                box_string_spec(d)
            } else {
                TAG_UNDEFINED
            })
            &&& (description & TAG_MASK == STRING_TAG && description & POINTER_MASK != 0 ==> description_spec(
                bits,
                Some(h),
            ) == description)
            &&& (description == TAG_UNDEFINED ==> description_spec(bits, Some(h)) == TAG_UNDEFINED)
        }),
{
    lemma_box_pointer_round_trip(addr);
    let bits = box_pointer_spec(addr);
    assert(bits & 0xFFFF_0000_0000_0000u64 == 0x7FFD_0000_0000_0000u64) by (bit_vector)
        requires
            bits == 0x7FFD_0000_0000_0000u64 | (addr & 0x0000_FFFF_FFFF_FFFFu64),
    ;
    assert(description & 0xFFFF_0000_0000_0000u64 == 0x7FFF_0000_0000_0000u64 ==> 0x7FFF_0000_0000_0000u64
        | ((description & 0x0000_FFFF_FFFF_FFFFu64) & 0x0000_FFFF_FFFF_FFFFu64) == description) by (bit_vector);
    assert(0x7FFC_0000_0000_0001u64 & 0xFFFF_0000_0000_0000u64 != 0x7FFF_0000_0000_0000u64) by (bit_vector);
}

/// Ids handed out one after another differ.
pub proof fn lemma_next_id_fresh(counter: u64)
    ensures
        counter.wrapping_add(1) != counter,
{
}

} // verus!
