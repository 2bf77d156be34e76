use perry::symbol::{
    box_pointer, box_string, description_address, heap_pointer, is_symbol, new_symbol_header, next_id,
    object_key, registry_key_address, symbol_description, symbol_key, symbol_key_for, symbol_text, symbol_to_string,
    symbols_equal, SymbolProperties, SymbolRegistry, POINTER_TAG, STRING_TAG, SYMBOL_MAGIC, TAG_UNDEFINED,
};

const ADDR: u64 = 0x0000_1234_5678_9000;

#[test]
fn ids_count_up_and_wrap() {
    let mut c: u64 = 7;
    assert_eq!(next_id(&mut c), 7);
    assert_eq!(next_id(&mut c), 8);
    assert_eq!(c, 9);
    let mut last = u64::MAX;
    assert_eq!(next_id(&mut last), u64::MAX);
    assert_eq!(last, 0);
}

#[test]
fn boxing_and_unboxing_pointers() {
    let b = box_pointer(ADDR);
    assert_eq!(b, POINTER_TAG | ADDR);
    assert_eq!(heap_pointer(b), Some(ADDR));
    assert_eq!(heap_pointer(POINTER_TAG | 0x10), None);
    assert_eq!(heap_pointer(STRING_TAG | ADDR), None);
    assert_eq!(box_string(ADDR), STRING_TAG | ADDR);
    assert_eq!(object_key(b), ADDR);
    assert_eq!(object_key(TAG_UNDEFINED), 0);
}

#[test]
fn symbol_detection_reads_the_magic() {
    let h = new_symbol_header(0, false, 1);
    assert_eq!(h.magic, SYMBOL_MAGIC);
    let b = box_pointer(ADDR);
    assert!(is_symbol(b, Some(h)));
    let mut other = h;
    other.magic = 0;
    assert!(!is_symbol(b, Some(other)));
    assert!(!is_symbol(TAG_UNDEFINED, Some(h)));
    assert_eq!(symbol_key(b, Some(h)), ADDR);
    assert_eq!(symbol_key(b, Some(other)), 0);
}

#[test]
fn descriptions_and_registry_keys() {
    assert_eq!(description_address(STRING_TAG | ADDR), ADDR);
    assert_eq!(description_address(TAG_UNDEFINED), 0);
    assert_eq!(description_address(0x2000), 0x2000);
    assert_eq!(description_address(0x10), 0);
    assert_eq!(registry_key_address(STRING_TAG | ADDR), Some(ADDR));
    assert_eq!(registry_key_address(0x2000), Some(0x2000));
    assert_eq!(registry_key_address(TAG_UNDEFINED), None);
}

#[test]
fn key_for_only_for_registered_symbols() {
    let b = box_pointer(ADDR);
    let registered = new_symbol_header(0x5000, true, 3);
    let plain = new_symbol_header(0x5000, false, 4);
    let anonymous = new_symbol_header(0, false, 5);
    assert_eq!(symbol_key_for(b, Some(registered)), STRING_TAG | 0x5000);
    assert_eq!(symbol_key_for(b, Some(plain)), TAG_UNDEFINED);
    assert_eq!(symbol_description(b, Some(plain)), STRING_TAG | 0x5000);
    assert_eq!(symbol_description(b, Some(anonymous)), TAG_UNDEFINED);
    assert_eq!(symbol_key_for(b, None), TAG_UNDEFINED);
}

#[test]
fn to_string_wraps_the_description() {
    assert_eq!(symbol_to_string("foo"), "Symbol(foo)");
    assert_eq!(symbol_to_string(""), "Symbol()");
}

#[test]
fn symbols_equal_by_identity() {
    let a = box_pointer(ADDR);
    let b = box_pointer(ADDR + 0x100);
    let ha = new_symbol_header(0, false, 1);
    let hb = new_symbol_header(0, false, 2);
    assert!(symbols_equal(a, a, Some(ha), Some(ha)));
    assert!(!symbols_equal(a, b, Some(ha), Some(hb)));
    assert!(symbols_equal(a, b, Some(ha), Some(new_symbol_header(0, true, 1))));
    assert!(!symbols_equal(a, TAG_UNDEFINED, Some(ha), None));
}

#[test]
fn registry_gives_one_symbol_per_key() {
    let mut r = SymbolRegistry::new();
    assert_eq!(r.get("app.id"), None);
    r.register("app.id".to_string(), 0x7000);
    r.register("other".to_string(), 0x8000);
    assert_eq!(r.get("app.id"), Some(0x7000));
    assert_eq!(r.get("other"), Some(0x8000));
    assert_eq!(r.get("app"), None);
}

#[test]
fn symbol_properties_set_get_and_list() {
    let mut t = SymbolProperties::new();
    assert_eq!(t.set_symbol_property(0x1000, 0x2000, 42), 42);
    t.set_symbol_property(0x1000, 0x3000, 43);
    t.set_symbol_property(0x1100, 0x2000, 44);
    assert_eq!(t.get_symbol_property(0x1000, 0x2000), 42);
    assert_eq!(t.get_symbol_property(0x1000, 0x3000), 43);
    assert_eq!(t.get_symbol_property(0x1100, 0x3000), TAG_UNDEFINED);
    // Overwriting keeps one entry.
    t.set_symbol_property(0x1000, 0x2000, 99);
    assert_eq!(t.get_symbol_property(0x1000, 0x2000), 99);
    assert_eq!(t.table.values().map(|v| v.len()).sum::<usize>(), 3);
    assert_eq!(t.own_property_symbols(0x1000), vec![POINTER_TAG | 0x2000, POINTER_TAG | 0x3000]);
    assert_eq!(t.own_property_symbols(0), Vec::<u64>::new());
    // Key 0 (not an object or not a symbol) stores nothing.
    assert_eq!(t.set_symbol_property(0, 0x2000, 5), 5);
    assert_eq!(t.table.values().map(|v| v.len()).sum::<usize>(), 3);
    assert_eq!(t.get_symbol_property(0, 0x2000), TAG_UNDEFINED);
}

#[test]
fn to_string_of_non_symbols_and_empty_descriptions() {
    let h = new_symbol_header(0, false, 1);
    let sym = box_pointer(ADDR);
    assert_eq!(symbol_text(sym, Some(h), "foo"), "Symbol(foo)");
    assert_eq!(symbol_text(sym, Some(h), ""), "Symbol()");
    assert_eq!(symbol_text(1.0f64.to_bits(), None, "foo"), "Symbol()");
    let mut not_symbol = h;
    not_symbol.magic = 0;
    assert_eq!(symbol_text(sym, Some(not_symbol), "foo"), "Symbol()");
    assert_eq!(symbol_text(box_pointer(0x10), Some(h), "foo"), "Symbol()");
}

#[test]
fn symbol_for_makes_one_symbol_per_key() {
    let mut r = SymbolRegistry::new();
    let mut made = 0;
    let a = r.symbol_for("app".to_string(), || {
        made += 1;
        0x9000
    });
    assert_eq!(a, 0x9000);
    let b = r.symbol_for("app".to_string(), || {
        made += 1;
        0xA000
    });
    assert_eq!(b, 0x9000);
    let c = r.symbol_for("other".to_string(), || {
        made += 1;
        0xB000
    });
    assert_eq!(c, 0xB000);
    assert_eq!(made, 2);
    assert_eq!(r.get("app"), Some(0x9000));
}
