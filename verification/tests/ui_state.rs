use perry::ui::{
    bind_text_numeric, geisterhand_port, geisterhand_start, system_icon_for, StateStore, SystemIcon,
    UNDEFINED_BITS,
};

#[test]
fn handles_are_one_based() {
    let mut s = StateStore::new();
    assert_eq!(s.state_create(1.5f64.to_bits()), 1);
    assert_eq!(s.state_create(0.0f64.to_bits()), 2);
    assert_eq!(f64::from_bits(s.state_get(1)), 1.5);
    assert_eq!(f64::from_bits(s.state_get(2)), 0.0);
    assert_eq!(s.state_get(0), UNDEFINED_BITS);
    assert_eq!(s.state_get(3), UNDEFINED_BITS);
    assert_eq!(s.state_get(-5), UNDEFINED_BITS);
}

#[test]
fn set_then_get_reads_back() {
    let mut s = StateStore::new();
    let h = s.state_create(0);
    let other = s.state_create(7);
    let updates = s.state_set(h, 42.0f64.to_bits(), "42");
    assert!(updates.is_empty());
    assert_eq!(f64::from_bits(s.state_get(h)), 42.0);
    assert_eq!(s.state_get(other), 7);
    // A handle naming no cell changes nothing.
    s.state_set(9, 1, "1");
    assert_eq!(s.states.len(), 2);
}

#[test]
fn bound_texts_are_refreshed_in_binding_order() {
    let mut s = StateStore::new();
    let count = s.state_create(0);
    let other = s.state_create(0);
    bind_text_numeric(&mut s, count, 100, "Count: ".to_string(), "".to_string());
    bind_text_numeric(&mut s, other, 101, "x".to_string(), "y".to_string());
    bind_text_numeric(&mut s, count, 102, "(".to_string(), " items)".to_string());
    let updates = s.state_set(count, 3.0f64.to_bits(), "3");
    assert_eq!(updates, vec![(100, "Count: 3".to_string()), (102, "(3 items)".to_string())]);
    let updates = s.state_set(other, 2.5f64.to_bits(), "2.5");
    assert_eq!(updates, vec![(101, "x2.5y".to_string())]);
}

#[test]
fn icons_by_symbol_name() {
    assert!(system_icon_for("warning") == SystemIcon::Warning);
    assert!(system_icon_for("exclamationmark.triangle") == SystemIcon::Warning);
    assert!(system_icon_for("info.circle") == SystemIcon::Information);
    assert!(system_icon_for("error") == SystemIcon::Error);
    assert!(system_icon_for("questionmark.circle") == SystemIcon::Question);
    assert!(system_icon_for("shield.fill") == SystemIcon::Shield);
    assert!(system_icon_for("app") == SystemIcon::Application);
    assert!(system_icon_for("star") == SystemIcon::Application);
}

#[test]
fn fuzzer_port() {
    assert_eq!(geisterhand_port(0), 7676);
    assert_eq!(geisterhand_port(-3), 7676);
    assert_eq!(geisterhand_port(8080), 8080);
    assert_eq!(geisterhand_port(70000), 4464);
    assert_eq!(geisterhand_start(false, 9000), Some(9000));
    assert_eq!(geisterhand_start(false, 0), Some(7676));
    assert_eq!(geisterhand_start(true, 9000), None);
}
