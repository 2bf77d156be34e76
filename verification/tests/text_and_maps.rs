use perry::id_map::IdMap;
use perry::text::{chars_eq, push_decimal};

#[test]
fn decimal_text() {
    let mut s = String::from("n=");
    push_decimal(&mut s, 0);
    s.push(',');
    push_decimal(&mut s, 1_234_567_890);
    s.push(',');
    push_decimal(&mut s, u64::MAX);
    assert_eq!(s, "n=0,1234567890,18446744073709551615");
}

#[test]
fn char_equality() {
    assert!(chars_eq("abc", "abc"));
    assert!(!chars_eq("abc", "abd"));
    assert!(!chars_eq("ab", "abc"));
    assert!(chars_eq("", ""));
}

#[test]
fn id_map_insert_replaces() {
    let mut m: IdMap<u32> = IdMap::new();
    assert_eq!(m.len(), 0);
    m.insert(3, 30);
    m.insert(1, 10);
    m.insert(3, 33);
    assert_eq!(m.len(), 2);
    assert_eq!(m.get(3), Some(33));
    assert_eq!(m.get(1), Some(10));
    assert_eq!(m.get(2), None);
    assert!(m.contains_key(1));
    assert!(!m.contains_key(2));
    assert_eq!(m.get_ref(1), Some(&10));
}
