use perry::double_bits::int_to_f64_bits;

#[test]
fn integers_convert_like_the_cast() {
    let mut samples: Vec<i64> = vec![
        0, 1, -1, 2, 3, -2, 10, 255, 1 << 20, (1 << 52) - 1, 1 << 52, (1 << 53) - 1, 1 << 53,
        (1 << 53) + 1, (1 << 53) + 2, (1 << 53) + 3, (1 << 54) + 2, (1 << 54) + 6, i64::MAX, i64::MIN,
        i64::MIN + 1, -(1 << 53) - 1, 123_456_789_012_345_678, -987_654_321_987,
    ];
    let mut x: u64 = 0x9E37_79B9_7F4A_7C15;
    for _ in 0..2000 {
        x ^= x << 13;
        x ^= x >> 7;
        x ^= x << 17;
        samples.push(x as i64);
        samples.push((x >> (x % 63)) as i64);
    }
    for i in samples {
        assert_eq!(int_to_f64_bits(i), (i as f64).to_bits(), "converting {}", i);
    }
}

#[test]
fn exact_small_integers() {
    assert_eq!(int_to_f64_bits(1), 0x3FF0_0000_0000_0000);
    assert_eq!(int_to_f64_bits(-2), 0xC000_0000_0000_0000);
    assert_eq!(int_to_f64_bits(3), 0x4008_0000_0000_0000);
    assert_eq!(int_to_f64_bits(i64::MIN), 0xC3E0_0000_0000_0000);
}
