use zigzag::ZigZag;

#[test]
fn zero_at_every_width() {
    assert_eq!(<i8 as ZigZag>::encode(0), 0u8);
    assert_eq!(<i16 as ZigZag>::encode(0), 0u16);
    assert_eq!(<i32 as ZigZag>::encode(0), 0u32);
    assert_eq!(<i64 as ZigZag>::encode(0), 0u64);
    assert_eq!(<i128 as ZigZag>::encode(0), 0u128);
    assert_eq!(<i8 as ZigZag>::decode(0), 0i8);
    assert_eq!(<i16 as ZigZag>::decode(0), 0i16);
    assert_eq!(<i32 as ZigZag>::decode(0), 0i32);
    assert_eq!(<i64 as ZigZag>::decode(0), 0i64);
    assert_eq!(<i128 as ZigZag>::decode(0), 0i128);
}

#[test]
fn interleaving_order() {
    assert_eq!(<i32 as ZigZag>::encode(-1), 1u32);
    assert_eq!(<i32 as ZigZag>::encode(1), 2u32);
    assert_eq!(<i32 as ZigZag>::encode(-2), 3u32);
    assert_eq!(<i32 as ZigZag>::encode(2), 4u32);
    assert_eq!(<i32 as ZigZag>::decode(1), -1i32);
    assert_eq!(<i32 as ZigZag>::decode(2), 1i32);
    assert_eq!(<i32 as ZigZag>::decode(3), -2i32);
    assert_eq!(<i32 as ZigZag>::decode(4), 2i32);
}

#[test]
fn boundaries_at_every_width() {
    assert_eq!(<i8 as ZigZag>::encode(i8::MAX), u8::MAX - 1);
    assert_eq!(<i8 as ZigZag>::encode(i8::MIN), u8::MAX);
    assert_eq!(<i16 as ZigZag>::encode(i16::MAX), u16::MAX - 1);
    assert_eq!(<i16 as ZigZag>::encode(i16::MIN), u16::MAX);
    assert_eq!(<i32 as ZigZag>::encode(i32::MAX), 4294967294u32);
    assert_eq!(<i32 as ZigZag>::encode(i32::MIN), 4294967295u32);
    assert_eq!(<i64 as ZigZag>::encode(i64::MAX), u64::MAX - 1);
    assert_eq!(<i64 as ZigZag>::encode(i64::MIN), u64::MAX);
    assert_eq!(<i128 as ZigZag>::encode(i128::MAX), u128::MAX - 1);
    assert_eq!(<i128 as ZigZag>::encode(i128::MIN), u128::MAX);
    assert_eq!(<i8 as ZigZag>::decode(u8::MAX), i8::MIN);
    assert_eq!(<i64 as ZigZag>::decode(u64::MAX - 1), i64::MAX);
    assert_eq!(<i128 as ZigZag>::decode(u128::MAX), i128::MIN);
}

#[test]
fn round_trip_samples_at_wide_widths() {
    let samples: [i128; 9] = [0, 1, -1, 63, -64, 1 << 40, -(1 << 40), 12345678901234, -98765432109876];
    for &x in samples.iter() {
        let x32 = x as i32;
        assert_eq!(<i32 as ZigZag>::decode(<i32 as ZigZag>::encode(x32)), x32);
        let x64 = x as i64;
        assert_eq!(<i64 as ZigZag>::decode(<i64 as ZigZag>::encode(x64)), x64);
        assert_eq!(<i128 as ZigZag>::decode(<i128 as ZigZag>::encode(x)), x);
        let wide = x * (1 << 80);
        assert_eq!(<i128 as ZigZag>::decode(<i128 as ZigZag>::encode(wide)), wide);
    }
    for x in [i64::MIN, i64::MAX, i64::MIN + 1] {
        assert_eq!(<i64 as ZigZag>::decode(<i64 as ZigZag>::encode(x)), x);
    }
    for x in [i128::MIN, i128::MAX, i128::MIN + 1] {
        assert_eq!(<i128 as ZigZag>::decode(<i128 as ZigZag>::encode(x)), x);
    }
}

#[test]
fn formula_on_every_width() {
    assert_eq!(<i8 as ZigZag>::encode(-3), 5u8);
    assert_eq!(<i16 as ZigZag>::encode(300), 600u16);
    assert_eq!(<i64 as ZigZag>::encode(-1000), 1999u64);
    assert_eq!(<i128 as ZigZag>::encode(7), 14u128);
    assert_eq!(<i16 as ZigZag>::decode(1999), -1000i16);
    assert_eq!(<i128 as ZigZag>::decode(14), 7i128);
}

#[test]
fn bijective_on_eight_bits() {
    let mut seen = [false; 256];
    for x in i8::MIN..=i8::MAX {
        let u = <i8 as ZigZag>::encode(x);
        assert!(!seen[u as usize]);
        seen[u as usize] = true;
        assert_eq!(<i8 as ZigZag>::decode(u), x);
    }
    assert!(seen.iter().all(|&b| b));
}

#[test]
fn bijective_on_sixteen_bits() {
    let mut seen = vec![false; 65536];
    for x in i16::MIN..=i16::MAX {
        let u = <i16 as ZigZag>::encode(x);
        assert!(!seen[u as usize]);
        seen[u as usize] = true;
    }
    assert!(seen.iter().all(|&b| b));
    for u in 0..=u16::MAX {
        assert_eq!(<i16 as ZigZag>::encode(<i16 as ZigZag>::decode(u)), u);
    }
}
