use mccga::byteworks::{bits2floats, floats2bits, floatstodoubles, from_bitvector, to_bitvector, widen};

#[test]
fn bit_f32_conversation() {
    let val: f32 = 3.14159265_f32;
    let bits: Vec<u8> = to_bitvector(val.to_bits());
    let otherval: f32 = f32::from_bits(from_bitvector(&bits));
    assert_eq!(val.to_bits(), otherval.to_bits());
    assert_eq!(val, otherval);
}

#[test]
fn test_floats2bits() {
    let v1: Vec<u8> = vec![
        1, 1, 0, 1, 1, 0, 1, 1, 1, 1, 1, 1, 0, 0, 0, 0, 1, 0, 0, 1, 0, 0, 1, 0, 0, 0, 0, 0, 0,
        0, 1, 0, 1, 1, 0, 1, 1, 0, 1, 1, 1, 1, 1, 1, 0, 0, 0, 0, 1, 0, 0, 1, 0, 0, 1, 0, 0, 0,
        0, 0, 0, 0, 1, 0,
    ];
    let floatvector: Vec<u32> = vec![3.14159265_f32.to_bits(), 3.14159265_f32.to_bits()];
    let floatsbits: Vec<u8> = floats2bits(&floatvector);
    assert_eq!(floatsbits, v1);
}

#[test]
fn test_bits2floats() {
    let v1: Vec<u8> = vec![
        1, 1, 0, 1, 1, 0, 1, 1, 1, 1, 1, 1, 0, 0, 0, 0, 1, 0, 0, 1, 0, 0, 1, 0, 0, 0, 0, 0, 0,
        0, 1, 0, 1, 1, 0, 1, 1, 0, 1, 1, 1, 1, 1, 1, 0, 0, 0, 0, 1, 0, 0, 1, 0, 0, 1, 0, 0, 0,
        0, 0, 0, 0, 1, 0,
    ];
    let words: Vec<u32> = bits2floats(&v1);
    let floats: Vec<f32> = words.iter().map(|w| f32::from_bits(*w)).collect();
    assert_eq!(floats.len(), 2);
    assert_eq!(floats[0], 3.14159265);
    assert_eq!(floats[1], 3.14159265);
}

#[test]
fn test_autotestforconversations() {
    let fvals: Vec<f32> = vec![1.2_f32, 5.6_f32, 78.9998_f32];
    let words: Vec<u32> = fvals.iter().map(|f| f.to_bits()).collect();
    let bits: Vec<u8> = floats2bits(&words);
    let wordsback: Vec<u32> = bits2floats(&bits);
    let floatsback: Vec<f32> = wordsback.iter().map(|w| f32::from_bits(*w)).collect();
    assert_eq!(floatsback.len(), 3);
    assert_eq!(fvals[0], floatsback[0]);
    assert_eq!(fvals[1], floatsback[1]);
    assert_eq!(fvals[2], floatsback[2]);
}

#[test]
fn test_word_round_trip_special_patterns() {
    let patterns: Vec<u32> = vec![
        0,
        0x8000_0000,
        1,
        0x7fff_ffff,
        0xffff_ffff,
        f32::NAN.to_bits(),
        f32::INFINITY.to_bits(),
        f32::NEG_INFINITY.to_bits(),
        f32::MIN_POSITIVE.to_bits(),
        0x0000_0001,
        0x007f_ffff,
    ];
    for w in patterns {
        let bits = to_bitvector(w);
        assert_eq!(bits.len(), 32);
        assert_eq!(from_bitvector(&bits), w);
    }
}

#[test]
fn test_decode_truncates_incomplete_group() {
    let mut bits: Vec<u8> = to_bitvector(7.5_f32.to_bits());
    bits.push(1);
    bits.push(0);
    bits.push(1);
    let words = bits2floats(&bits);
    assert_eq!(words.len(), 1);
    assert_eq!(f32::from_bits(words[0]), 7.5_f32);
}

#[test]
fn test_widen_matches_native_promotion() {
    let values: Vec<f32> = vec![
        0.0,
        -0.0,
        1.0,
        -1.0,
        3.14159265,
        -2.5,
        1.0e-30,
        -1.0e30,
        f32::MIN_POSITIVE,
        f32::MAX,
        f32::MIN,
        f32::INFINITY,
        f32::NEG_INFINITY,
        f32::NAN,
        f32::from_bits(1),
        f32::from_bits(0x0000_0007),
        f32::from_bits(0x007f_ffff),
        f32::from_bits(0x8000_0001),
        f32::from_bits(0x803f_0001),
    ];
    for v in values {
        assert_eq!(widen(v.to_bits()), (v as f64).to_bits());
    }
}

#[test]
fn test_floatstodoubles_elementwise() {
    let vals: Vec<f32> = vec![1.5, -7.25, 1.0e-40, 1234.5678];
    let words: Vec<u32> = vals.iter().map(|v| v.to_bits()).collect();
    let wide = floatstodoubles(&words);
    assert_eq!(wide.len(), 4);
    for i in 0..4 {
        assert_eq!(f64::from_bits(wide[i]), vals[i] as f64);
    }
}
