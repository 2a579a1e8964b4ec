use levels::sample::{Binary32, Sample, INFINITY_BITS, SIGN_BIT};

fn bits(value: f32) -> Binary32 {
    Binary32::from_bits(value.to_bits())
}

fn interesting() -> Vec<f32> {
    vec![
        0.0,
        -0.0,
        1.0,
        -1.0,
        0.5,
        -0.5,
        0.25,
        f32::MIN_POSITIVE,
        -f32::MIN_POSITIVE,
        f32::from_bits(1),
        f32::from_bits(0x8000_0001),
        f32::MAX,
        f32::MIN,
        f32::INFINITY,
        f32::NEG_INFINITY,
        f32::NAN,
        -f32::NAN,
        f32::from_bits(0x7f80_0001),
        f32::from_bits(0xffff_ffff),
        1.0e-3,
        -1.0e-3,
        3.5,
        -3.5,
        1.0e30,
        -1.0e30,
    ]
}

#[test]
fn binary32_compares_as_the_floats_do() {
    let values = interesting();
    for a in values.iter() {
        for b in values.iter() {
            assert_eq!(bits(*a).below(bits(*b)), a < b, "{:?} < {:?}", a, b);
        }
    }
}

#[test]
fn binary32_compares_as_the_floats_do_on_a_sweep_of_patterns() {
    let mut patterns: Vec<u32> = Vec::new();
    let mut pattern: u32 = 0;
    loop {
        patterns.push(pattern);
        match pattern.checked_add(0x0123_4567) {
            Some(next) => pattern = next,
            None => break,
        }
    }
    for a in patterns.iter() {
        for b in patterns.iter() {
            let expected = f32::from_bits(*a) < f32::from_bits(*b);
            assert_eq!(Binary32::from_bits(*a).below(Binary32::from_bits(*b)), expected);
        }
    }
}

#[test]
fn binary32_knows_what_is_a_number() {
    for value in interesting() {
        assert_eq!(bits(value).is_number(), !value.is_nan(), "{:?}", value);
    }
    assert!(Binary32::from_bits(INFINITY_BITS).is_number());
    assert!(!Binary32::from_bits(INFINITY_BITS + 1).is_number());
    assert!(Binary32::from_bits(SIGN_BIT).is_number());
    assert!(Binary32::from_bits(SIGN_BIT + INFINITY_BITS).is_number());
    assert!(!Binary32::from_bits(SIGN_BIT + INFINITY_BITS + 1).is_number());
}

#[test]
fn zero_is_the_zero_of_each_representation() {
    assert_eq!(<i16 as Sample>::zero(), 0);
    assert_eq!(<u16 as Sample>::zero(), 0);
    assert_eq!(<Binary32 as Sample>::zero().to_bits(), 0.0f32.to_bits());
    assert_eq!(<i16 as Sample>::zero().to_word(), 0);
    assert_eq!(<u16 as Sample>::zero().to_word(), 0);
    assert_eq!(<Binary32 as Sample>::zero().to_word(), 0);
}

#[test]
fn both_zeros_compare_equal() {
    assert!(!bits(-0.0).below(bits(0.0)));
    assert!(!bits(0.0).below(bits(-0.0)));
    assert!(bits(-f32::MIN_POSITIVE).below(bits(-0.0)));
    assert!(bits(-0.0).below(bits(f32::MIN_POSITIVE)));
}

#[test]
fn integers_compare_by_value() {
    assert!((-1i16).below(0));
    assert!(!(0i16).below(0));
    assert!(i16::MIN.below(i16::MAX));
    assert!(!i16::MAX.below(i16::MIN));
    assert!((0u16).below(1));
    assert!(!(7u16).below(7));
    assert!(!u16::MAX.below(0));
}

#[test]
fn words_of_signed_samples_are_their_sixteen_bits() {
    assert_eq!((0i16).to_word(), 0);
    assert_eq!((1i16).to_word(), 1);
    assert_eq!(i16::MAX.to_word(), 0x7fff);
    assert_eq!((-1i16).to_word(), 0xffff);
    assert_eq!(i16::MIN.to_word(), 0x8000);
    for sample in i16::MIN..=i16::MAX {
        assert_eq!(sample.to_word(), sample as u16 as u32);
    }
}

#[test]
fn every_signed_sample_survives_transport() {
    for sample in i16::MIN..=i16::MAX {
        assert_eq!(<i16 as Sample>::from_word(sample.to_word()), sample);
    }
}

#[test]
fn every_unsigned_sample_survives_transport() {
    for sample in 0..=u16::MAX {
        assert_eq!(sample.to_word(), sample as u32);
        assert_eq!(<u16 as Sample>::from_word(sample.to_word()), sample);
    }
}

#[test]
fn binary32_samples_survive_transport() {
    for value in interesting() {
        let sample = bits(value);
        assert_eq!(sample.to_word(), value.to_bits());
        assert_eq!(<Binary32 as Sample>::from_word(sample.to_word()), sample);
    }
}

#[test]
fn decoding_ignores_the_upper_half_of_a_word() {
    assert_eq!(<i16 as Sample>::from_word(0x0001_0005), 5);
    assert_eq!(<i16 as Sample>::from_word(0xabcd_ffff), -1);
    assert_eq!(<i16 as Sample>::from_word(0x0000_8000), i16::MIN);
    assert_eq!(<u16 as Sample>::from_word(0x0001_0005), 5);
    assert_eq!(<u16 as Sample>::from_word(0xffff_ffff), u16::MAX);
}
