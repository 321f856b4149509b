use experiment::binary64;
use experiment::coord2d::{Coord2D, FloatIsNan};
use experiment::excitation_source2d::Excitation2D;
use experiment::exciton::ExcitonBiography;

fn bits(x: f64) -> u64 {
    x.to_bits()
}

#[test]
fn test_coord_2d_serde() {
    let x = Coord2D::new(bits(-1.0), bits(2.0)).unwrap();
    let bytes = x.clone().to_bytes();
    let rehydrated = Coord2D::from_bytes(&bytes);

    assert_eq!(x, rehydrated);
}

#[test]
fn test_excitation_2d_serde() {
    let x = Excitation2D::new(bits(1.0), bits(2.0), bits(3.0)).unwrap();
    let bytes = x.clone().to_bytes();
    let rehydrated = Excitation2D::from_bytes(&bytes);

    assert_eq!(x, rehydrated)
}

#[test]
fn coord_bytes_are_two_big_endian_doubles() {
    let c = Coord2D::new(bits(-1.0), bits(2.0)).unwrap();
    let bytes = c.to_bytes();
    assert_eq!(
        bytes,
        [0xbf, 0xf0, 0, 0, 0, 0, 0, 0, 0x40, 0x00, 0, 0, 0, 0, 0, 0]
    );
    assert_eq!(&bytes[..8], &(-1.0f64).to_be_bytes());
    assert_eq!(&bytes[8..], &2.0f64.to_be_bytes());
}

#[test]
fn excitation_bytes_are_time_then_coord() {
    let e = Excitation2D::new(bits(1.5e-9), bits(-3.25), bits(7.0e-7)).unwrap();
    let bytes = e.to_bytes();
    assert_eq!(&bytes[..8], &1.5e-9f64.to_be_bytes());
    assert_eq!(&bytes[8..16], &(-3.25f64).to_be_bytes());
    assert_eq!(&bytes[16..], &7.0e-7f64.to_be_bytes());
}

#[test]
fn codec_round_trip_is_bit_exact() {
    let values = [
        0.0,
        -0.0,
        1.0,
        -1.0,
        f64::MIN_POSITIVE,
        5e-324,
        f64::MAX,
        f64::MIN,
        f64::INFINITY,
        f64::NEG_INFINITY,
        1.0e-9,
        6.02214076e23,
        std::f64::consts::PI,
    ];
    for &t in values.iter() {
        for &x in values.iter() {
            for &y in values.iter() {
                let c = Coord2D::new(bits(x), bits(y)).unwrap();
                let back = Coord2D::from_bytes(&c.to_bytes());
                assert_eq!(back.x(), bits(x));
                assert_eq!(back.y(), bits(y));
                let e = Excitation2D::new(bits(t), bits(x), bits(y)).unwrap();
                let back = Excitation2D::from_bytes(&e.to_bytes());
                assert_eq!(back.time_s(), bits(t));
                assert_eq!(back.into_coord().x(), bits(x));
                assert_eq!(back.into_coord().y(), bits(y));
            }
        }
    }
}

#[test]
fn biography_round_trip_keeps_time_and_position() {
    let b = ExcitonBiography {
        destroyed_at_s: bits(4.5e-8),
        destroyed_at_position: Coord2D::new(bits(1.0e-7), bits(-2.0e-7)).unwrap(),
        decayed_radiatively: true,
    };
    let bytes = b.to_bytes();
    assert_eq!(&bytes[..8], &4.5e-8f64.to_be_bytes());
    assert_eq!(&bytes[8..16], &1.0e-7f64.to_be_bytes());
    assert_eq!(&bytes[16..], &(-2.0e-7f64).to_be_bytes());
    let back = ExcitonBiography::from_bytes(&bytes);
    assert_eq!(back.destroyed_at_s, b.destroyed_at_s);
    assert_eq!(back.destroyed_at_position, b.destroyed_at_position);
    assert!(back.decayed_radiatively);
}

#[test]
fn biography_bytes_leave_the_flag_out() {
    let position = Coord2D::new(bits(1.0), bits(2.0)).unwrap();
    let radiative = ExcitonBiography {
        destroyed_at_s: bits(3.0),
        destroyed_at_position: position,
        decayed_radiatively: true,
    };
    let annihilated = ExcitonBiography {
        destroyed_at_s: bits(3.0),
        destroyed_at_position: position,
        decayed_radiatively: false,
    };
    assert_eq!(radiative.to_bytes(), annihilated.to_bytes());
    assert!(ExcitonBiography::from_bytes(&annihilated.to_bytes()).decayed_radiatively);
}

#[test]
fn nan_is_refused_at_construction() {
    let nan = bits(f64::NAN);
    assert_eq!(Coord2D::new(nan, bits(1.0)), Err(FloatIsNan));
    assert_eq!(Coord2D::new(bits(1.0), nan), Err(FloatIsNan));
    assert_eq!(Coord2D::new(bits(1.0), 0xfff8_0000_0000_0001), Err(FloatIsNan));
    assert_eq!(Excitation2D::new(nan, bits(1.0), bits(1.0)), Err(FloatIsNan));
    assert_eq!(Excitation2D::new(bits(1.0), nan, bits(1.0)), Err(FloatIsNan));
    assert_eq!(Excitation2D::new(bits(1.0), bits(1.0), nan), Err(FloatIsNan));
    let c = Coord2D::new(bits(0.0), bits(0.0)).unwrap();
    assert_eq!(Excitation2D::at(nan, c), Err(FloatIsNan));
    assert!(Excitation2D::at(bits(f64::INFINITY), c).is_ok());
}

#[test]
fn try_from_bytes_refuses_what_is_no_encoding() {
    let c = Coord2D::new(bits(1.0), bits(2.0)).unwrap();
    let bytes = c.to_bytes();
    assert_eq!(Coord2D::try_from_bytes(&bytes), Some(c));
    assert_eq!(Coord2D::try_from_bytes(&bytes[..15]), None);
    assert_eq!(Coord2D::try_from_bytes(&[0u8; 17]), None);
    let mut with_nan = bytes;
    with_nan[..8].copy_from_slice(&f64::NAN.to_be_bytes());
    assert_eq!(Coord2D::try_from_bytes(&with_nan), None);

    let e = Excitation2D::new(bits(1.0), bits(2.0), bits(3.0)).unwrap();
    let bytes = e.to_bytes();
    assert_eq!(Excitation2D::try_from_bytes(&bytes), Some(e));
    assert_eq!(Excitation2D::try_from_bytes(&bytes[..23]), None);
    let mut with_nan = bytes;
    with_nan[16..].copy_from_slice(&f64::NAN.to_be_bytes());
    assert_eq!(Excitation2D::try_from_bytes(&with_nan), None);
    let mut with_nan = bytes;
    with_nan[..8].copy_from_slice(&f64::NAN.to_be_bytes());
    assert_eq!(Excitation2D::try_from_bytes(&with_nan), None);
}

#[test]
fn equality_is_that_of_the_numbers() {
    let plus = Coord2D::new(bits(0.0), bits(1.0)).unwrap();
    let minus = Coord2D::new(bits(-0.0), bits(1.0)).unwrap();
    assert_eq!(plus, minus);
    assert_ne!(plus, Coord2D::new(bits(0.0), bits(1.5)).unwrap());
    assert_ne!(plus.x(), minus.x());
}

#[test]
fn patterns_compare_as_their_numbers() {
    let values = [
        f64::NEG_INFINITY,
        f64::MIN,
        -2.5,
        -1.0,
        -5e-324,
        -0.0,
        0.0,
        5e-324,
        1.0,
        2.5,
        5.0,
        f64::MAX,
        f64::INFINITY,
        f64::NAN,
        -f64::NAN,
    ];
    for &a in values.iter() {
        assert_eq!(binary64::is_nan(bits(a)), a.is_nan());
        assert_eq!(binary64::is_zero(bits(a)), a == 0.0);
        assert_eq!(binary64::abs(bits(a)), bits(a.abs()));
        for &b in values.iter() {
            assert_eq!(binary64::lt(bits(a), bits(b)), a < b, "{} < {}", a, b);
            assert_eq!(binary64::le(bits(a), bits(b)), a <= b, "{} <= {}", a, b);
            assert_eq!(binary64::eq(bits(a), bits(b)), a == b, "{} == {}", a, b);
        }
    }
}

#[test]
fn named_patterns_are_the_numbers_they_name() {
    assert_eq!(binary64::FIVE, bits(5.0));
    assert_eq!(binary64::MAX_FINITE, bits(f64::MAX));
    assert_eq!(binary64::INFINITY, bits(f64::INFINITY));
    assert_eq!(binary64::SIGN_BIT, bits(-0.0));
}

#[test]
fn big_endian_bytes_match_the_standard_ones() {
    let values = [0u64, 1, 0x0102_0304_0506_0708, u64::MAX, 0x8000_0000_0000_0000];
    for &v in values.iter() {
        let mut out = vec![0xaa];
        binary64::push_be_bytes(&mut out, v);
        assert_eq!(out[0], 0xaa);
        assert_eq!(&out[1..], &v.to_be_bytes());
        assert_eq!(binary64::read_be_bytes(&out, 1), v);
        for i in 0..8 {
            assert_eq!(binary64::be_byte(v, i), v.to_be_bytes()[i]);
        }
    }
}

#[test]
fn doubling_a_pattern_doubles_the_number() {
    let values = [
        0.0,
        -0.0,
        5e-324,
        -5e-324,
        1.1125369292536007e-308,
        2.2250738585072009e-308,
        f64::MIN_POSITIVE,
        -f64::MIN_POSITIVE,
        1.0e-9,
        0.1,
        1.0,
        -1.5,
        std::f64::consts::PI,
        4.4942328371557893e307,
        8.98846567431158e307,
        -8.98846567431158e307,
        1.0e308,
        f64::MAX,
        f64::MIN,
        f64::INFINITY,
        f64::NEG_INFINITY,
    ];
    for &x in values.iter() {
        assert_eq!(binary64::doubled(bits(x)), bits(2.0 * x), "{}", x);
    }
    let mut pattern: u64 = 0x0123_4567_89ab_cdef;
    for _ in 0..100_000 {
        pattern = pattern.wrapping_mul(6364136223846793005).wrapping_add(1442695040888963407);
        let x = f64::from_bits(pattern);
        if x.is_nan() {
            assert!(binary64::is_nan(binary64::doubled(pattern)));
        } else {
            assert_eq!(binary64::doubled(pattern), bits(2.0 * x), "{:#x}", pattern);
        }
    }
    for exponent in 0..0x800u64 {
        for fraction in [0u64, 1, 0x8_0000_0000_0000, 0xf_ffff_ffff_ffff] {
            let pattern = (exponent << 52) | fraction;
            let x = f64::from_bits(pattern);
            if x.is_nan() {
                assert!(binary64::is_nan(binary64::doubled(pattern)));
            } else {
                assert_eq!(binary64::doubled(pattern), bits(2.0 * x), "{:#x}", pattern);
                assert_eq!(
                    binary64::doubled(pattern | binary64::SIGN_BIT),
                    bits(2.0 * -x),
                    "-{:#x}",
                    pattern
                );
            }
        }
    }
    assert!(binary64::is_nan(binary64::doubled(bits(f64::NAN))));
}

#[test]
fn the_rank_orders_patterns_as_numbers() {
    let values = [f64::NEG_INFINITY, -2.0, -5e-324, -0.0, 0.0, 5e-324, 2.0, f64::INFINITY];
    for &a in values.iter() {
        for &b in values.iter() {
            assert_eq!(
                binary64::order_key(bits(a)) < binary64::order_key(bits(b)),
                a < b,
                "{} < {}",
                a,
                b
            );
        }
    }
    assert_eq!(binary64::order_key(bits(-0.0)), 0);
    assert_eq!(binary64::order_key(bits(0.0)), 0);
    assert_eq!(binary64::order_key(1), 1);
    assert_eq!(binary64::order_key(binary64::SIGN_BIT + 1), -1);
}
