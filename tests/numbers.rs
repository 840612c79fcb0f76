use gym::number::Real;

fn re(x: f64) -> Real {
    Real::from_bits(x.to_bits())
}

#[test]
fn small_integers_convert_exactly() {
    for k in [0i128, 1, -1, 2, 3, -7, 255, 1 << 20, (1 << 53) - 1, -((1 << 53) - 1)] {
        let r = Real::from_int(k).unwrap();
        assert_eq!(f64::from_bits(r.to_bits()), k as f64, "{}", k);
    }
    assert_eq!(Real::from_int(1).unwrap().to_bits(), 0x3FF0_0000_0000_0000);
    assert_eq!(Real::from_int(-2).unwrap().to_bits(), 0xC000_0000_0000_0000);
    assert_eq!(Real::from_int(3).unwrap().to_bits(), 0x4008_0000_0000_0000);
}

#[test]
fn large_integers_are_refused() {
    assert!(Real::from_int(1 << 53).is_none());
    assert!(Real::from_int(-(1 << 53)).is_none());
    assert!(Real::from_int(i128::MAX).is_none());
}

#[test]
fn flags_are_zero_and_one() {
    assert_eq!(f64::from_bits(Real::from_flag(true).to_bits()), 1.0);
    assert_eq!(f64::from_bits(Real::from_flag(false).to_bits()), 0.0);
}

#[test]
fn comparisons_follow_ieee() {
    let values = [
        f64::NEG_INFINITY, -1e300, -2.5, -1.0, -1e-310, -0.0, 0.0, 1e-310, 0.5, 1.0, 3.0, 1e300,
        f64::INFINITY, f64::NAN,
    ];
    for a in values {
        for b in values {
            assert_eq!(re(a).lt(&re(b)), a < b, "{} < {}", a, b);
            assert_eq!(re(a).le(&re(b)), a <= b, "{} <= {}", a, b);
        }
    }
    assert!(re(f64::NAN).is_nan());
    assert!(!re(f64::INFINITY).is_nan());
}
