use position_math::rational::Rational;

fn r(num: i64, den: i64) -> Rational {
    Rational::new(num, den).unwrap()
}

#[test]
fn new_normalizes_negative_denominator() {
    let v = Rational::new(1, -2).unwrap();
    assert_eq!(v.num, -1);
    assert_eq!(v.den, 2);
}

#[test]
fn new_rejects_zero_denominator() {
    assert!(Rational::new(3, 0).is_none());
}

#[test]
fn from_int_roundtrip() {
    let v = Rational::from_int(-7);
    assert_eq!(v.num, -7);
    assert_eq!(v.den, 1);
}

#[test]
fn add_exact() {
    // 1/2 + 1/3 == 5/6
    let s = r(1, 2).add(&r(1, 3)).unwrap();
    assert!(s.equivalent(&r(5, 6)));
}

#[test]
fn sub_exact() {
    // 1/2 - 1/3 == 1/6
    let s = r(1, 2).sub(&r(1, 3)).unwrap();
    assert!(s.equivalent(&r(1, 6)));
}

#[test]
fn mul_keeps_value_without_normalizing() {
    let p = r(2, 3).mul(&r(3, 4)).unwrap();
    assert_eq!(p, Rational { num: 6, den: 12 });
    assert!(p.equivalent(&r(1, 2)));
}

#[test]
fn div_by_negative_keeps_denominator_positive() {
    let q = r(1, 2).div(&r(-1, 3)).unwrap();
    assert!(q.den > 0);
    assert!(q.equivalent(&r(-3, 2)));
}

#[test]
fn add_overflow_is_reported() {
    let big = Rational { num: i64::MAX, den: 1 };
    assert!(big.add(&r(1, 1)).is_none());
    assert!(big.add(&r(0, 1)).is_some());
}

#[test]
fn abs_and_neg() {
    assert!(r(-3, 4).abs().unwrap().equivalent(&r(3, 4)));
    assert!(r(3, 4).neg().unwrap().equivalent(&r(-3, 4)));
    assert!(Rational { num: i64::MIN, den: 1 }.abs().is_none());
}

#[test]
fn comparisons_follow_values() {
    assert!(r(1, 3).lt(&r(1, 2)));
    assert!(r(1, 2).le(&r(2, 4)));
    assert!(!r(1, 2).lt(&r(2, 4)));
    assert!(r(2, 4).equivalent(&r(1, 2)));
    assert!(!r(2, 4).equivalent(&r(1, 3)));
}

#[test]
fn max_with_picks_larger_value() {
    assert!(r(-1, 2).max_with(&r(1, 3)).equivalent(&r(1, 3)));
    assert!(r(1, 2).max_with(&r(1, 3)).equivalent(&r(1, 2)));
}

#[test]
fn sign_tests() {
    assert!(r(0, 5).is_zero());
    assert!(r(1, 5).is_pos());
    assert!(r(-1, 5).is_neg());
    assert!(!r(-1, 5).is_pos());
}
