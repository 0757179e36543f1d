use position_math::position::calc_new_psize_pprice;
use position_math::quantize::{round_, round_dn, round_to_decimal_places, round_up};
use position_math::rational::Rational;

fn r(num: i64, den: i64) -> Rational {
    Rational::new(num, den).unwrap()
}

#[test]
fn round_dn_and_up_basic() {
    // 0.7 with step 0.25: down to 0.5, up to 0.75
    let n = r(7, 10);
    let step = r(1, 4);
    assert!(round_dn(&n, &step).unwrap().equivalent(&r(1, 2)));
    assert!(round_up(&n, &step).unwrap().equivalent(&r(3, 4)));
}

#[test]
fn round_brackets_the_argument() {
    // round_dn(n) <= n <= round_up(n), both within one step
    let n = r(-13, 7);
    let step = r(1, 5);
    let dn = round_dn(&n, &step).unwrap();
    let up = round_up(&n, &step).unwrap();
    assert!(dn.le(&n));
    assert!(n.le(&up));
    assert!(n.sub(&dn).unwrap().lt(&step));
    assert!(up.sub(&n).unwrap().lt(&step));
}

#[test]
fn round_exact_multiple_stays_fixed() {
    let n = r(3, 4);
    let step = r(1, 4);
    assert!(round_dn(&n, &step).unwrap().equivalent(&n));
    assert!(round_up(&n, &step).unwrap().equivalent(&n));
    assert!(round_(&n, &step).unwrap().equivalent(&n));
}

#[test]
fn round_nearest_ties_away_from_zero() {
    let step = r(1, 4);
    // 0.125 is a tie between 0 and 0.25: away from zero
    assert!(round_(&r(1, 8), &step).unwrap().equivalent(&r(1, 4)));
    assert!(round_(&r(-1, 8), &step).unwrap().equivalent(&r(-1, 4)));
    // 0.3 is nearer to 0.25 than to 0.5
    assert!(round_(&r(3, 10), &step).unwrap().equivalent(&r(1, 4)));
}

#[test]
fn round_nearest_is_idempotent() {
    let n = r(104, 100);
    let step = r(1, 100);
    let once = round_(&n, &step).unwrap();
    let twice = round_(&once, &step).unwrap();
    assert_eq!(once, twice);
}

#[test]
fn round_to_decimal_places_basic() {
    // 1.23456 to two decimal places: 1.23
    assert!(round_to_decimal_places(&r(123456, 100000), 2).unwrap().equivalent(&r(123, 100)));
    // tie 0.005 goes away from zero: 0.01
    assert!(round_to_decimal_places(&r(5, 1000), 2).unwrap().equivalent(&r(1, 100)));
    assert!(round_to_decimal_places(&r(-5, 1000), 2).unwrap().equivalent(&r(-1, 100)));
}

#[test]
fn position_close_resets_price_to_zero() {
    // (1.0, 100.0) plus fill (-1.0, 100.0) with step 0.01 closes exactly
    let (size, price) = calc_new_psize_pprice(
        &r(1, 1),
        &r(100, 1),
        &r(-1, 1),
        &r(100, 1),
        &r(1, 100),
    )
    .unwrap();
    assert!(size.is_zero());
    assert!(price.is_zero());
}

#[test]
fn position_opens_from_flat_verbatim() {
    // flat position plus fill (2.0, 50.0) becomes (2.0, 50.0)
    let (size, price) = calc_new_psize_pprice(
        &r(0, 1),
        &r(0, 1),
        &r(2, 1),
        &r(50, 1),
        &r(1, 100),
    )
    .unwrap();
    assert!(size.equivalent(&r(2, 1)));
    assert!(price.equivalent(&r(50, 1)));
}

#[test]
fn position_weighted_average_price() {
    // (1.0, 100.0) plus fill (1.0, 200.0) averages to (2.0, 150.0)
    let (size, price) = calc_new_psize_pprice(
        &r(1, 1),
        &r(100, 1),
        &r(1, 1),
        &r(200, 1),
        &r(1, 100),
    )
    .unwrap();
    assert!(size.equivalent(&r(2, 1)));
    assert!(price.equivalent(&r(150, 1)));
}

#[test]
fn position_zero_fill_is_identity() {
    let (size, price) = calc_new_psize_pprice(
        &r(3, 2),
        &r(99, 1),
        &r(0, 1),
        &r(123, 1),
        &r(1, 100),
    )
    .unwrap();
    assert_eq!(size, r(3, 2));
    assert_eq!(price, r(99, 1));
}

#[test]
fn position_sum_is_step_quantized() {
    // 1.0 + 0.004 with step 0.01 rounds to 1.0; the price still averages
    // against the exact fill quantity: 100 + 200 * 0.004 = 100.8
    let (size, price) = calc_new_psize_pprice(
        &r(1, 1),
        &r(100, 1),
        &r(4, 1000),
        &r(200, 1),
        &r(1, 100),
    )
    .unwrap();
    assert!(size.equivalent(&r(1, 1)));
    assert!(price.equivalent(&r(504, 5)));
}
