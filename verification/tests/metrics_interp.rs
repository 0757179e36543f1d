use position_math::interp::{interpolate, InterpError};
use position_math::metrics::{
    calc_diff, calc_pnl_long, calc_pnl_short, calc_pprice_diff_int, calc_wallet_exposure,
    calc_wallet_exposure_if_filled, cost_to_qty, qty_to_cost, Diff, ExchangeParams,
    PriceDiffError, Side,
};
use position_math::rational::Rational;
use position_math::unstuck::calc_auto_unstuck_allowance;

fn r(num: i64, den: i64) -> Rational {
    Rational::new(num, den).unwrap()
}

#[test]
fn diff_of_two_zeros_is_zero() {
    match calc_diff(&r(0, 1), &r(0, 1)).unwrap() {
        Diff::Finite(c) => assert!(c.is_zero()),
        Diff::Infinite => panic!("expected a finite deviation"),
    }
}

#[test]
fn diff_against_zero_baseline_is_unbounded() {
    assert_eq!(calc_diff(&r(5, 1), &r(0, 1)).unwrap(), Diff::Infinite);
}

#[test]
fn diff_formula_for_nonzero_baseline() {
    // |3 - 2| / |2| == 1/2
    match calc_diff(&r(3, 1), &r(2, 1)).unwrap() {
        Diff::Finite(c) => assert!(c.equivalent(&r(1, 2))),
        Diff::Infinite => panic!("expected a finite deviation"),
    }
    // |1 - (-2)| / |-2| == 3/2
    match calc_diff(&r(1, 1), &r(-2, 1)).unwrap() {
        Diff::Finite(c) => assert!(c.equivalent(&r(3, 2))),
        Diff::Infinite => panic!("expected a finite deviation"),
    }
}

#[test]
fn qty_to_cost_ignores_sign() {
    let cost_pos = qty_to_cost(&r(2, 1), &r(5, 1), &r(3, 1)).unwrap();
    let cost_neg = qty_to_cost(&r(-2, 1), &r(5, 1), &r(3, 1)).unwrap();
    assert!(cost_pos.equivalent(&r(30, 1)));
    assert!(cost_pos.equivalent(&cost_neg));
}

#[test]
fn cost_to_qty_divides_or_guards() {
    assert!(cost_to_qty(&r(30, 1), &r(5, 1), &r(3, 1)).unwrap().equivalent(&r(2, 1)));
    // a non-positive price yields zero, not a division
    assert!(cost_to_qty(&r(30, 1), &r(0, 1), &r(3, 1)).unwrap().is_zero());
    assert!(cost_to_qty(&r(30, 1), &r(-5, 1), &r(3, 1)).unwrap().is_zero());
}

#[test]
fn wallet_exposure_zero_for_nonpositive_balance() {
    assert!(calc_wallet_exposure(&r(1, 1), &r(0, 1), &r(2, 1), &r(25, 1)).unwrap().is_zero());
    assert!(calc_wallet_exposure(&r(1, 1), &r(-5, 1), &r(2, 1), &r(25, 1)).unwrap().is_zero());
}

#[test]
fn wallet_exposure_zero_for_flat_position() {
    assert!(calc_wallet_exposure(&r(1, 1), &r(100, 1), &r(0, 1), &r(25, 1)).unwrap().is_zero());
}

#[test]
fn wallet_exposure_cost_over_balance() {
    // cost 2 * 25 * 1 = 50 over balance 100: exposure 1/2
    let e = calc_wallet_exposure(&r(1, 1), &r(100, 1), &r(2, 1), &r(25, 1)).unwrap();
    assert!(e.equivalent(&r(1, 2)));
}

#[test]
fn wallet_exposure_if_filled_simulates_the_fill() {
    let params = ExchangeParams { qty_step: r(1, 100), c_mult: r(1, 1) };
    // (1, 100) plus fill (1, 200) becomes (2, 150): cost 300 over balance 100
    let e = calc_wallet_exposure_if_filled(
        &r(100, 1),
        &r(1, 1),
        &r(100, 1),
        &r(1, 1),
        &r(200, 1),
        &params,
    )
    .unwrap();
    assert!(e.equivalent(&r(3, 1)));
}

#[test]
fn pnl_long_gains_on_rise() {
    let p = calc_pnl_long(&r(100, 1), &r(110, 1), &r(-2, 1), &r(1, 1)).unwrap();
    assert!(p.equivalent(&r(20, 1)));
    let loss = calc_pnl_long(&r(100, 1), &r(95, 1), &r(2, 1), &r(1, 1)).unwrap();
    assert!(loss.equivalent(&r(-10, 1)));
}

#[test]
fn pnl_short_gains_on_fall() {
    let p = calc_pnl_short(&r(100, 1), &r(90, 1), &r(2, 1), &r(1, 1)).unwrap();
    assert!(p.equivalent(&r(20, 1)));
}

#[test]
fn pprice_diff_long_and_short_mirror() {
    // long at 100 with price 90: 1 - 90/100 = 1/10
    let long = calc_pprice_diff_int(Side::Long, &r(100, 1), &r(90, 1)).unwrap();
    assert!(long.equivalent(&r(1, 10)));
    // short at 100 with price 90: 90/100 - 1 = -1/10
    let short = calc_pprice_diff_int(Side::Short, &r(100, 1), &r(90, 1)).unwrap();
    assert!(short.equivalent(&r(-1, 10)));
}

#[test]
fn pprice_diff_guards_nonpositive_entry() {
    assert!(calc_pprice_diff_int(Side::Long, &r(0, 1), &r(90, 1)).unwrap().is_zero());
    assert!(calc_pprice_diff_int(Side::Short, &r(-1, 1), &r(90, 1)).unwrap().is_zero());
}

#[test]
fn pprice_diff_rejects_sentinel_sides() {
    assert_eq!(
        calc_pprice_diff_int(Side::NoPos, &r(100, 1), &r(90, 1)),
        Err(PriceDiffError::InvalidSide)
    );
    assert_eq!(
        calc_pprice_diff_int(Side::Close, &r(100, 1), &r(90, 1)),
        Err(PriceDiffError::InvalidSide)
    );
}

#[test]
fn interpolate_recovers_a_line() {
    // xs = [0, 1, 2], ys = [1, 3, 5] lie on y = 2x + 1; at x = 1.5 the
    // value is 4
    let xs = vec![r(0, 1), r(1, 1), r(2, 1)];
    let ys = vec![r(1, 1), r(3, 1), r(5, 1)];
    let v = interpolate(&r(3, 2), &xs, &ys).unwrap();
    assert!(v.equivalent(&r(4, 1)));
}

#[test]
fn interpolate_hits_the_knots() {
    let xs = vec![r(0, 1), r(1, 1), r(2, 1)];
    let ys = vec![r(1, 1), r(3, 1), r(5, 1)];
    for i in 0..3 {
        let v = interpolate(&xs[i], &xs, &ys).unwrap();
        assert!(v.equivalent(&ys[i]));
    }
}

#[test]
fn interpolate_quadratic_exactly() {
    // xs = [0, 1, 2], ys = [0, 1, 4] lie on y = x^2; at x = 1/2 the value
    // is 1/4
    let xs = vec![r(0, 1), r(1, 1), r(2, 1)];
    let ys = vec![r(0, 1), r(1, 1), r(4, 1)];
    let v = interpolate(&r(1, 2), &xs, &ys).unwrap();
    assert!(v.equivalent(&r(1, 4)));
}

#[test]
fn interpolate_rejects_mismatched_lengths() {
    let xs = vec![r(0, 1), r(1, 1)];
    let ys = vec![r(1, 1)];
    assert_eq!(interpolate(&r(1, 2), &xs, &ys), Err(InterpError::LengthMismatch));
}

#[test]
fn interpolate_reports_overflow() {
    // the first term multiplies i64::MAX by (3 - 1) / (0 - 1) = -2
    let xs = vec![r(0, 1), r(1, 1)];
    let ys = vec![Rational { num: i64::MAX, den: 1 }, r(0, 1)];
    assert_eq!(interpolate(&r(3, 1), &xs, &ys), Err(InterpError::Overflow));
}

#[test]
fn auto_unstuck_allowance_at_peak() {
    // at the PnL peak the whole percentage of the peak balance is allowed:
    // balance 100, pct 1%, peak reconstruction adds nothing
    let a = calc_auto_unstuck_allowance(&r(100, 1), &r(1, 100), &r(50, 1), &r(50, 1)).unwrap();
    assert!(a.equivalent(&r(1, 1)));
}

#[test]
fn auto_unstuck_allowance_shrinks_with_drawdown() {
    // balance 99 after losing 1 from peak 100: 2% of 100 minus the 1%
    // drawdown leaves 1
    let a = calc_auto_unstuck_allowance(&r(99, 1), &r(2, 100), &r(1, 1), &r(0, 1)).unwrap();
    assert!(a.equivalent(&r(1, 1)));
}

#[test]
fn auto_unstuck_allowance_clamps_at_zero() {
    // drawdown deeper than the allowance: hard zero, not a negative budget
    let a = calc_auto_unstuck_allowance(&r(100, 1), &r(1, 100), &r(60, 1), &r(50, 1)).unwrap();
    assert!(a.is_zero());
}
