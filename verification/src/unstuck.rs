//! The auto-unstuck allowance: how much additional realized loss may be
//! taken right now when unwinding a stuck position, bounded by an allowed
//! drawdown from the historical balance peak.

use vstd::prelude::*;
use crate::rational::{
    lemma_rat_le_trans, rat_add, rat_div, rat_fits, rat_is_pos, rat_le, rat_max, rat_mul, rat_one,
    rat_sub, rat_wf, rat_zero, Rat, Rational,
};

verus! {

/// The balance the account would show at the historical PnL peak:
/// `balance + (pnl_cumsum_max - pnl_cumsum_last)`.
pub open spec fn spec_balance_peak(balance: Rat, pnl_cumsum_max: Rat, pnl_cumsum_last: Rat)
    -> Rat {
    rat_add(balance, rat_sub(pnl_cumsum_max, pnl_cumsum_last))
}

/// Relative drop of the balance since the peak: `balance / peak - 1`
/// (non-positive while below the peak).
pub open spec fn spec_drop_since_peak(balance: Rat, balance_peak: Rat) -> Rat {
    rat_sub(rat_div(balance, balance_peak), rat_one())
}

/// The allowance given a peak balance, an allowed loss percentage and the
/// drop since the peak: `max(0, balance_peak * (pct + drop))`.
pub open spec fn spec_allowance_of_drop(balance_peak: Rat, pct: Rat, drop: Rat) -> Rat {
    rat_max(rat_mul(balance_peak, rat_add(pct, drop)), rat_zero())
}

/// The full allowance formula over the caller's raw inputs.
pub open spec fn spec_auto_unstuck_allowance(
    balance: Rat,
    loss_allowance_pct: Rat,
    pnl_cumsum_max: Rat,
    pnl_cumsum_last: Rat,
) -> Rat {
    let bp = spec_balance_peak(balance, pnl_cumsum_max, pnl_cumsum_last);
    spec_allowance_of_drop(bp, loss_allowance_pct, spec_drop_since_peak(balance, bp))
}

/// When every intermediate of [`spec_auto_unstuck_allowance`] fits the
/// representation.
pub open spec fn auto_unstuck_allowance_fits(
    balance: Rat,
    loss_allowance_pct: Rat,
    pnl_cumsum_max: Rat,
    pnl_cumsum_last: Rat,
) -> bool {
    rat_fits(rat_sub(pnl_cumsum_max, pnl_cumsum_last)) && rat_fits(
        spec_balance_peak(balance, pnl_cumsum_max, pnl_cumsum_last),
    ) && {
        let bp = spec_balance_peak(balance, pnl_cumsum_max, pnl_cumsum_last);
        rat_fits(rat_div(balance, bp)) && rat_fits(spec_drop_since_peak(balance, bp)) && rat_fits(
            rat_add(loss_allowance_pct, spec_drop_since_peak(balance, bp)),
        ) && rat_fits(
            rat_mul(bp, rat_add(loss_allowance_pct, spec_drop_since_peak(balance, bp))),
        )
    }
}

/// Additional realized loss permitted right now, clamped at zero from below.
/// The caller keeps the reconstructed peak balance strictly positive, as the
/// formula divides by it.  `None` exactly when an intermediate does not fit.
pub fn calc_auto_unstuck_allowance(
    balance: &Rational,
    loss_allowance_pct: &Rational,
    pnl_cumsum_max: &Rational,
    pnl_cumsum_last: &Rational,
) -> (r: Option<Rational>)
    requires
        balance.wf(),
        loss_allowance_pct.wf(),
        pnl_cumsum_max.wf(),
        pnl_cumsum_last.wf(),
        rat_is_pos(spec_balance_peak(balance@, pnl_cumsum_max@, pnl_cumsum_last@)),
    ensures
        r is Some <==> auto_unstuck_allowance_fits(
            balance@,
            loss_allowance_pct@,
            pnl_cumsum_max@,
            pnl_cumsum_last@,
        ),
        r matches Some(c) ==> c.wf() && c@ == spec_auto_unstuck_allowance(
            balance@,
            loss_allowance_pct@,
            pnl_cumsum_max@,
            pnl_cumsum_last@,
        ),
{
    let d = match pnl_cumsum_max.sub(pnl_cumsum_last) {
        Some(v) => v,
        None => return None,
    };
    let bp = match balance.add(&d) {
        Some(v) => v,
        None => return None,
    };
    let q = match balance.div(&bp) {
        Some(v) => v,
        None => return None,
    };
    let one = Rational::from_int(1);
    let drop = match q.sub(&one) {
        Some(v) => v,
        None => return None,
    };
    let s = match loss_allowance_pct.add(&drop) {
        Some(v) => v,
        None => return None,
    };
    let m = match bp.mul(&s) {
        Some(v) => v,
        None => return None,
    };
    let zero = Rational::from_int(0);
    Some(m.max_with(&zero))
}

/// The allowance is never negative, whatever the inputs.
pub proof fn lemma_allowance_nonneg(balance_peak: Rat, pct: Rat, drop: Rat)
    ensures
        rat_le(rat_zero(), spec_allowance_of_drop(balance_peak, pct, drop)),
{
}

/// The allowance never negative, stated over the raw inputs of the formula.
pub proof fn lemma_auto_unstuck_allowance_nonneg(
    balance: Rat,
    loss_allowance_pct: Rat,
    pnl_cumsum_max: Rat,
    pnl_cumsum_last: Rat,
)
    ensures
        rat_le(
            rat_zero(),
            spec_auto_unstuck_allowance(
                balance,
                loss_allowance_pct,
                pnl_cumsum_max,
                pnl_cumsum_last,
            ),
        ),
{
}

/// For a positive peak balance the allowance only shrinks as the drop since
/// the peak worsens: a smaller (more negative) drop never yields a larger
/// allowance.
pub proof fn lemma_allowance_monotone_in_drop(balance_peak: Rat, pct: Rat, d1: Rat, d2: Rat)
    requires
        rat_wf(balance_peak),
        rat_wf(pct),
        rat_wf(d1),
        rat_wf(d2),
        rat_is_pos(balance_peak),
        rat_le(d1, d2),
    ensures
        rat_le(
            spec_allowance_of_drop(balance_peak, pct, d1),
            spec_allowance_of_drop(balance_peak, pct, d2),
        ),
{
    let s1 = rat_add(pct, d1);
    let s2 = rat_add(pct, d2);
    assert((pct.n * d1.d + d1.n * pct.d) * (pct.d * d2.d) <= (pct.n * d2.d + d2.n * pct.d) * (
    pct.d * d1.d)) by (nonlinear_arith)
        requires
            d1.n * d2.d <= d2.n * d1.d,
            pct.d > 0,
            d1.d > 0,
            d2.d > 0,
    ;
    let x1 = rat_mul(balance_peak, s1);
    let x2 = rat_mul(balance_peak, s2);
    assert((balance_peak.n * s1.n) * (balance_peak.d * s2.d) <= (balance_peak.n * s2.n) * (
    balance_peak.d * s1.d)) by (nonlinear_arith)
        requires
            s1.n * s2.d <= s2.n * s1.d,
            balance_peak.n > 0,
            balance_peak.d > 0,
    ;
    assert(x1.d > 0 && x2.d > 0) by (nonlinear_arith)
        requires
            x1.d == balance_peak.d * (pct.d * d1.d),
            x2.d == balance_peak.d * (pct.d * d2.d),
            balance_peak.d > 0,
            pct.d > 0,
            d1.d > 0,
            d2.d > 0,
    ;
    if rat_le(x1, rat_zero()) {
        if !rat_le(x2, rat_zero()) {
            assert(rat_le(rat_zero(), x2));
        }
    } else {
        if rat_le(x2, rat_zero()) {
            lemma_rat_le_trans(x1, x2, rat_zero());
        }
    }
}

} // verus!
