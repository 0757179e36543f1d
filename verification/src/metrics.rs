//! Exposure, profit and deviation metrics derived from a position and a
//! price.

use vstd::prelude::*;
use crate::position::{calc_new_psize_pprice, new_psize_pprice, new_psize_pprice_fits};
use crate::quantize::{round_, spec_round_nearest};
use crate::rational::{
    rat_abs, rat_div, rat_fits, rat_is_pos, rat_is_zero, rat_le, rat_mul, rat_neg, rat_one,
    rat_sub, rat_zero, Rat, Rational,
};

verus! {

/// Per-symbol exchange constraints: the smallest tradable quantity increment
/// and the contract multiplier turning quantity times price into cost.  Both
/// are positive ([`ExchangeParams::wf`]).
#[derive(Clone, Copy, Debug, PartialEq, Eq, Structural)]
pub struct ExchangeParams {
    pub qty_step: Rational,
    pub c_mult: Rational,
}

impl ExchangeParams {
    /// Both constraints are well-formed and positive.
    pub open spec fn wf(&self) -> bool {
        self.qty_step.wf() && rat_is_pos(self.qty_step@) && self.c_mult.wf() && rat_is_pos(
            self.c_mult@,
        )
    }
}

/// A relative deviation: finite, or unbounded against a zero baseline.
#[derive(Clone, Copy, Debug, PartialEq, Eq, Structural)]
pub enum Diff {
    Finite(Rational),
    Infinite,
}

/// `|x - y| / |y|` (defined for `y != 0`).
pub open spec fn spec_calc_diff(x: Rat, y: Rat) -> Rat {
    rat_div(rat_abs(rat_sub(x, y)), rat_abs(y))
}

/// When every intermediate of [`spec_calc_diff`] fits the representation.
pub open spec fn calc_diff_fits(x: Rat, y: Rat) -> bool {
    rat_fits(rat_sub(x, y)) && rat_fits(rat_abs(rat_sub(x, y))) && rat_fits(rat_abs(y)) && rat_fits(
        spec_calc_diff(x, y),
    )
}

/// Relative difference of `x` against the baseline `y`: `|x - y| / |y|`,
/// with the zero-baseline policy: zero when both are zero, unbounded when
/// only `y` is zero.  `None` exactly when an intermediate does not fit.
pub fn calc_diff(x: &Rational, y: &Rational) -> (r: Option<Diff>)
    requires
        x.wf(),
        y.wf(),
    ensures
        r is Some <==> (rat_is_zero(y@) || calc_diff_fits(x@, y@)),
        r matches Some(d) ==> match d {
            Diff::Infinite => rat_is_zero(y@) && !rat_is_zero(x@),
            Diff::Finite(c) => c.wf() && if rat_is_zero(y@) {
                rat_is_zero(x@) && c@ == rat_zero()
            } else {
                c@ == spec_calc_diff(x@, y@)
            },
        },
{
    if y.is_zero() {
        if x.is_zero() {
            Some(Diff::Finite(Rational::from_int(0)))
        } else {
            Some(Diff::Infinite)
        }
    } else {
        let d = match x.sub(y) {
            Some(v) => v,
            None => return None,
        };
        let ad = match d.abs() {
            Some(v) => v,
            None => return None,
        };
        let ay = match y.abs() {
            Some(v) => v,
            None => return None,
        };
        match ad.div(&ay) {
            Some(v) => Some(Diff::Finite(v)),
            None => None,
        }
    }
}

/// `|qty| * price * c_mult`.
pub open spec fn spec_qty_to_cost(qty: Rat, price: Rat, c_mult: Rat) -> Rat {
    rat_mul(rat_mul(rat_abs(qty), price), c_mult)
}

/// When every intermediate of [`spec_qty_to_cost`] fits the representation.
pub open spec fn qty_to_cost_fits(qty: Rat, price: Rat, c_mult: Rat) -> bool {
    rat_fits(rat_abs(qty)) && rat_fits(rat_mul(rat_abs(qty), price)) && rat_fits(
        spec_qty_to_cost(qty, price, c_mult),
    )
}

/// The cost of a quantity at a price: `|qty| * price * c_mult`.  `None`
/// exactly when an intermediate does not fit.
pub fn qty_to_cost(qty: &Rational, price: &Rational, c_mult: &Rational) -> (r: Option<Rational>)
    requires
        qty.wf(),
        price.wf(),
        c_mult.wf(),
    ensures
        r is Some <==> qty_to_cost_fits(qty@, price@, c_mult@),
        r matches Some(c) ==> c.wf() && c@ == spec_qty_to_cost(qty@, price@, c_mult@),
{
    let aq = match qty.abs() {
        Some(v) => v,
        None => return None,
    };
    let m = match aq.mul(price) {
        Some(v) => v,
        None => return None,
    };
    m.mul(c_mult)
}

/// `cost / (price * c_mult)` when the price is positive, else zero.
pub open spec fn spec_cost_to_qty(cost: Rat, price: Rat, c_mult: Rat) -> Rat {
    if rat_is_pos(price) {
        rat_div(rat_div(cost, price), c_mult)
    } else {
        rat_zero()
    }
}

/// When every intermediate of [`spec_cost_to_qty`] fits the representation.
pub open spec fn cost_to_qty_fits(cost: Rat, price: Rat, c_mult: Rat) -> bool {
    !rat_is_pos(price) || (rat_fits(rat_div(cost, price)) && rat_fits(
        spec_cost_to_qty(cost, price, c_mult),
    ))
}

/// The quantity a cost buys at a price: `(cost / price) / c_mult` for a
/// positive price, and zero otherwise (a non-positive price marks "no
/// price", not a divisor).  `None` exactly when an intermediate does not
/// fit.
pub fn cost_to_qty(cost: &Rational, price: &Rational, c_mult: &Rational) -> (r: Option<Rational>)
    requires
        cost.wf(),
        price.wf(),
        c_mult.wf(),
        rat_is_pos(c_mult@),
    ensures
        r is Some <==> cost_to_qty_fits(cost@, price@, c_mult@),
        r matches Some(c) ==> c.wf() && c@ == spec_cost_to_qty(cost@, price@, c_mult@),
{
    if price.is_pos() {
        let q = match cost.div(price) {
            Some(v) => v,
            None => return None,
        };
        q.div(c_mult)
    } else {
        Some(Rational::from_int(0))
    }
}

/// The fraction of the balance committed to the position, zero for a
/// non-positive balance or a flat position.
pub open spec fn spec_wallet_exposure(c_mult: Rat, balance: Rat, psize: Rat, pprice: Rat) -> Rat {
    if !rat_is_pos(balance) || rat_is_zero(psize) {
        rat_zero()
    } else {
        rat_div(spec_qty_to_cost(psize, pprice, c_mult), balance)
    }
}

/// When every intermediate of [`spec_wallet_exposure`] fits the
/// representation.
pub open spec fn wallet_exposure_fits(c_mult: Rat, balance: Rat, psize: Rat, pprice: Rat) -> bool {
    (!rat_is_pos(balance) || rat_is_zero(psize)) || (qty_to_cost_fits(psize, pprice, c_mult)
        && rat_fits(spec_wallet_exposure(c_mult, balance, psize, pprice)))
}

/// Wallet exposure of a position: position cost over balance, and zero
/// whenever the balance is non-positive or the position flat.  `None`
/// exactly when an intermediate does not fit.
pub fn calc_wallet_exposure(
    c_mult: &Rational,
    balance: &Rational,
    position_size: &Rational,
    position_price: &Rational,
) -> (r: Option<Rational>)
    requires
        c_mult.wf(),
        balance.wf(),
        position_size.wf(),
        position_price.wf(),
    ensures
        r is Some <==> wallet_exposure_fits(c_mult@, balance@, position_size@, position_price@),
        r matches Some(c) ==> c.wf() && c@ == spec_wallet_exposure(
            c_mult@,
            balance@,
            position_size@,
            position_price@,
        ),
{
    if !balance.is_pos() || position_size.is_zero() {
        return Some(Rational::from_int(0));
    }
    let cost = match qty_to_cost(position_size, position_price, c_mult) {
        Some(v) => v,
        None => return None,
    };
    cost.div(balance)
}

/// A non-positive balance always yields exposure zero, whatever the
/// position.
pub proof fn lemma_wallet_exposure_zero_balance(c_mult: Rat, balance: Rat, psize: Rat, pprice: Rat)
    requires
        rat_le(balance, rat_zero()),
    ensures
        spec_wallet_exposure(c_mult, balance, psize, pprice) == rat_zero(),
{
}

/// The cost of a quantity ignores the quantity's sign.
pub proof fn lemma_qty_to_cost_sign_independent(qty: Rat, price: Rat, c_mult: Rat)
    ensures
        spec_qty_to_cost(rat_neg(qty), price, c_mult) == spec_qty_to_cost(qty, price, c_mult),
{
}

/// The exposure the wallet would have after a hypothetical fill: the stored
/// size and the fill quantity are first made non-negative and step-quantized,
/// the fill is merged by the position update, and the exposure of the result
/// is reported.
pub open spec fn spec_wallet_exposure_if_filled(
    balance: Rat,
    psize: Rat,
    pprice: Rat,
    qty: Rat,
    price: Rat,
    qty_step: Rat,
    c_mult: Rat,
) -> Rat {
    let psize_q = spec_round_nearest(rat_abs(psize), qty_step);
    let qty_q = spec_round_nearest(rat_abs(qty), qty_step);
    let np = new_psize_pprice(psize_q, pprice, qty_q, price, qty_step);
    spec_wallet_exposure(c_mult, balance, np.0, np.1)
}

/// When every intermediate of [`spec_wallet_exposure_if_filled`] fits the
/// representation.
pub open spec fn wallet_exposure_if_filled_fits(
    balance: Rat,
    psize: Rat,
    pprice: Rat,
    qty: Rat,
    price: Rat,
    qty_step: Rat,
    c_mult: Rat,
) -> bool {
    rat_fits(rat_abs(psize)) && rat_fits(spec_round_nearest(rat_abs(psize), qty_step)) && rat_fits(
        rat_abs(qty),
    ) && rat_fits(spec_round_nearest(rat_abs(qty), qty_step)) && {
        let psize_q = spec_round_nearest(rat_abs(psize), qty_step);
        let qty_q = spec_round_nearest(rat_abs(qty), qty_step);
        new_psize_pprice_fits(psize_q, pprice, qty_q, price, qty_step) && {
            let np = new_psize_pprice(psize_q, pprice, qty_q, price, qty_step);
            wallet_exposure_fits(c_mult, balance, np.0, np.1)
        }
    }
}

/// Simulates a fill and reports the exposure the wallet would then have;
/// purely a computation on the arguments, nothing is stored.  `None` exactly
/// when an intermediate does not fit.
pub fn calc_wallet_exposure_if_filled(
    balance: &Rational,
    psize: &Rational,
    pprice: &Rational,
    qty: &Rational,
    price: &Rational,
    exchange_params: &ExchangeParams,
) -> (r: Option<Rational>)
    requires
        balance.wf(),
        psize.wf(),
        pprice.wf(),
        qty.wf(),
        price.wf(),
        exchange_params.wf(),
    ensures
        r is Some <==> wallet_exposure_if_filled_fits(
            balance@,
            psize@,
            pprice@,
            qty@,
            price@,
            exchange_params.qty_step@,
            exchange_params.c_mult@,
        ),
        r matches Some(c) ==> c.wf() && c@ == spec_wallet_exposure_if_filled(
            balance@,
            psize@,
            pprice@,
            qty@,
            price@,
            exchange_params.qty_step@,
            exchange_params.c_mult@,
        ),
{
    let ap = match psize.abs() {
        Some(v) => v,
        None => return None,
    };
    let psize_q = match round_(&ap, &exchange_params.qty_step) {
        Some(v) => v,
        None => return None,
    };
    let aq = match qty.abs() {
        Some(v) => v,
        None => return None,
    };
    let qty_q = match round_(&aq, &exchange_params.qty_step) {
        Some(v) => v,
        None => return None,
    };
    let np = match calc_new_psize_pprice(&psize_q, pprice, &qty_q, price,
        &exchange_params.qty_step) {
        Some(v) => v,
        None => return None,
    };
    calc_wallet_exposure(&exchange_params.c_mult, balance, &np.0, &np.1)
}

/// `|qty| * c_mult * (close_price - entry_price)`.
pub open spec fn spec_pnl_long(entry_price: Rat, close_price: Rat, qty: Rat, c_mult: Rat) -> Rat {
    rat_mul(rat_mul(rat_abs(qty), c_mult), rat_sub(close_price, entry_price))
}

/// When every intermediate of [`spec_pnl_long`] fits the representation.
pub open spec fn pnl_long_fits(entry_price: Rat, close_price: Rat, qty: Rat, c_mult: Rat) -> bool {
    rat_fits(rat_abs(qty)) && rat_fits(rat_mul(rat_abs(qty), c_mult)) && rat_fits(
        rat_sub(close_price, entry_price),
    ) && rat_fits(spec_pnl_long(entry_price, close_price, qty, c_mult))
}

/// Profit of closing a long position: quantity times contract multiplier
/// times the rise from entry to close.  `None` exactly when an intermediate
/// does not fit.
pub fn calc_pnl_long(
    entry_price: &Rational,
    close_price: &Rational,
    qty: &Rational,
    c_mult: &Rational,
) -> (r: Option<Rational>)
    requires
        entry_price.wf(),
        close_price.wf(),
        qty.wf(),
        c_mult.wf(),
    ensures
        r is Some <==> pnl_long_fits(entry_price@, close_price@, qty@, c_mult@),
        r matches Some(c) ==> c.wf() && c@ == spec_pnl_long(entry_price@, close_price@, qty@,
            c_mult@),
{
    let aq = match qty.abs() {
        Some(v) => v,
        None => return None,
    };
    let m = match aq.mul(c_mult) {
        Some(v) => v,
        None => return None,
    };
    let d = match close_price.sub(entry_price) {
        Some(v) => v,
        None => return None,
    };
    m.mul(&d)
}

/// `|qty| * c_mult * (entry_price - close_price)`.
pub open spec fn spec_pnl_short(entry_price: Rat, close_price: Rat, qty: Rat, c_mult: Rat) -> Rat {
    rat_mul(rat_mul(rat_abs(qty), c_mult), rat_sub(entry_price, close_price))
}

/// When every intermediate of [`spec_pnl_short`] fits the representation.
pub open spec fn pnl_short_fits(entry_price: Rat, close_price: Rat, qty: Rat, c_mult: Rat) -> bool {
    rat_fits(rat_abs(qty)) && rat_fits(rat_mul(rat_abs(qty), c_mult)) && rat_fits(
        rat_sub(entry_price, close_price),
    ) && rat_fits(spec_pnl_short(entry_price, close_price, qty, c_mult))
}

/// Profit of closing a short position: quantity times contract multiplier
/// times the fall from entry to close.  `None` exactly when an intermediate
/// does not fit.
pub fn calc_pnl_short(
    entry_price: &Rational,
    close_price: &Rational,
    qty: &Rational,
    c_mult: &Rational,
) -> (r: Option<Rational>)
    requires
        entry_price.wf(),
        close_price.wf(),
        qty.wf(),
        c_mult.wf(),
    ensures
        r is Some <==> pnl_short_fits(entry_price@, close_price@, qty@, c_mult@),
        r matches Some(c) ==> c.wf() && c@ == spec_pnl_short(entry_price@, close_price@, qty@,
            c_mult@),
{
    let aq = match qty.abs() {
        Some(v) => v,
        None => return None,
    };
    let m = match aq.mul(c_mult) {
        Some(v) => v,
        None => return None,
    };
    let d = match entry_price.sub(close_price) {
        Some(v) => v,
        None => return None,
    };
    m.mul(&d)
}

/// Which side a position is on.  `NoPos` and `Close` are bookkeeping
/// sentinels of the caller; the side-keyed formulas reject them.
#[derive(Clone, Copy, Debug, PartialEq, Eq, Structural)]
pub enum Side {
    Long,
    Short,
    NoPos,
    Close,
}

/// The error of a side-keyed formula: a sentinel side was passed, or an
/// intermediate did not fit the representation.
#[derive(Clone, Copy, Debug, PartialEq, Eq, Structural)]
pub enum PriceDiffError {
    InvalidSide,
    Overflow,
}

/// Signed price deviation from the entry price, oriented so that a positive
/// result means unrealized loss: for a long `1 - price / pprice`, for a
/// short `price / pprice - 1`; zero when the entry price is not positive.
pub open spec fn spec_pprice_diff(pside: Side, pprice: Rat, price: Rat) -> Rat {
    if rat_is_pos(pprice) {
        if pside is Long {
            rat_sub(rat_one(), rat_div(price, pprice))
        } else {
            rat_sub(rat_div(price, pprice), rat_one())
        }
    } else {
        rat_zero()
    }
}

/// When every intermediate of [`spec_pprice_diff`] fits the representation.
pub open spec fn pprice_diff_fits(pside: Side, pprice: Rat, price: Rat) -> bool {
    !rat_is_pos(pprice) || (rat_fits(rat_div(price, pprice)) && rat_fits(
        spec_pprice_diff(pside, pprice, price),
    ))
}

/// Signed price deviation from the entry price for a position side.
/// A sentinel side (`NoPos`, `Close`) is a caller error and is rejected as
/// [`PriceDiffError::InvalidSide`]; [`PriceDiffError::Overflow`] exactly when
/// an intermediate does not fit.
pub fn calc_pprice_diff_int(pside: Side, pprice: &Rational, price: &Rational) -> (r: Result<
    Rational,
    PriceDiffError,
>)
    requires
        pprice.wf(),
        price.wf(),
    ensures
        r is Ok <==> ((pside is Long || pside is Short) && pprice_diff_fits(pside, pprice@,
            price@)),
        r matches Ok(c) ==> c.wf() && c@ == spec_pprice_diff(pside, pprice@, price@),
        r == Result::<Rational, PriceDiffError>::Err(PriceDiffError::InvalidSide) <==> !(pside
            is Long || pside is Short),
{
    match pside {
        Side::Long => {
            if pprice.is_pos() {
                let ratio = match price.div(pprice) {
                    Some(v) => v,
                    None => return Err(PriceDiffError::Overflow),
                };
                let one = Rational::from_int(1);
                match one.sub(&ratio) {
                    Some(v) => Ok(v),
                    None => Err(PriceDiffError::Overflow),
                }
            } else {
                Ok(Rational::from_int(0))
            }
        },
        Side::Short => {
            if pprice.is_pos() {
                let ratio = match price.div(pprice) {
                    Some(v) => v,
                    None => return Err(PriceDiffError::Overflow),
                };
                let one = Rational::from_int(1);
                match ratio.sub(&one) {
                    Some(v) => Ok(v),
                    None => Err(PriceDiffError::Overflow),
                }
            } else {
                Ok(Rational::from_int(0))
            }
        },
        _ => Err(PriceDiffError::InvalidSide),
    }
}

} // verus!
