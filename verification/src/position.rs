//! Merging a fill into a position: the new size is the step-quantized sum,
//! the new price the size-weighted average of the old price and the fill
//! price.

use vstd::prelude::*;
use crate::quantize::{
    lemma_scale_is_multiple, rat_is_multiple_of, rat_scale, round_, spec_round_nearest,
};
use crate::rational::{
    rat_add, rat_div, rat_eq, rat_fits, rat_is_pos, rat_is_zero, rat_mul, rat_zero, Rat,
    Rational,
};

verus! {

/// The `(size, price)` pair after merging a fill `(qty, price)` into the
/// position `(psize, pprice)`:
/// - a zero fill leaves the position unchanged;
/// - a fill into a flat position becomes the position verbatim;
/// - otherwise the new size is `psize + qty` rounded to the nearest multiple
///   of `qty_step` (ties away from zero); when that rounds to zero the
///   position is closed and its price reset to zero, otherwise the new price
///   is the size-weighted average of the old and the fill price.
pub open spec fn new_psize_pprice(psize: Rat, pprice: Rat, qty: Rat, price: Rat, qty_step: Rat)
    -> (Rat, Rat) {
    if rat_is_zero(qty) {
        (psize, pprice)
    } else if rat_is_zero(psize) {
        (qty, price)
    } else {
        let ns = spec_round_nearest(rat_add(psize, qty), qty_step);
        if rat_is_zero(ns) {
            (rat_zero(), rat_zero())
        } else {
            (
                ns,
                rat_add(
                    rat_mul(pprice, rat_div(psize, ns)),
                    rat_mul(price, rat_div(qty, ns)),
                ),
            )
        }
    }
}

/// When every intermediate of the update fits the representation, in the
/// order the update computes them.
pub open spec fn new_psize_pprice_fits(
    psize: Rat,
    pprice: Rat,
    qty: Rat,
    price: Rat,
    qty_step: Rat,
) -> bool {
    if rat_is_zero(qty) {
        true
    } else if rat_is_zero(psize) {
        true
    } else {
        rat_fits(rat_add(psize, qty)) && rat_fits(spec_round_nearest(rat_add(psize, qty), qty_step))
            && {
            let ns = spec_round_nearest(rat_add(psize, qty), qty_step);
            rat_is_zero(ns) || (rat_fits(rat_div(psize, ns)) && rat_fits(
                rat_mul(pprice, rat_div(psize, ns)),
            ) && rat_fits(rat_div(qty, ns)) && rat_fits(rat_mul(price, rat_div(qty, ns)))
                && rat_fits(
                rat_add(rat_mul(pprice, rat_div(psize, ns)), rat_mul(price, rat_div(qty, ns))),
            ))
        }
    }
}

/// The new `(size, price)` after a fill; `None` exactly when an intermediate
/// value does not fit the representation.
pub fn calc_new_psize_pprice(
    psize: &Rational,
    pprice: &Rational,
    qty: &Rational,
    price: &Rational,
    qty_step: &Rational,
) -> (r: Option<(Rational, Rational)>)
    requires
        psize.wf(),
        pprice.wf(),
        qty.wf(),
        price.wf(),
        qty_step.wf(),
        rat_is_pos(qty_step@),
    ensures
        r is Some <==> new_psize_pprice_fits(psize@, pprice@, qty@, price@, qty_step@),
        r matches Some(c) ==> c.0.wf() && c.1.wf() && (c.0@, c.1@) == new_psize_pprice(
            psize@,
            pprice@,
            qty@,
            price@,
            qty_step@,
        ),
{
    if qty.is_zero() {
        return Some((*psize, *pprice));
    }
    if psize.is_zero() {
        return Some((*qty, *price));
    }
    let sum = match psize.add(qty) {
        Some(v) => v,
        None => return None,
    };
    let ns = match round_(&sum, qty_step) {
        Some(v) => v,
        None => return None,
    };
    if ns.is_zero() {
        return Some((Rational::from_int(0), Rational::from_int(0)));
    }
    let w_old = match psize.div(&ns) {
        Some(v) => v,
        None => return None,
    };
    let t_old = match pprice.mul(&w_old) {
        Some(v) => v,
        None => return None,
    };
    let w_new = match qty.div(&ns) {
        Some(v) => v,
        None => return None,
    };
    let t_new = match price.mul(&w_new) {
        Some(v) => v,
        None => return None,
    };
    match t_old.add(&t_new) {
        Some(v) => Some((ns, v)),
        None => None,
    }
}

/// The convention "a flat position has price zero" is preserved: when the
/// input position respects it, so does the updated one.
pub proof fn lemma_new_position_price_convention(
    psize: Rat,
    pprice: Rat,
    qty: Rat,
    price: Rat,
    qty_step: Rat,
)
    requires
        rat_is_zero(psize) ==> rat_is_zero(pprice),
    ensures
        rat_is_zero(new_psize_pprice(psize, pprice, qty, price, qty_step).0) ==> rat_is_zero(
            new_psize_pprice(psize, pprice, qty, price, qty_step).1,
        ),
{
}

/// The updated size stays on the step grid: when the current size and the
/// fill quantity are multiples of the step, so is the new size.
pub proof fn lemma_new_psize_quantized(
    psize: Rat,
    pprice: Rat,
    qty: Rat,
    price: Rat,
    qty_step: Rat,
)
    requires
        rat_is_multiple_of(psize, qty_step),
        rat_is_multiple_of(qty, qty_step),
    ensures
        rat_is_multiple_of(new_psize_pprice(psize, pprice, qty, price, qty_step).0, qty_step),
{
    if rat_is_zero(qty) {
    } else if rat_is_zero(psize) {
    } else {
        let ns = spec_round_nearest(rat_add(psize, qty), qty_step);
        if rat_is_zero(ns) {
            assert(rat_eq(rat_zero(), rat_scale(0, qty_step)));
        } else {
            lemma_scale_is_multiple(
                crate::quantize::nearest_ratio(rat_add(psize, qty), qty_step),
                qty_step,
            );
        }
    }
}

} // verus!
