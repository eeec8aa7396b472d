//! Small numeric helpers.
use crate::decimal::{difference, product, Decimal};
use vstd::prelude::*;

verus! {

/// `(new − old) / old × 100`, zero when `old` is not positive (or the
/// quotient cannot be represented).
pub open spec fn spec_percentage_change(old_value: Decimal, new_value: Decimal) -> Decimal {
    if old_value.units() > 0 {
        new_value.spec_difference(old_value).spec_quotient_or_zero(old_value).spec_product(
            Decimal::spec_lit(100, 0),
        )
    } else {
        Decimal::spec_zero()
    }
}

/// The change from `old_value` to `new_value` in percent of `old_value`.
pub fn percentage_change(old_value: Decimal, new_value: Decimal) -> (r: Decimal)
    requires
        old_value.wf(),
        new_value.wf(),
    ensures
        r == spec_percentage_change(old_value, new_value),
        r.wf(),
{
    if old_value.gt(&Decimal::zero()) {
        product(
            difference(new_value, old_value).quotient_or_zero(&old_value),
            Decimal::new(100, 0),
        )
    } else {
        Decimal::zero()
    }
}

} // verus!
