//! The conversion step: multiply the retrieved mid rate by the requested
//! amount, exactly.

use vstd::prelude::*;
use crate::dec::{Dec, is_exact_product, lemma_mul_exact};
use crate::model::RatesRateEntry;

verus! {

/// One finished conversion: the accepted record, the amount asked for, and
/// the exact product of the two.
pub struct ConversionOutcome {
    pub record: RatesRateEntry,
    pub amount: Dec,
    pub converted_value: Dec,
}

/// Multiplies the record's mid rate by `amount` in exact decimal
/// arithmetic: mantissas multiply, scales add, nothing is rounded. `None`
/// only when the product leaves the mantissa or scale range of `Dec`, which
/// no rate and amount within the parser's bounds can reach.
pub fn convert(record: RatesRateEntry, amount: Dec) -> (r: Option<ConversionOutcome>)
    ensures
        match r {
            Some(o) => {
                &&& o.record == record
                &&& o.amount == amount
                &&& o.converted_value.mantissa == record.mid.mantissa * amount.mantissa
                &&& o.converted_value.scale == record.mid.scale + amount.scale
                &&& is_exact_product(o.converted_value, record.mid, amount)
            },
            None => record.mid.mantissa * amount.mantissa < i128::MIN || record.mid.mantissa
                * amount.mantissa > i128::MAX || record.mid.scale + amount.scale > u32::MAX,
        },
{
    let mid = record.mid;
    match mid.checked_mul(&amount) {
        Some(p) => {
            proof {
                lemma_mul_exact(mid, amount, p);
            }
            Some(ConversionOutcome { record, amount, converted_value: p })
        },
        None => None,
    }
}

} // verus!
