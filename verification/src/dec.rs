//! Exact decimal numbers: an integer mantissa and a power-of-ten scale.
//!
//! A value `Dec { mantissa, scale }` denotes the rational number
//! `mantissa / 10^scale`. Rates and amounts are kept in this form so that
//! multiplication stays exact: no binary floating point is involved anywhere.

use vstd::prelude::*;

verus! {

/// An exact decimal: the rational number `mantissa / 10^scale`.
#[derive(Clone, Copy, PartialEq, Eq, Structural, Debug)]
pub struct Dec {
    pub mantissa: i128,
    pub scale: u32,
}

/// Ten to the `n`-th power.
pub open spec fn pow10(n: nat) -> int
    decreases n,
{
    if n == 0 {
        1
    } else {
        10 * pow10((n - 1) as nat)
    }
}

/// The range a parsed decimal may occupy: at most 28 fractional digits and a
/// mantissa of at most 96 bits, the range of common exact-decimal libraries.
pub open spec fn dec_wf(d: Dec) -> bool {
    &&& d.scale <= 28
    &&& -79228162514264337593543950335 <= d.mantissa <= 79228162514264337593543950335
}

/// Two decimals denote the same rational number.
pub open spec fn dec_same_value(a: Dec, b: Dec) -> bool {
    a.mantissa * pow10(b.scale as nat) == b.mantissa * pow10(a.scale as nat)
}

/// `p` is exactly the product of `a` and `b` as rational numbers.
pub open spec fn is_exact_product(p: Dec, a: Dec, b: Dec) -> bool {
    p.mantissa * pow10((a.scale + b.scale) as nat) == a.mantissa * b.mantissa * pow10(
        p.scale as nat,
    )
}

pub proof fn lemma_pow10_add(a: nat, b: nat)
    ensures
        pow10(a + b) == pow10(a) * pow10(b),
    decreases a,
{
    if a == 0 {
    } else {
        lemma_pow10_add((a - 1) as nat, b);
        assert(pow10(a + b) == 10 * pow10((a + b - 1) as nat));
        assert(10 * (pow10((a - 1) as nat) * pow10(b)) == (10 * pow10((a - 1) as nat)) * pow10(b))
            by (nonlinear_arith);
    }
}

impl Dec {
    /// A whole number as a decimal with scale zero.
    pub fn from_int(n: i64) -> (r: Dec)
        ensures
            r.mantissa == n as int,
            r.scale == 0,
            dec_wf(r),
    {
        Dec { mantissa: n as i128, scale: 0 }
    }

    /// Exact multiplication: mantissas multiply and scales add. `None` only
    /// when the result would leave the mantissa or scale range of `Dec`.
    pub fn checked_mul(&self, other: &Dec) -> (r: Option<Dec>)
        ensures
            match r {
                Some(p) => p.mantissa == self.mantissa * other.mantissa && p.scale == self.scale
                    + other.scale,
                None => self.mantissa * other.mantissa < i128::MIN || self.mantissa
                    * other.mantissa > i128::MAX || self.scale + other.scale > u32::MAX,
            },
    {
        match self.mantissa.checked_mul(other.mantissa) {
            Some(m) => match self.scale.checked_add(other.scale) {
                Some(s) => Some(Dec { mantissa: m, scale: s }),
                None => None,
            },
            None => None,
        }
    }
}

/// The product from `Dec::checked_mul` denotes exactly the product of the two
/// rational numbers that went in: numerators multiply, denominators multiply.
pub proof fn lemma_mul_exact(a: Dec, b: Dec, p: Dec)
    requires
        p.mantissa == a.mantissa * b.mantissa,
        p.scale == a.scale + b.scale,
    ensures
        is_exact_product(p, a, b),
{
}

} // verus!
