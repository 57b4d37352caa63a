//! Fixed-point money amounts.
//!
//! Every balance and every transaction amount is a signed multiple of
//! one ten-thousandth (four digits after the decimal point). An
//! [`Amount`] stores that multiple as an `i64`, so the mathematical
//! value of an amount `a` is `a@ / 10000`. All arithmetic is exact and
//! checked: an operation whose exact result does not fit in an `i64`
//! reports failure instead of wrapping or rounding.

use vstd::prelude::*;
use vstd::arithmetic::div_mod::lemma_mod_multiples_basic;
use vstd::arithmetic::mul::lemma_mul_equality_converse;
use vstd::arithmetic::mul::lemma_mul_is_associative;
use vstd::arithmetic::power::lemma_pow_adds;
use vstd::arithmetic::power::lemma_pow_positive;
use vstd::arithmetic::power::pow;

verus! {

/// A signed fixed-point amount, counted in ten-thousandths.
#[derive(Debug, Clone, Copy, PartialEq, Eq, Hash, Structural)]
pub struct Amount {
    /// The value, as a count of ten-thousandths.
    pub units: i64,
}

impl View for Amount {
    type V = int;

    /// The mathematical value of the amount, in ten-thousandths.
    open spec fn view(&self) -> int {
        self.units as int
    }
}

impl Amount {
    /// The zero amount.
    pub fn zero() -> (r: Amount)
        ensures
            r@ == 0,
    {
        Amount { units: 0 }
    }

    /// Builds an amount from a raw count of ten-thousandths.
    pub fn from_units(units: i64) -> (r: Amount)
        ensures
            r@ == units as int,
    {
        Amount { units }
    }

    /// The raw count of ten-thousandths.
    pub fn as_units(&self) -> (r: i64)
        ensures
            r as int == self@,
    {
        self.units
    }

    /// Exact addition; `None` when the exact sum does not fit in an `i64`.
    pub fn checked_add(self, other: Amount) -> (r: Option<Amount>)
        ensures
            r is Some <==> i64::MIN <= self@ + other@ <= i64::MAX,
            r matches Some(a) ==> a@ == self@ + other@,
    {
        match self.units.checked_add(other.units) {
            Some(units) => Some(Amount { units }),
            None => None,
        }
    }

    /// Exact subtraction; `None` when the exact difference does not fit
    /// in an `i64`.
    pub fn checked_sub(self, other: Amount) -> (r: Option<Amount>)
        ensures
            r is Some <==> i64::MIN <= self@ - other@ <= i64::MAX,
            r matches Some(a) ==> a@ == self@ - other@,
    {
        match self.units.checked_sub(other.units) {
            Some(units) => Some(Amount { units }),
            None => None,
        }
    }

    /// Whether this amount is at least `other`.
    pub fn ge(&self, other: &Amount) -> (r: bool)
        ensures
            r == (self@ >= other@),
    {
        self.units >= other.units
    }
}

/// Whether a magnitude of `u` ten-thousandths stands exactly for the
/// value `mantissa / 10^scale`.
pub open spec fn represents(u: int, mantissa: u128, scale: u32) -> bool {
    u * pow(10, scale as nat) == mantissa * 10000
}

/// The largest magnitude an amount can carry, in ten-thousandths; it
/// is one larger for negative values.
pub open spec fn max_units_magnitude(negative: bool) -> int {
    if negative {
        i64::MAX as int + 1
    } else {
        i64::MAX as int
    }
}

/// The small powers of ten, spelled out.
proof fn lemma_pow10_small()
    ensures
        pow(10, 0) == 1,
        pow(10, 1) == 10,
        pow(10, 2) == 100,
        pow(10, 3) == 1000,
        pow(10, 4) == 10000,
{
    reveal(pow);
    assert(pow(10, 0) == 1);
    assert(pow(10, 1) == 10 * pow(10, 0));
    assert(pow(10, 2) == 10 * pow(10, 1));
    assert(pow(10, 3) == 10 * pow(10, 2));
    assert(pow(10, 4) == 10 * pow(10, 3));
}

/// From `represents(u, mantissa, scale)` and the reduction equation
/// `m * 10^(scale - s) == mantissa`, the reference magnitude at the
/// reduced scale: `u * 10^s == m * 10^4`.
proof fn lemma_reduce_representation(u: int, mantissa: u128, scale: u32, m: u128, s: u32)
    requires
        s <= scale,
        m as int * pow(10, (scale - s) as nat) == mantissa as int,
        represents(u, mantissa, scale),
    ensures
        u * pow(10, s as nat) == m as int * 10000,
{
    let d = (scale - s) as nat;
    let pd = pow(10, d);
    let ps = pow(10, s as nat);
    lemma_pow_positive(10, d);
    lemma_pow_adds(10, s as nat, d);
    assert(scale as nat == s as nat + d);
    assert(u * (ps * pd) == mantissa * 10000);
    assert(u * (ps * pd) == (u * ps) * pd) by (nonlinear_arith);
    assert((m as int * pd) * 10000 == (m as int * 10000) * pd) by (nonlinear_arith);
    assert(pd * (u * ps) == pd * (m as int * 10000)) by (nonlinear_arith)
        requires
            (u * ps) * pd == (m as int * 10000) * pd,
    ;
    lemma_mul_equality_converse(pd, u * ps, m as int * 10000);
}

/// No magnitude stands for the value when the reduction stopped above
/// scale four on a mantissa that is not a multiple of ten.
proof fn lemma_inexact(mantissa: u128, scale: u32, m: u128, s: u32)
    requires
        4 < s <= scale,
        m as int * pow(10, (scale - s) as nat) == mantissa as int,
        m % 10 != 0,
    ensures
        forall|u: int| !represents(u, mantissa, scale),
{
    assert forall|u: int| !represents(u, mantissa, scale) by {
        if represents(u, mantissa, scale) {
            lemma_reduce_representation(u, mantissa, scale, m, s);
            let ps4 = pow(10, (s - 4) as nat);
            let ps5 = pow(10, (s - 5) as nat);
            lemma_pow_positive(10, (s - 5) as nat);
            lemma_pow10_small();
            lemma_pow_adds(10, 4, (s - 4) as nat);
            assert(pow(10, s as nat) == 10000 * ps4);
            reveal(pow);
            assert(u * (10000 * ps4) == (u * ps4) * 10000) by (nonlinear_arith);
            assert(10000 * (u * ps4) == 10000 * (m as int)) by (nonlinear_arith)
                requires
                    (u * ps4) * 10000 == m as int * 10000,
            ;
            lemma_mul_equality_converse(10000, u * ps4, m as int);
            assert(ps4 == 10 * ps5);
            assert(m as int == (u * ps5) * 10) by (nonlinear_arith)
                requires
                    u * (10 * ps5) == m as int,
            ;
            lemma_mod_multiples_basic(u * ps5, 10);
            assert(false);
        }
    }
}

/// Every magnitude standing for the value equals `m * 10^(4 - s)`, so
/// none fits under `cap` when that product exceeds `cap`.
proof fn lemma_magnitude_forced(u: int, mantissa: u128, scale: u32, m: u128, s: u32)
    requires
        s <= 4,
        s <= scale,
        m as int * pow(10, (scale - s) as nat) == mantissa as int,
        represents(u, mantissa, scale),
    ensures
        u == m as int * pow(10, (4 - s) as nat),
{
    lemma_reduce_representation(u, mantissa, scale, m, s);
    let ps = pow(10, s as nat);
    let k = pow(10, (4 - s) as nat);
    lemma_pow_positive(10, s as nat);
    lemma_pow_positive(10, (4 - s) as nat);
    lemma_pow10_small();
    lemma_pow_adds(10, (4 - s) as nat, s as nat);
    assert(k * ps == 10000);
    assert(ps * u == ps * (m as int * k)) by (nonlinear_arith)
        requires
            u * ps == m as int * 10000,
            k * ps == 10000,
    ;
    lemma_mul_equality_converse(ps, u, m as int * k);
}

/// Builds the amount whose exact value is `mantissa / 10^scale`, with
/// the sign asked for: the count of ten-thousandths `u` with
/// `u * 10^scale == mantissa * 10^4`. Returns `None` when no such
/// count exists (the value needs more than four digits after the
/// decimal point) or when the count does not fit in an `i64`.
pub fn from_parts(negative: bool, mantissa: u128, scale: u32) -> (r: Option<Amount>)
    requires
        scale <= 28,
    ensures
        r matches Some(a) ==> {
            &&& if negative {
                a@ <= 0
            } else {
                a@ >= 0
            }
            &&& represents(if negative { -a@ } else { a@ }, mantissa, scale)
        },
        r is None ==> forall|u: int|
            0 <= u <= max_units_magnitude(negative) ==> !represents(u, mantissa, scale),
{
    let mut m: u128 = mantissa;
    let mut s: u32 = scale;
    proof {
        lemma_pow10_small();
    }
    while s > 4
        invariant
            s <= scale <= 28,
            m as int * pow(10, (scale - s) as nat) == mantissa as int,
        decreases s,
    {
        if m % 10 != 0 {
            proof {
                lemma_inexact(mantissa, scale, m, s);
            }
            return None;
        }
        let ghost m0 = m as int;
        let ghost d = (scale - s) as nat;
        m = m / 10;
        s = s - 1;
        proof {
            assert((scale - s) as nat == d + 1);
            reveal(pow);
            assert(pow(10, d + 1) == 10 * pow(10, d));
            assert(m as int * 10 == m0);
            lemma_mul_is_associative(m as int, 10, pow(10, d));
        }
    }
    let k: u128 = if s == 0 {
        10000
    } else if s == 1 {
        1000
    } else if s == 2 {
        100
    } else if s == 3 {
        10
    } else {
        1
    };
    proof {
        lemma_pow10_small();
        assert(k as int == pow(10, (4 - s) as nat));
    }
    let cap: u128 = if negative {
        (i64::MAX as u128) + 1
    } else {
        i64::MAX as u128
    };
    let units: u128 = match m.checked_mul(k) {
        Some(units) => units,
        None => {
            proof {
                assert forall|u: int|
                    0 <= u <= max_units_magnitude(negative) implies !represents(
                    u,
                    mantissa,
                    scale,
                ) by {
                    if represents(u, mantissa, scale) {
                        lemma_magnitude_forced(u, mantissa, scale, m, s);
                    }
                }
            }
            return None;
        },
    };
    if units > cap {
        proof {
            assert forall|u: int|
                0 <= u <= max_units_magnitude(negative) implies !represents(u, mantissa, scale) by {
                if represents(u, mantissa, scale) {
                    lemma_magnitude_forced(u, mantissa, scale, m, s);
                }
            }
        }
        return None;
    }
    proof {
        assert(represents(units as int, mantissa, scale)) by {
            let ps = pow(10, s as nat);
            let pd = pow(10, (scale - s) as nat);
            lemma_pow_adds(10, s as nat, (scale - s) as nat);
            assert(scale as nat == s as nat + ((scale - s) as nat));
            assert((units as int) * (ps * pd) == (m as int * pd) * 10000) by (nonlinear_arith)
                requires
                    units as int == m as int * (k as int),
                    (k as int) * ps == 10000,
            ;
        }
    }
    if negative {
        if units == (i64::MAX as u128) + 1 {
            Some(Amount { units: i64::MIN })
        } else {
            Some(Amount { units: -(units as i64) })
        }
    } else {
        Some(Amount { units: units as i64 })
    }
}

} // verus!
