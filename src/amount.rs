//! Fixed-point monetary amounts.
use vstd::prelude::*;

verus! {

/// Number of fractional decimal digits an [`Amount`] keeps.
pub const DECIMALS: u32 = 8;

/// Number of units in one whole currency unit (ten to the power [`DECIMALS`]).
pub const UNITS_PER_WHOLE: i128 = 100_000_000;

/// Ten to the power `n`.
pub open spec fn pow10(n: nat) -> int
    decreases n,
{
    if n == 0 {
        1
    } else {
        10 * pow10((n - 1) as nat)
    }
}

/// Whether `mantissa / 10^scale` is a whole number of units that fits in an `i128`.
pub open spec fn parts_representable(mantissa: int, scale: nat) -> bool {
    if scale <= DECIMALS {
        i128::MIN <= mantissa * pow10((DECIMALS - scale) as nat) <= i128::MAX
    } else {
        mantissa % pow10((scale - DECIMALS) as nat) == 0
    }
}

/// An exact decimal amount, counted in units of `10^-DECIMALS`.
#[derive(Clone, Copy, Debug, PartialEq, Eq, Structural)]
pub struct Amount {
    pub units: i128,
}

impl Amount {
    /// The zero amount.
    pub fn zero() -> (r: Amount)
        ensures
            r.units == 0,
    {
        Amount { units: 0 }
    }

    /// An amount of `units` units of `10^-DECIMALS`.
    pub fn from_units(units: i128) -> (r: Amount)
        ensures
            r.units == units,
    {
        Amount { units }
    }

    /// The amount of `whole` currency units.
    pub fn from_whole(whole: i64) -> (r: Amount)
        ensures
            r.units == whole * UNITS_PER_WHOLE,
    {
        assert(i64::MIN * UNITS_PER_WHOLE <= whole * UNITS_PER_WHOLE <= i64::MAX * UNITS_PER_WHOLE)
            by (nonlinear_arith)
            requires
                i64::MIN <= whole <= i64::MAX,
        ;
        Amount { units: whole as i128 * UNITS_PER_WHOLE }
    }

    /// The amount `mantissa * 10^-scale`, if it is a whole number of units
    /// that fits; `None` otherwise.
    pub fn from_parts(mantissa: i128, scale: u32) -> (r: Option<Amount>)
        requires
            scale <= 28,
        ensures
            r is Some <==> parts_representable(mantissa as int, scale as nat),
            r matches Some(a) ==> a.units * pow10(scale as nat) == mantissa * pow10(
                DECIMALS as nat,
            ),
    {
        if scale <= DECIMALS {
            let factor = ten_to(DECIMALS - scale);
            proof {
                lemma_pow10_split(scale as nat, (DECIMALS - scale) as nat);
            }
            match mantissa.checked_mul(factor) {
                Some(units) => {
                    assert(units * pow10(scale as nat) == mantissa * pow10(DECIMALS as nat))
                        by (nonlinear_arith)
                        requires
                            units == mantissa * factor,
                            pow10(DECIMALS as nat) == pow10(scale as nat) * factor,
                    ;
                    Some(Amount { units })
                },
                None => None,
            }
        } else {
            let divisor = ten_to(scale - DECIMALS);
            if mantissa.checked_rem_euclid(divisor) == Some(0i128) {
                proof {
                    vstd::arithmetic::div_mod::lemma_fundamental_div_mod(
                        mantissa as int,
                        divisor as int,
                    );
                    lemma_quotient_fits(mantissa as int, divisor as int);
                }
                let units = mantissa.checked_div_euclid(divisor).unwrap();
                proof {
                    lemma_pow10_split(DECIMALS as nat, (scale - DECIMALS) as nat);
                    assert(units * pow10(scale as nat) == mantissa * pow10(DECIMALS as nat))
                        by (nonlinear_arith)
                        requires
                            mantissa == divisor * units,
                            pow10(scale as nat) == pow10(DECIMALS as nat) * divisor,
                    ;
                }
                Some(Amount { units })
            } else {
                None
            }
        }
    }

    /// Whether the amount is below zero.
    pub fn is_negative(&self) -> (r: bool)
        ensures
            r == (self.units < 0),
    {
        self.units < 0
    }
}

proof fn lemma_quotient_fits(m: int, d: int)
    requires
        i128::MIN <= m <= i128::MAX,
        d >= 1,
        m == d * (m / d) + m % d,
        0 <= m % d < d,
    ensures
        i128::MIN <= m / d <= i128::MAX,
{
    let q = m / d;
    let r = m % d;
    if q >= 0 {
        assert(q <= d * q) by (nonlinear_arith)
            requires
                q >= 0,
                d >= 1,
        ;
    } else {
        assert(d * (q + 1) <= q + 1) by (nonlinear_arith)
            requires
                q + 1 <= 0,
                d >= 1,
        ;
        assert(d * (q + 1) == d * q + d) by (nonlinear_arith);
    }
}

proof fn lemma_pow10_positive(n: nat)
    ensures
        pow10(n) >= 1,
    decreases n,
{
    if n > 0 {
        lemma_pow10_positive((n - 1) as nat);
    }
}

proof fn lemma_pow10_split(a: nat, b: nat)
    ensures
        pow10(a + b) == pow10(a) * pow10(b),
    decreases a,
{
    if a > 0 {
        lemma_pow10_split((a - 1) as nat, b);
        assert(pow10(a + b) == 10 * pow10((a - 1 + b) as nat));
        assert(10 * (pow10((a - 1) as nat) * pow10(b)) == (10 * pow10((a - 1) as nat)) * pow10(b))
            by (nonlinear_arith);
    }
}

/// Ten to the power `n`, for powers that fit in an `i128`.
fn ten_to(n: u32) -> (r: i128)
    requires
        n <= 28,
    ensures
        r == pow10(n as nat),
        r >= 1,
{
    let mut r: i128 = 1;
    let mut i: u32 = 0;
    while i < n
        invariant
            i <= n <= 28,
            r == pow10(i as nat),
            1 <= r <= pow10(i as nat),
        decreases n - i,
    {
        proof {
            lemma_pow10_split(i as nat, 1);
            lemma_pow10_bound(i as nat);
        }
        r = r * 10;
        i = i + 1;
    }
    r
}

proof fn lemma_pow10_monotone(a: nat, b: nat)
    requires
        a <= b,
    ensures
        pow10(a) <= pow10(b),
    decreases b - a,
{
    if a < b {
        lemma_pow10_monotone(a, (b - 1) as nat);
        lemma_pow10_positive((b - 1) as nat);
    }
}

proof fn lemma_pow10_bound(n: nat)
    requires
        n <= 28,
    ensures
        pow10(n) <= 10000000000000000000000000000,
{
    lemma_pow10_monotone(n, 28);
    reveal_with_fuel(pow10, 29);
}

} // verus!
