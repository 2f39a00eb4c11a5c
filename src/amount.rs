//! Exact base-10 fixed-point amounts.
//!
//! An [`Amount`] is `mantissa * 10^-scale`, within the range of a 96-bit
//! decimal: `|mantissa| < 2^96` and `scale <= 28`. Addition and subtraction
//! are exact; a result that leaves that range is reported, never rounded.
use vstd::prelude::*;

verus! {

/// The largest number of fractional digits an amount may carry.
pub const MAX_SCALE: u32 = 28;

/// The largest magnitude of a mantissa: `2^96 - 1`.
pub const MAX_MANTISSA: i128 = 79228162514264337593543950335;

/// `10^n`.
pub open spec fn pow10(n: nat) -> int
    decreases n,
{
    if n == 0 {
        1
    } else {
        10 * pow10((n - 1) as nat)
    }
}

/// Whether an integer may serve as the mantissa of an amount.
pub open spec fn fits(m: int) -> bool {
    -MAX_MANTISSA <= m <= MAX_MANTISSA
}

pub proof fn lemma_pow10_positive(n: nat)
    ensures
        pow10(n) > 0,
    decreases n,
{
    if n > 0 {
        lemma_pow10_positive((n - 1) as nat);
    }
}

pub proof fn lemma_pow10_add(a: nat, b: nat)
    ensures
        pow10(a + b) == pow10(a) * pow10(b),
    decreases b,
{
    if b > 0 {
        lemma_pow10_add(a, (b - 1) as nat);
        assert(pow10(a + b) == 10 * pow10((a + b - 1) as nat));
        assert(pow10(a) * pow10(b) == pow10(a) * (10 * pow10((b - 1) as nat)));
        assert(pow10(a) * (10 * pow10((b - 1) as nat)) == 10 * (pow10(a) * pow10(
            (b - 1) as nat,
        ))) by (nonlinear_arith);
    }
}

proof fn lemma_pow10_monotone(a: nat, b: nat)
    requires
        a <= b,
    ensures
        pow10(a) <= pow10(b),
    decreases b,
{
    if a < b {
        lemma_pow10_monotone(a, (b - 1) as nat);
        lemma_pow10_positive((b - 1) as nat);
    }
}

proof fn lemma_pow10_max()
    ensures
        pow10(MAX_SCALE as nat) == 10000000000000000000000000000,
{
    reveal_with_fuel(pow10, 29);
}

/// `10^k` for `k <= MAX_SCALE`.
fn pow10_of(k: u32) -> (r: i128)
    requires
        k <= MAX_SCALE,
    ensures
        r == pow10(k as nat),
{
    let mut r: i128 = 1;
    let mut i: u32 = 0;
    while i < k
        invariant
            i <= k <= MAX_SCALE,
            r == pow10(i as nat),
        decreases k - i,
    {
        proof {
            lemma_pow10_monotone((i + 1) as nat, MAX_SCALE as nat);
            lemma_pow10_max();
            assert(pow10((i + 1) as nat) == 10 * pow10(i as nat));
            assert(pow10((i + 1) as nat) <= pow10(MAX_SCALE as nat));
            assert(r * 10 <= 10000000000000000000000000000);
            lemma_pow10_positive(i as nat);
        }
        r = r * 10;
        i = i + 1;
    }
    r
}

/// An exact decimal amount `mantissa * 10^-scale`.
#[derive(Clone, Copy, Debug, PartialEq, Eq, Structural)]
pub struct Amount {
    pub mantissa: i128,
    pub scale: u32,
}

/// The scale at which two amounts are combined: the finer of the two.
pub open spec fn common_scale(a: Amount, b: Amount) -> u32 {
    if a.scale >= b.scale {
        a.scale
    } else {
        b.scale
    }
}

/// The mantissa of `a` written at the finer scale `s`.
pub open spec fn rescaled(a: Amount, s: u32) -> int {
    a.mantissa * pow10((s - a.scale) as nat)
}

/// Whether `a + b` is representable.
pub open spec fn sum_fits(a: Amount, b: Amount) -> bool {
    fits(rescaled(a, common_scale(a, b)) + rescaled(b, common_scale(a, b)))
}

/// Whether `a - b` is representable.
pub open spec fn difference_fits(a: Amount, b: Amount) -> bool {
    fits(rescaled(a, common_scale(a, b)) - rescaled(b, common_scale(a, b)))
}

/// `a + b`, at the finer of the two scales.
pub open spec fn sum_of(a: Amount, b: Amount) -> Amount {
    Amount {
        mantissa: (rescaled(a, common_scale(a, b)) + rescaled(b, common_scale(a, b))) as i128,
        scale: common_scale(a, b),
    }
}

/// `a - b`, at the finer of the two scales.
pub open spec fn difference_of(a: Amount, b: Amount) -> Amount {
    Amount {
        mantissa: (rescaled(a, common_scale(a, b)) - rescaled(b, common_scale(a, b))) as i128,
        scale: common_scale(a, b),
    }
}

/// `m * 10^k`, when it fits an `i128`.
fn times_pow10(m: i128, k: u32) -> (r: Option<i128>)
    requires
        k <= MAX_SCALE,
    ensures
        match r {
            Some(x) => x == m * pow10(k as nat),
            None => !(i128::MIN <= m * pow10(k as nat) <= i128::MAX),
        },
{
    m.checked_mul(pow10_of(k))
}

/// The mantissas of `a` and `b`, both written at their common scale.
fn align(a: Amount, b: Amount) -> (r: Option<(i128, i128)>)
    requires
        a.wf(),
        b.wf(),
    ensures
        match r {
            Some((x, y)) => x == rescaled(a, common_scale(a, b)) && y == rescaled(
                b,
                common_scale(a, b),
            ),
            None => !sum_fits(a, b) && !difference_fits(a, b),
        },
{
    assert(pow10(0) == 1);
    if a.scale >= b.scale {
        match times_pow10(b.mantissa, a.scale - b.scale) {
            Some(y) => Some((a.mantissa, y)),
            None => None,
        }
    } else {
        match times_pow10(a.mantissa, b.scale - a.scale) {
            Some(x) => Some((x, b.mantissa)),
            None => None,
        }
    }
}

/// Writing an amount at a finer scale keeps its value.
pub proof fn lemma_rescaled_value(a: Amount, s: u32)
    requires
        a.wf(),
        a.scale <= s <= MAX_SCALE,
    ensures
        rescaled(a, s) * pow10((MAX_SCALE - s) as nat) == a.value(),
{
    let i = (s - a.scale) as nat;
    let j = (MAX_SCALE - s) as nat;
    lemma_pow10_add(i, j);
    assert(i + j == (MAX_SCALE - a.scale) as nat);
    assert(a.mantissa * pow10(i) * pow10(j) == a.mantissa * (pow10(i) * pow10(j)))
        by (nonlinear_arith);
}

/// A representable sum is well formed and adds the values.
pub proof fn lemma_sum_value(a: Amount, b: Amount)
    requires
        a.wf(),
        b.wf(),
        sum_fits(a, b),
    ensures
        sum_of(a, b).wf(),
        sum_of(a, b).value() == a.value() + b.value(),
{
    let s = common_scale(a, b);
    let p = pow10((MAX_SCALE - s) as nat);
    lemma_rescaled_value(a, s);
    lemma_rescaled_value(b, s);
    assert((rescaled(a, s) + rescaled(b, s)) * p == rescaled(a, s) * p + rescaled(b, s) * p)
        by (nonlinear_arith);
}

/// A representable difference is well formed and subtracts the values.
pub proof fn lemma_difference_value(a: Amount, b: Amount)
    requires
        a.wf(),
        b.wf(),
        difference_fits(a, b),
    ensures
        difference_of(a, b).wf(),
        difference_of(a, b).value() == a.value() - b.value(),
{
    let s = common_scale(a, b);
    let p = pow10((MAX_SCALE - s) as nat);
    lemma_rescaled_value(a, s);
    lemma_rescaled_value(b, s);
    assert((rescaled(a, s) - rescaled(b, s)) * p == rescaled(a, s) * p - rescaled(b, s) * p)
        by (nonlinear_arith);
}

proof fn lemma_scaled_order(x: int, y: int, p: int)
    requires
        p > 0,
    ensures
        (x < y) == (x * p < y * p),
{
    assert(x < y ==> x * p < y * p) by (nonlinear_arith)
        requires
            p > 0,
    ;
    assert(x >= y ==> x * p >= y * p) by (nonlinear_arith)
        requires
            p > 0,
    ;
}

impl Amount {
    /// Mantissa and scale are within the range of a 96-bit decimal.
    pub open spec fn wf(self) -> bool {
        &&& self.scale <= MAX_SCALE
        &&& fits(self.mantissa as int)
    }

    /// The amount as a whole number of `10^-MAX_SCALE` units.
    pub open spec fn value(self) -> int {
        self.mantissa * pow10((MAX_SCALE - self.scale) as nat)
    }

    pub fn zero() -> (r: Amount)
        ensures
            r.wf(),
            r.value() == 0,
            r == (Amount { mantissa: 0, scale: 0 }),
    {
        Amount { mantissa: 0, scale: 0 }
    }

    /// The amount `mantissa * 10^-scale`, if it lies within the supported range.
    pub fn from_parts(mantissa: i128, scale: u32) -> (r: Option<Amount>)
        ensures
            r == (if scale <= MAX_SCALE && fits(mantissa as int) {
                Some(Amount { mantissa, scale })
            } else {
                None
            }),
    {
        if scale <= MAX_SCALE && -MAX_MANTISSA <= mantissa && mantissa <= MAX_MANTISSA {
            Some(Amount { mantissa, scale })
        } else {
            None
        }
    }

    /// `self + other`, or `None` when the exact sum is out of range.
    pub fn checked_add(self, other: Amount) -> (r: Option<Amount>)
        requires
            self.wf(),
            other.wf(),
        ensures
            r == (if sum_fits(self, other) {
                Some(sum_of(self, other))
            } else {
                None
            }),
    {
        match align(self, other) {
            None => None,
            Some((x, y)) => match x.checked_add(y) {
                None => None,
                Some(m) => {
                    if -MAX_MANTISSA <= m && m <= MAX_MANTISSA {
                        let scale = if self.scale >= other.scale {
                            self.scale
                        } else {
                            other.scale
                        };
                        Some(Amount { mantissa: m, scale })
                    } else {
                        None
                    }
                },
            },
        }
    }

    /// `self - other`, or `None` when the exact difference is out of range.
    pub fn checked_sub(self, other: Amount) -> (r: Option<Amount>)
        requires
            self.wf(),
            other.wf(),
        ensures
            r == (if difference_fits(self, other) {
                Some(difference_of(self, other))
            } else {
                None
            }),
    {
        match align(self, other) {
            None => None,
            Some((x, y)) => match x.checked_sub(y) {
                None => None,
                Some(m) => {
                    if -MAX_MANTISSA <= m && m <= MAX_MANTISSA {
                        let scale = if self.scale >= other.scale {
                            self.scale
                        } else {
                            other.scale
                        };
                        Some(Amount { mantissa: m, scale })
                    } else {
                        None
                    }
                },
            },
        }
    }

    /// Whether `self` is strictly less than `other`, by value.
    pub fn lt(&self, other: &Amount) -> (r: bool)
        requires
            self.wf(),
            other.wf(),
        ensures
            r == (self.value() < other.value()),
    {
        let a = *self;
        let b = *other;
        proof {
            let s = common_scale(a, b);
            lemma_rescaled_value(a, s);
            lemma_rescaled_value(b, s);
            lemma_pow10_positive((MAX_SCALE - s) as nat);
            lemma_scaled_order(rescaled(a, s), rescaled(b, s), pow10((MAX_SCALE - s) as nat));
            assert(pow10(0) == 1);
        }
        if a.scale <= b.scale {
            proof {
                lemma_pow10_positive((b.scale - a.scale) as nat);
                let p = pow10((b.scale - a.scale) as nat);
                assert(a.mantissa < 0 ==> a.mantissa * p < 0) by (nonlinear_arith)
                    requires
                        p > 0,
                ;
                assert(a.mantissa >= 0 ==> a.mantissa * p >= 0) by (nonlinear_arith)
                    requires
                        p > 0,
                ;
            }
            match times_pow10(a.mantissa, b.scale - a.scale) {
                Some(x) => x < b.mantissa,
                None => a.mantissa < 0,
            }
        } else {
            proof {
                lemma_pow10_positive((a.scale - b.scale) as nat);
                let p = pow10((a.scale - b.scale) as nat);
                assert(b.mantissa > 0 ==> b.mantissa * p > 0) by (nonlinear_arith)
                    requires
                        p > 0,
                ;
                assert(b.mantissa <= 0 ==> b.mantissa * p <= 0) by (nonlinear_arith)
                    requires
                        p > 0,
                ;
            }
            match times_pow10(b.mantissa, a.scale - b.scale) {
                Some(y) => a.mantissa < y,
                None => b.mantissa > 0,
            }
        }
    }

    /// Whether the two amounts are equal in value, whatever their scales.
    pub fn eq_value(&self, other: &Amount) -> (r: bool)
        requires
            self.wf(),
            other.wf(),
        ensures
            r == (self.value() == other.value()),
    {
        !self.lt(other) && !other.lt(self)
    }

    pub fn is_negative(&self) -> (r: bool)
        requires
            self.wf(),
        ensures
            r == (self.value() < 0),
    {
        proof {
            lemma_value_sign(*self);
        }
        self.mantissa < 0
    }
}

proof fn lemma_value_sign(a: Amount)
    requires
        a.wf(),
    ensures
        a.value() < 0 <==> a.mantissa < 0,
        a.value() == 0 <==> a.mantissa == 0,
{
    let p = pow10((MAX_SCALE - a.scale) as nat);
    lemma_pow10_positive((MAX_SCALE - a.scale) as nat);
    assert(a.mantissa < 0 ==> a.mantissa * p < 0) by (nonlinear_arith)
        requires
            p > 0,
    ;
    assert(a.mantissa > 0 ==> a.mantissa * p > 0) by (nonlinear_arith)
        requires
            p > 0,
    ;
    assert(a.mantissa == 0 ==> a.mantissa * p == 0);
}

} // verus!
