//! Rendering amounts as text with exactly four fractional digits.
use vstd::prelude::*;

use crate::amount::{fits, pow10, Amount, MAX_MANTISSA, MAX_SCALE};

verus! {

/// The number of fractional digits amounts are rendered with.
pub const RENDERED_DIGITS: u32 = 4;

/// `n / d`, rounded to the nearest whole number, ties to the even one.
pub open spec fn half_even_quotient(n: nat, d: nat) -> nat
    recommends
        d > 0,
{
    let q = n / d;
    let r = n % d;
    if 2 * r > d || (2 * r == d && q % 2 == 1) {
        q + 1
    } else {
        q
    }
}

/// Mantissa and scale of `m * 10^-s` rounded to `dp` fractional digits,
/// ties to even. A value with no more than `dp` digits is kept as it is.
pub open spec fn rounded_parts(m: int, s: nat, dp: nat) -> (int, nat) {
    if s <= dp {
        (m, s)
    } else {
        let q = half_even_quotient(
            (if m < 0 {
                -m
            } else {
                m
            }) as nat,
            pow10((s - dp) as nat) as nat,
        );
        (
            if m < 0 {
                -(q as int)
            } else {
                q as int
            },
            dp,
        )
    }
}

/// The amount rounded to four fractional digits, as a whole number of
/// `10^-4` units.
pub open spec fn rounded_units(a: Amount) -> int {
    let (m, s) = rounded_parts(a.mantissa as int, a.scale as nat, RENDERED_DIGITS as nat);
    m * pow10((RENDERED_DIGITS - s) as nat)
}

pub open spec fn digit_char(d: nat) -> char {
    if d == 0 {
        '0'
    } else if d == 1 {
        '1'
    } else if d == 2 {
        '2'
    } else if d == 3 {
        '3'
    } else if d == 4 {
        '4'
    } else if d == 5 {
        '5'
    } else if d == 6 {
        '6'
    } else if d == 7 {
        '7'
    } else if d == 8 {
        '8'
    } else {
        '9'
    }
}

/// The decimal digits of `n`, most significant first, with no leading zero.
pub open spec fn digits(n: nat) -> Seq<char>
    decreases n,
{
    if n < 10 {
        seq![digit_char(n)]
    } else {
        digits(n / 10).push(digit_char(n % 10))
    }
}

/// `units * 10^-4` written out: a minus sign when negative, the whole part,
/// a point, and exactly four fractional digits.
pub open spec fn fixed4_text(units: int) -> Seq<char> {
    let n = (if units < 0 {
        -units
    } else {
        units
    }) as nat;
    let f = n % 10000;
    (if units < 0 {
        seq!['-']
    } else {
        Seq::<char>::empty()
    }) + digits(n / 10000) + seq![
        '.',
        digit_char(f / 1000),
        digit_char(f / 100 % 10),
        digit_char(f / 10 % 10),
        digit_char(f % 10),
    ]
}

/// Relies on rust_decimal's `Decimal::from_i128_with_scale` (which accepts
/// any mantissa below `2^96` in magnitude and any scale up to 28) and
/// `Decimal::round_dp`, which rounds to `dp` fractional digits with ties to
/// even, keeps a value with at most `dp` digits unchanged, and otherwise
/// gives scale `dp`.
#[verifier::external_body]
fn round_dp(mantissa: i128, scale: u32, dp: u32) -> (r: (i128, u32))
    requires
        fits(mantissa as int),
        scale <= MAX_SCALE,
    ensures
        r.0 == rounded_parts(mantissa as int, scale as nat, dp as nat).0,
        r.1 == rounded_parts(mantissa as int, scale as nat, dp as nat).1,
{
    let d = rust_decimal::Decimal::from_i128_with_scale(mantissa, scale).round_dp(dp);
    (d.mantissa(), d.scale())
}

/// Relies on `String::push`: appends one character.
#[verifier::external_body]
fn push_char(s: &mut String, c: char)
    ensures
        final(s)@ == old(s)@.push(c),
{
    s.push(c);
}

fn digit_of(d: u128) -> (c: char)
    requires
        d < 10,
    ensures
        c == digit_char(d as nat),
{
    if d == 0 {
        '0'
    } else if d == 1 {
        '1'
    } else if d == 2 {
        '2'
    } else if d == 3 {
        '3'
    } else if d == 4 {
        '4'
    } else if d == 5 {
        '5'
    } else if d == 6 {
        '6'
    } else if d == 7 {
        '7'
    } else if d == 8 {
        '8'
    } else {
        '9'
    }
}

fn push_digits(n: u128, out: &mut String)
    ensures
        final(out)@ == old(out)@ + digits(n as nat),
    decreases n,
{
    if n >= 10 {
        push_digits(n / 10, out);
    }
    push_char(out, digit_of(n % 10));
    proof {
        if n >= 10 {
            assert(old(out)@ + digits((n / 10) as nat) + seq![digit_char((n % 10) as nat)]
                =~= old(out)@ + digits(n as nat));
        } else {
            assert(old(out)@ + seq![digit_char(n as nat)] =~= old(out)@ + digits(n as nat));
        }
    }
}

impl Amount {
    /// The amount rounded to four fractional digits (ties to even) and
    /// written out with exactly four, as in `-1.5000`.
    pub fn to_fixed4_string(&self) -> (r: String)
        requires
            self.wf(),
        ensures
            r@ == fixed4_text(rounded_units(*self)),
    {
        let (m, s) = round_dp(self.mantissa, self.scale, RENDERED_DIGITS);
        proof {
            lemma_rounded_bound(self.mantissa as int, self.scale as nat);
        }
        let units: i128 = if s == 0 {
            m * 10000
        } else if s == 1 {
            m * 1000
        } else if s == 2 {
            m * 100
        } else if s == 3 {
            m * 10
        } else {
            m
        };
        proof {
            reveal_with_fuel(pow10, 5);
        }
        let n: u128 = if units < 0 {
            (-units) as u128
        } else {
            units as u128
        };
        let whole = n / 10000;
        let f = n % 10000;
        let mut out = String::new();
        if units < 0 {
            push_char(&mut out, '-');
        }
        push_digits(whole, &mut out);
        push_char(&mut out, '.');
        push_char(&mut out, digit_of(f / 1000));
        push_char(&mut out, digit_of(f / 100 % 10));
        push_char(&mut out, digit_of(f / 10 % 10));
        push_char(&mut out, digit_of(f % 10));
        proof {
            assert(out@ =~= fixed4_text(units as int));
        }
        out
    }
}

/// Rounding to four digits keeps the mantissa within range and the scale at
/// most four.
proof fn lemma_rounded_bound(m: int, s: nat)
    requires
        fits(m),
        s <= MAX_SCALE,
    ensures
        fits(rounded_parts(m, s, RENDERED_DIGITS as nat).0),
        rounded_parts(m, s, RENDERED_DIGITS as nat).1 <= RENDERED_DIGITS,
{
    if s > RENDERED_DIGITS {
        let n = (if m < 0 {
            -m
        } else {
            m
        }) as nat;
        let k = (s - RENDERED_DIGITS) as nat;
        let d = pow10(k);
        assert(d >= 10) by {
            reveal_with_fuel(pow10, 2);
            crate::amount::lemma_pow10_positive((k - 1) as nat);
        }
        let q = n / (d as nat);
        assert(q * d <= n) by (nonlinear_arith)
            requires
                q == n / (d as nat),
                d > 0,
        ;
        assert(n > 0 ==> q < n) by (nonlinear_arith)
            requires
                q * d <= n,
                d >= 10,
                q >= 0,
        ;
        assert(n <= MAX_MANTISSA);
    }
}

} // verus!
