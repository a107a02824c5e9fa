//! Monetary amounts: a fixed-precision decimal held as a signed mantissa and a
//! base-ten scale, with the arithmetic carried out by `rust_decimal`.
use rust_decimal::Decimal;
use crate::text::digit_char;
use vstd::prelude::*;

verus! {

/// Largest magnitude of a mantissa: 2^96 - 1.
pub const MAX_MANTISSA: i128 = 79228162514264337593543950335;

/// Largest number of digits after the decimal point.
pub const MAX_SCALE: u32 = 28;

/// `10^e`.
pub open spec fn pow10(e: nat) -> nat
    decreases e,
{
    if e == 0 {
        1
    } else {
        10 * pow10((e - 1) as nat)
    }
}

/// A decimal number `mantissa / 10^scale`.
#[derive(Clone, Copy, Debug)]
pub struct Amount {
    pub mantissa: i128,
    pub scale: u32,
}

impl View for Amount {
    type V = (int, nat);

    open spec fn view(&self) -> (int, nat) {
        (self.mantissa as int, self.scale as nat)
    }
}

/// The value, in units of `10^-28`, of a mantissa at a scale of at most 28.
pub open spec fn scaled_value(mantissa: int, scale: nat) -> int {
    mantissa * pow10((MAX_SCALE - scale) as nat)
}

/// `mantissa` brought from `from` digits after the point to `to` digits (`from <= to`).
pub open spec fn aligned(mantissa: int, from: nat, to: nat) -> int {
    mantissa * pow10((to - from) as nat)
}

pub open spec fn max_nat(a: nat, b: nat) -> nat {
    if a <= b {
        b
    } else {
        a
    }
}

pub open spec fn fits_mantissa(m: int) -> bool {
    -MAX_MANTISSA <= m <= MAX_MANTISSA
}

impl Amount {
    /// Within the range of `rust_decimal::Decimal`.
    pub open spec fn wf(self) -> bool {
        &&& self.scale <= MAX_SCALE
        &&& fits_mantissa(self.mantissa as int)
    }

    /// The number this amount stands for, counted in units of `10^-28`.
    pub open spec fn value(self) -> int {
        scaled_value(self.mantissa as int, self.scale as nat)
    }

    pub open spec fn spec_zero() -> Amount {
        Amount { mantissa: 0, scale: 0 }
    }

    /// Zero, written with no digits after the point.
    pub fn zero() -> (r: Amount)
        ensures
            r == Amount::spec_zero(),
            r.wf(),
            r.value() == 0,
    {
        Amount { mantissa: 0, scale: 0 }
    }

    /// The amount `mantissa / 10^scale`, when it lies in the decimal range.
    pub fn new(mantissa: i128, scale: u32) -> (r: Option<Amount>)
        ensures
            r is Some <==> (scale <= MAX_SCALE && fits_mantissa(mantissa as int)),
            r matches Some(a) ==> a.mantissa == mantissa && a.scale == scale && a.wf(),
    {
        if scale <= MAX_SCALE && -MAX_MANTISSA <= mantissa && mantissa <= MAX_MANTISSA {
            Some(Amount { mantissa, scale })
        } else {
            None
        }
    }
}

/// Whether adding `b` to `a` stays exact: both operands and the sum, written at
/// the larger of the two scales, have a mantissa within range.
pub open spec fn sum_is_exact(a: Amount, b: Amount) -> bool {
    let s = max_nat(a.scale as nat, b.scale as nat);
    let x = aligned(a.mantissa as int, a.scale as nat, s);
    let y = aligned(b.mantissa as int, b.scale as nat, s);
    &&& fits_mantissa(x)
    &&& fits_mantissa(y)
    &&& fits_mantissa(x + y)
}

/// Whether subtracting `b` from `a` stays exact, in the sense of [`sum_is_exact`].
pub open spec fn difference_is_exact(a: Amount, b: Amount) -> bool {
    let s = max_nat(a.scale as nat, b.scale as nat);
    let x = aligned(a.mantissa as int, a.scale as nat, s);
    let y = aligned(b.mantissa as int, b.scale as nat, s);
    &&& fits_mantissa(x)
    &&& fits_mantissa(y)
    &&& fits_mantissa(x - y)
}

/// The amount whose (mantissa, scale) is `v`.
pub open spec fn amount_of(v: (int, nat)) -> Amount {
    Amount { mantissa: v.0 as i128, scale: v.1 as u32 }
}

/// Whether a number (in units of `10^-28`) lies within the decimal range, that is
/// at most `2^96 - 1` in magnitude.
pub open spec fn fits_value(v: int) -> bool {
    -(MAX_MANTISSA * pow10(MAX_SCALE as nat)) <= v <= MAX_MANTISSA * pow10(MAX_SCALE as nat)
}

/// The exact sum as rust_decimal writes it: an operand that is zero gives back
/// the other operand; otherwise both are brought to the larger scale and added.
pub open spec fn exact_sum_result(a: Amount, b: Amount) -> (int, nat) {
    let s = max_nat(a.scale as nat, b.scale as nat);
    if a.mantissa == 0 {
        b@
    } else if b.mantissa == 0 {
        a@
    } else {
        (aligned(a.mantissa as int, a.scale as nat, s) + aligned(b.mantissa as int, b.scale as nat, s), s)
    }
}

/// The exact difference as rust_decimal writes it: zero minus `b` gives `b`
/// negated, `a` minus zero gives `a`; otherwise both are brought to the larger
/// scale and subtracted.
pub open spec fn exact_difference_result(a: Amount, b: Amount) -> (int, nat) {
    let s = max_nat(a.scale as nat, b.scale as nat);
    if a.mantissa == 0 {
        (-b.mantissa, b.scale as nat)
    } else if b.mantissa == 0 {
        a@
    } else {
        (aligned(a.mantissa as int, a.scale as nat, s) - aligned(b.mantissa as int, b.scale as nat, s), s)
    }
}

/// What `Decimal::checked_add` gives for two amounts, as (mantissa, scale).
pub uninterp spec fn decimal_checked_add(a: (int, nat), b: (int, nat)) -> Option<(int, nat)>;

/// What `Decimal::checked_sub` gives for two amounts, as (mantissa, scale).
pub uninterp spec fn decimal_checked_sub(a: (int, nat), b: (int, nat)) -> Option<(int, nat)>;

/// `m / 10^s` rounded to `dp` digits after the point, halves going to the even
/// neighbour; an amount with no more than `dp` digits is left as it is.
pub open spec fn decimal_round_dp(a: (int, nat), dp: nat) -> (int, nat) {
    if a.1 <= dp {
        a
    } else {
        let p: int = pow10((a.1 - dp) as nat) as int;
        let u: int = if a.0 < 0 {
            -a.0
        } else {
            a.0
        };
        let q = u / p;
        let rem = u % p;
        let q2 = if 2 * rem > p || (2 * rem == p && q % 2 == 1) {
            q + 1
        } else {
            q
        };
        (
            if a.0 < 0 {
                -q2
            } else {
                q2
            },
            dp,
        )
    }
}

/// The decimal digits of `n`, most significant first; none for zero.
pub open spec fn magnitude_digits(n: nat) -> Seq<char>
    decreases n,
{
    if n == 0 {
        seq![]
    } else {
        magnitude_digits(n / 10).push(digit_char(n % 10))
    }
}

/// `k` zeros.
pub open spec fn zeros(k: nat) -> Seq<char> {
    Seq::new(k, |i: int| '0')
}

/// The text of `m / 10^s`: a minus sign for a negative number, the digits before
/// the point ("0" where there are none), then, where `s > 0`, the point and
/// exactly `s` digits.
pub open spec fn decimal_text(a: (int, nat)) -> Seq<char> {
    let d = magnitude_digits(
        if a.0 < 0 {
            -a.0
        } else {
            a.0
        } as nat,
    );
    let padded = if d.len() < a.1 {
        zeros((a.1 - d.len()) as nat) + d
    } else {
        d
    };
    let cut = padded.len() - a.1;
    let whole = padded.subrange(0, cut);
    let sign = if a.0 < 0 {
        seq!['-']
    } else {
        Seq::<char>::empty()
    };
    let int_part = if whole.len() == 0 {
        seq!['0']
    } else {
        whole
    };
    if a.1 == 0 {
        sign + int_part
    } else {
        sign + int_part + seq!['.'] + padded.subrange(cut, padded.len() as int)
    }
}

/// `Decimal::checked_add` on the two amounts. Trusted to give an amount in range,
/// named by [`decimal_checked_add`]: an operand that is zero gives back the other;
/// the exact sum, at the larger scale, whenever [`sum_is_exact`] holds; and some
/// amount whenever the sum lies in the decimal range. Where the exact sum needs
/// more than 96 bits, the crate rounds away digits after the point; that rounded
/// result is left unsaid.
#[verifier::external_body]
pub(crate) fn checked_add(a: Amount, b: Amount) -> (r: Option<Amount>)
    requires
        a.wf(),
        b.wf(),
    ensures
        r is Some ==> r.unwrap().wf(),
        decimal_checked_add(a@, b@) == (match r {
            Some(x) => Some(x@),
            None => None,
        }),
        a.mantissa == 0 ==> r == Some(b),
        a.mantissa != 0 && b.mantissa == 0 ==> r == Some(a),
        sum_is_exact(a, b) ==> r == Some(amount_of(exact_sum_result(a, b))),
        sum_is_exact(a, b) ==> r is Some && r.unwrap().value() == a.value() + b.value(),
        fits_value(a.value() + b.value()) ==> r is Some,
{
    let x = Decimal::from_i128_with_scale(a.mantissa, a.scale);
    let y = Decimal::from_i128_with_scale(b.mantissa, b.scale);
    match x.checked_add(y) {
        Some(d) => Some(Amount { mantissa: d.mantissa(), scale: d.scale() }),
        None => None,
    }
}

/// `Decimal::checked_sub` on the two amounts. Trusted as [`checked_add`] is:
/// zero minus `b` gives `b` negated, `a` minus zero gives `a`, the exact
/// difference at the larger scale where [`difference_is_exact`] holds, and some
/// amount whenever the difference lies in the decimal range.
#[verifier::external_body]
pub(crate) fn checked_sub(a: Amount, b: Amount) -> (r: Option<Amount>)
    requires
        a.wf(),
        b.wf(),
    ensures
        r is Some ==> r.unwrap().wf(),
        decimal_checked_sub(a@, b@) == (match r {
            Some(x) => Some(x@),
            None => None,
        }),
        a.mantissa == 0 ==> r == Some(amount_of((-b.mantissa, b.scale as nat))),
        a.mantissa != 0 && b.mantissa == 0 ==> r == Some(a),
        difference_is_exact(a, b) ==> r == Some(amount_of(exact_difference_result(a, b))),
        difference_is_exact(a, b) ==> r is Some && r.unwrap().value() == a.value() - b.value(),
        fits_value(a.value() - b.value()) ==> r is Some,
{
    let x = Decimal::from_i128_with_scale(a.mantissa, a.scale);
    let y = Decimal::from_i128_with_scale(b.mantissa, b.scale);
    match x.checked_sub(y) {
        Some(d) => Some(Amount { mantissa: d.mantissa(), scale: d.scale() }),
        None => None,
    }
}

/// `<=` on `Decimal`, which compares the numbers themselves.
#[verifier::external_body]
pub(crate) fn le(a: Amount, b: Amount) -> (r: bool)
    requires
        a.wf(),
        b.wf(),
    ensures
        r == (a.value() <= b.value()),
{
    Decimal::from_i128_with_scale(a.mantissa, a.scale) <= Decimal::from_i128_with_scale(
        b.mantissa,
        b.scale,
    )
}

/// `Decimal::round_dp`, which rounds to `dp` digits after the point with halves
/// going to the even neighbour: trusted to give [`decimal_round_dp`].
#[verifier::external_body]
pub(crate) fn round_dp(a: Amount, dp: u32) -> (r: Amount)
    requires
        a.wf(),
    ensures
        r.wf(),
        r@ == decimal_round_dp(a@, dp as nat),
{
    let d = Decimal::from_i128_with_scale(a.mantissa, a.scale).round_dp(dp);
    Amount { mantissa: d.mantissa(), scale: d.scale() }
}

/// `Decimal`'s `to_string`: trusted to write [`decimal_text`].
#[verifier::external_body]
pub(crate) fn decimal_to_string(a: Amount) -> (r: String)
    requires
        a.wf(),
    ensures
        r@ == decimal_text(a@),
{
    Decimal::from_i128_with_scale(a.mantissa, a.scale).to_string()
}

/// `(mantissa, scale)` with the trailing zeros after the point taken away.
pub open spec fn strip_trailing_zeros(m: int, s: nat) -> (int, nat)
    decreases s,
{
    if s > 0 && m % 10 == 0 {
        strip_trailing_zeros(m / 10, (s - 1) as nat)
    } else {
        (m, s)
    }
}

impl Amount {
    /// The same number with no trailing zeros after the point (`3.100` becomes
    /// `3.1`, `0.00` becomes `0`).
    pub fn normalize(self) -> (r: Amount)
        requires
            self.wf(),
        ensures
            r.wf(),
            r@ == strip_trailing_zeros(self.mantissa as int, self.scale as nat),
    {
        let negative: bool = self.mantissa < 0;
        let mut magnitude: u128 = if negative {
            (-self.mantissa) as u128
        } else {
            self.mantissa as u128
        };
        let mut scale: u32 = self.scale;
        while scale > 0 && magnitude % 10 == 0
            invariant
                scale <= self.scale,
                magnitude <= MAX_MANTISSA,
                strip_trailing_zeros(self.mantissa as int, self.scale as nat) == strip_trailing_zeros(
                    if negative { -(magnitude as int) } else { magnitude as int },
                    scale as nat,
                ),
            decreases scale,
        {
            magnitude = magnitude / 10;
            scale = scale - 1;
        }
        let mantissa: i128 = if negative {
            -(magnitude as i128)
        } else {
            magnitude as i128
        };
        Amount { mantissa, scale }
    }
}

/// Powers of ten are positive.
pub proof fn lemma_pow10_positive(e: nat)
    ensures
        pow10(e) > 0,
    decreases e,
{
    if e > 0 {
        lemma_pow10_positive((e - 1) as nat);
    }
}

/// An amount has the sign of its mantissa.
pub proof fn lemma_value_sign(a: Amount)
    requires
        a.wf(),
    ensures
        a.value() > 0 <==> a.mantissa > 0,
        a.value() == 0 <==> a.mantissa == 0,
        a.value() < 0 <==> a.mantissa < 0,
{
    let p = pow10((MAX_SCALE - a.scale) as nat);
    lemma_pow10_positive((MAX_SCALE - a.scale) as nat);
    let m = a.mantissa as int;
    assert(m > 0 ==> m * p > 0) by (nonlinear_arith)
        requires
            p > 0,
    ;
    assert(m < 0 ==> m * p < 0) by (nonlinear_arith)
        requires
            p > 0,
    ;
    assert(m == 0 ==> m * p == 0);
}

/// Powers of ten grow with the exponent.
pub proof fn lemma_pow10_monotone(i: nat, j: nat)
    requires
        i <= j,
    ensures
        pow10(i) <= pow10(j),
    decreases j,
{
    if i < j {
        lemma_pow10_monotone(i, (j - 1) as nat);
    }
}

/// Every amount in range lies in the decimal range.
pub proof fn lemma_value_in_range(a: Amount)
    requires
        a.wf(),
    ensures
        fits_value(a.value()),
{
    let p = pow10((MAX_SCALE - a.scale) as nat);
    let q = pow10(MAX_SCALE as nat);
    lemma_pow10_positive((MAX_SCALE - a.scale) as nat);
    lemma_pow10_monotone((MAX_SCALE - a.scale) as nat, MAX_SCALE as nat);
    let m = a.mantissa as int;
    assert(-(MAX_MANTISSA * q) <= m * p <= MAX_MANTISSA * q) by (nonlinear_arith)
        requires
            0 < p <= q,
            -MAX_MANTISSA <= m <= MAX_MANTISSA,
    ;
}

} // verus!
