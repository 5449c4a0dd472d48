//! Fixed-point decimal numbers as `rust_decimal` represents them: a signed
//! 96-bit mantissa and a power-of-ten scale between 0 and 28.
//!
//! The arithmetic itself is computed by `rust_decimal`; the functions here
//! carry it across the boundary and state what it is known to do. A value is
//! modelled by the integer `val()`, the number expressed in units of 10^-28,
//! so that comparison, addition and subtraction are plain integer arithmetic.
use vstd::prelude::*;
use crate::text::digit_char;
use vstd::std_specs::cmp::PartialEqSpecImpl;

verus! {

/// 10^n.
pub open spec fn pow10(n: nat) -> int
    decreases n,
{
    if n == 0 {
        1
    } else {
        10 * pow10((n - 1) as nat)
    }
}

/// The largest mantissa magnitude, 2^96 - 1.
pub open spec fn max_mantissa() -> int {
    79228162514264337593543950335
}

/// The value of 1 in units of 10^-28.
pub open spec fn unit() -> int {
    10000000000000000000000000000
}

/// The largest magnitude a decimal can hold, in units of 10^-28.
pub open spec fn max_val() -> int {
    max_mantissa() * unit()
}

pub open spec fn abs(x: int) -> int {
    if x < 0 {
        -x
    } else {
        x
    }
}

pub open spec fn max_nat(a: nat, b: nat) -> nat {
    if a >= b {
        a
    } else {
        b
    }
}

/// `n / d` rounded to the nearest integer, ties to the even neighbour.
pub open spec fn round_half_even(n: int, d: int) -> int
    recommends
        d > 0,
{
    let q = n / d;
    let r = n % d;
    if 2 * r > d {
        q + 1
    } else if 2 * r < d {
        q
    } else if q % 2 == 0 {
        q
    } else {
        q + 1
    }
}

/// A decimal number `mantissa * 10^-scale`.
#[derive(Clone, Copy, Debug)]
pub struct Dec {
    pub(crate) mantissa: i128,
    pub(crate) scale: u32,
}

impl Dec {
    #[verifier::type_invariant]
    pub closed spec fn well_formed(self) -> bool {
        &&& -max_mantissa() <= self.mantissa <= max_mantissa()
        &&& self.scale <= 28
    }

    /// The invariant in terms of the model.
    pub proof fn lemma_well_formed(self)
        requires
            self.well_formed(),
        ensures
            -max_mantissa() <= self.mant() <= max_mantissa(),
            self.exp() <= 28,
    {
    }

    pub closed spec fn mant(self) -> int {
        self.mantissa as int
    }

    pub closed spec fn exp(self) -> nat {
        self.scale as nat
    }

    /// The decimal with the given mantissa and scale.
    pub closed spec fn literal(m: int, s: nat) -> Dec {
        Dec { mantissa: m as i128, scale: s as u32 }
    }

    /// A decimal is determined by its mantissa and scale.
    pub proof fn lemma_literal(m: int, s: nat)
        requires
            -max_mantissa() <= m <= max_mantissa(),
            s <= 28,
        ensures
            Dec::literal(m, s).mant() == m,
            Dec::literal(m, s).exp() == s,
            Dec::literal(m, s).well_formed(),
            forall|d: Dec| d.mant() == m && d.exp() == s ==> d == Dec::literal(m, s),
    {
    }

    /// The number in units of 10^-28.
    pub open spec fn val(self) -> int {
        self.mant() * pow10((28 - self.exp()) as nat)
    }

    /// `num * 10^-scale`, as `Decimal::new` builds it.
    pub fn new(num: i64, scale: u32) -> (r: Dec)
        requires
            scale <= 28,
        ensures
            r.mant() == num,
            r.exp() == scale,
            r == Dec::literal(num as int, scale as nat),
    {
        Dec { mantissa: num as i128, scale }
    }

    /// `mantissa * 10^-scale`, as `Decimal::from_i128_with_scale` builds it.
    pub fn from_parts(mantissa: i128, scale: u32) -> (r: Dec)
        requires
            -max_mantissa() <= mantissa <= max_mantissa(),
            scale <= 28,
        ensures
            r.mant() == mantissa,
            r.exp() == scale,
            r == Dec::literal(mantissa as int, scale as nat),
    {
        Dec { mantissa, scale }
    }

    pub fn from_u64(n: u64) -> (r: Dec)
        ensures
            r.mant() == n,
            r.exp() == 0,
            r == Dec::literal(n as int, 0),
    {
        Dec { mantissa: n as i128, scale: 0 }
    }

    pub fn from_usize(n: usize) -> (r: Dec)
        ensures
            r.mant() == n,
            r.exp() == 0,
            r == Dec::literal(n as int, 0),
    {
        Dec { mantissa: n as i128, scale: 0 }
    }

    pub fn from_i64(n: i64) -> (r: Dec)
        ensures
            r.mant() == n,
            r.exp() == 0,
            r == Dec::literal(n as int, 0),
    {
        Dec { mantissa: n as i128, scale: 0 }
    }

    pub fn zero() -> (r: Dec)
        ensures
            r.mant() == 0,
            r.exp() == 0,
            r == Dec::literal(0, 0),
            r.val() == 0,
    {
        Dec { mantissa: 0, scale: 0 }
    }

    pub fn one() -> (r: Dec)
        ensures
            r.mant() == 1,
            r.exp() == 0,
            r == Dec::literal(1, 0),
            r.val() == unit(),
    {
        proof {
            lemma_pow10_28();
        }
        Dec { mantissa: 1, scale: 0 }
    }

    pub fn two() -> (r: Dec)
        ensures
            r.mant() == 2,
            r.exp() == 0,
            r == Dec::literal(2, 0),
            r.val() == 2 * unit(),
    {
        proof {
            lemma_pow10_28();
        }
        Dec { mantissa: 2, scale: 0 }
    }

    pub fn mantissa(&self) -> (r: i128)
        ensures
            r == self.mant(),
    {
        self.mantissa
    }

    pub fn scale(&self) -> (r: u32)
        ensures
            r == self.exp(),
    {
        self.scale
    }

    pub fn is_zero(&self) -> (r: bool)
        ensures
            r == (self.val() == 0),
    {
        proof {
            lemma_pow10_positive((28 - self.exp()) as nat);
            lemma_mul_zero_iff(self.mant(), pow10((28 - self.exp()) as nat));
        }
        self.mantissa == 0
    }

    /// The negation of `self`, at the same scale.
    pub closed spec fn negated(self) -> Dec {
        Dec { mantissa: (-self.mantissa) as i128, scale: self.scale }
    }

    /// The magnitude of `self`, at the same scale.
    pub closed spec fn magnitude(self) -> Dec {
        if self.mantissa < 0 {
            Dec { mantissa: (-self.mantissa) as i128, scale: self.scale }
        } else {
            self
        }
    }

    pub proof fn lemma_negated(self)
        requires
            self.well_formed(),
        ensures
            self.negated().val() == -self.val(),
            self.negated().exp() == self.exp(),
            self.negated().well_formed(),
    {
        lemma_neg_mul(self.mant(), pow10((28 - self.exp()) as nat));
    }

    pub proof fn lemma_magnitude(self)
        requires
            self.well_formed(),
        ensures
            self.magnitude().val() == abs(self.val()),
            self.magnitude().exp() == self.exp(),
            self.magnitude().well_formed(),
    {
        lemma_neg_mul(self.mant(), pow10((28 - self.exp()) as nat));
        lemma_pow10_positive((28 - self.exp()) as nat);
        lemma_sign_mul(self.mant(), pow10((28 - self.exp()) as nat));
    }

    /// `-self`; the scale is kept.
    pub fn neg(&self) -> (r: Dec)
        ensures
            r == self.negated(),
            r.val() == -self.val(),
            r.exp() == self.exp(),
    {
        proof {
            use_type_invariant(self);
            lemma_neg_mul(self.mant(), pow10((28 - self.exp()) as nat));
        }
        Dec { mantissa: -self.mantissa, scale: self.scale }
    }

    /// `|self|`; the scale is kept.
    pub fn abs(&self) -> (r: Dec)
        ensures
            r == self.magnitude(),
            r.val() == abs(self.val()),
            r.exp() == self.exp(),
    {
        proof {
            use_type_invariant(self);
            lemma_neg_mul(self.mant(), pow10((28 - self.exp()) as nat));
            lemma_pow10_positive((28 - self.exp()) as nat);
            lemma_sign_mul(self.mant(), pow10((28 - self.exp()) as nat));
        }
        if self.mantissa < 0 {
            Dec { mantissa: -self.mantissa, scale: self.scale }
        } else {
            *self
        }
    }

    /// `self < other` by value.
    pub fn lt(&self, other: &Dec) -> (r: bool)
        ensures
            r == (self.val() < other.val()),
    {
        dec_lt(*self, *other)
    }

    /// `self <= other` by value.
    pub fn le(&self, other: &Dec) -> (r: bool)
        ensures
            r == (self.val() <= other.val()),
    {
        !dec_lt(*other, *self)
    }

    /// `self > other` by value.
    pub fn gt(&self, other: &Dec) -> (r: bool)
        ensures
            r == (self.val() > other.val()),
    {
        dec_lt(*other, *self)
    }

    /// `self >= other` by value.
    pub fn ge(&self, other: &Dec) -> (r: bool)
        ensures
            r == (self.val() >= other.val()),
    {
        !dec_lt(*self, *other)
    }

    /// Equality by value (`1.0 == 1`).
    pub fn eq_val(&self, other: &Dec) -> (r: bool)
        ensures
            r == (self.val() == other.val()),
    {
        !dec_lt(*self, *other) && !dec_lt(*other, *self)
    }

    /// The smaller of the two by value; `self` when they are equal.
    pub fn min(self, other: Dec) -> (r: Dec)
        ensures
            r == dec_min(self, other),
    {
        if dec_lt(other, self) {
            other
        } else {
            self
        }
    }

    /// The larger of the two by value; `other` when they are equal.
    pub fn max(self, other: Dec) -> (r: Dec)
        ensures
            r == dec_max(self, other),
    {
        if dec_lt(other, self) {
            self
        } else {
            other
        }
    }

    /// `self > 0`.
    pub fn is_positive(&self) -> (r: bool)
        ensures
            r == (self.val() > 0),
    {
        proof {
            lemma_pow10_positive((28 - self.exp()) as nat);
            lemma_sign_mul(self.mant(), pow10((28 - self.exp()) as nat));
        }
        self.mantissa > 0
    }

    /// `self < 0`.
    pub fn is_negative(&self) -> (r: bool)
        ensures
            r == (self.val() < 0),
    {
        proof {
            lemma_pow10_positive((28 - self.exp()) as nat);
            lemma_sign_mul(self.mant(), pow10((28 - self.exp()) as nat));
        }
        self.mantissa < 0
    }
}

/// `a` rounded to an integer, ties to even, as `Decimal::round` gives it.
pub open spec fn rounded(a: Dec) -> Dec {
    if a.exp() == 0 {
        a
    } else {
        Dec::literal(round_half_even(a.val(), unit()), 0)
    }
}

/// The largest integer not above `a`, as `Decimal::floor` gives it.
pub open spec fn floored(a: Dec) -> Dec {
    if a.exp() == 0 {
        a
    } else {
        Dec::literal(a.val() / unit(), 0)
    }
}

/// A decimal of scale 0 is its value in whole units.
proof fn lemma_scale_zero(d: Dec)
    requires
        d.well_formed(),
        d.exp() == 0,
    ensures
        d == Dec::literal(d.val() / unit(), 0),
        d.val() == d.mant() * unit(),
{
    lemma_pow10_28();
    assert(d.val() == d.mant() * unit());
    assert(d.mant() * unit() / unit() == d.mant()) by (nonlinear_arith);
}

impl Dec {
    /// Rounded to an integer, ties to even (`Decimal::round`).
    pub fn round(&self) -> (r: Dec)
        ensures
            r == rounded(*self),
    {
        let r = dec_round(*self);
        proof {
            use_type_invariant(&r);
            if self.exp() != 0 {
                lemma_scale_zero(r);
                lemma_pow10_28();
                let q = round_half_even(self.val(), unit());
                assert(r.mant() * unit() == unit() * q);
                assert(r.mant() == q) by (nonlinear_arith)
                    requires
                        r.mant() * unit() == unit() * q,
                        unit() > 0,
                ;
            }
        }
        r
    }

    /// The largest integer not above (`Decimal::floor`).
    pub fn floor(&self) -> (r: Dec)
        ensures
            r == floored(*self),
    {
        let r = dec_floor(*self);
        proof {
            use_type_invariant(&r);
            if self.exp() != 0 {
                lemma_scale_zero(r);
                lemma_pow10_28();
                let q = self.val() / unit();
                assert(r.mant() * unit() == unit() * q);
                assert(r.mant() == q) by (nonlinear_arith)
                    requires
                        r.mant() * unit() == unit() * q,
                        unit() > 0,
                ;
            }
        }
        r
    }
}

/// `x` limited to the range of a 64-bit signed integer.
pub open spec fn clamp_i64(x: int) -> int {
    if x < i64::MIN {
        i64::MIN as int
    } else if x > i64::MAX {
        i64::MAX as int
    } else {
        x
    }
}

impl Dec {
    /// The value rounded to the nearest integer (ties to even).
    pub fn round_to_i128(&self) -> (r: i128)
        ensures
            r == round_half_even(self.val(), unit()),
            -max_mantissa() <= r <= max_mantissa(),
    {
        let rd = self.round();
        proof {
            use_type_invariant(&rd);
            use_type_invariant(self);
            lemma_pow10_28();
            if self.exp() != 0 {
                lemma_val_bounds(*self);
                let v = self.val();
                let q = round_half_even(v, unit());
                assert(-max_mantissa() <= v / unit() <= max_mantissa()) by (nonlinear_arith)
                    requires
                        -max_mantissa() * unit() <= v <= max_mantissa() * unit(),
                        unit() > 0,
                ;
                assert(v / unit() <= q <= v / unit() + 1);
                assert(rd == Dec::literal(q, 0));
                assert(rd.mant() == q);
            } else {
                let m = self.mant();
                assert(self.val() == m * unit());
                assert((m * unit()) / unit() == m && (m * unit()) % unit() == 0) by (nonlinear_arith)
                    requires
                        unit() > 0,
                ;
            }
        }
        rd.mantissa
    }

    /// The value rounded to the nearest integer (ties to even), as a 64-bit
    /// integer, saturating at its limits.
    pub fn round_to_i64(&self) -> (r: i64)
        ensures
            r == clamp_i64(round_half_even(self.val(), unit())),
    {
        let m = self.round_to_i128();
        if m < i64::MIN as i128 {
            i64::MIN
        } else if m > i64::MAX as i128 {
            i64::MAX
        } else {
            m as i64
        }
    }
}

/// `Ord::min` on decimals: `b` when `b < a`, else `a`.
pub open spec fn dec_min(a: Dec, b: Dec) -> Dec {
    if b.val() < a.val() {
        b
    } else {
        a
    }
}

/// `Ord::max` on decimals: `a` when `b < a`, else `b`.
pub open spec fn dec_max(a: Dec, b: Dec) -> Dec {
    if b.val() < a.val() {
        a
    } else {
        b
    }
}

impl PartialEq for Dec {
    fn eq(&self, other: &Dec) -> (r: bool) {
        !dec_lt(*self, *other) && !dec_lt(*other, *self)
    }
}

impl Eq for Dec {
}

impl PartialEqSpecImpl for Dec {
    open spec fn obeys_eq_spec() -> bool {
        true
    }

    open spec fn eq_spec(&self, other: &Dec) -> bool {
        self.val() == other.val()
    }
}

// ---------------------------------------------------------------------------
// Facts of arithmetic.

pub proof fn lemma_pow10_positive(n: nat)
    ensures
        pow10(n) >= 1,
    decreases n,
{
    if n > 0 {
        lemma_pow10_positive((n - 1) as nat);
    }
}

pub proof fn lemma_pow10_28()
    ensures
        pow10(28) == unit(),
{
    reveal_with_fuel(pow10, 29);
}

pub proof fn lemma_pow10_add(a: nat, b: nat)
    ensures
        pow10(a + b) == pow10(a) * pow10(b),
    decreases a,
{
    if a > 0 {
        lemma_pow10_add((a - 1) as nat, b);
        assert(pow10(a + b) == 10 * pow10((a - 1 + b) as nat));
        assert(10 * (pow10((a - 1) as nat) * pow10(b)) == (10 * pow10((a - 1) as nat)) * pow10(b))
            by (nonlinear_arith);
    }
}

pub proof fn lemma_pow10_monotone(a: nat, b: nat)
    requires
        a <= b,
    ensures
        pow10(a) <= pow10(b),
    decreases b,
{
    if a < b {
        lemma_pow10_monotone(a, (b - 1) as nat);
        lemma_pow10_positive((b - 1) as nat);
    }
}

pub proof fn lemma_neg_mul(a: int, b: int)
    ensures
        (-a) * b == -(a * b),
{
    assert((-a) * b == -(a * b)) by (nonlinear_arith);
}

pub proof fn lemma_sign_mul(a: int, b: int)
    requires
        b > 0,
    ensures
        (a > 0) == (a * b > 0),
        (a < 0) == (a * b < 0),
        (a == 0) == (a * b == 0),
{
    assert((a > 0) == (a * b > 0)) by (nonlinear_arith)
        requires
            b > 0,
    ;
    assert((a < 0) == (a * b < 0)) by (nonlinear_arith)
        requires
            b > 0,
    ;
    assert((a == 0) == (a * b == 0)) by (nonlinear_arith)
        requires
            b > 0,
    ;
}

pub proof fn lemma_mul_zero_iff(a: int, b: int)
    requires
        b > 0,
    ensures
        (a == 0) == (a * b == 0),
{
    lemma_sign_mul(a, b);
}

/// Every decimal's value lies within the representable range.
pub proof fn lemma_val_bounds(d: Dec)
    requires
        d.well_formed(),
    ensures
        abs(d.val()) <= max_val(),
        d.val() % pow10((28 - d.exp()) as nat) == 0,
{
    let p = pow10((28 - d.exp()) as nat);
    lemma_pow10_monotone((28 - d.exp()) as nat, 28);
    lemma_pow10_28();
    lemma_pow10_positive((28 - d.exp()) as nat);
    let m = d.mant();
    assert(abs(m * p) <= max_mantissa() * unit()) by (nonlinear_arith)
        requires
            -max_mantissa() <= m <= max_mantissa(),
            1 <= p <= unit(),
            max_mantissa() > 0,
    ;
    assert((m * p) % p == 0) by (nonlinear_arith)
        requires
            p >= 1,
    ;
}

// ---------------------------------------------------------------------------
// What rust_decimal computes.

/// The decimal that `rust_decimal` gives for `a + b`.
pub uninterp spec fn decimal_sum(a: Dec, b: Dec) -> Dec;

/// The decimal that `rust_decimal` gives for `a - b`.
pub uninterp spec fn decimal_difference(a: Dec, b: Dec) -> Dec;

/// The decimal that `rust_decimal` gives for `a * b`.
pub uninterp spec fn decimal_product(a: Dec, b: Dec) -> Dec;

/// The decimal that `rust_decimal` gives for `a / b`.
pub uninterp spec fn decimal_quotient(a: Dec, b: Dec) -> Dec;

/// The decimal digits of a non-negative integer; none for zero.
pub open spec fn mantissa_digits(n: nat) -> Seq<char>
    decreases n,
{
    if n == 0 {
        Seq::empty()
    } else {
        mantissa_digits(n / 10).push(digit_char((n % 10) as int))
    }
}

/// `digits` with zeros in front, up to `len` characters.
pub open spec fn zero_padded(digits: Seq<char>, len: nat) -> Seq<char> {
    if digits.len() < len {
        Seq::new((len - digits.len()) as nat, |i: int| '0') + digits
    } else {
        digits
    }
}

/// The text that `rust_decimal` writes for `d` (its `Display`): a minus sign
/// for a negative value, the whole digits ("0" when there are none), and, at
/// a positive scale, a point followed by exactly `scale` digits.
pub open spec fn decimal_text(d: Dec) -> Seq<char> {
    let ds = zero_padded(mantissa_digits(abs(d.mant()) as nat), d.exp());
    let w = ds.len() - d.exp();
    let whole = if w == 0 {
        seq!['0']
    } else {
        ds.subrange(0, w)
    };
    let body = if d.exp() == 0 {
        whole
    } else {
        whole + seq!['.'] + ds.subrange(w, ds.len() as int)
    };
    if d.mant() < 0 {
        seq!['-'] + body
    } else {
        body
    }
}

/// The decimal that `rust_decimal` reads from `s` (its `FromStr`), if any.
pub uninterp spec fn decimal_parse(s: Seq<char>) -> Option<Dec>;

/// `a + b` does not overflow: its magnitude is below the largest decimal,
/// with one unit to spare.
pub open spec fn sum_ok(a: Dec, b: Dec) -> bool {
    abs(a.val() + b.val()) + unit() <= max_val()
}

/// `a - b` does not overflow.
pub open spec fn difference_ok(a: Dec, b: Dec) -> bool {
    abs(a.val() - b.val()) + unit() <= max_val()
}

/// `a * b` does not overflow.
pub open spec fn product_ok(a: Dec, b: Dec) -> bool {
    abs(a.val() * b.val()) + unit() * unit() <= max_val() * unit()
}

/// `a / b` has a divisor and does not overflow.
pub open spec fn quotient_ok(a: Dec, b: Dec) -> bool {
    &&& b.val() != 0
    &&& abs(a.val()) * unit() + unit() * abs(b.val()) <= max_val() * abs(b.val())
}

/// The exact sum of `a` and `b` fits a mantissa at the larger of their scales.
pub open spec fn sum_fits(x: int, a: Dec, b: Dec) -> bool {
    abs(x) <= max_mantissa() * pow10((28 - max_nat(a.exp(), b.exp())) as nat)
}

/// Addition (`<Decimal as Add>::add`). The result is exact when the exact sum
/// fits at the larger scale; otherwise it is rounded, never by more than one.
#[verifier::external_body]
pub(crate) fn dec_add(a: Dec, b: Dec) -> (r: Dec)
    requires
        sum_ok(a, b),
    ensures
        r == decimal_sum(a, b),
        r.exp() <= max_nat(a.exp(), b.exp()),
        abs(r.val() - (a.val() + b.val())) <= unit(),
        sum_fits(a.val() + b.val(), a, b) ==> r.val() == a.val() + b.val(),
{
    let x = rust_decimal::Decimal::from_i128_with_scale(a.mantissa, a.scale);
    let y = rust_decimal::Decimal::from_i128_with_scale(b.mantissa, b.scale);
    let z = x + y;
    Dec { mantissa: z.mantissa(), scale: z.scale() }
}

/// Subtraction (`<Decimal as Sub>::sub`), exact when the exact difference
/// fits at the larger scale.
#[verifier::external_body]
pub(crate) fn dec_sub(a: Dec, b: Dec) -> (r: Dec)
    requires
        difference_ok(a, b),
    ensures
        r == decimal_difference(a, b),
        r.exp() <= max_nat(a.exp(), b.exp()),
        abs(r.val() - (a.val() - b.val())) <= unit(),
        sum_fits(a.val() - b.val(), a, b) ==> r.val() == a.val() - b.val(),
{
    let x = rust_decimal::Decimal::from_i128_with_scale(a.mantissa, a.scale);
    let y = rust_decimal::Decimal::from_i128_with_scale(b.mantissa, b.scale);
    let z = x - y;
    Dec { mantissa: z.mantissa(), scale: z.scale() }
}

/// Multiplication (`<Decimal as Mul>::mul`). Exact when the scales add up to
/// at most 28 and the product of the mantissas fits; otherwise rounded, never
/// by more than one.
#[verifier::external_body]
pub(crate) fn dec_mul(a: Dec, b: Dec) -> (r: Dec)
    requires
        product_ok(a, b),
    ensures
        r == decimal_product(a, b),
        r.exp() <= a.exp() + b.exp(),
        abs(r.val() * unit() - a.val() * b.val()) <= unit() * unit(),
        a.exp() + b.exp() <= 28 && abs(a.mant() * b.mant()) <= max_mantissa() ==> r.val()
            == a.mant() * b.mant() * pow10((28 - (a.exp() + b.exp())) as nat),
{
    let x = rust_decimal::Decimal::from_i128_with_scale(a.mantissa, a.scale);
    let y = rust_decimal::Decimal::from_i128_with_scale(b.mantissa, b.scale);
    let z = x * y;
    Dec { mantissa: z.mantissa(), scale: z.scale() }
}

/// `q` is `a / b` to within one unit: the accuracy `rust_decimal`'s division
/// gives (see `dec_div`).
pub open spec fn quotient_close(q: Dec, a: Dec, b: Dec) -> bool {
    abs(q.val() * b.val() - a.val() * unit()) <= unit() * abs(b.val())
}

/// A quantity no larger than a quotient close to `limit / price`, at a
/// positive price, is worth at most the limit at that price, give or take
/// one unit of rounding per unit of price.
pub proof fn lemma_within_limit(quantity: Dec, q: Dec, limit: Dec, price: Dec)
    requires
        quantity.val() <= q.val(),
        quotient_close(q, limit, price),
        price.val() > 0,
    ensures
        quantity.val() * price.val() <= limit.val() * unit() + unit() * price.val(),
{
    let p = price.val();
    assert(quantity.val() * p <= q.val() * p) by (nonlinear_arith)
        requires
            quantity.val() <= q.val(),
            p > 0,
    ;
}

/// Division (`<Decimal as Div>::div`), rounded, never by more than one.
#[verifier::external_body]
pub(crate) fn dec_div(a: Dec, b: Dec) -> (r: Dec)
    requires
        quotient_ok(a, b),
    ensures
        r == decimal_quotient(a, b),
        abs(r.val() * b.val() - a.val() * unit()) <= unit() * abs(b.val()),
{
    let x = rust_decimal::Decimal::from_i128_with_scale(a.mantissa, a.scale);
    let y = rust_decimal::Decimal::from_i128_with_scale(b.mantissa, b.scale);
    let z = x / y;
    Dec { mantissa: z.mantissa(), scale: z.scale() }
}

/// Comparison by value (`<Decimal as PartialOrd>::lt`).
#[verifier::external_body]
pub(crate) fn dec_lt(a: Dec, b: Dec) -> (r: bool)
    ensures
        r == (a.val() < b.val()),
{
    let x = rust_decimal::Decimal::from_i128_with_scale(a.mantissa, a.scale);
    let y = rust_decimal::Decimal::from_i128_with_scale(b.mantissa, b.scale);
    x < y
}

/// `Decimal::round`: to an integer, ties to even. A value with scale 0 is
/// returned unchanged; any other result has scale 0.
#[verifier::external_body]
pub(crate) fn dec_round(a: Dec) -> (r: Dec)
    ensures
        r.val() == unit() * round_half_even(a.val(), unit()),
        a.exp() == 0 ==> r == a,
        a.exp() != 0 ==> r.exp() == 0,
{
    let x = rust_decimal::Decimal::from_i128_with_scale(a.mantissa, a.scale);
    let z = x.round();
    Dec { mantissa: z.mantissa(), scale: z.scale() }
}

/// `Decimal::floor`: the largest integer not above `a`. A value with scale 0
/// is returned unchanged; any other result has scale 0.
#[verifier::external_body]
pub(crate) fn dec_floor(a: Dec) -> (r: Dec)
    ensures
        r.val() == unit() * (a.val() / unit()),
        a.exp() == 0 ==> r == a,
        a.exp() != 0 ==> r.exp() == 0,
{
    let x = rust_decimal::Decimal::from_i128_with_scale(a.mantissa, a.scale);
    let z = x.floor();
    Dec { mantissa: z.mantissa(), scale: z.scale() }
}

/// The text of `a` (`<Decimal as Display>`, through `to_string`).
#[verifier::external_body]
pub(crate) fn dec_to_string(a: Dec) -> (r: String)
    ensures
        r@ == decimal_text(a),
{
    let x = rust_decimal::Decimal::from_i128_with_scale(a.mantissa, a.scale);
    x.to_string()
}

/// Reads a decimal from text (`<Decimal as FromStr>::from_str`); `None` where
/// it reports an error.
#[verifier::external_body]
pub(crate) fn dec_parse(s: &str) -> (r: Option<Dec>)
    ensures
        r == decimal_parse(s@),
{
    match s.parse::<rust_decimal::Decimal>() {
        Ok(z) => Some(Dec { mantissa: z.mantissa(), scale: z.scale() }),
        Err(_) => None,
    }
}

} // verus!
