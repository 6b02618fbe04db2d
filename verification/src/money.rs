//! Exact decimal amounts.
//!
//! A `Money` holds the plain parts of a `rust_decimal::Decimal`: a signed
//! mantissa below 2^96 in magnitude and a scale of at most 28.  Its value is
//! `mantissa / 10^scale`; every such value is a whole number of units of
//! 10^-28, which is what `units` measures.  Comparisons and additions are
//! carried out by `rust_decimal` itself.
use rust_decimal::Decimal;
use vstd::prelude::*;
use vstd::std_specs::cmp::PartialEqSpecImpl;

verus! {

/// 10 to the power `n`.
pub open spec fn pow10(n: nat) -> int
    decreases n,
{
    if n == 0 {
        1
    } else {
        10 * pow10((n - 1) as nat)
    }
}

/// The exclusive bound on a mantissa's magnitude: 2^96.
pub open spec fn mantissa_bound() -> int {
    0x1_0000_0000_0000_0000_0000_0000
}

/// The largest scale a decimal can have.
pub const MAX_SCALE: u32 = 28;

pub open spec fn abs_int(x: int) -> int {
    if x < 0 {
        -x
    } else {
        x
    }
}

pub open spec fn max_nat(a: nat, b: nat) -> nat {
    if a < b {
        b
    } else {
        a
    }
}

/// The decimal digit character for `d` in 0..10.
pub open spec fn digit_char(d: int) -> char {
    if d == 0 {
        '0'
    } else if d == 1 {
        '1'
    } else if d == 2 {
        '2'
    } else if d == 3 {
        '3'
    } else if d == 4 {
        '4'
    } else if d == 5 {
        '5'
    } else if d == 6 {
        '6'
    } else if d == 7 {
        '7'
    } else if d == 8 {
        '8'
    } else {
        '9'
    }
}

/// The decimal digits of `n`, most significant first; empty for zero.
pub open spec fn raw_digits(n: nat) -> Seq<char>
    decreases n,
{
    if n == 0 {
        Seq::empty()
    } else {
        raw_digits(n / 10).push(digit_char((n % 10) as int))
    }
}

/// The decimal representation of `n` as `Display` writes it ("0" for zero).
pub open spec fn nat_text(n: nat) -> Seq<char> {
    if n == 0 {
        seq!['0']
    } else {
        raw_digits(n)
    }
}

/// The decimal representation of a signed integer as `Display` writes it.
pub open spec fn int_text(n: int) -> Seq<char> {
    if n < 0 {
        seq!['-'] + nat_text((-n) as nat)
    } else {
        nat_text(n as nat)
    }
}

/// `count` copies of '0'.
pub open spec fn zeros(count: int) -> Seq<char> {
    Seq::new(if count < 0 { 0 } else { count as nat }, |i: int| '0')
}

/// The mantissa and scale of a decimal.
pub type Parts = (int, nat);

/// The value of decimal parts in units of 10^-28.
pub open spec fn units_of(p: Parts) -> int {
    parts_units(p.0, p.1)
}

/// The mantissa of `p` written at the larger scale `s`.
pub open spec fn rescaled(p: Parts, s: nat) -> int {
    p.0 * pow10((s - p.1) as nat)
}

/// Exact decimal addition as `rust_decimal` performs it when nothing
/// overflows: a zero operand gives back the other operand; otherwise the sum
/// is written at the larger of the two scales.
pub open spec fn add_parts(a: Parts, b: Parts) -> Parts {
    if a.0 == 0 {
        b
    } else if b.0 == 0 {
        a
    } else {
        let s = max_nat(a.1, b.1);
        (rescaled(a, s) + rescaled(b, s), s)
    }
}

/// Exact decimal subtraction as `rust_decimal` performs it when nothing
/// overflows: `0 - b` is `-b`, `a - 0` is `a`; otherwise the difference is
/// written at the larger of the two scales.
pub open spec fn sub_parts(a: Parts, b: Parts) -> Parts {
    if a.0 == 0 {
        (-b.0, b.1)
    } else if b.0 == 0 {
        a
    } else {
        let s = max_nat(a.1, b.1);
        (rescaled(a, s) - rescaled(b, s), s)
    }
}

/// Whether the exact sum at the larger scale has a mantissa below 2^96.
pub open spec fn parts_add_fits(a: Parts, b: Parts) -> bool {
    let s = max_nat(a.1, b.1);
    a.0 == 0 || b.0 == 0 || abs_int(rescaled(a, s) + rescaled(b, s)) < mantissa_bound()
}

/// Whether the exact difference at the larger scale has a mantissa below 2^96.
pub open spec fn parts_sub_fits(a: Parts, b: Parts) -> bool {
    let s = max_nat(a.1, b.1);
    a.0 == 0 || b.0 == 0 || abs_int(rescaled(a, s) - rescaled(b, s)) < mantissa_bound()
}

/// The text that `Decimal`'s `Display` writes for decimal parts.
pub open spec fn parts_text(p: Parts) -> Seq<char> {
    let m = p.0;
    let s = p.1 as int;
    let digits = raw_digits(abs_int(m) as nat);
    let padded = zeros(s - digits.len()) + digits;
    let body = if s == 0 {
        if padded.len() == 0 {
            seq!['0']
        } else {
            padded
        }
    } else {
        let whole = padded.subrange(0, padded.len() - s);
        let frac = padded.subrange(padded.len() - s, padded.len() as int);
        (if whole.len() == 0 {
            seq!['0']
        } else {
            whole
        }) + seq!['.'] + frac
    };
    if m < 0 {
        seq!['-'] + body
    } else {
        body
    }
}

/// An exact decimal amount: `mantissa / 10^scale`.
#[derive(Clone, Copy, Debug)]
pub struct Money {
    mantissa: i128,
    scale: u32,
}

/// The value of the parts `(mantissa, scale)` in units of 10^-28.
pub open spec fn parts_units(mantissa: int, scale: nat) -> int {
    mantissa * pow10((28 - scale) as nat)
}

impl Money {
    #[verifier::type_invariant]
    pub closed spec fn inv(self) -> bool {
        &&& self.scale <= MAX_SCALE
        &&& -mantissa_bound() < self.mantissa < mantissa_bound()
    }

    /// The mantissa of the amount.
    pub closed spec fn spec_mantissa(self) -> int {
        self.mantissa as int
    }

    /// The scale of the amount: the number of digits after the decimal point.
    pub closed spec fn spec_scale(self) -> nat {
        self.scale as nat
    }

    pub open spec fn parts(self) -> Parts {
        (self.spec_mantissa(), self.spec_scale())
    }

    /// The amount in units of 10^-28.
    pub open spec fn units(self) -> int {
        parts_units(self.spec_mantissa(), self.spec_scale())
    }

    /// The text that `Display` writes for the amount.
    pub open spec fn text(self) -> Seq<char> {
        parts_text(self.parts())
    }

    /// Whether an exact sum of `self` and `other`, at the larger of the two
    /// scales, has a mantissa below 2^96.
    pub open spec fn add_fits(self, other: Money) -> bool {
        parts_add_fits(self.parts(), other.parts())
    }

    /// Whether an exact difference of `self` and `other`, at the larger of
    /// the two scales, has a mantissa below 2^96.
    pub open spec fn sub_fits(self, other: Money) -> bool {
        parts_sub_fits(self.parts(), other.parts())
    }

    /// `Ord::max` on decimals: `other` unless `other` is smaller.
    pub open spec fn spec_max(self, other: Money) -> Money {
        if self.units() <= other.units() {
            other
        } else {
            self
        }
    }

    /// The zero amount, scale 0.
    pub fn zero() -> (r: Money)
        ensures
            r.spec_mantissa() == 0,
            r.spec_scale() == 0,
            r.units() == 0,
    {
        Money { mantissa: 0, scale: 0 }
    }

    /// The amount `num / 10^scale`.
    pub fn new(num: i64, scale: u32) -> (r: Money)
        requires
            scale <= MAX_SCALE,
        ensures
            r.spec_mantissa() == num,
            r.spec_scale() == scale,
    {
        assert(-mantissa_bound() < num < mantissa_bound());
        Money { mantissa: num as i128, scale }
    }

    /// The amount `num / 10^scale`, if the mantissa is below 2^96 in magnitude
    /// and the scale at most 28.
    pub fn try_from_i128_with_scale(num: i128, scale: u32) -> (r: Option<Money>)
        ensures
            r is Some <==> (scale <= MAX_SCALE && -mantissa_bound() < num < mantissa_bound()),
            r matches Some(m) ==> m.spec_mantissa() == num && m.spec_scale() == scale,
    {
        if scale <= MAX_SCALE && -0x1_0000_0000_0000_0000_0000_0000i128 < num && num
            < 0x1_0000_0000_0000_0000_0000_0000i128 {
            Some(Money { mantissa: num, scale })
        } else {
            None
        }
    }

    pub fn mantissa(&self) -> (r: i128)
        ensures
            r == self.spec_mantissa(),
    {
        self.mantissa
    }

    pub fn scale(&self) -> (r: u32)
        ensures
            r == self.spec_scale(),
            r <= MAX_SCALE,
    {
        proof {
            use_type_invariant(self);
        }
        self.scale
    }

    pub fn is_zero(&self) -> (r: bool)
        ensures
            r == (self.spec_mantissa() == 0),
            r == (self.units() == 0),
    {
        proof {
            lemma_pow10_positive((28 - self.spec_scale()) as nat);
            if self.spec_mantissa() != 0 {
                vstd::arithmetic::mul::lemma_mul_nonzero(
                    self.spec_mantissa(),
                    pow10((28 - self.spec_scale()) as nat),
                );
            }
        }
        self.mantissa == 0
    }

    /// The absolute value, at the same scale.
    pub fn abs(&self) -> (r: Money)
        ensures
            r.spec_mantissa() == abs_int(self.spec_mantissa()),
            r.spec_scale() == self.spec_scale(),
            r.units() == abs_int(self.units()),
    {
        proof {
            use_type_invariant(self);
            lemma_pow10_positive((28 - self.spec_scale()) as nat);
            vstd::arithmetic::mul::lemma_mul_unary_negation(
                self.spec_mantissa(),
                pow10((28 - self.spec_scale()) as nat),
            );
            if self.spec_mantissa() >= 0 {
                vstd::arithmetic::mul::lemma_mul_nonnegative(
                    self.spec_mantissa(),
                    pow10((28 - self.spec_scale()) as nat),
                );
            } else {
                vstd::arithmetic::mul::lemma_mul_nonnegative(
                    -self.spec_mantissa(),
                    pow10((28 - self.spec_scale()) as nat),
                );
            }
        }
        if self.mantissa < 0 {
            Money { mantissa: -self.mantissa, scale: self.scale }
        } else {
            *self
        }
    }

    /// `self < other` by value.
    pub fn lt(&self, other: &Money) -> (r: bool)
        ensures
            r == (self.units() < other.units()),
    {
        proof {
            use_type_invariant(self);
            use_type_invariant(other);
        }
        decimal_less_than(*self, *other)
    }

    /// `self <= other` by value.
    pub fn le(&self, other: &Money) -> (r: bool)
        ensures
            r == (self.units() <= other.units()),
    {
        !other.lt(self)
    }

    /// `Ord::max`: `other` when `self <= other`, else `self`.
    pub fn max(&self, other: &Money) -> (r: Money)
        ensures
            r == self.spec_max(*other),
    {
        if self.le(other) {
            *other
        } else {
            *self
        }
    }

    /// The normal parts of the amount, as mantissa and scale.
    pub fn normalized(&self) -> (r: (i128, u32))
        ensures
            r.0 as int == normal_parts(self.parts()).0,
            r.1 as nat == normal_parts(self.parts()).1,
    {
        proof {
            use_type_invariant(self);
        }
        let mut m: i128 = self.mantissa;
        let mut s: u32 = self.scale;
        while s > 0 && m % 10 == 0
            invariant
                s <= MAX_SCALE,
                -mantissa_bound() < m < mantissa_bound(),
                normal_parts((m as int, s as nat)) == normal_parts(self.parts()),
            decreases s,
        {
            m = m / 10;
            s = s - 1;
        }
        (m, s)
    }

    /// Whether the fractional part is zero.
    pub fn is_integral(&self) -> (r: bool)
        ensures
            r == (abs_int(self.spec_mantissa()) % pow10(self.spec_scale()) == 0),
    {
        proof {
            use_type_invariant(self);
            lemma_pow10_positive(self.spec_scale());
        }
        let p = pow10_exec(self.scale);
        let magnitude: u128 = if self.mantissa < 0 {
            (-self.mantissa) as u128
        } else {
            self.mantissa as u128
        };
        magnitude % p == 0
    }

    /// Decimal addition; `None` when the sum overflows.
    pub fn checked_add(&self, other: &Money) -> (r: Option<Money>)
        ensures
            self.add_fits(*other) ==> r is Some && r.unwrap().parts() == add_parts(
                self.parts(),
                other.parts(),
            ),
            self.add_fits(*other) ==> r.unwrap().units() == self.units() + other.units(),
    {
        proof {
            use_type_invariant(self);
            use_type_invariant(other);
            lemma_add_parts_units(self.parts(), other.parts());
        }
        decimal_checked_add(*self, *other)
    }

    /// Decimal subtraction; `None` when the difference overflows.
    pub fn checked_sub(&self, other: &Money) -> (r: Option<Money>)
        ensures
            opt_parts(r) == difference_of(*self, *other),
            self.sub_fits(*other) ==> r is Some && r.unwrap().parts() == sub_parts(
                self.parts(),
                other.parts(),
            ),
            self.sub_fits(*other) ==> r.unwrap().units() == self.units() - other.units(),
    {
        proof {
            use_type_invariant(self);
            use_type_invariant(other);
            lemma_sub_parts_units(self.parts(), other.parts());
        }
        decimal_checked_sub(*self, *other)
    }

    /// The text that `Display` writes for the amount.
    pub fn to_text(&self) -> (r: String)
        ensures
            r@ == self.text(),
    {
        proof {
            use_type_invariant(self);
        }
        decimal_display(*self)
    }
}

pub proof fn lemma_pow10_positive(n: nat)
    ensures
        pow10(n) >= 1,
    decreases n,
{
    if n > 0 {
        lemma_pow10_positive((n - 1) as nat);
    }
}

/// 10^n for n <= 28.
pub fn pow10_exec(n: u32) -> (r: u128)
    requires
        n <= 28,
    ensures
        r == pow10(n as nat),
        r <= 10_000_000_000_000_000_000_000_000_000u128,
{
    let mut r: u128 = 1;
    let mut i: u32 = 0;
    while i < n
        invariant
            i <= n <= 28,
            r == pow10(i as nat),
        decreases n - i,
    {
        proof {
            lemma_pow10_monotone((i + 1) as nat, 28);
            lemma_pow10_28();
            assert(pow10((i + 1) as nat) == 10 * pow10(i as nat));
        }
        r = r * 10;
        i = i + 1;
    }
    proof {
        lemma_pow10_monotone(n as nat, 28);
        lemma_pow10_28();
    }
    r
}

pub proof fn lemma_pow10_add(x: nat, y: nat)
    ensures
        pow10(x) * pow10(y) == pow10(x + y),
    decreases x,
{
    if x > 0 {
        lemma_pow10_add((x - 1) as nat, y);
        assert(pow10(x) * pow10(y) == 10 * (pow10((x - 1) as nat) * pow10(y))) by (nonlinear_arith)
            requires
                pow10(x) == 10 * pow10((x - 1) as nat),
        ;
    }
}

/// Writing an amount at a larger scale keeps its value.
pub proof fn lemma_rescaled_units(p: Parts, s: nat)
    requires
        p.1 <= s <= 28,
    ensures
        parts_units(rescaled(p, s), s) == units_of(p),
{
    lemma_pow10_add((s - p.1) as nat, (28 - s) as nat);
    assert(p.0 * pow10((s - p.1) as nat) * pow10((28 - s) as nat) == p.0 * (pow10(
        (s - p.1) as nat,
    ) * pow10((28 - s) as nat))) by (nonlinear_arith);
}

/// The value of a sum is the sum of the values.
pub proof fn lemma_add_parts_units(a: Parts, b: Parts)
    requires
        a.1 <= 28,
        b.1 <= 28,
    ensures
        units_of(add_parts(a, b)) == units_of(a) + units_of(b),
{
    if a.0 != 0 && b.0 != 0 {
        let s = max_nat(a.1, b.1);
        lemma_rescaled_units(a, s);
        lemma_rescaled_units(b, s);
        assert(parts_units(rescaled(a, s) + rescaled(b, s), s) == parts_units(rescaled(a, s), s)
            + parts_units(rescaled(b, s), s)) by (nonlinear_arith);
    } else if a.0 == 0 {
        assert(units_of(a) == 0);
    } else {
        assert(units_of(b) == 0);
    }
}

/// The value of a difference is the difference of the values.
pub proof fn lemma_sub_parts_units(a: Parts, b: Parts)
    requires
        a.1 <= 28,
        b.1 <= 28,
    ensures
        units_of(sub_parts(a, b)) == units_of(a) - units_of(b),
{
    if a.0 != 0 && b.0 != 0 {
        let s = max_nat(a.1, b.1);
        lemma_rescaled_units(a, s);
        lemma_rescaled_units(b, s);
        assert(parts_units(rescaled(a, s) - rescaled(b, s), s) == parts_units(rescaled(a, s), s)
            - parts_units(rescaled(b, s), s)) by (nonlinear_arith);
    } else if a.0 == 0 {
        assert(units_of(a) == 0);
        assert(parts_units(-b.0, b.1) == -parts_units(b.0, b.1)) by (nonlinear_arith);
    } else {
        assert(units_of(b) == 0);
    }
}

/// The parts of the same value with the trailing zeros of the mantissa
/// removed: equal values have equal normal parts.
pub open spec fn normal_parts(p: Parts) -> Parts
    decreases p.1,
{
    if p.1 > 0 && p.0 % 10 == 0 {
        normal_parts((p.0 / 10, (p.1 - 1) as nat))
    } else {
        p
    }
}

/// Parts with no trailing zero left to remove.
pub open spec fn is_normal(p: Parts) -> bool {
    p.1 == 0 || p.0 % 10 != 0
}

/// Normalising keeps the value, does not raise the scale, and leaves no
/// trailing zero.
pub proof fn lemma_normal_parts(p: Parts)
    requires
        p.1 <= 28,
    ensures
        units_of(normal_parts(p)) == units_of(p),
        normal_parts(p).1 <= p.1,
        is_normal(normal_parts(p)),
    decreases p.1,
{
    if p.1 > 0 && p.0 % 10 == 0 {
        let q = (p.0 / 10, (p.1 - 1) as nat);
        lemma_normal_parts(q);
        assert(pow10((28 - q.1) as nat) == 10 * pow10((28 - p.1) as nat));
        assert(q.0 * 10 == p.0);
        assert(units_of(q) == q.0 * (10 * pow10((28 - p.1) as nat)));
        assert(q.0 * (10 * pow10((28 - p.1) as nat)) == (q.0 * 10) * pow10((28 - p.1) as nat)) by (nonlinear_arith);
    }
}

/// Two normal parts of the same value are the same parts.
proof fn lemma_normal_unique(a: Parts, b: Parts)
    requires
        a.1 <= 28,
        b.1 <= 28,
        is_normal(a),
        is_normal(b),
        units_of(a) == units_of(b),
    ensures
        a == b,
{
    if a.1 < b.1 {
        lemma_normal_gap(a, b);
    } else if b.1 < a.1 {
        lemma_normal_gap(b, a);
    } else {
        let pp = pow10((28 - a.1) as nat);
        lemma_pow10_positive((28 - a.1) as nat);
        assert(a.0 * pp == b.0 * pp);
        assert(a.0 == b.0) by (nonlinear_arith)
            requires
                a.0 * pp == b.0 * pp,
                pp >= 1,
        ;
    }
}

/// Of two parts with the same value, the one at the larger scale has a
/// trailing zero.
proof fn lemma_normal_gap(a: Parts, b: Parts)
    requires
        a.1 < b.1 <= 28,
        units_of(a) == units_of(b),
    ensures
        b.0 % 10 == 0,
{
    let d = (b.1 - a.1) as nat;
    let pb = pow10((28 - b.1) as nat);
    let pd = pow10((d - 1) as nat);
    lemma_pow10_add(d, (28 - b.1) as nat);
    lemma_pow10_positive((28 - b.1) as nat);
    assert(pow10(d) == 10 * pd);
    assert((a.0 * pow10(d)) * pb == b.0 * pb) by (nonlinear_arith)
        requires
            a.0 * (pow10(d) * pb) == b.0 * pb,
    ;
    assert(a.0 * pow10(d) == b.0) by (nonlinear_arith)
        requires
            (a.0 * pow10(d)) * pb == b.0 * pb,
            pb >= 1,
    ;
    assert(b.0 == (a.0 * pd) * 10) by (nonlinear_arith)
        requires
            a.0 * pow10(d) == b.0,
            pow10(d) == 10 * pd,
    ;
}

/// Two amounts have the same normal parts exactly when they have the same
/// value.
pub proof fn law_normal_parts_value(a: Parts, b: Parts)
    requires
        a.1 <= 28,
        b.1 <= 28,
    ensures
        (normal_parts(a) == normal_parts(b)) <==> (units_of(a) == units_of(b)),
{
    lemma_normal_parts(a);
    lemma_normal_parts(b);
    if units_of(a) == units_of(b) {
        lemma_normal_unique(normal_parts(a), normal_parts(b));
    }
}

/// An amount's scale is at most 28.
pub proof fn lemma_scale_bound(m: Money)
    requires
        m.inv(),
    ensures
        m.spec_scale() <= 28,
{
}

/// Amounts with the same normal parts have the same value.
pub proof fn lemma_same_normal_same_value(a: Money, b: Money)
    requires
        a.inv(),
        b.inv(),
        normal_parts(a.parts()) == normal_parts(b.parts()),
    ensures
        a.units() == b.units(),
{
    law_normal_parts_value(a.parts(), b.parts());
}

/// A whole amount is a whole number of 10^28 units.
pub proof fn lemma_whole_units(m: Money)
    requires
        m.inv(),
        abs_int(m.spec_mantissa()) % pow10(m.spec_scale()) == 0,
    ensures
        m.units() % pow10(28) == 0,
{
    let s = m.spec_scale();
    let p = pow10(s);
    let q = pow10((28 - s) as nat);
    lemma_pow10_add(s, (28 - s) as nat);
    lemma_pow10_positive(s);
    assert(p * q == pow10(28));
    let a = abs_int(m.spec_mantissa());
    let w = a / p;
    assert(a == w * p) by (nonlinear_arith)
        requires
            a % p == 0,
            p >= 1,
            w == a / p,
    ;
    let sign: int = if m.spec_mantissa() < 0 { -1 } else { 1 };
    assert(m.spec_mantissa() == sign * a) by (nonlinear_arith)
        requires
            a == abs_int(m.spec_mantissa()),
            sign == if m.spec_mantissa() < 0 { -1int } else { 1int },
    ;
    assert(m.units() == (sign * w) * pow10(28)) by (nonlinear_arith)
        requires
            m.units() == m.spec_mantissa() * q,
            m.spec_mantissa() == sign * a,
            a == w * p,
            p * q == pow10(28),
    ;
    lemma_pow10_positive(28);
    vstd::arithmetic::div_mod::lemma_mod_multiples_basic(sign * w, pow10(28));
}

pub proof fn lemma_pow10_28()
    ensures
        pow10(28) == 10_000_000_000_000_000_000_000_000_000,
{
    reveal_with_fuel(pow10, 29);
}

pub proof fn lemma_pow10_monotone(a: nat, b: nat)
    requires
        a <= b,
    ensures
        pow10(a) <= pow10(b),
    decreases b - a,
{
    if a < b {
        lemma_pow10_monotone(a, (b - 1) as nat);
        lemma_pow10_positive((b - 1) as nat);
    }
}

/// `Decimal`'s `<`, which compares values exactly.
#[verifier::external_body]
fn decimal_less_than(a: Money, b: Money) -> (r: bool)
    requires
        a.inv(),
        b.inv(),
    ensures
        r == (a.units() < b.units()),
{
    Decimal::from_i128_with_scale(a.mantissa, a.scale) < Decimal::from_i128_with_scale(
        b.mantissa,
        b.scale,
    )
}

/// `Decimal::checked_add`.  When the exact sum, at the larger scale, fits
/// in 96 bits, the result is `add_parts` of the operands (a zero operand
/// gives back the other one); otherwise it may be a rounded sum at a smaller
/// scale, or `None` on overflow, and no more is stated.
#[verifier::external_body]
fn decimal_checked_add(a: Money, b: Money) -> (r: Option<Money>)
    requires
        a.inv(),
        b.inv(),
    ensures
        r is Some ==> r.unwrap().inv(),
        a.add_fits(b) ==> r is Some && r.unwrap().parts() == add_parts(a.parts(), b.parts()),
{
    let x = Decimal::from_i128_with_scale(a.mantissa, a.scale);
    let y = Decimal::from_i128_with_scale(b.mantissa, b.scale);
    x.checked_add(y).map(|d| Money { mantissa: d.mantissa(), scale: d.scale() })
}

/// What `Decimal::checked_sub` gives for two decimals, each by mantissa and
/// scale: `None` on overflow, else the mantissa and scale of the difference.
pub uninterp spec fn decimal_difference(a_mantissa: int, a_scale: int, b_mantissa: int, b_scale: int) -> Option<
    (int, int),
>;

/// The mantissa and scale of an optional amount.
pub open spec fn opt_parts(r: Option<Money>) -> Option<(int, int)> {
    match r {
        Some(m) => Some((m.spec_mantissa(), m.spec_scale() as int)),
        None => None,
    }
}

/// What `Decimal::checked_sub` gives for two amounts.
pub open spec fn difference_of(a: Money, b: Money) -> Option<(int, int)> {
    decimal_difference(a.spec_mantissa(), a.spec_scale() as int, b.spec_mantissa(), b.spec_scale() as int)
}

/// `Decimal::checked_sub`.  When the exact difference, at the larger scale,
/// fits in 96 bits, the result is `sub_parts` of the operands; otherwise it
/// may be rounded, or `None` on overflow; either way it is the named result.
#[verifier::external_body]
fn decimal_checked_sub(a: Money, b: Money) -> (r: Option<Money>)
    requires
        a.inv(),
        b.inv(),
    ensures
        r is Some ==> r.unwrap().inv(),
        opt_parts(r) == decimal_difference(a.spec_mantissa(), a.spec_scale() as int, b.spec_mantissa(), b.spec_scale() as int),
        a.sub_fits(b) ==> r is Some && r.unwrap().parts() == sub_parts(a.parts(), b.parts()),
{
    let x = Decimal::from_i128_with_scale(a.mantissa, a.scale);
    let y = Decimal::from_i128_with_scale(b.mantissa, b.scale);
    x.checked_sub(y).map(|d| Money { mantissa: d.mantissa(), scale: d.scale() })
}

/// `Decimal`'s `Display`: an optional '-', the digits of the mantissa padded
/// with leading zeros to more than `scale` digits, and a '.' before the last
/// `scale` digits when the scale is positive.
#[verifier::external_body]
fn decimal_display(a: Money) -> (r: String)
    requires
        a.inv(),
    ensures
        r@ == a.text(),
{
    Decimal::from_i128_with_scale(a.mantissa, a.scale).to_string()
}

/// The value `Decimal::from_str` gives for a text: `None` where it reports
/// an error, else the mantissa and scale of the parsed decimal.
pub uninterp spec fn decimal_parse(text: Seq<char>) -> Option<(int, int)>;

/// `Decimal::from_str`.
#[verifier::external_body]
fn decimal_from_str(text: &str) -> (r: Option<Money>)
    ensures
        r matches Some(m) ==> decimal_parse(text@) == Some((m.spec_mantissa(), m.spec_scale() as int)),
        r is None ==> decimal_parse(text@) is None,
        r matches Some(m) ==> m.inv(),
{
    match text.parse::<Decimal>() {
        Ok(d) => Some(Money { mantissa: d.mantissa(), scale: d.scale() }),
        Err(_) => None,
    }
}

impl Money {
    /// Parses a decimal number as `Decimal::from_str` does.
    pub fn parse(text: &str) -> (r: Option<Money>)
        ensures
            r is Some <==> decimal_parse(text@) is Some,
            r matches Some(m) ==> decimal_parse(text@) == Some(
                (m.spec_mantissa(), m.spec_scale() as int),
            ),
    {
        decimal_from_str(text)
    }
}

/// Two amounts are equal when their values are, whatever their scales
/// (as for `Decimal`: 1000.00 equals 1000).
impl PartialEq for Money {
    fn eq(&self, other: &Money) -> (r: bool) {
        !self.lt(other) && !other.lt(self)
    }
}

impl PartialEqSpecImpl for Money {
    open spec fn obeys_eq_spec() -> bool {
        true
    }

    open spec fn eq_spec(&self, other: &Money) -> bool {
        self.units() == other.units()
    }
}

} // verus!
