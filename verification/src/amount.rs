use rust_decimal::Decimal;
use vstd::prelude::*;

use crate::text::digits;

verus! {

#[verifier::external_type_specification]
#[verifier::external_body]
pub struct ExDecimal(Decimal);

/// `10` to the power `n`.
pub open spec fn pow10(n: nat) -> nat
    decreases n,
{
    if n == 0 {
        1
    } else {
        10 * pow10((n - 1) as nat)
    }
}

/// The first magnitude that no decimal mantissa reaches: `2^96`.
pub const MANTISSA_LIMIT: i128 = 79228162514264337593543950336;

pub open spec fn mantissa_limit() -> int {
    MANTISSA_LIMIT as int
}

/// The largest number of fractional digits a decimal carries.
pub open spec fn max_scale() -> nat {
    28
}

pub open spec fn abs(x: int) -> int {
    if x < 0 {
        -x
    } else {
        x
    }
}

/// A decimal amount of money, held as the parts of a `rust_decimal::Decimal`:
/// a signed mantissa below `2^96` in magnitude, a sign flag (which may mark a
/// zero as negative) and a scale of at most 28 fractional digits.
#[derive(Clone, Copy, Debug)]
pub struct Amount {
    mantissa: i128,
    negative: bool,
    scale: u32,
}

impl Amount {
    /// The amount `num * 10^-scale`, as `Decimal::new` builds it.
    pub fn new(num: i64, scale: u32) -> (r: Amount)
        requires
            scale <= max_scale(),
        ensures
            r.mant() == num,
            r.neg() == (num < 0),
            r.scl() == scale,
    {
        Amount { mantissa: num as i128, negative: num < 0, scale }
    }

    /// The amount with the given parts, when they form a decimal: a mantissa
    /// below `2^96` in magnitude, a scale of at most 28, and a sign flag that
    /// agrees with the mantissa's sign unless the mantissa is zero.
    pub fn from_parts(mantissa: i128, negative: bool, scale: u32) -> (r: Option<Amount>)
        ensures
            r is Some <==> (-mantissa_limit() < mantissa < mantissa_limit() && scale <= max_scale()
                && (mantissa > 0 ==> !negative) && (mantissa < 0 ==> negative)),
            r matches Some(a) ==> a.mant() == mantissa && a.neg() == negative && a.scl() == scale,
    {
        if -MANTISSA_LIMIT < mantissa && mantissa < MANTISSA_LIMIT && scale <= 28 && (mantissa
            <= 0 || !negative) && (mantissa >= 0 || negative) {
            Some(Amount { mantissa, negative, scale })
        } else {
            None
        }
    }

    /// The signed mantissa.
    pub fn mantissa(&self) -> (r: i128)
        ensures
            r == self.mant(),
    {
        self.mantissa
    }

    /// Whether the sign flag is set (a zero may carry it).
    pub fn is_sign_negative(&self) -> (r: bool)
        ensures
            r == self.neg(),
    {
        self.negative
    }

    /// The number of fractional digits.
    pub fn scale(&self) -> (r: u32)
        ensures
            r == self.scl(),
    {
        self.scale
    }

    /// `self + other` as `Decimal::checked_add` computes it; `None` when the
    /// sum overflows, which an exact sum (see `exact_sum`) never does.
    pub fn checked_add(&self, other: &Amount) -> (r: Option<Amount>)
        ensures
            r is Some <==> sum_ok(*self, *other, false),
            r matches Some(x) ==> sum_is(x, *self, *other, false),
            exact_sum(*self, *other, false) ==> r is Some,
    {
        proof {
            use_type_invariant(self);
            use_type_invariant(other);
        }
        let r = checked_add_decimal(*self, *other);
        proof {
            if let Some(x) = r {
                if exact_sum(*self, *other, false) {
                    lemma_sum_parts_value(*self, *other, false, x);
                }
            }
        }
        r
    }

    /// `self - other` as `Decimal::checked_sub` computes it; `None` when the
    /// difference overflows, which an exact difference never does.
    pub fn checked_sub(&self, other: &Amount) -> (r: Option<Amount>)
        ensures
            r is Some <==> sum_ok(*self, *other, true),
            r matches Some(x) ==> sum_is(x, *self, *other, true),
            exact_sum(*self, *other, true) ==> r is Some,
    {
        proof {
            use_type_invariant(self);
            use_type_invariant(other);
        }
        let r = checked_sub_decimal(*self, *other);
        proof {
            if let Some(x) = r {
                if exact_sum(*self, *other, true) {
                    lemma_sum_parts_value(*self, *other, true, x);
                }
            }
        }
        r
    }

    /// `self + other`, as `Decimal`'s `+` computes it, which panics where the
    /// sum overflows.
    pub fn add(&self, other: &Amount) -> (r: Amount)
        requires
            sum_ok(*self, *other, false),
        ensures
            sum_is(r, *self, *other, false),
    {
        self.checked_add(other).unwrap()
    }

    /// `self - other`, as `Decimal`'s `-` computes it, which panics where the
    /// difference overflows.
    pub fn sub(&self, other: &Amount) -> (r: Amount)
        requires
            sum_ok(*self, *other, true),
        ensures
            sum_is(r, *self, *other, true),
    {
        self.checked_sub(other).unwrap()
    }

    /// Whether `self < other`, through `rust_decimal`'s comparison.
    pub fn is_less_than(&self, other: &Amount) -> (r: bool)
        ensures
            r == (self@ < other@),
    {
        less_decimal(*self, *other)
    }

    /// The amount rounded to four fractional digits (`round_dp(4)`).
    pub fn round_4dp(&self) -> (r: Amount)
        ensures
            (r.mant(), r.neg(), r.scl()) == rounded_4dp(*self),
    {
        round_dp4_decimal(*self)
    }

    /// Whether the amount can be written with four fractional digits: its
    /// whole part has at most 27 digits (see `text_4dp_fits`).
    pub fn fits_text_4dp(&self) -> (r: bool)
        ensures
            r == text_4dp_fits(*self),
    {
        proof {
            use_type_invariant(self);
            lemma_pow10_values();
            if self.scale >= 2 {
                lemma_pow10_adds(29, (self.scl() - 2) as nat);
                lemma_pow10_at_least_one((self.scl() - 2) as nat);
                assert(pow10(29) * pow10((self.scl() - 2) as nat) >= pow10(29)) by (nonlinear_arith)
                    requires
                        pow10((self.scl() - 2) as nat) >= 1,
                        pow10(29) > 0,
                ;
                assert(self.scl() + 27 == 29 + (self.scl() - 2) as nat);
            }
        }
        if self.scale >= 2 {
            true
        } else if self.scale == 1 {
            -10000000000000000000000000000 < self.mantissa && self.mantissa
                < 10000000000000000000000000000
        } else {
            -1000000000000000000000000000 < self.mantissa && self.mantissa
                < 1000000000000000000000000000
        }
    }

    /// The amount written with exactly four fractional digits (`{:.4}`);
    /// `rust_decimal` panics on a whole part of more than 27 digits.
    pub fn to_string_4dp(&self) -> (r: String)
        requires
            text_4dp_fits(*self),
        ensures
            r@ == text_4dp(*self),
    {
        format_4dp_decimal(*self)
    }

    /// The amount written with all its fractional digits (`{}`).
    pub fn to_string(&self) -> (r: String)
        ensures
            r@ == text_full(*self),
    {
        format_decimal(*self)
    }

    /// `0.0`: mantissa zero, one fractional digit, no sign.
    pub closed spec fn spec_zero_tenths() -> Amount {
        Amount { mantissa: 0, negative: false, scale: 1 }
    }

    /// `0.0` has mantissa zero, one fractional digit and no sign.
    pub proof fn lemma_zero_tenths()
        ensures
            Amount::spec_zero_tenths().mant() == 0,
            !Amount::spec_zero_tenths().neg(),
            Amount::spec_zero_tenths().scl() == 1,
    {
    }

    /// Amounts with the same parts are the same amount.
    pub proof fn lemma_same_parts(a: Amount, b: Amount)
        requires
            a.mant() == b.mant(),
            a.neg() == b.neg(),
            a.scl() == b.scl(),
        ensures
            a == b,
    {
    }

    pub closed spec fn mant(self) -> int {
        self.mantissa as int
    }

    pub closed spec fn neg(self) -> bool {
        self.negative
    }

    pub closed spec fn scl(self) -> nat {
        self.scale as nat
    }

    #[verifier::type_invariant]
    pub open spec fn wf(self) -> bool {
        &&& -mantissa_limit() < self.mant() < mantissa_limit()
        &&& self.scl() <= max_scale()
        &&& self.mant() > 0 ==> !self.neg()
        &&& self.mant() < 0 ==> self.neg()
    }

    /// The mantissa this amount has when written with `s` fractional digits.
    pub open spec fn at_scale(self, s: nat) -> int {
        self.mant() * pow10((s - self.scl()) as nat)
    }
}

/// Whether adding (or, with `subtract`, subtracting) two amounts stays exact:
/// both mantissas, and the result's, written at the larger of the two scales,
/// stay below `2^96` in magnitude.
pub open spec fn exact_sum(a: Amount, b: Amount, subtract: bool) -> bool {
    let s = if a.scl() >= b.scl() {
        a.scl()
    } else {
        b.scl()
    };
    let x = a.at_scale(s);
    let y = b.at_scale(s);
    let z = if subtract {
        x - y
    } else {
        x + y
    };
    &&& abs(x) < mantissa_limit()
    &&& abs(y) < mantissa_limit()
    &&& abs(z) < mantissa_limit()
}

/// The parts `(mantissa, negative, scale)` of `a + b` (or, with `subtract`,
/// `a - b`) as `rust_decimal` computes them when `exact_sum` holds: with a zero
/// left operand the result is the right one (negated when subtracting a
/// non-zero amount); with a zero right operand it is the left one; otherwise it
/// has the larger scale, the exact mantissa, and no sign flag when zero.
pub open spec fn sum_parts(a: Amount, b: Amount, subtract: bool) -> (int, bool, nat) {
    if a.mant() == 0 {
        if subtract && b.mant() != 0 {
            (-b.mant(), -b.mant() < 0, b.scl())
        } else {
            (b.mant(), b.neg(), b.scl())
        }
    } else if b.mant() == 0 {
        (a.mant(), a.neg(), a.scl())
    } else {
        let s = if a.scl() >= b.scl() {
            a.scl()
        } else {
            b.scl()
        };
        let z = if subtract {
            a.at_scale(s) - b.at_scale(s)
        } else {
            a.at_scale(s) + b.at_scale(s)
        };
        (z, z < 0, s)
    }
}

/// The parts `(mantissa, negative, scale)` of an amount.
pub open spec fn parts(a: Amount) -> (int, bool, nat) {
    (a.mant(), a.neg(), a.scl())
}

/// The parts of `Decimal::checked_add` on decimals with the parts
/// `(m1, n1, s1)` and `(m2, n2, s2)`; `None` when the sum overflows.
pub uninterp spec fn decimal_checked_add(
    m1: int,
    n1: bool,
    s1: nat,
    m2: int,
    n2: bool,
    s2: nat,
) -> Option<(int, bool, nat)>;

/// The parts of `Decimal::checked_sub` on decimals with the parts
/// `(m1, n1, s1)` and `(m2, n2, s2)`; `None` when the difference overflows.
pub uninterp spec fn decimal_checked_sub(
    m1: int,
    n1: bool,
    s1: nat,
    m2: int,
    n2: bool,
    s2: nat,
) -> Option<(int, bool, nat)>;

/// The parts `rust_decimal` gives `a + b` (or, with `subtract`, `a - b`);
/// `None` when the result overflows.
pub open spec fn sum_result(a: Amount, b: Amount, subtract: bool) -> Option<(int, bool, nat)> {
    if subtract {
        decimal_checked_sub(a.mant(), a.neg(), a.scl(), b.mant(), b.neg(), b.scl())
    } else {
        decimal_checked_add(a.mant(), a.neg(), a.scl(), b.mant(), b.neg(), b.scl())
    }
}

/// Whether `a + b` (or `a - b`) does not overflow.
pub open spec fn sum_ok(a: Amount, b: Amount, subtract: bool) -> bool {
    sum_result(a, b, subtract) is Some
}

/// Whether `r` is what `rust_decimal` gives for `a + b` (or `a - b`): when the
/// arithmetic is exact (`exact_sum`), that is the amount with the parts
/// `sum_parts` and the value `a@ + b@` (or `a@ - b@`).
pub open spec fn sum_is(r: Amount, a: Amount, b: Amount, subtract: bool) -> bool {
    &&& sum_result(a, b, subtract) == Some(parts(r))
    &&& exact_sum(a, b, subtract) ==> parts(r) == sum_parts(a, b, subtract) && r@ == if subtract {
        a@ - b@
    } else {
        a@ + b@
    }
}

proof fn lemma_pow10_adds(m: nat, n: nat)
    ensures
        pow10(m + n) == pow10(m) * pow10(n),
    decreases m,
{
    if m == 0 {
        assert(pow10(0) == 1);
        assert(m + n == n);
    } else {
        lemma_pow10_adds((m - 1) as nat, n);
        assert(pow10(m) == 10 * pow10((m - 1) as nat));
        assert(pow10(m + n) == 10 * pow10((m - 1 + n) as nat));
        assert(10 * (pow10((m - 1) as nat) * pow10(n)) == (10 * pow10((m - 1) as nat)) * pow10(n))
            by (nonlinear_arith);
    }
}

/// Writing an amount at a larger scale keeps its value.
proof fn lemma_at_scale_value(a: Amount, s: nat)
    requires
        a.scl() <= s <= max_scale(),
    ensures
        a@ == a.at_scale(s) * pow10((max_scale() - s) as nat),
{
    let p = (s - a.scl()) as nat;
    let q = (max_scale() - s) as nat;
    lemma_pow10_adds(p, q);
    assert(((max_scale() - a.scl()) as nat) == p + q);
    assert(a.mant() * (pow10(p) * pow10(q)) == (a.mant() * pow10(p)) * pow10(q))
        by (nonlinear_arith);
}

/// An amount with the parts `sum_parts(a, b, subtract)` has the value
/// `a@ + b@` (or `a@ - b@`).
proof fn lemma_sum_parts_value(a: Amount, b: Amount, subtract: bool, r: Amount)
    requires
        a.wf(),
        b.wf(),
        (r.mant(), r.neg(), r.scl()) == sum_parts(a, b, subtract),
    ensures
        r@ == if subtract {
            a@ - b@
        } else {
            a@ + b@
        },
{
    let s = if a.scl() >= b.scl() {
        a.scl()
    } else {
        b.scl()
    };
    let pa = pow10((max_scale() - a.scl()) as nat);
    let pb = pow10((max_scale() - b.scl()) as nat);
    assert(a.mant() == 0 ==> a@ == 0) by {
        assert(a.mant() == 0 ==> a.mant() * pa == 0);
    }
    assert(b.mant() == 0 ==> b@ == 0) by {
        assert(b.mant() == 0 ==> b.mant() * pb == 0);
    }
    if a.mant() == 0 {
        if subtract && b.mant() != 0 {
            assert(-b.mant() * pb == -(b.mant() * pb)) by (nonlinear_arith);
        }
    } else if b.mant() == 0 {
    } else {
        lemma_at_scale_value(a, s);
        lemma_at_scale_value(b, s);
        let q = pow10((max_scale() - s) as nat);
        let x = a.at_scale(s);
        let y = b.at_scale(s);
        assert(r@ == r.mant() * q);
        assert((x + y) * q == x * q + y * q) by (nonlinear_arith);
        assert((x - y) * q == x * q - y * q) by (nonlinear_arith);
    }
}

/// The parts `(mantissa, negative, scale)` of `a.round_dp(4)`: amounts with
/// at most four fractional digits are kept as they are; others are rounded to
/// four digits, a midpoint going to the even neighbour, and the sign flag is
/// dropped when a non-zero amount rounds to zero.
pub open spec fn rounded_4dp(a: Amount) -> (int, bool, nat) {
    if a.scl() <= 4 {
        (a.mant(), a.neg(), a.scl())
    } else if a.mant() == 0 {
        (0, a.neg(), 4)
    } else {
        let d = pow10((a.scl() - 4) as nat) as int;
        let m = abs(a.mant());
        let q = m / d;
        let r = m % d;
        let q2 = if r > d / 2 || (r == d / 2 && q % 2 == 1) {
            q + 1
        } else {
            q
        };
        (if a.neg() {
            -q2
        } else {
            q2
        }, a.neg() && q2 != 0, 4)
    }
}

/// `s` with zeros put in front until it is `w` characters long.
pub open spec fn zero_padded(s: Seq<char>, w: nat) -> Seq<char> {
    if s.len() >= w {
        s
    } else {
        Seq::new((w - s.len()) as nat, |i: int| '0') + s
    }
}

/// The text that `Decimal`'s `Display` writes for the decimal with sign flag
/// `neg`, mantissa magnitude `mag` and `scale`, at precision `prec` (at most
/// 28): a `-` when the flag is set, the whole digits (or `0`), and, when
/// `prec` is not zero, a point and exactly `prec` fractional digits, cut off
/// or filled up with zeros.
pub open spec fn decimal_text(neg: bool, mag: nat, scale: nat, prec: nat) -> Seq<char> {
    let d = zero_padded(digits(mag), scale);
    let w = (d.len() - scale) as nat;
    let whole = if w == 0 {
        seq!['0']
    } else {
        d.take(w as int)
    };
    let sign = if neg {
        seq!['-']
    } else {
        seq![]
    };
    if prec == 0 {
        sign + whole
    } else {
        sign + whole + seq!['.'] + (d.skip(w as int) + Seq::new(prec, |i: int| '0')).take(prec as int)
    }
}

/// Whether `format!("{:.4}", a)` can write an amount: `rust_decimal` builds
/// the text, the whole digits, a point and four more, in 32 bytes, so the
/// whole part may have at most 27 digits (the magnitude of the mantissa stays
/// below `10^(scale + 27)`).
pub open spec fn text_4dp_fits(a: Amount) -> bool {
    abs(a.mant()) < pow10(a.scl() + 27)
}

/// Whether the amount, rounded to four fractional digits, can be written
/// with four fractional digits.
pub open spec fn rounded_text_fits(a: Amount) -> bool {
    let (m, n, s) = rounded_4dp(a);
    abs(m) < pow10(s + 27)
}

proof fn lemma_pow10_at_least_one(n: nat)
    ensures
        pow10(n) >= 1,
    decreases n,
{
    if n > 0 {
        lemma_pow10_at_least_one((n - 1) as nat);
    }
}

proof fn lemma_pow10_values()
    ensures
        pow10(27) == 1000000000000000000000000000,
        pow10(28) == 10000000000000000000000000000,
        pow10(29) == 100000000000000000000000000000,
{
    reveal_with_fuel(pow10, 30);
}

/// The text `format!("{:.4}", a)` writes for an amount.
pub open spec fn text_4dp(a: Amount) -> Seq<char> {
    decimal_text(a.neg(), abs(a.mant()) as nat, a.scl(), 4)
}

/// The text `format!("{}", a)` writes for an amount: all its fractional digits.
pub open spec fn text_full(a: Amount) -> Seq<char> {
    decimal_text(a.neg(), abs(a.mant()) as nat, a.scl(), a.scl())
}

/// Calls `rust_decimal`'s `Decimal::checked_add` on the two amounts. Claimed:
/// the result is named by `decimal_checked_add` of the parts; and when both
/// mantissas and the exact sum fit below `2^96` at the larger scale, it is
/// `Some` with the parts `sum_parts(a, b, false)`: `add_sub_internal` then
/// returns one operand when the other is zero, and otherwise aligns the scales
/// without loss, adds without overflow and clears the sign of a zero result.
/// What it gives otherwise (a rounded sum, or `None`) is left to the name.
#[verifier::external_body]
fn checked_add_decimal(a: Amount, b: Amount) -> (r: Option<Amount>)
    ensures
        r is Some ==> decimal_checked_add(a.mant(), a.neg(), a.scl(), b.mant(), b.neg(), b.scl())
            == Some(parts(r->Some_0)),
        r is None <==> decimal_checked_add(a.mant(), a.neg(), a.scl(), b.mant(), b.neg(), b.scl())
            is None,
        exact_sum(a, b, false) ==> r is Some && parts(r->Some_0) == sum_parts(a, b, false),
{
    let mut x = Decimal::from_i128_with_scale(a.mantissa, a.scale);
    x.set_sign_negative(a.negative);
    let mut y = Decimal::from_i128_with_scale(b.mantissa, b.scale);
    y.set_sign_negative(b.negative);
    match x.checked_add(y) {
        Some(z) => Some(Amount { mantissa: z.mantissa(), negative: z.is_sign_negative(), scale: z.scale() }),
        None => None,
    }
}

/// Calls `rust_decimal`'s `Decimal::checked_sub` on the two amounts. Claimed as
/// for `checked_add_decimal`: the result is named by `decimal_checked_sub`; and
/// when both mantissas and the exact difference fit below `2^96` at the larger
/// scale, it is `Some` with the parts `sum_parts(a, b, true)` (a zero left
/// operand gives the negated right one). What it gives otherwise is left to
/// the name.
#[verifier::external_body]
fn checked_sub_decimal(a: Amount, b: Amount) -> (r: Option<Amount>)
    ensures
        r is Some ==> decimal_checked_sub(a.mant(), a.neg(), a.scl(), b.mant(), b.neg(), b.scl())
            == Some(parts(r->Some_0)),
        r is None <==> decimal_checked_sub(a.mant(), a.neg(), a.scl(), b.mant(), b.neg(), b.scl())
            is None,
        exact_sum(a, b, true) ==> r is Some && parts(r->Some_0) == sum_parts(a, b, true),
{
    let mut x = Decimal::from_i128_with_scale(a.mantissa, a.scale);
    x.set_sign_negative(a.negative);
    let mut y = Decimal::from_i128_with_scale(b.mantissa, b.scale);
    y.set_sign_negative(b.negative);
    match x.checked_sub(y) {
        Some(z) => Some(Amount { mantissa: z.mantissa(), negative: z.is_sign_negative(), scale: z.scale() }),
        None => None,
    }
}

/// Calls `rust_decimal`'s `<` on the two amounts. Claimed: it compares values
/// exactly (`cmp_impl` treats both zeros alike, orders by sign, then compares
/// the magnitudes after aligning the scales).
#[verifier::external_body]
fn less_decimal(a: Amount, b: Amount) -> (r: bool)
    ensures
        r == (a@ < b@),
{
    let mut x = Decimal::from_i128_with_scale(a.mantissa, a.scale);
    x.set_sign_negative(a.negative);
    let mut y = Decimal::from_i128_with_scale(b.mantissa, b.scale);
    y.set_sign_negative(b.negative);
    x < y
}

/// Calls `rust_decimal`'s `==` on the two amounts. Claimed: it compares values
/// exactly (bit-identical parts, or `cmp_impl` finding them equal).
#[verifier::external_body]
fn equal_decimal(a: Amount, b: Amount) -> (r: bool)
    ensures
        r == (a@ == b@),
{
    let mut x = Decimal::from_i128_with_scale(a.mantissa, a.scale);
    x.set_sign_negative(a.negative);
    let mut y = Decimal::from_i128_with_scale(b.mantissa, b.scale);
    y.set_sign_negative(b.negative);
    x == y
}

/// Calls `rust_decimal`'s `Decimal::round_dp(4)`. Claimed: the parts of the
/// result are those `rounded_4dp` gives, as `round_dp_with_strategy` with
/// `MidpointNearestEven` computes them.
#[verifier::external_body]
fn round_dp4_decimal(a: Amount) -> (r: Amount)
    ensures
        (r.mant(), r.neg(), r.scl()) == rounded_4dp(a),
{
    let mut x = Decimal::from_i128_with_scale(a.mantissa, a.scale);
    x.set_sign_negative(a.negative);
    let z = x.round_dp(4);
    Amount { mantissa: z.mantissa(), negative: z.is_sign_negative(), scale: z.scale() }
}

/// Formats the amount with `rust_decimal`'s `Display` at precision 4. Claimed:
/// the text is `text_4dp`, as `to_str_internal` and `pad_integral` write it.
/// `to_str_internal` builds the text in a 32-byte `ArrayString`, which panics
/// when a whole part of more than 27 digits, the point and four digits do not
/// fit: those amounts are left out.
#[verifier::external_body]
fn format_4dp_decimal(a: Amount) -> (r: String)
    requires
        text_4dp_fits(a),
    ensures
        r@ == text_4dp(a),
{
    let mut x = Decimal::from_i128_with_scale(a.mantissa, a.scale);
    x.set_sign_negative(a.negative);
    format!("{:.4}", x)
}

/// Formats the amount with `rust_decimal`'s `Display`. Claimed: the text is
/// `text_full`, as `to_str_internal` writes it with the scale as precision.
#[verifier::external_body]
fn format_decimal(a: Amount) -> (r: String)
    ensures
        r@ == text_full(a),
{
    let mut x = Decimal::from_i128_with_scale(a.mantissa, a.scale);
    x.set_sign_negative(a.negative);
    format!("{}", x)
}

/// Two amounts are equal when their values are, as `Decimal`'s `==` has it.
impl PartialEq for Amount {
    fn eq(&self, other: &Amount) -> (r: bool) {
        equal_decimal(*self, *other)
    }
}

impl vstd::std_specs::cmp::PartialEqSpecImpl for Amount {
    open spec fn obeys_eq_spec() -> bool {
        true
    }

    open spec fn eq_spec(&self, other: &Amount) -> bool {
        self@ == other@
    }
}

impl Eq for Amount {

}

/// The value of an amount, counted in units of `10^-28`.
impl View for Amount {
    type V = int;

    open spec fn view(&self) -> int {
        self.at_scale(max_scale())
    }
}

} // verus!
