//! Lossless decimal numbers: a signed 96-bit mantissa and a power-of-ten scale.
//!
//! The arithmetic itself is `rust_decimal`'s. A [`Decimal`] here carries the
//! mantissa and the scale as plain integers, so that sign tests, absolute values,
//! comparisons and the written form are stated exactly, while parsing, sums,
//! differences, products and quotients are named by the uninterpreted functions
//! below.

use std::cmp::Ordering;
use std::str::FromStr;
use crate::text::digit_char;
use crate::text::nat_digits;
use vstd::prelude::*;
use vstd::std_specs::cmp::PartialEqSpecImpl;
use vstd::std_specs::cmp::PartialOrdSpecImpl;

verus! {

/// `rust_decimal::Error`, the error of the outside parser, carried through as it
/// is.
#[verifier::external_type_specification]
#[verifier::external_body]
pub struct ExOutsideParseError(rust_decimal::Error);

/// Largest magnitude a mantissa may have: `2^96 - 1`.
pub const MAX_MANTISSA: i128 = 79_228_162_514_264_337_593_543_950_335i128;

/// Largest scale: a value has at most 28 digits after the point.
pub const MAX_SCALE: u32 = 28u32;

/// A decimal number `mantissa / 10^scale`.
#[derive(Debug, Clone, Copy)]
pub struct Decimal {
    mantissa: i128,
    scale: u32,
}

/// `10^e`.
pub open spec fn pow10(e: nat) -> int
    decreases e,
{
    if e == 0 {
        1
    } else {
        10 * pow10((e - 1) as nat)
    }
}

/// The representation without trailing zeros: the mantissa is divided by ten
/// while it is a multiple of ten and the scale is positive; zero is `(0, 0)`.
pub open spec fn normal_form(mantissa: int, scale: nat) -> (int, nat)
    decreases scale,
{
    if mantissa == 0 {
        (0, 0)
    } else if scale > 0 && mantissa % 10 == 0 {
        normal_form(mantissa / 10, (scale - 1) as nat)
    } else {
        (mantissa, scale)
    }
}

/// What parsing a decimal from text gives, `None` where the text is rejected.
pub uninterp spec fn parsed_decimal(text: Seq<char>) -> Option<Decimal>;

/// The last `width` decimal digits of a number, with leading zeros where it has
/// fewer.
pub open spec fn fraction_digits(n: nat, width: nat) -> Seq<char>
    decreases width,
{
    if width == 0 {
        Seq::empty()
    } else {
        fraction_digits(n / 10, (width - 1) as nat).push(digit_char((n % 10) as int))
    }
}

/// A decimal written out: a minus sign where it is negative, the digits before
/// the point, and, for a positive scale, the point and exactly as many digits as
/// the scale says. No exponent is ever written.
pub open spec fn written(mantissa: int, scale: nat) -> Seq<char> {
    let magnitude: nat = if mantissa < 0 {
        (-mantissa) as nat
    } else {
        mantissa as nat
    };
    let whole = nat_digits((magnitude / pow10(scale) as nat) as nat);
    let body = if scale == 0 {
        whole
    } else {
        whole + seq!['.'] + fraction_digits((magnitude % pow10(scale) as nat) as nat, scale)
    };
    if mantissa < 0 {
        seq!['-'] + body
    } else {
        body
    }
}

/// The text of a decimal as written with all the digits its scale asks for.
pub open spec fn rendered_decimal(value: Decimal) -> Seq<char> {
    written(value.mantissa(), value.scale())
}

/// The checked sum of two decimals, `None` on overflow.
pub uninterp spec fn checked_sum(a: Decimal, b: Decimal) -> Option<Decimal>;

/// The checked difference of two decimals, `None` on overflow.
pub uninterp spec fn checked_difference(a: Decimal, b: Decimal) -> Option<Decimal>;

/// The checked product of two decimals, `None` on overflow.
pub uninterp spec fn checked_product(a: Decimal, b: Decimal) -> Option<Decimal>;

/// The checked quotient of two decimals, `None` on overflow or a zero divisor.
pub uninterp spec fn checked_quotient(a: Decimal, b: Decimal) -> Option<Decimal>;

/// The sum of two decimals, `None` on overflow. A zero operand leaves the other
/// as it stands, scale included.
pub open spec fn decimal_sum(a: Decimal, b: Decimal) -> Option<Decimal> {
    if a.mantissa() == 0 {
        Some(b)
    } else if b.mantissa() == 0 {
        Some(a)
    } else {
        checked_sum(a, b)
    }
}

/// The quotient of two decimals, `None` on overflow and for a zero divisor.
pub open spec fn decimal_quotient(a: Decimal, b: Decimal) -> Option<Decimal> {
    if b.mantissa() == 0 {
        None
    } else {
        checked_quotient(a, b)
    }
}

/// The running total of a list of decimals, added from the left starting at `0`;
/// `None` as soon as a sum overflows.
pub open spec fn decimal_total(values: Seq<Decimal>) -> Option<Decimal>
    decreases values.len(),
{
    if values.len() == 0 {
        Some(Decimal::nought())
    } else {
        match decimal_total(values.drop_last()) {
            Some(acc) => decimal_sum(acc, values.last()),
            None => None,
        }
    }
}

/// Two totals agree: they are the same decimal, or both are a zero (whose scales
/// may differ), or both overflowed.
pub open spec fn totals_agree(a: Option<Decimal>, b: Option<Decimal>) -> bool {
    a == b || (a matches Some(x) && b matches Some(y) && x.mantissa() == 0 && y.mantissa() == 0)
}

/// Why a text was not accepted as a decimal number.
#[derive(Debug)]
pub struct DecimalParseError {
    /// What the parser said of the text.
    pub message: String,
}

/// `rust_decimal::Decimal::from_str`: the decimal that the text denotes, or the
/// parser's error. The result is a function of the text alone; an empty text is
/// rejected.
#[verifier::external_body]
fn parse_outside(text: &str) -> (r: Result<Decimal, rust_decimal::Error>)
    ensures
        r matches Ok(d) ==> parsed_decimal(text@) == Some(d),
        r is Err ==> parsed_decimal(text@) is None,
        text@.len() == 0 ==> r is Err,
{
    let value = rust_decimal::Decimal::from_str(text)?;
    Ok(Decimal { mantissa: value.mantissa(), scale: value.scale() })
}

/// The `Display` text of a `rust_decimal::Error`.
#[verifier::external_body]
fn parse_error_text(error: &rust_decimal::Error) -> (r: String) {
    error.to_string()
}

/// `rust_decimal::Decimal::normalize`: strips trailing zeros after the point and
/// writes zero with scale zero.
#[verifier::external_body]
fn normalize_outside(value: Decimal) -> (r: Decimal)
    ensures
        (r.mantissa(), r.scale()) == normal_form(value.mantissa(), value.scale()),
{
    let outside = rust_decimal::Decimal::from_i128_with_scale(value.mantissa, value.scale);
    let normal = outside.normalize();
    Decimal { mantissa: normal.mantissa(), scale: normal.scale() }
}

/// The `Display` text of a `rust_decimal::Decimal`: a minus sign where it is
/// negative, the integer digits (`0` where there are none) and, for a positive
/// scale, a point and exactly `scale` digits.
#[verifier::external_body]
fn render_outside(value: Decimal) -> (r: String)
    ensures
        r@ == rendered_decimal(value),
{
    rust_decimal::Decimal::from_i128_with_scale(value.mantissa, value.scale).to_string()
}

/// `rust_decimal::Decimal::checked_add`. Adding to a zero gives the other operand
/// as it stands; every other sum is named.
#[verifier::external_body]
fn sum_outside(a: Decimal, b: Decimal) -> (r: Option<Decimal>)
    ensures
        r == (if a.mantissa() == 0 {
            Some(b)
        } else if b.mantissa() == 0 {
            Some(a)
        } else {
            checked_sum(a, b)
        }),
{
    let x = rust_decimal::Decimal::from_i128_with_scale(a.mantissa, a.scale);
    let y = rust_decimal::Decimal::from_i128_with_scale(b.mantissa, b.scale);
    x.checked_add(y).map(|v| Decimal { mantissa: v.mantissa(), scale: v.scale() })
}

/// `rust_decimal::Decimal::checked_sub`.
#[verifier::external_body]
fn difference_outside(a: Decimal, b: Decimal) -> (r: Option<Decimal>)
    ensures
        r == checked_difference(a, b),
{
    let x = rust_decimal::Decimal::from_i128_with_scale(a.mantissa, a.scale);
    let y = rust_decimal::Decimal::from_i128_with_scale(b.mantissa, b.scale);
    x.checked_sub(y).map(|v| Decimal { mantissa: v.mantissa(), scale: v.scale() })
}

/// `rust_decimal::Decimal::checked_mul`.
#[verifier::external_body]
fn product_outside(a: Decimal, b: Decimal) -> (r: Option<Decimal>)
    ensures
        r == checked_product(a, b),
{
    let x = rust_decimal::Decimal::from_i128_with_scale(a.mantissa, a.scale);
    let y = rust_decimal::Decimal::from_i128_with_scale(b.mantissa, b.scale);
    x.checked_mul(y).map(|v| Decimal { mantissa: v.mantissa(), scale: v.scale() })
}

/// `rust_decimal::Decimal::checked_div`. A zero divisor gives `None`; every other
/// quotient is named.
#[verifier::external_body]
fn quotient_outside(a: Decimal, b: Decimal) -> (r: Option<Decimal>)
    ensures
        r == (if b.mantissa() == 0 {
            None
        } else {
            checked_quotient(a, b)
        }),
{
    let x = rust_decimal::Decimal::from_i128_with_scale(a.mantissa, a.scale);
    let y = rust_decimal::Decimal::from_i128_with_scale(b.mantissa, b.scale);
    x.checked_div(y).map(|v| Decimal { mantissa: v.mantissa(), scale: v.scale() })
}

/// `==` of `rust_decimal::Decimal`: the two denote the same number, whatever
/// their scales.
#[verifier::external_body]
fn equal_outside(a: Decimal, b: Decimal) -> (r: bool)
    ensures
        r == a.same_value(&b),
{
    let x = rust_decimal::Decimal::from_i128_with_scale(a.mantissa, a.scale);
    let y = rust_decimal::Decimal::from_i128_with_scale(b.mantissa, b.scale);
    x == y
}

/// `<` of `rust_decimal::Decimal`: numeric order, whatever the scales.
#[verifier::external_body]
fn less_outside(a: Decimal, b: Decimal) -> (r: bool)
    ensures
        r == a.less_than(&b),
{
    let x = rust_decimal::Decimal::from_i128_with_scale(a.mantissa, a.scale);
    let y = rust_decimal::Decimal::from_i128_with_scale(b.mantissa, b.scale);
    x < y
}

impl Decimal {
    /// The signed mantissa.
    pub closed spec fn mantissa(&self) -> int {
        self.mantissa as int
    }

    /// The number of digits after the decimal point.
    pub closed spec fn scale(&self) -> nat {
        self.scale as nat
    }

    #[verifier::type_invariant]
    pub closed spec fn well_formed(&self) -> bool {
        &&& -MAX_MANTISSA <= self.mantissa <= MAX_MANTISSA
        &&& self.scale <= MAX_SCALE
    }

    /// Two decimals denote the same number.
    pub open spec fn same_value(&self, other: &Decimal) -> bool {
        self.mantissa() * pow10(other.scale()) == other.mantissa() * pow10(self.scale())
    }

    /// `self` denotes a smaller number than `other`.
    pub open spec fn less_than(&self, other: &Decimal) -> bool {
        self.mantissa() * pow10(other.scale()) < other.mantissa() * pow10(self.scale())
    }

    /// The negated value, at the same scale.
    pub closed spec fn negated(&self) -> Decimal {
        Decimal { mantissa: (-self.mantissa) as i128, scale: self.scale }
    }

    /// The absolute value, at the same scale.
    pub closed spec fn magnitude(&self) -> Decimal {
        if self.mantissa < 0 {
            Decimal { mantissa: (-self.mantissa) as i128, scale: self.scale }
        } else {
            *self
        }
    }

    /// The decimal `0` with scale zero.
    pub closed spec fn nought() -> Decimal {
        Decimal { mantissa: 0, scale: 0 }
    }

    /// The decimal `100` with scale zero.
    pub closed spec fn one_hundred() -> Decimal {
        Decimal { mantissa: 100, scale: 0 }
    }

    /// The same number without trailing zeros after the point.
    pub closed spec fn normalized(&self) -> Decimal {
        let form = normal_form(self.mantissa(), self.scale());
        Decimal { mantissa: form.0 as i128, scale: form.1 as u32 }
    }

    /// The canonical text: the normalized value, written without an exponent.
    pub open spec fn canonical_text(&self) -> Seq<char> {
        rendered_decimal(self.normalized())
    }

    /// Parses a decimal from text.
    pub fn from_str_canonical(text: &str) -> (r: Result<Decimal, DecimalParseError>)
        ensures
            r matches Ok(d) ==> parsed_decimal(text@) == Some(d),
            r is Err <==> parsed_decimal(text@) is None,
            text@.len() == 0 ==> r is Err,
    {
        match parse_outside(text) {
            Ok(value) => Ok(value),
            Err(error) => Err(DecimalParseError { message: parse_error_text(&error) }),
        }
    }

    /// The value without trailing zeros after the point.
    pub fn normalize(&self) -> (r: Decimal)
        ensures
            r == self.normalized(),
            (r.mantissa(), r.scale()) == normal_form(self.mantissa(), self.scale()),
    {
        let r = normalize_outside(*self);
        proof {
            use_type_invariant(&r);
        }
        r
    }

    /// The canonical text of the value: no exponent, no trailing zeros.
    pub fn to_canonical_string(&self) -> (r: String)
        ensures
            r@ == self.canonical_text(),
    {
        render_outside(self.normalize())
    }

    /// The canonical text of the value.
    pub fn to_string(&self) -> (r: String)
        ensures
            r@ == self.canonical_text(),
    {
        self.to_canonical_string()
    }

    /// `self + other`, `None` on overflow.
    pub fn checked_add(&self, other: &Decimal) -> (r: Option<Decimal>)
        ensures
            r == decimal_sum(*self, *other),
    {
        sum_outside(*self, *other)
    }

    /// `self - other`, `None` on overflow.
    pub fn checked_sub(&self, other: &Decimal) -> (r: Option<Decimal>)
        ensures
            r == checked_difference(*self, *other),
    {
        difference_outside(*self, *other)
    }

    /// `self * other`, `None` on overflow.
    pub fn checked_mul(&self, other: &Decimal) -> (r: Option<Decimal>)
        ensures
            r == checked_product(*self, *other),
    {
        product_outside(*self, *other)
    }

    /// `self / other`, `None` on overflow or where `other` is zero.
    pub fn checked_div(&self, other: &Decimal) -> (r: Option<Decimal>)
        ensures
            r == decimal_quotient(*self, *other),
    {
        quotient_outside(*self, *other)
    }

    /// `self < other` as numbers.
    pub fn lt(&self, other: &Decimal) -> (r: bool)
        ensures
            r == self.less_than(other),
    {
        less_outside(*self, *other)
    }

    /// `self > other` as numbers.
    pub fn gt(&self, other: &Decimal) -> (r: bool)
        ensures
            r == other.less_than(self),
    {
        less_outside(*other, *self)
    }

    /// The additive identity, written `0`.
    pub fn zero() -> (r: Decimal)
        ensures
            r == Decimal::nought(),
            r.mantissa() == 0,
            r.scale() == 0,
    {
        Decimal { mantissa: 0, scale: 0 }
    }

    /// The value one hundred, written `100`.
    pub fn hundred() -> (r: Decimal)
        ensures
            r == Decimal::one_hundred(),
            r.mantissa() == 100,
            r.scale() == 0,
    {
        Decimal { mantissa: 100, scale: 0 }
    }

    /// A decimal from its parts; `None` where the mantissa needs more than 96 bits
    /// or the scale is above 28.
    pub fn from_parts(mantissa: i128, scale: u32) -> (r: Option<Decimal>)
        ensures
            r is Some <==> -MAX_MANTISSA <= mantissa <= MAX_MANTISSA && scale <= MAX_SCALE,
            r matches Some(d) ==> d.mantissa() == mantissa && d.scale() == scale,
    {
        if -MAX_MANTISSA <= mantissa && mantissa <= MAX_MANTISSA && scale <= MAX_SCALE {
            Some(Decimal { mantissa, scale })
        } else {
            None
        }
    }

    /// The mantissa as a machine integer.
    pub fn mantissa_i128(&self) -> (r: i128)
        ensures
            r == self.mantissa(),
            -MAX_MANTISSA <= r <= MAX_MANTISSA,
    {
        proof {
            use_type_invariant(self);
        }
        self.mantissa
    }

    /// The scale as a machine integer.
    pub fn scale_u32(&self) -> (r: u32)
        ensures
            r == self.scale(),
            r <= MAX_SCALE,
    {
        proof {
            use_type_invariant(self);
        }
        self.scale
    }

    /// True if the value is exactly zero.
    pub fn is_zero(&self) -> (r: bool)
        ensures
            r == (self.mantissa() == 0),
    {
        self.mantissa == 0
    }

    /// True if the value is above zero.
    pub fn is_positive(&self) -> (r: bool)
        ensures
            r == (self.mantissa() > 0),
    {
        self.mantissa > 0
    }

    /// True if the value is below zero.
    pub fn is_negative(&self) -> (r: bool)
        ensures
            r == (self.mantissa() < 0),
    {
        self.mantissa < 0
    }

    /// The absolute value, at the same scale.
    pub fn abs(&self) -> (r: Decimal)
        ensures
            r == self.magnitude(),
            r.mantissa() == (if self.mantissa() < 0 { -self.mantissa() } else { self.mantissa() }),
            r.scale() == self.scale(),
    {
        proof {
            use_type_invariant(self);
        }
        if self.mantissa < 0 {
            Decimal { mantissa: -self.mantissa, scale: self.scale }
        } else {
            *self
        }
    }

    /// The negated value, at the same scale.
    pub fn neg(&self) -> (r: Decimal)
        ensures
            r == self.negated(),
            r.mantissa() == -self.mantissa(),
            r.scale() == self.scale(),
    {
        proof {
            use_type_invariant(self);
        }
        Decimal { mantissa: -self.mantissa, scale: self.scale }
    }
}

/// What the spec-level operations on a decimal say of its parts.
pub proof fn lemma_decimal_parts(d: Decimal)
    requires
        d.well_formed(),
    ensures
        d.negated().mantissa() == -d.mantissa(),
        d.negated().scale() == d.scale(),
        d.negated().well_formed(),
        d.magnitude().mantissa() == (if d.mantissa() < 0 {
            -d.mantissa()
        } else {
            d.mantissa()
        }),
        d.magnitude().scale() == d.scale(),
        d.magnitude().well_formed(),
{
}

/// The parts of the decimal `0`.
pub proof fn lemma_nought()
    ensures
        Decimal::nought().mantissa() == 0,
        Decimal::nought().scale() == 0,
        Decimal::nought().well_formed(),
{
}

/// Adds up decimals from the left, starting at `0`; `None` on overflow.
pub fn sum_decimals(values: &Vec<Decimal>) -> (r: Option<Decimal>)
    ensures
        r == decimal_total(values@),
{
    let mut acc = Decimal::zero();
    let mut i: usize = 0;
    assert(values@.take(0) =~= Seq::<Decimal>::empty());
    while i < values.len()
        invariant
            i <= values@.len(),
            decimal_total(values@.take(i as int)) == Some(acc),
        decreases values@.len() - i,
    {
        assert(values@.take(i + 1).drop_last() =~= values@.take(i as int));
        assert(values@.take(i + 1).last() == values@[i as int]);
        match acc.checked_add(&values[i]) {
            Some(next) => {
                acc = next;
            },
            None => {
                proof {
                    lemma_total_stays_none(values@, i + 1);
                }
                return None;
            },
        }
        i += 1;
    }
    assert(values@.take(i as int) =~= values@);
    Some(acc)
}

/// The total of a list with one more value at its end.
pub proof fn lemma_total_push(values: Seq<Decimal>, x: Decimal)
    ensures
        decimal_total(values.push(x)) == (match decimal_total(values) {
            Some(acc) => decimal_sum(acc, x),
            None => None,
        }),
{
    assert(values.push(x).drop_last() =~= values);
    assert(values.push(x).last() == x);
}

/// Once a prefix has overflowed, so has the whole list.
pub proof fn lemma_total_stays_none(values: Seq<Decimal>, k: int)
    requires
        0 <= k <= values.len(),
        decimal_total(values.take(k)) is None,
    ensures
        decimal_total(values) is None,
    decreases values.len() - k,
{
    if k == values.len() {
        assert(values.take(k) =~= values);
    } else {
        assert(values.take(k + 1).drop_last() =~= values.take(k));
        lemma_total_stays_none(values, k + 1);
    }
}

/// Every power of ten is positive.
pub proof fn lemma_pow10_positive(e: nat)
    ensures
        pow10(e) > 0,
    decreases e,
{
    if e > 0 {
        lemma_pow10_positive((e - 1) as nat);
    }
}

proof fn lemma_cross_less(a: int, b: int, c: int, pa: int, pb: int, pc: int)
    requires
        pa > 0,
        pb > 0,
        pc > 0,
        a * pb < b * pa,
        b * pc < c * pb,
    ensures
        a * pc < c * pa,
{
    assert((a * pb) * pc < (b * pa) * pc) by (nonlinear_arith)
        requires
            a * pb < b * pa,
            pc > 0,
    ;
    assert((b * pc) * pa < (c * pb) * pa) by (nonlinear_arith)
        requires
            b * pc < c * pb,
            pa > 0,
    ;
    assert((b * pa) * pc == (b * pc) * pa) by (nonlinear_arith);
    assert((a * pb) * pc == (a * pc) * pb) by (nonlinear_arith);
    assert((c * pb) * pa == (c * pa) * pb) by (nonlinear_arith);
    assert(a * pc < c * pa) by (nonlinear_arith)
        requires
            (a * pc) * pb < (c * pa) * pb,
            pb > 0,
    ;
}

proof fn lemma_cross_at_most(a: int, b: int, c: int, pa: int, pb: int, pc: int)
    requires
        pa > 0,
        pb > 0,
        pc > 0,
        a * pb <= b * pa,
        b * pc <= c * pb,
    ensures
        a * pc <= c * pa,
{
    assert((a * pb) * pc <= (b * pa) * pc) by (nonlinear_arith)
        requires
            a * pb <= b * pa,
            pc > 0,
    ;
    assert((b * pc) * pa <= (c * pb) * pa) by (nonlinear_arith)
        requires
            b * pc <= c * pb,
            pa > 0,
    ;
    assert((b * pa) * pc == (b * pc) * pa) by (nonlinear_arith);
    assert((a * pb) * pc == (a * pc) * pb) by (nonlinear_arith);
    assert((c * pb) * pa == (c * pa) * pb) by (nonlinear_arith);
    assert(a * pc <= c * pa) by (nonlinear_arith)
        requires
            (a * pc) * pb <= (c * pa) * pb,
            pb > 0,
    ;
}

/// The numeric order of decimals is a strict weak order: nothing is less than
/// itself, `less_than` is transitive, and so is "not less than".
pub proof fn lemma_decimal_order(a: Decimal, b: Decimal, c: Decimal)
    ensures
        !a.less_than(&a),
        !(a.less_than(&b) && b.less_than(&a)),
        a.less_than(&b) && b.less_than(&c) ==> a.less_than(&c),
        !a.less_than(&b) && !b.less_than(&c) ==> !a.less_than(&c),
{
    lemma_pow10_positive(a.scale());
    lemma_pow10_positive(b.scale());
    lemma_pow10_positive(c.scale());
    let pa = pow10(a.scale());
    let pb = pow10(b.scale());
    let pc = pow10(c.scale());
    if a.less_than(&b) && b.less_than(&c) {
        lemma_cross_less(a.mantissa(), b.mantissa(), c.mantissa(), pa, pb, pc);
    }
    if !a.less_than(&b) && !b.less_than(&c) {
        lemma_cross_at_most(c.mantissa(), b.mantissa(), a.mantissa(), pc, pb, pa);
    }
}

/// `10^(a + b)` is `10^a * 10^b`.
pub proof fn lemma_pow10_adds(a: nat, b: nat)
    ensures
        pow10(a + b) == pow10(a) * pow10(b),
    decreases a,
{
    if a > 0 {
        lemma_pow10_adds((a - 1) as nat, b);
        assert(pow10(a + b) == 10 * pow10(((a - 1) as nat) + b));
        assert(10 * (pow10((a - 1) as nat) * pow10(b)) == (10 * pow10((a - 1) as nat)) * pow10(b))
            by (nonlinear_arith);
    } else {
        assert(pow10(0) * pow10(b) == pow10(b)) by (nonlinear_arith)
            requires
                pow10(0) == 1,
        ;
    }
}

/// A representation is reduced: it is `(0, 0)`, or its mantissa is not zero and,
/// where its scale is positive, not a multiple of ten.
pub open spec fn is_reduced(mantissa: int, scale: nat) -> bool {
    if mantissa == 0 {
        scale == 0
    } else {
        scale == 0 || mantissa % 10 != 0
    }
}

/// The normal form is reduced and denotes the same number.
pub proof fn lemma_normal_form(mantissa: int, scale: nat)
    ensures
        is_reduced(normal_form(mantissa, scale).0, normal_form(mantissa, scale).1),
        normal_form(mantissa, scale).0 * pow10(scale) == mantissa * pow10(
            normal_form(mantissa, scale).1,
        ),
        mantissa != 0 ==> normal_form(mantissa, scale).0 != 0,
    decreases scale,
{
    if mantissa == 0 {
        assert(0 * pow10(scale) == 0 * pow10(0)) by (nonlinear_arith);
    } else if scale > 0 && mantissa % 10 == 0 {
        let tenth = mantissa / 10;
        let lower = (scale - 1) as nat;
        lemma_normal_form(tenth, lower);
        let form = normal_form(tenth, lower);
        assert(mantissa == 10 * tenth);
        assert(pow10(scale) == 10 * pow10(lower));
        assert(form.0 * (10 * pow10(lower)) == (10 * tenth) * pow10(form.1)) by (nonlinear_arith)
            requires
                form.0 * pow10(lower) == tenth * pow10(form.1),
        ;
    }
}

/// Two reduced representations of one number are the same representation.
pub proof fn lemma_reduced_is_unique(m1: int, s1: nat, m2: int, s2: nat)
    requires
        is_reduced(m1, s1),
        is_reduced(m2, s2),
        m1 * pow10(s2) == m2 * pow10(s1),
    ensures
        m1 == m2,
        s1 == s2,
{
    lemma_pow10_positive(s1);
    lemma_pow10_positive(s2);
    if m1 == 0 || m2 == 0 {
        assert(m1 == 0 && m2 == 0) by (nonlinear_arith)
            requires
                m1 * pow10(s2) == m2 * pow10(s1),
                pow10(s1) > 0,
                pow10(s2) > 0,
                m1 == 0 || m2 == 0,
        ;
    } else if s1 < s2 {
        lemma_more_digits_end_in_zero(m1, s1, m2, s2);
    } else if s2 < s1 {
        lemma_more_digits_end_in_zero(m2, s2, m1, s1);
    } else {
        assert(m1 == m2) by (nonlinear_arith)
            requires
                m1 * pow10(s1) == m2 * pow10(s1),
                pow10(s1) > 0,
        ;
    }
}

/// Of two representations of one number, the one with the larger scale has a
/// mantissa that is a multiple of ten.
proof fn lemma_more_digits_end_in_zero(m1: int, s1: nat, m2: int, s2: nat)
    requires
        s1 < s2,
        m1 * pow10(s2) == m2 * pow10(s1),
    ensures
        m2 % 10 == 0,
{
    let more = (s2 - s1) as nat;
    let rest = (more - 1) as nat;
    lemma_pow10_positive(s1);
    lemma_pow10_adds(s1, more);
    assert(pow10(s2) == pow10(s1) * pow10(more));
    assert(pow10(more) == 10 * pow10(rest));
    let p = pow10(s1);
    let q = pow10(rest);
    assert(m1 * (p * (10 * q)) == (10 * (m1 * q)) * p) by (nonlinear_arith);
    assert(m2 == 10 * (m1 * q)) by (nonlinear_arith)
        requires
            (10 * (m1 * q)) * p == m2 * p,
            p > 0,
    ;
}

/// Value equality carries over to normal forms.
proof fn lemma_same_value_of_forms(a: int, pa: int, b: int, pb: int, fa: int, qa: int, fb: int, qb: int)
    requires
        pa > 0,
        pb > 0,
        qa > 0,
        qb > 0,
        fa * pa == a * qa,
        fb * pb == b * qb,
        a * pb == b * pa,
    ensures
        fa * qb == fb * qa,
{
    assert((fa * qb) * (pa * pb) == (fa * pa) * (pb * qb)) by (nonlinear_arith);
    assert((fa * pa) * (pb * qb) == (a * pb) * (qa * qb)) by (nonlinear_arith)
        requires
            fa * pa == a * qa,
    ;
    assert((a * pb) * (qa * qb) == (b * qb) * (pa * qa)) by (nonlinear_arith)
        requires
            a * pb == b * pa,
    ;
    assert((b * qb) * (pa * qa) == (fb * qa) * (pa * pb)) by (nonlinear_arith)
        requires
            fb * pb == b * qb,
    ;
    assert(pa * pb > 0) by (nonlinear_arith)
        requires
            pa > 0,
            pb > 0,
    ;
    assert(fa * qb == fb * qa) by (nonlinear_arith)
        requires
            (fa * qb) * (pa * pb) == (fb * qa) * (pa * pb),
            pa * pb > 0,
    ;
}

/// The canonical text is canonical: decimals that denote the same number have the
/// same normal form, and so the same canonical text, whatever their scales.
pub proof fn lemma_same_value_same_text(a: Decimal, b: Decimal)
    requires
        a.same_value(&b),
    ensures
        a.normalized() == b.normalized(),
        a.canonical_text() == b.canonical_text(),
{
    let fa = normal_form(a.mantissa(), a.scale());
    let fb = normal_form(b.mantissa(), b.scale());
    lemma_normal_form(a.mantissa(), a.scale());
    lemma_normal_form(b.mantissa(), b.scale());
    lemma_pow10_positive(a.scale());
    lemma_pow10_positive(b.scale());
    lemma_pow10_positive(fa.1);
    lemma_pow10_positive(fb.1);
    lemma_same_value_of_forms(
        a.mantissa(),
        pow10(a.scale()),
        b.mantissa(),
        pow10(b.scale()),
        fa.0,
        pow10(fa.1),
        fb.0,
        pow10(fb.1),
    );
    lemma_reduced_is_unique(fa.0, fa.1, fb.0, fb.1);
}

/// The character is one that a decimal is written with: a digit, the point or
/// the minus sign.
pub open spec fn is_plain(c: char) -> bool {
    crate::text::is_digit(c) || c == '.' || c == '-'
}

proof fn lemma_digits_are_plain(n: nat)
    ensures
        forall|i: int| 0 <= i < nat_digits(n).len() ==> is_plain(#[trigger] nat_digits(n)[i]),
    decreases n,
{
    let digits = nat_digits(n);
    if n >= 10 {
        lemma_digits_are_plain(n / 10);
        let shorter = nat_digits(n / 10);
        assert forall|i: int| 0 <= i < digits.len() implies is_plain(#[trigger] digits[i]) by {
            if i < shorter.len() {
                assert(digits[i] == shorter[i]);
            } else {
                assert(digits[i] == digit_char((n % 10) as int));
            }
        }
    } else {
        assert forall|i: int| 0 <= i < digits.len() implies is_plain(#[trigger] digits[i]) by {
            assert(digits[i] == digit_char(n as int));
        }
    }
}

proof fn lemma_fraction_is_plain(n: nat, width: nat)
    ensures
        forall|i: int|
            0 <= i < fraction_digits(n, width).len() ==> is_plain(
                #[trigger] fraction_digits(n, width)[i],
            ),
    decreases width,
{
    let digits = fraction_digits(n, width);
    if width > 0 {
        lemma_fraction_is_plain(n / 10, (width - 1) as nat);
        let shorter = fraction_digits(n / 10, (width - 1) as nat);
        assert forall|i: int| 0 <= i < digits.len() implies is_plain(#[trigger] digits[i]) by {
            if i < shorter.len() {
                assert(digits[i] == shorter[i]);
            } else {
                assert(digits[i] == digit_char((n % 10) as int));
            }
        }
    }
}

/// A decimal is written with digits, the point and the minus sign alone: there is
/// no exponent in the canonical text, nor in any other written form.
pub proof fn lemma_written_is_plain(mantissa: int, scale: nat)
    ensures
        forall|i: int|
            0 <= i < written(mantissa, scale).len() ==> is_plain(
                #[trigger] written(mantissa, scale)[i],
            ),
{
    let magnitude: nat = if mantissa < 0 {
        (-mantissa) as nat
    } else {
        mantissa as nat
    };
    lemma_digits_are_plain((magnitude / pow10(scale) as nat) as nat);
    lemma_fraction_is_plain((magnitude % pow10(scale) as nat) as nat, scale);
}

/// The digits of a number hold no point and no minus sign, and denote the
/// number.
proof fn lemma_whole_digits(n: nat)
    ensures
        nat_digits(n).len() > 0,
        crate::text::digits_value(nat_digits(n)) == n,
        forall|i: int|
            0 <= i < nat_digits(n).len() ==> #[trigger] nat_digits(n)[i] != '.' && nat_digits(
                n,
            )[i] != '-',
    decreases n,
{
    let digits = nat_digits(n);
    if n < 10 {
        assert(digits.drop_last() =~= Seq::<char>::empty());
        assert(crate::text::digits_value(digits.drop_last()) == 0);
        assert(digits.last() == digit_char(n as int));
    } else {
        lemma_whole_digits(n / 10);
        let shorter = nat_digits(n / 10);
        assert(digits.drop_last() =~= shorter);
        assert(digits.last() == digit_char((n % 10) as int));
        assert forall|i: int| 0 <= i < digits.len() implies #[trigger] digits[i] != '.'
            && digits[i] != '-' by {
            if i < shorter.len() {
                assert(digits[i] == shorter[i]);
            }
        }
    }
}

/// The digits behind the point are as many as the scale says, hold no point, and
/// denote what is left of the number below that power of ten.
proof fn lemma_fraction_digits(n: nat, width: nat)
    ensures
        fraction_digits(n, width).len() == width,
        crate::text::digits_value(fraction_digits(n, width)) == n % (pow10(width) as nat),
        forall|i: int|
            0 <= i < fraction_digits(n, width).len() ==> #[trigger] fraction_digits(n, width)[i]
                != '.',
    decreases width,
{
    lemma_pow10_positive(width);
    let digits = fraction_digits(n, width);
    if width == 0 {
        assert(n % 1 == 0);
    } else {
        let lower = (width - 1) as nat;
        lemma_fraction_digits(n / 10, lower);
        lemma_pow10_positive(lower);
        let shorter = fraction_digits(n / 10, lower);
        assert(digits.drop_last() =~= shorter);
        assert(digits.last() == digit_char((n % 10) as int));
        assert forall|i: int| 0 <= i < digits.len() implies #[trigger] digits[i] != '.' by {
            if i < shorter.len() {
                assert(digits[i] == shorter[i]);
            }
        }
        let p = pow10(lower);
        assert(pow10(width) == 10 * p);
        vstd::arithmetic::div_mod::lemma_mod_breakdown(n as int, 10, p as int);
        assert(n % ((10 * p) as nat) == ((n / 10) % (p as nat)) * 10 + n % 10);
    }
}

/// A text without the separator can be told from what follows the separator.
proof fn lemma_separator_cancels(
    x: Seq<char>,
    rest_x: Seq<char>,
    y: Seq<char>,
    rest_y: Seq<char>,
    separator: char,
)
    requires
        forall|i: int| 0 <= i < x.len() ==> #[trigger] x[i] != separator,
        forall|i: int| 0 <= i < y.len() ==> #[trigger] y[i] != separator,
        x + seq![separator] + rest_x == y + seq![separator] + rest_y,
    ensures
        x == y,
        rest_x == rest_y,
{
    let a = x + seq![separator] + rest_x;
    let b = y + seq![separator] + rest_y;
    assert(a[x.len() as int] == separator);
    assert(b[y.len() as int] == separator);
    if x.len() < y.len() {
        assert(b[x.len() as int] == y[x.len() as int]);
    }
    if y.len() < x.len() {
        assert(a[y.len() as int] == x[y.len() as int]);
    }
    assert(a.subrange(0, x.len() as int) =~= x);
    assert(b.subrange(0, y.len() as int) =~= y);
    assert(a.subrange(x.len() as int + 1, a.len() as int) =~= rest_x);
    assert(b.subrange(y.len() as int + 1, b.len() as int) =~= rest_y);
}

/// The body of a written decimal, behind the sign: two that are written the same
/// have the same magnitude and scale.
proof fn lemma_written_body(a: nat, s: nat, b: nat, t: nat)
    requires
        (if s == 0 {
            nat_digits((a / pow10(s) as nat) as nat)
        } else {
            nat_digits((a / pow10(s) as nat) as nat) + seq!['.'] + fraction_digits(
                (a % pow10(s) as nat) as nat,
                s,
            )
        }) == (if t == 0 {
            nat_digits((b / pow10(t) as nat) as nat)
        } else {
            nat_digits((b / pow10(t) as nat) as nat) + seq!['.'] + fraction_digits(
                (b % pow10(t) as nat) as nat,
                t,
            )
        }),
    ensures
        a == b,
        s == t,
{
    lemma_pow10_positive(s);
    lemma_pow10_positive(t);
    let p = pow10(s) as nat;
    let q = pow10(t) as nat;
    let whole_a = (a / p) as nat;
    let whole_b = (b / q) as nat;
    let frac_a = (a % p) as nat;
    let frac_b = (b % q) as nat;
    lemma_whole_digits(whole_a);
    lemma_whole_digits(whole_b);
    lemma_fraction_digits(frac_a, s);
    lemma_fraction_digits(frac_b, t);
    let da = nat_digits(whole_a);
    let db = nat_digits(whole_b);
    let fa = fraction_digits(frac_a, s);
    let fb = fraction_digits(frac_b, t);
    if s == 0 && t == 0 {
        assert(a / 1 == a && b / 1 == b);
    } else if s == 0 {
        let text = db + seq!['.'] + fb;
        assert(text[db.len() as int] == '.');
        assert(da[db.len() as int] == '.');
    } else if t == 0 {
        let text = da + seq!['.'] + fa;
        assert(text[da.len() as int] == '.');
        assert(db[da.len() as int] == '.');
    } else {
        lemma_separator_cancels(da, fa, db, fb, '.');
        assert(whole_a == whole_b);
        assert(s == t);
        assert(frac_a % p == frac_b % p);
        assert(frac_a % p == frac_a) by (nonlinear_arith)
            requires
                frac_a == a % p,
                p > 0,
        ;
        assert(frac_b % p == frac_b) by (nonlinear_arith)
            requires
                frac_b == b % p,
                p > 0,
        ;
        assert(a == whole_a * p + frac_a) by (nonlinear_arith)
            requires
                whole_a == a / p,
                frac_a == a % p,
                p > 0,
        ;
        assert(b == whole_b * p + frac_b) by (nonlinear_arith)
            requires
                whole_b == b / p,
                frac_b == b % p,
                p > 0,
        ;
    }
}

/// A decimal can be read back from how it is written: two that are written the
/// same have the same mantissa and the same scale.
pub proof fn lemma_written_injective(m1: int, s1: nat, m2: int, s2: nat)
    requires
        written(m1, s1) == written(m2, s2),
    ensures
        m1 == m2,
        s1 == s2,
{
    let a: nat = if m1 < 0 { (-m1) as nat } else { m1 as nat };
    let b: nat = if m2 < 0 { (-m2) as nat } else { m2 as nat };
    lemma_pow10_positive(s1);
    lemma_pow10_positive(s2);
    lemma_whole_digits((a / pow10(s1) as nat) as nat);
    lemma_whole_digits((b / pow10(s2) as nat) as nat);
    let body_a = if s1 == 0 {
        nat_digits((a / pow10(s1) as nat) as nat)
    } else {
        nat_digits((a / pow10(s1) as nat) as nat) + seq!['.'] + fraction_digits(
            (a % pow10(s1) as nat) as nat,
            s1,
        )
    };
    let body_b = if s2 == 0 {
        nat_digits((b / pow10(s2) as nat) as nat)
    } else {
        nat_digits((b / pow10(s2) as nat) as nat) + seq!['.'] + fraction_digits(
            (b % pow10(s2) as nat) as nat,
            s2,
        )
    };
    assert(body_a[0] == nat_digits((a / pow10(s1) as nat) as nat)[0]);
    assert(body_b[0] == nat_digits((b / pow10(s2) as nat) as nat)[0]);
    assert(body_a[0] != '-' && body_b[0] != '-');
    if m1 < 0 {
        assert(written(m1, s1)[0] == '-');
        if m2 >= 0 {
            assert(written(m2, s2)[0] == body_b[0]);
        } else {
            assert((seq!['-'] + body_a).subrange(1, written(m1, s1).len() as int) =~= body_a);
            assert((seq!['-'] + body_b).subrange(1, written(m2, s2).len() as int) =~= body_b);
            lemma_written_body(a, s1, b, s2);
        }
    } else {
        if m2 < 0 {
            assert(written(m2, s2)[0] == '-');
            assert(written(m1, s1)[0] == body_a[0]);
        } else {
            lemma_written_body(a, s1, b, s2);
        }
    }
}

/// The normal form of a decimal is no larger than the decimal.
proof fn lemma_normal_form_bounds(mantissa: int, scale: nat)
    ensures
        normal_form(mantissa, scale).1 <= scale,
        mantissa >= 0 ==> 0 <= normal_form(mantissa, scale).0 <= mantissa,
        mantissa <= 0 ==> mantissa <= normal_form(mantissa, scale).0 <= 0,
    decreases scale,
{
    if mantissa != 0 && scale > 0 && mantissa % 10 == 0 {
        lemma_normal_form_bounds(mantissa / 10, (scale - 1) as nat);
    }
}

/// The canonical text tells decimals apart: two decimals with the same canonical
/// text denote the same number. With `lemma_same_value_same_text`, the canonical
/// text is the same exactly for decimals of the same value.
pub proof fn lemma_same_text_same_value(a: Decimal, b: Decimal)
    requires
        a.well_formed(),
        b.well_formed(),
        a.canonical_text() == b.canonical_text(),
    ensures
        a.same_value(&b),
{
    let fa = normal_form(a.mantissa(), a.scale());
    let fb = normal_form(b.mantissa(), b.scale());
    lemma_normal_form_bounds(a.mantissa(), a.scale());
    lemma_normal_form_bounds(b.mantissa(), b.scale());
    assert(a.normalized().mantissa() == fa.0 && a.normalized().scale() == fa.1);
    assert(b.normalized().mantissa() == fb.0 && b.normalized().scale() == fb.1);
    lemma_written_injective(fa.0, fa.1, fb.0, fb.1);
    lemma_normal_form(a.mantissa(), a.scale());
    lemma_normal_form(b.mantissa(), b.scale());
    lemma_pow10_positive(a.scale());
    lemma_pow10_positive(b.scale());
    lemma_pow10_positive(fa.1);
    // fa * 10^sa == ma * 10^f and fa * 10^sb == mb * 10^f
    let f = fa.0;
    let q = pow10(fa.1);
    let pa = pow10(a.scale());
    let pb = pow10(b.scale());
    let ma = a.mantissa();
    let mb = b.mantissa();
    assert((ma * pb) * q == (f * pa) * pb) by (nonlinear_arith)
        requires
            f * pa == ma * q,
    ;
    assert((mb * pa) * q == (f * pb) * pa) by (nonlinear_arith)
        requires
            f * pb == mb * q,
    ;
    assert((f * pa) * pb == (f * pb) * pa) by (nonlinear_arith);
    assert(ma * pb == mb * pa) by (nonlinear_arith)
        requires
            (ma * pb) * q == (mb * pa) * q,
            q > 0,
    ;
}

/// A number below `10^k` has at most `k` digits.
proof fn lemma_digits_count(n: nat, k: nat)
    requires
        k >= 1,
        n < pow10(k),
    ensures
        nat_digits(n).len() <= k,
    decreases n,
{
    if n >= 10 {
        let lower = (k - 1) as nat;
        assert(pow10(k) == 10 * pow10(lower));
        if lower == 0 {
            assert(pow10(0) == 1);
        } else {
            lemma_digits_count(n / 10, lower);
        }
    }
}

/// The canonical text of a decimal is short and plain: at most 59 characters,
/// each of them ASCII, so that its UTF-8 encoding has as many bytes.
pub proof fn lemma_canonical_text_is_short(d: Decimal)
    requires
        d.well_formed(),
    ensures
        d.canonical_text().len() <= 59,
        vstd::utf8::encode_utf8(d.canonical_text()).len() == d.canonical_text().len(),
{
    let form = normal_form(d.mantissa(), d.scale());
    lemma_normal_form_bounds(d.mantissa(), d.scale());
    let m = form.0;
    let s = form.1;
    assert(d.normalized().mantissa() == m && d.normalized().scale() == s);
    let magnitude: nat = if m < 0 { (-m) as nat } else { m as nat };
    lemma_pow10_positive(s);
    let whole = (magnitude / pow10(s) as nat) as nat;
    assert(whole <= magnitude) by (nonlinear_arith)
        requires
            whole == magnitude / (pow10(s) as nat),
            pow10(s) > 0,
    ;
    reveal_with_fuel(pow10, 30);
    assert(pow10(29) == 100_000_000_000_000_000_000_000_000_000int);
    lemma_digits_count(whole, 29);
    lemma_fraction_digits((magnitude % pow10(s) as nat) as nat, s);
    lemma_written_is_plain(m, s);
    let text = written(m, s);
    assert(vstd::utf8::is_ascii_chars(text)) by {
        assert forall|i: int| 0 <= i < text.len() implies '\0' <= #[trigger] text[i] <= '\u{7f}' by {
            assert(is_plain(text[i]));
        }
    }
    vstd::utf8::is_ascii_chars_encode_utf8(text);
}

impl PartialEq for Decimal {
    fn eq(&self, other: &Decimal) -> (r: bool) {
        equal_outside(*self, *other)
    }
}

impl PartialEqSpecImpl for Decimal {
    open spec fn obeys_eq_spec() -> bool {
        true
    }

    open spec fn eq_spec(&self, other: &Decimal) -> bool {
        self.same_value(other)
    }
}

impl Eq for Decimal {}

impl PartialOrd for Decimal {
    fn partial_cmp(&self, other: &Decimal) -> (r: Option<Ordering>) {
        if less_outside(*self, *other) {
            Some(Ordering::Less)
        } else if less_outside(*other, *self) {
            Some(Ordering::Greater)
        } else {
            Some(Ordering::Equal)
        }
    }
}

impl PartialOrdSpecImpl for Decimal {
    open spec fn obeys_partial_cmp_spec() -> bool {
        true
    }

    open spec fn partial_cmp_spec(&self, other: &Decimal) -> Option<Ordering> {
        if self.less_than(other) {
            Some(Ordering::Less)
        } else if other.less_than(self) {
            Some(Ordering::Greater)
        } else {
            Some(Ordering::Equal)
        }
    }
}

impl FromStr for Decimal {
    type Err = DecimalParseError;

    /// Parses a decimal from text, as `from_str_canonical` does.
    fn from_str(text: &str) -> (r: Result<Decimal, DecimalParseError>)
        ensures
            r matches Ok(d) ==> parsed_decimal(text@) == Some(d),
            r is Err <==> parsed_decimal(text@) is None,
            text@.len() == 0 ==> r is Err,
    {
        Decimal::from_str_canonical(text)
    }
}

impl Default for Decimal {
    fn default() -> (r: Decimal)
        ensures
            r == Decimal::nought(),
            r.mantissa() == 0,
            r.scale() == 0,
    {
        Decimal::zero()
    }
}

} // verus!
