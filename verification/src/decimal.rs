//! Decimal numbers as `rust_decimal` holds them — a mantissa and a scale —
//! with exact arithmetic on their values.
use vstd::prelude::*;
use crate::agentic::validate::all_ascii;

verus! {

/// The largest mantissa magnitude a `rust_decimal::Decimal` holds (96 bits).
pub const MAX_MANTISSA: i128 = 0xFFFF_FFFF_FFFF_FFFF_FFFF_FFFF;

/// `mantissa / 10^scale`.
#[derive(Debug, Clone, Copy, PartialEq, Eq, Structural)]
pub struct DecimalValue {
    pub mantissa: i128,
    pub scale: u32,
}

/// `10^n`.
pub open spec fn p10(n: nat) -> int
    decreases n,
{
    if n == 0 {
        1
    } else {
        10 * p10((n - 1) as nat)
    }
}

pub proof fn lemma_p10_positive(n: nat)
    ensures
        p10(n) >= 1,
    decreases n,
{
    if n > 0 {
        lemma_p10_positive((n - 1) as nat);
    }
}

pub proof fn lemma_p10_adds(a: nat, b: nat)
    ensures
        p10(a + b) == p10(a) * p10(b),
    decreases a,
{
    if a > 0 {
        lemma_p10_adds((a - 1) as nat, b);
        assert(p10(a + b) == 10 * p10((a - 1 + b) as nat));
        assert(10 * (p10((a - 1) as nat) * p10(b)) == (10 * p10((a - 1) as nat)) * p10(b)) by (nonlinear_arith);
    }
}

pub proof fn lemma_p10_monotone(a: nat, b: nat)
    requires
        a <= b,
    ensures
        p10(a) <= p10(b),
    decreases b,
{
    if a < b {
        lemma_p10_monotone(a, (b - 1) as nat);
        lemma_p10_positive((b - 1) as nat);
    }
}

proof fn lemma_p10_27()
    ensures
        p10(27) == 1_000_000_000_000_000_000_000_000_000,
{
    reveal_with_fuel(p10, 28);
}

impl DecimalValue {
    /// Within what a `rust_decimal::Decimal` can hold.
    pub open spec fn wf(self) -> bool {
        &&& self.scale <= 28
        &&& -MAX_MANTISSA <= self.mantissa <= MAX_MANTISSA
    }

    /// The value, in units of `10^-28`.
    pub open spec fn value(self) -> int {
        self.mantissa * p10((28 - self.scale) as nat)
    }

    pub fn zero() -> (d: DecimalValue)
        ensures
            d.wf(),
            d.mantissa == 0 && d.scale == 0,
            d.value() == 0,
    {
        DecimalValue { mantissa: 0, scale: 0 }
    }

    pub fn is_positive(&self) -> (r: bool)
        requires
            self.wf(),
        ensures
            r == (self.value() > 0),
    {
        proof {
            lemma_p10_positive((28 - self.scale) as nat);
            let p = p10((28 - self.scale) as nat);
            assert(self.mantissa > 0 ==> self.mantissa * p > 0) by (nonlinear_arith)
                requires p >= 1;
            assert(self.mantissa <= 0 ==> self.mantissa * p <= 0) by (nonlinear_arith)
                requires p >= 1;
        }
        self.mantissa > 0
    }
}

/// `a` and `b` brought to their common (larger) scale: the mantissas there,
/// and the scale.
pub open spec fn aligned(a: DecimalValue, b: DecimalValue) -> (int, int, nat) {
    let s: nat = if a.scale >= b.scale { a.scale as nat } else { b.scale as nat };
    (a.mantissa * p10((s - a.scale) as nat), b.mantissa * p10((s - b.scale) as nat), s)
}

/// The exact sum as `Decimal` writes it: a zero operand gives the other
/// operand back unchanged; otherwise the sum is taken at the larger scale.
pub open spec fn spec_add(a: DecimalValue, b: DecimalValue) -> DecimalValue {
    if a.mantissa == 0 {
        b
    } else if b.mantissa == 0 {
        a
    } else {
        let (x, y, s) = aligned(a, b);
        DecimalValue { mantissa: (x + y) as i128, scale: s as u32 }
    }
}

/// The exact difference as `Decimal` writes it: `0 - b` is `b` negated at
/// its own scale, `a - 0` is `a`; otherwise the difference is taken at the
/// larger scale.
pub open spec fn spec_sub(a: DecimalValue, b: DecimalValue) -> DecimalValue {
    if a.mantissa == 0 {
        DecimalValue { mantissa: (-b.mantissa) as i128, scale: b.scale }
    } else if b.mantissa == 0 {
        a
    } else {
        let (x, y, s) = aligned(a, b);
        DecimalValue { mantissa: (x - y) as i128, scale: s as u32 }
    }
}

/// The exact product as `Decimal` writes it: zero when an operand is zero,
/// else the product of the mantissas at the sum of the scales.
pub open spec fn spec_mul(a: DecimalValue, b: DecimalValue) -> DecimalValue {
    if a.mantissa == 0 || b.mantissa == 0 {
        DecimalValue { mantissa: 0, scale: 0 }
    } else {
        DecimalValue { mantissa: (a.mantissa * b.mantissa) as i128, scale: (a.scale + b.scale) as u32 }
    }
}

/// The product fits a `Decimal` without rounding.
pub open spec fn mul_fits(a: DecimalValue, b: DecimalValue) -> bool {
    &&& a.scale + b.scale <= 28
    &&& -MAX_MANTISSA <= a.mantissa * b.mantissa <= MAX_MANTISSA
}

/// Both operands and the sum fit a `Decimal` at their common scale.
pub open spec fn add_fits(a: DecimalValue, b: DecimalValue) -> bool {
    let (x, y, s) = aligned(a, b);
    &&& -MAX_MANTISSA <= x <= MAX_MANTISSA
    &&& -MAX_MANTISSA <= y <= MAX_MANTISSA
    &&& -MAX_MANTISSA <= x + y <= MAX_MANTISSA
}

/// Both operands and the difference fit a `Decimal` at their common scale.
pub open spec fn sub_fits(a: DecimalValue, b: DecimalValue) -> bool {
    let (x, y, s) = aligned(a, b);
    &&& -MAX_MANTISSA <= x <= MAX_MANTISSA
    &&& -MAX_MANTISSA <= y <= MAX_MANTISSA
    &&& -MAX_MANTISSA <= x - y <= MAX_MANTISSA
}

proof fn lemma_aligned_value(m: int, s: nat, t: nat)
    requires
        s <= t <= 28,
    ensures
        m * p10((t - s) as nat) * p10((28 - t) as nat) == m * p10((28 - s) as nat),
{
    lemma_p10_adds((t - s) as nat, (28 - t) as nat);
    assert(((t - s) as nat + (28 - t) as nat) as nat == (28 - s) as nat);
    let x = p10((t - s) as nat);
    let y = p10((28 - t) as nat);
    assert(m * x * y == m * (x * y)) by (nonlinear_arith);
}

/// What `Decimal`'s `+` gives for `a` and `b`.
pub uninterp spec fn decimal_sum(a: DecimalValue, b: DecimalValue) -> DecimalValue;

/// What `Decimal`'s `-` gives for `a` and `b`.
pub uninterp spec fn decimal_difference(a: DecimalValue, b: DecimalValue) -> DecimalValue;

/// What `Decimal`'s `*` gives for `a` and `b`.
pub uninterp spec fn decimal_product(a: DecimalValue, b: DecimalValue) -> DecimalValue;

/// What `Decimal`'s `+` gives: the exact sum where it fits at the common
/// scale, else the crate's rounded result.
pub open spec fn plus(a: DecimalValue, b: DecimalValue) -> DecimalValue {
    if add_fits(a, b) {
        spec_add(a, b)
    } else {
        decimal_sum(a, b)
    }
}

/// What `Decimal`'s `*` gives: the exact product where it fits without
/// rounding, else the crate's rounded result.
pub open spec fn product(a: DecimalValue, b: DecimalValue) -> DecimalValue {
    if mul_fits(a, b) {
        spec_mul(a, b)
    } else {
        decimal_product(a, b)
    }
}

/// What `Decimal`'s `-` gives: the exact difference where it fits at the
/// common scale, else the crate's rounded result.
pub open spec fn difference(a: DecimalValue, b: DecimalValue) -> DecimalValue {
    if sub_fits(a, b) {
        spec_sub(a, b)
    } else {
        decimal_difference(a, b)
    }
}

/// The largest magnitude a `Decimal` holds, in units of `10^-28`.
pub open spec fn max_value() -> int {
    MAX_MANTISSA * p10(28)
}

/// `Decimal`'s `+`. It panics when the sum's magnitude passes the largest
/// `Decimal`, so the sum is kept within it. When the sum fits at the
/// operands' common scale no rounding happens and the result is `spec_add`
/// (a zero operand gives the other back as it is); otherwise the crate
/// rounds it to fewer decimals, and that result is only named. Either way
/// it keeps a scale of zero or more, so it is within one of the sum.
#[verifier::external_body]
pub(crate) fn decimal_plus(a: &DecimalValue, b: &DecimalValue) -> (c: DecimalValue)
    requires
        a.wf(),
        b.wf(),
        -max_value() <= a.value() + b.value() <= max_value(),
    ensures
        c.wf(),
        c == decimal_sum(*a, *b),
        add_fits(*a, *b) ==> c == spec_add(*a, *b),
        -p10(28) <= c.value() - (a.value() + b.value()) <= p10(28),
{
    let r = rust_decimal::Decimal::from_i128_with_scale(a.mantissa, a.scale) + rust_decimal::Decimal::from_i128_with_scale(
        b.mantissa,
        b.scale,
    );
    DecimalValue { mantissa: r.mantissa(), scale: r.scale() }
}

/// `Decimal`'s `-`, on the same terms as `decimal_plus`: exact and
/// `spec_sub` when the difference fits at the common scale.
#[verifier::external_body]
pub(crate) fn decimal_minus(a: &DecimalValue, b: &DecimalValue) -> (c: DecimalValue)
    requires
        a.wf(),
        b.wf(),
        -max_value() <= a.value() - b.value() <= max_value(),
    ensures
        c.wf(),
        c == decimal_difference(*a, *b),
        sub_fits(*a, *b) ==> c == spec_sub(*a, *b),
        -p10(28) <= c.value() - (a.value() - b.value()) <= p10(28),
{
    let r = rust_decimal::Decimal::from_i128_with_scale(a.mantissa, a.scale) - rust_decimal::Decimal::from_i128_with_scale(
        b.mantissa,
        b.scale,
    );
    DecimalValue { mantissa: r.mantissa(), scale: r.scale() }
}

/// `Decimal`'s `*`. It panics when the product's magnitude passes the
/// largest `Decimal`, so the product is kept within it (in units of
/// `10^-56`, as the values are multiplied). When the product fits without
/// rounding the result is `spec_mul` (zero, at scale zero, when an operand
/// is zero); otherwise the crate rounds it to at most 28 decimals, and that
/// result is only named. Either way it is within one of the product.
#[verifier::external_body]
pub(crate) fn decimal_times(a: &DecimalValue, b: &DecimalValue) -> (c: DecimalValue)
    requires
        a.wf(),
        b.wf(),
        -max_value() * p10(28) <= a.value() * b.value() <= max_value() * p10(28),
    ensures
        c.wf(),
        c == decimal_product(*a, *b),
        mul_fits(*a, *b) ==> c == spec_mul(*a, *b),
        -p10(56) <= c.value() * p10(28) - a.value() * b.value() <= p10(56),
{
    let r = rust_decimal::Decimal::from_i128_with_scale(a.mantissa, a.scale) * rust_decimal::Decimal::from_i128_with_scale(
        b.mantissa,
        b.scale,
    );
    DecimalValue { mantissa: r.mantissa(), scale: r.scale() }
}

/// `a + b`, exactly.
pub fn dec_add(a: &DecimalValue, b: &DecimalValue) -> (c: DecimalValue)
    requires
        a.wf(),
        b.wf(),
        add_fits(*a, *b),
    ensures
        c.wf(),
        c.value() == a.value() + b.value(),
        c == spec_add(*a, *b),
{
    proof {
        lemma_spec_add_wf(*a, *b);
        lemma_spec_add_value(*a, *b);
        lemma_value_bounds(spec_add(*a, *b));
    }
    decimal_plus(a, b)
}

/// `a - b`, exactly.
pub fn dec_sub(a: &DecimalValue, b: &DecimalValue) -> (c: DecimalValue)
    requires
        a.wf(),
        b.wf(),
        sub_fits(*a, *b),
    ensures
        c.wf(),
        c.value() == a.value() - b.value(),
        c == spec_sub(*a, *b),
{
    proof {
        lemma_spec_sub_wf(*a, *b);
        lemma_spec_sub_value(*a, *b);
        lemma_value_bounds(spec_sub(*a, *b));
    }
    decimal_minus(a, b)
}

/// `a * b`, exactly.
pub fn dec_mul(a: &DecimalValue, b: &DecimalValue) -> (c: DecimalValue)
    requires
        a.wf(),
        b.wf(),
        mul_fits(*a, *b),
    ensures
        c.wf(),
        c.value() * p10(28) == a.value() * b.value(),
        c == spec_mul(*a, *b),
{
    proof {
        lemma_spec_mul_value(*a, *b);
        lemma_value_bounds(spec_mul(*a, *b));
        let v = spec_mul(*a, *b).value();
        lemma_p10_positive(28);
        assert(-max_value() * p10(28) <= v * p10(28) <= max_value() * p10(28)) by (nonlinear_arith)
            requires -max_value() <= v <= max_value(), p10(28) >= 1;
    }
    decimal_times(a, b)
}

/// What `Decimal`'s `/` gives for `a` and `b`.
pub uninterp spec fn decimal_quotient(a: DecimalValue, b: DecimalValue) -> DecimalValue;

/// What `Decimal`'s `/` gives for `a` divided by a positive whole number
/// `m`: zero for a zero dividend, the exact quotient at the dividend's
/// scale when `m` divides the mantissa, else the crate's rounded result.
pub open spec fn quotient(a: DecimalValue, m: int) -> DecimalValue {
    if a.mantissa == 0 {
        DecimalValue { mantissa: 0, scale: 0 }
    } else if (a.mantissa as int) % m == 0 {
        DecimalValue { mantissa: ((a.mantissa as int) / m) as i128, scale: a.scale }
    } else {
        decimal_quotient(a, DecimalValue { mantissa: m as i128, scale: 0 })
    }
}

/// `Decimal`'s `/` by a positive whole number. A zero divisor panics and is
/// left out. Division by a whole number of at least one only rounds, never
/// overflows: the crate returns `Decimal::ZERO` for a zero dividend, and
/// when the divisor divides the mantissa it takes its fast path, which
/// keeps the dividend's scale. Otherwise the quotient is rounded to what
/// 96 bits hold, and that result is only named.
#[verifier::external_body]
fn decimal_divide(a: &DecimalValue, b: &DecimalValue) -> (c: DecimalValue)
    requires
        a.wf(),
        b.wf(),
        b.scale == 0,
        b.mantissa >= 1,
    ensures
        c.wf(),
        c == decimal_quotient(*a, *b),
        a.mantissa == 0 ==> c == (DecimalValue { mantissa: 0, scale: 0 }),
        a.mantissa != 0 && (a.mantissa as int) % (b.mantissa as int) == 0 ==> c == (DecimalValue { mantissa: ((a.mantissa as int) / (b.mantissa as int)) as i128, scale: a.scale }),
{
    let r = rust_decimal::Decimal::from_i128_with_scale(a.mantissa, a.scale) / rust_decimal::Decimal::from_i128_with_scale(
        b.mantissa,
        b.scale,
    );
    DecimalValue { mantissa: r.mantissa(), scale: r.scale() }
}

/// `a` divided by the count `n` (at least one), as `Decimal` divides.
pub fn dec_div_count(a: &DecimalValue, n: u64) -> (c: DecimalValue)
    requires
        a.wf(),
        n >= 1,
    ensures
        c.wf(),
        c == quotient(*a, n as int),
{
    let b = DecimalValue { mantissa: n as i128, scale: 0 };
    assert(b.wf());
    decimal_divide(a, &b)
}

/// `Decimal`'s `>`: compares the values as numbers.
#[verifier::external_body]
pub(crate) fn dec_gt(a: &DecimalValue, b: &DecimalValue) -> (r: bool)
    requires
        a.wf(),
        b.wf(),
    ensures
        r == (a.value() > b.value()),
{
    rust_decimal::Decimal::from_i128_with_scale(a.mantissa, a.scale) > rust_decimal::Decimal::from_i128_with_scale(
        b.mantissa,
        b.scale,
    )
}

/// What `Decimal::round_dp(2).to_string()` gives for `mantissa / 10^scale`.
pub uninterp spec fn rounded_text(mantissa: int, scale: nat) -> Seq<char>;

/// `Decimal::round_dp(2)` (midpoint to even) and its `to_string`. The text
/// is ASCII (a sign, digits and a point).
#[verifier::external_body]
pub(crate) fn round2_text(d: &DecimalValue) -> (s: String)
    requires
        d.wf(),
    ensures
        s@ == rounded_text(d.mantissa as int, d.scale as nat),
        all_ascii(s@),
{
    rust_decimal::Decimal::from_i128_with_scale(d.mantissa, d.scale).round_dp(2).to_string()
}

/// The digits of `u` (none for zero), with zeros in front up to `width`.
pub open spec fn padded_digits(u: nat, width: nat) -> Seq<char> {
    let ds = if u == 0 {
        Seq::<char>::empty()
    } else {
        crate::num::dec_str(u)
    };
    if ds.len() < width {
        Seq::new((width - ds.len()) as nat, |i: int| '0') + ds
    } else {
        ds
    }
}

/// What `Decimal`'s `Display` prints for `mantissa / 10^scale`: a `-` for a
/// negative mantissa, the whole digits (`0` when there are none) and, for a
/// positive scale, a point and `scale` fractional digits.
pub open spec fn shown(mantissa: int, scale: nat) -> Seq<char> {
    let u = (if mantissa < 0 {
        -mantissa
    } else {
        mantissa
    }) as nat;
    let ds = padded_digits(u, scale);
    let whole = ds.take(ds.len() - scale);
    let frac = ds.skip(ds.len() - scale);
    (if mantissa < 0 {
        seq!['-']
    } else {
        Seq::<char>::empty()
    }) + (if whole.len() == 0 {
        seq!['0']
    } else {
        whole
    }) + (if scale > 0 {
        seq!['.'] + frac
    } else {
        Seq::<char>::empty()
    })
}

/// `Decimal`'s `to_string`: the digits of the mantissa with the point put
/// `scale` digits from the right, as `shown` spells out.
#[verifier::external_body]
pub(crate) fn decimal_display(d: &DecimalValue) -> (s: String)
    requires
        d.wf(),
    ensures
        s@ == shown(d.mantissa as int, d.scale as nat),
{
    rust_decimal::Decimal::from_i128_with_scale(d.mantissa, d.scale).to_string()
}

/// A non-negative `u / 10^s` rounded to an integer, ties to even.
pub open spec fn round_half_even_mag(u: nat, s: nat) -> nat {
    let p = p10(s);
    let q = (u / (p as nat)) as nat;
    let r = u % (p as nat);
    if 2 * r < p {
        q
    } else if 2 * r > p {
        q + 1
    } else if q % 2 == 0 {
        q
    } else {
        q + 1
    }
}

/// `mantissa / 10^scale` rounded to an integer, ties to even
/// (`Decimal::round`).
pub open spec fn round_half_even(d: DecimalValue) -> int {
    if d.mantissa >= 0 {
        round_half_even_mag(d.mantissa as nat, d.scale as nat) as int
    } else {
        -(round_half_even_mag((-d.mantissa) as nat, d.scale as nat) as int)
    }
}

/// `Decimal::round` followed by `to_i32`: the value rounded to an integer
/// with ties to even (banker's rounding, as `round` documents), and that
/// integer when it fits an `i32`.
#[verifier::external_body]
pub(crate) fn round_to_i32(d: &DecimalValue) -> (r: Option<i32>)
    requires
        d.wf(),
    ensures
        match r {
            Some(n) => n == round_half_even(*d),
            None => round_half_even(*d) < i32::MIN || round_half_even(*d) > i32::MAX,
        },
{
    rust_decimal::prelude::ToPrimitive::to_i32(&rust_decimal::Decimal::from_i128_with_scale(d.mantissa, d.scale).round())
}


/// A sum that fits is a well-formed decimal.
pub proof fn lemma_spec_add_wf(a: DecimalValue, b: DecimalValue)
    requires
        a.wf(),
        b.wf(),
        add_fits(a, b),
    ensures
        spec_add(a, b).wf(),
{
}

/// A difference that fits is a well-formed decimal.
pub proof fn lemma_spec_sub_wf(a: DecimalValue, b: DecimalValue)
    requires
        a.wf(),
        b.wf(),
        sub_fits(a, b),
    ensures
        spec_sub(a, b).wf(),
{
}


/// The value of an exact sum.
pub proof fn lemma_spec_add_value(a: DecimalValue, b: DecimalValue)
    requires
        a.wf(),
        b.wf(),
        add_fits(a, b),
    ensures
        spec_add(a, b).value() == a.value() + b.value(),
{
    lemma_zero_value(a);
    lemma_zero_value(b);
    let (x, y, s) = aligned(a, b);
    lemma_aligned_value(a.mantissa as int, a.scale as nat, s);
    lemma_aligned_value(b.mantissa as int, b.scale as nat, s);
    let p = p10((28 - s) as nat);
    assert((x + y) * p == x * p + y * p) by (nonlinear_arith);
}

/// The value of an exact difference.
pub proof fn lemma_spec_sub_value(a: DecimalValue, b: DecimalValue)
    requires
        a.wf(),
        b.wf(),
        sub_fits(a, b),
    ensures
        spec_sub(a, b).value() == a.value() - b.value(),
{
    lemma_zero_value(a);
    lemma_zero_value(b);
    let ghost p = p10((28 - b.scale) as nat);
    assert((-b.mantissa) * p == -(b.mantissa * p)) by (nonlinear_arith);
    let (x, y, s) = aligned(a, b);
    lemma_aligned_value(a.mantissa as int, a.scale as nat, s);
    lemma_aligned_value(b.mantissa as int, b.scale as nat, s);
    let p = p10((28 - s) as nat);
    assert((x - y) * p == x * p - y * p) by (nonlinear_arith);
}


/// A zero mantissa has value zero, at any scale.
pub proof fn lemma_zero_value(d: DecimalValue)
    ensures
        d.mantissa == 0 ==> d.value() == 0,
{
    let p = p10((28 - d.scale) as nat);
    assert(d.mantissa == 0 ==> d.mantissa * p == 0) by (nonlinear_arith);
}

/// The value of an exact product, in units of `10^-28` squared.
pub proof fn lemma_spec_mul_value(a: DecimalValue, b: DecimalValue)
    requires
        a.wf(),
        b.wf(),
        mul_fits(a, b),
    ensures
        spec_mul(a, b).wf(),
        spec_mul(a, b).value() * p10(28) == a.value() * b.value(),
{
    lemma_zero_value(a);
    lemma_zero_value(b);
    let c = spec_mul(a, b);
    if a.mantissa != 0 && b.mantissa != 0 {
        let pa = p10((28 - a.scale) as nat);
        let pb = p10((28 - b.scale) as nat);
        let pc = p10((28 - a.scale - b.scale) as nat);
        lemma_p10_adds((28 - a.scale) as nat, (28 - b.scale) as nat);
        lemma_p10_adds((28 - a.scale - b.scale) as nat, 28);
        assert(((28 - a.scale) as nat + (28 - b.scale) as nat) as nat == ((28 - a.scale - b.scale) as nat + 28) as nat);
        assert(a.mantissa * pa * (b.mantissa * pb) == (a.mantissa * b.mantissa) * (pa * pb)) by (nonlinear_arith);
        assert((a.mantissa * b.mantissa) * pc * p10(28) == (a.mantissa * b.mantissa) * (pc * p10(28))) by (nonlinear_arith);
    } else {
        assert(c.value() == 0) by {
            lemma_zero_value(c);
        }
        assert(a.value() * b.value() == 0) by (nonlinear_arith)
            requires a.value() == 0 || b.value() == 0;
        assert(0 * p10(28) == 0) by (nonlinear_arith);
    }
}


/// A well-formed decimal lies within the largest magnitude.
pub proof fn lemma_value_bounds(d: DecimalValue)
    requires
        d.wf(),
    ensures
        -max_value() <= d.value() <= max_value(),
{
    let p = p10((28 - d.scale) as nat);
    lemma_p10_monotone((28 - d.scale) as nat, 28);
    lemma_p10_positive((28 - d.scale) as nat);
    lemma_p10_27();
    assert(p10(28) == 10 * p10(27));
    assert(d.mantissa * p <= MAX_MANTISSA * p10(28)) by (nonlinear_arith)
        requires d.mantissa <= MAX_MANTISSA, 1 <= p <= p10(28), MAX_MANTISSA > 0;
    assert(d.mantissa * p >= -MAX_MANTISSA * p10(28)) by (nonlinear_arith)
        requires d.mantissa >= -MAX_MANTISSA, 1 <= p <= p10(28), MAX_MANTISSA > 0;
}

pub open spec fn abs(x: int) -> int {
    if x < 0 {
        -x
    } else {
        x
    }
}

pub open spec fn zero() -> DecimalValue {
    DecimalValue { mantissa: 0, scale: 0 }
}

/// `Σ |a|` over the amounts, in units of `10^-28`.
pub open spec fn magnitude_total(s: Seq<DecimalValue>) -> int
    decreases s.len(),
{
    if s.len() == 0 {
        0
    } else {
        magnitude_total(s.drop_last()) + abs(s.last().value())
    }
}

/// The amounts added up from zero, left to right, as `Decimal` adds.
pub open spec fn running_total(s: Seq<DecimalValue>) -> DecimalValue
    decreases s.len(),
{
    if s.len() == 0 {
        zero()
    } else {
        plus(running_total(s.drop_last()), s.last())
    }
}

/// Every amount is a `Decimal`, and the amounts are small enough that no
/// partial sum passes the largest `Decimal` (each addition may round by
/// less than one unit).
pub open spec fn sum_fits(s: Seq<DecimalValue>) -> bool {
    &&& forall|i: int| 0 <= i < s.len() ==> (#[trigger] s[i]).wf()
    &&& magnitude_total(s) + s.len() * p10(28) <= max_value()
}

pub proof fn lemma_magnitude_nonneg(s: Seq<DecimalValue>)
    ensures
        magnitude_total(s) >= 0,
    decreases s.len(),
{
    if s.len() > 0 {
        lemma_magnitude_nonneg(s.drop_last());
    }
}

pub proof fn lemma_magnitude_prefix(s: Seq<DecimalValue>, i: int)
    requires
        0 <= i <= s.len(),
    ensures
        0 <= magnitude_total(s.take(i)) <= magnitude_total(s),
        i < s.len() ==> magnitude_total(s.take(i + 1)) == magnitude_total(s.take(i)) + abs(s[i].value()),
    decreases s.len(),
{
    lemma_magnitude_nonneg(s.take(i));
    if i < s.len() {
        assert(s.take(i + 1).drop_last() =~= s.take(i));
        lemma_magnitude_prefix(s.drop_last(), i);
        assert(s.drop_last().take(i) =~= s.take(i));
    } else {
        assert(s.take(i) =~= s);
    }
}

/// The amounts added up from zero, left to right, with `Decimal`'s `+`.
pub fn sum_amounts(amounts: &Vec<DecimalValue>) -> (t: DecimalValue)
    requires
        sum_fits(amounts@),
    ensures
        t == running_total(amounts@),
        t.wf(),
{
    let mut acc = DecimalValue::zero();
    let mut i: usize = 0;
    proof {
        lemma_p10_positive(28);
        assert(amounts@.take(0) =~= Seq::<DecimalValue>::empty());
    }
    while i < amounts.len()
        invariant
            i <= amounts.len(),
            sum_fits(amounts@),
            p10(28) >= 1,
            acc.wf(),
            acc == running_total(amounts@.take(i as int)),
            abs(acc.value()) <= magnitude_total(amounts@.take(i as int)) + i * p10(28),
        decreases amounts.len() - i,
    {
        let a = &amounts[i];
        proof {
            lemma_magnitude_prefix(amounts@, i as int);
            lemma_magnitude_prefix(amounts@, i as int + 1);
            assert(amounts@.take(i as int + 1).drop_last() =~= amounts@.take(i as int));
            assert(amounts@.take(i as int + 1).last() == amounts@[i as int]);
            assert(a.wf());
            assert(i * p10(28) + p10(28) <= amounts.len() * p10(28)) by (nonlinear_arith)
                requires i + 1 <= amounts.len(), p10(28) >= 1;
            assert((i + 1) * p10(28) == i * p10(28) + p10(28)) by (nonlinear_arith);
        }
        let ghost before = acc.value();
        let ghost bound = magnitude_total(amounts@.take(i as int + 1)) + i * p10(28);
        assert(abs(before + a.value()) <= bound);
        assert(bound <= max_value());
        acc = decimal_plus(&acc, a);
        assert(abs(acc.value()) <= bound + p10(28));
        i = i + 1;
    }
    assert(amounts@.take(amounts.len() as int) =~= amounts@);
    acc
}

} // verus!
