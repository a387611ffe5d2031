//! Exact decimal money.
//!
//! A decimal is an integer together with a scale, the number of digits after
//! the point: `(v, s)` stands for `v / 10^s`. The integer is held as
//! two's-complement little-endian bytes, so it has no size limit. The
//! arithmetic itself is done by `bigdecimal`.

use bigdecimal::num_bigint::BigInt;
use bigdecimal::BigDecimal;
use vstd::arithmetic::div_mod::lemma_fundamental_div_mod_converse;
use vstd::prelude::*;

use crate::error::DomainError;

verus! {

/// `10^n`.
pub open spec fn pow10(n: nat) -> nat
    decreases n,
{
    if n == 0 {
        1
    } else {
        10 * pow10((n - 1) as nat)
    }
}

/// `256^n`.
pub open spec fn pow256(n: nat) -> nat
    decreases n,
{
    if n == 0 {
        1
    } else {
        256 * pow256((n - 1) as nat)
    }
}

/// The unsigned value of little-endian bytes.
pub open spec fn unsigned_le(b: Seq<u8>) -> nat
    decreases b.len(),
{
    if b.len() == 0 {
        0
    } else {
        unsigned_le(b.drop_last()) + b.last() as nat * pow256((b.len() - 1) as nat)
    }
}

/// The value of little-endian two's-complement bytes; no bytes stand for zero.
pub open spec fn signed_le(b: Seq<u8>) -> int {
    if b.len() == 0 || b.last() < 128 {
        unsigned_le(b) as int
    } else {
        unsigned_le(b) - pow256(b.len())
    }
}

/// The integer that the decimal `d` amounts to once written with `k`
/// fractional digits (`k` is at least the scale of `d`).
pub open spec fn at_scale(d: (int, int), k: int) -> int {
    d.0 * pow10((k - d.1) as nat)
}

pub open spec fn max_scale(a: (int, int), b: (int, int)) -> int {
    if a.1 >= b.1 {
        a.1
    } else {
        b.1
    }
}

/// Two decimals stand for the same number (`1.5` and `1.50` do).
pub open spec fn same_amount(a: (int, int), b: (int, int)) -> bool {
    at_scale(a, max_scale(a, b)) == at_scale(b, max_scale(a, b))
}

/// `a + b`, written with the larger of the two scales.
pub open spec fn sum_of(a: (int, int), b: (int, int)) -> (int, int) {
    let k = max_scale(a, b);
    (at_scale(a, k) + at_scale(b, k), k)
}

/// `a - b`, written with the larger of the two scales.
pub open spec fn difference_of(a: (int, int), b: (int, int)) -> (int, int) {
    let k = max_scale(a, b);
    (at_scale(a, k) - at_scale(b, k), k)
}

/// `a * f` for an integer `f`, written with the scale of `a`.
pub open spec fn product_of(a: (int, int), f: int) -> (int, int) {
    (a.0 * f, a.1)
}

pub open spec fn digit_char(d: int) -> char {
    seq!['0', '1', '2', '3', '4', '5', '6', '7', '8', '9'][d]
}

/// The decimal digits of `n`, without leading zeros (`"0"` for zero).
pub open spec fn nat_text(n: nat) -> Seq<char>
    decreases n,
{
    if n < 10 {
        seq![digit_char(n as int)]
    } else {
        nat_text(n / 10).push(digit_char((n % 10) as int))
    }
}

/// `n / 10^s` in hundredths, rounded to the nearest, ties to the even one.
pub open spec fn rounded_hundredths(n: nat, s: int) -> nat {
    if s <= 2 {
        n * pow10((2 - s) as nat)
    } else {
        let d = pow10((s - 2) as nat);
        let q = n / d;
        let r = n % d;
        if 2 * r > d || (2 * r == d && q % 2 == 1) {
            q + 1
        } else {
            q
        }
    }
}

pub open spec fn abs(v: int) -> nat {
    if v < 0 {
        (-v) as nat
    } else {
        v as nat
    }
}

/// The text of `c` hundredths with two digits after the point, and a `-`
/// when `negative`.
pub open spec fn hundredths_text(negative: bool, c: nat) -> Seq<char> {
    (if negative {
        seq!['-']
    } else {
        Seq::<char>::empty()
    }) + nat_text(c / 100) + seq!['.', digit_char(((c % 100) / 10) as int), digit_char((c % 10) as int)]
}

/// The decimal `d` rounded to two places for presentation; a negative amount
/// keeps its sign even where it rounds to zero.
pub open spec fn two_place_text(d: (int, int)) -> Seq<char> {
    hundredths_text(d.0 < 0, rounded_hundredths(abs(d.0), d.1))
}

/// A decimal number: `int_bytes` (two's complement, little-endian) divided by
/// ten to the power `scale`.
#[derive(Debug, Clone)]
pub struct Decimal {
    pub int_bytes: Vec<u8>,
    pub scale: i64,
}

impl View for Decimal {
    type V = (int, int);

    open spec fn view(&self) -> (int, int) {
        (signed_le(self.int_bytes@), self.scale as int)
    }
}

/// Relies on `BigInt::from(i128)` and `BigInt::to_signed_bytes_le`: the bytes
/// are the two's-complement form of the integer.
#[verifier::external_body]
fn decimal_from_int(v: i128, scale: i64) -> (r: Decimal)
    ensures
        r@ == (v as int, scale as int),
{
    Decimal { int_bytes: BigInt::from(v).to_signed_bytes_le(), scale }
}

/// Relies on `BigDecimal + BigDecimal`: the exact sum, with the larger scale.
#[verifier::external_body]
fn decimal_add(a: &Decimal, b: &Decimal) -> (r: Decimal)
    ensures
        r@ == sum_of(a@, b@),
{
    let x = BigDecimal::new(BigInt::from_signed_bytes_le(&a.int_bytes), a.scale);
    let y = BigDecimal::new(BigInt::from_signed_bytes_le(&b.int_bytes), b.scale);
    let (i, scale) = (x + y).into_bigint_and_exponent();
    Decimal { int_bytes: i.to_signed_bytes_le(), scale }
}

/// Relies on `BigDecimal - BigDecimal`: the exact difference, written with
/// the scale of one of the operands.
#[verifier::external_body]
fn decimal_sub(a: &Decimal, b: &Decimal) -> (r: Decimal)
    ensures
        same_amount(r@, difference_of(a@, b@)),
        r@.1 == a@.1 || r@.1 == b@.1,
{
    let x = BigDecimal::new(BigInt::from_signed_bytes_le(&a.int_bytes), a.scale);
    let y = BigDecimal::new(BigInt::from_signed_bytes_le(&b.int_bytes), b.scale);
    let (i, scale) = (x - y).into_bigint_and_exponent();
    Decimal { int_bytes: i.to_signed_bytes_le(), scale }
}

/// Relies on `BigDecimal * BigDecimal::from(i32)`: the exact product, with
/// the scale of `a`, or scale zero where `a` is one.
#[verifier::external_body]
fn decimal_mul(a: &Decimal, f: i32) -> (r: Decimal)
    ensures
        same_amount(r@, product_of(a@, f as int)),
        r@.1 == a@.1 || r@.1 == 0,
{
    let x = BigDecimal::new(BigInt::from_signed_bytes_le(&a.int_bytes), a.scale);
    let (i, scale) = (x * BigDecimal::from(f)).into_bigint_and_exponent();
    Decimal { int_bytes: i.to_signed_bytes_le(), scale }
}

/// Relies on `BigDecimal == BigDecimal`, which compares the numbers, not
/// their scales.
#[verifier::external_body]
fn decimal_eq(a: &Decimal, b: &Decimal) -> (r: bool)
    ensures
        r == same_amount(a@, b@),
{
    let x = BigDecimal::new(BigInt::from_signed_bytes_le(&a.int_bytes), a.scale);
    let y = BigDecimal::new(BigInt::from_signed_bytes_le(&b.int_bytes), b.scale);
    x == y
}

/// Relies on `BigDecimal::with_scale` to a larger scale: the same number,
/// its integer multiplied by the power of ten that makes up the difference.
#[verifier::external_body]
fn decimal_rescale(a: &Decimal, new_scale: i64) -> (r: Decimal)
    requires
        a@.1 <= new_scale,
        new_scale - a@.1 <= i64::MAX,
    ensures
        r@ == (at_scale(a@, new_scale as int), new_scale as int),
{
    let x = BigDecimal::new(BigInt::from_signed_bytes_le(&a.int_bytes), a.scale);
    let (i, scale) = x.with_scale(new_scale).into_bigint_and_exponent();
    Decimal { int_bytes: i.to_signed_bytes_le(), scale }
}

/// Relies on `BigDecimal`'s `Display` with precision two: for a scale of zero
/// or more, the number rounded half to even to two places. This is the
/// default rounding mode of a build that does not set
/// `RUST_BIGDECIMAL_DEFAULT_ROUNDING_MODE`.
#[verifier::external_body]
fn decimal_text(a: &Decimal) -> (r: String)
    ensures
        a@.1 >= 0 ==> r@ == two_place_text(a@),
{
    format!("{:.2}", BigDecimal::new(BigInt::from_signed_bytes_le(&a.int_bytes), a.scale))
}

/// Writing a decimal with two places first does not change its text.
proof fn lemma_two_place_text_rescaled(d: (int, int))
    requires
        d.1 < 2,
    ensures
        two_place_text((at_scale(d, 2), 2int)) == two_place_text(d),
{
    let p = pow10((2 - d.1) as nat);
    lemma_pow10_positive((2 - d.1) as nat);
    let v = d.0;
    assert((2 - 2int) as nat == 0);
    lemma_times_pow10_zero(abs(v * p) as int);
    assert(v < 0 <==> v * p < 0) by (nonlinear_arith)
        requires
            p > 0,
    ;
    assert(abs(v * p) == abs(v) * p) by (nonlinear_arith)
        requires
            p > 0,
            abs(v * p) == if v * p < 0 {
                -(v * p)
            } else {
                v * p
            },
            abs(v) == if v < 0 {
                -v
            } else {
                v
            },
    ;
}

/// An amount of money: an exact decimal, never rounded by arithmetic.
#[derive(Debug, Clone)]
pub struct Money {
    amount: Decimal,
}

impl View for Money {
    type V = (int, int);

    closed spec fn view(&self) -> (int, int) {
        self.amount@
    }
}

/// The unsigned value of `n` bytes is below `256^n`.
proof fn lemma_unsigned_le_bound(b: Seq<u8>)
    ensures
        unsigned_le(b) < pow256(b.len()),
    decreases b.len(),
{
    if b.len() > 0 {
        let n = (b.len() - 1) as nat;
        lemma_unsigned_le_bound(b.drop_last());
        assert(b.last() as nat * pow256(n) <= 255 * pow256(n)) by (nonlinear_arith)
            requires
                b.last() <= 255,
        ;
    }
}

impl Money {
    /// Wraps a decimal as it is.
    pub fn new(amount: Decimal) -> (r: Money)
        ensures
            r@ == amount@,
    {
        Money { amount }
    }

    /// The amount of `units * 100 + cents` hundredths, with scale two. A
    /// negative `units` with positive `cents` therefore comes closer to zero:
    /// `(-1, 50)` is `-0.50`.
    pub fn from_parts(units: i64, cents: i64) -> (r: Money)
        ensures
            r@ == (units * 100 + cents, 2int),
    {
        let total: i128 = units as i128 * 100 + cents as i128;
        Money { amount: decimal_from_int(total, 2) }
    }

    /// Takes the outcome of converting an outside number (a float, say) to a
    /// decimal: `None` where that number has no decimal form.
    pub fn try_new(amount: Option<Decimal>) -> (r: Result<Money, DomainError>)
        ensures
            match amount {
                Some(d) => r matches Ok(m) && m@ == d@,
                None => r matches Err(DomainError::InvalidMoneyValue),
            },
    {
        match amount {
            Some(d) => Ok(Money { amount: d }),
            None => Err(DomainError::InvalidMoneyValue),
        }
    }

    /// Nothing: zero with scale zero.
    pub fn zero() -> (r: Money)
        ensures
            r@ == (0int, 0int),
    {
        Money { amount: Decimal { int_bytes: Vec::new(), scale: 0 } }
    }

    /// Whether the amount is not negative. Zero counts: this holds of
    /// `zero()`, so a zero amount passes wherever a positive one does.
    pub fn is_greater_than_zero(&self) -> (r: bool)
        ensures
            r == (self@.0 >= 0),
    {
        let n = self.amount.int_bytes.len();
        if n == 0 {
            true
        } else {
            proof {
                lemma_unsigned_le_bound(self.amount.int_bytes@);
            }
            self.amount.int_bytes[n - 1] < 128
        }
    }

    /// The decimal itself.
    pub fn value(self) -> (r: Decimal)
        ensures
            r@ == self@,
    {
        self.amount
    }

    /// The exact sum, with the larger of the two scales.
    pub fn add(self, other: Money) -> (r: Money)
        ensures
            r@ == sum_of(self@, other@),
    {
        Money { amount: decimal_add(&self.amount, &other.amount) }
    }

    /// The exact difference, with the scale of one of the two.
    pub fn sub(self, other: Money) -> (r: Money)
        ensures
            same_amount(r@, difference_of(self@, other@)),
            r@.1 == self@.1 || r@.1 == other@.1,
    {
        Money { amount: decimal_sub(&self.amount, &other.amount) }
    }

    /// The exact product with an integer factor.
    pub fn mul(self, factor: i32) -> (r: Money)
        ensures
            same_amount(r@, product_of(self@, factor as int)),
            r@.1 == self@.1 || r@.1 == 0,
    {
        Money { amount: decimal_mul(&self.amount, factor) }
    }

    /// The amount with exactly two digits after the point, rounded half to
    /// even, whatever its scale; the stored amount is left as it is.
    pub fn display(&self) -> (r: String)
        ensures
            r@ == two_place_text(self@),
    {
        if self.amount.scale >= 2 {
            decimal_text(&self.amount)
        } else if self.amount.scale > i64::MIN + 2 {
            let d = decimal_rescale(&self.amount, 2);
            proof {
                lemma_two_place_text_rescaled(self@);
            }
            decimal_text(&d)
        } else {
            // a single step from here would overflow the scale difference
            let e = decimal_rescale(&self.amount, -1);
            let d = decimal_rescale(&e, 2);
            proof {
                lemma_at_scale_lift(self@, -1, 2);
                lemma_two_place_text_rescaled(self@);
            }
            decimal_text(&d)
        }
    }
}

impl core::ops::Add for Money {
    type Output = Money;

    /// `a + b`, as `Money::add`.
    fn add(self, other: Money) -> (r: Money)
        ensures
            r@ == sum_of(self@, other@),
    {
        Money::add(self, other)
    }
}

impl vstd::std_specs::ops::AddSpecImpl for Money {
    /// The bytes of a sum are not fixed by the operands' values, so `+` is
    /// described by the `ensures` of `add` instead.
    open spec fn obeys_add_spec() -> bool {
        false
    }

    open spec fn add_req(self, other: Money) -> bool {
        true
    }

    open spec fn add_spec(self, other: Money) -> Money {
        self
    }
}

impl core::ops::Sub for Money {
    type Output = Money;

    /// `a - b`, as `Money::sub`.
    fn sub(self, other: Money) -> (r: Money)
        ensures
            same_amount(r@, difference_of(self@, other@)),
            r@.1 == self@.1 || r@.1 == other@.1,
    {
        Money::sub(self, other)
    }
}

impl vstd::std_specs::ops::SubSpecImpl for Money {
    /// Described by the `ensures` of `sub`, as for `+`.
    open spec fn obeys_sub_spec() -> bool {
        false
    }

    open spec fn sub_req(self, other: Money) -> bool {
        true
    }

    open spec fn sub_spec(self, other: Money) -> Money {
        self
    }
}

impl core::ops::Mul<i32> for Money {
    type Output = Money;

    /// `a * factor`, as `Money::mul`.
    fn mul(self, factor: i32) -> (r: Money)
        ensures
            same_amount(r@, product_of(self@, factor as int)),
            r@.1 == self@.1 || r@.1 == 0,
    {
        Money::mul(self, factor)
    }
}

impl vstd::std_specs::ops::MulSpecImpl<i32> for Money {
    /// Described by the `ensures` of `mul`, as for `+`.
    open spec fn obeys_mul_spec() -> bool {
        false
    }

    open spec fn mul_req(self, factor: i32) -> bool {
        true
    }

    open spec fn mul_spec(self, factor: i32) -> Money {
        self
    }
}

impl Default for Money {
    /// Zero, as `zero()`.
    fn default() -> (r: Money)
        ensures
            r@ == (0int, 0int),
    {
        Money::zero()
    }
}

impl PartialEq for Money {
    /// Equal amounts are equal whatever their scales.
    fn eq(&self, other: &Money) -> (r: bool) {
        decimal_eq(&self.amount, &other.amount)
    }
}

impl vstd::std_specs::cmp::PartialEqSpecImpl for Money {
    open spec fn obeys_eq_spec() -> bool {
        true
    }

    open spec fn eq_spec(&self, other: &Money) -> bool {
        same_amount(self@, other@)
    }
}

proof fn lemma_pow10_add(m: nat, n: nat)
    ensures
        pow10(m + n) == pow10(m) * pow10(n),
    decreases n,
{
    if n == 0 {
        assert(m + n == m);
        lemma_times_pow10_zero(pow10(m) as int);
    } else {
        lemma_pow10_add(m, (n - 1) as nat);
        assert((m + n - 1) as nat == m + (n - 1) as nat);
        let a = pow10(m);
        let b = pow10((n - 1) as nat);
        assert(pow10(m + n) == 10 * (a * b));
        assert(pow10(n) == 10 * b);
        assert(a * (10 * b) == 10 * (a * b)) by (nonlinear_arith);
    }
}

proof fn lemma_times_pow10_zero(x: int)
    ensures
        x * pow10(0) == x,
{
    assert(pow10(0) == 1);
    assert(x * pow10(0) == x) by (nonlinear_arith)
        requires
            pow10(0) == 1,
    ;
}

/// A decimal written at its own scale is its integer.
proof fn lemma_at_own_scale(d: (int, int))
    ensures
        at_scale(d, d.1) == d.0,
{
    assert((d.1 - d.1) as nat == 0);
    lemma_times_pow10_zero(d.0);
}

proof fn lemma_pow10_positive(n: nat)
    ensures
        pow10(n) > 0,
    decreases n,
{
    if n > 0 {
        lemma_pow10_positive((n - 1) as nat);
    }
}

/// Writing a decimal with more digits multiplies by the matching power of ten.
proof fn lemma_at_scale_lift(d: (int, int), k1: int, k2: int)
    requires
        d.1 <= k1 <= k2,
    ensures
        at_scale(d, k2) == at_scale(d, k1) * pow10((k2 - k1) as nat),
{
    lemma_pow10_add((k1 - d.1) as nat, (k2 - k1) as nat);
    assert(((k1 - d.1) as nat + (k2 - k1) as nat) as nat == (k2 - d.1) as nat);
    let p = pow10((k1 - d.1) as nat);
    let q = pow10((k2 - k1) as nat);
    assert(d.0 * (p * q) == (d.0 * p) * q) by (nonlinear_arith);
}

/// Two decimals for the same number agree at every scale that fits both.
pub proof fn same_amount_at(a: (int, int), b: (int, int), k: int)
    requires
        same_amount(a, b),
        k >= a.1,
        k >= b.1,
    ensures
        at_scale(a, k) == at_scale(b, k),
{
    let m = max_scale(a, b);
    lemma_at_scale_lift(a, m, k);
    lemma_at_scale_lift(b, m, k);
}

/// Conversely, agreeing at one such scale is being the same number.
pub proof fn same_amount_from(a: (int, int), b: (int, int), k: int)
    requires
        k >= a.1,
        k >= b.1,
        at_scale(a, k) == at_scale(b, k),
    ensures
        same_amount(a, b),
{
    let m = max_scale(a, b);
    lemma_at_scale_lift(a, m, k);
    lemma_at_scale_lift(b, m, k);
    let p = pow10((k - m) as nat);
    lemma_pow10_positive((k - m) as nat);
    let x = at_scale(a, m);
    let y = at_scale(b, m);
    assert(x == y) by (nonlinear_arith)
        requires
            x * p == y * p,
            p > 0,
    ;
}

/// Being the same number is an equivalence.
pub proof fn same_amount_is_equivalence(a: (int, int), b: (int, int), c: (int, int))
    ensures
        same_amount(a, a),
        same_amount(a, b) ==> same_amount(b, a),
        same_amount(a, b) && same_amount(b, c) ==> same_amount(a, c),
{
    if same_amount(a, b) && same_amount(b, c) {
        let k = vstd::math::max(max_scale(a, b), c.1);
        same_amount_at(a, b, k);
        same_amount_at(b, c, k);
        same_amount_from(a, c, k);
    }
}

/// Sums, differences and products of the same numbers are the same number.
pub proof fn same_amount_congruence(a: (int, int), a2: (int, int), b: (int, int), b2: (int, int), f: int)
    requires
        same_amount(a, a2),
        same_amount(b, b2),
    ensures
        same_amount(sum_of(a, b), sum_of(a2, b2)),
        same_amount(difference_of(a, b), difference_of(a2, b2)),
        same_amount(product_of(a, f), product_of(a2, f)),
{
    let k = vstd::math::max(max_scale(a, b), max_scale(a2, b2));
    let s = sum_of(a, b);
    let s2 = sum_of(a2, b2);
    same_amount_at(a, a2, k);
    same_amount_at(b, b2, k);
    lemma_at_scale_lift(a, s.1, k);
    lemma_at_scale_lift(b, s.1, k);
    lemma_at_scale_lift(a2, s2.1, k);
    lemma_at_scale_lift(b2, s2.1, k);
    lemma_at_scale_lift(s, s.1, k);
    lemma_at_scale_lift(s2, s2.1, k);
    let p = pow10((k - s.1) as nat);
    let p2 = pow10((k - s2.1) as nat);
    lemma_at_own_scale(s);
    lemma_at_own_scale(s2);
    let x = at_scale(a, s.1);
    let y = at_scale(b, s.1);
    let x2 = at_scale(a2, s2.1);
    let y2 = at_scale(b2, s2.1);
    assert((x + y) * p == x * p + y * p) by (nonlinear_arith);
    assert((x - y) * p == x * p - y * p) by (nonlinear_arith);
    assert((x2 + y2) * p2 == x2 * p2 + y2 * p2) by (nonlinear_arith);
    assert((x2 - y2) * p2 == x2 * p2 - y2 * p2) by (nonlinear_arith);
    same_amount_from(s, s2, k);
    let d = difference_of(a, b);
    let d2 = difference_of(a2, b2);
    lemma_at_scale_lift(d, d.1, k);
    lemma_at_scale_lift(d2, d2.1, k);
    lemma_at_own_scale(d);
    lemma_at_own_scale(d2);
    same_amount_from(d, d2, k);
    let ka = max_scale(a, a2);
    same_amount_at(a, a2, ka);
    let pa = pow10((ka - a.1) as nat);
    let pa2 = pow10((ka - a2.1) as nat);
    assert((a.0 * f) * pa == (a.0 * pa) * f) by (nonlinear_arith);
    assert((a2.0 * f) * pa2 == (a2.0 * pa2) * f) by (nonlinear_arith);
}

/// Subtracting what was added gives the amount back: `(a + b) - b` is `a`.
pub proof fn add_then_subtract(a: Money, b: Money)
    ensures
        same_amount(difference_of(sum_of(a@, b@), b@), a@),
{
    let s = sum_of(a@, b@);
    let k = s.1;
    lemma_at_own_scale(s);
    let d = difference_of(s, b@);
    assert(d.0 == at_scale(a@, k));
    lemma_at_own_scale(d);
}

/// Multiplying by an integer distributes over addition:
/// `(a + b) * f` is `a * f + b * f`.
pub proof fn multiply_distributes(a: Money, b: Money, f: int)
    ensures
        same_amount(product_of(sum_of(a@, b@), f), sum_of(product_of(a@, f), product_of(b@, f))),
{
    let k = max_scale(a@, b@);
    let pa = pow10((k - a@.1) as nat);
    let pb = pow10((k - b@.1) as nat);
    assert(pow10(0) == 1);
    let l = product_of(sum_of(a@, b@), f);
    let r = sum_of(product_of(a@, f), product_of(b@, f));
    assert((a@.0 * pa + b@.0 * pb) * f == (a@.0 * f) * pa + (b@.0 * f) * pb) by (nonlinear_arith);
    lemma_at_own_scale(l);
    lemma_at_own_scale(r);
}

/// `from_parts(u, c)` reads `u.cc` for `0 <= c < 100`, where `u` is not
/// negative or `c` is zero.
pub proof fn parts_text(u: int, c: int)
    requires
        0 <= c < 100,
        u >= 0 || c == 0,
    ensures
        two_place_text((u * 100 + c, 2int)) == (if u < 0 {
            seq!['-']
        } else {
            Seq::<char>::empty()
        }) + nat_text(abs(u)) + seq!['.', digit_char(c / 10), digit_char(c % 10)],
{
    let n = abs(u * 100 + c);
    assert((2 - 2int) as nat == 0);
    lemma_times_pow10_zero(n as int);
    assert(rounded_hundredths(n, 2) == n);
    assert(n == abs(u) * 100 + c);
    lemma_fundamental_div_mod_converse(n as int, 100, abs(u) as int, c);
    lemma_fundamental_div_mod_converse(c, 10, c / 10, c % 10);
    lemma_fundamental_div_mod_converse(n as int, 10, abs(u) * 10 + c / 10, c % 10);
}

} // verus!
