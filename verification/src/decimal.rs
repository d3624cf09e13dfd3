//! Exact decimal amounts (money, quantities, rates, percentages) backed by
//! `rust_decimal::Decimal`.
use vstd::prelude::*;
use rust_decimal::Decimal;

verus! {

/// The abstract value of a decimal: `mantissa / 10^scale`.
pub struct DecView {
    pub mantissa: int,
    pub scale: nat,
}

/// A decimal number `mantissa / 10^scale` with a 96-bit magnitude and a
/// scale of at most 28, the numbers `rust_decimal::Decimal` represents.
#[derive(Clone, Copy, Debug)]
pub struct Dec {
    mantissa: i128,
    scale: u32,
}

impl Dec {
    /// The abstract value of this decimal.
    pub closed spec fn value(self) -> DecView {
        DecView { mantissa: self.mantissa as int, scale: self.scale as nat }
    }

    #[verifier::type_invariant]
    spec fn inv(self) -> bool {
        representable(self.mantissa as int, self.scale as int)
    }

    /// Every `Dec` is a value `rust_decimal` represents.
    pub fn valid(&self)
        ensures
            self@.wf(),
    {
        proof {
            use_type_invariant(self);
        }
    }
}

impl View for Dec {
    type V = DecView;

    open spec fn view(&self) -> DecView {
        self.value()
    }
}

/// The largest magnitude of a mantissa: `2^96 - 1`.
pub const MAX_MANTISSA: i128 = 79228162514264337593543950335i128;

/// The largest scale: 28 decimal places.
pub const MAX_SCALE: u32 = 28u32;

/// `m / 10^s` is a value `rust_decimal` represents.
pub open spec fn representable(m: int, s: int) -> bool {
    -MAX_MANTISSA <= m <= MAX_MANTISSA && 0 <= s <= MAX_SCALE
}

impl DecView {
    /// The value is one `rust_decimal` represents.
    pub open spec fn wf(self) -> bool {
        representable(self.mantissa, self.scale as int)
    }
}


/// `10^n`.
pub open spec fn pow10(n: nat) -> int
    decreases n,
{
    if n == 0 {
        1
    } else {
        10 * pow10((n - 1) as nat)
    }
}

/// `m` fits a 96-bit magnitude.
pub open spec fn fits(m: int) -> bool {
    -MAX_MANTISSA <= m <= MAX_MANTISSA
}

/// The mantissa of `d` rewritten at scale `s` (for `s >= d.scale`).
pub open spec fn aligned(d: DecView, s: nat) -> int {
    d.mantissa * pow10((s - d.scale) as nat)
}

/// The larger of the two scales.
pub open spec fn max_scale(a: DecView, b: DecView) -> nat {
    if a.scale >= b.scale {
        a.scale
    } else {
        b.scale
    }
}

/// `a + b` is computed without loss: both operands and the sum fit at the
/// larger scale (or an operand is zero).
pub open spec fn sum_fits(a: DecView, b: DecView) -> bool {
    a.mantissa == 0 || b.mantissa == 0 || {
        let s = max_scale(a, b);
        fits(aligned(a, s)) && fits(aligned(b, s)) && fits(aligned(a, s) + aligned(b, s))
    }
}

/// The representation `rust_decimal` gives `a + b` when it is computed
/// without loss: a zero operand yields the other operand; otherwise the sum
/// at the larger scale.
pub open spec fn sum_exact(a: DecView, b: DecView) -> DecView {
    if a.mantissa == 0 {
        b
    } else if b.mantissa == 0 {
        a
    } else {
        let s = max_scale(a, b);
        DecView { mantissa: aligned(a, s) + aligned(b, s), scale: s }
    }
}

/// `a - b` is computed without loss.
pub open spec fn diff_fits(a: DecView, b: DecView) -> bool {
    a.mantissa == 0 || b.mantissa == 0 || {
        let s = max_scale(a, b);
        fits(aligned(a, s)) && fits(aligned(b, s)) && fits(aligned(a, s) - aligned(b, s))
    }
}

/// The representation `rust_decimal` gives `a - b` when it is computed
/// without loss: `0 - b` is `b` negated, `a - 0` is `a`; otherwise the
/// difference at the larger scale.
pub open spec fn diff_exact(a: DecView, b: DecView) -> DecView {
    if a.mantissa == 0 {
        DecView { mantissa: -b.mantissa, scale: b.scale }
    } else if b.mantissa == 0 {
        a
    } else {
        let s = max_scale(a, b);
        DecView { mantissa: aligned(a, s) - aligned(b, s), scale: s }
    }
}

/// `a * b` is computed without loss: the product of the mantissas fits and
/// the scales add up to at most 28 (or an operand is zero).
pub open spec fn prod_fits(a: DecView, b: DecView) -> bool {
    a.mantissa == 0 || b.mantissa == 0 || (fits(a.mantissa * b.mantissa) && a.scale + b.scale <= MAX_SCALE)
}

/// The representation `rust_decimal` gives `a * b` when it is computed
/// without loss: zero (at scale 0) when an operand is zero, otherwise the
/// product of the mantissas at the sum of the scales.
pub open spec fn prod_exact(a: DecView, b: DecView) -> DecView {
    if a.mantissa == 0 || b.mantissa == 0 {
        DecView { mantissa: 0, scale: 0 }
    } else {
        DecView { mantissa: a.mantissa * b.mantissa, scale: a.scale + b.scale }
    }
}

/// The value in units of `10^-28`, a common scale for every decimal.
pub open spec fn units(d: DecView) -> int {
    d.mantissa * pow10((MAX_SCALE - d.scale) as nat)
}

/// What `rust_decimal::Decimal::checked_div` returns for `a / b`, by value.
pub uninterp spec fn decimal_quotient(a: DecView, b: DecView) -> Option<DecView>;

/// What `rust_decimal::Decimal::checked_mul` returns for `a * b` (rounded
/// to at most 28 places; none on overflow).
pub uninterp spec fn decimal_product(a: DecView, b: DecView) -> Option<DecView>;

/// What `rust_decimal::Decimal::checked_add` returns for `a + b`.
pub uninterp spec fn decimal_sum(a: DecView, b: DecView) -> Option<DecView>;

/// What `rust_decimal::Decimal::checked_sub` returns for `a - b`.
pub uninterp spec fn decimal_difference(a: DecView, b: DecView) -> Option<DecView>;

/// The value of an optional decimal.
pub open spec fn view_of(r: Option<Dec>) -> Option<DecView> {
    match r {
        Some(x) => Some(x@),
        None => None,
    }
}

/// Calls `Decimal::checked_add`. Claims: the result is the value named
/// `decimal_sum(a, b)`; when the sum is computed without loss (`sum_fits`),
/// it is `Some` of `sum_exact`. How `rust_decimal` rounds otherwise is not
/// restated.
#[verifier::external_body]
fn rd_checked_add(a: &Dec, b: &Dec) -> (r: Option<Dec>)
    ensures
        view_of(r) == decimal_sum(a@, b@),
        sum_fits(a@, b@) ==> r is Some && r.unwrap()@ == sum_exact(a@, b@),
{
    let x = Decimal::from_i128_with_scale(a.mantissa, a.scale);
    let y = Decimal::from_i128_with_scale(b.mantissa, b.scale);
    match x.checked_add(y) {
        Some(z) => Some(Dec { mantissa: z.mantissa(), scale: z.scale() }),
        None => None,
    }
}

/// Calls `Decimal::checked_sub`. Claims: the result is the value named
/// `decimal_difference(a, b)`; when the difference is computed without loss
/// (`diff_fits`), it is `Some` of `diff_exact`. How `rust_decimal` rounds
/// otherwise is not restated.
#[verifier::external_body]
fn rd_checked_sub(a: &Dec, b: &Dec) -> (r: Option<Dec>)
    ensures
        view_of(r) == decimal_difference(a@, b@),
        diff_fits(a@, b@) ==> r is Some && r.unwrap()@ == diff_exact(a@, b@),
{
    let x = Decimal::from_i128_with_scale(a.mantissa, a.scale);
    let y = Decimal::from_i128_with_scale(b.mantissa, b.scale);
    match x.checked_sub(y) {
        Some(z) => Some(Dec { mantissa: z.mantissa(), scale: z.scale() }),
        None => None,
    }
}

/// Calls `Decimal::checked_mul`. Claims: the result is the value named
/// `decimal_product(a, b)`; when the product is computed without loss
/// (`prod_fits`), it is `Some` of `prod_exact`. How `rust_decimal` rounds
/// otherwise is not restated.
#[verifier::external_body]
fn rd_checked_mul(a: &Dec, b: &Dec) -> (r: Option<Dec>)
    ensures
        view_of(r) == decimal_product(a@, b@),
        prod_fits(a@, b@) ==> r is Some && r.unwrap()@ == prod_exact(a@, b@),
{
    let x = Decimal::from_i128_with_scale(a.mantissa, a.scale);
    let y = Decimal::from_i128_with_scale(b.mantissa, b.scale);
    match x.checked_mul(y) {
        Some(z) => Some(Dec { mantissa: z.mantissa(), scale: z.scale() }),
        None => None,
    }
}

/// Calls `Decimal::checked_div`. Claims: the result is the value named
/// `decimal_quotient(a, b)`, and there is none when `b` is zero. How
/// `rust_decimal` rounds a quotient that has no exact representation is not
/// restated.
#[verifier::external_body]
fn rd_checked_div(a: &Dec, b: &Dec) -> (r: Option<Dec>)
    ensures
        match r {
            Some(x) => decimal_quotient(a@, b@) == Some(x@),
            None => decimal_quotient(a@, b@) == None::<DecView>,
        },
        b@.mantissa == 0 ==> r is None,
{
    let x = Decimal::from_i128_with_scale(a.mantissa, a.scale);
    let y = Decimal::from_i128_with_scale(b.mantissa, b.scale);
    match x.checked_div(y) {
        Some(z) => Some(Dec { mantissa: z.mantissa(), scale: z.scale() }),
        None => None,
    }
}

/// Calls `<` on two `Decimal`s. Claims that it compares by value.
#[verifier::external_body]
fn rd_lt(a: &Dec, b: &Dec) -> (r: bool)
    ensures
        r == (units(a@) < units(b@)),
{
    let x = Decimal::from_i128_with_scale(a.mantissa, a.scale);
    let y = Decimal::from_i128_with_scale(b.mantissa, b.scale);
    x < y
}

/// Calls `Neg` on a `Decimal`. Claims that it negates the mantissa and keeps
/// the scale.
#[verifier::external_body]
fn rd_neg(a: &Dec) -> (r: Dec)
    ensures
        r@ == (DecView { mantissa: -a@.mantissa, scale: a@.scale }),
{
    let z = -Decimal::from_i128_with_scale(a.mantissa, a.scale);
    Dec { mantissa: z.mantissa(), scale: z.scale() }
}

pub proof fn lemma_pow10_pos(n: nat)
    ensures
        pow10(n) >= 1,
    decreases n,
{
    if n > 0 {
        lemma_pow10_pos((n - 1) as nat);
    }
}

/// `10^(a+b) = 10^a * 10^b`.
pub proof fn lemma_pow10_add(a: nat, b: nat)
    ensures
        pow10(a + b) == pow10(a) * pow10(b),
    decreases b,
{
    if b > 0 {
        lemma_pow10_add(a, (b - 1) as nat);
        assert(pow10(a + b) == 10 * pow10((a + b - 1) as nat));
        assert(pow10(a) * pow10(b) == pow10(a) * (10 * pow10((b - 1) as nat)));
        assert(pow10(a) * (10 * pow10((b - 1) as nat)) == 10 * (pow10(a) * pow10((b - 1) as nat))) by (nonlinear_arith);
    }
}

proof fn lemma_scaled_grows(m: int, i: nat)
    ensures
        m * pow10(i + 1) == 10 * (m * pow10(i)),
        (m >= 0 ==> m * pow10(i + 1) >= m * pow10(i)),
        (m <= 0 ==> m * pow10(i + 1) <= m * pow10(i)),
{
    lemma_pow10_pos(i);
    assert(pow10(i + 1) == 10 * pow10(i));
    assert(m * (10 * pow10(i)) == 10 * (m * pow10(i))) by (nonlinear_arith);
    assert(m >= 0 ==> m * pow10(i) >= 0) by (nonlinear_arith)
        requires
            pow10(i) >= 1,
    ;
    assert(m <= 0 ==> m * pow10(i) <= 0) by (nonlinear_arith)
        requires
            pow10(i) >= 1,
    ;
}

proof fn lemma_scaled_monotone(m: int, i: nat, k: nat)
    requires
        i <= k,
    ensures
        (m >= 0 ==> m * pow10(k) >= m * pow10(i)),
        (m <= 0 ==> m * pow10(k) <= m * pow10(i)),
    decreases k - i,
{
    if i < k {
        lemma_scaled_monotone(m, i, (k - 1) as nat);
        lemma_scaled_grows(m, (k - 1) as nat);
    }
}

/// `m * 10^k` when that fits 96 bits.
fn scale_up(m: i128, k: u32) -> (r: Option<i128>)
    requires
        fits(m as int),
    ensures
        r == (if fits(m * pow10(k as nat)) {
            Some((m * pow10(k as nat)) as i128)
        } else {
            None::<i128>
        }),
{
    let mut acc: i128 = m;
    let mut i: u32 = 0;
    while i < k
        invariant
            i <= k,
            fits(m as int),
            acc == m * pow10(i as nat),
            fits(acc as int),
        decreases k - i,
    {
        proof {
            lemma_scaled_grows(m as int, i as nat);
        }
        let next = acc * 10;
        if next > MAX_MANTISSA || next < -MAX_MANTISSA {
            proof {
                lemma_scaled_monotone(m as int, (i + 1) as nat, k as nat);
            }
            return None;
        }
        acc = next;
        i = i + 1;
    }
    Some(acc)
}

impl Dec {
    /// The decimal `mantissa / 10^scale`, if `rust_decimal` represents it.
    pub fn new(mantissa: i128, scale: u32) -> (r: Option<Dec>)
        ensures
            r is Some <==> representable(mantissa as int, scale as int),
            r matches Some(d) ==> d@ == (DecView { mantissa: mantissa as int, scale: scale as nat }),
    {
        if -MAX_MANTISSA <= mantissa && mantissa <= MAX_MANTISSA && scale <= MAX_SCALE {
            Some(Dec { mantissa, scale })
        } else {
            None
        }
    }

    /// The whole number `n`.
    pub fn from_int(n: i64) -> (r: Dec)
        ensures
            r@ == (DecView { mantissa: n as int, scale: 0 }),
    {
        Dec { mantissa: n as i128, scale: 0 }
    }

    /// Zero (at scale 0).
    pub fn zero() -> (r: Dec)
        ensures
            r@ == (DecView { mantissa: 0, scale: 0 }),
    {
        Dec { mantissa: 0, scale: 0 }
    }

    /// The mantissa.
    pub fn mantissa(&self) -> (r: i128)
        ensures
            r == self@.mantissa,
    {
        self.mantissa
    }

    /// The scale (number of decimal places).
    pub fn scale(&self) -> (r: u32)
        ensures
            r == self@.scale,
    {
        self.scale
    }

    fn aligned_pair(&self, other: &Dec) -> (r: Option<(i128, i128, u32)>)
        ensures
            ({
                let s = max_scale(self@, other@);
                r == (if fits(aligned(self@, s)) && fits(aligned(other@, s)) {
                    Some((aligned(self@, s) as i128, aligned(other@, s) as i128, s as u32))
                } else {
                    None::<(i128, i128, u32)>
                })
            }),
    {
        proof {
            use_type_invariant(self);
            use_type_invariant(other);
        }
        let s = if self.scale >= other.scale {
            self.scale
        } else {
            other.scale
        };
        let a = scale_up(self.mantissa, s - self.scale);
        let b = scale_up(other.mantissa, s - other.scale);
        match (a, b) {
            (Some(x), Some(y)) => Some((x, y, s)),
            _ => None,
        }
    }

    /// `self + other`, when computed without loss; `None` otherwise.
    pub fn checked_add(&self, other: &Dec) -> (r: Option<Dec>)
        ensures
            r is Some <==> sum_fits(self@, other@),
            r matches Some(x) ==> x@ == sum_exact(self@, other@),
    {
        let ok = if self.mantissa == 0 || other.mantissa == 0 {
            true
        } else {
            match self.aligned_pair(other) {
                Some((x, y, _)) => {
                    let t = x + y;
                    -MAX_MANTISSA <= t && t <= MAX_MANTISSA
                },
                None => false,
            }
        };
        if ok {
            rd_checked_add(self, other)
        } else {
            None
        }
    }

    /// `self - other`, when computed without loss; `None` otherwise.
    pub fn checked_sub(&self, other: &Dec) -> (r: Option<Dec>)
        ensures
            r is Some <==> diff_fits(self@, other@),
            r matches Some(x) ==> x@ == diff_exact(self@, other@),
    {
        let ok = if self.mantissa == 0 || other.mantissa == 0 {
            true
        } else {
            match self.aligned_pair(other) {
                Some((x, y, _)) => {
                    let t = x - y;
                    -MAX_MANTISSA <= t && t <= MAX_MANTISSA
                },
                None => false,
            }
        };
        if ok {
            rd_checked_sub(self, other)
        } else {
            None
        }
    }

    /// `self * other`, when computed without loss; `None` otherwise.
    pub fn checked_mul(&self, other: &Dec) -> (r: Option<Dec>)
        ensures
            r is Some <==> prod_fits(self@, other@),
            r matches Some(x) ==> x@ == prod_exact(self@, other@),
    {
        proof {
            use_type_invariant(self);
            use_type_invariant(other);
        }
        let ok = if self.mantissa == 0 || other.mantissa == 0 {
            true
        } else if self.scale + other.scale > MAX_SCALE {
            false
        } else {
            match self.mantissa.checked_mul(other.mantissa) {
                Some(p) => -MAX_MANTISSA <= p && p <= MAX_MANTISSA,
                None => false,
            }
        };
        if ok {
            rd_checked_mul(self, other)
        } else {
            None
        }
    }

    /// `self + other` as `rust_decimal` computes it (rounded when the exact
    /// sum needs more than 96 bits); `None` on overflow.
    pub fn rounded_add(&self, other: &Dec) -> (r: Option<Dec>)
        ensures
            view_of(r) == decimal_sum(self@, other@),
            sum_fits(self@, other@) ==> r is Some && r.unwrap()@ == sum_exact(self@, other@),
    {
        rd_checked_add(self, other)
    }

    /// `self - other` as `rust_decimal` computes it; `None` on overflow.
    pub fn rounded_sub(&self, other: &Dec) -> (r: Option<Dec>)
        ensures
            view_of(r) == decimal_difference(self@, other@),
            diff_fits(self@, other@) ==> r is Some && r.unwrap()@ == diff_exact(self@, other@),
    {
        rd_checked_sub(self, other)
    }

    /// `self * other` as `rust_decimal` computes it (rounded to at most 28
    /// places); `None` on overflow.
    pub fn rounded_mul(&self, other: &Dec) -> (r: Option<Dec>)
        ensures
            view_of(r) == decimal_product(self@, other@),
            prod_fits(self@, other@) ==> r is Some && r.unwrap()@ == prod_exact(self@, other@),
    {
        rd_checked_mul(self, other)
    }

    /// `self / other` as `rust_decimal` computes it; `None` when `other` is
    /// zero or the quotient overflows.
    pub fn checked_div(&self, other: &Dec) -> (r: Option<Dec>)
        ensures
            match r {
                Some(x) => decimal_quotient(self@, other@) == Some(x@),
                None => decimal_quotient(self@, other@) == None::<DecView>,
            },
            other@.mantissa == 0 ==> r is None,
    {
        rd_checked_div(self, other)
    }

    /// `-self`.
    pub fn neg(&self) -> (r: Dec)
        ensures
            r@ == (DecView { mantissa: -self@.mantissa, scale: self@.scale }),
    {
        rd_neg(self)
    }

    /// Whether `self < other` by value.
    pub fn lt(&self, other: &Dec) -> (r: bool)
        ensures
            r == (units(self@) < units(other@)),
    {
        rd_lt(self, other)
    }

    /// Whether `self <= other` by value.
    pub fn le(&self, other: &Dec) -> (r: bool)
        ensures
            r == (units(self@) <= units(other@)),
    {
        !rd_lt(other, self)
    }
}


/// At any scale `s` between the value's own scale and 28, the aligned
/// mantissa measures the same value.
pub proof fn lemma_units_aligned(d: DecView, s: nat)
    requires
        d.scale <= s <= MAX_SCALE,
    ensures
        units(d) == aligned(d, s) * pow10((MAX_SCALE - s) as nat),
{
    lemma_pow10_add((s - d.scale) as nat, (MAX_SCALE - s) as nat);
    assert(((s - d.scale) as nat + (MAX_SCALE - s) as nat) as nat == (MAX_SCALE - d.scale) as nat);
    let p1 = pow10((s - d.scale) as nat);
    let p2 = pow10((MAX_SCALE - s) as nat);
    assert(d.mantissa * (p1 * p2) == (d.mantissa * p1) * p2) by (nonlinear_arith);
}

/// A sum computed without loss has the value of the sum.
pub proof fn lemma_units_sum(a: DecView, b: DecView)
    requires
        a.wf(),
        b.wf(),
        sum_fits(a, b),
    ensures
        units(sum_exact(a, b)) == units(a) + units(b),
{
    if a.mantissa == 0 {
        assert(units(a) == 0);
    } else if b.mantissa == 0 {
        assert(units(b) == 0);
    } else {
        let s = max_scale(a, b);
        lemma_units_aligned(a, s);
        lemma_units_aligned(b, s);
        let p = pow10((MAX_SCALE - s) as nat);
        let x = aligned(a, s);
        let y = aligned(b, s);
        assert((x + y) * p == x * p + y * p) by (nonlinear_arith);
    }
}

/// A difference computed without loss has the value of the difference.
pub proof fn lemma_units_diff(a: DecView, b: DecView)
    requires
        a.wf(),
        b.wf(),
        diff_fits(a, b),
    ensures
        units(diff_exact(a, b)) == units(a) - units(b),
{
    if a.mantissa == 0 {
        assert(units(a) == 0);
        let p = pow10((MAX_SCALE - b.scale) as nat);
        assert((-b.mantissa) * p == -(b.mantissa * p)) by (nonlinear_arith);
    } else if b.mantissa == 0 {
        assert(units(b) == 0);
    } else {
        let s = max_scale(a, b);
        lemma_units_aligned(a, s);
        lemma_units_aligned(b, s);
        let p = pow10((MAX_SCALE - s) as nat);
        let x = aligned(a, s);
        let y = aligned(b, s);
        assert((x - y) * p == x * p - y * p) by (nonlinear_arith);
    }
}

/// A product computed without loss has the value of the product (in units
/// of `10^-28`, the product carries an extra factor `10^28`).
pub proof fn lemma_units_prod(a: DecView, b: DecView)
    requires
        a.wf(),
        b.wf(),
        prod_fits(a, b),
    ensures
        units(prod_exact(a, b)) * pow10(MAX_SCALE as nat) == units(a) * units(b),
{
    if a.mantissa == 0 || b.mantissa == 0 {
        let z = DecView { mantissa: 0, scale: 0 };
        assert(prod_exact(a, b) == z);
        assert(units(z) == 0 * pow10(MAX_SCALE as nat));
        if a.mantissa == 0 {
            assert(units(a) == 0 * pow10((MAX_SCALE - a.scale) as nat));
        } else {
            assert(units(b) == 0 * pow10((MAX_SCALE - b.scale) as nat));
        }
        assert(units(a) * units(b) == 0) by (nonlinear_arith)
            requires
                units(a) == 0 || units(b) == 0,
        ;
    } else {
        let pa = pow10((MAX_SCALE - a.scale) as nat);
        let pb = pow10((MAX_SCALE - b.scale) as nat);
        let pab = pow10((MAX_SCALE - (a.scale + b.scale)) as nat);
        let p28 = pow10(MAX_SCALE as nat);
        lemma_pow10_add((MAX_SCALE - a.scale) as nat, (MAX_SCALE - b.scale) as nat);
        lemma_pow10_add((MAX_SCALE - (a.scale + b.scale)) as nat, MAX_SCALE as nat);
        assert(((MAX_SCALE - a.scale) as nat + (MAX_SCALE - b.scale) as nat) as nat == ((MAX_SCALE - (a.scale
            + b.scale)) as nat + MAX_SCALE as nat) as nat);
        assert(pa * pb == pab * p28);
        let ma = a.mantissa;
        let mb = b.mantissa;
        assert((ma * mb) * pab * p28 == (ma * pa) * (mb * pb)) by (nonlinear_arith)
            requires
                pa * pb == pab * p28,
        ;
        assert(prod_exact(a, b) == DecView { mantissa: ma * mb, scale: a.scale + b.scale });
        assert(units(prod_exact(a, b)) == (ma * mb) * pab);
        assert(units(a) == ma * pa);
        assert(units(b) == mb * pb);
    }
}

} // verus!
