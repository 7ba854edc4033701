//! Fixed-point decimal numbers.
//!
//! `Decimal` holds the same two plain values that a `rust_decimal::Decimal`
//! holds: a signed 96-bit mantissa and a scale between 0 and 28, for the value
//! `mantissa / 10^scale`. Arithmetic and comparison are carried out by
//! `rust_decimal` itself; the contracts below say what it returns.
//!
//! Results are described at the level of the representation `(mantissa, scale)`,
//! because the representation decides when later operations are exact. Where
//! `rust_decimal` has to round (a result that needs more than 96 bits or more
//! than 28 fractional digits) the outcome is given a name and nothing more is
//! claimed of it.
use vstd::arithmetic::mul::{
    lemma_mul_is_associative, lemma_mul_is_distributive_add, lemma_mul_unary_negation,
};
use vstd::prelude::*;

verus! {

/// Largest mantissa magnitude a decimal can hold: 2^96 - 1.
pub const MAX_MANTISSA: i128 = 0xFFFF_FFFF_FFFF_FFFF_FFFF_FFFF;

/// Largest scale (number of fractional digits) a decimal can hold.
pub const MAX_SCALE: u32 = 28;

/// 10^n.
pub open spec fn pow10(n: nat) -> int
    decreases n,
{
    if n == 0 {
        1
    } else {
        10 * pow10((n - 1) as nat)
    }
}

/// A (mantissa, scale) pair that a decimal can hold.
pub open spec fn valid_repr(p: (int, int)) -> bool {
    &&& -MAX_MANTISSA <= p.0 <= MAX_MANTISSA
    &&& 0 <= p.1 <= MAX_SCALE
}

/// The value of a representation, counted in units of 10^-28.
pub open spec fn units(p: (int, int)) -> int {
    p.0 * pow10((MAX_SCALE - p.1) as nat)
}

pub open spec fn max_scale_of(a: (int, int), b: (int, int)) -> int {
    if a.1 >= b.1 {
        a.1
    } else {
        b.1
    }
}

/// Mantissa of `a + b` when both are written with the larger of the two scales.
pub open spec fn aligned_sum(a: (int, int), b: (int, int)) -> int {
    let s = max_scale_of(a, b);
    a.0 * pow10((s - a.1) as nat) + b.0 * pow10((s - b.1) as nat)
}

/// Mantissa of `a - b` when both are written with the larger of the two scales.
pub open spec fn aligned_difference(a: (int, int), b: (int, int)) -> int {
    let s = max_scale_of(a, b);
    a.0 * pow10((s - a.1) as nat) - b.0 * pow10((s - b.1) as nat)
}

pub open spec fn fits_mantissa(m: int) -> bool {
    -MAX_MANTISSA <= m <= MAX_MANTISSA
}

/// What `rust_decimal::Decimal::checked_add` returns when it has to round
/// (or overflows), as a function of the two representations.
pub uninterp spec fn rounded_sum(a: (int, int), b: (int, int)) -> Option<(int, int)>;

/// What `rust_decimal::Decimal::checked_sub` returns when it has to round
/// (or overflows), as a function of the two representations.
pub uninterp spec fn rounded_difference(a: (int, int), b: (int, int)) -> Option<(int, int)>;

/// What `rust_decimal::Decimal::checked_mul` returns when it has to round
/// (or overflows), as a function of the two representations.
pub uninterp spec fn rounded_product(a: (int, int), b: (int, int)) -> Option<(int, int)>;

/// What `<rust_decimal::Decimal as FromStr>::from_str` makes of a string.
pub uninterp spec fn parsed_decimal(s: Seq<char>) -> Option<(int, int)>;

/// Whether `a + b` is computed without rounding: a zero operand is returned
/// as the other operand, and otherwise the sum at the larger scale fits.
pub open spec fn sum_is_exact(a: (int, int), b: (int, int)) -> bool {
    a.0 == 0 || b.0 == 0 || fits_mantissa(aligned_sum(a, b))
}

pub open spec fn difference_is_exact(a: (int, int), b: (int, int)) -> bool {
    a.0 == 0 || b.0 == 0 || fits_mantissa(aligned_difference(a, b))
}

pub open spec fn product_is_exact(a: (int, int), b: (int, int)) -> bool {
    a.0 == 0 || b.0 == 0 || (a.1 + b.1 <= MAX_SCALE && fits_mantissa(a.0 * b.0))
}

/// Representation of `a + b` as `rust_decimal` computes it (`None` on overflow).
pub open spec fn sum(a: (int, int), b: (int, int)) -> Option<(int, int)> {
    if a.0 == 0 {
        Some(b)
    } else if b.0 == 0 {
        Some(a)
    } else if fits_mantissa(aligned_sum(a, b)) {
        Some((aligned_sum(a, b), max_scale_of(a, b)))
    } else {
        rounded_sum(a, b)
    }
}

/// Representation of `a - b` as `rust_decimal` computes it (`None` on overflow).
pub open spec fn difference(a: (int, int), b: (int, int)) -> Option<(int, int)> {
    if a.0 == 0 {
        Some((-b.0, b.1))
    } else if b.0 == 0 {
        Some(a)
    } else if fits_mantissa(aligned_difference(a, b)) {
        Some((aligned_difference(a, b), max_scale_of(a, b)))
    } else {
        rounded_difference(a, b)
    }
}

/// Representation of `a * b` as `rust_decimal` computes it (`None` on overflow).
pub open spec fn product(a: (int, int), b: (int, int)) -> Option<(int, int)> {
    if a.0 == 0 || b.0 == 0 {
        Some((0, 0))
    } else if a.1 + b.1 <= MAX_SCALE && fits_mantissa(a.0 * b.0) {
        Some((a.0 * b.0, a.1 + b.1))
    } else {
        rounded_product(a, b)
    }
}

/// Representation of the largest integer not above `a`.
pub open spec fn floor_of(a: (int, int)) -> (int, int) {
    (a.0 / pow10(a.1 as nat), 0)
}

/// `sum` lifted to possibly missing operands.
pub open spec fn sum_opt(a: Option<(int, int)>, b: Option<(int, int)>) -> Option<(int, int)> {
    match (a, b) {
        (Some(x), Some(y)) => sum(x, y),
        _ => None,
    }
}

/// `difference` lifted to possibly missing operands.
pub open spec fn difference_opt(a: Option<(int, int)>, b: Option<(int, int)>) -> Option<
    (int, int),
> {
    match (a, b) {
        (Some(x), Some(y)) => difference(x, y),
        _ => None,
    }
}

/// `product` lifted to possibly missing operands.
pub open spec fn product_opt(a: Option<(int, int)>, b: Option<(int, int)>) -> Option<(int, int)> {
    match (a, b) {
        (Some(x), Some(y)) => product(x, y),
        _ => None,
    }
}

/// The representation of a decimal that may be missing.
pub open spec fn opt_view(d: Option<Decimal>) -> Option<(int, int)> {
    match d {
        Some(x) => Some(x@),
        None => None,
    }
}

/// A fixed-point decimal number `mantissa / 10^scale`.
#[derive(Clone, Copy, Debug)]
pub struct Decimal {
    mantissa: i128,
    scale: u32,
}

impl View for Decimal {
    type V = (int, int);

    /// The pair (mantissa, scale).
    closed spec fn view(&self) -> (int, int) {
        (self.mantissa as int, self.scale as int)
    }
}

// ---------------------------------------------------------------------------
// Calls into rust_decimal
// ---------------------------------------------------------------------------

/// Calls `rust_decimal::Decimal::checked_add`. Claims: a zero operand gives
/// back the other operand; otherwise, when the sum written at the larger scale
/// fits in 96 bits, that sum at that scale; otherwise the named rounded result.
#[verifier::external_body]
fn rd_checked_add(a: &Decimal, b: &Decimal) -> (r: Option<Decimal>)
    ensures
        sum_is_exact(a@, b@) ==> opt_view(r) == sum(a@, b@),
        !sum_is_exact(a@, b@) ==> opt_view(r) == rounded_sum(a@, b@),
{
    let x = rust_decimal::Decimal::from_i128_with_scale(a.mantissa, a.scale);
    let y = rust_decimal::Decimal::from_i128_with_scale(b.mantissa, b.scale);
    match x.checked_add(y) {
        Some(z) => Some(Decimal { mantissa: z.mantissa(), scale: z.scale() }),
        None => None,
    }
}

/// Calls `rust_decimal::Decimal::checked_sub`. Claims: `0 - b` is `b` with its
/// sign flipped, `a - 0` is `a`; otherwise, when the difference written at the
/// larger scale fits in 96 bits, that difference at that scale; otherwise the
/// named rounded result.
#[verifier::external_body]
fn rd_checked_sub(a: &Decimal, b: &Decimal) -> (r: Option<Decimal>)
    ensures
        difference_is_exact(a@, b@) ==> opt_view(r) == difference(a@, b@),
        !difference_is_exact(a@, b@) ==> opt_view(r) == rounded_difference(a@, b@),
{
    let x = rust_decimal::Decimal::from_i128_with_scale(a.mantissa, a.scale);
    let y = rust_decimal::Decimal::from_i128_with_scale(b.mantissa, b.scale);
    match x.checked_sub(y) {
        Some(z) => Some(Decimal { mantissa: z.mantissa(), scale: z.scale() }),
        None => None,
    }
}

/// Calls `rust_decimal::Decimal::checked_mul`. Claims: a zero operand gives
/// zero at scale 0; otherwise, when the scales add up to at most 28 and the
/// mantissa product fits in 96 bits, that product at the summed scale;
/// otherwise the named rounded result.
#[verifier::external_body]
fn rd_checked_mul(a: &Decimal, b: &Decimal) -> (r: Option<Decimal>)
    ensures
        product_is_exact(a@, b@) ==> opt_view(r) == product(a@, b@),
        !product_is_exact(a@, b@) ==> opt_view(r) == rounded_product(a@, b@),
{
    let x = rust_decimal::Decimal::from_i128_with_scale(a.mantissa, a.scale);
    let y = rust_decimal::Decimal::from_i128_with_scale(b.mantissa, b.scale);
    match x.checked_mul(y) {
        Some(z) => Some(Decimal { mantissa: z.mantissa(), scale: z.scale() }),
        None => None,
    }
}

/// Calls `<rust_decimal::Decimal as PartialOrd>::lt`. Claims: it compares the
/// two values exactly.
#[verifier::external_body]
fn rd_lt(a: &Decimal, b: &Decimal) -> (r: bool)
    ensures
        r == (units(a@) < units(b@)),
{
    let x = rust_decimal::Decimal::from_i128_with_scale(a.mantissa, a.scale);
    let y = rust_decimal::Decimal::from_i128_with_scale(b.mantissa, b.scale);
    x < y
}

/// Calls `rust_decimal::Decimal::floor`. Claims: the result is the largest
/// integer not above the value, at scale 0.
#[verifier::external_body]
fn rd_floor(a: &Decimal) -> (r: Decimal)
    ensures
        r@ == floor_of(a@),
{
    let x = rust_decimal::Decimal::from_i128_with_scale(a.mantissa, a.scale);
    let z = x.floor();
    Decimal { mantissa: z.mantissa(), scale: z.scale() }
}

/// Calls `<rust_decimal::Decimal as FromStr>::from_str`. The accepted syntax
/// and the rounding of over-long inputs are left to the name `parsed_decimal`.
#[verifier::external_body]
fn rd_from_str(s: &str) -> (r: Option<Decimal>)
    ensures
        opt_view(r) == parsed_decimal(s@),
{
    match <rust_decimal::Decimal as core::str::FromStr>::from_str(s) {
        Ok(z) => Some(Decimal { mantissa: z.mantissa(), scale: z.scale() }),
        Err(_) => None,
    }
}

// ---------------------------------------------------------------------------
// Lemmas on powers of ten and values
// ---------------------------------------------------------------------------

pub proof fn lemma_pow10_positive(n: nat)
    ensures
        pow10(n) > 0,
    decreases n,
{
    if n > 0 {
        lemma_pow10_positive((n - 1) as nat);
    }
}

pub proof fn lemma_pow10_add(a: nat, b: nat)
    ensures
        pow10(a + b) == pow10(a) * pow10(b),
    decreases a,
{
    if a > 0 {
        lemma_pow10_add((a - 1) as nat, b);
        assert(pow10(a + b) == 10 * pow10((a - 1 + b) as nat));
        lemma_mul_is_associative(10, pow10((a - 1) as nat), pow10(b));
    }
}

/// Every decimal lies between the smallest and the largest decimal.
pub proof fn lemma_units_bounds(p: (int, int))
    requires
        valid_repr(p),
    ensures
        -MAX_MANTISSA * pow10(MAX_SCALE as nat) <= units(p) <= MAX_MANTISSA * pow10(MAX_SCALE as nat),
{
    let a = (MAX_SCALE - p.1) as nat;
    let b = p.1 as nat;
    lemma_pow10_add(a, b);
    assert(a + b == MAX_SCALE as nat);
    lemma_pow10_positive(a);
    lemma_pow10_positive(b);
    let pa = pow10(a);
    let pb = pow10(b);
    assert(-MAX_MANTISSA * (pa * pb) <= p.0 * pa <= MAX_MANTISSA * (pa * pb)) by (nonlinear_arith)
        requires
            pa > 0,
            pb >= 1,
            -MAX_MANTISSA <= p.0 <= MAX_MANTISSA,
    ;
}

/// The value of an exact sum is the sum of the values.
pub proof fn lemma_sum_exact(a: (int, int), b: (int, int))
    requires
        valid_repr(a),
        valid_repr(b),
        sum_is_exact(a, b),
    ensures
        sum(a, b) is Some,
        valid_repr(sum(a, b).unwrap()),
        units(sum(a, b).unwrap()) == units(a) + units(b),
{
    if a.0 != 0 && b.0 != 0 {
        let s = max_scale_of(a, b);
        let da = (s - a.1) as nat;
        let db = (s - b.1) as nat;
        let top = (MAX_SCALE - s) as nat;
        lemma_pow10_add(da, top);
        lemma_pow10_add(db, top);
        assert((da + top) as nat == (MAX_SCALE - a.1) as nat);
        assert((db + top) as nat == (MAX_SCALE - b.1) as nat);
        lemma_mul_is_distributive_add(pow10(top), a.0 * pow10(da), b.0 * pow10(db));
        lemma_mul_is_associative(a.0, pow10(da), pow10(top));
        lemma_mul_is_associative(b.0, pow10(db), pow10(top));
    }
}

/// The value of an exact difference is the difference of the values.
pub proof fn lemma_difference_exact(a: (int, int), b: (int, int))
    requires
        valid_repr(a),
        valid_repr(b),
        difference_is_exact(a, b),
    ensures
        difference(a, b) is Some,
        valid_repr(difference(a, b).unwrap()),
        units(difference(a, b).unwrap()) == units(a) - units(b),
{
    if a.0 != 0 && b.0 != 0 {
        let s = max_scale_of(a, b);
        let da = (s - a.1) as nat;
        let db = (s - b.1) as nat;
        let top = (MAX_SCALE - s) as nat;
        lemma_pow10_add(da, top);
        lemma_pow10_add(db, top);
        assert((da + top) as nat == (MAX_SCALE - a.1) as nat);
        assert((db + top) as nat == (MAX_SCALE - b.1) as nat);
        let x = a.0 * pow10(da);
        let y = b.0 * pow10(db);
        assert((x - y) * pow10(top) == x * pow10(top) - y * pow10(top)) by (nonlinear_arith);
        lemma_mul_is_associative(a.0, pow10(da), pow10(top));
        lemma_mul_is_associative(b.0, pow10(db), pow10(top));
        assert(aligned_difference(a, b) == x - y);
        assert(units(difference(a, b).unwrap()) == (x - y) * pow10(top));
    } else if a.0 == 0 {
        let p = pow10((MAX_SCALE - b.1) as nat);
        lemma_mul_unary_negation(b.0, p);
        assert(units(a) == 0);
    }
}

/// The value of an exact product is the product of the values (both counted
/// in units of 10^-28, hence the factor 10^28).
pub proof fn lemma_product_exact(a: (int, int), b: (int, int))
    requires
        valid_repr(a),
        valid_repr(b),
        product_is_exact(a, b),
    ensures
        product(a, b) is Some,
        valid_repr(product(a, b).unwrap()),
        units(product(a, b).unwrap()) * pow10(28) == units(a) * units(b),
{
    if a.0 == 0 || b.0 == 0 {
        let pa = pow10((MAX_SCALE - a.1) as nat);
        let pb = pow10((MAX_SCALE - b.1) as nat);
        assert(units(a) == a.0 * pa);
        assert(units(b) == b.0 * pb);
        assert(units((0, 0)) == 0 * pow10(28));
        assert(a.0 == 0 || b.0 == 0 ==> (a.0 * pa) * (b.0 * pb) == 0) by (nonlinear_arith);
    } else {
        let pa = pow10((MAX_SCALE - a.1) as nat);
        let pb = pow10((MAX_SCALE - b.1) as nat);
        let pr = pow10((MAX_SCALE - (a.1 + b.1)) as nat);
        lemma_pow10_add((MAX_SCALE - (a.1 + b.1)) as nat, 28);
        lemma_pow10_add((MAX_SCALE - a.1) as nat, (MAX_SCALE - b.1) as nat);
        assert(((MAX_SCALE - (a.1 + b.1)) + 28) as nat == ((MAX_SCALE - a.1) + (MAX_SCALE
            - b.1)) as nat);
        assert(pa * pb == pr * pow10(28));
        assert((a.0 * pa) * (b.0 * pb) == (a.0 * b.0) * (pa * pb)) by (nonlinear_arith);
        assert((a.0 * b.0) * (pr * pow10(28)) == ((a.0 * b.0) * pr) * pow10(28))
            by (nonlinear_arith);
    }
}

// ---------------------------------------------------------------------------
// The public decimal API
// ---------------------------------------------------------------------------

impl Decimal {
    /// Every decimal holds a valid representation.
    #[verifier::type_invariant]
    pub open spec fn well_formed(self) -> bool {
        valid_repr(self@)
    }

    /// `num / 10^scale`.
    pub fn new(num: i64, scale: u32) -> (r: Decimal)
        requires
            scale <= MAX_SCALE,
        ensures
            r@ == (num as int, scale as int),
    {
        Decimal { mantissa: num as i128, scale }
    }

    /// `num / 10^scale`, or `None` when the scale exceeds 28 or the mantissa
    /// does not fit in 96 bits.
    pub fn try_from_i128_with_scale(num: i128, scale: u32) -> (r: Option<Decimal>)
        ensures
            r is Some <==> valid_repr((num as int, scale as int)),
            r matches Some(d) ==> d@ == (num as int, scale as int),
    {
        if scale <= MAX_SCALE && -MAX_MANTISSA <= num && num <= MAX_MANTISSA {
            Some(Decimal { mantissa: num, scale })
        } else {
            None
        }
    }

    /// The integer `n`.
    pub fn from_i64(n: i64) -> (r: Decimal)
        ensures
            r@ == (n as int, 0int),
    {
        Decimal { mantissa: n as i128, scale: 0 }
    }

    /// Zero.
    pub fn zero() -> (r: Decimal)
        ensures
            r@ == (0int, 0int),
    {
        Decimal { mantissa: 0, scale: 0 }
    }

    /// One.
    pub fn one() -> (r: Decimal)
        ensures
            r@ == (1int, 0int),
    {
        Decimal { mantissa: 1, scale: 0 }
    }

    /// The largest decimal, as a spec value.
    pub closed spec fn highest() -> Decimal {
        Decimal { mantissa: MAX_MANTISSA, scale: 0 }
    }

    /// The smallest decimal, as a spec value.
    pub closed spec fn lowest() -> Decimal {
        Decimal { mantissa: (-MAX_MANTISSA) as i128, scale: 0 }
    }

    pub proof fn lemma_extremes()
        ensures
            Decimal::highest()@ == (MAX_MANTISSA as int, 0int),
            Decimal::lowest()@ == (-MAX_MANTISSA as int, 0int),
    {
    }

    /// The largest decimal, 2^96 - 1.
    pub fn max_value() -> (r: Decimal)
        ensures
            r@ == (MAX_MANTISSA as int, 0int),
            r == Decimal::highest(),
    {
        Decimal { mantissa: MAX_MANTISSA, scale: 0 }
    }

    /// The smallest decimal, -(2^96 - 1).
    pub fn min_value() -> (r: Decimal)
        ensures
            r@ == (-MAX_MANTISSA as int, 0int),
            r == Decimal::lowest(),
    {
        Decimal { mantissa: -MAX_MANTISSA, scale: 0 }
    }

    pub fn mantissa(&self) -> (r: i128)
        ensures
            r == self@.0,
    {
        self.mantissa
    }

    pub fn scale(&self) -> (r: u32)
        ensures
            r == self@.1,
    {
        self.scale
    }

    pub fn is_zero(&self) -> (r: bool)
        ensures
            r == (units(self@) == 0),
    {
        proof {
            use_type_invariant(self);
            lemma_pow10_positive((MAX_SCALE - self.scale) as nat);
            assert(self.mantissa != 0 ==> units(self@) != 0) by (nonlinear_arith)
                requires
                    units(self@) == self@.0 * pow10((MAX_SCALE - self@.1) as nat),
                    pow10((MAX_SCALE - self@.1) as nat) > 0,
                    self@.0 == self.mantissa,
            ;
        }
        self.mantissa == 0
    }

    /// `|self|`, at the same scale.
    pub fn abs(&self) -> (r: Decimal)
        ensures
            r@ == (if self@.0 < 0 {
                -self@.0
            } else {
                self@.0
            }, self@.1),
    {
        proof {
            use_type_invariant(self);
        }
        if self.mantissa < 0 {
            Decimal { mantissa: -self.mantissa, scale: self.scale }
        } else {
            *self
        }
    }

    /// `-self`, at the same scale.
    pub fn neg(&self) -> (r: Decimal)
        ensures
            r@ == (-self@.0, self@.1),
    {
        proof {
            use_type_invariant(self);
        }
        Decimal { mantissa: -self.mantissa, scale: self.scale }
    }

    /// `self + other`, or `None` on overflow.
    pub fn checked_add(&self, other: &Decimal) -> (r: Option<Decimal>)
        ensures
            opt_view(r) == sum(self@, other@),
    {
        rd_checked_add(self, other)
    }

    /// `self + other`.
    pub fn add(&self, other: &Decimal) -> (r: Decimal)
        requires
            sum(self@, other@) is Some,
        ensures
            Some(r@) == sum(self@, other@),
    {
        match rd_checked_add(self, other) {
            Some(r) => r,
            None => Decimal::zero(),
        }
    }

    /// `self - other`, or `None` on overflow.
    pub fn checked_sub(&self, other: &Decimal) -> (r: Option<Decimal>)
        ensures
            opt_view(r) == difference(self@, other@),
    {
        rd_checked_sub(self, other)
    }

    /// `self - other`.
    pub fn sub(&self, other: &Decimal) -> (r: Decimal)
        requires
            difference(self@, other@) is Some,
        ensures
            Some(r@) == difference(self@, other@),
    {
        match rd_checked_sub(self, other) {
            Some(r) => r,
            None => Decimal::zero(),
        }
    }

    /// `self * other`, or `None` on overflow.
    pub fn checked_mul(&self, other: &Decimal) -> (r: Option<Decimal>)
        ensures
            opt_view(r) == product(self@, other@),
    {
        rd_checked_mul(self, other)
    }

    /// `self * other`.
    pub fn mul(&self, other: &Decimal) -> (r: Decimal)
        requires
            product(self@, other@) is Some,
        ensures
            Some(r@) == product(self@, other@),
    {
        match rd_checked_mul(self, other) {
            Some(r) => r,
            None => Decimal::zero(),
        }
    }

    /// The largest integer not above `self`.
    pub fn floor(&self) -> (r: Decimal)
        ensures
            r@ == floor_of(self@),
    {
        rd_floor(self)
    }

    /// Parses a decimal string, `None` when `rust_decimal` rejects it.
    pub fn from_str(s: &str) -> (r: Option<Decimal>)
        ensures
            opt_view(r) == parsed_decimal(s@),
    {
        rd_from_str(s)
    }

    /// `self < other`, comparing values.
    pub fn lt(&self, other: &Decimal) -> (r: bool)
        ensures
            r == (units(self@) < units(other@)),
    {
        rd_lt(self, other)
    }

    /// `self <= other`, comparing values.
    pub fn le(&self, other: &Decimal) -> (r: bool)
        ensures
            r == (units(self@) <= units(other@)),
    {
        !rd_lt(other, self)
    }

    /// `self > other`, comparing values.
    pub fn gt(&self, other: &Decimal) -> (r: bool)
        ensures
            r == (units(self@) > units(other@)),
    {
        rd_lt(other, self)
    }

    /// `self >= other`, comparing values.
    pub fn ge(&self, other: &Decimal) -> (r: bool)
        ensures
            r == (units(self@) >= units(other@)),
    {
        !rd_lt(self, other)
    }

    /// Whether the two values are equal (whatever their scales).
    pub fn value_eq(&self, other: &Decimal) -> (r: bool)
        ensures
            r == (units(self@) == units(other@)),
    {
        !rd_lt(self, other) && !rd_lt(other, self)
    }

    /// The larger of the two values; `other` when they are equal.
    pub fn max(&self, other: &Decimal) -> (r: Decimal)
        ensures
            r == (if units(self@) > units(other@) {
                *self
            } else {
                *other
            }),
    {
        if rd_lt(other, self) {
            *self
        } else {
            *other
        }
    }

    /// The smaller of the two values; `self` when they are equal.
    pub fn min(&self, other: &Decimal) -> (r: Decimal)
        ensures
            r == (if units(other@) < units(self@) {
                *other
            } else {
                *self
            }),
    {
        if rd_lt(other, self) {
            *other
        } else {
            *self
        }
    }
}

} // verus!
