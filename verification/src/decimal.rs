//! Exact base-ten amounts.
//!
//! A [`Decimal`] is a signed 96-bit mantissa over a power of ten between `10^0` and `10^28`.
//! Every amount is a whole number of units of `10^-28`; that integer is its view, so comparing
//! two amounts is comparing two integers. Sums, products and quotients are computed by
//! `rust_decimal`, which rounds to the nearest representable amount. A result too large for
//! 96 bits, and so a quotient by zero, is clamped to the largest amount of its sign.

use vstd::prelude::*;

verus! {

/// The largest magnitude of a mantissa, `2^96 - 1`.
pub const MAX_MANTISSA: i128 = 79228162514264337593543950335;

/// The largest number of decimal places.
pub const MAX_SCALE: u32 = 28;

/// `10^n`.
pub open spec fn pow10(n: nat) -> int
    decreases n,
{
    if n == 0 {
        1
    } else {
        10 * pow10((n - 1) as nat)
    }
}

/// How many units of `10^-28` make one.
pub open spec fn unit() -> int {
    10000000000000000000000000000
}

/// The magnitude of an integer.
pub open spec fn magnitude(x: int) -> int {
    if x < 0 {
        -x
    } else {
        x
    }
}

/// The larger of two numbers of decimal places.
pub open spec fn more_places(a: int, b: int) -> int {
    if a >= b {
        a
    } else {
        b
    }
}

/// How two amounts compare.
#[derive(Clone, Copy, Debug, PartialEq, Eq, Structural)]
pub enum Relation {
    Less,
    Equal,
    Greater,
}

/// An amount: `mantissa / 10^scale`.
#[derive(Clone, Copy, Debug)]
pub struct Decimal {
    mantissa: i128,
    scale: u32,
}

impl View for Decimal {
    type V = int;

    /// The amount in units of `10^-28`.
    open spec fn view(&self) -> int {
        self.spec_mantissa() * pow10((28 - self.spec_scale()) as nat)
    }
}

/// What `rust_decimal` gives for the sum of two amounts; `None` where the sum is out of range.
pub uninterp spec fn decimal_sum(a: Decimal, b: Decimal) -> Option<Decimal>;

/// What `rust_decimal` gives for the difference of two amounts; `None` where it is out of range.
pub uninterp spec fn decimal_difference(a: Decimal, b: Decimal) -> Option<Decimal>;

/// What `rust_decimal` gives for the product of two amounts; `None` where it is out of range.
pub uninterp spec fn decimal_product(a: Decimal, b: Decimal) -> Option<Decimal>;

/// What `rust_decimal` gives for the quotient of two amounts; `None` where it is out of range.
pub uninterp spec fn decimal_quotient(a: Decimal, b: Decimal) -> Option<Decimal>;

/// The amount that `rust_decimal` reads from a text; `None` where the text is no amount.
pub uninterp spec fn decimal_of_text(text: Seq<char>) -> Option<Decimal>;

/// The text that `rust_decimal` writes for an amount.
pub uninterp spec fn decimal_text(d: Decimal) -> Seq<char>;

impl Decimal {
    /// Two amounts, written over the larger of their two powers of ten, have mantissas whose
    /// magnitudes add up within 96 bits.
    pub open spec fn aligns_with(self, b: Decimal) -> bool {
        let s = if self.spec_scale() >= b.spec_scale() {
            self.spec_scale()
        } else {
            b.spec_scale()
        };
        magnitude(self@) + magnitude(b@) <= MAX_MANTISSA * pow10((28 - s) as nat)
    }

    /// The mantissas of two amounts multiply within 96 bits, and their decimal places add up to at
    /// most 28.
    pub open spec fn multiplies_with(self, b: Decimal) -> bool {
        magnitude(self.spec_mantissa() * b.spec_mantissa()) <= MAX_MANTISSA && self.spec_scale()
            + b.spec_scale() <= 28
    }

    /// The product of two amounts with all its digits. A product of zero has no decimal places.
    pub open spec fn full_product(self, b: Decimal) -> Decimal {
        let m = self.spec_mantissa() * b.spec_mantissa();
        if m == 0 {
            Decimal::of(0, 0)
        } else {
            Decimal::of(m, self.spec_scale() + b.spec_scale())
        }
    }

    /// `decimal_sum`, clamped.
    pub open spec fn sum(self, b: Decimal) -> Decimal {
        match decimal_sum(self, b) {
            Some(r) => r,
            None => Decimal::limit(self@ < 0),
        }
    }

    /// `decimal_difference`, clamped.
    pub open spec fn less(self, b: Decimal) -> Decimal {
        match decimal_difference(self, b) {
            Some(r) => r,
            None => Decimal::limit(self@ < 0),
        }
    }

    /// `decimal_product`, clamped.
    pub open spec fn prod(self, b: Decimal) -> Decimal {
        match decimal_product(self, b) {
            Some(r) => r,
            None => Decimal::limit((self@ < 0) != (b@ < 0)),
        }
    }

    /// `decimal_quotient`, clamped.
    pub open spec fn per(self, b: Decimal) -> Decimal {
        match decimal_quotient(self, b) {
            Some(r) => r,
            None => Decimal::limit((self@ < 0) != (b@ < 0)),
        }
    }

    /// The greatest whole number not above the amount.
    pub open spec fn whole_below(self) -> Decimal {
        if self.spec_scale() == 0 {
            self
        } else {
            Decimal::of(self.spec_mantissa() / pow10(self.spec_scale() as nat), 0)
        }
    }

    /// The least whole number not below the amount.
    pub open spec fn whole_above(self) -> Decimal {
        if self.spec_scale() == 0 {
            self
        } else {
            Decimal::of(-((-self.spec_mantissa()) / pow10(self.spec_scale() as nat)), 0)
        }
    }

    /// The larger of two amounts, the first where they are equal.
    pub open spec fn larger(self, b: Decimal) -> Decimal {
        if self@ < b@ {
            b
        } else {
            self
        }
    }

    /// The smaller of two amounts, the first where they are equal.
    pub open spec fn smaller(self, b: Decimal) -> Decimal {
        if self@ > b@ {
            b
        } else {
            self
        }
    }

    /// The amount without its sign.
    pub open spec fn unsigned(self) -> Decimal {
        Decimal::of(magnitude(self.spec_mantissa()), self.spec_scale())
    }

    /// The amount with its sign turned.
    pub open spec fn turned(self) -> Decimal {
        Decimal::of(-self.spec_mantissa(), self.spec_scale())
    }

    /// A whole number as an amount.
    pub open spec fn whole(n: int) -> Decimal {
        Decimal::of(n, 0)
    }

    /// The text of the amount.
    pub open spec fn written(self) -> Seq<char> {
        decimal_text(self)
    }
}

impl Decimal {
    /// The mantissa, as a mathematical integer.
    pub closed spec fn spec_mantissa(&self) -> int {
        self.mantissa as int
    }

    /// The number of decimal places, as a mathematical integer.
    pub closed spec fn spec_scale(&self) -> int {
        self.scale as int
    }

    /// The amount with a given mantissa and number of decimal places.
    pub closed spec fn of(mantissa: int, scale: int) -> Decimal {
        Decimal { mantissa: mantissa as i128, scale: scale as u32 }
    }

    /// The largest amount, or the smallest where `negative`.
    pub open spec fn limit(negative: bool) -> Decimal {
        if negative {
            Decimal::of(-MAX_MANTISSA, 0)
        } else {
            Decimal::of(MAX_MANTISSA as int, 0)
        }
    }

    /// The mantissa fits in 96 bits and there are at most 28 decimal places.
    #[verifier::type_invariant]
    pub open spec fn wf(self) -> bool {
        -MAX_MANTISSA <= self.spec_mantissa() <= MAX_MANTISSA && 0 <= self.spec_scale()
            <= MAX_SCALE
    }
}

/// `rust_decimal`'s order on amounts (`Ord::cmp`) is the order of their values.
#[verifier::external_body]
fn outside_order(a: &Decimal, b: &Decimal) -> (r: Relation)
    requires
        a.wf(),
        b.wf(),
    ensures
        r == (if a@ < b@ {
            Relation::Less
        } else if a@ == b@ {
            Relation::Equal
        } else {
            Relation::Greater
        }),
{
    let x = rust_decimal::Decimal::from_i128_with_scale(a.mantissa, a.scale);
    let y = rust_decimal::Decimal::from_i128_with_scale(b.mantissa, b.scale);
    match x.cmp(&y) {
        std::cmp::Ordering::Less => Relation::Less,
        std::cmp::Ordering::Equal => Relation::Equal,
        std::cmp::Ordering::Greater => Relation::Greater,
    }
}

/// `rust_decimal::Decimal::checked_add`. The sum is exact where both terms, written with the
/// larger number of decimal places of the two, add up within 96 bits. It has no more decimal
/// places than the term that has more.
#[verifier::external_body]
fn outside_sum(a: &Decimal, b: &Decimal) -> (r: Option<Decimal>)
    requires
        a.wf(),
        b.wf(),
    ensures
        r == decimal_sum(*a, *b),
        r is Some ==> r->0.wf() && r->0.spec_scale() <= more_places(a.spec_scale(), b.spec_scale()),
        a.aligns_with(*b) ==> r is Some && r->0@ == a@ + b@,
{
    let x = rust_decimal::Decimal::from_i128_with_scale(a.mantissa, a.scale);
    let y = rust_decimal::Decimal::from_i128_with_scale(b.mantissa, b.scale);
    match x.checked_add(y) {
        Some(z) => Some(Decimal { mantissa: z.mantissa(), scale: z.scale() }),
        None => None,
    }
}

/// `rust_decimal::Decimal::checked_sub`. The difference is exact where the magnitudes of both
/// terms, written with the larger number of decimal places of the two, add up within 96 bits. It
/// has the sign of the true difference, whether it is rounded or not, and is out of range only
/// where the terms have opposite signs.
#[verifier::external_body]
fn outside_difference(a: &Decimal, b: &Decimal) -> (r: Option<Decimal>)
    requires
        a.wf(),
        b.wf(),
    ensures
        r == decimal_difference(*a, *b),
        r is Some ==> r->0.wf() && (r->0@ < 0 <==> a@ < b@) && (r->0@ > 0 <==> a@ > b@),
        r is None ==> (a@ < 0 && b@ > 0) || (a@ > 0 && b@ < 0),
        a.aligns_with(*b) ==> r is Some && r->0@ == a@ - b@,
{
    let x = rust_decimal::Decimal::from_i128_with_scale(a.mantissa, a.scale);
    let y = rust_decimal::Decimal::from_i128_with_scale(b.mantissa, b.scale);
    match x.checked_sub(y) {
        Some(z) => Some(Decimal { mantissa: z.mantissa(), scale: z.scale() }),
        None => None,
    }
}

/// `rust_decimal::Decimal::checked_mul`. The product is exact where the mantissas multiply
/// within 96 bits and the decimal places add up to at most 28. It then has as many decimal places
/// as both together, and none where it is zero.
#[verifier::external_body]
fn outside_product(a: &Decimal, b: &Decimal) -> (r: Option<Decimal>)
    requires
        a.wf(),
        b.wf(),
    ensures
        r == decimal_product(*a, *b),
        r is Some ==> r->0.wf(),
        a.multiplies_with(*b) ==> r == Some(a.full_product(*b)) && r->0@ * unit() == a@ * b@,
{
    let x = rust_decimal::Decimal::from_i128_with_scale(a.mantissa, a.scale);
    let y = rust_decimal::Decimal::from_i128_with_scale(b.mantissa, b.scale);
    match x.checked_mul(y) {
        Some(z) => Some(Decimal { mantissa: z.mantissa(), scale: z.scale() }),
        None => None,
    }
}

/// `rust_decimal::Decimal::checked_div`. A quotient by zero is out of range, and a quotient of at
/// most `2^96 - 1` in magnitude is in range. It differs from the true quotient by at most `10^-28`
/// and the `10^28`th part of its own magnitude together, and is the true quotient where that
/// is a whole number.
#[verifier::external_body]
fn outside_quotient(a: &Decimal, b: &Decimal) -> (r: Option<Decimal>)
    requires
        a.wf(),
        b.wf(),
    ensures
        r == decimal_quotient(*a, *b),
        r is Some ==> r->0.wf() && b@ != 0,
        b@ != 0 && magnitude(a@) <= MAX_MANTISSA * magnitude(b@) ==> r is Some,
        r is Some ==> magnitude(r->0@ * b@ - a@ * unit()) * unit() <= magnitude(b@) * (unit()
            + magnitude(r->0@)),
        r is Some && a@ % b@ == 0 ==> r->0@ * b@ == a@ * unit(),
{
    let x = rust_decimal::Decimal::from_i128_with_scale(a.mantissa, a.scale);
    let y = rust_decimal::Decimal::from_i128_with_scale(b.mantissa, b.scale);
    match x.checked_div(y) {
        Some(z) => Some(Decimal { mantissa: z.mantissa(), scale: z.scale() }),
        None => None,
    }
}

/// `rust_decimal::Decimal::floor`: the greatest whole number not above the amount, with no
/// decimal places; an amount without decimal places is handed back.
#[verifier::external_body]
fn outside_floor(d: &Decimal) -> (r: Decimal)
    requires
        d.wf(),
    ensures
        r == d.whole_below(),
        r.wf(),
{
    let z = rust_decimal::Decimal::from_i128_with_scale(d.mantissa, d.scale).floor();
    Decimal { mantissa: z.mantissa(), scale: z.scale() }
}

/// `rust_decimal::Decimal::ceil`: the least whole number not below the amount, with no decimal
/// places; an amount without decimal places is handed back.
#[verifier::external_body]
fn outside_ceil(d: &Decimal) -> (r: Decimal)
    requires
        d.wf(),
    ensures
        r == d.whole_above(),
        r.wf(),
{
    let z = rust_decimal::Decimal::from_i128_with_scale(d.mantissa, d.scale).ceil();
    Decimal { mantissa: z.mantissa(), scale: z.scale() }
}

/// `rust_decimal::Decimal::from_str`: which texts are amounts, and which amount each is.
#[verifier::external_body]
fn outside_parse(text: &str) -> (r: Option<Decimal>)
    ensures
        r == decimal_of_text(text@),
        r is Some ==> r->0.wf(),
{
    match <rust_decimal::Decimal as std::str::FromStr>::from_str(text) {
        Ok(z) => Some(Decimal { mantissa: z.mantissa(), scale: z.scale() }),
        Err(_) => None,
    }
}

/// The text that `rust_decimal`'s `Display` writes for an amount.
#[verifier::external_body]
fn outside_text(d: &Decimal) -> (r: String)
    requires
        d.wf(),
    ensures
        r@ == decimal_text(*d),
{
    rust_decimal::Decimal::from_i128_with_scale(d.mantissa, d.scale).to_string()
}

impl Decimal {
    /// The amount `mantissa / 10^scale`; `None` where the mantissa needs more than 96 bits or
    /// there are more than 28 decimal places.
    pub fn from_parts(mantissa: i128, scale: u32) -> (r: Option<Decimal>)
        ensures
            r is Some <==> -MAX_MANTISSA <= mantissa <= MAX_MANTISSA && scale <= MAX_SCALE,
            r is Some ==> r->0 == Decimal::of(mantissa as int, scale as int)
                && r->0.spec_mantissa() == mantissa && r->0.spec_scale() == scale,
    {
        if -MAX_MANTISSA <= mantissa && mantissa <= MAX_MANTISSA && scale <= MAX_SCALE {
            Some(Decimal { mantissa, scale })
        } else {
            None
        }
    }

    /// The amount `mantissa / 10^scale`.
    pub fn new(mantissa: i64, scale: u32) -> (r: Decimal)
        requires
            scale <= MAX_SCALE,
        ensures
            r == Decimal::of(mantissa as int, scale as int),
            r.spec_mantissa() == mantissa,
            r.spec_scale() == scale,
    {
        Decimal { mantissa: mantissa as i128, scale }
    }

    /// The mantissa.
    pub fn mantissa(&self) -> (r: i128)
        ensures
            r == self.spec_mantissa(),
            -MAX_MANTISSA <= r <= MAX_MANTISSA,
    {
        proof {
            use_type_invariant(self);
        }
        self.mantissa
    }

    /// The number of decimal places.
    pub fn scale(&self) -> (r: u32)
        ensures
            r == self.spec_scale(),
            r <= MAX_SCALE,
    {
        proof {
            use_type_invariant(self);
        }
        self.scale
    }

    /// A whole number.
    pub fn from_int(n: i64) -> (r: Decimal)
        ensures
            r == Decimal::whole(n as int),
            r@ == n * unit(),
    {
        let r = Decimal { mantissa: n as i128, scale: 0 };
        proof {
            lemma_pow10_28();
        }
        r
    }

    /// A count.
    pub fn from_count(n: usize) -> (r: Decimal)
        ensures
            r == Decimal::whole(n as int),
            r@ == n * unit(),
    {
        let r = Decimal { mantissa: n as i128, scale: 0 };
        proof {
            lemma_pow10_28();
        }
        r
    }

    /// Zero.
    pub fn zero() -> (r: Decimal)
        ensures
            r == Decimal::whole(0),
            r@ == 0,
    {
        Decimal::from_int(0)
    }

    /// One.
    pub fn one() -> (r: Decimal)
        ensures
            r == Decimal::whole(1),
            r@ == unit(),
    {
        Decimal::from_int(1)
    }

    /// How `self` compares with `other`.
    pub fn relation(self, other: Decimal) -> (r: Relation)
        ensures
            r == (if self@ < other@ {
                Relation::Less
            } else if self@ == other@ {
                Relation::Equal
            } else {
                Relation::Greater
            }),
    {
        proof {
            use_type_invariant(&self);
            use_type_invariant(&other);
        }
        outside_order(&self, &other)
    }

    /// Whether the amount is zero.
    pub fn is_zero(self) -> (r: bool)
        ensures
            r == (self@ == 0),
    {
        self == Decimal::zero()
    }

    /// Whether the amount is above zero.
    pub fn is_positive(self) -> (r: bool)
        ensures
            r == (self@ > 0),
    {
        self > Decimal::zero()
    }

    /// Whether the amount is below zero.
    pub fn is_negative(self) -> (r: bool)
        ensures
            r == (self@ < 0),
    {
        self < Decimal::zero()
    }

    /// The largest amount, or the smallest where `negative`.
    fn clamp_limit(negative: bool) -> (r: Decimal)
        ensures
            r == Decimal::limit(negative),
    {
        if negative {
            Decimal { mantissa: -MAX_MANTISSA, scale: 0 }
        } else {
            Decimal { mantissa: MAX_MANTISSA, scale: 0 }
        }
    }

    /// `self + other`.
    pub fn plus(self, other: Decimal) -> (r: Decimal)
        ensures
            r == self.sum(other),
            self.aligns_with(other) ==> r@ == self@ + other@ && self.adds_exactly(other),
            r.spec_scale() <= more_places(self.spec_scale(), other.spec_scale()),
    {
        proof {
            use_type_invariant(&self);
            use_type_invariant(&other);
        }
        match outside_sum(&self, &other) {
            Some(r) => r,
            None => Decimal::clamp_limit(self.is_negative()),
        }
    }

    /// `self - other`.
    pub fn minus(self, other: Decimal) -> (r: Decimal)
        ensures
            r == self.less(other),
            self.aligns_with(other) ==> r@ == self@ - other@ && self.subtracts_exactly(other),
            r@ < 0 <==> self@ < other@,
            r@ > 0 <==> self@ > other@,
    {
        proof {
            use_type_invariant(&self);
            use_type_invariant(&other);
            lemma_of_parts(MAX_MANTISSA as int, 0);
            lemma_of_parts(-MAX_MANTISSA, 0);
            lemma_pow10_28();
        }
        match outside_difference(&self, &other) {
            Some(r) => r,
            None => Decimal::clamp_limit(self.is_negative()),
        }
    }

    /// `self * other`.
    pub fn times(self, other: Decimal) -> (r: Decimal)
        ensures
            r == self.prod(other),
            self.multiplies_with(other) ==> r == self.full_product(other) && r@ * unit() == self@
                * other@ && self.multiplies_exactly(other),
    {
        proof {
            use_type_invariant(&self);
            use_type_invariant(&other);
        }
        match outside_product(&self, &other) {
            Some(r) => r,
            None => Decimal::clamp_limit(self.is_negative() != other.is_negative()),
        }
    }

    /// `self / other`.
    pub fn over(self, other: Decimal) -> (r: Decimal)
        ensures
            r == self.per(other),
            other@ != 0 && magnitude(self@) <= MAX_MANTISSA * magnitude(other@) ==> magnitude(
                r@ * other@ - self@ * unit(),
            ) * unit() <= magnitude(other@) * (unit() + magnitude(r@)) && self.divides_closely(
                other,
            ),
            other@ != 0 && magnitude(self@) <= MAX_MANTISSA * magnitude(other@) && self@ % other@
                == 0 ==> r@ * other@ == self@ * unit() && self.divides_exactly(other),
    {
        proof {
            use_type_invariant(&self);
            use_type_invariant(&other);
        }
        match outside_quotient(&self, &other) {
            Some(r) => r,
            None => Decimal::clamp_limit(self.is_negative() != other.is_negative()),
        }
    }

    /// The greatest whole number not above the amount.
    pub fn floor(self) -> (r: Decimal)
        ensures
            r == self.whole_below(),
    {
        proof {
            use_type_invariant(&self);
        }
        outside_floor(&self)
    }

    /// The least whole number not below the amount.
    pub fn ceil(self) -> (r: Decimal)
        ensures
            r == self.whole_above(),
    {
        proof {
            use_type_invariant(&self);
        }
        outside_ceil(&self)
    }

    /// The larger of two amounts.
    pub fn max(self, other: Decimal) -> (r: Decimal)
        ensures
            r == self.larger(other),
    {
        if self < other {
            other
        } else {
            self
        }
    }

    /// The smaller of two amounts.
    pub fn min(self, other: Decimal) -> (r: Decimal)
        ensures
            r == self.smaller(other),
    {
        if self > other {
            other
        } else {
            self
        }
    }

    /// The amount without its sign.
    pub fn abs(self) -> (r: Decimal)
        ensures
            r == self.unsigned(),
    {
        proof {
            use_type_invariant(&self);
        }
        if self.mantissa < 0 {
            Decimal { mantissa: -self.mantissa, scale: self.scale }
        } else {
            self
        }
    }

    /// The amount with its sign turned.
    pub fn negated(self) -> (r: Decimal)
        ensures
            r == self.turned(),
    {
        proof {
            use_type_invariant(&self);
        }
        Decimal { mantissa: -self.mantissa, scale: self.scale }
    }

    /// Reads an amount.
    pub fn parse(text: &str) -> (r: Option<Decimal>)
        ensures
            r == decimal_of_text(text@),
    {
        outside_parse(text)
    }

    /// Writes the amount.
    pub fn text(self) -> (r: String)
        ensures
            r@ == decimal_text(self),
    {
        proof {
            use_type_invariant(&self);
        }
        outside_text(&self)
    }
}

impl PartialEq for Decimal {
    fn eq(&self, other: &Decimal) -> (r: bool) {
        self.relation(*other) == Relation::Equal
    }
}

impl Eq for Decimal {

}

impl vstd::std_specs::cmp::PartialEqSpecImpl for Decimal {
    open spec fn obeys_eq_spec() -> bool {
        true
    }

    open spec fn eq_spec(&self, other: &Decimal) -> bool {
        self@ == other@
    }
}

impl PartialOrd for Decimal {
    fn partial_cmp(&self, other: &Decimal) -> (r: Option<std::cmp::Ordering>) {
        Some(
            match self.relation(*other) {
                Relation::Less => std::cmp::Ordering::Less,
                Relation::Equal => std::cmp::Ordering::Equal,
                Relation::Greater => std::cmp::Ordering::Greater,
            },
        )
    }
}

impl vstd::std_specs::cmp::PartialOrdSpecImpl for Decimal {
    open spec fn obeys_partial_cmp_spec() -> bool {
        true
    }

    open spec fn partial_cmp_spec(&self, other: &Decimal) -> Option<std::cmp::Ordering> {
        if self@ < other@ {
            Some(std::cmp::Ordering::Less)
        } else if self@ == other@ {
            Some(std::cmp::Ordering::Equal)
        } else {
            Some(std::cmp::Ordering::Greater)
        }
    }
}

impl std::ops::Add for Decimal {
    type Output = Decimal;

    fn add(self, other: Decimal) -> (r: Decimal) {
        self.plus(other)
    }
}

impl vstd::std_specs::ops::AddSpecImpl for Decimal {
    open spec fn obeys_add_spec() -> bool {
        true
    }

    open spec fn add_req(self, other: Decimal) -> bool {
        true
    }

    open spec fn add_spec(self, other: Decimal) -> Decimal {
        self.sum(other)
    }
}

impl std::ops::Sub for Decimal {
    type Output = Decimal;

    fn sub(self, other: Decimal) -> (r: Decimal) {
        self.minus(other)
    }
}

impl vstd::std_specs::ops::SubSpecImpl for Decimal {
    open spec fn obeys_sub_spec() -> bool {
        true
    }

    open spec fn sub_req(self, other: Decimal) -> bool {
        true
    }

    open spec fn sub_spec(self, other: Decimal) -> Decimal {
        self.less(other)
    }
}

impl std::ops::Mul for Decimal {
    type Output = Decimal;

    fn mul(self, other: Decimal) -> (r: Decimal) {
        self.times(other)
    }
}

impl vstd::std_specs::ops::MulSpecImpl for Decimal {
    open spec fn obeys_mul_spec() -> bool {
        true
    }

    open spec fn mul_req(self, other: Decimal) -> bool {
        true
    }

    open spec fn mul_spec(self, other: Decimal) -> Decimal {
        self.prod(other)
    }
}

impl std::ops::Div for Decimal {
    type Output = Decimal;

    fn div(self, other: Decimal) -> (r: Decimal) {
        self.over(other)
    }
}

impl vstd::std_specs::ops::DivSpecImpl for Decimal {
    open spec fn obeys_div_spec() -> bool {
        true
    }

    open spec fn div_req(self, other: Decimal) -> bool {
        true
    }

    open spec fn div_spec(self, other: Decimal) -> Decimal {
        self.per(other)
    }
}

impl std::ops::Neg for Decimal {
    type Output = Decimal;

    fn neg(self) -> (r: Decimal) {
        self.negated()
    }
}

impl vstd::std_specs::ops::NegSpecImpl for Decimal {
    open spec fn obeys_neg_spec() -> bool {
        true
    }

    open spec fn neg_req(self) -> bool {
        true
    }

    open spec fn neg_spec(self) -> Decimal {
        self.turned()
    }
}

/// `10^28`, written out.
pub proof fn lemma_pow10_28()
    ensures
        pow10(28) == unit(),
        pow10(0) == 1,
{
    reveal_with_fuel(pow10, 29);
}

/// The mantissa and the decimal places of an amount that is given by them.
pub broadcast proof fn lemma_of_parts(mantissa: int, scale: int)
    requires
        -MAX_MANTISSA <= mantissa <= MAX_MANTISSA,
        0 <= scale <= MAX_SCALE,
    ensures
        (#[trigger] Decimal::of(mantissa, scale)).spec_mantissa() == mantissa,
        Decimal::of(mantissa, scale).spec_scale() == scale,
{
}

/// Amounts of the same value with the same number of decimal places are the same.
pub proof fn lemma_same_amount(a: Decimal, b: Decimal)
    requires
        0 <= a.spec_scale() <= 28,
        a.spec_scale() == b.spec_scale(),
        a@ == b@,
    ensures
        a == b,
{
    let g = pow10((28 - a.spec_scale()) as nat);
    lemma_pow10_positive((28 - a.spec_scale()) as nat);
    let x = a.spec_mantissa();
    let y = b.spec_mantissa();
    assert(x == y) by (nonlinear_arith)
        requires
            x * g == y * g,
            g > 0,
    ;
}

/// Powers of ten are positive.
pub proof fn lemma_pow10_positive(n: nat)
    ensures
        pow10(n) > 0,
    decreases n,
{
    if n > 0 {
        lemma_pow10_positive((n - 1) as nat);
    }
}

/// Powers of ten multiply by adding their exponents.
pub proof fn lemma_pow10_adds(a: nat, b: nat)
    ensures
        pow10(a + b) == pow10(a) * pow10(b),
    decreases a,
{
    if a > 0 {
        lemma_pow10_adds((a - 1) as nat, b);
        assert(10 * (pow10((a - 1) as nat) * pow10(b)) == (10 * pow10((a - 1) as nat)) * pow10(b))
            by (nonlinear_arith);
        assert((a - 1) as nat + b == (a + b - 1) as nat);
    }
}

impl Decimal {
    /// The sum of two amounts is not rounded.
    pub open spec fn adds_exactly(self, b: Decimal) -> bool {
        self.sum(b).wf() && self.sum(b)@ == self@ + b@
    }

    /// The difference of two amounts is not rounded.
    pub open spec fn subtracts_exactly(self, b: Decimal) -> bool {
        self.less(b).wf() && self.less(b)@ == self@ - b@
    }

    /// The product of two amounts is not rounded.
    pub open spec fn multiplies_exactly(self, b: Decimal) -> bool {
        self.prod(b).wf() && self.prod(b)@ * unit() == self@ * b@
    }

    /// The quotient of two amounts is not rounded.
    pub open spec fn divides_exactly(self, b: Decimal) -> bool {
        b@ != 0 && self.per(b).wf() && self.per(b)@ * b@ == self@ * unit()
    }

    /// The quotient of two amounts is in range, so that it is off by its rounding at most.
    pub open spec fn divides_closely(self, b: Decimal) -> bool {
        b@ != 0 && self.per(b).wf() && within_rounding(self@, b@, self.per(b)@)
    }
}

/// Whether `q` is the quotient of `a` and `b` up to its rounding: `10^-28` and the `10^28`th part
/// of its own magnitude.
pub open spec fn within_rounding(a: int, b: int, q: int) -> bool {
    magnitude(q * b - a * unit()) * unit() <= magnitude(b) * (unit() + magnitude(q))
}

/// The larger and the smaller of two amounts are those two, in order.
pub proof fn law_larger_and_smaller(a: Decimal, b: Decimal)
    ensures
        a.larger(b) == a || a.larger(b) == b,
        a.smaller(b) == a || a.smaller(b) == b,
        a.larger(b)@ >= a@,
        a.larger(b)@ >= b@,
        a.smaller(b)@ <= a@,
        a.smaller(b)@ <= b@,
        a.larger(b)@ + a.smaller(b)@ == a@ + b@,
{
}

/// An amount without its sign is never negative and as far from zero, and turning the sign twice
/// gives the amount back.
pub proof fn law_signs(a: Decimal)
    requires
        a.wf(),
    ensures
        a.unsigned()@ == magnitude(a@),
        a.unsigned().wf(),
        a.turned()@ == -a@,
        a.turned().wf(),
        a.turned().turned() == a,
{
    let g = pow10((28 - a.spec_scale()) as nat);
    let m = a.spec_mantissa();
    lemma_pow10_positive((28 - a.spec_scale()) as nat);
    lemma_of_parts(magnitude(m), a.spec_scale());
    lemma_of_parts(-m, a.spec_scale());
    assert((-m) * g == -(m * g)) by (nonlinear_arith);
    assert(m >= 0 ==> m * g >= 0) by (nonlinear_arith)
        requires
            g > 0,
    ;
    assert(m < 0 ==> m * g < 0) by (nonlinear_arith)
        requires
            g > 0,
    ;
}

/// The whole number below an amount is at most one below it, the whole number above at most one
/// above it.
pub proof fn law_whole_neighbours(a: Decimal)
    requires
        a.wf(),
    ensures
        a.whole_below()@ <= a@ < a.whole_below()@ + unit(),
        a.whole_above()@ - unit() < a@ <= a.whole_above()@,
        a.whole_below()@ % unit() == 0,
        a.whole_above()@ % unit() == 0,
{
    let s = a.spec_scale() as nat;
    let m = a.spec_mantissa();
    let p = pow10(s);
    let g = pow10((28 - s) as nat);
    lemma_pow10_28();
    lemma_pow10_positive(s);
    lemma_pow10_positive((28 - s) as nat);
    lemma_pow10_adds(s, (28 - s) as nat);
    assert(s + (28 - s) as nat == 28);
    let d = m / p;
    let e = (-m) / p;
    vstd::arithmetic::div_mod::lemma_fundamental_div_mod(m, p);
    vstd::arithmetic::div_mod::lemma_fundamental_div_mod(-m, p);
    let u = unit();
    assert(p * d * g == d * u && p * e * g == e * u) by (nonlinear_arith)
        requires
            p * g == u,
    ;
    let x = m % p;
    let y = (-m) % p;
    assert(m * g == d * u + x * g && (-m) * g == e * u + y * g && (-m) * g == -(m * g)) by (
    nonlinear_arith)
        requires
            m == p * d + x,
            -m == p * e + y,
            p * d * g == d * u,
            p * e * g == e * u,
    ;
    assert(0 <= x * g < u && 0 <= y * g < u) by (nonlinear_arith)
        requires
            0 <= x < p,
            0 <= y < p,
            p * g == u,
            g > 0,
    ;
    assert(magnitude(d) <= magnitude(m) && magnitude(e) <= magnitude(m)) by (nonlinear_arith)
        requires
            m == p * d + x,
            -m == p * e + y,
            0 <= x < p,
            0 <= y < p,
            p >= 1,
            magnitude(d) == (if d < 0 { -d } else { d }),
            magnitude(e) == (if e < 0 { -e } else { e }),
            magnitude(m) == (if m < 0 { -m } else { m }),
    ;
    lemma_of_parts(d, 0);
    lemma_of_parts(-e, 0);
    assert((-e) * u == -(e * u)) by (nonlinear_arith);
    vstd::arithmetic::div_mod::lemma_mod_multiples_basic(d, u);
    vstd::arithmetic::div_mod::lemma_mod_multiples_basic(-e, u);
    if s == 0 {
        vstd::arithmetic::div_mod::lemma_mod_multiples_basic(m, u);
    }
}

} // verus!
