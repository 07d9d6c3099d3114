//! Rounding an amount to a multiple of a step.

use vstd::prelude::*;
use crate::decimal::{Decimal, MAX_MANTISSA};

verus! {

impl Decimal {
    /// The multiple of `step` at or below the amount: the quotient's whole part times the step.
    /// A step that is not positive leaves the amount alone.
    pub open spec fn stepped_down(self, step: Decimal) -> Decimal {
        if step@ <= 0 {
            self
        } else {
            self.per(step).whole_below().prod(step)
        }
    }

    /// The multiple of `step` at or above the amount.
    pub open spec fn stepped_up(self, step: Decimal) -> Decimal {
        if step@ <= 0 {
            self
        } else {
            self.per(step).whole_above().prod(step)
        }
    }

    /// The step is positive, and it and the amount, written with the same number of decimal
    /// places, are together below `10^28 - 1` units of the last place. The 28 digits of the
    /// quotient then tell a multiple of the step from its neighbours.
    pub open spec fn on_grid_of(self, step: Decimal) -> bool {
        let s = if self.spec_scale() >= step.spec_scale() {
            self.spec_scale()
        } else {
            step.spec_scale()
        };
        step@ > 0 && crate::decimal::magnitude(self@) + step@ < (crate::decimal::unit() - 1)
            * crate::decimal::pow10((28 - s) as nat)
    }

    /// As [`Decimal::on_grid_of`], with room for one more step.
    pub open spec fn with_room_on(self, step: Decimal) -> bool {
        let s = if self.spec_scale() >= step.spec_scale() {
            self.spec_scale()
        } else {
            step.spec_scale()
        };
        step@ > 0 && crate::decimal::magnitude(self@) + 2 * step@ < (crate::decimal::unit() - 1)
            * crate::decimal::pow10((28 - s) as nat)
    }
}

/// Rounds down to the nearest multiple of `step`.
pub fn quantize_down(value: Decimal, step: Decimal) -> (r: Decimal)
    ensures
        r == value.stepped_down(step),
        value.on_grid_of(step) ==> r@ == (value@ / step@) * step@,
        value.on_grid_of(step) && r@ != 0 ==> r.spec_scale() == step.spec_scale(),
{
    if step <= Decimal::zero() {
        return value;
    }
    let quotient = value.over(step);
    let count = quotient.floor();
    let r = count.times(step);
    proof {
        if value.on_grid_of(step) {
            use_type_invariant(&value);
            use_type_invariant(&step);
            use_type_invariant(&quotient);
            lemma_whole_quotient(value, step, quotient);
            lemma_floor_ceil(quotient);
            lemma_multiple(value, step, count, value@ / step@, r);
        }
    }
    r
}

/// Rounds up to the nearest multiple of `step`.
pub fn quantize_up(value: Decimal, step: Decimal) -> (r: Decimal)
    ensures
        r == value.stepped_up(step),
        value.on_grid_of(step) ==> r@ == -((-value@) / step@) * step@,
        value.on_grid_of(step) && r@ != 0 ==> r.spec_scale() == step.spec_scale(),
{
    if step <= Decimal::zero() {
        return value;
    }
    let quotient = value.over(step);
    let count = quotient.ceil();
    let r = count.times(step);
    proof {
        if value.on_grid_of(step) {
            use_type_invariant(&value);
            use_type_invariant(&step);
            use_type_invariant(&quotient);
            lemma_whole_quotient(value, step, quotient);
            lemma_floor_ceil(quotient);
            lemma_multiple(value, step, count, -((-value@) / step@), r);
        }
    }
    r
}

/// A common factor cancels from a quotient.
proof fn lemma_cancel(v: int, s: int, g: int)
    requires
        s > 0,
        g > 0,
    ensures
        (v * g) / (s * g) == v / s,
        (v * g) % (s * g) == (v % s) * g,
        s * g > 0,
{
    let n = v / s;
    let r = v % s;
    vstd::arithmetic::div_mod::lemma_fundamental_div_mod(v, s);
    assert(v * g == n * (s * g) + r * g) by (nonlinear_arith)
        requires
            v == s * n + r,
    ;
    assert(0 <= r * g < s * g) by (nonlinear_arith)
        requires
            0 <= r < s,
            g > 0,
    ;
    vstd::arithmetic::div_mod::lemma_fundamental_div_mod_converse(v * g, s * g, n, r * g);
}

/// An amount is a whole number of any unit no larger than one in its last place.
proof fn lemma_in_units(d: Decimal, s: int) -> (v: int)
    requires
        d.wf(),
        d.spec_scale() <= s <= 28,
    ensures
        d@ == v * crate::decimal::pow10((28 - s) as nat),
{
    let k = (s - d.spec_scale()) as nat;
    crate::decimal::lemma_pow10_adds(k, (28 - s) as nat);
    assert(k + (28 - s) as nat == (28 - d.spec_scale()) as nat);
    let v = d.spec_mantissa() * crate::decimal::pow10(k);
    assert(d.spec_mantissa() * (crate::decimal::pow10(k) * crate::decimal::pow10((28 - s) as nat)) == v * crate::decimal::pow10((28 - s) as nat))
        by (nonlinear_arith)
        requires
            v == d.spec_mantissa() * crate::decimal::pow10(k),
    ;
    v
}

/// On a grid, the rounded quotient has the whole part of the true quotient.
proof fn lemma_whole_quotient(value: Decimal, step: Decimal, q: Decimal)
    requires
        value.wf(),
        step.wf(),
        value.on_grid_of(step),
        crate::decimal::magnitude(value@) <= MAX_MANTISSA * step@ ==> crate::decimal::magnitude(q@ * step@ - value@ * crate::decimal::unit())
            * crate::decimal::unit() <= step@ * (crate::decimal::unit() + crate::decimal::magnitude(q@)),
        crate::decimal::magnitude(value@) <= MAX_MANTISSA * step@ && value@ % step@ == 0 ==> q@ * step@ == value@
            * crate::decimal::unit(),
    ensures
        q@ / crate::decimal::unit() == value@ / step@,
        (-q@) / crate::decimal::unit() == (-value@) / step@,
{
    let s = if value.spec_scale() >= step.spec_scale() {
        value.spec_scale()
    } else {
        step.spec_scale()
    };
    let g = crate::decimal::pow10((28 - s) as nat);
    let u = crate::decimal::unit();
    crate::decimal::lemma_pow10_positive((28 - s) as nat);
    let vu = lemma_in_units(value, s);
    let su = lemma_in_units(step, s);
    let x = q@;
    assert(su > 0) by (nonlinear_arith)
        requires
            su * g > 0,
            g > 0,
    ;
    assert(crate::decimal::magnitude(value@) == crate::decimal::magnitude(vu) * g) by (nonlinear_arith)
        requires
            value@ == vu * g,
            g > 0,
    ;
    assert(crate::decimal::magnitude(vu) + su < u - 1) by (nonlinear_arith)
        requires
            crate::decimal::magnitude(vu) * g + su * g < (u - 1) * g,
            g > 0,
    ;
    assert(crate::decimal::magnitude(value@) <= MAX_MANTISSA * step@) by (nonlinear_arith)
        requires
            crate::decimal::magnitude(value@) == crate::decimal::magnitude(vu) * g,
            step@ == su * g,
            crate::decimal::magnitude(vu) < u,
            u == crate::decimal::unit(),
            su > 0,
            g > 0,
    ;
    let e = x * su - vu * u;
    assert(x * step@ - value@ * u == e * g) by (nonlinear_arith)
        requires
            step@ == su * g,
            value@ == vu * g,
            e == x * su - vu * u,
    ;
    assert(crate::decimal::magnitude(e * g) == crate::decimal::magnitude(e) * g) by (nonlinear_arith)
        requires
            g > 0,
    ;
    let m = crate::decimal::magnitude(e);
    let y = u + crate::decimal::magnitude(x);
    assert(m * u <= su * y) by (nonlinear_arith)
        requires
            (m * g) * u <= (su * g) * y,
            g > 0,
    ;
    lemma_cancel(vu, su, g);
    lemma_cancel(-vu, su, g);
    assert(-value@ == (-vu) * g) by (nonlinear_arith)
        requires
            value@ == vu * g,
    ;
    if vu % su == 0 {
        assert(x * su == vu * u) by (nonlinear_arith)
            requires
                x * (su * g) == (vu * g) * u,
                g > 0,
        ;
    }
    lemma_nearby_quotient(vu, su, x, u);
}

/// Floor and ceiling in terms of the value.
proof fn lemma_floor_ceil(q: Decimal)
    requires
        q.wf(),
    ensures
        q.whole_below().spec_mantissa() == q@ / crate::decimal::unit(),
        q.whole_below().spec_scale() == 0,
        q.whole_above().spec_mantissa() == -((-q@) / crate::decimal::unit()),
        q.whole_above().spec_scale() == 0,
{
    let s = q.spec_scale();
    let p = crate::decimal::pow10(s as nat);
    let g = crate::decimal::pow10((28 - s) as nat);
    let m = q.spec_mantissa();
    crate::decimal::lemma_pow10_28();
    crate::decimal::lemma_pow10_positive(s as nat);
    crate::decimal::lemma_pow10_positive((28 - s) as nat);
    crate::decimal::lemma_pow10_adds(s as nat, (28 - s) as nat);
    assert(s as nat + (28 - s) as nat == 28);
    lemma_cancel(m, p, g);
    lemma_cancel(-m, p, g);
    assert((-m) * g == -(m * g)) by (nonlinear_arith);
    assert(crate::decimal::magnitude(m / p) <= crate::decimal::magnitude(m) && crate::decimal::magnitude((-m) / p) <= crate::decimal::magnitude(m))
        by (nonlinear_arith)
        requires
            p >= 1,
    ;
    broadcast use crate::decimal::lemma_of_parts;

    if s == 0 {
        assert(m / 1 == m && (-m) / 1 == -m);
    }
}

/// On a grid, that many steps are an exact amount.
proof fn lemma_multiple(value: Decimal, step: Decimal, count: Decimal, n: int, r: Decimal)
    requires
        value.wf(),
        step.wf(),
        value.on_grid_of(step),
        count.spec_mantissa() == n,
        count.spec_scale() == 0,
        n == value@ / step@ || n == -((-value@) / step@),
        count.multiplies_with(step) ==> r == count.full_product(step) && r@
            * crate::decimal::unit() == count@ * step@,
    ensures
        r@ == n * step@,
        r@ != 0 ==> r.spec_scale() == step.spec_scale(),
{
    let s = if value.spec_scale() >= step.spec_scale() {
        value.spec_scale()
    } else {
        step.spec_scale()
    };
    let g = crate::decimal::pow10((28 - s) as nat);
    let h = crate::decimal::pow10((28 - step.spec_scale()) as nat);
    let k = (s - step.spec_scale()) as nat;
    let m = step.spec_mantissa();
    let v = value@;
    let t = step@;
    crate::decimal::lemma_pow10_28();
    crate::decimal::lemma_pow10_positive((28 - s) as nat);
    crate::decimal::lemma_pow10_positive(k);
    crate::decimal::lemma_pow10_adds(k, (28 - s) as nat);
    assert(k + (28 - s) as nat == (28 - step.spec_scale()) as nat);
    assert(g <= h) by (nonlinear_arith)
        requires
            h == crate::decimal::pow10(k) * g,
            crate::decimal::pow10(k) >= 1,
            g > 0,
    ;
    assert(crate::decimal::magnitude(n * t) <= crate::decimal::magnitude(v) + t) by {
        vstd::arithmetic::div_mod::lemma_fundamental_div_mod(v, t);
        vstd::arithmetic::div_mod::lemma_fundamental_div_mod(-v, t);
        let a = v / t;
        let b = (-v) / t;
        assert(t * a == a * t) by (nonlinear_arith);
        assert(t * b == b * t) by (nonlinear_arith);
        assert((-b) * t == -(b * t)) by (nonlinear_arith);
    }
    let z = n * m;
    assert(n * t == z * h) by (nonlinear_arith)
        requires
            t == m * h,
            z == n * m,
    ;
    assert(crate::decimal::magnitude(z) * h == crate::decimal::magnitude(z * h)) by (nonlinear_arith)
        requires
            h > 0,
    ;
    let u = crate::decimal::unit();
    assert(crate::decimal::magnitude(z) < u) by (nonlinear_arith)
        requires
            crate::decimal::magnitude(z) * h < (u - 1) * g,
            0 < g <= h,
            u > 1,
    ;
    let x = r@;
    assert(x == n * t) by (nonlinear_arith)
        requires
            x * u == (n * u) * t,
            u > 1,
    ;
    crate::decimal::lemma_of_parts(z, step.spec_scale());
    crate::decimal::lemma_of_parts(0, 0);
    if z == 0 {
        assert(n * t == 0);
    }
}

/// The whole part of a quotient within `q / u` of its true value, on either side.
proof fn lemma_nearby_quotient(v: int, s: int, q: int, u: int)
    requires
        s > 0,
        u > 2,
        crate::decimal::magnitude(v) + s < u - 1,
        crate::decimal::magnitude(q * s - v * u) * u <= s * (u + crate::decimal::magnitude(q)),
        v % s == 0 ==> q * s == v * u,
    ensures
        q / u == v / s,
        (-q) / u == (-v) / s,
{
    let n = v / s;
    let r = v % s;
    vstd::arithmetic::div_mod::lemma_fundamental_div_mod(v, s);
    assert(v == n * s + r) by (nonlinear_arith)
        requires
            v == s * n + r,
    ;
    let e = q * s - v * u;
    assert(s * crate::decimal::magnitude(q) <= crate::decimal::magnitude(v) * u + crate::decimal::magnitude(e)) by {
        assert(s * crate::decimal::magnitude(q) == crate::decimal::magnitude(q * s)) by (nonlinear_arith)
            requires
                s > 0,
        ;
        assert(crate::decimal::magnitude(v * u) == crate::decimal::magnitude(v) * u) by (nonlinear_arith)
            requires
                u > 0,
        ;
    }
    assert(crate::decimal::magnitude(e) < u - 1) by {
        assert(s * (u + crate::decimal::magnitude(q)) == s * u + s * crate::decimal::magnitude(q)) by (nonlinear_arith);
        assert(crate::decimal::magnitude(e) * u <= (s + crate::decimal::magnitude(v)) * u + crate::decimal::magnitude(e)) by {
            assert(s * u + crate::decimal::magnitude(v) * u == (s + crate::decimal::magnitude(v)) * u) by (nonlinear_arith);
        }
        let m = crate::decimal::magnitude(e);
        let w = s + crate::decimal::magnitude(v);
        assert(m < u - 1) by (nonlinear_arith)
            requires
                m * u <= w * u + m,
                w <= u - 2,
                u > 2,
                m >= 0,
        ;
    }
    if r == 0 {
        assert(q == n * u) by (nonlinear_arith)
            requires
                q * s == v * u,
                v == n * s,
                s > 0,
        ;
        assert(q / u == n) by (nonlinear_arith)
            requires
                q == n * u,
                u > 0,
        ;
        assert((-q) / u == -n) by (nonlinear_arith)
            requires
                q == n * u,
                u > 0,
        ;
        assert((-v) / s == -n) by (nonlinear_arith)
            requires
                v == n * s,
                s > 0,
        ;
    } else {
        assert(1 <= r <= s - 1);
        assert(n * u < q) by (nonlinear_arith)
            requires
                q * s == v * u + e,
                v == n * s + r,
                1 <= r,
                -(u - 1) < e,
                s > 0,
                u > 2,
        ;
        assert(q < (n + 1) * u) by (nonlinear_arith)
            requires
                q * s == v * u + e,
                v == n * s + r,
                r <= s - 1,
                e < u - 1,
                s > 0,
                u > 2,
        ;
        assert(q / u == n) by (nonlinear_arith)
            requires
                n * u < q < (n + 1) * u,
                u > 0,
        ;
        assert((-q) / u == -n - 1) by (nonlinear_arith)
            requires
                n * u < q < (n + 1) * u,
                u > 0,
        ;
        assert((-v) / s == -n - 1) by (nonlinear_arith)
            requires
                v == n * s + r,
                1 <= r <= s - 1,
                s > 0,
        ;
    }
}

} // verus!
