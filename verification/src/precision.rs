//! Aligning prices and quantities to the exchange's tick and step.
//!
//! A caller says what a price is for; the rounding direction follows from that and from the
//! side of the order, and is chosen nowhere else.

use vstd::prelude::*;
use crate::decimal::Decimal;
use crate::error::DomainError;
use crate::money::{Price, Qty};
use crate::order::Side;
use crate::quantize::{quantize_down, quantize_up};

verus! {

/// What a price is for.
#[derive(Clone, Copy, Debug, PartialEq, Eq, Hash, Structural)]
pub enum PriceRole {
    /// A resting entry: it must not cross the other side of the book.
    PassiveEntry,
    /// A profit target: on the far side of the target.
    TakeProfit,
    /// A stop: on the side where it is reached earlier.
    StopLoss,
}

impl PriceRole {
    /// Whether a price of this role is rounded up for an order of this side.
    pub open spec fn rounds_up(self, order_side: Side) -> bool {
        match self {
            PriceRole::PassiveEntry => order_side is Sell,
            PriceRole::TakeProfit => order_side is Sell,
            PriceRole::StopLoss => order_side is Buy,
        }
    }
}

/// A profit target and a stop of the same order side are rounded in opposite directions, and so
/// are the two sides of every role.
pub proof fn law_rounding_directions(side: Side)
    ensures
        PriceRole::TakeProfit.rounds_up(side) != PriceRole::StopLoss.rounds_up(side),
        PriceRole::PassiveEntry.rounds_up(side) == PriceRole::TakeProfit.rounds_up(side),
        forall|role: PriceRole|
            #[trigger] role.rounds_up(side) != role.rounds_up(side.flipped()),
{
}

/// The exchange's rules for prices and quantities.
#[derive(Clone, Copy, Debug, PartialEq, Eq)]
pub struct Precision {
    pub tick_size: Decimal,
    pub step_size: Decimal,
    pub min_qty: Decimal,
    pub min_notional: Decimal,
}

impl Precision {
    /// The price on the tick grid that stands for `raw`.
    pub open spec fn aligned(self, order_side: Side, raw: Decimal, role: PriceRole) -> Decimal {
        if role.rounds_up(order_side) {
            raw.stepped_up(self.tick_size)
        } else {
            raw.stepped_down(self.tick_size)
        }
    }

    /// Whether a price is a multiple of the tick, written with as many decimal places.
    pub open spec fn on_tick_grid(self, price: Decimal) -> bool {
        &&& price@ > 0
        &&& price.on_grid_of(self.tick_size)
        &&& price@ % self.tick_size@ == 0
        &&& price.spec_scale() == self.tick_size.spec_scale()
    }

    /// What [`Precision::price_for`] answers.
    pub open spec fn priced(self, order_side: Side, raw: Decimal, role: PriceRole) -> Result<
        Price,
        DomainError,
    > {
        if raw@ <= 0 {
            Err(DomainError::NonPositivePrice(raw))
        } else if self.tick_size@ <= 0 {
            Err(DomainError::InvalidTickSize(self.tick_size))
        } else if self.aligned(order_side, raw, role)@ <= 0 {
            Err(DomainError::QuantizedToZero { raw, tick: self.tick_size })
        } else {
            Ok(Price(self.aligned(order_side, raw, role)))
        }
    }

    /// What [`Precision::price_or_raw`] answers.
    pub open spec fn priced_or_raw(self, order_side: Side, raw: Decimal, role: PriceRole) -> Decimal {
        match self.priced(order_side, raw, role) {
            Ok(p) => p.0,
            Err(_) => raw,
        }
    }

    /// What [`Precision::quantity`] answers.
    pub open spec fn sized(self, raw: Decimal) -> Result<Qty, DomainError> {
        if raw@ <= 0 {
            Err(DomainError::NonPositiveQuantity(raw))
        } else if self.step_size@ <= 0 {
            Err(DomainError::InvalidStepSize(self.step_size))
        } else if raw.stepped_down(self.step_size)@ <= 0 {
            Err(DomainError::QuantityBelowStep { raw, step: self.step_size })
        } else {
            Ok(Qty(raw.stepped_down(self.step_size)))
        }
    }

    /// What [`Precision::quantity_or_zero`] answers.
    pub open spec fn sized_or_zero(self, raw: Decimal) -> Result<Qty, DomainError> {
        if raw@ < 0 {
            Err(DomainError::NonPositiveQuantity(raw))
        } else if self.step_size@ <= 0 {
            Err(DomainError::InvalidStepSize(self.step_size))
        } else {
            Ok(Qty(raw.stepped_down(self.step_size)))
        }
    }

    /// What [`Precision::check_order_size`] answers.
    pub open spec fn size_verdict(self, qty: Qty, price: Price) -> Result<(), DomainError> {
        if qty.0@ < self.min_qty@ {
            Err(DomainError::BelowMinQty { qty: qty.0, min: self.min_qty })
        } else if qty.0.prod(price.0)@ < self.min_notional@ {
            Err(
                DomainError::BelowMinNotional {
                    notional: qty.0.prod(price.0),
                    min: self.min_notional,
                },
            )
        } else {
            Ok(())
        }
    }

    /// Aligns a price to the tick. `order_side` is the side of the order itself.
    ///
    /// On the tick grid a price that is rounded down is the last tick at or below the raw price,
    /// and one that is rounded up is the first tick at or above it; a price that is rounded down
    /// from below the first tick comes to nothing. A price on the grid stands for itself, so that
    /// aligning once more changes nothing.
    pub fn price_for(&self, order_side: Side, raw: Decimal, role: PriceRole) -> (r: Result<
        Price,
        DomainError,
    >)
        ensures
            r == self.priced(order_side, raw, role),
            r is Ok && raw.on_grid_of(self.tick_size) ==> r->Ok_0.0@ == (if role.rounds_up(
                order_side,
            ) {
                -((-raw@) / self.tick_size@) * self.tick_size@
            } else {
                (raw@ / self.tick_size@) * self.tick_size@
            }),
            r is Ok && raw.on_grid_of(self.tick_size) ==> r->Ok_0.0@ % self.tick_size@ == 0,
            r is Ok && raw.on_grid_of(self.tick_size) && raw@ % self.tick_size@ == 0
                ==> r->Ok_0.0@ == raw@,
            raw@ > 0 && raw.on_grid_of(self.tick_size) ==> (r is Ok <==> role.rounds_up(order_side)
                || raw@ >= self.tick_size@),
            r is Ok && raw.with_room_on(self.tick_size) ==> self.on_tick_grid(r->Ok_0.0),
            self.on_tick_grid(raw) ==> r == Ok::<Price, DomainError>(Price(raw)),
    {
        proof {
            use_type_invariant(&raw);
            use_type_invariant(&self.tick_size);
        }
        if raw <= Decimal::zero() {
            return Err(DomainError::NonPositivePrice(raw));
        }
        if self.tick_size <= Decimal::zero() {
            return Err(DomainError::InvalidTickSize(self.tick_size));
        }
        let round_up = match (role, order_side) {
            (PriceRole::PassiveEntry, Side::Buy) => false,
            (PriceRole::PassiveEntry, Side::Sell) => true,
            (PriceRole::TakeProfit, Side::Buy) => false,
            (PriceRole::TakeProfit, Side::Sell) => true,
            (PriceRole::StopLoss, Side::Buy) => true,
            (PriceRole::StopLoss, Side::Sell) => false,
        };
        proof {
            law_grid_neighbours(raw@, self.tick_size@);
        }
        let stepped = if round_up {
            quantize_up(raw, self.tick_size)
        } else {
            quantize_down(raw, self.tick_size)
        };
        proof {
            if raw.on_grid_of(self.tick_size) {
                lemma_first_tick(raw@, self.tick_size@);
            }
            if raw.with_room_on(self.tick_size) && stepped@ > 0 {
                lemma_stays_on_grid(raw, self.tick_size, stepped);
            }
            if self.on_tick_grid(raw) {
                crate::decimal::lemma_same_amount(stepped, raw);
            }
        }
        if stepped <= Decimal::zero() {
            return Err(DomainError::QuantizedToZero { raw, tick: self.tick_size });
        }
        Ok(Price::new(stepped))
    }

    /// A price aligned to the tick, or as it is where it cannot be.
    pub fn price_or_raw(&self, order_side: Side, raw: Decimal, role: PriceRole) -> (r: Decimal)
        ensures
            r == self.priced_or_raw(order_side, raw, role),
    {
        match self.price_for(order_side, raw, role) {
            Ok(p) => p.get(),
            Err(_) => raw,
        }
    }

    /// Aligns a quantity to the step, always downwards. A quantity on the grid stands for itself.
    pub fn quantity(&self, raw: Decimal) -> (r: Result<Qty, DomainError>)
        ensures
            r == self.sized(raw),
            r is Ok && raw.on_grid_of(self.step_size) ==> r->Ok_0.0@ == (raw@ / self.step_size@)
                * self.step_size@ && r->Ok_0.0@ <= raw@ && r->Ok_0.0@ % self.step_size@ == 0,
            r is Ok && raw.on_grid_of(self.step_size) && raw@ % self.step_size@ == 0
                ==> r->Ok_0.0@ == raw@,
    {
        if raw <= Decimal::zero() {
            return Err(DomainError::NonPositiveQuantity(raw));
        }
        if self.step_size <= Decimal::zero() {
            return Err(DomainError::InvalidStepSize(self.step_size));
        }
        proof {
            law_grid_neighbours(raw@, self.step_size@);
        }
        let stepped = quantize_down(raw, self.step_size);
        if stepped <= Decimal::zero() {
            return Err(DomainError::QuantityBelowStep { raw, step: self.step_size });
        }
        Ok(Qty::new(stepped))
    }

    /// Aligns a quantity to the step, and lets a quantity below one step become zero.
    pub fn quantity_or_zero(&self, raw: Decimal) -> (r: Result<Qty, DomainError>)
        ensures
            r == self.sized_or_zero(raw),
            r is Ok && raw.on_grid_of(self.step_size) ==> r->Ok_0.0@ == (raw@ / self.step_size@)
                * self.step_size@ && r->Ok_0.0@ <= raw@ && r->Ok_0.0@ % self.step_size@ == 0,
            r is Ok && raw.on_grid_of(self.step_size) && raw@ % self.step_size@ == 0
                ==> r->Ok_0.0@ == raw@,
    {
        if raw < Decimal::zero() {
            return Err(DomainError::NonPositiveQuantity(raw));
        }
        if self.step_size <= Decimal::zero() {
            return Err(DomainError::InvalidStepSize(self.step_size));
        }
        proof {
            law_grid_neighbours(raw@, self.step_size@);
        }
        Ok(Qty::new(quantize_down(raw, self.step_size)))
    }

    /// Checks an order against the minimum quantity and the minimum notional.
    pub fn check_order_size(&self, qty: Qty, price: Price) -> (r: Result<(), DomainError>)
        ensures
            r == self.size_verdict(qty, price),
    {
        if qty.get() < self.min_qty {
            return Err(DomainError::BelowMinQty { qty: qty.get(), min: self.min_qty });
        }
        let notional = qty.get() * price.get();
        if notional < self.min_notional {
            return Err(DomainError::BelowMinNotional { notional, min: self.min_notional });
        }
        Ok(())
    }
}

/// A positive amount is rounded down to nothing where it is below one step, and never up to it.
proof fn lemma_first_tick(raw: int, step: int)
    requires
        step > 0,
    ensures
        raw > 0 ==> ((raw / step) * step > 0 <==> raw >= step),
        raw > 0 ==> -((-raw) / step) * step > 0,
{
    law_grid_neighbours(raw, step);
    let n = raw / step;
    if raw > 0 {
        assert(n * step > 0 <==> raw >= step) by (nonlinear_arith)
            requires
                n * step <= raw < n * step + step,
                step > 0,
                raw > 0,
        ;
    }
}

/// A multiple of a step within one step of an amount is on the grid where there is room.
proof fn lemma_stays_on_grid(raw: Decimal, step: Decimal, p: Decimal)
    requires
        raw.wf(),
        step.wf(),
        raw.with_room_on(step),
        p.spec_scale() == step.spec_scale(),
        0 < p@ < raw@ + step@,
    ensures
        p.on_grid_of(step),
{
    let s = if raw.spec_scale() >= step.spec_scale() {
        raw.spec_scale()
    } else {
        step.spec_scale()
    };
    let k = (s - step.spec_scale()) as nat;
    let g = crate::decimal::pow10((28 - s) as nat);
    let h = crate::decimal::pow10((28 - step.spec_scale()) as nat);
    let u = crate::decimal::unit();
    crate::decimal::lemma_pow10_positive(k);
    crate::decimal::lemma_pow10_positive((28 - s) as nat);
    crate::decimal::lemma_pow10_adds(k, (28 - s) as nat);
    assert(k + (28 - s) as nat == (28 - step.spec_scale()) as nat);
    assert((u - 1) * g <= (u - 1) * h) by (nonlinear_arith)
        requires
            h == crate::decimal::pow10(k) * g,
            crate::decimal::pow10(k) >= 1,
            g > 0,
            u > 1,
    ;
}

/// Of two consecutive multiples of a positive step, the one below an amount and the one above
/// it: neither is further than one step away, and a multiple of the step stands for itself.
pub proof fn law_grid_neighbours(raw: int, step: int)
    requires
        step > 0,
    ensures
        (raw / step) * step <= raw < (raw / step) * step + step,
        -((-raw) / step) * step - step < raw <= -((-raw) / step) * step,
        raw % step == 0 ==> (raw / step) * step == raw && -((-raw) / step) * step == raw,
        ((raw / step) * step) / step == raw / step,
        ((raw / step) * step) % step == 0,
        (-((-raw) / step) * step) % step == 0,
{
    let n = raw / step;
    let m = (-raw) / step;
    vstd::arithmetic::div_mod::lemma_fundamental_div_mod(raw, step);
    vstd::arithmetic::div_mod::lemma_fundamental_div_mod(-raw, step);
    assert(step * n == n * step) by (nonlinear_arith);
    assert(step * m == m * step) by (nonlinear_arith);
    assert((-m) * step == -(m * step)) by (nonlinear_arith);
    vstd::arithmetic::div_mod::lemma_fundamental_div_mod_converse(n * step, step, n, 0);
    vstd::arithmetic::div_mod::lemma_fundamental_div_mod_converse((-m) * step, step, -m, 0);
    if raw % step == 0 {
        assert((-raw) == (-n) * step) by (nonlinear_arith)
            requires
                raw == n * step,
        ;
        vstd::arithmetic::div_mod::lemma_fundamental_div_mod_converse(-raw, step, -n, 0);
        assert((-(-n)) * step == n * step) by (nonlinear_arith);
    }
}

/// An order is large enough exactly where its quantity is at least the minimum and its quantity
/// times its price at least the minimum value; a quantity below the minimum is named first.
pub proof fn law_order_sizes_meet_both_minimums(precision: Precision, qty: Qty, price: Price)
    requires
        qty.0.multiplies_exactly(price.0),
    ensures
        ({
            let enough = qty.0@ >= precision.min_qty@;
            let worth = qty.0@ * price.0@ >= precision.min_notional@ * crate::decimal::unit();
            &&& precision.size_verdict(qty, price) is Ok <==> enough && worth
            &&& !enough ==> precision.size_verdict(qty, price) == Err::<(), DomainError>(
                DomainError::BelowMinQty { qty: qty.0, min: precision.min_qty },
            )
            &&& enough && !worth ==> precision.size_verdict(qty, price) matches Err(
                DomainError::BelowMinNotional { .. },
            )
        }),
{
    let u = crate::decimal::unit();
    let n = qty.0.prod(price.0)@;
    let m = precision.min_notional@;
    assert(n < m <==> n * u < m * u) by (nonlinear_arith)
        requires
            u > 0,
    ;
}

/// A resting entry is never priced towards the other side of the book, a profit target never
/// nearer than planned, and a stop never further away: a buyer's entry or target is rounded down and
/// a seller's up, a stop that buys is rounded up and one that sells down.
pub proof fn law_rounding_is_on_the_safe_side(side: Side, role: PriceRole)
    ensures
        role is PassiveEntry || role is TakeProfit ==> (role.rounds_up(side) <==> side is Sell),
        role is StopLoss ==> (role.rounds_up(side) <==> side is Buy),
{
}

} // verus!
