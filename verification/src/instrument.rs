//! Contracts and fees.

use vstd::prelude::*;
use crate::clock::Timestamp;
use crate::decimal::Decimal;
use crate::precision::Precision;

verus! {

/// The kind of contract.
#[derive(Clone, Copy, Debug, PartialEq, Eq, Hash, Structural)]
pub enum ContractKind {
    CryptoPerp,
    /// Stocks and commodities.
    TradFiPerp,
}

/// Where a fee rate comes from.
#[derive(Clone, Copy, Debug, PartialEq, Eq, Hash, Structural)]
pub enum FeeSource {
    /// The account, as the exchange reports it.
    ExchangeAccount,
    /// The exchange's rules.
    ExchangeRules,
    /// A promotion that has not been checked against the account.
    PromotionalAssumed,
    /// A configured fallback.
    ConfiguredDefault,
}

impl FeeSource {
    /// Whether the rate is known from the exchange itself.
    pub fn is_authoritative(self) -> (r: bool)
        ensures
            r == (self is ExchangeAccount || self is ExchangeRules),
    {
        matches!(self, FeeSource::ExchangeAccount | FeeSource::ExchangeRules)
    }
}

/// Fee rates as fractions (0.0002 is two basis points).
#[derive(Clone, Copy, Debug, PartialEq, Eq)]
pub struct FeeSchedule {
    pub maker_rate: Decimal,
    pub taker_rate: Decimal,
    pub source: FeeSource,
    pub observed_at: Timestamp,
}

/// The rules of a contract.
#[derive(Debug, PartialEq, Eq)]
pub struct Instrument {
    pub symbol: String,
    pub kind: ContractKind,
    pub base_asset: String,
    pub quote_asset: String,
    /// The asset that margin is taken from.
    pub margin_asset: String,
    /// The asset that profit, loss and fees are booked in.
    pub settlement_asset: String,
    pub precision: Precision,
    /// The maintenance margin rate in percent, as the exchange gives it.
    pub maint_margin_pct: Decimal,
    /// The initial margin rate in percent.
    pub required_margin_pct: Decimal,
    /// The fee rate of a liquidation.
    pub liquidation_fee: Decimal,
    pub fees: FeeSchedule,
}

impl Instrument {
    /// The part of the entry price that the margin of a position leaves room for: one over the
    /// leverage, less the maintenance margin rate.
    pub open spec fn margin_buffer(self, leverage: Decimal) -> Decimal {
        Decimal::whole(1).per(leverage).less(self.maint_margin_pct.per(Decimal::whole(100)))
    }

    /// The price at which a position would be liquidated; `None` where the leverage leaves no
    /// room at all.
    pub open spec fn liquidation_price(
        self,
        entry: Decimal,
        leverage: Decimal,
        is_long: bool,
    ) -> Option<Decimal> {
        if leverage@ <= 0 || self.margin_buffer(leverage)@ <= 0 {
            None
        } else if is_long {
            Some(entry.prod(Decimal::whole(1).less(self.margin_buffer(leverage))))
        } else {
            Some(entry.prod(Decimal::whole(1).sum(self.margin_buffer(leverage))))
        }
    }

    /// Whether a stop is reached before the liquidation price.
    pub open spec fn stop_comes_first(
        self,
        entry: Decimal,
        stop: Decimal,
        leverage: Decimal,
        is_long: bool,
    ) -> bool {
        match self.liquidation_price(entry, leverage, is_long) {
            None => false,
            Some(price) => if is_long {
                stop@ > price@
            } else {
                stop@ < price@
            },
        }
    }

    /// Estimates the liquidation price of a position from its leverage and the exchange's
    /// maintenance margin rate.
    pub fn liquidation_price_estimate(
        &self,
        entry: Decimal,
        leverage: Decimal,
        is_long: bool,
    ) -> (r: Option<Decimal>)
        ensures
            r == self.liquidation_price(entry, leverage, is_long),
    {
        if leverage <= Decimal::zero() {
            return None;
        }
        let buffer = Decimal::one() / leverage - self.maint_margin_pct / Decimal::from_int(100);
        if buffer <= Decimal::zero() {
            return None;
        }
        if is_long {
            Some(entry * (Decimal::one() - buffer))
        } else {
            Some(entry * (Decimal::one() + buffer))
        }
    }

    /// Whether a stop is reached before the estimated liquidation price.
    pub fn stop_precedes_liquidation(
        &self,
        entry: Decimal,
        stop: Decimal,
        leverage: Decimal,
        is_long: bool,
    ) -> (r: bool)
        ensures
            r == self.stop_comes_first(entry, stop, leverage, is_long),
    {
        match self.liquidation_price_estimate(entry, leverage, is_long) {
            None => false,
            Some(price) => if is_long {
                stop > price
            } else {
                stop < price
            },
        }
    }
}

impl Clone for Instrument {
    fn clone(&self) -> (r: Self)
        ensures
            r == *self,
    {
        Instrument {
            symbol: self.symbol.clone(),
            kind: self.kind,
            base_asset: self.base_asset.clone(),
            quote_asset: self.quote_asset.clone(),
            margin_asset: self.margin_asset.clone(),
            settlement_asset: self.settlement_asset.clone(),
            precision: self.precision,
            maint_margin_pct: self.maint_margin_pct,
            required_margin_pct: self.required_margin_pct,
            liquidation_fee: self.liquidation_fee,
            fees: self.fees,
        }
    }
}

impl Instrument {
    /// The liquidation price is computed without rounding.
    pub open spec fn liquidates_exactly(self, entry: Decimal, leverage: Decimal) -> bool {
        let inverse = Decimal::whole(1).per(leverage);
        let rate = self.maint_margin_pct.per(Decimal::whole(100));
        let buffer = inverse.less(rate);
        &&& Decimal::whole(1).divides_exactly(leverage)
        &&& self.maint_margin_pct.divides_exactly(Decimal::whole(100))
        &&& inverse.subtracts_exactly(rate)
        &&& Decimal::whole(1).subtracts_exactly(buffer)
        &&& Decimal::whole(1).adds_exactly(buffer)
        &&& entry.multiplies_exactly(Decimal::whole(1).less(buffer))
        &&& entry.multiplies_exactly(Decimal::whole(1).sum(buffer))
    }
}

/// There is a liquidation price exactly where one over the leverage exceeds the maintenance margin
/// rate. It is that excess, as a fraction of the entry price, away from it: below the entry price
/// for a long and above it for a short position.
pub proof fn law_liquidation_price_is_the_margin_away(
    instrument: Instrument,
    entry: Decimal,
    leverage: Decimal,
    is_long: bool,
)
    requires
        leverage@ > 0 ==> instrument.liquidates_exactly(entry, leverage),
    ensures
        instrument.liquidation_price(entry, leverage, is_long) is Some <==> leverage@ > 0 && 100
            * crate::decimal::unit() * crate::decimal::unit() > instrument.maint_margin_pct@
            * leverage@,
        instrument.liquidation_price(entry, leverage, is_long) matches Some(price) ==> ({
            let away = if is_long {
                entry@ - price@
            } else {
                price@ - entry@
            };
            100 * away * crate::decimal::unit() * leverage@ == entry@ * (100
                * crate::decimal::unit() * crate::decimal::unit() - instrument.maint_margin_pct@
                * leverage@)
        }),
{
    if leverage@ > 0 {
        crate::decimal::lemma_of_parts(1, 0);
        crate::decimal::lemma_of_parts(100, 0);
        crate::decimal::lemma_pow10_28();
        let u = crate::decimal::unit();
        let l = leverage@;
        let p = instrument.maint_margin_pct@;
        let inv = Decimal::whole(1).per(leverage)@;
        let rate = instrument.maint_margin_pct.per(Decimal::whole(100))@;
        let b = instrument.margin_buffer(leverage)@;
        assert(100 * rate == p) by (nonlinear_arith)
            requires
                rate * (100 * u) == p * u,
                u > 0,
        ;
        let x = 100 * u * u - p * l;
        assert(100 * (b * l) == x) by (nonlinear_arith)
            requires
                b == inv - rate,
                inv * l == u * u,
                100 * rate == p,
                x == 100 * u * u - p * l,
        ;
        assert(b > 0 <==> b * l > 0) by (nonlinear_arith)
            requires
                l > 0,
        ;
        if b > 0 {
            let e = entry@;
            let price = instrument.liquidation_price(entry, leverage, is_long)->0@;
            let away = if is_long {
                e - price
            } else {
                price - e
            };
            assert(e * (u - b) == e * u - e * b) by (nonlinear_arith);
            assert(e * (u + b) == e * u + e * b) by (nonlinear_arith);
            assert((e - price) * u == e * u - price * u) by (nonlinear_arith);
            assert((price - e) * u == price * u - e * u) by (nonlinear_arith);
            assert(away * u == e * b);
            assert(100 * away * u * l == e * x) by (nonlinear_arith)
                requires
                    away * u == e * b,
                    100 * (b * l) == x,
            ;
        }
    }
}

} // verus!
