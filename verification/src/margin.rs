//! Cross margin: what a position costs and where it is liquidated.
//!
//! A position with quantity `Q` entered at `EP` with a wallet of `WB` is liquidated where
//! `WB + s*Q*(P - EP) = Q*P*MMR`, with `s = 1` for a long and `-1` for a short position. The
//! leverage decides what margin is taken up, and nothing else: it is no argument of
//! [`cross_liquidation`].

use vstd::prelude::*;
use crate::decimal::Decimal;
use crate::instrument::Instrument;
use crate::money::Qty;
use crate::order::Side;

verus! {

/// How margin is kept: across the account, always.
#[derive(Clone, Copy, Debug, PartialEq, Eq, Structural)]
pub enum MarginMode {
    Cross,
}

impl Default for MarginMode {
    fn default() -> (r: Self)
        ensures
            r is Cross,
    {
        MarginMode::Cross
    }
}

impl MarginMode {
    /// The exchange's word.
    pub fn tag(self) -> (r: &'static str)
        ensures
            r@ == "CROSS"@,
    {
        match self {
            MarginMode::Cross => "CROSS",
        }
    }

    /// The name shown to users.
    pub fn label(self) -> (r: &'static str)
        ensures
            r@ == "全仓"@,
    {
        match self {
            MarginMode::Cross => "全仓",
        }
    }
}

/// What the exchange says of how margin is kept.
#[derive(Clone, Copy, Debug, PartialEq, Eq, Structural)]
pub enum ObservedMarginMode {
    Cross,
    Isolated,
    Unknown,
}

impl Default for ObservedMarginMode {
    fn default() -> (r: Self)
        ensures
            r is Unknown,
    {
        ObservedMarginMode::Unknown
    }
}

impl ObservedMarginMode {
    /// The name shown to users.
    pub fn label(self) -> (r: &'static str)
        ensures
            r@ == (match self {
                ObservedMarginMode::Cross => "全仓"@,
                ObservedMarginMode::Isolated => "逐仓"@,
                ObservedMarginMode::Unknown => "未知"@,
            }),
    {
        match self {
            ObservedMarginMode::Cross => "全仓",
            ObservedMarginMode::Isolated => "逐仓",
            ObservedMarginMode::Unknown => "未知",
        }
    }
}

/// The margin of an account, in one asset.
#[derive(Debug, PartialEq, Eq)]
pub struct MarginAccount {
    pub asset: String,
    /// Settled cash, without unrealised results.
    pub wallet_balance: Decimal,
    /// The initial margin that is taken up.
    pub used_initial_margin: Decimal,
}

impl MarginAccount {
    /// An account without positions.
    pub fn flat(asset: String, wallet_balance: Decimal) -> (r: Self)
        ensures
            r.asset == asset,
            r.wallet_balance == wallet_balance,
            r.used_initial_margin == Decimal::whole(0),
    {
        MarginAccount { asset, wallet_balance, used_initial_margin: Decimal::zero() }
    }

    /// What is left for initial margin.
    pub fn available(&self) -> (r: Decimal)
        ensures
            r == self.wallet_balance.less(self.used_initial_margin),
            r == self.free(),
            r@ < 0 <==> self.wallet_balance@ < self.used_initial_margin@,
            self.wallet_balance.aligns_with(self.used_initial_margin) ==> r@ == self.wallet_balance@
                - self.used_initial_margin@,
    {
        self.wallet_balance.minus(self.used_initial_margin)
    }
}

/// A position about to be opened.
#[derive(Clone, Copy, Debug)]
pub struct EntryExposure<'a> {
    pub account: &'a MarginAccount,
    pub side: Side,
    pub entry: Decimal,
    pub quantity: Qty,
    /// Decides the initial margin only.
    pub leverage: Decimal,
}

impl Decimal {
    /// The initial margin of a notional value. A leverage below one counts as one.
    pub open spec fn margin_at(self, leverage: Decimal) -> Decimal {
        self.per(leverage.larger(Decimal::whole(1)))
    }
}

/// The initial margin of a notional value. A leverage below one counts as one.
pub fn initial_margin(notional: Decimal, leverage: Decimal) -> (r: Decimal)
    ensures
        r == notional.margin_at(leverage),
{
    notional / leverage.max(Decimal::one())
}

/// Where a position is liquidated.
#[derive(Clone, Copy, Debug, PartialEq, Eq)]
pub enum CrossLiquidation {
    /// At no positive price.
    Never,
    /// At a price, which is not aligned to the tick.
    At(Decimal),
    /// At once: the wallet does not even cover the maintenance margin.
    Immediate,
}

/// Why the liquidation price cannot be estimated.
#[derive(Clone, Copy, Debug, PartialEq, Eq, Structural)]
pub enum MarginError {
    /// The account and the contract take their margin from different assets.
    AssetMismatch,
    /// The quantity or the price is not positive.
    NonPositive,
}

impl MarginError {
    /// The message for an operator.
    pub fn message(self) -> (r: &'static str)
        ensures
            r@ == (match self {
                MarginError::AssetMismatch =>
                    "账户保证金资产与合约保证金资产不一致，无法估算全仓强平"@,
                MarginError::NonPositive => "数量或入场价非正，无法估算全仓强平"@,
            }),
    {
        match self {
            MarginError::AssetMismatch =>
                "账户保证金资产与合约保证金资产不一致，无法估算全仓强平",
            MarginError::NonPositive => "数量或入场价非正，无法估算全仓强平",
        }
    }
}

impl Instrument {
    /// The maintenance margin rate as a fraction.
    pub open spec fn maintenance_rate(self) -> Decimal {
        self.maint_margin_pct.per(Decimal::whole(100))
    }

    /// The price that solves the liquidation condition.
    pub open spec fn cross_price(
        self,
        wallet: Decimal,
        side: Side,
        entry: Decimal,
        q: Decimal,
    ) -> Decimal {
        let mmr = self.maintenance_rate();
        let notional = q.prod(entry);
        match side {
            Side::Buy => notional.less(wallet).per(q.prod(Decimal::whole(1).less(mmr))),
            Side::Sell => wallet.sum(notional).per(q.prod(Decimal::whole(1).sum(mmr))),
        }
    }

    /// What [`cross_liquidation`] answers.
    pub open spec fn cross_outcome(
        self,
        account: MarginAccount,
        side: Side,
        entry: Decimal,
        quantity: Qty,
    ) -> Result<CrossLiquidation, MarginError> {
        let q = quantity.0;
        let price = self.cross_price(account.wallet_balance, side, entry, q);
        if account.asset@ != self.margin_asset@ {
            Err(MarginError::AssetMismatch)
        } else if q@ <= 0 || entry@ <= 0 {
            Err(MarginError::NonPositive)
        } else if account.wallet_balance@ <= q.prod(entry).prod(self.maintenance_rate())@ {
            Ok(CrossLiquidation::Immediate)
        } else if price@ <= 0 {
            Ok(CrossLiquidation::Never)
        } else {
            Ok(CrossLiquidation::At(price))
        }
    }
}

/// By how much the liquidation condition is missed at a price, as a multiple of `10^-84`: the wallet
/// with the result of the position, less the maintenance margin.
pub open spec fn balance_gap(side: Side, wallet: int, q: int, entry: int, price: int, mmr: int) -> int {
    let u = crate::decimal::unit();
    match side {
        Side::Buy => wallet * u * u + q * (price - entry) * u - q * price * mmr,
        Side::Sell => wallet * u * u - q * (price - entry) * u - q * price * mmr,
    }
}

impl Instrument {
    /// The quantity per unit of price by which the liquidation condition is solved.
    pub open spec fn cross_share(self, side: Side) -> Decimal {
        match side {
            Side::Buy => Decimal::whole(1).less(self.maintenance_rate()),
            Side::Sell => Decimal::whole(1).sum(self.maintenance_rate()),
        }
    }

    /// Everything but the last quotient is computed without rounding, and that is in range.
    pub open spec fn solves_exactly(
        self,
        wallet: Decimal,
        side: Side,
        entry: Decimal,
        q: Decimal,
    ) -> bool {
        let notional = q.prod(entry);
        let share = self.cross_share(side);
        let due = match side {
            Side::Buy => notional.less(wallet),
            Side::Sell => wallet.sum(notional),
        };
        &&& q.multiplies_with(entry)
        &&& notional.aligns_with(wallet) && wallet.aligns_with(notional)
        &&& Decimal::whole(1).aligns_with(self.maintenance_rate())
        &&& q.multiplies_with(share)
        &&& q.prod(share)@ != 0
        &&& crate::decimal::magnitude(due@) <= crate::decimal::MAX_MANTISSA
            * crate::decimal::magnitude(q.prod(share)@)
    }
}

/// A quotient within its rounding of the price that solves the liquidation condition misses the
/// condition by no more than that.
proof fn lemma_balance(
    side: Side,
    wallet: int,
    q: int,
    entry: int,
    price: int,
    mmr: int,
    n: int,
    due: int,
    share: int,
    d: int,
)
    requires
        n * crate::decimal::unit() == q * entry,
        due == (match side {
            Side::Buy => n - wallet,
            Side::Sell => wallet + n,
        }),
        share == (match side {
            Side::Buy => crate::decimal::unit() - mmr,
            Side::Sell => crate::decimal::unit() + mmr,
        }),
        d * crate::decimal::unit() == q * share,
        price >= 0,
        crate::decimal::magnitude(price * d - due * crate::decimal::unit())
            * crate::decimal::unit() <= crate::decimal::magnitude(d) * (crate::decimal::unit()
            + price),
    ensures
        crate::decimal::magnitude(balance_gap(side, wallet, q, entry, price, mmr))
            * crate::decimal::unit() <= crate::decimal::magnitude(q * share) * (
        crate::decimal::unit() + price),
{
    let u = crate::decimal::unit();
    let miss = price * d - due * u;
    let gap = balance_gap(side, wallet, q, entry, price, mmr);
    let qp = q * price;
    let qe = q * entry;
    assert(price * (q * (u - mmr)) == qp * u - qp * mmr) by (nonlinear_arith)
        requires
            qp == q * price,
    ;
    assert(price * (q * (u + mmr)) == qp * u + qp * mmr) by (nonlinear_arith)
        requires
            qp == q * price,
    ;
    assert(q * (price - entry) * u == qp * u - qe * u) by (nonlinear_arith)
        requires
            qp == q * price,
            qe == q * entry,
    ;
    assert((price * d - due * u) * u == price * (d * u) - (due * u) * u) by (nonlinear_arith);
    assert(((n - wallet) * u) * u == (n * u) * u - wallet * u * u) by (nonlinear_arith);
    assert(((wallet + n) * u) * u == (n * u) * u + wallet * u * u) by (nonlinear_arith);
    match side {
        Side::Buy => {
            assert(gap == miss * u);
        },
        Side::Sell => {
            assert(gap == -(miss * u));
        },
    }
    let x = crate::decimal::magnitude(miss);
    let y = crate::decimal::magnitude(d);
    assert(crate::decimal::magnitude(miss * u) == x * u) by (nonlinear_arith)
        requires
            x == (if miss < 0 { -miss } else { miss }),
            u > 0,
            crate::decimal::magnitude(miss * u) == (if miss * u < 0 { -(miss * u) } else { miss * u }),
    ;
    assert(crate::decimal::magnitude(d * u) == y * u) by (nonlinear_arith)
        requires
            y == (if d < 0 { -d } else { d }),
            u > 0,
            crate::decimal::magnitude(d * u) == (if d * u < 0 { -(d * u) } else { d * u }),
    ;
    assert((x * u) * u <= (y * u) * (u + price)) by (nonlinear_arith)
        requires
            x * u <= y * (u + price),
            u > 0,
    ;
}

/// Estimates where a position is liquidated. The price solves the liquidation condition up to the
/// rounding of the last quotient.
pub fn cross_liquidation(
    instrument: &Instrument,
    account: &MarginAccount,
    side: Side,
    entry: Decimal,
    quantity: Qty,
) -> (r: Result<CrossLiquidation, MarginError>)
    ensures
        r == instrument.cross_outcome(*account, side, entry, quantity),
        r matches Ok(CrossLiquidation::At(price)) ==> instrument.solves_exactly(
            account.wallet_balance,
            side,
            entry,
            quantity.0,
        ) ==> crate::decimal::magnitude(
            balance_gap(
                side,
                account.wallet_balance@,
                quantity.0@,
                entry@,
                price@,
                instrument.maintenance_rate()@,
            ),
        ) * crate::decimal::unit() <= crate::decimal::magnitude(
            quantity.0@ * instrument.cross_share(side)@,
        ) * (crate::decimal::unit() + price@),
{
    if account.asset != instrument.margin_asset {
        return Err(MarginError::AssetMismatch);
    }
    let q = quantity.get();
    if q <= Decimal::zero() || entry <= Decimal::zero() {
        return Err(MarginError::NonPositive);
    }
    let mmr = instrument.maint_margin_pct / Decimal::from_int(100);
    let wb = account.wallet_balance;
    let notional = q.times(entry);
    if wb <= notional * mmr {
        return Ok(CrossLiquidation::Immediate);
    }
    let (due, share) = match side {
        Side::Buy => (notional.minus(wb), Decimal::one().minus(mmr)),
        Side::Sell => (wb.plus(notional), Decimal::one().plus(mmr)),
    };
    let divisor = q.times(share);
    let price = due.over(divisor);
    if price <= Decimal::zero() {
        return Ok(CrossLiquidation::Never);
    }
    proof {
        if instrument.solves_exactly(wb, side, entry, q) {
            crate::decimal::lemma_of_parts(1, 0);
            crate::decimal::lemma_pow10_28();
            lemma_balance(
                side,
                wb@,
                q@,
                entry@,
                price@,
                mmr@,
                notional@,
                due@,
                share@,
                divisor@,
            );
        }
    }
    Ok(CrossLiquidation::At(price))
}

/// An estimated liquidation price is positive, and there is one only for an account that keeps
/// the contract's margin asset and covers the maintenance margin.
pub proof fn law_liquidation_price_is_positive(
    instrument: Instrument,
    account: MarginAccount,
    side: Side,
    entry: Decimal,
    quantity: Qty,
)
    ensures
        instrument.cross_outcome(account, side, entry, quantity) matches Ok(
            CrossLiquidation::At(price),
        ) ==> price@ > 0 && account.asset@ == instrument.margin_asset@
            && account.wallet_balance@ > quantity.0.prod(entry).prod(
            instrument.maintenance_rate(),
        )@,
        instrument.cross_outcome(account, side, entry, quantity) is Err <==> account.asset@
            != instrument.margin_asset@ || quantity.0@ <= 0 || entry@ <= 0,
{
}

/// The initial margin is the notional value over the leverage, and the whole of it where the
/// leverage is below one. A higher leverage never takes more margin of a positive value.
pub proof fn law_margin_times_leverage_is_the_value(notional: Decimal, leverage: Decimal)
    requires
        notional.divides_exactly(leverage.larger(Decimal::whole(1))),
    ensures
        leverage@ >= crate::decimal::unit() ==> notional.margin_at(leverage)@ * leverage@
            == notional@ * crate::decimal::unit(),
        leverage@ < crate::decimal::unit() ==> notional.margin_at(leverage)@ == notional@,
        notional@ >= 0 ==> 0 <= notional.margin_at(leverage)@ <= notional@,
{
    crate::decimal::lemma_of_parts(1, 0);
    crate::decimal::lemma_pow10_28();
    let u = crate::decimal::unit();
    let m = notional.margin_at(leverage)@;
    let l = leverage.larger(Decimal::whole(1))@;
    let n = notional@;
    assert(l == u ==> m == n) by (nonlinear_arith)
        requires
            m * l == n * u,
            u > 0,
    ;
    assert(n >= 0 ==> 0 <= m <= n) by (nonlinear_arith)
        requires
            m * l == n * u,
            l >= u,
            u > 0,
    ;
}

/// An account is liquidated at once exactly where, at the entry price, its wallet covers no more
/// than the maintenance margin: where the liquidation condition is met there already.
pub proof fn law_immediate_liquidation_is_at_the_entry(
    instrument: Instrument,
    account: MarginAccount,
    side: Side,
    entry: Decimal,
    quantity: Qty,
)
    requires
        account.asset@ == instrument.margin_asset@,
        quantity.0@ > 0,
        entry@ > 0,
        quantity.0.multiplies_exactly(entry),
        quantity.0.prod(entry).multiplies_exactly(instrument.maintenance_rate()),
    ensures
        instrument.cross_outcome(account, side, entry, quantity) == Ok::<
            CrossLiquidation,
            MarginError,
        >(CrossLiquidation::Immediate) <==> balance_gap(
            side,
            account.wallet_balance@,
            quantity.0@,
            entry@,
            entry@,
            instrument.maintenance_rate()@,
        ) <= 0,
{
    let u = crate::decimal::unit();
    let w = account.wallet_balance@;
    let q = quantity.0@;
    let e = entry@;
    let r = instrument.maintenance_rate()@;
    let n = quantity.0.prod(entry)@;
    let m = quantity.0.prod(entry).prod(instrument.maintenance_rate())@;
    assert(q * (e - e) * u == 0) by (nonlinear_arith);
    assert(m * u * u == q * e * r) by (nonlinear_arith)
        requires
            m * u == n * r,
            n * u == q * e,
    ;
    assert(w <= m <==> w * u * u <= m * u * u) by (nonlinear_arith)
        requires
            u > 0,
    ;
}

/// The maintenance margin rate is the exchange's percentage as a fraction.
pub proof fn law_maintenance_rate_is_the_percentage(instrument: Instrument)
    requires
        instrument.maint_margin_pct.divides_exactly(Decimal::whole(100)),
    ensures
        100 * instrument.maintenance_rate()@ == instrument.maint_margin_pct@,
{
    crate::decimal::lemma_of_parts(100, 0);
    crate::decimal::lemma_pow10_28();
    let u = crate::decimal::unit();
    let r = instrument.maintenance_rate()@;
    let p = instrument.maint_margin_pct@;
    assert(100 * r == p) by (nonlinear_arith)
        requires
            r * (100 * u) == p * u,
            u > 0,
    ;
}

impl MarginAccount {
    /// What the wallet holds beyond the margin that is taken up.
    pub open spec fn free(self) -> Decimal {
        self.wallet_balance.less(self.used_initial_margin)
    }
}

/// What is available and what is taken up are together what the wallet holds; an account without positions
/// has all of it available.
pub proof fn law_free_and_used_margin_are_the_wallet(account: MarginAccount)
    requires
        account.wallet_balance.subtracts_exactly(account.used_initial_margin),
    ensures
        account.free()@ + account.used_initial_margin@ == account.wallet_balance@,
        account.used_initial_margin@ == 0 ==> account.free()@ == account.wallet_balance@,
{
}

} // verus!
