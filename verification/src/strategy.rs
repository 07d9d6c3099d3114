//! What a strategy is and what it may want.
//!
//! A strategy only says what it wants. Prices are compiled by the planner, and an operator's
//! orders take the same way.

use vstd::prelude::*;
use crate::clock::Timestamp;
use crate::decimal::Decimal;
use crate::instrument::Instrument;
use crate::keyed::TextMap;
use crate::market::{Candle, MarketEvent};
use crate::money::{Price, Qty};
use crate::order::Side;
use crate::precision::Precision;
use crate::protection::{ProtectionPlan, TpPlan};

verus! {

/// How large a position is to be.
#[derive(Clone, Copy, Debug, PartialEq, Eq)]
pub enum SizeHint {
    /// A fraction of the equity times the leverage.
    EquityFraction { pct: Decimal, leverage: Decimal },
    /// A quantity.
    Fixed(Decimal),
}

impl SizeHint {
    /// The quantity before it is aligned to the step; `None` where the price gives none.
    pub open spec fn raw_quantity(self, price: Price, equity: Decimal) -> Option<Decimal> {
        match self {
            SizeHint::EquityFraction { pct, leverage } => if price.0@ <= 0 {
                None
            } else {
                Some(equity.prod(pct).prod(leverage).per(price.0))
            },
            SizeHint::Fixed(q) => Some(q),
        }
    }

    /// The quantity; `None` where it is below one step or not a quantity.
    pub open spec fn resolved(self, price: Price, equity: Decimal, precision: Precision) -> Option<
        Qty,
    > {
        match self.raw_quantity(price, equity) {
            None => None,
            Some(raw) => match precision.sized_or_zero(raw) {
                Err(_) => None,
                Ok(q) => if q.0@ == 0 {
                    None
                } else {
                    Some(q)
                },
            },
        }
    }
}

/// A wish to open a position. Prices are not aligned yet.
#[derive(Debug, PartialEq, Eq)]
pub struct EnterRequest {
    pub side: Side,
    pub entry: Decimal,
    pub stop: Decimal,
    pub take_profit: TpPlan,
    pub protection: ProtectionPlan,
    pub size: SizeHint,
    /// When the wish lapses.
    pub valid_until: Timestamp,
}

/// What a strategy wants.
#[allow(inconsistent_fields)]
#[derive(Debug, PartialEq, Eq)]
pub enum StrategyIntent {
    Enter(Box<EnterRequest>),
    /// Close the position now.
    ExitNow { reason: ExitReason },
    /// Do nothing, for a reason.
    StandDown { reason: StandDownReason },
}

/// Why nothing is done.
#[derive(Clone, Copy, Debug, PartialEq, Eq, Structural)]
pub enum StandDownReason {
    StaleFeed,
    FeedDisconnected,
    InsufficientHistory,
    CandleNotClosed,
    AlreadyEngaged,
    SignalAlreadyUsed,
    StopTooWide,
    StopInsideLiquidation,
    RiskRewardTooLow,
    InsufficientEquity,
    InsufficientMargin,
    MarginAssetMismatch,
    OutsideTradingHours,
}

impl StandDownReason {
    /// The message of a reason.
    pub open spec fn said(self) -> Seq<char> {
        match self {
            StandDownReason::StaleFeed => "行情超过新鲜度阈值，暂停开仓"@,
            StandDownReason::FeedDisconnected => "行情未连接，暂停开仓"@,
            StandDownReason::InsufficientHistory => "历史 K 线不足，无法计算参考区间"@,
            StandDownReason::CandleNotClosed => "当前 K 线尚未收盘，不使用未完成数据"@,
            StandDownReason::AlreadyEngaged => "已有持仓或在途订单"@,
            StandDownReason::SignalAlreadyUsed => "该确认时刻的信号已使用过"@,
            StandDownReason::StopTooWide => "止损距离超过风控上限"@,
            StandDownReason::StopInsideLiquidation =>
                "止损价晚于估算强平价，会在止损前被强平"@,
            StandDownReason::RiskRewardTooLow => "止盈止损比不达标"@,
            StandDownReason::InsufficientEquity => "净值不足以开出满足最小名义价值的仓位"@,
            StandDownReason::InsufficientMargin =>
                "可用保证金不足以支付该仓位的初始保证金（全仓）"@,
            StandDownReason::MarginAssetMismatch =>
                "账户保证金资产与合约保证金资产不一致，无法估算全仓强平"@,
            StandDownReason::OutsideTradingHours => "当前不在该合约的交易时段内"@,
        }
    }

    /// The message for an operator.
    pub fn message(self) -> (r: &'static str)
        ensures
            r@ == self.said(),
    {
        match self {
            StandDownReason::StaleFeed => "行情超过新鲜度阈值，暂停开仓",
            StandDownReason::FeedDisconnected => "行情未连接，暂停开仓",
            StandDownReason::InsufficientHistory => "历史 K 线不足，无法计算参考区间",
            StandDownReason::CandleNotClosed => "当前 K 线尚未收盘，不使用未完成数据",
            StandDownReason::AlreadyEngaged => "已有持仓或在途订单",
            StandDownReason::SignalAlreadyUsed => "该确认时刻的信号已使用过",
            StandDownReason::StopTooWide => "止损距离超过风控上限",
            StandDownReason::StopInsideLiquidation =>
                "止损价晚于估算强平价，会在止损前被强平",
            StandDownReason::RiskRewardTooLow => "止盈止损比不达标",
            StandDownReason::InsufficientEquity => "净值不足以开出满足最小名义价值的仓位",
            StandDownReason::InsufficientMargin =>
                "可用保证金不足以支付该仓位的初始保证金（全仓）",
            StandDownReason::MarginAssetMismatch =>
                "账户保证金资产与合约保证金资产不一致，无法估算全仓强平",
            StandDownReason::OutsideTradingHours => "当前不在该合约的交易时段内",
        }
    }
}

/// Why a position is closed on purpose.
#[derive(Clone, Copy, Debug, PartialEq, Eq, Structural)]
pub enum ExitReason {
    SignalInvalidated,
    NewRange,
    MaxHoldingTime,
    OperatorRequest,
    RiskReduction,
}

/// What a strategy sees.
pub struct MarketView<'a> {
    pub instrument: &'a Instrument,
    /// Closed candles, oldest first.
    pub candles: &'a [Candle],
    pub now: Timestamp,
    pub has_position: bool,
    pub has_pending_entry: bool,
    /// The equity that positions are sized by.
    pub equity: Decimal,
}

/// A strategy. It looks at the market and says what it wants.
pub trait Strategy: Send + Sync {
    /// A name for records. It is no part of order ids.
    fn id(&self) -> &'static str;

    /// The name shown to users.
    fn name(&self) -> &'static str;

    /// The parameters, for display.
    fn parameters(&self) -> Vec<ParameterSpec>;

    /// What the strategy wants; `None` for nothing.
    fn evaluate(&self, view: &MarketView<'_>) -> Option<StrategyIntent>;

    /// How many closed candles the strategy needs.
    fn warmup_candles(&self) -> usize;

    /// Whether the strategy reacts to an event: by default, to closed candles only.
    fn on_event(&self, event: &MarketEvent, view: &MarketView<'_>) -> (r: bool)
        default_ensures
            r == (event matches MarketEvent::Kline(c) && c.closed),
    {
        match event {
            MarketEvent::Kline(c) => c.closed,
            _ => false,
        }
    }
}

/// Whether a strategy gave an answer when it was shown the market as it was.
pub open spec fn gave<S: Strategy>(
    strategy: &S,
    instrument: Instrument,
    candles: Seq<Candle>,
    now: Timestamp,
    equity: Decimal,
    answer: Option<StrategyIntent>,
) -> bool {
    exists|view: MarketView| #[trigger]
        call_ensures(S::evaluate, (strategy, &view), answer) && *view.instrument == instrument
            && view.candles@ == candles && view.now == now && !view.has_position
            && !view.has_pending_entry && view.equity == equity
}

/// Whether a strategy goes by a name.
pub open spec fn goes_by<S: Strategy>(strategy: &S, name: Seq<char>) -> bool {
    exists|id: &'static str| #[trigger] call_ensures(S::id, (strategy,), id) && id@ == name
}

/// Whether a strategy gave some parameters.
pub open spec fn has_parameters<S: Strategy>(strategy: &S, specs: Seq<ParameterSpec>) -> bool {
    exists|v: Vec<ParameterSpec>| #[trigger]
        call_ensures(S::parameters, (strategy,), v) && v@ == specs
}

/// The values of some parameters by their keys; of two under one key the later.
pub open spec fn parameter_values(specs: Seq<ParameterSpec>) -> Map<Seq<char>, Seq<char>>
    decreases specs.len(),
{
    if specs.len() == 0 {
        Map::empty()
    } else {
        parameter_values(specs.drop_last()).insert(
            specs.last().key@,
            specs.last().default.written(),
        )
    }
}

/// The texts of a map.
pub open spec fn texts(m: Map<Seq<char>, String>) -> Map<Seq<char>, Seq<char>> {
    m.map_values(|s: String| s@)
}

/// Notes the values of some parameters by their keys.
pub fn snapshot(specs: &Vec<ParameterSpec>) -> (r: TextMap<String>)
    ensures
        r.wf(),
        texts(r@) == parameter_values(specs@),
{
    let mut m: TextMap<String> = TextMap::new();
    assert(texts(m@) =~= Map::<Seq<char>, Seq<char>>::empty());
    for i in 0..specs.len()
        invariant
            m.wf(),
            texts(m@) == parameter_values(specs@.take(i as int)),
    {
        let ghost before = m@;
        assert(specs@.take(i + 1).drop_last() =~= specs@.take(i as int));
        assert(specs@.take(i + 1).last() == specs@[i as int]);
        let key = specs[i].key.clone();
        let value = specs[i].default.text();
        let ghost k = key@;
        let ghost t = value@;
        m.insert(key, value);
        assert(texts(m@) =~= texts(before).insert(k, t));
    }
    assert(specs@.take(specs@.len() as int) =~= specs@);
    m
}

/// A parameter of a strategy, for display.
#[derive(Debug, PartialEq, Eq)]
pub struct ParameterSpec {
    pub key: String,
    pub label: String,
    pub description: String,
    pub unit: Option<String>,
    pub default: Decimal,
    pub min: Decimal,
    pub max: Decimal,
}

/// The quantity of a hint, aligned to the step. It is `None` where nothing is left, which an
/// engine reports as too little equity.
pub fn resolve_size(hint: SizeHint, price: Price, equity: Decimal, precision: &Precision) -> (r:
    Option<Qty>)
    ensures
        r == hint.resolved(price, equity, *precision),
{
    let raw = match hint {
        SizeHint::EquityFraction { pct, leverage } => {
            let notional = equity * pct * leverage;
            if price.get() <= Decimal::zero() {
                return None;
            }
            notional / price.get()
        },
        SizeHint::Fixed(q) => q,
    };
    match precision.quantity_or_zero(raw) {
        Err(_) => None,
        Ok(qty) => if qty.is_zero() {
            None
        } else {
            Some(qty)
        },
    }
}

/// The value of an equity's fraction with leverage, and its quantity at a price, are computed
/// without rounding.
pub open spec fn sizes_exactly(
    equity: Decimal,
    pct: Decimal,
    leverage: Decimal,
    price: Decimal,
) -> bool {
    let value = equity.prod(pct).prod(leverage);
    &&& equity.multiplies_exactly(pct)
    &&& equity.prod(pct).multiplies_exactly(leverage)
    &&& price@ != 0 ==> value.divides_exactly(price)
}

/// A quantity times its price is the fraction of the equity times the leverage.
pub proof fn lemma_size(equity: Decimal, pct: Decimal, leverage: Decimal, price: Decimal)
    requires
        sizes_exactly(equity, pct, leverage, price),
        price@ != 0,
    ensures
        equity.prod(pct).prod(leverage).per(price)@ * price@ * crate::decimal::unit() == equity@
            * pct@ * leverage@,
{
    let u = crate::decimal::unit();
    let q = equity.prod(pct).prod(leverage).per(price)@;
    let v = equity.prod(pct).prod(leverage)@;
    let w = equity.prod(pct)@;
    let p = price@;
    let l = leverage@;
    let ep = equity@ * pct@;
    assert(q * p * u == ep * l) by (nonlinear_arith)
        requires
            q * p == v * u,
            v * u == w * l,
            w * u == ep,
    ;
}

/// A quantity that is sized by the equity is worth, at its price, that fraction of the equity times
/// the leverage; a fixed quantity is that quantity, whatever the price and the equity. Without a
/// positive price the equity gives no quantity.
pub proof fn law_sizes_are_worth_their_fraction(hint: SizeHint, price: Price, equity: Decimal)
    requires
        hint matches SizeHint::EquityFraction { pct, leverage } ==> sizes_exactly(
            equity,
            pct,
            leverage,
            price.0,
        ),
    ensures
        hint matches SizeHint::Fixed(q) ==> hint.raw_quantity(price, equity) == Some(q),
        hint matches SizeHint::EquityFraction { pct, leverage } ==> (hint.raw_quantity(
            price,
            equity,
        ) is Some <==> price.0@ > 0),
        hint matches SizeHint::EquityFraction { pct, leverage } ==> price.0@ > 0
            ==> hint.raw_quantity(price, equity)->0@ * price.0@ * crate::decimal::unit() == equity@
            * pct@ * leverage@,
{
    if let SizeHint::EquityFraction { pct, leverage } = hint {
        if price.0@ > 0 {
            lemma_size(equity, pct, leverage, price.0);
        }
    }
}

/// What is resolved is the raw quantity stepped down, never a quantity of zero, and there is none
/// only where there is no raw quantity, it is negative, the step is no step, or less than one step
/// is left.
pub proof fn law_resolved_sizes_are_stepped_down(
    hint: SizeHint,
    price: Price,
    equity: Decimal,
    precision: Precision,
)
    ensures
        hint.resolved(price, equity, precision) matches Some(q) ==> q.0@ != 0
            && precision.step_size@ > 0 && (hint.raw_quantity(price, equity) matches Some(raw)
            && raw@ >= 0 && q.0 == raw.stepped_down(precision.step_size)),
        hint.resolved(price, equity, precision) is None ==> precision.step_size@ <= 0 || (
        hint.raw_quantity(price, equity) matches Some(raw) ==> raw@ < 0 || raw.stepped_down(
            precision.step_size,
        )@ == 0),
{
}

} // verus!
