//! The exchange's rules, requests and answers.
//!
//! Conditional orders whose trigger is close to the mark price are refused by the exchange, so
//! stops near the market are placed as limit orders. [`check_trigger_protect`] says which way
//! is open.

use vstd::prelude::*;
use crate::clock::Timestamp;
use crate::cooldown::wait_after_limit;
use crate::decimal::Decimal;
use crate::error::{ExchangeError, Failure, RejectReason};
use crate::instrument::{ContractKind, FeeSchedule, FeeSource, Instrument};
use crate::json::{field, fits, read_json};
use crate::keyed::TextMap;
use crate::order::Side;
use crate::precision::Precision;
use crate::text::{
    contains, i64_text, joined, joined3, joined4, joined5, same_text, u64_text,
};

verus! {

/// The text of an optional string.
pub open spec fn maybe(s: Option<String>) -> Option<Seq<char>> {
    match s {
        Some(t) => Some(t@),
        None => None,
    }
}

/// A copy of an optional string.
fn copy_text(s: &Option<String>) -> (r: Option<String>)
    ensures
        r == *s,
{
    match s {
        Some(t) => Some(t.clone()),
        None => None,
    }
}

/// The rules of a contract, as the exchange publishes them.
#[derive(Debug, PartialEq, Eq)]
pub struct ContractSpec {
    pub symbol: String,
    pub contract_type: String,
    pub base_asset: String,
    pub quote_asset: String,
    pub margin_asset: String,
    pub status: String,
    pub precision: Precision,
    /// The maintenance margin rate in percent.
    pub maint_margin_pct: Decimal,
    pub required_margin_pct: Decimal,
    pub liquidation_fee: Decimal,
    /// How far a trigger has to be from the mark price, as a fraction of it.
    pub trigger_protect: Option<Decimal>,
    pub order_types: Vec<String>,
    /// When the contract was listed.
    pub onboard_ms: Option<i64>,
}

/// A [`ContractSpec`] with its texts and lists as sequences.
pub struct SpecModel {
    pub symbol: Seq<char>,
    pub contract_type: Seq<char>,
    pub base_asset: Seq<char>,
    pub quote_asset: Seq<char>,
    pub margin_asset: Seq<char>,
    pub status: Seq<char>,
    pub precision: Precision,
    pub maint_margin_pct: Decimal,
    pub required_margin_pct: Decimal,
    pub liquidation_fee: Decimal,
    pub trigger_protect: Option<Decimal>,
    pub order_types: Seq<Seq<char>>,
    pub onboard_ms: Option<i64>,
}

impl View for ContractSpec {
    type V = SpecModel;

    open spec fn view(&self) -> SpecModel {
        SpecModel {
            symbol: self.symbol@,
            contract_type: self.contract_type@,
            base_asset: self.base_asset@,
            quote_asset: self.quote_asset@,
            margin_asset: self.margin_asset@,
            status: self.status@,
            precision: self.precision,
            maint_margin_pct: self.maint_margin_pct,
            required_margin_pct: self.required_margin_pct,
            liquidation_fee: self.liquidation_fee,
            trigger_protect: self.trigger_protect,
            order_types: crate::position_set::texts(self.order_types@),
            onboard_ms: self.onboard_ms,
        }
    }
}

impl ContractSpec {
    /// Whether limit orders, and with them post-only orders, are taken.
    pub fn supports_post_only(&self) -> (r: bool)
        ensures
            r == self@.order_types.contains("LIMIT"@),
    {
        for i in 0..self.order_types.len()
            invariant
                forall|j: int| 0 <= j < i ==> self@.order_types[j] != "LIMIT"@,
        {
            if same_text(self.order_types[i].as_str(), "LIMIT") {
                assert(self@.order_types[i as int] == "LIMIT"@);
                return true;
            }
        }
        false
    }

    pub fn is_trading(&self) -> (r: bool)
        ensures
            r == (self.status@ == "TRADING"@),
    {
        same_text(self.status.as_str(), "TRADING")
    }

    /// The contract with a fee schedule. Profit and loss are settled in the margin asset.
    pub fn to_instrument(&self, fees: FeeSchedule) -> (r: Instrument)
        ensures
            r == (Instrument {
                symbol: self.symbol,
                kind: if self.contract_type@ == "TRADIFI_PERPETUAL"@ {
                    ContractKind::TradFiPerp
                } else {
                    ContractKind::CryptoPerp
                },
                base_asset: self.base_asset,
                quote_asset: self.quote_asset,
                margin_asset: self.margin_asset,
                settlement_asset: self.margin_asset,
                precision: self.precision,
                maint_margin_pct: self.maint_margin_pct,
                required_margin_pct: self.required_margin_pct,
                liquidation_fee: self.liquidation_fee,
                fees,
            }),
    {
        let kind = if same_text(self.contract_type.as_str(), "TRADIFI_PERPETUAL") {
            ContractKind::TradFiPerp
        } else {
            ContractKind::CryptoPerp
        };
        Instrument {
            symbol: self.symbol.clone(),
            kind,
            base_asset: self.base_asset.clone(),
            quote_asset: self.quote_asset.clone(),
            margin_asset: self.margin_asset.clone(),
            settlement_asset: self.margin_asset.clone(),
            precision: self.precision,
            maint_margin_pct: self.maint_margin_pct,
            required_margin_pct: self.required_margin_pct,
            liquidation_fee: self.liquidation_fee,
            fees,
        }
    }
}

/// Whether a trigger is far enough from the mark price.
#[derive(Clone, Copy, Debug, PartialEq, Eq)]
pub enum TriggerProtectVerdict {
    FarEnough,
    /// Too close: a limit order has to be used, or the trigger moved.
    TooClose { distance: Decimal, required: Decimal },
}

impl TriggerProtectVerdict {
    pub fn is_ok(&self) -> (r: bool)
        ensures
            r == (self is FarEnough),
    {
        matches!(self, TriggerProtectVerdict::FarEnough)
    }
}

/// The verdict on a trigger: where a distance is required and the mark price is positive, the
/// trigger has to be that part of the mark price away from it.
pub open spec fn trigger_verdict(required: Option<Decimal>, trigger: Decimal, mark: Decimal) -> TriggerProtectVerdict {
    match required {
        None => TriggerProtectVerdict::FarEnough,
        Some(required) => {
            let distance = trigger.less(mark).per(mark).unsigned();
            if mark@ <= 0 || distance@ >= required@ {
                TriggerProtectVerdict::FarEnough
            } else {
                TriggerProtectVerdict::TooClose { distance, required }
            }
        },
    }
}

/// Checks that the exchange would take a conditional order with a trigger.
pub fn check_trigger_protect(spec: &ContractSpec, trigger_price: Decimal, mark_price: Decimal) -> (r:
    TriggerProtectVerdict)
    ensures
        r == trigger_verdict(spec.trigger_protect, trigger_price, mark_price),
{
    match spec.trigger_protect {
        None => TriggerProtectVerdict::FarEnough,
        Some(required) => {
            if mark_price <= Decimal::zero() {
                return TriggerProtectVerdict::FarEnough;
            }
            let distance = ((trigger_price - mark_price) / mark_price).abs();
            if distance >= required {
                TriggerProtectVerdict::FarEnough
            } else {
                TriggerProtectVerdict::TooClose { distance, required }
            }
        },
    }
}

/// A filter of a contract, as it is published.
#[derive(Debug, PartialEq, Eq)]
pub struct RawFilter {
    pub filter_type: String,
    pub tick_size: Option<String>,
    pub step_size: Option<String>,
    pub min_qty: Option<String>,
    pub notional: Option<String>,
}

/// A [`RawFilter`] with its texts as sequences of characters.
pub struct FilterModel {
    pub filter_type: Seq<char>,
    pub tick_size: Option<Seq<char>>,
    pub step_size: Option<Seq<char>>,
    pub min_qty: Option<Seq<char>>,
    pub notional: Option<Seq<char>>,
}

impl View for RawFilter {
    type V = FilterModel;

    open spec fn view(&self) -> FilterModel {
        FilterModel {
            filter_type: self.filter_type@,
            tick_size: maybe(self.tick_size),
            step_size: maybe(self.step_size),
            min_qty: maybe(self.min_qty),
            notional: maybe(self.notional),
        }
    }
}

impl RawFilter {
    /// Several filters by their models.
    pub open spec fn models(s: Seq<RawFilter>) -> Seq<FilterModel> {
        s.map_values(|f: RawFilter| f@)
    }
}

/// A contract, as it is published. Only the symbol has to be there.
#[derive(Debug, PartialEq, Eq)]
pub struct RawSymbol {
    pub symbol: String,
    pub contract_type: String,
    pub status: String,
    pub base_asset: String,
    pub quote_asset: String,
    pub margin_asset: String,
    pub maint_margin_percent: String,
    pub required_margin_percent: String,
    pub liquidation_fee: String,
    pub trigger_protect: Option<String>,
    pub order_types: Vec<String>,
    pub onboard_date: Option<i64>,
    pub filters: Vec<RawFilter>,
}

/// A [`RawSymbol`] with its texts and lists as sequences.
pub struct RawModel {
    pub symbol: Seq<char>,
    pub contract_type: Seq<char>,
    pub status: Seq<char>,
    pub base_asset: Seq<char>,
    pub quote_asset: Seq<char>,
    pub margin_asset: Seq<char>,
    pub maint_margin_percent: Seq<char>,
    pub required_margin_percent: Seq<char>,
    pub liquidation_fee: Seq<char>,
    pub trigger_protect: Option<Seq<char>>,
    pub order_types: Seq<Seq<char>>,
    pub onboard_date: Option<i64>,
    pub filters: Seq<FilterModel>,
}

impl View for RawSymbol {
    type V = RawModel;

    open spec fn view(&self) -> RawModel {
        RawModel {
            symbol: self.symbol@,
            contract_type: self.contract_type@,
            status: self.status@,
            base_asset: self.base_asset@,
            quote_asset: self.quote_asset@,
            margin_asset: self.margin_asset@,
            maint_margin_percent: self.maint_margin_percent@,
            required_margin_percent: self.required_margin_percent@,
            liquidation_fee: self.liquidation_fee@,
            trigger_protect: maybe(self.trigger_protect),
            order_types: crate::position_set::texts(self.order_types@),
            onboard_date: self.onboard_date,
            filters: RawFilter::models(self.filters@),
        }
    }
}

impl RawSymbol {
    /// Several contracts by their models.
    pub open spec fn models(s: Seq<RawSymbol>) -> Seq<RawModel> {
        s.map_values(|x: RawSymbol| x@)
    }
}

/// The published contracts.
#[derive(Debug, PartialEq, Eq)]
pub struct ExchangeInfoResponse {
    pub symbols: Vec<RawSymbol>,
}

/// The last filter of a kind.
pub open spec fn last_filter(filters: Seq<FilterModel>, kind: Seq<char>) -> Option<FilterModel>
    decreases filters.len(),
{
    if filters.len() == 0 {
        None
    } else if filters.last().filter_type == kind {
        Some(filters.last())
    } else {
        last_filter(filters.drop_last(), kind)
    }
}

impl RawModel {
    /// The tick of the contract.
    pub open spec fn tick(self) -> Option<Seq<char>> {
        match last_filter(self.filters, "PRICE_FILTER"@) {
            Some(f) => f.tick_size,
            None => None,
        }
    }

    /// The step of quantities.
    pub open spec fn step(self) -> Option<Seq<char>> {
        match last_filter(self.filters, "LOT_SIZE"@) {
            Some(f) => f.step_size,
            None => None,
        }
    }

    /// The least quantity.
    pub open spec fn least(self) -> Option<Seq<char>> {
        match last_filter(self.filters, "LOT_SIZE"@) {
            Some(f) => f.min_qty,
            None => None,
        }
    }

    /// The least notional value, five where none is published that can be read.
    pub open spec fn least_notional(self) -> Decimal {
        match last_filter(self.filters, "MIN_NOTIONAL"@) {
            Some(f) => amount_or(f.notional, Decimal::whole(5)),
            None => Decimal::whole(5),
        }
    }

    /// An amount that has to be there.
    pub open spec fn needed(self, text: Option<Seq<char>>, name: Seq<char>) -> Result<Decimal, Seq<char>> {
        match text {
            None => Err(self.symbol + " 缺少 "@ + name),
            Some(s) => match crate::decimal::decimal_of_text(s) {
                Some(d) => Ok(d),
                None => Err(self.symbol + " 的 "@ + name + " 无法解析："@ + s),
            },
        }
    }

    /// The rules of the contract, or what is wrong with them.
    pub open spec fn rules(self) -> Result<SpecModel, Seq<char>> {
        match self.needed(self.tick(), "tickSize"@) {
            Err(e) => Err(e),
            Ok(tick_size) => match self.needed(self.step(), "stepSize"@) {
                Err(e) => Err(e),
                Ok(step_size) => match self.needed(self.least(), "minQty"@) {
                    Err(e) => Err(e),
                    Ok(min_qty) => Ok(
                        SpecModel {
                            symbol: self.symbol,
                            contract_type: self.contract_type,
                            base_asset: self.base_asset,
                            quote_asset: self.quote_asset,
                            margin_asset: self.margin_asset,
                            status: self.status,
                            precision: Precision {
                                tick_size,
                                step_size,
                                min_qty,
                                min_notional: self.least_notional(),
                            },
                            maint_margin_pct: amount_or(
                                Some(self.maint_margin_percent),
                                Decimal::whole(0),
                            ),
                            required_margin_pct: amount_or(
                                Some(self.required_margin_percent),
                                Decimal::whole(0),
                            ),
                            liquidation_fee: amount_or(
                                Some(self.liquidation_fee),
                                Decimal::whole(0),
                            ),
                            trigger_protect: match self.trigger_protect {
                                Some(s) => crate::decimal::decimal_of_text(s),
                                None => None,
                            },
                            order_types: self.order_types,
                            onboard_ms: self.onboard_date,
                        },
                    ),
                },
            },
        }
    }
}

/// The amount of a text, or another where there is none that can be read.
pub open spec fn amount_or(text: Option<Seq<char>>, fallback: Decimal) -> Decimal {
    match text {
        Some(s) => match crate::decimal::decimal_of_text(s) {
            Some(d) => d,
            None => fallback,
        },
        None => fallback,
    }
}

/// The amount of a text, or another where it cannot be read.
pub(crate) fn read_amount(text: &str, fallback: Decimal) -> (r: Decimal)
    ensures
        r == amount_or(Some(text@), fallback),
{
    match Decimal::parse(text) {
        Some(d) => d,
        None => fallback,
    }
}

/// An amount of a contract that has to be there.
fn needed_amount(symbol: &String, text: &Option<String>, name: &str) -> (r: Result<
    Decimal,
    ExchangeError,
>)
    ensures
        forall|raw: RawModel|
            raw.symbol == symbol@ ==> (match r {
                Ok(d) => #[trigger] raw.needed(maybe(*text), name@) == Ok::<Decimal, Seq<char>>(d),
                Err(e) => e@ matches Failure::Fatal(s) && raw.needed(maybe(*text), name@) == Err::<
                    Decimal,
                    Seq<char>,
                >(s),
            }),
{
    match text {
        None => Err(ExchangeError::Fatal(joined3(symbol.as_str(), " 缺少 ", name))),
        Some(s) => match Decimal::parse(s.as_str()) {
            Some(d) => Ok(d),
            None => Err(
                ExchangeError::Fatal(
                    joined5(symbol.as_str(), " 的 ", name, " 无法解析：", s.as_str()),
                ),
            ),
        },
    }
}

/// A copy of some texts.
fn copy_texts(v: &Vec<String>) -> (r: Vec<String>)
    ensures
        crate::position_set::texts(r@) == crate::position_set::texts(v@),
{
    let mut out: Vec<String> = Vec::new();
    for i in 0..v.len()
        invariant
            out@.len() == i,
            forall|j: int| 0 <= j < i ==> out@[j] == v@[j],
    {
        out.push(v[i].clone());
    }
    assert(crate::position_set::texts(out@) =~= crate::position_set::texts(v@));
    out
}

/// The rules of a contract. The maintenance margin rate is the one that is published, and a
/// filter that is missing is an error.
pub fn parse_contract(raw: &RawSymbol) -> (r: Result<ContractSpec, ExchangeError>)
    ensures
        match r {
            Ok(spec) => raw@.rules() == Ok::<SpecModel, Seq<char>>(spec@),
            Err(e) => e@ matches Failure::Fatal(s) && raw@.rules() == Err::<SpecModel, Seq<char>>(
                s,
            ),
        },
{
    let ghost all = raw@.filters;
    let mut tick: Option<String> = None;
    let mut step: Option<String> = None;
    let mut min_qty: Option<String> = None;
    let mut notional: Option<String> = None;
    proof {
        lemma_filter_names();
    }
    for i in 0..raw.filters.len()
        invariant
            all == raw@.filters,
            "PRICE_FILTER"@ != "LOT_SIZE"@,
            "PRICE_FILTER"@ != "MIN_NOTIONAL"@,
            "LOT_SIZE"@ != "MIN_NOTIONAL"@,
            maybe(tick) == (match last_filter(all.take(i as int), "PRICE_FILTER"@) {
                Some(f) => f.tick_size,
                None => None,
            }),
            maybe(step) == (match last_filter(all.take(i as int), "LOT_SIZE"@) {
                Some(f) => f.step_size,
                None => None,
            }),
            maybe(min_qty) == (match last_filter(all.take(i as int), "LOT_SIZE"@) {
                Some(f) => f.min_qty,
                None => None,
            }),
            maybe(notional) == (match last_filter(all.take(i as int), "MIN_NOTIONAL"@) {
                Some(f) => f.notional,
                None => None,
            }),
    {
        let f = &raw.filters[i];
        assert(all.take(i + 1).drop_last() =~= all.take(i as int));
        assert(all.take(i + 1).last() == f@);
        if same_text(f.filter_type.as_str(), "PRICE_FILTER") {
            tick = copy_text(&f.tick_size);
        } else if same_text(f.filter_type.as_str(), "LOT_SIZE") {
            step = copy_text(&f.step_size);
            min_qty = copy_text(&f.min_qty);
        } else if same_text(f.filter_type.as_str(), "MIN_NOTIONAL") {
            notional = copy_text(&f.notional);
        }
    }
    assert(all.take(all.len() as int) =~= all);
    let tick_size = match needed_amount(&raw.symbol, &tick, "tickSize") {
        Ok(d) => d,
        Err(e) => {
            assert(raw@.needed(raw@.tick(), "tickSize"@) is Err);
            return Err(e);
        },
    };
    assert(raw@.needed(raw@.tick(), "tickSize"@) == Ok::<Decimal, Seq<char>>(tick_size));
    let step_size = match needed_amount(&raw.symbol, &step, "stepSize") {
        Ok(d) => d,
        Err(e) => {
            assert(raw@.needed(raw@.step(), "stepSize"@) is Err);
            return Err(e);
        },
    };
    assert(raw@.needed(raw@.step(), "stepSize"@) == Ok::<Decimal, Seq<char>>(step_size));
    let least = match needed_amount(&raw.symbol, &min_qty, "minQty") {
        Ok(d) => d,
        Err(e) => {
            assert(raw@.needed(raw@.least(), "minQty"@) is Err);
            return Err(e);
        },
    };
    assert(raw@.needed(raw@.least(), "minQty"@) == Ok::<Decimal, Seq<char>>(least));
    let min_notional = match &notional {
        Some(s) => read_amount(s.as_str(), Decimal::from_int(5)),
        None => Decimal::from_int(5),
    };
    let zero = Decimal::zero();
    Ok(
        ContractSpec {
            symbol: raw.symbol.clone(),
            contract_type: raw.contract_type.clone(),
            base_asset: raw.base_asset.clone(),
            quote_asset: raw.quote_asset.clone(),
            margin_asset: raw.margin_asset.clone(),
            status: raw.status.clone(),
            precision: Precision { tick_size, step_size, min_qty: least, min_notional },
            maint_margin_pct: read_amount(raw.maint_margin_percent.as_str(), zero),
            required_margin_pct: read_amount(raw.required_margin_percent.as_str(), zero),
            liquidation_fee: read_amount(raw.liquidation_fee.as_str(), zero),
            trigger_protect: match &raw.trigger_protect {
                Some(s) => Decimal::parse(s.as_str()),
                None => None,
            },
            order_types: copy_texts(&raw.order_types),
            onboard_ms: raw.onboard_date,
        },
    )
}

proof fn lemma_filter_names()
    ensures
        "PRICE_FILTER"@ != "LOT_SIZE"@,
        "PRICE_FILTER"@ != "MIN_NOTIONAL"@,
        "LOT_SIZE"@ != "MIN_NOTIONAL"@,
{
    reveal_strlit("PRICE_FILTER");
    reveal_strlit("LOT_SIZE");
    reveal_strlit("MIN_NOTIONAL");
    assert("PRICE_FILTER"@.len() != "LOT_SIZE"@.len());
    assert("PRICE_FILTER"@[0] != "MIN_NOTIONAL"@[0]);
    assert("LOT_SIZE"@.len() != "MIN_NOTIONAL"@.len());
}

/// The first contract of a symbol.
pub open spec fn first_symbol(s: Seq<RawModel>, symbol: Seq<char>, from: nat) -> Option<RawModel>
    decreases s.len() - from,
{
    if from >= s.len() {
        None
    } else if s[from as int].symbol == symbol {
        Some(s[from as int])
    } else {
        first_symbol(s, symbol, from + 1)
    }
}

/// The rules of the contract of a symbol.
pub open spec fn rules_of(s: Seq<RawModel>, symbol: Seq<char>) -> Result<SpecModel, Seq<char>> {
    match first_symbol(s, symbol, 0) {
        None => Err("exchangeInfo 里没有合约 "@ + symbol),
        Some(raw) => raw.rules(),
    }
}

/// Finds the contract of a symbol.
pub fn find_contract(resp: &ExchangeInfoResponse, symbol: &str) -> (r: Result<
    ContractSpec,
    ExchangeError,
>)
    ensures
        match r {
            Ok(spec) => rules_of(RawSymbol::models(resp.symbols@), symbol@) == Ok::<
                SpecModel,
                Seq<char>,
            >(spec@),
            Err(e) => e@ matches Failure::Fatal(s) && rules_of(
                RawSymbol::models(resp.symbols@),
                symbol@,
            ) == Err::<SpecModel, Seq<char>>(s),
        },
{
    let ghost all = RawSymbol::models(resp.symbols@);
    let mut i: usize = 0;
    while i < resp.symbols.len()
        invariant
            i <= resp.symbols@.len(),
            all == RawSymbol::models(resp.symbols@),
            first_symbol(all, symbol@, 0) == first_symbol(all, symbol@, i as nat),
        decreases resp.symbols.len() - i,
    {
        let raw = &resp.symbols[i];
        assert(all[i as int] == raw@);
        if same_text(raw.symbol.as_str(), symbol) {
            return parse_contract(raw);
        }
        i = i + 1;
    }
    Err(ExchangeError::Fatal(joined("exchangeInfo 里没有合约 ", symbol)))
}

/// The contracts whose rules can be read, under their symbols.
pub open spec fn readable(s: Seq<RawModel>) -> Map<Seq<char>, SpecModel>
    decreases s.len(),
{
    if s.len() == 0 {
        Map::empty()
    } else {
        match s.last().rules() {
            Ok(spec) => readable(s.drop_last()).insert(s.last().symbol, spec),
            Err(_) => readable(s.drop_last()),
        }
    }
}

/// What is wrong with the others.
pub open spec fn unreadable(s: Seq<RawModel>) -> Seq<Seq<char>>
    decreases s.len(),
{
    if s.len() == 0 {
        Seq::empty()
    } else {
        match s.last().rules() {
            Ok(_) => unreadable(s.drop_last()),
            Err(e) => unreadable(s.drop_last()).push(
                s.last().symbol + ": "@ + Failure::Fatal(e).said(),
            ),
        }
    }
}

/// Reads the rules of all contracts. A contract that cannot be read is reported.
pub fn parse_all_contracts(resp: &ExchangeInfoResponse) -> (r: (TextMap<ContractSpec>, Vec<String>))
    ensures
        r.0.wf(),
        r.0@.map_values(|c: ContractSpec| c@) == readable(RawSymbol::models(resp.symbols@)),
        crate::position_set::texts(r.1@) == unreadable(RawSymbol::models(resp.symbols@)),
{
    let ghost all = RawSymbol::models(resp.symbols@);
    let mut map: TextMap<ContractSpec> = TextMap::new();
    let mut errors: Vec<String> = Vec::new();
    assert(map@.map_values(|c: ContractSpec| c@) =~= Map::<Seq<char>, SpecModel>::empty());
    assert(crate::position_set::texts(errors@) =~= Seq::<Seq<char>>::empty());
    for i in 0..resp.symbols.len()
        invariant
            all == RawSymbol::models(resp.symbols@),
            map.wf(),
            map@.map_values(|c: ContractSpec| c@) == readable(all.take(i as int)),
            crate::position_set::texts(errors@) == unreadable(all.take(i as int)),
    {
        let raw = &resp.symbols[i];
        assert(all.take(i + 1).drop_last() =~= all.take(i as int));
        assert(all.take(i + 1).last() == raw@);
        match parse_contract(raw) {
            Ok(spec) => {
                let ghost before = map@;
                let ghost model = spec@;
                let key = spec.symbol.clone();
                map.insert(key, spec);
                assert(map@.map_values(|c: ContractSpec| c@) =~= before.map_values(
                    |c: ContractSpec| c@,
                ).insert(raw.symbol@, model));
            },
            Err(e) => {
                let ghost before = errors@;
                let note = joined3(raw.symbol.as_str(), ": ", e.message().as_str());
                errors.push(note);
                assert(crate::position_set::texts(errors@) =~= crate::position_set::texts(
                    before,
                ).push(note@));
            },
        }
    }
    assert(all.take(all.len() as int) =~= all);
    (map, errors)
}

/// The fee rates of an account, in percent.
#[derive(Debug, PartialEq, Eq)]
pub struct AccountFeeResponse {
    pub maker_commission: String,
    pub taker_commission: String,
}

/// A rate in percent as a fraction; zero where it cannot be read.
pub open spec fn ratio_of(s: Seq<char>) -> Decimal {
    match crate::decimal::decimal_of_text(s) {
        Some(d) => d.per(Decimal::whole(100)),
        None => Decimal::whole(0),
    }
}

fn to_ratio(s: &str) -> (r: Decimal)
    ensures
        r == ratio_of(s@),
{
    match Decimal::parse(s) {
        Some(d) => d / Decimal::from_int(100),
        None => Decimal::zero(),
    }
}

/// The fee schedule of an account: the only one that is known from the exchange itself.
pub fn fee_schedule_from_account(resp: &AccountFeeResponse, at: Timestamp) -> (r: FeeSchedule)
    ensures
        r == (FeeSchedule {
            maker_rate: ratio_of(resp.maker_commission@),
            taker_rate: ratio_of(resp.taker_commission@),
            source: FeeSource::ExchangeAccount,
            observed_at: at,
        }),
{
    FeeSchedule {
        maker_rate: to_ratio(resp.maker_commission.as_str()),
        taker_rate: to_ratio(resp.taker_commission.as_str()),
        source: FeeSource::ExchangeAccount,
        observed_at: at,
    }
}

/// The reason behind an error code, or behind a message that speaks of reducing orders.
pub open spec fn reason_of(code: int, msg: Seq<char>) -> Option<RejectReason> {
    if code == -5022 {
        Some(RejectReason::PostOnlyWouldCross)
    } else if code == -2019 {
        Some(RejectReason::InsufficientMargin)
    } else if code == -4131 || code == -4003 || code == -4004 || code == -4016 {
        Some(RejectReason::InvalidQuantity)
    } else if code == -4140 {
        Some(RejectReason::InstrumentNotTrading)
    } else if code == -2021 {
        Some(RejectReason::PriceOutOfRange)
    } else if crate::text::holds_text(msg, "reduceOnly"@) {
        Some(RejectReason::InvalidQuantity)
    } else {
        None
    }
}

/// The reason why an order was refused, as the exchange's error code names it.
pub fn reject_reason_from_code(code: i64, msg: &str) -> (r: Option<RejectReason>)
    ensures
        r == reason_of(code as int, msg@),
{
    match code {
        -5022 => Some(RejectReason::PostOnlyWouldCross),
        -2019 => Some(RejectReason::InsufficientMargin),
        -4131 | -4003 | -4004 | -4016 => Some(RejectReason::InvalidQuantity),
        -4140 => Some(RejectReason::InstrumentNotTrading),
        -2021 => Some(RejectReason::PriceOutOfRange),
        _ => {
            if contains(msg, "reduceOnly") {
                Some(RejectReason::InvalidQuantity)
            } else {
                None
            }
        },
    }
}

/// An error, as the exchange answers it.
#[derive(Debug, PartialEq, Eq)]
pub struct BinanceError {
    pub code: i64,
    pub msg: String,
}

/// The code and the message of an answer; `None` where it is not an error of the exchange's own.
pub open spec fn error_of(body: Seq<char>) -> Option<(int, Seq<char>)> {
    match crate::json::json_text(body) {
        Err(_) => None,
        Ok(j) => match (j.field(0, "code"@).integer(true), j.field(1, "msg"@).text(true)) {
            (Some(code), Some(msg)) => if j.fits(2) {
                Some((code, msg))
            } else {
                None
            },
            _ => None,
        },
    }
}

impl BinanceError {
    /// Reads an answer; `None` where it is not an error of the exchange's own.
    pub fn read(body: &str) -> (r: Option<BinanceError>)
        ensures
            match r {
                Some(e) => error_of(body@) == Some((e.code as int, e.msg@)),
                None => error_of(body@) is None,
            },
    {
        let v = match read_json(body) {
            Ok(v) => v,
            Err(_) => return None,
        };
        if !fits(&v, 2) {
            return None;
        }
        match (field(&v, 0, "code").integer(true), field(&v, 1, "msg").text(true)) {
            (Some(code), Some(msg)) => Some(BinanceError { code, msg }),
            _ => None,
        }
    }
}

/// What is known of a limited request: its header, and its body.
pub struct RateLimitHint<'a> {
    pub retry_after: Option<&'a str>,
    pub body: &'a str,
}

/// How an answer that is no success is sorted, given the error that its body holds.
pub open spec fn sorted(
    status: u16,
    body: Seq<char>,
    error: Option<(int, Seq<char>)>,
    wait_ms: int,
) -> Failure {
    if status == 429 || status == 418 {
        Failure::RateLimited { retry_after_ms: wait_ms as u64 }
    } else if status >= 500 {
        Failure::Unknown("HTTP "@ + crate::text::digits(status as nat) + "："@ + body)
    } else {
        match error {
            Some((code, msg)) => match reason_of(code, msg) {
                Some(reason) => Failure::Rejected(reason),
                None => if status == 401 || status == 403 {
                    Failure::Fatal("凭据或权限问题："@ + msg)
                } else {
                    Failure::Definitive(
                        "币安拒绝（"@ + crate::text::signed_digits(code) + "）："@ + msg,
                    )
                },
            },
            None => Failure::Definitive(
                "HTTP "@ + crate::text::digits(status as nat) + "："@ + body,
            ),
        }
    }
}

/// Sorts an answer that is no success, given the error that its body holds.
pub fn sort_answer(status: u16, body: &str, error: Option<BinanceError>, wait_ms: u64) -> (r:
    ExchangeError)
    ensures
        r@ == sorted(
            status,
            body@,
            match error {
                Some(e) => Some((e.code as int, e.msg@)),
                None => None,
            },
            wait_ms as int,
        ),
{
    if status == 429 || status == 418 {
        return ExchangeError::RateLimited { retry_after_ms: wait_ms };
    }
    if status >= 500 {
        return ExchangeError::Unknown(
            joined4("HTTP ", u64_text(status as u64).as_str(), "：", body),
        );
    }
    match error {
        Some(err) => match reject_reason_from_code(err.code, err.msg.as_str()) {
            Some(reason) => ExchangeError::Rejected(reason),
            None => if status == 401 || status == 403 {
                ExchangeError::Fatal(joined("凭据或权限问题：", err.msg.as_str()))
            } else {
                ExchangeError::Definitive(
                    joined4("币安拒绝（", i64_text(err.code).as_str(), "）：", err.msg.as_str()),
                )
            },
        },
        None => ExchangeError::Definitive(
            joined4("HTTP ", u64_text(status as u64).as_str(), "：", body),
        ),
    }
}

/// Sorts an answer that is no success by whether the request may be repeated. A limited request
/// waits as its header says, else as its body says, else the default.
pub fn classify_api_error_with(status: u16, hint: RateLimitHint<'_>, now_ms: Timestamp) -> (r:
    ExchangeError)
    ensures
        r@ == sorted(
            status,
            hint.body@,
            error_of(hint.body@),
            crate::cooldown::limit_wait(
                crate::cooldown::header_text(hint.retry_after),
                hint.body@,
                now_ms,
            ),
        ),
{
    let wait = wait_after_limit(hint.retry_after, hint.body, now_ms);
    let error = BinanceError::read(hint.body);
    sort_answer(status, hint.body, error, wait)
}

/// Sorts an answer of which only the status and the body are known.
pub fn classify_api_error(status: u16, body: &str) -> (r: ExchangeError)
    ensures
        r@ == sorted(status, body@, error_of(body@), 1000),
{
    let error = BinanceError::read(body);
    sort_answer(status, body, error, 1000)
}

/// What the server could not say is never repeated without looking: an answer of its own failure
/// leaves the state unknown, a refusal is final, and bad credentials stop trading.
pub proof fn law_unsure_requests_are_not_repeated(
    status: u16,
    body: Seq<char>,
    error: Option<(int, Seq<char>)>,
    wait_ms: int,
)
    ensures
        status >= 500 ==> sorted(status, body, error, wait_ms) is Unknown,
        status == 429 || status == 418 ==> sorted(status, body, error, wait_ms) is RateLimited,
        sorted(status, body, error, wait_ms) is Definitive ==> status < 500,
        status < 500 && status != 429 && status != 418 && (error matches Some((code, msg))
            && code == -5022) ==> sorted(status, body, error, wait_ms) == Failure::Rejected(
            RejectReason::PostOnlyWouldCross,
        ),
        (status == 401 || status == 403) && (error matches Some((code, msg)) && reason_of(
            code,
            msg,
        ) is None) ==> sorted(status, body, error, wait_ms) is Fatal,
{
}

/// An order, as it is sent.
#[derive(Debug, PartialEq, Eq)]
pub struct OrderRequest {
    pub symbol: String,
    pub side: String,
    pub order_type: String,
    pub quantity: String,
    pub client_order_id: String,
    pub price: Option<String>,
    pub time_in_force: Option<String>,
    pub reduce_only: Option<bool>,
    pub stop_price: Option<String>,
    pub working_type: Option<String>,
    pub price_protect: Option<bool>,
    pub good_till_date: Option<i64>,
}

/// An [`OrderRequest`] with its texts as sequences of characters.
pub struct RequestModel {
    pub symbol: Seq<char>,
    pub side: Seq<char>,
    pub order_type: Seq<char>,
    pub quantity: Seq<char>,
    pub client_order_id: Seq<char>,
    pub price: Option<Seq<char>>,
    pub time_in_force: Option<Seq<char>>,
    pub reduce_only: Option<bool>,
    pub stop_price: Option<Seq<char>>,
    pub working_type: Option<Seq<char>>,
    pub price_protect: Option<bool>,
    pub good_till_date: Option<i64>,
}

impl View for OrderRequest {
    type V = RequestModel;

    open spec fn view(&self) -> RequestModel {
        RequestModel {
            symbol: self.symbol@,
            side: self.side@,
            order_type: self.order_type@,
            quantity: self.quantity@,
            client_order_id: self.client_order_id@,
            price: maybe(self.price),
            time_in_force: maybe(self.time_in_force),
            reduce_only: self.reduce_only,
            stop_price: maybe(self.stop_price),
            working_type: maybe(self.working_type),
            price_protect: self.price_protect,
            good_till_date: self.good_till_date,
        }
    }
}

/// The word for a side.
pub open spec fn side_word(s: Side) -> Seq<char> {
    match s {
        Side::Buy => "BUY"@,
        Side::Sell => "SELL"@,
    }
}

pub fn side_tag(s: Side) -> (r: &'static str)
    ensures
        r@ == side_word(s),
{
    match s {
        Side::Buy => "BUY",
        Side::Sell => "SELL",
    }
}

impl RequestModel {
    /// A limit order that only ever rests.
    pub open spec fn resting(
        symbol: Seq<char>,
        side: Side,
        quantity: Decimal,
        price: Decimal,
        client_order_id: Seq<char>,
    ) -> RequestModel {
        RequestModel {
            symbol,
            side: side_word(side),
            order_type: "LIMIT"@,
            quantity: quantity.written(),
            client_order_id,
            price: Some(price.written()),
            time_in_force: Some("GTX"@),
            reduce_only: None,
            stop_price: None,
            working_type: None,
            price_protect: None,
            good_till_date: None,
        }
    }
}

impl OrderRequest {
    /// A post-only limit order: the only way to enter.
    pub fn post_only_limit(
        symbol: &str,
        side: Side,
        quantity: Decimal,
        price: Decimal,
        client_order_id: &str,
    ) -> (r: Self)
        ensures
            r@ == RequestModel::resting(symbol@, side, quantity, price, client_order_id@),
    {
        OrderRequest {
            symbol: symbol.to_owned(),
            side: side_tag(side).to_owned(),
            order_type: "LIMIT".to_owned(),
            quantity: quantity.text(),
            client_order_id: client_order_id.to_owned(),
            price: Some(price.text()),
            time_in_force: Some("GTX".to_owned()),
            reduce_only: None,
            stop_price: None,
            working_type: None,
            price_protect: None,
            good_till_date: None,
        }
    }

    /// A post-only limit order that only ever reduces a position.
    pub fn reduce_only_limit(
        symbol: &str,
        side: Side,
        quantity: Decimal,
        price: Decimal,
        client_order_id: &str,
    ) -> (r: Self)
        ensures
            r@ == (RequestModel {
                reduce_only: Some(true),
                ..RequestModel::resting(symbol@, side, quantity, price, client_order_id@)
            }),
    {
        let mut r = OrderRequest::post_only_limit(symbol, side, quantity, price, client_order_id);
        r.reduce_only = Some(true);
        r
    }

    /// A conditional order. It is triggered by the mark price, with the exchange's protection
    /// against stray prices, and only ever reduces a position.
    pub fn conditional(
        symbol: &str,
        side: Side,
        quantity: Decimal,
        trigger_price: Decimal,
        limit_price: Decimal,
        client_order_id: &str,
        is_stop: bool,
    ) -> (r: Self)
        ensures
            r@ == (RequestModel {
                symbol: symbol@,
                side: side_word(side),
                order_type: if is_stop {
                    "STOP"@
                } else {
                    "TAKE_PROFIT"@
                },
                quantity: quantity.written(),
                client_order_id: client_order_id@,
                price: Some(limit_price.written()),
                time_in_force: Some("GTC"@),
                reduce_only: Some(true),
                stop_price: Some(trigger_price.written()),
                working_type: Some("MARK_PRICE"@),
                price_protect: Some(true),
                good_till_date: None,
            }),
    {
        let kind = if is_stop {
            "STOP".to_owned()
        } else {
            "TAKE_PROFIT".to_owned()
        };
        OrderRequest {
            symbol: symbol.to_owned(),
            side: side_tag(side).to_owned(),
            order_type: kind,
            quantity: quantity.text(),
            client_order_id: client_order_id.to_owned(),
            price: Some(limit_price.text()),
            time_in_force: Some("GTC".to_owned()),
            reduce_only: Some(true),
            stop_price: Some(trigger_price.text()),
            working_type: Some("MARK_PRICE".to_owned()),
            price_protect: Some(true),
            good_till_date: None,
        }
    }
}

/// An answer about an order.
#[derive(Debug, PartialEq, Eq)]
pub struct OrderResponse {
    pub order_id: i64,
    pub client_order_id: String,
    pub status: String,
    pub avg_price: String,
    pub executed_qty: String,
    pub price: String,
}

/// An [`OrderResponse`] with its texts as sequences of characters.
pub struct AnswerModel {
    pub order_id: int,
    pub client_order_id: Seq<char>,
    pub status: Seq<char>,
    pub avg_price: Seq<char>,
    pub executed_qty: Seq<char>,
    pub price: Seq<char>,
}

impl View for OrderResponse {
    type V = AnswerModel;

    open spec fn view(&self) -> AnswerModel {
        AnswerModel {
            order_id: self.order_id as int,
            client_order_id: self.client_order_id@,
            status: self.status@,
            avg_price: self.avg_price@,
            executed_qty: self.executed_qty@,
            price: self.price@,
        }
    }
}

/// An order that the exchange has taken.
#[derive(Debug, PartialEq, Eq)]
pub struct AcceptedOrder {
    pub exchange_order_id: String,
    pub client_order_id: String,
    pub status: String,
    pub executed_qty: Decimal,
    pub avg_price: Decimal,
}

/// An [`AcceptedOrder`] with its texts as sequences of characters.
pub struct AcceptedModel {
    pub exchange_order_id: Seq<char>,
    pub client_order_id: Seq<char>,
    pub status: Seq<char>,
    pub executed_qty: Decimal,
    pub avg_price: Decimal,
}

impl View for AcceptedOrder {
    type V = AcceptedModel;

    open spec fn view(&self) -> AcceptedModel {
        AcceptedModel {
            exchange_order_id: self.exchange_order_id@,
            client_order_id: self.client_order_id@,
            status: self.status@,
            executed_qty: self.executed_qty,
            avg_price: self.avg_price,
        }
    }
}

impl AnswerModel {
    /// The order that an answer is about. Amounts that cannot be read are zero.
    pub open spec fn accepted(self) -> AcceptedModel {
        AcceptedModel {
            exchange_order_id: crate::text::signed_digits(self.order_id),
            client_order_id: self.client_order_id,
            status: self.status,
            executed_qty: amount_or(Some(self.executed_qty), Decimal::whole(0)),
            avg_price: amount_or(Some(self.avg_price), Decimal::whole(0)),
        }
    }
}

impl AcceptedOrder {
    /// The order that an answer is about. It always can be told.
    pub fn try_from(r: OrderResponse) -> (a: Result<Self, ExchangeError>)
        ensures
            a matches Ok(x) && x@ == r@.accepted(),
    {
        Ok(
            AcceptedOrder {
                exchange_order_id: i64_text(r.order_id),
                client_order_id: r.client_order_id,
                status: r.status,
                executed_qty: read_amount(r.executed_qty.as_str(), Decimal::zero()),
                avg_price: read_amount(r.avg_price.as_str(), Decimal::zero()),
            },
        )
    }
}

/// A trigger is far enough exactly where no distance is required, there is no positive mark price, or
/// it is at least the required part of the mark price away, on either side. One that is too close is
/// answered with both distances.
pub proof fn law_triggers_need_their_distance(required: Decimal, trigger: Decimal, mark: Decimal)
    requires
        mark@ > 0 ==> trigger.subtracts_exactly(mark) && trigger.less(mark).divides_exactly(mark),
    ensures
        trigger_verdict(None, trigger, mark) is FarEnough,
        mark@ <= 0 ==> trigger_verdict(Some(required), trigger, mark) is FarEnough,
        mark@ > 0 ==> (trigger_verdict(Some(required), trigger, mark) is FarEnough
            <==> crate::decimal::magnitude(trigger@ - mark@) * crate::decimal::unit() >= required@
            * mark@),
        trigger_verdict(Some(required), trigger, mark) matches TriggerProtectVerdict::TooClose {
            distance,
            required: needed,
        } ==> needed == required && distance@ * mark@ == crate::decimal::magnitude(
            trigger@ - mark@,
        ) * crate::decimal::unit(),
{
    if mark@ > 0 {
        let r = trigger.less(mark).per(mark);
        crate::decimal::law_signs(r);
        let u = crate::decimal::unit();
        let q = r@;
        let a = r.unsigned()@;
        let d = trigger@ - mark@;
        let m = mark@;
        let w = crate::decimal::magnitude(d);
        let n = required@;
        assert(a * m == w * u) by (nonlinear_arith)
            requires
                q * m == d * u,
                m > 0,
                u > 0,
                a == (if q < 0 { -q } else { q }),
                w == (if d < 0 { -d } else { d }),
        ;
        assert(a >= n <==> w * u >= n * m) by (nonlinear_arith)
            requires
                a * m == w * u,
                m > 0,
        ;
    }
}

/// A rate in percent is a hundred times the fraction that it stands for.
pub proof fn law_percentages_are_hundredths(s: Seq<char>, pct: Decimal)
    requires
        crate::decimal::decimal_of_text(s) == Some(pct),
        pct.divides_exactly(Decimal::whole(100)),
    ensures
        100 * ratio_of(s)@ == pct@,
{
    crate::decimal::lemma_of_parts(100, 0);
    crate::decimal::lemma_pow10_28();
    let u = crate::decimal::unit();
    let r = ratio_of(s)@;
    let p = pct@;
    assert(100 * r == p) by (nonlinear_arith)
        requires
            r * (100 * u) == p * u,
            u > 0,
    ;
}

/// The filter of a kind is the last one of that kind, and there is none only where no filter is.
pub proof fn law_last_filter_is_of_its_kind(filters: Seq<FilterModel>, kind: Seq<char>)
    ensures
        last_filter(filters, kind) matches Some(f) ==> exists|i: int|
            0 <= i < filters.len() && #[trigger] filters[i] == f && f.filter_type == kind && forall|
                j: int,
            |
                i < j < filters.len() ==> (#[trigger] filters[j]).filter_type != kind,
        last_filter(filters, kind) is None ==> forall|i: int|
            0 <= i < filters.len() ==> (#[trigger] filters[i]).filter_type != kind,
    decreases filters.len(),
{
    if filters.len() > 0 {
        let before = filters.drop_last();
        let n = filters.len() - 1;
        assert(filters[n] == filters.last());
        if filters.last().filter_type != kind {
            law_last_filter_is_of_its_kind(before, kind);
            if let Some(f) = last_filter(before, kind) {
                let i = choose|i: int|
                    0 <= i < before.len() && #[trigger] before[i] == f && f.filter_type == kind
                        && forall|j: int|
                        i < j < before.len() ==> (#[trigger] before[j]).filter_type != kind;
                assert(filters[i] == f);
                assert forall|j: int| i < j < filters.len() implies (
                #[trigger] filters[j]).filter_type != kind by {
                    if j < n {
                        assert(before[j] == filters[j]);
                    }
                }
            } else {
                assert forall|i: int| 0 <= i < filters.len() implies (
                #[trigger] filters[i]).filter_type != kind by {
                    if i < n {
                        assert(before[i] == filters[i]);
                    }
                }
            }
        }
    }
}

/// The rules of a contract are those that it publishes: its tick from the price filter, its step and
/// its least quantity from the lot size, its least value from the value filter, five without one. What
/// is missing or no amount among the first three is an error.
pub proof fn law_rules_are_as_published(raw: RawModel)
    ensures
        ({
            let price = last_filter(raw.filters, "PRICE_FILTER"@);
            let lot = last_filter(raw.filters, "LOT_SIZE"@);
            let value = last_filter(raw.filters, "MIN_NOTIONAL"@);
            let tick = price is Some && price->0.tick_size is Some && crate::decimal::decimal_of_text(
                price->0.tick_size->0,
            ) is Some;
            let step = lot is Some && lot->0.step_size is Some && crate::decimal::decimal_of_text(
                lot->0.step_size->0,
            ) is Some;
            let least = lot is Some && lot->0.min_qty is Some && crate::decimal::decimal_of_text(
                lot->0.min_qty->0,
            ) is Some;
            &&& raw.rules() is Ok <==> tick && step && least
            &&& raw.rules() matches Ok(spec) ==> ({
                &&& Some(spec.precision.tick_size) == crate::decimal::decimal_of_text(
                    price->0.tick_size->0,
                )
                &&& Some(spec.precision.step_size) == crate::decimal::decimal_of_text(
                    lot->0.step_size->0,
                )
                &&& Some(spec.precision.min_qty) == crate::decimal::decimal_of_text(
                    lot->0.min_qty->0,
                )
                &&& value is None ==> spec.precision.min_notional == Decimal::whole(5)
                &&& value is Some && value->0.notional is Some && crate::decimal::decimal_of_text(
                    value->0.notional->0,
                ) is Some ==> Some(spec.precision.min_notional) == crate::decimal::decimal_of_text(
                    value->0.notional->0,
                )
                &&& crate::decimal::decimal_of_text(raw.maint_margin_percent) matches Some(d)
                    ==> spec.maint_margin_pct == d
                &&& crate::decimal::decimal_of_text(raw.required_margin_percent) matches Some(d)
                    ==> spec.required_margin_pct == d
                &&& crate::decimal::decimal_of_text(raw.liquidation_fee) matches Some(d)
                    ==> spec.liquidation_fee == d
                &&& spec.symbol == raw.symbol && spec.status == raw.status && spec.base_asset
                    == raw.base_asset && spec.quote_asset == raw.quote_asset && spec.margin_asset
                    == raw.margin_asset && spec.contract_type == raw.contract_type
            })
        }),
{
}

/// The contract of a symbol is the first that is published under it.
pub proof fn law_first_contract_of_a_symbol(s: Seq<RawModel>, symbol: Seq<char>, from: nat)
    ensures
        first_symbol(s, symbol, from) matches Some(raw) ==> exists|i: int|
            from <= i < s.len() && #[trigger] s[i] == raw && raw.symbol == symbol && forall|j: int|
                from <= j < i ==> (#[trigger] s[j]).symbol != symbol,
        first_symbol(s, symbol, from) is None ==> forall|i: int|
            from <= i < s.len() ==> (#[trigger] s[i]).symbol != symbol,
    decreases s.len() - from,
{
    if from < s.len() {
        if s[from as int].symbol != symbol {
            law_first_contract_of_a_symbol(s, symbol, from + 1);
        } else {
            assert(s[from as int] == first_symbol(s, symbol, from)->0);
        }
    }
}

/// Every contract is either readable or reported, and a symbol whose contract can be read is among
/// the readable ones.
pub proof fn law_contracts_are_read_or_reported(s: Seq<RawModel>)
    ensures
        forall|i: int|
            0 <= i < s.len() && (#[trigger] s[i]).rules() is Ok ==> readable(s).dom().contains(
                s[i].symbol,
            ),
        forall|k: Seq<char>| #[trigger]
            readable(s).dom().contains(k) ==> exists|i: int|
                0 <= i < s.len() && (#[trigger] s[i]).symbol == k && s[i].rules() == Ok::<
                    SpecModel,
                    Seq<char>,
                >(readable(s)[k]),
        unreadable(s).len() == s.filter(|r: RawModel| r.rules() is Err).len(),
    decreases s.len(),
{
    reveal(Seq::filter);
    if s.len() > 0 {
        let before = s.drop_last();
        let n = s.len() - 1;
        law_contracts_are_read_or_reported(before);
        assert(s[n] == s.last());
        assert forall|i: int| 0 <= i < s.len() && (#[trigger] s[i]).rules() is Ok implies readable(
            s,
        ).dom().contains(s[i].symbol) by {
            if i < n {
                assert(before[i] == s[i]);
            }
        }
        assert forall|k: Seq<char>| #[trigger] readable(s).dom().contains(k) implies exists|i: int|
            0 <= i < s.len() && (#[trigger] s[i]).symbol == k && s[i].rules() == Ok::<
                SpecModel,
                Seq<char>,
            >(readable(s)[k]) by {
            if s.last().rules() is Ok && s.last().symbol == k {
                assert(s[n].symbol == k);
            } else {
                assert(readable(before).dom().contains(k));
                let i = choose|i: int|
                    0 <= i < before.len() && (#[trigger] before[i]).symbol == k && before[i].rules()
                        == Ok::<SpecModel, Seq<char>>(readable(before)[k]);
                assert(s[i] == before[i]);
            }
        }
    }
}

/// A refusal that the exchange numbers is told apart by its number, whatever its message; a message
/// about reducing orders is about their quantity.
pub proof fn law_refusals_go_by_their_number(msg: Seq<char>, code: int)
    ensures
        reason_of(-5022, msg) == Some(RejectReason::PostOnlyWouldCross),
        reason_of(-2019, msg) == Some(RejectReason::InsufficientMargin),
        reason_of(-4140, msg) == Some(RejectReason::InstrumentNotTrading),
        reason_of(-2021, msg) == Some(RejectReason::PriceOutOfRange),
        reason_of(code, msg) == Some(RejectReason::PostOnlyWouldCross) ==> code == -5022,
        reason_of(code, msg) == Some(RejectReason::InsufficientMargin) ==> code == -2019,
        reason_of(code, msg) == Some(RejectReason::InstrumentNotTrading) ==> code == -4140,
        reason_of(code, msg) == Some(RejectReason::PriceOutOfRange) ==> code == -2021,
        code == -4131 || code == -4003 || code == -4004 || code == -4016 ==> reason_of(code, msg)
            == Some(RejectReason::InvalidQuantity),
        reason_of(code, msg) is None ==> !crate::text::holds_text(msg, "reduceOnly"@),
{
}

/// Every order that enters or leaves rests: it is a limit order that the exchange refuses rather than
/// lets it take. The word for its side is that of its side, and its amounts are written as they are.
pub proof fn law_orders_only_rest(
    symbol: Seq<char>,
    side: Side,
    quantity: Decimal,
    price: Decimal,
    id: Seq<char>,
)
    ensures
        ({
            let r = RequestModel::resting(symbol, side, quantity, price, id);
            &&& r.order_type == "LIMIT"@
            &&& r.time_in_force == Some("GTX"@)
            &&& r.side == (if side is Buy {
                "BUY"@
            } else {
                "SELL"@
            })
            &&& r.quantity == quantity.written()
            &&& r.price == Some(price.written())
            &&& r.symbol == symbol
            &&& r.client_order_id == id
            &&& r.stop_price is None
        }),
        side_word(Side::Buy) != side_word(Side::Sell),
{
    reveal_strlit("BUY");
    reveal_strlit("SELL");
    assert("BUY"@.len() != "SELL"@.len());
}

/// An order that the exchange has taken is told of with its own number, id and status, and with its
/// quantity and average price where they are amounts.
pub proof fn law_taken_orders_are_told_of(a: AnswerModel)
    ensures
        a.accepted().exchange_order_id == crate::text::signed_digits(a.order_id),
        a.accepted().client_order_id == a.client_order_id,
        a.accepted().status == a.status,
        crate::decimal::decimal_of_text(a.executed_qty) matches Some(d) ==> a.accepted().executed_qty
            == d,
        crate::decimal::decimal_of_text(a.avg_price) matches Some(d) ==> a.accepted().avg_price == d,
        crate::decimal::decimal_of_text(a.executed_qty) is None ==> a.accepted().executed_qty@ == 0,
        crate::decimal::decimal_of_text(a.avg_price) is None ==> a.accepted().avg_price@ == 0,
{
    crate::decimal::lemma_of_parts(0, 0);
}

} // verus!
