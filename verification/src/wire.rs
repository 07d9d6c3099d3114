//! Reading the exchange's answers.
//!
//! Fields that are not known are passed over. A field that may be missing has a default; one
//! that has to be there, or is of the wrong kind, makes the whole answer unreadable.

use vstd::prelude::*;
use crate::binance::{
    AccountFeeResponse, AnswerModel, ExchangeInfoResponse, FilterModel, OrderResponse, RawFilter,
    RawModel, RawSymbol,
};
use crate::json::{field, fits, list_of, read_json, JsonModel, Slot};

verus! {

/// Why an answer is unreadable: it is not JSON, or its fields are not those of the answer.
pub open spec fn unread(text: Seq<char>) -> Seq<char> {
    match crate::json::json_text(text) {
        Err(e) => e,
        Ok(_) => "字段不符"@,
    }
}

/// Reads a text, or says why it is not JSON.
pub(crate) fn open_answer(text: &str) -> (r: Result<serde_json::Value, String>)
    ensures
        match r {
            Ok(v) => crate::json::json_text(text@) == Ok::<JsonModel, Seq<char>>(
                crate::json::json_of(v),
            ),
            Err(e) => crate::json::json_text(text@) is Err && e@ == unread(text@),
        },
{
    match read_json(text) {
        Ok(v) => Ok(v),
        Err(e) => Err(e),
    }
}

/// The filter that a value is.
pub open spec fn filter_of(j: JsonModel) -> Option<FilterModel> {
    match (
        j.field(0, "filterType"@).text(true),
        j.field(1, "tickSize"@).maybe_text(),
        j.field(2, "stepSize"@).maybe_text(),
        j.field(3, "minQty"@).maybe_text(),
        j.field(4, "notional"@).maybe_text(),
    ) {
        (Some(filter_type), Some(tick_size), Some(step_size), Some(min_qty), Some(notional)) =>
            if j.fits(5) {
                Some(FilterModel { filter_type, tick_size, step_size, min_qty, notional })
            } else {
                None
            },
        _ => None,
    }
}

fn read_filter(v: &serde_json::Value) -> (r: Option<RawFilter>)
    ensures
        match r {
            Some(f) => filter_of(crate::json::json_of(*v)) == Some(f@),
            None => filter_of(crate::json::json_of(*v)) is None,
        },
{
    if !fits(v, 5) {
        return None;
    }
    match (
        field(v, 0, "filterType").text(true),
        field(v, 1, "tickSize").maybe_text(),
        field(v, 2, "stepSize").maybe_text(),
        field(v, 3, "minQty").maybe_text(),
        field(v, 4, "notional").maybe_text(),
    ) {
        (Some(filter_type), Some(tick_size), Some(step_size), Some(min_qty), Some(notional)) =>
            Some(RawFilter { filter_type, tick_size, step_size, min_qty, notional }),
        _ => None,
    }
}

/// The filters that some values are; `None` where one is none.
pub open spec fn filters_of(s: Seq<JsonModel>) -> Option<Seq<FilterModel>>
    decreases s.len(),
{
    if s.len() == 0 {
        Some(Seq::empty())
    } else {
        match (filters_of(s.drop_last()), filter_of(s.last())) {
            (Some(before), Some(f)) => Some(before.push(f)),
            _ => None,
        }
    }
}

proof fn lemma_filters_fail(s: Seq<JsonModel>, n: nat)
    requires
        n <= s.len(),
        filters_of(s.take(n as int)) is None,
    ensures
        filters_of(s) is None,
    decreases s.len() - n,
{
    if n < s.len() {
        assert(s.take((n + 1) as int).drop_last() =~= s.take(n as int));
        lemma_filters_fail(s, n + 1);
    } else {
        assert(s.take(n as int) =~= s);
    }
}

fn read_filters(items: &Vec<serde_json::Value>) -> (r: Option<Vec<RawFilter>>)
    ensures
        match r {
            Some(v) => filters_of(crate::json::jsons_of(items@)) == Some(RawFilter::models(v@)),
            None => filters_of(crate::json::jsons_of(items@)) is None,
        },
{
    let ghost s = crate::json::jsons_of(items@);
    let mut out: Vec<RawFilter> = Vec::new();
    assert(RawFilter::models(out@) =~= Seq::<FilterModel>::empty());
    for i in 0..items.len()
        invariant
            s == crate::json::jsons_of(items@),
            filters_of(s.take(i as int)) == Some(RawFilter::models(out@)),
    {
        let ghost before = out@;
        assert(s.take(i + 1).drop_last() =~= s.take(i as int));
        assert(s.take(i + 1).last() == crate::json::json_of(items@[i as int]));
        match read_filter(&items[i]) {
            Some(f) => {
                let ghost model = f@;
                out.push(f);
                assert(RawFilter::models(out@) =~= RawFilter::models(before).push(model));
            },
            None => {
                proof {
                    lemma_filters_fail(s, (i + 1) as nat);
                }
                return None;
            },
        }
    }
    assert(s.take(s.len() as int) =~= s);
    Some(out)
}

/// The items of a list that may be missing; `None` where it is no list.
pub(crate) fn items_of<'a>(slot: Slot<'a>) -> (r: Option<Option<&'a Vec<serde_json::Value>>>)
    ensures
        match r {
            Some(Some(v)) => slot.model().list(false) == Some(crate::json::jsons_of(v@)),
            Some(None) => slot.model().list(false) == Some(Seq::<JsonModel>::empty()),
            None => slot.model().list(false) is None,
        },
{
    match slot {
        Slot::Absent => Some(None),
        Slot::Twice => None,
        Slot::Given(v) => match list_of(v) {
            Some(items) => Some(Some(items)),
            None => None,
        },
    }
}

/// The filters of a contract. Where none are published there are none.
pub open spec fn filters_field(j: JsonModel) -> Option<Seq<FilterModel>> {
    match j.field(12, "filters"@).list(false) {
        Some(s) => filters_of(s),
        None => None,
    }
}

/// The order types of a contract.
pub open spec fn types_field(j: JsonModel) -> Option<Seq<Seq<char>>> {
    match j.field(10, "orderTypes"@).list(false) {
        Some(s) => crate::json::texts_of(s),
        None => None,
    }
}

/// The assets and names of a contract, in the order in which they are published.
pub open spec fn names_of(j: JsonModel) -> Option<Seq<Seq<char>>> {
    match (
        j.field(0, "symbol"@).text(true),
        j.field(1, "contractType"@).text(false),
        j.field(2, "status"@).text(false),
        j.field(3, "baseAsset"@).text(false),
        j.field(4, "quoteAsset"@).text(false),
        j.field(5, "marginAsset"@).text(false),
    ) {
        (Some(a), Some(b), Some(c), Some(d), Some(e), Some(f)) => Some(seq![a, b, c, d, e, f]),
        _ => None,
    }
}

/// The rates of a contract, in the order in which they are published.
pub open spec fn rates_of(j: JsonModel) -> Option<Seq<Seq<char>>> {
    match (
        j.field(6, "maintMarginPercent"@).text(false),
        j.field(7, "requiredMarginPercent"@).text(false),
        j.field(8, "liquidationFee"@).text(false),
    ) {
        (Some(a), Some(b), Some(c)) => Some(seq![a, b, c]),
        _ => None,
    }
}

/// The contract that a value is.
pub open spec fn symbol_of(j: JsonModel) -> Option<RawModel> {
    match (
        names_of(j),
        rates_of(j),
        j.field(9, "triggerProtect"@).maybe_text(),
        types_field(j),
        j.field(11, "onboardDate"@).maybe_integer(),
        filters_field(j),
    ) {
        (Some(names), Some(rates), Some(trigger), Some(types), Some(onboard), Some(filters)) =>
            if j.fits(13) {
                Some(
                    RawModel {
                        symbol: names[0],
                        contract_type: names[1],
                        status: names[2],
                        base_asset: names[3],
                        quote_asset: names[4],
                        margin_asset: names[5],
                        maint_margin_percent: rates[0],
                        required_margin_percent: rates[1],
                        liquidation_fee: rates[2],
                        trigger_protect: trigger,
                        order_types: types,
                        onboard_date: match onboard {
                            Some(n) => Some(n as i64),
                            None => None,
                        },
                        filters,
                    },
                )
            } else {
                None
            },
        _ => None,
    }
}

impl RawSymbol {
    /// Reads a contract; `None` where the value is none.
    pub fn read(v: &serde_json::Value) -> (r: Option<RawSymbol>)
        ensures
            match r {
                Some(x) => symbol_of(crate::json::json_of(*v)) == Some(x@),
                None => symbol_of(crate::json::json_of(*v)) is None,
            },
    {
        if !fits(v, 13) {
            return None;
        }
        let (symbol, contract_type, status, base_asset, quote_asset, margin_asset) = match (
            field(v, 0, "symbol").text(true),
            field(v, 1, "contractType").text(false),
            field(v, 2, "status").text(false),
            field(v, 3, "baseAsset").text(false),
            field(v, 4, "quoteAsset").text(false),
            field(v, 5, "marginAsset").text(false),
        ) {
            (Some(a), Some(b), Some(c), Some(d), Some(e), Some(f)) => (a, b, c, d, e, f),
            _ => return None,
        };
        let (maint_margin_percent, required_margin_percent, liquidation_fee) = match (
            field(v, 6, "maintMarginPercent").text(false),
            field(v, 7, "requiredMarginPercent").text(false),
            field(v, 8, "liquidationFee").text(false),
        ) {
            (Some(a), Some(b), Some(c)) => (a, b, c),
            _ => return None,
        };
        let trigger_protect = match field(v, 9, "triggerProtect").maybe_text() {
            Some(t) => t,
            None => return None,
        };
        let order_types = match field(v, 10, "orderTypes").texts(false) {
            Some(t) => t,
            None => return None,
        };
        let onboard_date = match field(v, 11, "onboardDate").maybe_integer() {
            Some(n) => n,
            None => return None,
        };
        let filters = match items_of(field(v, 12, "filters")) {
            None => return None,
            Some(None) => {
                let none: Vec<RawFilter> = Vec::new();
                assert(RawFilter::models(none@) =~= Seq::<FilterModel>::empty());
                none
            },
            Some(Some(items)) => match read_filters(items) {
                Some(f) => f,
                None => return None,
            },
        };
        let r = RawSymbol {
            symbol,
            contract_type,
            status,
            base_asset,
            quote_asset,
            margin_asset,
            maint_margin_percent,
            required_margin_percent,
            liquidation_fee,
            trigger_protect,
            order_types,
            onboard_date,
            filters,
        };
        assert(r@.order_types == order_types@.map_values(|t: String| t@));
        Some(r)
    }
}

/// The contracts that some values are; `None` where one is none.
pub open spec fn symbols_of(s: Seq<JsonModel>) -> Option<Seq<RawModel>>
    decreases s.len(),
{
    if s.len() == 0 {
        Some(Seq::empty())
    } else {
        match (symbols_of(s.drop_last()), symbol_of(s.last())) {
            (Some(before), Some(x)) => Some(before.push(x)),
            _ => None,
        }
    }
}

proof fn lemma_symbols_fail(s: Seq<JsonModel>, n: nat)
    requires
        n <= s.len(),
        symbols_of(s.take(n as int)) is None,
    ensures
        symbols_of(s) is None,
    decreases s.len() - n,
{
    if n < s.len() {
        assert(s.take((n + 1) as int).drop_last() =~= s.take(n as int));
        lemma_symbols_fail(s, n + 1);
    } else {
        assert(s.take(n as int) =~= s);
    }
}

fn read_symbols(items: &Vec<serde_json::Value>) -> (r: Option<Vec<RawSymbol>>)
    ensures
        match r {
            Some(v) => symbols_of(crate::json::jsons_of(items@)) == Some(RawSymbol::models(v@)),
            None => symbols_of(crate::json::jsons_of(items@)) is None,
        },
{
    let ghost s = crate::json::jsons_of(items@);
    let mut out: Vec<RawSymbol> = Vec::new();
    assert(RawSymbol::models(out@) =~= Seq::<RawModel>::empty());
    for i in 0..items.len()
        invariant
            s == crate::json::jsons_of(items@),
            symbols_of(s.take(i as int)) == Some(RawSymbol::models(out@)),
    {
        let ghost before = out@;
        assert(s.take(i + 1).drop_last() =~= s.take(i as int));
        assert(s.take(i + 1).last() == crate::json::json_of(items@[i as int]));
        match RawSymbol::read(&items[i]) {
            Some(x) => {
                let ghost model = x@;
                out.push(x);
                assert(RawSymbol::models(out@) =~= RawSymbol::models(before).push(model));
            },
            None => {
                proof {
                    lemma_symbols_fail(s, (i + 1) as nat);
                }
                return None;
            },
        }
    }
    assert(s.take(s.len() as int) =~= s);
    Some(out)
}

/// The published contracts that a text holds.
pub open spec fn info_of(text: Seq<char>) -> Option<Seq<RawModel>> {
    match crate::json::json_text(text) {
        Err(_) => None,
        Ok(j) => match j.field(0, "symbols"@).list(false) {
            Some(s) => if j.fits(1) {
                symbols_of(s)
            } else {
                None
            },
            None => None,
        },
    }
}

impl ExchangeInfoResponse {
    /// Reads the published contracts.
    pub fn read(text: &str) -> (r: Result<ExchangeInfoResponse, String>)
        ensures
            match r {
                Ok(x) => info_of(text@) == Some(RawSymbol::models(x.symbols@)),
                Err(e) => info_of(text@) is None && e@ == unread(text@),
            },
    {
        let v = match open_answer(text) {
            Ok(v) => v,
            Err(e) => return Err(e),
        };
        if !fits(&v, 1) {
            return Err("字段不符".to_owned());
        }
        match items_of(field(&v, 0, "symbols")) {
            None => Err("字段不符".to_owned()),
            Some(None) => {
                let none: Vec<RawSymbol> = Vec::new();
                assert(RawSymbol::models(none@) =~= Seq::<RawModel>::empty());
                Ok(ExchangeInfoResponse { symbols: none })
            },
            Some(Some(items)) => match read_symbols(items) {
                Some(symbols) => Ok(ExchangeInfoResponse { symbols }),
                None => Err("字段不符".to_owned()),
            },
        }
    }
}

/// The fee rates that a text holds.
pub open spec fn account_of(text: Seq<char>) -> Option<(Seq<char>, Seq<char>)> {
    match crate::json::json_text(text) {
        Err(_) => None,
        Ok(j) => match (
            j.field(0, "makerCommission"@).text(false),
            j.field(1, "takerCommission"@).text(false),
        ) {
            (Some(maker), Some(taker)) => if j.fits(2) {
                Some((maker, taker))
            } else {
                None
            },
            _ => None,
        },
    }
}

impl AccountFeeResponse {
    /// Reads the fee rates of an account.
    pub fn read(text: &str) -> (r: Result<AccountFeeResponse, String>)
        ensures
            match r {
                Ok(x) => account_of(text@) == Some((x.maker_commission@, x.taker_commission@)),
                Err(e) => account_of(text@) is None && e@ == unread(text@),
            },
    {
        let v = match open_answer(text) {
            Ok(v) => v,
            Err(e) => return Err(e),
        };
        if !fits(&v, 2) {
            return Err("字段不符".to_owned());
        }
        match (
            field(&v, 0, "makerCommission").text(false),
            field(&v, 1, "takerCommission").text(false),
        ) {
            (Some(maker_commission), Some(taker_commission)) => Ok(
                AccountFeeResponse { maker_commission, taker_commission },
            ),
            _ => Err("字段不符".to_owned()),
        }
    }
}

/// The answer about an order that a text holds.
pub open spec fn answer_of(text: Seq<char>) -> Option<AnswerModel> {
    match crate::json::json_text(text) {
        Err(_) => None,
        Ok(j) => match (
            j.field(0, "orderId"@).integer(false),
            j.field(1, "clientOrderId"@).text(false),
            j.field(2, "status"@).text(false),
            j.field(3, "avgPrice"@).text(false),
            j.field(4, "executedQty"@).text(false),
            j.field(5, "price"@).text(false),
        ) {
            (
                Some(order_id),
                Some(client_order_id),
                Some(status),
                Some(avg_price),
                Some(executed_qty),
                Some(price),
            ) => if j.fits(6) {
                Some(
                    AnswerModel {
                        order_id,
                        client_order_id,
                        status,
                        avg_price,
                        executed_qty,
                        price,
                    },
                )
            } else {
                None
            },
            _ => None,
        },
    }
}

impl OrderResponse {
    /// Reads an answer about an order.
    pub fn read(text: &str) -> (r: Result<OrderResponse, String>)
        ensures
            match r {
                Ok(x) => answer_of(text@) == Some(x@),
                Err(e) => answer_of(text@) is None && e@ == unread(text@),
            },
    {
        let v = match open_answer(text) {
            Ok(v) => v,
            Err(e) => return Err(e),
        };
        if !fits(&v, 6) {
            return Err("字段不符".to_owned());
        }
        match (
            field(&v, 0, "orderId").integer(false),
            field(&v, 1, "clientOrderId").text(false),
            field(&v, 2, "status").text(false),
            field(&v, 3, "avgPrice").text(false),
            field(&v, 4, "executedQty").text(false),
            field(&v, 5, "price").text(false),
        ) {
            (
                Some(order_id),
                Some(client_order_id),
                Some(status),
                Some(avg_price),
                Some(executed_qty),
                Some(price),
            ) => Ok(
                OrderResponse {
                    order_id,
                    client_order_id,
                    status,
                    avg_price,
                    executed_qty,
                    price,
                },
            ),
            _ => Err("字段不符".to_owned()),
        }
    }
}

/// An answer about an order is read by the exchange's names: what stands under each is what it is.
pub proof fn law_answers_are_read_by_name(
    text: Seq<char>,
    m: Map<Seq<char>, JsonModel>,
    a: AnswerModel,
)
    requires
        crate::json::json_text(text) == Ok::<JsonModel, Seq<char>>(JsonModel::Object(m)),
        crate::json::has_integer(m, "orderId"@, a.order_id),
        crate::json::has_text(m, "clientOrderId"@, a.client_order_id),
        crate::json::has_text(m, "status"@, a.status),
        crate::json::has_text(m, "avgPrice"@, a.avg_price),
        crate::json::has_text(m, "executedQty"@, a.executed_qty),
        crate::json::has_text(m, "price"@, a.price),
    ensures
        answer_of(text) == Some(a),
{
}

/// The fee rates of an account are read by the exchange's names, the maker's before the taker's.
pub proof fn law_fee_rates_are_read_by_name(
    text: Seq<char>,
    m: Map<Seq<char>, JsonModel>,
    maker: Seq<char>,
    taker: Seq<char>,
)
    requires
        crate::json::json_text(text) == Ok::<JsonModel, Seq<char>>(JsonModel::Object(m)),
        crate::json::has_text(m, "makerCommission"@, maker),
        crate::json::has_text(m, "takerCommission"@, taker),
    ensures
        account_of(text) == Some((maker, taker)),
{
}

/// A filter is read by the exchange's names.
pub proof fn law_filters_are_read_by_name(
    m: Map<Seq<char>, JsonModel>,
    kind: Seq<char>,
    tick: Seq<char>,
    step: Seq<char>,
    least: Seq<char>,
    value: Seq<char>,
)
    requires
        crate::json::has_text(m, "filterType"@, kind),
        crate::json::has_text(m, "tickSize"@, tick),
        crate::json::has_text(m, "stepSize"@, step),
        crate::json::has_text(m, "minQty"@, least),
        crate::json::has_text(m, "notional"@, value),
    ensures
        filter_of(JsonModel::Object(m)) == Some(
            (FilterModel {
                filter_type: kind,
                tick_size: Some(tick),
                step_size: Some(step),
                min_qty: Some(least),
                notional: Some(value),
            }),
        ),
{
}

/// A contract that is read has its names and rates from under the exchange's names for them.
pub proof fn law_contracts_are_read_by_name(m: Map<Seq<char>, JsonModel>, x: RawModel)
    requires
        symbol_of(JsonModel::Object(m)) == Some(x),
    ensures
        crate::json::has_text(m, "symbol"@, x.symbol),
        m.dom().contains("status"@) ==> crate::json::has_text(m, "status"@, x.status),
        m.dom().contains("contractType"@) ==> crate::json::has_text(
            m,
            "contractType"@,
            x.contract_type,
        ),
        m.dom().contains("baseAsset"@) ==> crate::json::has_text(m, "baseAsset"@, x.base_asset),
        m.dom().contains("quoteAsset"@) ==> crate::json::has_text(m, "quoteAsset"@, x.quote_asset),
        m.dom().contains("marginAsset"@) ==> crate::json::has_text(
            m,
            "marginAsset"@,
            x.margin_asset,
        ),
        m.dom().contains("maintMarginPercent"@) ==> crate::json::has_text(
            m,
            "maintMarginPercent"@,
            x.maint_margin_percent,
        ),
        m.dom().contains("requiredMarginPercent"@) ==> crate::json::has_text(
            m,
            "requiredMarginPercent"@,
            x.required_margin_percent,
        ),
        m.dom().contains("liquidationFee"@) ==> crate::json::has_text(
            m,
            "liquidationFee"@,
            x.liquidation_fee,
        ),
{
}

} // verus!
