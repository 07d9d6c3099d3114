//! What can go wrong: within the desk, and at the exchange.
//!
//! An [`ExchangeError`] is sorted by whether it is safe to try again, so that this question is
//! answered by a type and never by reading a message.

use vstd::prelude::*;
use crate::decimal::Decimal;
use crate::text::{joined, joined3, joined4, joined5, quoted, u64_text};

verus! {

/// A refusal by the desk's own rules.
#[derive(Debug, PartialEq, Eq)]
pub enum DomainError {
    NonPositivePrice(Decimal),
    NonPositiveQuantity(Decimal),
    QuantityBelowStep { raw: Decimal, step: Decimal },
    QuantizedToZero { raw: Decimal, tick: Decimal },
    InvalidTickSize(Decimal),
    InvalidStepSize(Decimal),
    BelowMinQty { qty: Decimal, min: Decimal },
    BelowMinNotional { notional: Decimal, min: Decimal },
    /// The stop is further away than the risk limit allows.
    StopTooWide(String),
    /// An order refers to a position or a protection order that is not known.
    UnknownReference(String),
    /// A state cannot follow another.
    IllegalTransition(String),
}

/// A [`DomainError`] with its texts as sequences of characters.
pub enum Fault {
    NonPositivePrice(Decimal),
    NonPositiveQuantity(Decimal),
    QuantityBelowStep { raw: Decimal, step: Decimal },
    QuantizedToZero { raw: Decimal, tick: Decimal },
    InvalidTickSize(Decimal),
    InvalidStepSize(Decimal),
    BelowMinQty { qty: Decimal, min: Decimal },
    BelowMinNotional { notional: Decimal, min: Decimal },
    StopTooWide(Seq<char>),
    UnknownReference(Seq<char>),
    IllegalTransition(Seq<char>),
}

impl View for DomainError {
    type V = Fault;

    open spec fn view(&self) -> Fault {
        match *self {
            DomainError::NonPositivePrice(d) => Fault::NonPositivePrice(d),
            DomainError::NonPositiveQuantity(d) => Fault::NonPositiveQuantity(d),
            DomainError::QuantityBelowStep { raw, step } => Fault::QuantityBelowStep { raw, step },
            DomainError::QuantizedToZero { raw, tick } => Fault::QuantizedToZero { raw, tick },
            DomainError::InvalidTickSize(d) => Fault::InvalidTickSize(d),
            DomainError::InvalidStepSize(d) => Fault::InvalidStepSize(d),
            DomainError::BelowMinQty { qty, min } => Fault::BelowMinQty { qty, min },
            DomainError::BelowMinNotional { notional, min } => Fault::BelowMinNotional {
                notional,
                min,
            },
            DomainError::StopTooWide(s) => Fault::StopTooWide(s@),
            DomainError::UnknownReference(s) => Fault::UnknownReference(s@),
            DomainError::IllegalTransition(s) => Fault::IllegalTransition(s@),
        }
    }
}

impl Fault {
    /// The message of an error.
    pub open spec fn said(self) -> Seq<char> {
        match self {
            Fault::NonPositivePrice(d) => "价格必须为正数，收到 "@ + d.written(),
            Fault::NonPositiveQuantity(d) => "数量必须为正数，收到 "@ + d.written(),
            Fault::QuantityBelowStep { raw, step } => "数量 "@ + raw.written() + " 按 step "@
                + step.written() + " 向下取整后为零"@,
            Fault::QuantizedToZero { raw, tick } => "价格 "@ + raw.written() + " 按 tick "@
                + tick.written() + " 取整后为零"@,
            Fault::InvalidTickSize(d) => "tick_size 必须为正数，收到 "@ + d.written(),
            Fault::InvalidStepSize(d) => "step_size 必须为正数，收到 "@ + d.written(),
            Fault::BelowMinQty { qty, min } => "数量 "@ + qty.written() + " 低于最小数量 "@
                + min.written(),
            Fault::BelowMinNotional { notional, min } => "名义价值 "@ + notional.written()
                + " 低于最小值 "@ + min.written(),
            Fault::StopTooWide(s) => "止损距离超过风控上限："@ + s,
            Fault::UnknownReference(s) => "订单引用了未知的持仓或保护单："@ + s,
            Fault::IllegalTransition(s) => "非法状态迁移："@ + s,
        }
    }
}

impl DomainError {
    /// The message for an operator.
    pub fn message(&self) -> (r: String)
        ensures
            r@ == self@.said(),
    {
        match self {
            DomainError::NonPositivePrice(d) => joined(
                "价格必须为正数，收到 ",
                d.text().as_str(),
            ),
            DomainError::NonPositiveQuantity(d) => joined(
                "数量必须为正数，收到 ",
                d.text().as_str(),
            ),
            DomainError::QuantityBelowStep { raw, step } => joined5(
                "数量 ",
                raw.text().as_str(),
                " 按 step ",
                step.text().as_str(),
                " 向下取整后为零",
            ),
            DomainError::QuantizedToZero { raw, tick } => joined5(
                "价格 ",
                raw.text().as_str(),
                " 按 tick ",
                tick.text().as_str(),
                " 取整后为零",
            ),
            DomainError::InvalidTickSize(d) => joined(
                "tick_size 必须为正数，收到 ",
                d.text().as_str(),
            ),
            DomainError::InvalidStepSize(d) => joined(
                "step_size 必须为正数，收到 ",
                d.text().as_str(),
            ),
            DomainError::BelowMinQty { qty, min } => joined4(
                "数量 ",
                qty.text().as_str(),
                " 低于最小数量 ",
                min.text().as_str(),
            ),
            DomainError::BelowMinNotional { notional, min } => joined4(
                "名义价值 ",
                notional.text().as_str(),
                " 低于最小值 ",
                min.text().as_str(),
            ),
            DomainError::StopTooWide(s) => joined("止损距离超过风控上限：", s.as_str()),
            DomainError::UnknownReference(s) => joined(
                "订单引用了未知的持仓或保护单：",
                s.as_str(),
            ),
            DomainError::IllegalTransition(s) => joined("非法状态迁移：", s.as_str()),
        }
    }
}

/// Why the exchange refused an order.
#[derive(Debug, PartialEq, Eq)]
pub enum RejectReason {
    /// A post-only order would have traded at once (code 5022). The exchange keeps no record of
    /// such an order and sends no event for it.
    PostOnlyWouldCross,
    InsufficientMargin,
    PriceOutOfRange,
    InvalidQuantity,
    InstrumentNotTrading,
    Other(String),
}

impl Clone for RejectReason {
    fn clone(&self) -> (r: Self)
        ensures
            r == *self,
    {
        match self {
            RejectReason::PostOnlyWouldCross => RejectReason::PostOnlyWouldCross,
            RejectReason::InsufficientMargin => RejectReason::InsufficientMargin,
            RejectReason::PriceOutOfRange => RejectReason::PriceOutOfRange,
            RejectReason::InvalidQuantity => RejectReason::InvalidQuantity,
            RejectReason::InstrumentNotTrading => RejectReason::InstrumentNotTrading,
            RejectReason::Other(s) => RejectReason::Other(s.clone()),
        }
    }
}

impl RejectReason {
    /// The name of a reason, with the text of an unnamed one in quotation marks.
    pub open spec fn shown(self) -> Seq<char> {
        match self {
            RejectReason::PostOnlyWouldCross => "PostOnlyWouldCross"@,
            RejectReason::InsufficientMargin => "InsufficientMargin"@,
            RejectReason::PriceOutOfRange => "PriceOutOfRange"@,
            RejectReason::InvalidQuantity => "InvalidQuantity"@,
            RejectReason::InstrumentNotTrading => "InstrumentNotTrading"@,
            RejectReason::Other(s) => "Other("@ + crate::text::quoted_text(s@) + ")"@,
        }
    }

    /// The name of the reason.
    pub fn name(&self) -> (r: String)
        ensures
            r@ == self.shown(),
    {
        match self {
            RejectReason::PostOnlyWouldCross => "PostOnlyWouldCross".to_owned(),
            RejectReason::InsufficientMargin => "InsufficientMargin".to_owned(),
            RejectReason::PriceOutOfRange => "PriceOutOfRange".to_owned(),
            RejectReason::InvalidQuantity => "InvalidQuantity".to_owned(),
            RejectReason::InstrumentNotTrading => "InstrumentNotTrading".to_owned(),
            RejectReason::Other(s) => joined3("Other(", quoted(s.as_str()).as_str(), ")"),
        }
    }

    /// The message of a reason.
    pub open spec fn said(self) -> Seq<char> {
        match self {
            RejectReason::PostOnlyWouldCross =>
                "post-only 会立即成交，已被交易所拒绝（5022）"@,
            RejectReason::InsufficientMargin => "保证金不足"@,
            RejectReason::PriceOutOfRange => "价格超出交易所允许区间"@,
            RejectReason::InvalidQuantity => "数量不满足交易所过滤器"@,
            RejectReason::InstrumentNotTrading => "合约已停止交易"@,
            RejectReason::Other(s) => "交易所拒单："@ + s@,
        }
    }

    /// The message for an operator.
    pub fn message(&self) -> (r: String)
        ensures
            r@ == self.said(),
    {
        match self {
            RejectReason::PostOnlyWouldCross =>
                "post-only 会立即成交，已被交易所拒绝（5022）".to_owned(),
            RejectReason::InsufficientMargin => "保证金不足".to_owned(),
            RejectReason::PriceOutOfRange => "价格超出交易所允许区间".to_owned(),
            RejectReason::InvalidQuantity => "数量不满足交易所过滤器".to_owned(),
            RejectReason::InstrumentNotTrading => "合约已停止交易".to_owned(),
            RejectReason::Other(s) => joined("交易所拒单：", s.as_str()),
        }
    }
}

/// A failed call to the exchange, sorted by whether it may be repeated.
#[derive(Debug, PartialEq, Eq)]
pub enum ExchangeError {
    /// The request surely did not reach the exchange.
    Definitive(String),
    /// The exchange refused. Repeating the request only repeats the refusal.
    Rejected(RejectReason),
    /// It is not known whether the request arrived. The order has to be looked up before
    /// anything is sent again.
    Unknown(String),
    /// Too many requests.
    RateLimited { retry_after_ms: u64 },
    /// Trading has to stop.
    Fatal(String),
}

impl Clone for ExchangeError {
    fn clone(&self) -> (r: Self)
        ensures
            r == *self,
    {
        match self {
            ExchangeError::Definitive(s) => ExchangeError::Definitive(s.clone()),
            ExchangeError::Rejected(x) => ExchangeError::Rejected(x.clone()),
            ExchangeError::Unknown(s) => ExchangeError::Unknown(s.clone()),
            ExchangeError::RateLimited { retry_after_ms } => ExchangeError::RateLimited {
                retry_after_ms: *retry_after_ms,
            },
            ExchangeError::Fatal(s) => ExchangeError::Fatal(s.clone()),
        }
    }
}

/// An [`ExchangeError`] with its texts as sequences of characters.
pub enum Failure {
    Definitive(Seq<char>),
    Rejected(RejectReason),
    Unknown(Seq<char>),
    RateLimited { retry_after_ms: u64 },
    Fatal(Seq<char>),
}

impl View for ExchangeError {
    type V = Failure;

    open spec fn view(&self) -> Failure {
        match *self {
            ExchangeError::Definitive(s) => Failure::Definitive(s@),
            ExchangeError::Rejected(x) => Failure::Rejected(x),
            ExchangeError::Unknown(s) => Failure::Unknown(s@),
            ExchangeError::RateLimited { retry_after_ms } => Failure::RateLimited {
                retry_after_ms,
            },
            ExchangeError::Fatal(s) => Failure::Fatal(s@),
        }
    }
}

impl Failure {
    /// The message of an error.
    pub open spec fn said(self) -> Seq<char> {
        match self {
            Failure::Definitive(s) => "请求未送达，可安全重试："@ + s,
            Failure::Rejected(x) => "订单被拒绝："@ + x.said(),
            Failure::Unknown(s) => "订单状态未知，必须先查询对账："@ + s,
            Failure::RateLimited { retry_after_ms } => "交易所限流，建议 "@
                + crate::text::digits(retry_after_ms as nat) + " 毫秒后重试"@,
            Failure::Fatal(s) => "致命错误，应停止交易："@ + s,
        }
    }
}

impl ExchangeError {
    /// The message for an operator.
    pub fn message(&self) -> (r: String)
        ensures
            r@ == self@.said(),
    {
        match self {
            ExchangeError::Definitive(s) => joined("请求未送达，可安全重试：", s.as_str()),
            ExchangeError::Rejected(x) => joined("订单被拒绝：", x.message().as_str()),
            ExchangeError::Unknown(s) => joined(
                "订单状态未知，必须先查询对账：",
                s.as_str(),
            ),
            ExchangeError::RateLimited { retry_after_ms } => joined3(
                "交易所限流，建议 ",
                u64_text(*retry_after_ms).as_str(),
                " 毫秒后重试",
            ),
            ExchangeError::Fatal(s) => joined("致命错误，应停止交易：", s.as_str()),
        }
    }

    /// Whether the request may be sent again without looking the order up first.
    pub fn retryable_without_reconcile(&self) -> (r: bool)
        ensures
            r == (self is Definitive),
    {
        matches!(self, ExchangeError::Definitive(_))
    }

    /// Whether trading has to stop.
    pub fn is_fatal(&self) -> (r: bool)
        ensures
            r == (self is Fatal),
    {
        matches!(self, ExchangeError::Fatal(_))
    }
}

} // verus!
