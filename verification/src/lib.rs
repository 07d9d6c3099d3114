//! A market-making desk for linear perpetual contracts: order lifecycle,
//! protection planning, risk rules, fill simulation and exchange wire formats.

pub mod decimal;
pub mod quantize;
pub mod text;
pub mod clock;
pub mod money;
pub mod error;
pub mod order;
pub mod instrument;
pub mod precision;
pub mod market;
pub mod mode;
pub mod keyed;
pub mod state;
pub mod protection;
pub mod strategy;
pub mod risk;
pub mod margin;
pub mod position_set;
pub mod liquidity;
pub mod fill;
pub mod settlement;
pub mod metrics;
pub mod backtest;
pub mod paper;
pub mod shared_end;
pub mod cooldown;
pub mod json;
pub mod signing;
pub mod binance;
pub mod wire;
pub mod quotes;
pub mod client;
pub mod stream;
pub mod hub;
