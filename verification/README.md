# maker_desk

A desk for making markets in perpetual futures on Binance (USDⓈ-M): rules for prices and
quantities, the life of an order, ladders of profit targets with a stop that always covers what is
left, risk and margin checks, fill models and backtests, a paper engine, and the exchange's REST and
streaming interfaces.

The library under `src/` is written in Verus. Every function states what it returns or changes, and
Verus proves it. What others may change at any time, the clock and the end of a wait that clients
share, is read as it comes: a function states what it makes of any reading, and what it has done to
what is shared. What a library of the outside world computes (decimal arithmetic, JSON, URLs,
HMAC, dates) is called behind small wrappers whose contracts say what is taken for granted.

| modules | what they hold |
| --- | --- |
| `decimal`, `quantize`, `money`, `text`, `clock`, `keyed` | amounts, rounding, texts, times, ordered maps |
| `error`, `order`, `instrument`, `precision`, `market`, `mode` | the words of the domain |
| `state` | orders and positions, and what each event does to them |
| `protection`, `position_set` | stops, profit targets, and keeping both in step with the position |
| `risk`, `margin`, `strategy` | entry checks, liquidation prices, sizes |
| `liquidity`, `fill`, `metrics`, `backtest` | trades, fill models, honest figures, backtests |
| `paper` | the paper engine |
| `json`, `wire`, `binance`, `quotes` | what the exchange's texts mean |
| `signing`, `shared_end`, `cooldown`, `client` | which requests may be sent, and what an answer means |
| `stream`, `hub` | pushed quotes, links and who shares them |

Functions named `law_…` are proofs of what holds across functions: that a stop is never loosened,
that a repeated fill changes nothing, that nothing is sent while requests are limited.

Amounts are those of `rust_decimal`. A result out of its range stops at the largest amount, and so
does a quotient by zero.

`app/` holds what touches the world: HTTP, web sockets, the environment, the clock, and the form in
which values are stored and shown. `tests/` runs the library.
