# arbitrage_bot

A cross-exchange arbitrage engine whose decision logic is written in Verus and
proved against its contracts.

## Layout

- `src/` — the verified library.
  - `decimal`, `text`, `timing`: exact decimals (backed by `rust_decimal`),
    number formatting, timestamps and latency measurement.
  - `types`, `levels`, `orderbook`: exchanges, symbols, price levels, sorted
    order books, VWAP, slippage and liquidity metrics.
  - `precision`, `validation`, `optimized`: exchange lot/tick rules, order-book
    freshness/depth/spread/liquidity checks, fixed-capacity snapshots and a
    bounded buffer pool.
  - `fees`, `opportunity`, `detector`, `enhanced_detector`, `deduplication`:
    fee schedules, opportunity construction, the plain and validated scanners,
    duplicate suppression and a token-bucket rate limiter.
  - `limits`, `pnl`, `manager`, `inventory`, `reconciliation`, `executor`:
    risk limits, P&L tracking, the risk manager with its circuit breaker,
    inventory and hedging, order/position reconciliation and pre-trade checks.
  - `websocket`, `binance`, `dashboard`: reconnection policy, Binance request
    signing and message parsing, and dashboard rows.
- `tests/` — tests run against the compiled library.
- `app/` — the program around the library: HTTP and WebSocket I/O, async
  loops, metrics, serialisation and the dashboard state.
