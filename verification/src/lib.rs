//! Verified core of a multi-venue arbitrage trading system: exact decimal
//! market data, order books, validation, opportunity detection, risk and
//! inventory control, reconciliation, and the decisions of the exchange
//! clients.
pub mod decimal;
pub mod text;
pub mod timing;
pub mod types;
pub mod levels;
pub mod orderbook;
pub mod precision;
pub mod validation;
pub mod deduplication;
pub mod optimized;
pub mod fees;
pub mod opportunity;
pub mod detector;
pub mod enhanced_detector;
pub mod executor;
pub mod limits;
pub mod pnl;
pub mod manager;
pub mod inventory;
pub mod reconciliation;
pub mod websocket;
pub mod binance;
pub mod dashboard;
