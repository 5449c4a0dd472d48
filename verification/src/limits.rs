//! Risk limits for trading.
use vstd::prelude::*;
use crate::decimal::Dec;

verus! {

/// Risk limits for trading
#[derive(Clone, Copy, Debug)]
pub struct RiskLimits {
    /// Maximum position size per symbol (in quote currency)
    pub max_position_size: Dec,
    /// Maximum total exposure across all positions
    pub max_total_exposure: Dec,
    /// Maximum loss per trade
    pub max_loss_per_trade: Dec,
    /// Maximum daily loss
    pub max_daily_loss: Dec,
    /// Maximum drawdown percentage
    pub max_drawdown_pct: Dec,
    /// Maximum number of open positions
    pub max_open_positions: usize,
    /// Maximum leverage allowed
    pub max_leverage: Dec,
    /// Minimum profit threshold (in basis points)
    pub min_profit_bps: Dec,
}

/// The limits with these whole-number values.
pub open spec fn limits_of(
    position: int,
    exposure: int,
    loss_per_trade: int,
    daily_loss: int,
    drawdown: int,
    open_positions: usize,
    leverage: int,
    profit_bps: int,
) -> RiskLimits {
    RiskLimits {
        max_position_size: Dec::literal(position, 0),
        max_total_exposure: Dec::literal(exposure, 0),
        max_loss_per_trade: Dec::literal(loss_per_trade, 0),
        max_daily_loss: Dec::literal(daily_loss, 0),
        max_drawdown_pct: Dec::literal(drawdown, 0),
        max_open_positions: open_positions,
        max_leverage: Dec::literal(leverage, 0),
        min_profit_bps: Dec::literal(profit_bps, 0),
    }
}

impl Default for RiskLimits {
    /// $10k per position, $500k exposure, $1k per trade, $5k a day, 10%
    /// drawdown, 10 positions, 5x leverage, 5 bps profit.
    fn default() -> (r: RiskLimits)
        ensures
            r == limits_of(10000, 500000, 1000, 5000, 10, 10, 5, 5),
    {
        RiskLimits {
            max_position_size: Dec::from_u64(10000),
            max_total_exposure: Dec::from_u64(500000),
            max_loss_per_trade: Dec::from_u64(1000),
            max_daily_loss: Dec::from_u64(5000),
            max_drawdown_pct: Dec::from_u64(10),
            max_open_positions: 10,
            max_leverage: Dec::from_u64(5),
            min_profit_bps: Dec::from_u64(5),
        }
    }
}

impl RiskLimits {
    pub fn new() -> (r: RiskLimits)
        ensures
            r == limits_of(10000, 500000, 1000, 5000, 10, 10, 5, 5),
    {
        Self::default()
    }

    pub fn conservative() -> (r: RiskLimits)
        ensures
            r == limits_of(10000, 50000, 100, 500, 5, 3, 2, 10),
    {
        RiskLimits {
            max_position_size: Dec::from_u64(10000),
            max_total_exposure: Dec::from_u64(50000),
            max_loss_per_trade: Dec::from_u64(100),
            max_daily_loss: Dec::from_u64(500),
            max_drawdown_pct: Dec::from_u64(5),
            max_open_positions: 3,
            max_leverage: Dec::from_u64(2),
            min_profit_bps: Dec::from_u64(10),
        }
    }

    pub fn aggressive() -> (r: RiskLimits)
        ensures
            r == limits_of(500000, 2000000, 5000, 20000, 20, 50, 10, 2),
    {
        RiskLimits {
            max_position_size: Dec::from_u64(500000),
            max_total_exposure: Dec::from_u64(2000000),
            max_loss_per_trade: Dec::from_u64(5000),
            max_daily_loss: Dec::from_u64(20000),
            max_drawdown_pct: Dec::from_u64(20),
            max_open_positions: 50,
            max_leverage: Dec::from_u64(10),
            min_profit_bps: Dec::from_u64(2),
        }
    }
}

} // verus!
