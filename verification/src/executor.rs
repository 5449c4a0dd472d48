//! The decisions of executing an arbitrage: the balance the buy leg needs,
//! and the outcome of the two legs.
use vstd::prelude::*;
use vstd::string::StringExecFns;
use crate::decimal::{Dec, dec_mul, dec_lt, decimal_product, product_ok};
use crate::opportunity::{ExecutionPlan, TradeLeg};
use crate::types::{Exchange, Symbol, exchange_text};

verus! {

#[derive(Debug)]
pub enum ExecutionError {
    ExchangeError(String),
    InsufficientBalance { needed: Dec, available: Dec },
    OrderFailed(String),
    PartialFill { expected: Dec, filled: Dec },
}

#[derive(Debug)]
pub struct ExecutionResult {
    pub buy_order_id: String,
    pub sell_order_id: String,
    pub expected_profit: Dec,
    pub actual_profit: Dec,
}

impl Clone for ExecutionResult {
    fn clone(&self) -> (r: ExecutionResult)
        ensures
            r == *self,
    {
        ExecutionResult {
            buy_order_id: self.buy_order_id.clone(),
            sell_order_id: self.sell_order_id.clone(),
            ..*self
        }
    }
}

/// The error for an exchange without an API: "No API for exchange <name>".
pub fn missing_api(exchange: Exchange) -> (r: ExecutionError)
    ensures
        r matches ExecutionError::ExchangeError(m) && m@ == "No API for exchange "@ + exchange_text(
            exchange,
        ),
{
    let mut m = String::from_str("No API for exchange ");
    let name = exchange.to_string();
    m.append(name.as_str());
    ExecutionError::ExchangeError(m)
}

/// What buying the leg costs: its price times its quantity.
pub open spec fn leg_cost(leg: TradeLeg) -> Dec {
    decimal_product(leg.price, leg.quantity)
}

/// The balance the buy leg needs.
pub fn required_balance(plan: &ExecutionPlan) -> (r: Dec)
    requires
        product_ok(plan.buy_leg.price, plan.buy_leg.quantity),
    ensures
        r == leg_cost(plan.buy_leg),
{
    dec_mul(plan.buy_leg.price, plan.buy_leg.quantity)
}

/// The plan can go ahead with `balance` on the buy venue when it covers the
/// buy leg's cost.
pub fn check_balance(plan: &ExecutionPlan, balance: Dec) -> (r: Result<(), ExecutionError>)
    requires
        product_ok(plan.buy_leg.price, plan.buy_leg.quantity),
    ensures
        balance.val() < leg_cost(plan.buy_leg).val() ==> (r matches Err(
            ExecutionError::InsufficientBalance { needed, available },
        ) && needed == leg_cost(plan.buy_leg) && available == balance),
        balance.val() >= leg_cost(plan.buy_leg).val() ==> r is Ok,
{
    let needed = required_balance(plan);
    if dec_lt(balance, needed) {
        return Err(ExecutionError::InsufficientBalance { needed, available: balance });
    }
    Ok(())
}

/// An order to cancel: the leg that was placed while the other failed.
#[derive(Debug)]
pub struct CancelOrder {
    pub exchange: Exchange,
    pub symbol: Symbol,
    pub order_id: String,
}

/// What executing the two legs comes to: the result, and the order to
/// cancel when exactly one leg failed.
#[derive(Debug)]
pub struct ExecutionOutcome {
    pub result: Result<ExecutionResult, ExecutionError>,
    pub cancel: Option<CancelOrder>,
}

/// The cancel of the placed order `id` of `leg`.
pub open spec fn cancel_of(leg: TradeLeg, id: String) -> CancelOrder {
    CancelOrder { exchange: leg.exchange, symbol: leg.symbol, order_id: id }
}

/// The outcome of the two legs: the buy leg's error if it failed, else the
/// sell leg's, else both order ids with the plan's expected profit (the
/// actual profit is not known before the fills: zero). When one leg failed
/// and the other was placed, the placed one is to be cancelled.
pub fn execution_result(
    plan: &ExecutionPlan,
    buy_result: Result<String, ExecutionError>,
    sell_result: Result<String, ExecutionError>,
) -> (r: ExecutionOutcome)
    ensures
        r.result == match (buy_result, sell_result) {
            (Err(e), _) => Err(e),
            (Ok(_), Err(e)) => Err(e),
            (Ok(b), Ok(s)) => Ok(
                ExecutionResult {
                    buy_order_id: b,
                    sell_order_id: s,
                    expected_profit: plan.expected_profit,
                    actual_profit: Dec::literal(0, 0),
                },
            ),
        },
        r.cancel == match (buy_result, sell_result) {
            (Err(_), Ok(s)) => Some(cancel_of(plan.sell_leg, s)),
            (Ok(b), Err(_)) => Some(cancel_of(plan.buy_leg, b)),
            _ => None,
        },
{
    match (buy_result, sell_result) {
        (Ok(b), Ok(s)) => ExecutionOutcome {
            result: Ok(
                ExecutionResult {
                    buy_order_id: b,
                    sell_order_id: s,
                    expected_profit: plan.expected_profit,
                    actual_profit: Dec::zero(),
                },
            ),
            cancel: None,
        },
        (Err(e), Ok(s)) => ExecutionOutcome {
            result: Err(e),
            cancel: Some(
                CancelOrder {
                    exchange: plan.sell_leg.exchange,
                    symbol: plan.sell_leg.symbol.clone(),
                    order_id: s,
                },
            ),
        },
        (Ok(b), Err(e)) => ExecutionOutcome {
            result: Err(e),
            cancel: Some(
                CancelOrder {
                    exchange: plan.buy_leg.exchange,
                    symbol: plan.buy_leg.symbol.clone(),
                    order_id: b,
                },
            ),
        },
        (Err(e), Err(_)) => ExecutionOutcome { result: Err(e), cancel: None },
    }
}

} // verus!
