//! The decision policy: maps an RSI value to a trading action between two
//! threshold bands, and builds the order intent for the caller to submit.
//!
//! RSI values and thresholds are fixed-point, as in the indicator engine: a
//! value `v` stands for `v / SCALE`.

use vstd::prelude::*;
use crate::indicator::IndicatorError;
use crate::indicator::RSI_MAX;
use crate::indicator::SCALE;
use crate::indicator::WINDOW_LIMIT;
use crate::indicator::compute_rsi;
use crate::indicator::prices_ok;
use crate::indicator::rsi_at;

verus! {

/// A trading action derived from one RSI value.
#[derive(Clone, Copy, Debug, PartialEq, Eq)]
pub enum Action {
    Buy,
    Hold,
    Sell,
}

/// The side of an order.
#[derive(Clone, Copy, Debug, PartialEq, Eq)]
pub enum Side {
    Buy,
    Sell,
}

/// Why a decision is refused.
#[derive(Clone, Copy, Debug, PartialEq, Eq)]
pub enum DecisionError {
    /// The RSI value lies outside `[0, 100 * SCALE]`.
    OutOfRange,
}

/// The two decision bands, in fixed point: below `low` buy, above `high`
/// sell, between them (inclusive) hold.
#[derive(Clone, Copy, Debug, PartialEq, Eq)]
pub struct Thresholds {
    pub low: u64,
    pub high: u64,
}

impl Thresholds {
    /// The bands are ordered and lie within the RSI range.
    pub open spec fn wf(&self) -> bool {
        self.low <= self.high <= RSI_MAX
    }

    /// Builds a threshold pair, refusing an unordered or out-of-range one.
    pub fn new(low: u64, high: u64) -> (r: Option<Thresholds>)
        ensures
            r is Some <==> (low <= high <= RSI_MAX),
            (r matches Some(t) ==> t.low == low && t.high == high && t.wf()),
    {
        if low <= high && high <= RSI_MAX {
            Some(Thresholds { low, high })
        } else {
            None
        }
    }
}

impl Default for Thresholds {
    /// The reference bands: buy below an RSI of 20, sell above 60.
    fn default() -> (r: Thresholds)
        ensures
            r.low == 20 * SCALE,
            r.high == 60 * SCALE,
            r.wf(),
    {
        Thresholds { low: 20 * SCALE, high: 60 * SCALE }
    }
}

/// An order for the caller to submit, or the explicit no-action marker.
#[derive(Clone, Debug, PartialEq, Eq)]
pub enum TradeIntent {
    Order { symbol: String, side: Side, quantity: u64, price: u64 },
    NoAction,
}

/// Maps one RSI value to an action: below `low` buy, above `high` sell,
/// within the bands (both ends inclusive) hold. An RSI outside
/// `[0, 100 * SCALE]` is refused as `OutOfRange` instead of being decided.
pub fn decide(rsi: u64, thresholds: &Thresholds) -> (r: Result<Action, DecisionError>)
    requires
        thresholds.wf(),
    ensures
        r is Err <==> rsi > RSI_MAX,
        (r matches Ok(a) && a is Buy) <==> rsi < thresholds.low,
        (r matches Ok(a) && a is Hold) <==> thresholds.low <= rsi <= thresholds.high,
        (r matches Ok(a) && a is Sell) <==> thresholds.high < rsi <= RSI_MAX,
{
    if rsi > RSI_MAX {
        Err(DecisionError::OutOfRange)
    } else if rsi < thresholds.low {
        Ok(Action::Buy)
    } else if rsi <= thresholds.high {
        Ok(Action::Hold)
    } else {
        Ok(Action::Sell)
    }
}

/// Builds the intent that carries an action out: a limit order of the given
/// side, quantity and price for `Buy` and `Sell`, the no-action marker for
/// `Hold`.
pub fn build_intent(action: Action, symbol: &str, quantity: u64, limit_price: u64) -> (r:
    TradeIntent)
    ensures
        action is Hold <==> r is NoAction,
        (action is Buy || action is Sell) ==> (r matches TradeIntent::Order {
            symbol: sym,
            side,
            quantity: q,
            price: p,
        } && sym@ == symbol@ && q == quantity && p == limit_price && (side is Buy <==> action
            is Buy)),
{
    match action {
        Action::Buy => TradeIntent::Order {
            symbol: symbol.to_owned(),
            side: Side::Buy,
            quantity,
            price: limit_price,
        },
        Action::Sell => TradeIntent::Order {
            symbol: symbol.to_owned(),
            side: Side::Sell,
            quantity,
            price: limit_price,
        },
        Action::Hold => TradeIntent::NoAction,
    }
}

/// The RSI of the newest bar of the series: the last emitted value.
pub open spec fn last_rsi(s: Seq<u64>, w: int) -> int {
    rsi_at(s, w, s.len() - 1)
}

/// One full decision cycle over a fetched price series: computes the RSI
/// series, decides on the RSI of the newest bar, and builds the intent with
/// the given symbol, order quantity and limit price. Fails exactly where
/// `compute_rsi` fails; the decision itself cannot fail, because every
/// computed RSI lies within `[0, 100 * SCALE]`.
pub fn plan_order(
    prices: &Vec<u64>,
    window_size: usize,
    thresholds: &Thresholds,
    symbol: &str,
    quantity: u64,
    limit_price: u64,
) -> (r: Result<TradeIntent, IndicatorError>)
    requires
        window_size <= WINDOW_LIMIT,
        thresholds.wf(),
    ensures
        (r matches Err(e) && e is InvalidInput) <==> (window_size == 0 || !prices_ok(
            prices@,
        )),
        (r matches Err(e) && e is InsufficientData) <==> (window_size >= 1 && prices_ok(prices@)
            && prices@.len() < window_size + 1),
        (r matches Ok(intent) ==> ({
            let rsi = last_rsi(prices@, window_size as int);
            &&& (intent is NoAction <==> thresholds.low <= rsi <= thresholds.high)
            &&& (intent matches TradeIntent::Order {
                symbol: sym,
                side,
                quantity: q,
                price: p,
            } ==> sym@ == symbol@ && q == quantity && p == limit_price && (side is Buy <==> rsi
                < thresholds.low) && (side is Sell <==> rsi > thresholds.high))
        })),
{
    let series = match compute_rsi(prices, window_size) {
        Ok(series) => series,
        Err(e) => {
            return Err(e);
        },
    };
    let rsi = series[series.len() - 1];
    assert(rsi as int == last_rsi(prices@, window_size as int));
    let action = match decide(rsi, thresholds) {
        Ok(a) => a,
        Err(_) => vstd::pervasive::unreached(),
    };
    Ok(build_intent(action, symbol, quantity, limit_price))
}

} // verus!
