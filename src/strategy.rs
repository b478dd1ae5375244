//! The strategy's own settings and its polling schedule.
use vstd::prelude::*;

use crate::types::StrategyTypes;

verus! {

pub struct StrategyParams {
    pub strategy_name: String,
    pub strategy_type: StrategyTypes,
}

/// `debug`: place no orders. `risk_management_mode`: watch margins and never
/// grow the position.
#[derive(Debug, Clone, Copy)]
pub struct RunMode {
    pub debug: bool,
    pub risk_management_mode: bool,
}

/// A poll is due once more than the interval has passed since the last one.
pub open spec fn poll_due_spec(now_ms: int, last_poll_ms: int, interval_seconds: int) -> bool {
    now_ms - last_poll_ms > interval_seconds * 1000
}

/// Whether the strategy should poll now, times in milliseconds.
pub fn poll_due(now_ms: i64, last_poll_ms: i64, poll_interval_seconds: u32) -> (r: bool)
    ensures
        r == poll_due_spec(now_ms as int, last_poll_ms as int, poll_interval_seconds as int),
{
    (now_ms as i128) - (last_poll_ms as i128) > (poll_interval_seconds as i128) * 1000
}

} // verus!
