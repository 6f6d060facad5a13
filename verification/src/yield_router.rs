use vstd::prelude::*;
use crate::types::{Address, Amount};

verus! {

/// Global yield-router configuration (admin-controlled).
#[derive(Clone, Copy, Debug)]
pub struct YieldRouterConfig {
    /// Lending pool contract that receives deployed funds.
    pub pool_contract: Address,
    /// Token deposited into the pool; must match the escrow token.
    pub yield_token: Address,
    /// Whether routing is globally enabled.
    pub enabled: bool,
    /// Basis points of every escrow's deposits that always stay liquid.
    pub liquidity_reserve_bps: u32,
}

/// Per-escrow yield state.
#[derive(Clone, Copy, Debug)]
pub struct EscrowYieldState {
    /// Principal currently deployed into the lending pool.
    pub deployed_principal: Amount,
    /// Cumulative yield harvested back into the escrow.
    pub total_yield_harvested: Amount,
    /// Whether routing is enabled for this escrow.
    pub routing_enabled: bool,
}

/// The state of an escrow that never touched the router.
pub open spec fn spec_default_yield_state() -> EscrowYieldState {
    EscrowYieldState { deployed_principal: 0, total_yield_harvested: 0, routing_enabled: false }
}

impl EscrowYieldState {
    /// The state of an escrow that never touched the router.
    pub fn new_default() -> (s: EscrowYieldState)
        ensures
            s == spec_default_yield_state(),
    {
        EscrowYieldState { deployed_principal: 0, total_yield_harvested: 0, routing_enabled: false }
    }
}

/// `a - b`, clamped to the range of `i128`.
pub open spec fn spec_sat_sub(a: int, b: int) -> int {
    if a - b > i128::MAX {
        i128::MAX as int
    } else if a - b < i128::MIN {
        i128::MIN as int
    } else {
        a - b
    }
}

/// Saturating subtraction on `i128`.
pub fn sat_sub(a: i128, b: i128) -> (r: i128)
    ensures
        r == spec_sat_sub(a as int, b as int),
{
    match a.checked_sub(b) {
        Some(d) => d,
        None => if b < 0 {
            i128::MAX
        } else {
            i128::MIN
        },
    }
}

} // verus!
