use vstd::prelude::*;

use crate::error::ErrorKind;

verus! {

/// Gas spent by one step of a call: `cost` is what the caller is charged,
/// `externally_used` the part of it that the host metered itself.
#[derive(Clone, Copy, Debug, PartialEq, Eq, Structural)]
pub struct GasInfo {
    pub cost: u64,
    pub externally_used: u64,
}

impl GasInfo {
    pub fn new(cost: u64, externally_used: u64) -> (r: GasInfo)
        ensures
            r.cost == cost,
            r.externally_used == externally_used,
    {
        GasInfo { cost, externally_used }
    }

    /// Gas charged as cost, none of it metered externally.
    pub fn with_cost(cost: u64) -> (r: GasInfo)
        ensures
            r.cost == cost,
            r.externally_used == 0,
    {
        GasInfo { cost, externally_used: 0 }
    }

    /// Gas metered by the host, with no cost of its own.
    pub fn with_externally_used(amount: u64) -> (r: GasInfo)
        ensures
            r.cost == 0,
            r.externally_used == amount,
    {
        GasInfo { cost: 0, externally_used: amount }
    }

    /// No gas at all.
    pub fn free() -> (r: GasInfo)
        ensures
            r.cost == 0,
            r.externally_used == 0,
    {
        GasInfo { cost: 0, externally_used: 0 }
    }
}

/// `a + b`, or the largest `u64` where the sum does not fit.
pub open spec fn saturated_sum(a: int, b: int) -> int {
    if a + b <= u64::MAX {
        a + b
    } else {
        u64::MAX as int
    }
}

/// The gas budget handed to a callee: what the caller has left minus the cost of
/// resolving the callee. A cost above what is left is out of gas.
pub fn callee_gas_limit(gas_left: u64, resolution_cost: u64) -> (r: Result<u64, ErrorKind>)
    ensures
        resolution_cost <= gas_left ==> r == Ok::<u64, ErrorKind>((gas_left - resolution_cost) as u64),
        resolution_cost > gas_left ==> r == Err::<u64, ErrorKind>(ErrorKind::OutOfGas),
{
    match gas_left.checked_sub(resolution_cost) {
        Some(limit) => Ok(limit),
        None => Err(ErrorKind::OutOfGas),
    }
}

/// Adds what a callee metered internally to the cost reported to the caller.
/// The cost never decreases: where the sum does not fit it stays at the largest value.
pub fn fold_internal_usage(gas: GasInfo, used_internally: u64) -> (r: GasInfo)
    ensures
        r.cost == saturated_sum(gas.cost as int, used_internally as int),
        r.externally_used == gas.externally_used,
        r.cost >= gas.cost,
        r.cost >= used_internally,
{
    GasInfo { cost: gas.cost.saturating_add(used_internally), externally_used: gas.externally_used }
}

} // verus!
