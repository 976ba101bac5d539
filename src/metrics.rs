use vstd::prelude::*;

verus! {

/// Counters of rejected or malformed input, by category.
#[derive(Debug, Clone, Copy, PartialEq, Eq, Structural)]
pub struct Metrics {
    pub malformed_rows: u64,
    pub unknown_type: u64,
    pub missing_amount: u64,
    pub duplicate_tx: u64,
    pub tx_not_found: u64,
    pub wrong_client_ref: u64,
    pub ledger_errors: u64,
    pub locked_ignored: u64,
}

pub open spec fn zero_metrics() -> Metrics {
    Metrics {
        malformed_rows: 0,
        unknown_type: 0,
        missing_amount: 0,
        duplicate_tx: 0,
        tx_not_found: 0,
        wrong_client_ref: 0,
        ledger_errors: 0,
        locked_ignored: 0,
    }
}

/// A counter one higher, stopping at the largest value.
pub open spec fn bump(x: u64) -> u64 {
    if x < u64::MAX {
        (x + 1) as u64
    } else {
        x
    }
}

/// Increments a counter, saturating at the largest value.
pub fn incr(x: u64) -> (r: u64)
    ensures
        r == bump(x),
{
    if x < u64::MAX {
        x + 1
    } else {
        x
    }
}

impl Default for Metrics {
    fn default() -> (r: Metrics)
        ensures
            r == zero_metrics(),
    {
        Metrics {
            malformed_rows: 0,
            unknown_type: 0,
            missing_amount: 0,
            duplicate_tx: 0,
            tx_not_found: 0,
            wrong_client_ref: 0,
            ledger_errors: 0,
            locked_ignored: 0,
        }
    }
}

} // verus!
