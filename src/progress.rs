//! Progress reporting and cooperative cancellation, shared by both engines.

use vstd::prelude::*;

verus! {

/// A request to stop, checked once per block.
pub struct CancelFlag {
    pub cancelled: bool,
}

impl CancelFlag {
    /// A flag that is not set.
    pub fn new() -> (r: CancelFlag)
        ensures
            !r.cancelled,
    {
        CancelFlag { cancelled: false }
    }

    /// Clears the flag, as each run does when it starts.
    pub fn reset(&mut self)
        ensures
            !final(self).cancelled,
    {
        self.cancelled = false;
    }

    pub fn is_set(&self) -> (r: bool)
        ensures
            r == self.cancelled,
    {
        self.cancelled
    }
}

/// What the driver does after a block has been handled.
#[derive(Debug, Clone, Copy, PartialEq, Eq, Structural)]
pub enum Flow {
    /// Stop now and report that the run was cancelled.
    Cancelled,
    /// Report `progress` if there is one, then read the next block if `more`.
    Next { progress: Option<u32>, more: bool },
}

/// Blocks between two progress reports.
pub const PROGRESS_EVERY: u64 = 10;

/// `floor(current / total * 100)`, or 100 when there is nothing to do,
/// saturated at `u32::MAX`.
pub open spec fn percent(current: nat, total: nat) -> nat {
    let p = if total == 0 {
        100
    } else {
        current * 100 / total
    };
    if p > u32::MAX {
        u32::MAX as nat
    } else {
        p
    }
}

pub fn progress_percent(current: u64, total: u64) -> (r: u32)
    ensures
        r == percent(current as nat, total as nat),
{
    if total == 0 {
        return 100;
    }
    let p: u128 = (current as u128) * 100 / (total as u128);
    if p > u32::MAX as u128 {
        u32::MAX
    } else {
        p as u32
    }
}

/// `a + b`, or `u64::MAX` where that does not fit.
pub open spec fn sat_add(a: nat, b: nat) -> nat {
    if a + b > u64::MAX {
        u64::MAX as nat
    } else {
        a + b
    }
}

pub fn saturating_add(a: u64, b: u64) -> (r: u64)
    ensures
        r == sat_add(a as nat, b as nat),
{
    if a > u64::MAX - b {
        u64::MAX
    } else {
        a + b
    }
}

/// The progress report due after block number `chunks`, if any.
pub open spec fn report(chunks: nat, current: nat, total: nat) -> Option<u32> {
    if chunks % (PROGRESS_EVERY as nat) == 0 {
        Some(percent(current, total) as u32)
    } else {
        None
    }
}

pub fn progress_report(chunks: u64, current: u64, total: u64) -> (r: Option<u32>)
    ensures
        r == report(chunks as nat, current as nat, total as nat),
{
    if chunks % PROGRESS_EVERY == 0 {
        Some(progress_percent(current, total))
    } else {
        None
    }
}

} // verus!
