//! The gas meter: cumulative consumption against a fixed budget.

use vstd::prelude::*;
use crate::errors::VmError;

verus! {

/// Base cost charged when a deploy registers a contract.
pub const DEPLOY_COST: u64 = 21000;

/// Base cost charged by every dispatched call.
pub const CALL_BASE_COST: u64 = 3000;

/// Extra cost of a storage write, charged by the `set_storage` built-in and
/// by the sandbox's `storage_set` host capability alike.
pub const STORAGE_WRITE_COST: u64 = 5000;

/// Extra cost of a successful balance transfer.
pub const TRANSFER_COST: u64 = 10000;

/// Cost of setting up an execution session before compilation is attempted.
pub const SESSION_SETUP_COST: u64 = 1000;

/// Cost charged once a module instantiates against the host imports.
pub const INSTANTIATION_COST: u64 = 10000;

/// Saturating addition on `u64`, the arithmetic of the running gas sum.
/// Charges are small fixed constants, so saturation is unreachable in
/// practice, but the meter must never panic whatever a session reports.
pub open spec fn sat_add(a: u64, b: u64) -> u64 {
    if a + b <= u64::MAX {
        (a + b) as u64
    } else {
        u64::MAX
    }
}

/// Tracks cumulative gas consumption against the budget fixed at VM
/// construction. `used` is monotonic: a rejected charge still counts, so
/// `used` may exceed `limit` and the overshoot is observable.
#[derive(Clone, Copy)]
pub struct GasMeter {
    pub used: u64,
    pub limit: u64,
}

impl GasMeter {
    /// A fresh meter: nothing consumed, budget `limit`.
    pub fn new(limit: u64) -> (meter: GasMeter)
        ensures
            meter.used == 0,
            meter.limit == limit,
    {
        GasMeter { used: 0, limit }
    }

    /// The meter after charging `amount`, whether or not the charge was
    /// within budget.
    pub open spec fn charged(self, amount: u64) -> GasMeter {
        GasMeter { used: sat_add(self.used, amount), limit: self.limit }
    }

    /// Whether the meter is within its budget.
    pub open spec fn within_budget(self) -> bool {
        self.used <= self.limit
    }

    /// Charges `amount` and reports `OutOfGas` if the total now exceeds the
    /// budget. The consumption is recorded either way: real resource use is
    /// never rolled back, even for a call that is ultimately rejected.
    pub fn consume(&mut self, amount: u64) -> (result: Result<(), VmError>)
        ensures
            *final(self) == old(self).charged(amount),
            match result {
                Ok(()) => final(self).within_budget(),
                Err(e) => !final(self).within_budget() && e == (VmError::OutOfGas {
                    used: final(self).used,
                    limit: final(self).limit,
                }),
            },
    {
        self.used = if self.used <= u64::MAX - amount {
            self.used + amount
        } else {
            u64::MAX
        };
        if self.used > self.limit {
            Err(VmError::OutOfGas { used: self.used, limit: self.limit })
        } else {
            Ok(())
        }
    }

    /// Pure accessor for the cumulative consumption.
    pub fn used(&self) -> (used: u64)
        ensures
            used == self.used,
    {
        self.used
    }
}

} // verus!
