//! The failure taxonomy of the virtual machine.

use vstd::prelude::*;

verus! {

/// A typed failure of a deploy, call, or deposit. These propagate immediately;
/// no operation retries. Compile, instantiation, and invocation failures inside
/// the execution bridge are deliberately *not* errors: they are downgraded to
/// diagnostic results (see the bridge outcome type).
#[derive(Debug, Clone, PartialEq, Eq, Structural)]
pub enum VmError {
    /// A contract is already registered at the target address.
    DuplicateAddress,
    /// The deployed bytecode does not begin with the required 4-byte marker.
    InvalidFormat,
    /// No contract is registered at the target address.
    ContractNotFound,
    /// The cumulative gas consumption exceeded the budget. `used` keeps the
    /// overshoot: it is never rolled back.
    OutOfGas { used: u64, limit: u64 },
    /// A built-in method was called with fewer arguments than it needs.
    MissingArgument,
    /// A transfer asked for more than the contract's balance.
    InsufficientBalance,
}

} // verus!
