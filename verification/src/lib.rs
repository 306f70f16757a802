//! Gas-metered virtual machine for address-keyed contracts: deployment of
//! opaque executable modules, built-in call dispatch, sandboxed execution with
//! a strict compute budget, plus the surrounding staking ledger and chain
//! scaffold.

pub mod chain;
pub mod contract;
pub mod errors;
pub mod gas;
pub mod laws;
pub mod ledger;
pub mod sandbox;
pub mod stake;
pub mod storage;
pub mod text;
pub mod vm;
