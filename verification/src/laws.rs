//! The VM's governing laws, proved over the call and deployment model.
//! Each law quantifies over all states and inputs its statement admits;
//! the matching concrete scenarios live in the test suite.

use vstd::prelude::*;
use crate::errors::VmError;
use crate::gas::{sat_add, CALL_BASE_COST, DEPLOY_COST, STORAGE_WRITE_COST};
use crate::text::{dec_str, parse_u64_or_zero};
use crate::vm::{
    has_wasm_marker, lemma_builtin_names_distinct, out_of_gas, spec_call_builtin, spec_deploy,
    storage_set_msg, VmView,
};

verus! {

/// Deploying valid-marker bytecode to a fresh address, within budget,
/// succeeds — and doing it again on the same address fails
/// `DuplicateAddress` and changes nothing, whatever bytecode the repeat
/// carries.
pub proof fn lemma_deploy_once(m: VmView, address: Seq<char>, code: Seq<u8>, code2: Seq<u8>)
    requires
        !m.contracts.contains_key(address),
        has_wasm_marker(code),
        m.gas.charged(DEPLOY_COST).within_budget(),
    ensures
        spec_deploy(m, address, code).1 == Ok::<(), VmError>(()),
        spec_deploy(m, address, code).0.contracts.contains_key(address),
        spec_deploy(spec_deploy(m, address, code).0, address, code2).1 == Err::<(), VmError>(
            VmError::DuplicateAddress,
        ),
        spec_deploy(spec_deploy(m, address, code).0, address, code2).0 == spec_deploy(
            m,
            address,
            code,
        ).0,
{
}

/// Deploying bytecode without the marker to a fresh address always fails
/// `InvalidFormat` and leaves the whole state — registry and meter —
/// unchanged.
pub proof fn lemma_deploy_invalid_format(m: VmView, address: Seq<char>, code: Seq<u8>)
    requires
        !m.contracts.contains_key(address),
        !has_wasm_marker(code),
    ensures
        spec_deploy(m, address, code).1 == Err::<(), VmError>(VmError::InvalidFormat),
        spec_deploy(m, address, code).0 == m,
{
}

/// Immediately after a successful deploy, `get_balance` answers `"0"`.
pub proof fn lemma_fresh_balance_reads_zero(
    m: VmView,
    address: Seq<char>,
    code: Seq<u8>,
    args: Seq<Seq<char>>,
)
    requires
        !m.contracts.contains_key(address),
        has_wasm_marker(code),
        m.gas.charged(DEPLOY_COST).within_budget(),
        spec_deploy(m, address, code).0.gas.charged(CALL_BASE_COST).within_budget(),
    ensures
        spec_call_builtin(spec_deploy(m, address, code).0, address, "get_balance"@, args).1 == Ok::<
            Seq<char>,
            VmError,
        >("0"@),
{
    reveal_strlit("0");
    assert("0"@.len() == 1);
    assert("0"@[0] == '0');
    assert(dec_str(0) =~= "0"@);
}

/// `set_storage` followed by `get_storage` on the same key, within budget,
/// answers exactly the value just written.
pub proof fn lemma_set_then_get(m: VmView, address: Seq<char>, key: Seq<char>, value: Seq<char>)
    requires
        m.contracts.contains_key(address),
        m.gas.charged(CALL_BASE_COST).charged(STORAGE_WRITE_COST).within_budget(),
        spec_call_builtin(m, address, "set_storage"@, seq![key, value]).0.gas.charged(
            CALL_BASE_COST,
        ).within_budget(),
    ensures
        spec_call_builtin(m, address, "set_storage"@, seq![key, value]).1 == Ok::<
            Seq<char>,
            VmError,
        >(storage_set_msg(key, value)),
        spec_call_builtin(
            spec_call_builtin(m, address, "set_storage"@, seq![key, value]).0,
            address,
            "get_storage"@,
            seq![key],
        ).1 == Ok::<Seq<char>, VmError>(value),
{
    lemma_builtin_names_distinct();
    let m1 = spec_call_builtin(m, address, "set_storage"@, seq![key, value]).0;
    assert(m1.contracts[address].storage.contains_key(key));
    assert(m1.contracts[address].storage[key] == value);
}

/// `get_storage` on a key the contract has never stored answers the empty
/// string.
pub proof fn lemma_get_absent_is_empty(m: VmView, address: Seq<char>, key: Seq<char>)
    requires
        m.contracts.contains_key(address),
        !m.contracts[address].storage.contains_key(key),
        m.gas.charged(CALL_BASE_COST).within_budget(),
    ensures
        spec_call_builtin(m, address, "get_storage"@, seq![key]).1 == Ok::<Seq<char>, VmError>(
            Seq::<char>::empty(),
        ),
{
    lemma_builtin_names_distinct();
}

/// A transfer within the balance deducts exactly the parsed amount; one
/// beyond the balance fails `InsufficientBalance` and leaves every contract
/// — the balance included — unchanged.
pub proof fn lemma_transfer(m: VmView, address: Seq<char>, args: Seq<Seq<char>>)
    requires
        m.contracts.contains_key(address),
        args.len() >= 1,
        m.gas.charged(CALL_BASE_COST).within_budget(),
    ensures
        parse_u64_or_zero(args[0]) <= m.contracts[address].balance ==> spec_call_builtin(
            m,
            address,
            "transfer"@,
            args,
        ).0.contracts[address].balance == m.contracts[address].balance - parse_u64_or_zero(
            args[0],
        ),
        parse_u64_or_zero(args[0]) > m.contracts[address].balance ==> spec_call_builtin(
            m,
            address,
            "transfer"@,
            args,
        ).1 == Err::<Seq<char>, VmError>(VmError::InsufficientBalance) && spec_call_builtin(
            m,
            address,
            "transfer"@,
            args,
        ).0.contracts == m.contracts,
{
    lemma_builtin_names_distinct();
}

/// Whenever a deploy reports `OutOfGas`, the meter afterwards stands at or
/// beyond its limit, and the error carries exactly that reading: the
/// overshoot is preserved, never rolled back.
pub proof fn lemma_deploy_overshoot(m: VmView, address: Seq<char>, code: Seq<u8>)
    requires
        spec_deploy(m, address, code).1 matches Err(e) && e matches VmError::OutOfGas { .. },
    ensures
        spec_deploy(m, address, code).0.gas.used >= spec_deploy(m, address, code).0.gas.limit,
        spec_deploy(m, address, code).1 == Err::<(), VmError>(out_of_gas(
            spec_deploy(m, address, code).0.gas,
        )),
{
}

/// Whenever a built-in call reports `OutOfGas`, the meter afterwards stands
/// at or beyond its limit, and the error carries exactly that reading.
pub proof fn lemma_call_overshoot(
    m: VmView,
    address: Seq<char>,
    method: Seq<char>,
    args: Seq<Seq<char>>,
)
    requires
        spec_call_builtin(m, address, method, args).1 matches Err(e) && e matches VmError::OutOfGas {
            ..
        },
    ensures
        spec_call_builtin(m, address, method, args).0.gas.used >= spec_call_builtin(
            m,
            address,
            method,
            args,
        ).0.gas.limit,
        spec_call_builtin(m, address, method, args).1 == Err::<Seq<char>, VmError>(out_of_gas(
            spec_call_builtin(m, address, method, args).0.gas,
        )),
{
}

/// Repeated `get_storage` calls for an unchanged key answer identically and
/// each costs exactly the base call charge, nothing more.
pub proof fn lemma_get_storage_repeatable(m: VmView, address: Seq<char>, args: Seq<Seq<char>>)
    requires
        m.contracts.contains_key(address),
        args.len() >= 1,
        m.gas.charged(CALL_BASE_COST).within_budget(),
        m.gas.charged(CALL_BASE_COST).charged(CALL_BASE_COST).within_budget(),
    ensures
        spec_call_builtin(m, address, "get_storage"@, args).0.contracts == m.contracts,
        spec_call_builtin(m, address, "get_storage"@, args).0.gas.used == sat_add(
            m.gas.used,
            CALL_BASE_COST,
        ),
        spec_call_builtin(
            spec_call_builtin(m, address, "get_storage"@, args).0,
            address,
            "get_storage"@,
            args,
        ).1 == spec_call_builtin(m, address, "get_storage"@, args).1,
{
    lemma_builtin_names_distinct();
}

} // verus!
