//! The gas-metered virtual machine: deployment, built-in call dispatch, and
//! the sandboxed execution bridge, over an address-keyed contract registry
//! and one monotonic gas meter.

use vstd::prelude::*;
use vstd::string::StrSliceExecFns;
use vstd::string::StringExecFns;
use crate::contract::{
    lemma_registry_absent, lemma_registry_at, lemma_registry_remove, registry_map,
    unique_addresses, ContractView, WasmContract,
};
use crate::errors::VmError;
use crate::gas::{
    GasMeter, CALL_BASE_COST, DEPLOY_COST, INSTANTIATION_COST, SESSION_SETUP_COST,
    STORAGE_WRITE_COST, TRANSFER_COST,
};
use crate::sandbox::{
    call_export, compile_module, define_import, find_export, host_get_function, host_set_function,
    instantiate_module, new_imports, new_session_env, new_store, read_session_env, WasmEnv,
};
use crate::storage::Storage;
use crate::text::{dec_str, i32_to_string, int_str, parse_u64, parse_u64_or_zero, str_eq, u64_to_string};
use vstd::string::StringSliceAdditionalSpecFns;
use vstd::utf8::encode_utf8;

verus! {

/// The mathematical state of a VM: the registry it owns and its gas meter.
#[verifier::ext_equal]
pub ghost struct VmView {
    pub contracts: Map<Seq<char>, ContractView>,
    pub gas: GasMeter,
}

/// Whether `code` begins with the required 4-byte module marker.
pub open spec fn has_wasm_marker(code: Seq<u8>) -> bool {
    code.len() >= 4 && code[0] == 0x00u8 && code[1] == 0x61u8 && code[2] == 0x73u8 && code[3]
        == 0x6du8
}

/// The contract a successful deploy registers: given code, zero balance,
/// empty storage.
pub open spec fn fresh_contract(address: Seq<char>, code: Seq<u8>) -> ContractView {
    ContractView { address, code, storage: Map::empty(), balance: 0 }
}

/// The `OutOfGas` failure a meter in state `g` reports.
pub open spec fn out_of_gas(g: GasMeter) -> VmError {
    VmError::OutOfGas { used: g.used, limit: g.limit }
}

/// What `deploy` does: reject a duplicate address, then reject code without
/// the marker, then charge the base deployment cost; registration happens
/// only if the charge stays within budget, so a failed deploy leaves no
/// partial state — though the charge itself, as always, is kept.
pub open spec fn spec_deploy(m: VmView, address: Seq<char>, code: Seq<u8>) -> (VmView, Result<
    (),
    VmError,
>) {
    if m.contracts.contains_key(address) {
        (m, Err(VmError::DuplicateAddress))
    } else if !has_wasm_marker(code) {
        (m, Err(VmError::InvalidFormat))
    } else {
        let g = m.gas.charged(DEPLOY_COST);
        if !g.within_budget() {
            (VmView { contracts: m.contracts, gas: g }, Err(out_of_gas(g)))
        } else {
            (
                VmView {
                    contracts: m.contracts.insert(address, fresh_contract(address, code)),
                    gas: g,
                },
                Ok(()),
            )
        }
    }
}

/// A reserved method name, resolved once per call and handled by host logic,
/// bypassing the sandbox.
pub enum BuiltinMethod {
    GetBalance,
    GetStorage,
    SetStorage,
    Transfer,
}

/// Whether `method` names one of the built-in operations.
pub open spec fn is_builtin(method: Seq<char>) -> bool {
    ||| method == "get_balance"@
    ||| method == "get_storage"@
    ||| method == "set_storage"@
    ||| method == "transfer"@
}

/// Resolves a method name to its built-in command, if it is reserved.
pub fn resolve_builtin(method: &str) -> (r: Option<BuiltinMethod>)
    ensures
        match r {
            Some(BuiltinMethod::GetBalance) => method@ == "get_balance"@,
            Some(BuiltinMethod::GetStorage) => method@ == "get_storage"@,
            Some(BuiltinMethod::SetStorage) => method@ == "set_storage"@,
            Some(BuiltinMethod::Transfer) => method@ == "transfer"@,
            None => !is_builtin(method@),
        },
{
    if str_eq(method, "get_balance") {
        Some(BuiltinMethod::GetBalance)
    } else if str_eq(method, "get_storage") {
        Some(BuiltinMethod::GetStorage)
    } else if str_eq(method, "set_storage") {
        Some(BuiltinMethod::SetStorage)
    } else if str_eq(method, "transfer") {
        Some(BuiltinMethod::Transfer)
    } else {
        None
    }
}

/// The four reserved method names denote four different strings.
pub proof fn lemma_builtin_names_distinct()
    ensures
        "get_balance"@ != "get_storage"@,
        "get_balance"@ != "set_storage"@,
        "get_balance"@ != "transfer"@,
        "get_storage"@ != "set_storage"@,
        "get_storage"@ != "transfer"@,
        "set_storage"@ != "transfer"@,
{
    reveal_strlit("get_balance");
    reveal_strlit("get_storage");
    reveal_strlit("set_storage");
    reveal_strlit("transfer");
    assert("get_balance"@.len() == 11);
    assert("get_storage"@.len() == 11);
    assert("set_storage"@.len() == 11);
    assert("transfer"@.len() == 8);
    assert("get_balance"@[4] == 'b');
    assert("get_storage"@[4] == 's');
    assert("get_balance"@[0] == 'g');
    assert("get_storage"@[0] == 'g');
    assert("set_storage"@[0] == 's');
}

/// The acknowledgement a successful `set_storage` returns.
pub open spec fn storage_set_msg(key: Seq<char>, value: Seq<char>) -> Seq<char> {
    "Storage set: "@ + key + " = "@ + value
}

/// The acknowledgement a successful `transfer` returns.
pub open spec fn transfer_msg(amount: u64) -> Seq<char> {
    "Transferred: "@ + dec_str(amount as nat)
}

/// What a built-in call does, from lookup success onward: charge the base
/// call cost, then branch on the resolved command. A write's mutation lands
/// before its extra cost is charged, so an `OutOfGas` on that charge leaves
/// the mutation in place — gas overshoot is never rolled back.
pub open spec fn spec_call_builtin(
    m: VmView,
    address: Seq<char>,
    method: Seq<char>,
    args: Seq<Seq<char>>,
) -> (VmView, Result<Seq<char>, VmError>)
    recommends
        m.contracts.contains_key(address),
        is_builtin(method),
{
    let c = m.contracts[address];
    let g1 = m.gas.charged(CALL_BASE_COST);
    let m1 = VmView { contracts: m.contracts, gas: g1 };
    if !g1.within_budget() {
        (m1, Err(out_of_gas(g1)))
    } else if method == "get_balance"@ {
        (m1, Ok(dec_str(c.balance as nat)))
    } else if method == "get_storage"@ {
        if args.len() == 0 {
            (m1, Err(VmError::MissingArgument))
        } else if c.storage.contains_key(args[0]) {
            (m1, Ok(c.storage[args[0]]))
        } else {
            (m1, Ok(Seq::<char>::empty()))
        }
    } else if method == "set_storage"@ {
        if args.len() < 2 {
            (m1, Err(VmError::MissingArgument))
        } else {
            let c2 = with_storage(c, c.storage.insert(args[0], args[1]));
            let g2 = g1.charged(STORAGE_WRITE_COST);
            let m2 = VmView { contracts: m.contracts.insert(address, c2), gas: g2 };
            if !g2.within_budget() {
                (m2, Err(out_of_gas(g2)))
            } else {
                (m2, Ok(storage_set_msg(args[0], args[1])))
            }
        }
    } else {
        if args.len() == 0 {
            (m1, Err(VmError::MissingArgument))
        } else {
            let amount = parse_u64_or_zero(args[0]);
            if c.balance < amount {
                (m1, Err(VmError::InsufficientBalance))
            } else {
                let c2 = ContractView { balance: (c.balance - amount) as u64, ..c };
                let g2 = g1.charged(TRANSFER_COST);
                let m2 = VmView { contracts: m.contracts.insert(address, c2), gas: g2 };
                if !g2.within_budget() {
                    (m2, Err(out_of_gas(g2)))
                } else {
                    (m2, Ok(transfer_msg(amount)))
                }
            }
        }
    }
}

/// How one sandboxed invocation ended. Compile, instantiation, and
/// invocation failures are deliberately *not* errors: the call reports them
/// as successful diagnostic results, favoring observability and host
/// liveness over strict failure signaling when running arbitrary code.
pub enum BridgeOutcome {
    /// The bytecode would not compile; the call falls back to a diagnostic.
    CompileFallback,
    /// The module would not instantiate against the host imports.
    InstantiationFailed(String),
    /// The module exports nothing under the requested method name.
    MethodNotFound,
    /// The export trapped while running.
    ExecutionFailed(String),
    /// The export ran to completion, returning an integer or nothing.
    Completed(Option<i32>),
}

/// The diagnostic for bytecode that would not compile.
pub open spec fn fallback_msg(method: Seq<char>, n_args: nat) -> Seq<char> {
    "WASM execution fallback for method '"@ + method + "' with "@ + dec_str(n_args) + " args"@
}

/// The diagnostic for a module that would not instantiate.
pub open spec fn instantiation_failed_msg(e: Seq<char>) -> Seq<char> {
    "WASM instantiation failed: "@ + e
}

/// The diagnostic for a missing export.
pub open spec fn method_not_found_msg(method: Seq<char>) -> Seq<char> {
    "Method '"@ + method + "' not found in WASM exports"@
}

/// The diagnostic for an export that trapped.
pub open spec fn execution_error_msg(e: Seq<char>) -> Seq<char> {
    "WASM execution error: "@ + e
}

/// The report for an export that completed with an integer result.
pub open spec fn execution_result_msg(v: i32) -> Seq<char> {
    "WASM execution result: "@ + int_str(v as int)
}

/// The report for an export that completed without a result.
pub open spec fn execution_completed_msg() -> Seq<char> {
    "WASM execution completed"@
}

/// The length acknowledgement the raw-bytes entry point reports on success.
pub open spec fn exec_ack_msg(n: nat) -> Seq<char> {
    "WASM executed for "@ + dec_str(n) + " bytes input"@
}

/// The string a bridge outcome is reported as, exactly as callers see it.
pub open spec fn outcome_msg(o: BridgeOutcome, method: Seq<char>, n_args: nat) -> Seq<char> {
    match o {
        BridgeOutcome::CompileFallback => fallback_msg(method, n_args),
        BridgeOutcome::InstantiationFailed(e) => instantiation_failed_msg(e@),
        BridgeOutcome::MethodNotFound => method_not_found_msg(method),
        BridgeOutcome::ExecutionFailed(e) => execution_error_msg(e@),
        BridgeOutcome::Completed(Some(v)) => execution_result_msg(v),
        BridgeOutcome::Completed(None) => execution_completed_msg(),
    }
}

/// Renders a bridge outcome as the one result string the call hands back.
/// Genuine output and fallback diagnostics are the same result kind,
/// distinguishable only by content.
pub fn render_outcome(outcome: &BridgeOutcome, method: &str, n_args: usize) -> (s: String)
    ensures
        s@ == outcome_msg(*outcome, method@, n_args as nat),
{
    match outcome {
        BridgeOutcome::CompileFallback => {
            let mut s = "WASM execution fallback for method '".to_owned();
            s.append(method);
            s.append("' with ");
            let count = u64_to_string(n_args as u64);
            s.append(count.as_str());
            s.append(" args");
            s
        },
        BridgeOutcome::InstantiationFailed(e) => {
            let mut s = "WASM instantiation failed: ".to_owned();
            s.append(e.as_str());
            s
        },
        BridgeOutcome::MethodNotFound => {
            let mut s = "Method '".to_owned();
            s.append(method);
            s.append("' not found in WASM exports");
            s
        },
        BridgeOutcome::ExecutionFailed(e) => {
            let mut s = "WASM execution error: ".to_owned();
            s.append(e.as_str());
            s
        },
        BridgeOutcome::Completed(maybe_value) => match maybe_value {
            Some(v) => {
                let mut s = "WASM execution result: ".to_owned();
                let rendered = i32_to_string(*v);
                s.append(rendered.as_str());
                s
            },
            None => "WASM execution completed".to_owned(),
        },
    }
}

/// The result's view: the string's characters, or the error unchanged.
pub open spec fn res_view(r: Result<String, VmError>) -> Result<Seq<char>, VmError> {
    match r {
        Ok(s) => Ok(s@),
        Err(e) => Err(e),
    }
}

/// `c` with its storage replaced.
pub open spec fn with_storage(c: ContractView, st: Map<Seq<char>, Seq<char>>) -> ContractView {
    ContractView { storage: st, ..c }
}

/// What the execution bridge may do, from the state after the base call
/// charge. The session-setup charge comes first and can itself exhaust the
/// budget; past that, the sandbox may touch nothing but the target
/// contract's storage and the gas meter, the meter only grows, and a typed
/// failure can only be `OutOfGas` with the overshoot preserved.
pub open spec fn bridge_transition(
    m: VmView,
    m2: VmView,
    address: Seq<char>,
    r: Result<Seq<char>, VmError>,
) -> bool {
    let g = m.gas.charged(SESSION_SETUP_COST);
    if !g.within_budget() {
        m2 == (VmView { contracts: m.contracts, gas: g }) && r == Err::<Seq<char>, VmError>(
            out_of_gas(g),
        )
    } else {
        &&& m2.gas.limit == m.gas.limit
        &&& m2.gas.used >= g.used
        &&& exists|st: Map<Seq<char>, Seq<char>>|
            m2.contracts == m.contracts.insert(
                address,
                with_storage(m.contracts[address], st),
            )
        &&& match r {
            Ok(_) => m2.gas.within_budget(),
            Err(e) => e == out_of_gas(m2.gas) && !m2.gas.within_budget(),
        }
    }
}

/// Writing a key back with its current value changes nothing.
proof fn lemma_insert_same(m: Map<Seq<char>, ContractView>, k: Seq<char>)
    requires
        m.contains_key(k),
    ensures
        m.insert(k, m[k]) == m,
{
    assert(m.insert(k, m[k]) =~= m);
}

/// A byte-for-byte copy of the code.
fn copy_bytes(v: &Vec<u8>) -> (r: Vec<u8>)
    ensures
        r@ == v@,
{
    let n = v.len();
    let mut r: Vec<u8> = Vec::new();
    let mut i: usize = 0;
    while i < n
        invariant
            n == v@.len(),
            i <= n,
            r@ =~= v@.subrange(0, i as int),
        decreases n - i,
    {
        r.push(v[i]);
        proof {
            assert(r@ =~= v@.subrange(0, i as int + 1));
        }
        i = i + 1;
    }
    proof {
        assert(r@ =~= v@);
    }
    r
}

/// The virtual machine. It exclusively owns its registry and gas meter;
/// the meter resets only by constructing a new VM.
pub struct WasmVM {
    contracts: Vec<WasmContract>,
    meter: GasMeter,
}

impl View for WasmVM {
    type V = VmView;

    closed spec fn view(&self) -> VmView {
        VmView { contracts: registry_map(self.contracts@), gas: self.meter }
    }
}

impl WasmVM {
    #[verifier::type_invariant]
    spec fn wf(self) -> bool {
        unique_addresses(self.contracts@)
    }

    /// A fresh VM with an empty registry and the given gas budget.
    pub fn new(gas_limit: u64) -> (vm: WasmVM)
        ensures
            vm@.contracts == Map::<Seq<char>, ContractView>::empty(),
            vm@.gas.used == 0,
            vm@.gas.limit == gas_limit,
    {
        WasmVM { contracts: Vec::new(), meter: GasMeter::new(gas_limit) }
    }

    /// The cumulative gas consumption so far.
    pub fn get_gas_used(&self) -> (used: u64)
        ensures
            used == self@.gas.used,
    {
        self.meter.used()
    }

    /// The index of the record registered at `address`, if any.
    fn find_index(&self, address: &str) -> (r: Option<usize>)
        ensures
            match r {
                Some(i) => i < self.contracts@.len() && self.contracts@[i as int].address@
                    == address@,
                None => forall|j: int|
                    0 <= j < self.contracts@.len() ==> (#[trigger] self.contracts@[j]).address@
                        != address@,
            },
    {
        let n = self.contracts.len();
        let mut i: usize = 0;
        while i < n
            invariant
                n == self.contracts@.len(),
                i <= n,
                forall|j: int| 0 <= j < i ==> (#[trigger] self.contracts@[j]).address@ != address@,
            decreases n - i,
        {
            if str_eq(self.contracts[i].address.as_str(), address) {
                return Some(i);
            }
            i = i + 1;
        }
        None
    }

    /// The contract registered at `address`, if any.
    pub fn get_contract<'a>(&'a self, address: &str) -> (r: Option<&'a WasmContract>)
        ensures
            match r {
                Some(c) => self@.contracts.contains_key(address@) && c@ == self@.contracts[address@],
                None => !self@.contracts.contains_key(address@),
            },
    {
        proof {
            use_type_invariant(&*self);
        }
        match self.find_index(address) {
            Some(i) => {
                proof {
                    lemma_registry_at(self.contracts@, i as int);
                }
                Some(&self.contracts[i])
            },
            None => {
                proof {
                    lemma_registry_absent(self.contracts@, address@);
                }
                None
            },
        }
    }

    /// Credits `amount` to the contract at `address`. Deposits are not gas
    /// metered.
    pub fn deposit(&mut self, address: &str, amount: u64) -> (result: Result<(), VmError>)
        requires
            old(self)@.contracts.contains_key(address@) ==> old(self)@.contracts[address@].balance
                + amount <= u64::MAX,
        ensures
            final(self)@.gas == old(self)@.gas,
            match result {
                Ok(()) => old(self)@.contracts.contains_key(address@) && final(self)@.contracts
                    == old(self)@.contracts.insert(
                    address@,
                    ContractView {
                        balance: (old(self)@.contracts[address@].balance + amount) as u64,
                        ..old(self)@.contracts[address@]
                    },
                ),
                Err(e) => e == VmError::ContractNotFound && !old(self)@.contracts.contains_key(
                    address@,
                ) && *final(self) == *old(self),
            },
    {
        proof {
            use_type_invariant(&*self);
        }
        let idx = match self.find_index(address) {
            Some(i) => i,
            None => {
                proof {
                    lemma_registry_absent(self.contracts@, address@);
                }
                return Err(VmError::ContractNotFound);
            },
        };
        proof {
            lemma_registry_at(self.contracts@, idx as int);
        }
        let ghost orig = self.contracts@;
        let mut contracts: Vec<WasmContract> = Vec::new();
        core::mem::swap(&mut contracts, &mut self.contracts);
        let mut c = contracts.remove(idx);
        c.balance = c.balance + amount;
        contracts.push(c);
        proof {
            lemma_contracts_update(orig, idx as int, contracts@.last());
        }
        self.contracts = contracts;
        Ok(())
    }

    /// Dispatches a call: the built-in operations are intercepted and handled
    /// by host logic with exact results; any other method name routes into
    /// the execution bridge, whose effect is bounded by `bridge_transition`.
    /// A call on an unregistered address fails `ContractNotFound` and charges
    /// nothing.
    pub fn call_contract(&mut self, address: &str, method: &str, args: Vec<String>) -> (result:
        Result<String, VmError>)
        ensures
            !old(self)@.contracts.contains_key(address@) ==> final(self)@ == old(self)@ && result
                == Err::<String, VmError>(VmError::ContractNotFound),
            old(self)@.contracts.contains_key(address@) && is_builtin(method@) ==> ({
                let (m2, r) = spec_call_builtin(old(self)@, address@, method@, args.deep_view());
                final(self)@ == m2 && res_view(result) == r
            }),
            old(self)@.contracts.contains_key(address@) && !is_builtin(method@) ==> ({
                let g1 = old(self)@.gas.charged(CALL_BASE_COST);
                if !g1.within_budget() {
                    final(self)@ == (VmView { contracts: old(self)@.contracts, gas: g1 })
                        && res_view(result) == Err::<Seq<char>, VmError>(out_of_gas(g1))
                } else {
                    bridge_transition(
                        VmView { contracts: old(self)@.contracts, gas: g1 },
                        final(self)@,
                        address@,
                        res_view(result),
                    )
                }
            }),
    {
        proof {
            use_type_invariant(&*self);
        }
        let ghost entry = self@;
        let idx = match self.find_index(address) {
            Some(i) => i,
            None => {
                proof {
                    lemma_registry_absent(self.contracts@, address@);
                }
                return Err(VmError::ContractNotFound);
            },
        };
        proof {
            lemma_registry_at(self.contracts@, idx as int);
            lemma_insert_same(entry.contracts, address@);
        }
        let mut meter = self.meter;
        let charge = meter.consume(CALL_BASE_COST);
        self.meter = meter;
        if let Err(e) = charge {
            return Err(e);
        }
        let cmd = resolve_builtin(method);
        proof {
            lemma_builtin_names_distinct();
        }
        match cmd {
            Some(BuiltinMethod::GetBalance) => {
                let rendered = u64_to_string(self.contracts[idx].balance);
                Ok(rendered)
            },
            Some(BuiltinMethod::GetStorage) => {
                if args.len() == 0 {
                    return Err(VmError::MissingArgument);
                }
                proof {
                    assert(args.deep_view()[0] == args@[0]@);
                }
                match self.contracts[idx].storage.get(args[0].as_str()) {
                    Some(v) => Ok(v.clone()),
                    None => Ok(String::new()),
                }
            },
            Some(BuiltinMethod::SetStorage) => {
                if args.len() < 2 {
                    return Err(VmError::MissingArgument);
                }
                proof {
                    assert(args.deep_view()[0] == args@[0]@);
                    assert(args.deep_view()[1] == args@[1]@);
                }
                let key = args[0].clone();
                let value = args[1].clone();
                let ghost orig = self.contracts@;
                let mut contracts: Vec<WasmContract> = Vec::new();
                core::mem::swap(&mut contracts, &mut self.contracts);
                let mut c = contracts.remove(idx);
                c.storage.insert(key, value);
                contracts.push(c);
                proof {
                    lemma_contracts_update(orig, idx as int, contracts@.last());
                }
                self.contracts = contracts;
                let mut meter = self.meter;
                let charge = meter.consume(STORAGE_WRITE_COST);
                self.meter = meter;
                if let Err(e) = charge {
                    return Err(e);
                }
                let mut s = "Storage set: ".to_owned();
                s.append(args[0].as_str());
                s.append(" = ");
                s.append(args[1].as_str());
                Ok(s)
            },
            Some(BuiltinMethod::Transfer) => {
                if args.len() == 0 {
                    return Err(VmError::MissingArgument);
                }
                proof {
                    assert(args.deep_view()[0] == args@[0]@);
                }
                let amount = parse_u64(args[0].as_str());
                if self.contracts[idx].balance < amount {
                    return Err(VmError::InsufficientBalance);
                }
                let ghost orig = self.contracts@;
                let mut contracts: Vec<WasmContract> = Vec::new();
                core::mem::swap(&mut contracts, &mut self.contracts);
                let mut c = contracts.remove(idx);
                c.balance = c.balance - amount;
                contracts.push(c);
                proof {
                    lemma_contracts_update(orig, idx as int, contracts@.last());
                }
                self.contracts = contracts;
                let mut meter = self.meter;
                let charge = meter.consume(TRANSFER_COST);
                self.meter = meter;
                if let Err(e) = charge {
                    return Err(e);
                }
                let mut s = "Transferred: ".to_owned();
                let rendered = u64_to_string(amount);
                s.append(rendered.as_str());
                Ok(s)
            },
            None => self.execute_wasm_method(address, method, &args),
        }
    }

    /// The raw-bytes entry point: the same compile-and-instantiate pipeline
    /// with no host imports, reporting a length acknowledgement on success
    /// and the usual non-fatal diagnostics otherwise. Storage is never
    /// touched.
    pub fn execute_wasm(&mut self, address: &str, input: &[u8]) -> (result: Result<
        Vec<u8>,
        VmError,
    >)
        ensures
            final(self)@.contracts == old(self)@.contracts,
            final(self)@.gas.limit == old(self)@.gas.limit,
            !old(self)@.contracts.contains_key(address@) ==> final(self)@ == old(self)@ && result
                == Err::<Vec<u8>, VmError>(VmError::ContractNotFound),
            old(self)@.contracts.contains_key(address@) ==> ({
                let g = old(self)@.gas.charged(SESSION_SETUP_COST);
                if !g.within_budget() {
                    final(self)@.gas == g && result == Err::<Vec<u8>, VmError>(out_of_gas(g))
                } else {
                    &&& (final(self)@.gas == g || final(self)@.gas == g.charged(
                        INSTANTIATION_COST,
                    ))
                    &&& match result {
                        Ok(v) => final(self)@.gas.within_budget() && (final(self)@.gas.used
                            != g.used ==> v@ == encode_utf8(exec_ack_msg(input@.len() as nat))),
                        Err(e) => e == out_of_gas(final(self)@.gas)
                            && !final(self)@.gas.within_budget(),
                    }
                }
            }),
    {
        proof {
            use_type_invariant(&*self);
        }
        let idx = match self.find_index(address) {
            Some(i) => i,
            None => {
                proof {
                    lemma_registry_absent(self.contracts@, address@);
                }
                return Err(VmError::ContractNotFound);
            },
        };
        proof {
            lemma_registry_at(self.contracts@, idx as int);
        }
        let mut meter = self.meter;
        let charge = meter.consume(SESSION_SETUP_COST);
        self.meter = meter;
        if let Err(e) = charge {
            return Err(e);
        }
        let code = copy_bytes(&self.contracts[idx].code);
        let mut store = new_store();
        match compile_module(&store, &code) {
            Err(reason) => {
                let mut s = "WASM compilation error: ".to_owned();
                s.append(reason.as_str());
                s.append(", using fallback");
                Ok(s.as_str().as_bytes_vec())
            },
            Ok(module) => {
                let imports = new_imports();
                match instantiate_module(&mut store, &module, &imports) {
                    Err(reason) => {
                        let mut s = "WASM instantiation error: ".to_owned();
                        s.append(reason.as_str());
                        Ok(s.as_str().as_bytes_vec())
                    },
                    Ok(_instance) => {
                        let mut meter = self.meter;
                        let charge = meter.consume(INSTANTIATION_COST);
                        self.meter = meter;
                        if let Err(e) = charge {
                            return Err(e);
                        }
                        let mut s = "WASM executed for ".to_owned();
                        let rendered = u64_to_string(input.len() as u64);
                        s.append(rendered.as_str());
                        s.append(" bytes input");
                        proof {
                            assert(s@ == exec_ack_msg(input@.len() as nat));
                        }
                        Ok(s.as_str().as_bytes_vec())
                    },
                }
            },
        }
    }

    /// Routes a non-built-in method into the execution bridge: compile the
    /// contract's code, expose the two host capabilities over a storage
    /// snapshot, instantiate, invoke the matching export, and on completion
    /// commit the snapshot wholesale and charge the session's gas. Compile,
    /// instantiation, and invocation failures come back as `Ok` diagnostics.
    fn execute_wasm_method(&mut self, address: &str, method: &str, args: &Vec<String>) -> (result:
        Result<String, VmError>)
        requires
            old(self)@.contracts.contains_key(address@),
        ensures
            bridge_transition(old(self)@, final(self)@, address@, res_view(result)),
    {
        proof {
            use_type_invariant(&*self);
        }
        let ghost entry = self@;
        let mut meter = self.meter;
        let charge = meter.consume(SESSION_SETUP_COST);
        self.meter = meter;
        if let Err(e) = charge {
            return Err(e);
        }
        let idx = match self.find_index(address) {
            Some(i) => i,
            None => {
                proof {
                    lemma_registry_absent(self.contracts@, address@);
                    assert(false);
                }
                return Err(VmError::ContractNotFound);
            },
        };
        proof {
            lemma_registry_at(self.contracts@, idx as int);
            lemma_insert_same(entry.contracts, address@);
        }
        let code = copy_bytes(&self.contracts[idx].code);
        let snapshot = self.contracts[idx].storage.duplicate();
        let remaining = self.meter.limit - self.meter.used;
        let mut store = new_store();
        proof {
            let c0 = entry.contracts[address@];
            assert(with_storage(c0, c0.storage) == c0);
            assert(self@.contracts == entry.contracts.insert(address@, with_storage(
                c0,
                c0.storage,
            )));
        }
        let module = match compile_module(&store, &code) {
            Err(_reason) => {
                return Ok(render_outcome(&BridgeOutcome::CompileFallback, method, args.len()));
            },
            Ok(m) => m,
        };
        let env = new_session_env(
            &mut store,
            WasmEnv { storage: snapshot, gas_used: 0, gas_limit: remaining },
        );
        let get_f = host_get_function(&mut store, &env);
        let set_f = host_set_function(&mut store, &env);
        let mut imports = new_imports();
        define_import(&mut imports, "env", "storage_get", get_f);
        define_import(&mut imports, "env", "storage_set", set_f);
        let instance = match instantiate_module(&mut store, &module, &imports) {
            Err(reason) => {
                return Ok(
                    render_outcome(&BridgeOutcome::InstantiationFailed(reason), method, args.len()),
                );
            },
            Ok(i) => i,
        };
        let mut meter = self.meter;
        let charge = meter.consume(INSTANTIATION_COST);
        self.meter = meter;
        if let Err(e) = charge {
            return Err(e);
        }
        let func = match find_export(&instance, method) {
            None => {
                return Ok(render_outcome(&BridgeOutcome::MethodNotFound, method, args.len()));
            },
            Some(f) => f,
        };
        match call_export(&mut store, &func) {
            Err(reason) => Ok(
                render_outcome(&BridgeOutcome::ExecutionFailed(reason), method, args.len()),
            ),
            Ok(value) => {
                let session = read_session_env(&store, &env);
                let ghost orig = self.contracts@;
                let mut contracts: Vec<WasmContract> = Vec::new();
                core::mem::swap(&mut contracts, &mut self.contracts);
                let mut c = contracts.remove(idx);
                c.storage = session.storage;
                contracts.push(c);
                proof {
                    lemma_contracts_update(orig, idx as int, contracts@.last());
                }
                self.contracts = contracts;
                proof {
                    assert(self@.contracts == entry.contracts.insert(address@, with_storage(
                        entry.contracts[address@],
                        session.storage@,
                    )));
                }
                let mut meter = self.meter;
                let charge = meter.consume(session.gas_used);
                self.meter = meter;
                if let Err(e) = charge {
                    return Err(e);
                }
                Ok(render_outcome(&BridgeOutcome::Completed(value), method, args.len()))
            },
        }
    }

    /// Deploys `code` under `address`: validates the module marker, registers
    /// a fresh contract, and charges the base deployment cost. If the charge
    /// exhausts the budget the deploy fails as a whole and nothing is
    /// registered.
    pub fn deploy_contract(&mut self, address: String, code: Vec<u8>) -> (result: Result<
        (),
        VmError,
    >)
        ensures
            ({
                let (m2, r) = spec_deploy(old(self)@, address@, code@);
                final(self)@ == m2 && result == r
            }),
    {
        proof {
            use_type_invariant(&*self);
        }
        if let Some(i) = self.find_index(address.as_str()) {
            proof {
                lemma_registry_at(self.contracts@, i as int);
            }
            return Err(VmError::DuplicateAddress);
        }
        proof {
            lemma_registry_absent(self.contracts@, address@);
        }
        if code.len() < 4 || code[0] != 0x00 || code[1] != 0x61 || code[2] != 0x73 || code[3]
            != 0x6d {
            return Err(VmError::InvalidFormat);
        }
        let mut meter = self.meter;
        let charge = meter.consume(DEPLOY_COST);
        self.meter = meter;
        match charge {
            Err(e) => Err(e),
            Ok(()) => {
                let ghost orig = self.contracts@;
                let fresh = WasmContract { address, code, storage: Storage::new(), balance: 0 };
                let mut contracts: Vec<WasmContract> = Vec::new();
                core::mem::swap(&mut contracts, &mut self.contracts);
                contracts.push(fresh);
                proof {
                    crate::contract::lemma_registry_push(orig, contracts@.last());
                }
                self.contracts = contracts;
                Ok(())
            },
        }
    }
}

/// Replacing the record at `i` with one carrying the same address updates the
/// registry at exactly that address.
pub proof fn lemma_contracts_update(s: Seq<WasmContract>, i: int, c: WasmContract)
    requires
        unique_addresses(s),
        0 <= i < s.len(),
        c.address@ == s[i].address@,
    ensures
        unique_addresses(s.remove(i).push(c)),
        registry_map(s.remove(i).push(c)) == registry_map(s).insert(c.address@, c@),
{
    s.remove_ensures(i);
    let shortened = s.remove(i);
    assert forall|j: int| 0 <= j < shortened.len() implies (#[trigger] shortened[j]).address@
        != c.address@ by {
        if j < i {
            assert(shortened[j] == s[j]);
        } else {
            assert(shortened[j] == s[j + 1]);
        }
    }
    assert forall|a: int, b: int|
        0 <= a < b < shortened.len() implies (#[trigger] shortened[a]).address@ != (
    #[trigger] shortened[b]).address@ by {
        if a < i && b < i {
            assert(shortened[a] == s[a] && shortened[b] == s[b]);
        } else if a < i {
            assert(shortened[a] == s[a] && shortened[b] == s[b + 1]);
        } else {
            assert(shortened[a] == s[a + 1] && shortened[b] == s[b + 1]);
        }
    }
    lemma_registry_remove(s, i);
    crate::contract::lemma_registry_push(shortened, c);
    assert(registry_map(s).remove(c.address@).insert(c.address@, c@) =~= registry_map(s).insert(
        c.address@,
        c@,
    ));
}

} // verus!
