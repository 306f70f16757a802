//! The execution bridge's sandbox layer: the wasmer runtime behind trusted
//! declarations, the per-session host environment, and the two host
//! capabilities — the sandbox's only path to persistent state.
//!
//! Nothing is assumed about what sandboxed code computes: every wrapper here
//! states only what holds of any outcome, and the verified VM treats whatever
//! comes back as arbitrary.

use vstd::prelude::*;
use crate::gas::{sat_add, STORAGE_WRITE_COST};
use crate::storage::Storage;
use crate::text::{i32_to_string, int_str, parse_i32, parse_i32_or_zero};
use wasmer::{Function, FunctionEnv, FunctionEnvMut, Imports, Instance, Module, Store, Value};

verus! {

#[verifier::external_type_specification]
#[verifier::external_body]
pub struct ExStore(Store);

#[verifier::external_type_specification]
#[verifier::external_body]
pub struct ExModule(Module);

#[verifier::external_type_specification]
#[verifier::external_body]
pub struct ExInstance(Instance);

#[verifier::external_type_specification]
#[verifier::external_body]
pub struct ExFunction(Function);

#[verifier::external_type_specification]
#[verifier::external_body]
pub struct ExImports(Imports);

#[verifier::external_type_specification]
#[verifier::external_body]
#[verifier::reject_recursive_types(T)]
pub struct ExFunctionEnv<T>(FunctionEnv<T>);

/// One execution session's state: a working copy of the target contract's
/// storage and a session-local gas sub-counter, scoped to one sandboxed
/// invocation and committed wholesale only on success.
pub struct WasmEnv {
    pub storage: Storage,
    pub gas_used: u64,
    pub gas_limit: u64,
}

/// What `storage_get` hands the sandbox: the stored value under the decimal
/// form of `key`, read back as an integer, zero when absent or unparsable.
pub open spec fn host_get_result(storage: Map<Seq<char>, Seq<char>>, key: i32) -> i32 {
    let k = int_str(key as int);
    if storage.contains_key(k) {
        parse_i32_or_zero(storage[k])
    } else {
        0i32
    }
}

/// The `storage_get` host capability: looks the decimal form of `key` up in
/// the session snapshot.
pub fn env_storage_get(env: &WasmEnv, key: i32) -> (r: i32)
    ensures
        r == host_get_result(env.storage@, key),
{
    let k = i32_to_string(key);
    match env.storage.get(k.as_str()) {
        Some(v) => parse_i32(v.as_str()),
        None => 0,
    }
}

/// The `storage_set` host capability: writes the decimal forms of `key` and
/// `value` into the session snapshot and charges the session's internal gas
/// counter the fixed write cost.
pub fn env_storage_set(env: &mut WasmEnv, key: i32, value: i32)
    ensures
        final(env).storage@ == old(env).storage@.insert(
            int_str(key as int),
            int_str(value as int),
        ),
        final(env).gas_used == sat_add(old(env).gas_used, STORAGE_WRITE_COST),
        final(env).gas_limit == old(env).gas_limit,
{
    let k = i32_to_string(key);
    let v = i32_to_string(value);
    env.storage.insert(k, v);
    env.gas_used = if env.gas_used <= u64::MAX - STORAGE_WRITE_COST {
        env.gas_used + STORAGE_WRITE_COST
    } else {
        u64::MAX
    };
}

/// Relies on `wasmer::Store::default`: a fresh store with the default engine.
#[verifier::external_body]
pub(crate) fn new_store() -> Store {
    Store::default()
}

/// Relies on `wasmer::Module::new`: compiles the bytecode in the store's
/// engine, or reports why it would not compile.
#[verifier::external_body]
pub(crate) fn compile_module(store: &Store, code: &Vec<u8>) -> Result<Module, String> {
    match Module::new(store, code.as_slice()) {
        Ok(module) => Ok(module),
        Err(e) => Err(e.to_string()),
    }
}

/// Relies on `wasmer::FunctionEnv::new`: places the session environment in
/// the store.
#[verifier::external_body]
pub(crate) fn new_session_env(store: &mut Store, env: WasmEnv) -> FunctionEnv<WasmEnv> {
    FunctionEnv::new(store, env)
}

/// Relies on `wasmer::Function::new_typed_with_env`: makes the sandbox-facing
/// `storage_get`; the closure only calls the verified host read.
#[verifier::external_body]
pub(crate) fn host_get_function(store: &mut Store, env: &FunctionEnv<WasmEnv>) -> Function {
    Function::new_typed_with_env(
        store,
        env,
        |e: FunctionEnvMut<WasmEnv>, key: i32| -> i32 { env_storage_get(e.data(), key) },
    )
}

/// Relies on `wasmer::Function::new_typed_with_env`: makes the sandbox-facing
/// `storage_set`; the closure only calls the verified host write.
#[verifier::external_body]
pub(crate) fn host_set_function(store: &mut Store, env: &FunctionEnv<WasmEnv>) -> Function {
    Function::new_typed_with_env(
        store,
        env,
        |mut e: FunctionEnvMut<WasmEnv>, key: i32, value: i32| {
            env_storage_set(e.data_mut(), key, value)
        },
    )
}

/// Relies on `wasmer::Imports::new`: an empty import object.
#[verifier::external_body]
pub(crate) fn new_imports() -> Imports {
    Imports::new()
}

/// Relies on `wasmer::Imports::define`: registers one host function under the
/// given namespace and name.
#[verifier::external_body]
pub(crate) fn define_import(imports: &mut Imports, ns: &str, name: &str, f: Function) {
    imports.define(ns, name, f);
}

/// Relies on `wasmer::Instance::new`: instantiates the module against the
/// imports, or reports why it would not instantiate.
#[verifier::external_body]
pub(crate) fn instantiate_module(store: &mut Store, module: &Module, imports: &Imports) -> Result<
    Instance,
    String,
> {
    match Instance::new(store, module, imports) {
        Ok(instance) => Ok(instance),
        Err(e) => Err(e.to_string()),
    }
}

/// Relies on `wasmer::Exports::get_function`: the export under the method
/// name, if the module has one.
#[verifier::external_body]
pub(crate) fn find_export(instance: &Instance, name: &str) -> Option<Function> {
    match instance.exports.get_function(name) {
        Ok(f) => Some(f.clone()),
        Err(_) => None,
    }
}

/// Relies on `wasmer::Function::call`: invokes the export with no arguments;
/// hands back the first returned integer, if any, or the trap's message.
#[verifier::external_body]
pub(crate) fn call_export(store: &mut Store, f: &Function) -> Result<Option<i32>, String> {
    match f.call(store, &[]) {
        Ok(results) => match results.first() {
            Some(Value::I32(v)) => Ok(Some(*v)),
            _ => Ok(None),
        },
        Err(e) => Err(e.to_string()),
    }
}

/// Relies on `wasmer::FunctionEnv::as_ref`: the session environment as the
/// sandboxed code left it. The sandbox reaches the environment only through
/// the two registered host capabilities, so what comes back is a value those
/// verified functions built — but which value depends on the sandboxed code,
/// so nothing is assumed of it here.
#[verifier::external_body]
pub(crate) fn read_session_env(store: &Store, env: &FunctionEnv<WasmEnv>) -> WasmEnv {
    let e = env.as_ref(store);
    WasmEnv { storage: e.storage.duplicate(), gas_used: e.gas_used, gas_limit: e.gas_limit }
}

} // verus!
