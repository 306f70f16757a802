//! The execution bridge, exercised against the real runtime: compiled
//! modules, the two host capabilities, the snapshot commit, and the
//! non-fatal diagnostic policy.

use neonet_core::vm::WasmVM;

fn empty_module() -> Vec<u8> {
    vec![0x00, 0x61, 0x73, 0x6d, 0x01, 0x00, 0x00, 0x00]
}

fn compile_wat(text: &str) -> Vec<u8> {
    wasmer::wat2wasm(text.as_bytes()).unwrap().to_vec()
}

#[test]
fn test_bridge_method_not_found() {
    let mut vm = WasmVM::new(1_000_000);
    vm.deploy_contract("c1".to_string(), empty_module()).unwrap();
    let before = vm.get_gas_used();

    let result = vm.call_contract("c1", "run", vec![]);
    assert_eq!(result.unwrap(), "Method 'run' not found in WASM exports");
    // 3000 base + 1000 session setup + 10000 instantiation.
    assert_eq!(vm.get_gas_used() - before, 14000);
}

#[test]
fn test_bridge_compile_fallback() {
    let mut vm = WasmVM::new(1_000_000);
    // The marker alone is a truncated module: it deploys, but will not
    // compile.
    vm.deploy_contract("c1".to_string(), vec![0x00, 0x61, 0x73, 0x6d])
        .unwrap();
    let before = vm.get_gas_used();

    let result = vm.call_contract("c1", "foo", vec!["a".to_string()]);
    assert_eq!(
        result.unwrap(),
        "WASM execution fallback for method 'foo' with 1 args"
    );
    // 3000 base + 1000 session setup; compilation failure charges no more.
    assert_eq!(vm.get_gas_used() - before, 4000);
}

#[test]
fn test_sandbox_storage_commit() {
    let mut vm = WasmVM::new(1_000_000);
    let code = compile_wat(
        "(module
           (import \"env\" \"storage_set\" (func $set (param i32 i32)))
           (func (export \"run\") i32.const 1 i32.const 42 call $set))",
    );
    vm.deploy_contract("c1".to_string(), code).unwrap();
    let before = vm.get_gas_used();

    let result = vm.call_contract("c1", "run", vec![]);
    assert_eq!(result.unwrap(), "WASM execution completed");
    // 3000 base + 1000 setup + 10000 instantiation + 5000 session write.
    assert_eq!(vm.get_gas_used() - before, 19000);

    // The session snapshot was committed onto the contract's storage.
    let got = vm.call_contract("c1", "get_storage", vec!["1".to_string()]);
    assert_eq!(got.unwrap(), "42");
}

#[test]
fn test_sandbox_storage_read() {
    let mut vm = WasmVM::new(1_000_000);
    let code = compile_wat(
        "(module
           (import \"env\" \"storage_get\" (func $get (param i32) (result i32)))
           (func (export \"run\") (result i32) i32.const 5 call $get))",
    );
    vm.deploy_contract("c1".to_string(), code).unwrap();
    vm.call_contract(
        "c1",
        "set_storage",
        vec!["5".to_string(), "123".to_string()],
    )
    .unwrap();

    let result = vm.call_contract("c1", "run", vec![]);
    assert_eq!(result.unwrap(), "WASM execution result: 123");
}

#[test]
fn test_sandbox_result_value() {
    let mut vm = WasmVM::new(1_000_000);
    let code = compile_wat("(module (func (export \"run\") (result i32) i32.const 7))");
    vm.deploy_contract("c1".to_string(), code).unwrap();

    let result = vm.call_contract("c1", "run", vec![]);
    assert_eq!(result.unwrap(), "WASM execution result: 7");
}

#[test]
fn test_instantiation_failure_diagnostic() {
    let mut vm = WasmVM::new(1_000_000);
    let code = compile_wat(
        "(module
           (import \"env\" \"missing_fn\" (func $m))
           (func (export \"run\") call $m))",
    );
    vm.deploy_contract("c1".to_string(), code).unwrap();

    let result = vm.call_contract("c1", "run", vec![]).unwrap();
    assert!(result.starts_with("WASM instantiation failed: "));
}

#[test]
fn test_execution_trap_diagnostic() {
    let mut vm = WasmVM::new(1_000_000);
    let code = compile_wat("(module (func (export \"run\") unreachable))");
    vm.deploy_contract("c1".to_string(), code).unwrap();

    let result = vm.call_contract("c1", "run", vec![]).unwrap();
    assert!(result.starts_with("WASM execution error: "));
}

#[test]
fn test_execute_wasm_raw() {
    let mut vm = WasmVM::new(1_000_000);
    vm.deploy_contract("c1".to_string(), empty_module()).unwrap();
    let before = vm.get_gas_used();

    let result = vm.execute_wasm("c1", b"xyz").unwrap();
    assert_eq!(result, b"WASM executed for 3 bytes input".to_vec());
    // 1000 setup + 10000 instantiation; no base call cost on this entry.
    assert_eq!(vm.get_gas_used() - before, 11000);
}

#[test]
fn test_execute_wasm_compile_error() {
    let mut vm = WasmVM::new(1_000_000);
    vm.deploy_contract("c1".to_string(), vec![0x00, 0x61, 0x73, 0x6d])
        .unwrap();

    let result = vm.execute_wasm("c1", b"ignored").unwrap();
    let text = String::from_utf8(result).unwrap();
    assert!(text.starts_with("WASM compilation error: "));
    assert!(text.ends_with(", using fallback"));
}
