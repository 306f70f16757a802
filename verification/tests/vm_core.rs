use neonet_core::errors::VmError;
use neonet_core::gas::GasMeter;
use neonet_core::vm::{render_outcome, BridgeOutcome, WasmVM};

fn valid_code() -> Vec<u8> {
    vec![0x00, 0x61, 0x73, 0x6d, 0x01, 0x00, 0x00, 0x00]
}

#[test]
fn test_deploy_and_call_contract() {
    let mut vm = WasmVM::new(1000000);

    let code = vec![0x00, 0x61, 0x73, 0x6d, 0x01, 0x00, 0x00, 0x00];
    assert!(vm.deploy_contract("contract1".to_string(), code).is_ok());

    let result = vm.call_contract("contract1", "get_balance", vec![]);
    assert!(result.is_ok());
    assert_eq!(result.unwrap(), "0");
}

#[test]
fn test_storage_operations() {
    let mut vm = WasmVM::new(1000000);

    let code = vec![0x00, 0x61, 0x73, 0x6d, 0x01, 0x00, 0x00, 0x00];
    vm.deploy_contract("contract1".to_string(), code).unwrap();

    let set_result = vm.call_contract(
        "contract1",
        "set_storage",
        vec!["key1".to_string(), "value1".to_string()],
    );
    assert!(set_result.is_ok());

    let get_result = vm.call_contract("contract1", "get_storage", vec!["key1".to_string()]);
    assert_eq!(get_result.unwrap(), "value1");
}

#[test]
fn test_gas_limit() {
    let mut vm = WasmVM::new(5000);

    let code = vec![0x00, 0x61, 0x73, 0x6d, 0x01, 0x00, 0x00, 0x00];
    // The base deployment cost alone exceeds this budget, so the deploy
    // fails and registers nothing; the consumption is still recorded.
    let _ = vm.deploy_contract("contract1".to_string(), code);

    let _result = vm.call_contract(
        "contract1",
        "set_storage",
        vec!["key1".to_string(), "value1".to_string()],
    );

    assert!(vm.get_gas_used() > 0);
}

#[test]
fn test_invalid_wasm() {
    let mut vm = WasmVM::new(1000000);

    let bad_code = vec![0xFF, 0xFF, 0xFF, 0xFF];
    let result = vm.deploy_contract("bad_contract".to_string(), bad_code);
    assert!(result.is_err());
}

#[test]
fn test_deploy_duplicate() {
    let mut vm = WasmVM::new(1000000);
    assert!(vm.deploy_contract("c1".to_string(), valid_code()).is_ok());
    let second = vm.deploy_contract("c1".to_string(), valid_code());
    assert_eq!(second, Err(VmError::DuplicateAddress));
}

#[test]
fn test_invalid_format_leaves_state() {
    let mut vm = WasmVM::new(1000000);
    let result = vm.deploy_contract("c1".to_string(), vec![1, 2, 3, 4, 5]);
    assert_eq!(result, Err(VmError::InvalidFormat));
    assert!(vm.get_contract("c1").is_none());
    assert_eq!(vm.get_gas_used(), 0);
}

#[test]
fn test_deploy_out_of_gas() {
    let mut vm = WasmVM::new(5000);
    let result = vm.deploy_contract("c1".to_string(), valid_code());
    assert_eq!(
        result,
        Err(VmError::OutOfGas {
            used: 21000,
            limit: 5000
        })
    );
    // No partial state: the contract is not registered afterward.
    assert!(vm.get_contract("c1").is_none());
    // The overshoot is preserved, not rolled back.
    assert!(vm.get_gas_used() >= 5000);
    assert_eq!(vm.get_gas_used(), 21000);
}

#[test]
fn test_call_gas_accounting() {
    let mut vm = WasmVM::new(1_000_000);
    vm.deploy_contract("c1".to_string(), valid_code()).unwrap();
    assert_eq!(vm.get_gas_used(), 21000);

    let set = vm.call_contract(
        "c1",
        "set_storage",
        vec!["x".to_string(), "42".to_string()],
    );
    assert!(set.is_ok());
    // 3000 base + 5000 write.
    assert_eq!(vm.get_gas_used(), 21000 + 8000);

    let got = vm.call_contract("c1", "get_storage", vec!["x".to_string()]);
    assert_eq!(got.unwrap(), "42");
    assert_eq!(vm.get_gas_used(), 21000 + 8000 + 3000);
}

#[test]
fn test_repeated_get_storage() {
    let mut vm = WasmVM::new(1_000_000);
    vm.deploy_contract("c1".to_string(), valid_code()).unwrap();
    vm.call_contract(
        "c1",
        "set_storage",
        vec!["k".to_string(), "v".to_string()],
    )
    .unwrap();

    let before = vm.get_gas_used();
    let first = vm.call_contract("c1", "get_storage", vec!["k".to_string()]);
    let mid = vm.get_gas_used();
    let second = vm.call_contract("c1", "get_storage", vec!["k".to_string()]);
    let after = vm.get_gas_used();

    assert_eq!(first.unwrap(), "v");
    assert_eq!(second.unwrap(), "v");
    assert_eq!(mid - before, 3000);
    assert_eq!(after - mid, 3000);
}

#[test]
fn test_missing_arguments() {
    let mut vm = WasmVM::new(1_000_000);
    vm.deploy_contract("c1".to_string(), valid_code()).unwrap();

    let got = vm.call_contract("c1", "get_storage", vec![]);
    assert_eq!(got, Err(VmError::MissingArgument));

    let set = vm.call_contract("c1", "set_storage", vec!["k".to_string()]);
    assert_eq!(set, Err(VmError::MissingArgument));

    let moved = vm.call_contract("c1", "transfer", vec![]);
    assert_eq!(moved, Err(VmError::MissingArgument));
}

#[test]
fn test_transfer_success() {
    let mut vm = WasmVM::new(1_000_000);
    vm.deploy_contract("c1".to_string(), valid_code()).unwrap();
    vm.deposit("c1", 100).unwrap();

    let result = vm.call_contract("c1", "transfer", vec!["30".to_string()]);
    assert_eq!(result.unwrap(), "Transferred: 30");
    assert_eq!(vm.get_contract("c1").unwrap().balance, 70);

    let balance = vm.call_contract("c1", "get_balance", vec![]);
    assert_eq!(balance.unwrap(), "70");
}

#[test]
fn test_transfer_insufficient() {
    let mut vm = WasmVM::new(1_000_000);
    vm.deploy_contract("c1".to_string(), valid_code()).unwrap();
    vm.deposit("c1", 10).unwrap();

    let result = vm.call_contract("c1", "transfer", vec!["11".to_string()]);
    assert_eq!(result, Err(VmError::InsufficientBalance));
    assert_eq!(vm.get_contract("c1").unwrap().balance, 10);
}

#[test]
fn test_transfer_malformed_amount() {
    let mut vm = WasmVM::new(1_000_000);
    vm.deploy_contract("c1".to_string(), valid_code()).unwrap();
    vm.deposit("c1", 50).unwrap();

    // A malformed amount parses as zero, so the transfer succeeds and moves
    // nothing.
    let result = vm.call_contract("c1", "transfer", vec!["abc".to_string()]);
    assert_eq!(result.unwrap(), "Transferred: 0");
    assert_eq!(vm.get_contract("c1").unwrap().balance, 50);
}

#[test]
fn test_get_storage_absent_key() {
    let mut vm = WasmVM::new(1_000_000);
    vm.deploy_contract("c1".to_string(), valid_code()).unwrap();
    let got = vm.call_contract("c1", "get_storage", vec!["missing".to_string()]);
    assert_eq!(got.unwrap(), "");
}

#[test]
fn test_set_storage_message() {
    let mut vm = WasmVM::new(1_000_000);
    vm.deploy_contract("c1".to_string(), valid_code()).unwrap();
    let set = vm.call_contract(
        "c1",
        "set_storage",
        vec!["k".to_string(), "v".to_string()],
    );
    assert_eq!(set.unwrap(), "Storage set: k = v");
}

#[test]
fn test_unregistered_address() {
    let mut vm = WasmVM::new(1_000_000);
    let called = vm.call_contract("ghost", "get_balance", vec![]);
    assert_eq!(called, Err(VmError::ContractNotFound));
    let deposited = vm.deposit("ghost", 5);
    assert_eq!(deposited, Err(VmError::ContractNotFound));
    let executed = vm.execute_wasm("ghost", b"input");
    assert_eq!(executed, Err(VmError::ContractNotFound));
    // A failed lookup charges nothing.
    assert_eq!(vm.get_gas_used(), 0);
}

#[test]
fn test_render_outcome() {
    assert_eq!(
        render_outcome(&BridgeOutcome::CompileFallback, "foo", 2),
        "WASM execution fallback for method 'foo' with 2 args"
    );
    assert_eq!(
        render_outcome(
            &BridgeOutcome::InstantiationFailed("boom".to_string()),
            "foo",
            0
        ),
        "WASM instantiation failed: boom"
    );
    assert_eq!(
        render_outcome(&BridgeOutcome::MethodNotFound, "run", 0),
        "Method 'run' not found in WASM exports"
    );
    assert_eq!(
        render_outcome(&BridgeOutcome::ExecutionFailed("trap".to_string()), "run", 0),
        "WASM execution error: trap"
    );
    assert_eq!(
        render_outcome(&BridgeOutcome::Completed(Some(-3)), "run", 0),
        "WASM execution result: -3"
    );
    assert_eq!(
        render_outcome(&BridgeOutcome::Completed(None), "run", 0),
        "WASM execution completed"
    );
}

#[test]
fn test_gas_meter() {
    let mut meter = GasMeter::new(100);
    assert!(meter.consume(60).is_ok());
    assert_eq!(meter.used(), 60);
    let over = meter.consume(50);
    assert_eq!(
        over,
        Err(VmError::OutOfGas {
            used: 110,
            limit: 100
        })
    );
    // The consumption is recorded even for the rejected charge.
    assert_eq!(meter.used(), 110);
}
