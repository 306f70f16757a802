//! The staking ledger, the chain scaffolds, and the decimal-text helpers.

use neonet_core::chain::{Blockchain, Transaction};
use neonet_core::ledger::Block;
use neonet_core::stake::StakingContract;
use neonet_core::storage::Storage;
use neonet_core::text::{i32_to_string, i64_to_string, parse_i32, parse_u64, str_eq, u128_to_string, u64_to_string};

#[test]
fn test_stake() {
    let mut contract = StakingContract::new();
    let result = contract.stake("alice".to_string(), 1000, 0);
    assert!(result.is_ok());
    assert_eq!(contract.get_total_staked(), 1000);
}

#[test]
fn test_unstake() {
    let mut contract = StakingContract::new();
    contract.stake("alice".to_string(), 1000, 0).unwrap();
    let result = contract.unstake("alice".to_string(), 500);
    assert!(result.is_ok());
    assert_eq!(contract.get_total_staked(), 500);
}

#[test]
fn test_rewards() {
    let contract = StakingContract::new();
    let mut contract = contract;
    contract.stake("alice".to_string(), 1000, 0).unwrap();

    let rewards = contract.calculate_rewards("alice", 86400);
    assert!(rewards > 0);
}

#[test]
fn test_stake_messages() {
    let mut contract = StakingContract::new();
    let staked = contract.stake("alice".to_string(), 1000, 0);
    assert_eq!(staked.unwrap(), "Staked 1000 from alice");
    let unstaked = contract.unstake("alice".to_string(), 400);
    assert_eq!(unstaked.unwrap(), "Unstaked 400 from alice");
}

#[test]
fn test_stake_zero_rejected() {
    let mut contract = StakingContract::new();
    let result = contract.stake("alice".to_string(), 0, 0);
    assert_eq!(result, Err("Amount must be greater than 0".to_string()));
    assert_eq!(contract.get_total_staked(), 0);
}

#[test]
fn test_stake_accumulates() {
    let mut contract = StakingContract::new();
    contract.stake("alice".to_string(), 1000, 0).unwrap();
    contract.stake("alice".to_string(), 250, 10).unwrap();
    assert_eq!(contract.get_stake("alice").unwrap().amount, 1250);
    assert_eq!(contract.get_total_staked(), 1250);
}

#[test]
fn test_unstake_unknown() {
    let mut contract = StakingContract::new();
    let result = contract.unstake("bob".to_string(), 1);
    assert_eq!(result, Err("Stake not found".to_string()));
}

#[test]
fn test_unstake_insufficient() {
    let mut contract = StakingContract::new();
    contract.stake("alice".to_string(), 100, 0).unwrap();
    let result = contract.unstake("alice".to_string(), 101);
    assert_eq!(result, Err("Insufficient staked amount".to_string()));
    assert_eq!(contract.get_stake("alice").unwrap().amount, 100);
}

#[test]
fn test_unstake_full_removes_position() {
    let mut contract = StakingContract::new();
    contract.stake("alice".to_string(), 100, 0).unwrap();
    contract.unstake("alice".to_string(), 100).unwrap();
    assert!(contract.get_stake("alice").is_none());
    assert_eq!(contract.get_total_staked(), 0);
}

#[test]
fn test_rewards_exact() {
    let mut contract = StakingContract::new();
    contract.stake("alice".to_string(), 1000, 0).unwrap();
    // 1000 * 100 * 86400 / (86400 * 365 * 100) = 1000 / 365, rounded down.
    assert_eq!(contract.calculate_rewards("alice", 86400), 2);
    assert_eq!(contract.calculate_rewards("nobody", 86400), 0);
}

#[test]
fn test_claim_rewards_resets_clock() {
    let mut contract = StakingContract::new();
    contract.stake("alice".to_string(), 1000, 0).unwrap();
    let claimed = contract.claim_rewards("alice".to_string(), 86400);
    assert_eq!(claimed, Ok(2));
    // The claim zeroed the accrued reward and restarted the clock.
    assert_eq!(contract.calculate_rewards("alice", 86400), 0);
    assert_eq!(contract.get_stake("alice").unwrap().timestamp, 86400);
    assert_eq!(contract.get_stake("alice").unwrap().amount, 1000);
}

#[test]
fn genesis_block() {
    let g = Block::genesis();
    assert_eq!(g.index, 0);
}

#[test]
fn test_chain_new() {
    let bc = Blockchain::new(vec!["validator-1".to_string()]);
    assert_eq!(bc.chain.len(), 1);
    assert_eq!(bc.chain[0].hash, "genesis_hash");
    assert_eq!(bc.chain[0].previous_hash, "0");
    assert!(bc.pending.is_empty());
}

#[test]
fn test_add_transaction() {
    let mut bc = Blockchain::new(vec!["validator-1".to_string()]);
    bc.add_transaction(Transaction {
        from: "a".to_string(),
        to: "b".to_string(),
        amount: 5,
        payload: None,
    });
    assert_eq!(bc.pending.len(), 1);
    assert_eq!(bc.pending[0].amount, 5);
}

#[test]
fn test_mine_block_authorized() {
    let mut bc = Blockchain::new(vec!["validator-1".to_string()]);
    bc.add_transaction(Transaction {
        from: "a".to_string(),
        to: "b".to_string(),
        amount: 5,
        payload: Some("p".to_string()),
    });
    let mined = bc.mine_block("validator-1".to_string()).unwrap();
    assert_eq!(mined.index, 1);
    assert_eq!(mined.previous_hash, "genesis_hash");
    assert_eq!(mined.nonce, 0);
    assert_eq!(mined.transactions.len(), 1);
    assert_eq!(
        mined.hash,
        format!("hash:1:genesis_hash:{}", mined.timestamp)
    );
    assert_eq!(bc.chain.len(), 2);
    assert!(bc.pending.is_empty());
}

#[test]
fn test_mine_block_unauthorized() {
    let mut bc = Blockchain::new(vec!["validator-1".to_string()]);
    let mined = bc.mine_block("impostor".to_string());
    assert!(mined.is_none());
    assert_eq!(bc.chain.len(), 1);
}

#[test]
fn test_storage_map() {
    let mut storage = Storage::new();
    assert!(storage.get("k").is_none());
    storage.insert("k".to_string(), "v1".to_string());
    assert_eq!(storage.get("k").unwrap(), "v1");
    storage.insert("k".to_string(), "v2".to_string());
    assert_eq!(storage.get("k").unwrap(), "v2");
    assert!(storage.get("other").is_none());
}

#[test]
fn test_number_rendering() {
    assert_eq!(u64_to_string(0), "0");
    assert_eq!(u64_to_string(12345), "12345");
    assert_eq!(u64_to_string(u64::MAX), "18446744073709551615");
    assert_eq!(u128_to_string(340282366920938463463374607431768211455), "340282366920938463463374607431768211455");
    assert_eq!(i64_to_string(-42), "-42");
    assert_eq!(i32_to_string(i32::MIN), "-2147483648");
}

#[test]
fn test_parse_u64_cases() {
    assert_eq!(parse_u64("42"), 42);
    assert_eq!(parse_u64("+7"), 7);
    assert_eq!(parse_u64(""), 0);
    assert_eq!(parse_u64("abc"), 0);
    assert_eq!(parse_u64("-1"), 0);
    assert_eq!(parse_u64("18446744073709551615"), u64::MAX);
    assert_eq!(parse_u64("18446744073709551616"), 0);
}

#[test]
fn test_parse_i32_cases() {
    assert_eq!(parse_i32("123"), 123);
    assert_eq!(parse_i32("-123"), -123);
    assert_eq!(parse_i32("-2147483648"), i32::MIN);
    assert_eq!(parse_i32("2147483647"), i32::MAX);
    assert_eq!(parse_i32("2147483648"), 0);
    assert_eq!(parse_i32("12x"), 0);
    assert_eq!(parse_i32(""), 0);
}

#[test]
fn test_str_eq() {
    assert!(str_eq("", ""));
    assert!(str_eq("abc", "abc"));
    assert!(!str_eq("abc", "abd"));
    assert!(!str_eq("abc", "ab"));
}
