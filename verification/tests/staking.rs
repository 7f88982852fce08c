use hyle::fees::ValidatorFeeState;
use hyle::model::{Identity, LaneBytesSize, LaneId, ValidatorPublicKey};
use hyle::staking::{Block, RewardsClaim, Staking, StakingAction, MIN_STAKE};

fn id(name: &str) -> Identity {
    Identity(name.to_string())
}

fn key(bytes: &[u8]) -> ValidatorPublicKey {
    ValidatorPublicKey(bytes.to_vec())
}

fn staked(pairs: &[(&str, u128, &[u8])]) -> Staking {
    let mut s = Staking::new();
    for (name, amount, validator) in pairs {
        s.stake(id(name), *amount).unwrap();
        s.delegate_to(id(name), key(validator)).unwrap();
    }
    s
}

#[test]
fn new_state_is_empty() {
    let s = Staking::new();
    assert_eq!(s.total_bond(), 0);
    assert!(s.bonded().is_empty());
    assert_eq!(s.compute_f(), 0);
    assert!(!s.is_known(&key(b"v1")));
    assert!(!s.is_bonded(&key(b"v1")));
    assert_eq!(s.get_stake(&key(b"v1")), None);
    assert_eq!(s.pending_fees(), 0);
    let d = Staking::default();
    assert_eq!(d.total_bond(), 0);
    assert_eq!(MIN_STAKE, 32);
}

#[test]
fn stake_once_only() {
    let mut s = Staking::new();
    assert_eq!(s.stake(id("alice"), 100), Ok("Staked".to_string()));
    assert_eq!(
        s.stake(id("alice"), 5),
        Err("Staking balance is frozen for alice (already staked)".to_string())
    );
    assert_eq!(s.stake(id("bob"), 0), Ok("Staked".to_string()));
}

#[test]
fn delegate_once_only() {
    let mut s = Staking::new();
    s.stake(id("alice"), 100).unwrap();
    assert_eq!(
        s.delegate_to(id("alice"), key(b"v1")),
        Ok("Delegated".to_string())
    );
    assert_eq!(
        s.delegate_to(id("alice"), key(b"v1")),
        Err("Already delegated".to_string())
    );
    assert_eq!(
        s.delegate_to(id("alice"), key(b"v2")),
        Err("Already delegated".to_string())
    );
    assert!(s.is_known(&key(b"v1")));
    assert!(!s.is_known(&key(b"v2")));
}

#[test]
fn stake_behind_a_validator_is_the_sum_of_its_delegators() {
    let mut s = staked(&[("alice", 100, b"v1"), ("bob", 23, b"v1"), ("carol", 7, b"v2")]);
    assert_eq!(s.get_stake(&key(b"v1")), Some(123));
    assert_eq!(s.get_stake(&key(b"v2")), Some(7));
    assert_eq!(s.get_stake(&key(b"v3")), None);
    s.delegate_to(id("dave"), key(b"v2")).unwrap();
    assert_eq!(s.get_stake(&key(b"v2")), Some(7));
}

#[test]
fn stake_behind_a_validator_stops_at_the_largest_number() {
    let s = staked(&[("alice", u128::MAX, b"v1"), ("bob", 5, b"v1")]);
    assert_eq!(s.get_stake(&key(b"v1")), Some(u128::MAX));
}

#[test]
fn voting_power_counts_each_validator_once() {
    let s = staked(&[("alice", 100, b"v1"), ("bob", 23, b"v2"), ("carol", 7, b"v3")]);
    assert_eq!(s.compute_voting_power(&[]), 0);
    assert_eq!(s.compute_voting_power(&[key(b"v1")]), 100);
    assert_eq!(s.compute_voting_power(&[key(b"v1"), key(b"v2")]), 123);
    assert_eq!(
        s.compute_voting_power(&[key(b"v2"), key(b"v1"), key(b"v2"), key(b"v2")]),
        123
    );
    assert_eq!(s.compute_voting_power(&[key(b"v9"), key(b"v3")]), 7);
}

#[test]
fn bond_needs_the_least_stake() {
    let mut s = staked(&[("alice", 31, b"v1"), ("bob", 32, b"v2")]);
    assert_eq!(
        s.bond(key(b"v1")),
        Err("Validator does not have enough stake".to_string())
    );
    assert_eq!(
        s.bond(key(b"v0")),
        Err("Validator does not have enough stake".to_string())
    );
    assert_eq!(s.bond(key(b"v2")), Ok(()));
    assert_eq!(
        s.bond(key(b"v2")),
        Err("Validator already bonded".to_string())
    );
    assert!(s.is_bonded(&key(b"v2")));
    assert!(!s.is_bonded(&key(b"v1")));
    assert_eq!(s.total_bond(), 32);
    assert_eq!(s.compute_f(), 10);
}

#[test]
fn bonded_validators_are_in_the_order_of_their_keys() {
    let mut s = staked(&[
        ("a", 40, &[3, 0]),
        ("b", 50, &[1]),
        ("c", 60, &[3]),
        ("d", 70, &[2, 9, 9]),
    ]);
    s.bond(key(&[3, 0])).unwrap();
    s.bond(key(&[1])).unwrap();
    s.bond(key(&[3])).unwrap();
    s.bond(key(&[2, 9, 9])).unwrap();
    assert_eq!(
        s.bonded(),
        &vec![key(&[1]), key(&[2, 9, 9]), key(&[3]), key(&[3, 0])]
    );
    assert_eq!(s.total_bond(), 220);
    assert_eq!(s.compute_f(), 73);
}

#[test]
fn fees_are_deposited_paid_and_shared() {
    let mut s = staked(&[("a", 40, b"v1"), ("b", 50, b"v2")]);
    s.bond(key(b"v1")).unwrap();
    s.bond(key(b"v2")).unwrap();
    assert_eq!(s.fee_state(&key(b"v1")), None);
    assert_eq!(
        s.deposit_for_fees(key(b"v1"), 1000),
        Ok("Deposited".to_string())
    );
    assert_eq!(
        s.fee_state(&key(b"v1")),
        Some(ValidatorFeeState {
            balance: 1000,
            paid_cumul_size: LaneBytesSize(0)
        })
    );
    assert!(s
        .pay_for_dadi(LaneId(key(b"v2")), LaneBytesSize(10))
        .is_err());
    assert_eq!(s.pay_for_dadi(LaneId(key(b"v1")), LaneBytesSize(301)), Ok(()));
    assert_eq!(
        s.fee_state(&key(b"v1")),
        Some(ValidatorFeeState {
            balance: 699,
            paid_cumul_size: LaneBytesSize(301)
        })
    );
    assert_eq!(s.pending_fees(), 301);
    assert_eq!(s.pay_for_dadi(LaneId(key(b"v1")), LaneBytesSize(301)), Ok(()));
    assert_eq!(s.pay_for_dadi(LaneId(key(b"v1")), LaneBytesSize(100)), Ok(()));
    assert_eq!(s.pending_fees(), 301);
    assert_eq!(s.distribute(), Ok(()));
    assert_eq!(s.pending_fees(), 1);
    assert_eq!(
        s.fee_state(&key(b"v1")),
        Some(ValidatorFeeState {
            balance: 849,
            paid_cumul_size: LaneBytesSize(301)
        })
    );
    assert_eq!(
        s.fee_state(&key(b"v2")),
        Some(ValidatorFeeState {
            balance: 150,
            paid_cumul_size: LaneBytesSize(0)
        })
    );
}

#[test]
fn a_validator_can_owe_fees() {
    let mut s = Staking::new();
    s.deposit_for_fees(key(b"v1"), 10).unwrap();
    s.pay_for_dadi(LaneId(key(b"v1")), LaneBytesSize(25)).unwrap();
    assert_eq!(s.fee_state(&key(b"v1")).unwrap().balance, -15);
    assert_eq!(s.distribute(), Ok(()));
    assert_eq!(s.pending_fees(), 25);
}

#[test]
fn a_block_is_applied_in_order() {
    let mut s = Staking::new();
    let block = Block {
        staking_actions: vec![
            (id("alice"), StakingAction::Stake { amount: 100 }),
            (id("alice"), StakingAction::Delegate { validator: key(b"v1") }),
            (
                id("alice"),
                StakingAction::DepositForFees {
                    holder: key(b"v1"),
                    amount: 7,
                },
            ),
        ],
        new_bounded_validators: vec![key(b"v1")],
    };
    assert_eq!(s.process_block(&block), Ok(()));
    assert!(s.is_bonded(&key(b"v1")));
    assert_eq!(s.total_bond(), 100);
    assert_eq!(s.fee_state(&key(b"v1")).unwrap().balance, 7);
}

#[test]
fn a_block_stops_at_its_first_failure() {
    let mut s = Staking::new();
    let block = Block {
        staking_actions: vec![
            (id("alice"), StakingAction::Stake { amount: 100 }),
            (id("alice"), StakingAction::Stake { amount: 1 }),
            (id("bob"), StakingAction::Stake { amount: 50 }),
        ],
        new_bounded_validators: vec![],
    };
    assert_eq!(
        s.process_block(&block),
        Err("Staking balance is frozen for alice (already staked)".to_string())
    );
    assert_eq!(s.stake(id("bob"), 50), Ok("Staked".to_string()));
    assert_eq!(
        s.stake(id("alice"), 50),
        Err("Staking balance is frozen for alice (already staked)".to_string())
    );

    let bonds = Block {
        staking_actions: vec![(id("bob"), StakingAction::Delegate { validator: key(b"v2") })],
        new_bounded_validators: vec![key(b"v2"), key(b"v1"), key(b"v3")],
    };
    assert_eq!(
        s.process_block(&bonds),
        Err("Validator does not have enough stake".to_string())
    );
    assert!(s.is_bonded(&key(b"v2")));
    assert!(!s.is_bonded(&key(b"v3")));
    let _ = RewardsClaim {
        block_heights: vec![],
    };
}
