use near_bridge::fee::{compute_fee, FeeBounds, FeeSchedule};
use near_bridge::prover::Proof;
use near_bridge::transfer_to_near_event::TransferToNearInitiatedEvent;
use near_bridge::{BridgeError, NearBridge, ResultType, Role, SettlementAction};

fn alice_near_account() -> String {
    "alice.near".to_string()
}

fn bob_near_account() -> String {
    "bob.near".to_string()
}

fn bridge_account() -> String {
    "bridge.near".to_string()
}

fn prover_near_account() -> String {
    "prover".to_string()
}

fn wnear_near_account() -> String {
    "wrap.near".to_string()
}

fn e_near_eth_address() -> String {
    "68a3637ba6e75c0f66b61a42639c4e9fcd3d4824".to_string()
}

fn alice_eth_address() -> String {
    "25ac31a08eba29067ba4637788d1dbfb893cebf1".to_string()
}

fn invalid_eth_address() -> String {
    "25Ac31A08EBA29067Ba4637788d1DbFB893cEBf".to_string()
}

fn new_bridge() -> NearBridge {
    NearBridge::new(
        prover_near_account(),
        e_near_eth_address(),
        wnear_near_account(),
        alice_near_account(),
    )
    .unwrap()
}

fn sample_proof() -> Proof {
    Proof {
        log_index: 0,
        log_entry_data: vec![],
        receipt_index: 0,
        receipt_data: vec![],
        header_data: vec![],
        proof: vec![],
    }
}

fn create_proof(e_near: String) -> Proof {
    let event_data = TransferToNearInitiatedEvent {
        e_near_address: hex::decode(e_near).unwrap(),
        sender: "00005474e89094c44da98b954eedeac495271d0f".to_string(),
        amount: 1000,
        recipient: "123".to_string(),
    };

    Proof {
        log_index: 0,
        log_entry_data: event_data.to_log_entry_data(),
        receipt_index: 0,
        receipt_data: vec![],
        header_data: vec![],
        proof: vec![],
    }
}

#[test]
fn can_migrate_near_to_eth_with_valid_params() {
    let mut contract = new_bridge();

    // deposit 1 Near
    let deposit_amount = 1_000_000_000_000_000_000_000_000u128;
    let result = contract
        .migrate_to_ethereum(alice_eth_address(), &alice_near_account(), deposit_amount)
        .unwrap();
    // no fee schedule is configured yet, so the full amount is relayed
    let ResultType::MigrateNearToEthereum { amount, recipient } = result;
    assert_eq!(amount, deposit_amount);
    assert_eq!(recipient, hex::decode(alice_eth_address()).unwrap());
}

#[test]
fn migrate_rejects_zero_deposit() {
    let mut contract = new_bridge();
    assert_eq!(
        contract
            .migrate_to_ethereum(alice_eth_address(), &alice_near_account(), 0)
            .unwrap_err(),
        BridgeError::InputValidation
    );
}

#[test]
fn migrate_rejects_invalid_eth_address() {
    let mut contract = new_bridge();
    assert_eq!(
        contract
            .migrate_to_ethereum(invalid_eth_address(), &alice_near_account(), 1)
            .unwrap_err(),
        BridgeError::InputValidation
    );
}

#[test]
fn migrate_gate_closes_when_paused() {
    let mut contract = new_bridge();
    contract
        .pa_pause_feature("migrate_to_ethereum".to_owned(), &alice_near_account())
        .unwrap();

    let deposit_amount = 1_000_000_000_000_000_000_000_000u128;
    assert_eq!(
        contract
            .migrate_to_ethereum(alice_eth_address(), &bob_near_account(), deposit_amount)
            .unwrap_err(),
        BridgeError::GateClosed
    );
    // the DAO bypasses the pause
    assert!(contract
        .migrate_to_ethereum(alice_eth_address(), &alice_near_account(), deposit_amount)
        .is_ok());
}

#[test]
fn unrestricted_role_bypasses_pause() {
    let mut contract = new_bridge();
    contract
        .acl_grant_role(
            Role::UnrestrictedMigrateToEthereum,
            bob_near_account(),
            &alice_near_account(),
        )
        .unwrap();
    contract
        .pa_pause_feature("migrate_to_ethereum".to_owned(), &alice_near_account())
        .unwrap();
    assert!(contract
        .migrate_to_ethereum(alice_eth_address(), &bob_near_account(), 5)
        .is_ok());
}

#[test]
fn pause_requires_a_manager_role() {
    let mut contract = new_bridge();
    assert_eq!(
        contract
            .pa_pause_feature("migrate_to_ethereum".to_owned(), &bob_near_account())
            .unwrap_err(),
        BridgeError::Unauthorized
    );
}

#[test]
fn grant_role_requires_super_admin() {
    let mut contract = new_bridge();
    assert_eq!(
        contract
            .acl_grant_role(Role::DAO, bob_near_account(), &bob_near_account())
            .unwrap_err(),
        BridgeError::Unauthorized
    );
}

#[test]
fn finalise_gate_closes_when_paused() {
    let mut contract = new_bridge();
    contract
        .pa_pause_feature(
            "finalise_eth_to_near_transfer".to_owned(),
            &alice_near_account(),
        )
        .unwrap();
    assert_eq!(
        contract
            .finalise_eth_to_near_transfer(sample_proof(), &bob_near_account(), 0)
            .unwrap_err(),
        BridgeError::GateClosed
    );
}

#[test]
fn finalise_rejects_malformed_log_entry() {
    let contract = new_bridge();
    assert_eq!(
        contract
            .finalise_eth_to_near_transfer(sample_proof(), &alice_near_account(), 0)
            .unwrap_err(),
        BridgeError::CodecError
    );
}

#[test]
fn finalise_rejects_event_from_wrong_contract() {
    // origin mismatch fails before any verification request exists: no
    // request value is ever produced for the verifier
    let contract = new_bridge();
    assert_eq!(
        contract
            .finalise_eth_to_near_transfer(create_proof(alice_eth_address()), &alice_near_account(), 0)
            .unwrap_err(),
        BridgeError::OriginMismatch
    );
}

#[test]
fn finalise_eth_to_near_transfer_works_with_valid_params() {
    let mut contract = new_bridge();

    // Alice deposits 1 Near to migrate
    let deposit_amount = 1_000_000_000_000_000_000_000_000u128;
    contract
        .migrate_to_ethereum(alice_eth_address(), &alice_near_account(), deposit_amount)
        .unwrap();

    // suppose Alice migrates back
    let request = contract
        .finalise_eth_to_near_transfer(create_proof(e_near_eth_address()), &alice_near_account(), 7)
        .unwrap();
    assert_eq!(request.prover_account, prover_near_account());
    assert!(!request.skip_bridge_call);
    assert_eq!(request.recipient, "123");
    assert_eq!(request.amount, 1000);
    assert_eq!(request.attached_deposit, 7);
}

#[test]
fn finish_rejects_foreign_callers() {
    let mut contract = new_bridge();
    let proof = create_proof(e_near_eth_address());
    assert_eq!(
        contract
            .finish_eth_to_near_transfer(
                &alice_near_account(),
                &bridge_account(),
                true,
                "123".to_string(),
                1000,
                proof,
                1000,
                1,
            )
            .unwrap_err(),
        BridgeError::UnauthorizedContinuation
    );
    // nothing was recorded and no fee accrued
    assert!(!contract.is_used_proof(create_proof(e_near_eth_address())));
    assert_eq!(contract.accrued_fees(), 0);
}

#[test]
fn finish_rejects_failed_verification() {
    let mut contract = new_bridge();
    assert_eq!(
        contract
            .finish_eth_to_near_transfer(
                &bridge_account(),
                &bridge_account(),
                false,
                "test.near".to_string(),
                1000,
                create_proof(e_near_eth_address()),
                1000,
                1,
            )
            .unwrap_err(),
        BridgeError::ProofVerificationFailed
    );
    assert!(!contract.is_used_proof(create_proof(e_near_eth_address())));
}

#[test]
fn finish_rejects_insufficient_storage_deposit() {
    let mut contract = new_bridge();
    // a 32-byte identity at 1 unit per byte needs 32 attached; 10 is short
    assert_eq!(
        contract
            .finish_eth_to_near_transfer(
                &bridge_account(),
                &bridge_account(),
                true,
                bob_near_account(),
                10,
                create_proof(e_near_eth_address()),
                10,
                1,
            )
            .unwrap_err(),
        BridgeError::InsufficientFunding
    );
    assert!(!contract.is_used_proof(create_proof(e_near_eth_address())));
}

#[test]
fn finish_rejects_malformed_recipient() {
    let mut contract = new_bridge();
    assert_eq!(
        contract
            .finish_eth_to_near_transfer(
                &bridge_account(),
                &bridge_account(),
                true,
                "not valid!".to_string(),
                1000,
                create_proof(e_near_eth_address()),
                1000,
                1,
            )
            .unwrap_err(),
        BridgeError::InputValidation
    );
}

#[test]
fn finish_releases_value_and_records_proof() {
    let mut contract = new_bridge();
    let action = contract
        .finish_eth_to_near_transfer(
            &bridge_account(),
            &bridge_account(),
            true,
            "test.near".to_string(),
            1000,
            create_proof(e_near_eth_address()),
            1000,
            1,
        )
        .unwrap();
    match action {
        SettlementAction::Transfer { recipient, amount } => {
            assert_eq!(recipient, "test.near");
            assert_eq!(amount, 1000);
        },
        other => panic!("expected a direct transfer, got {:?}", other),
    }
    assert!(contract.is_used_proof(create_proof(e_near_eth_address())));
}

#[test]
fn finish_routes_message_recipients_through_wnear() {
    let mut contract = new_bridge();
    let action = contract
        .finish_eth_to_near_transfer(
            &bridge_account(),
            &bridge_account(),
            true,
            "test.near:swap_msg".to_string(),
            1000,
            create_proof(e_near_eth_address()),
            1000,
            1,
        )
        .unwrap();
    match action {
        SettlementAction::WrapAndForward { wnear_account, recipient, amount, message } => {
            assert_eq!(wnear_account, wnear_near_account());
            assert_eq!(recipient, "test.near");
            assert_eq!(amount, 1000);
            assert_eq!(message, "swap_msg");
        },
        other => panic!("expected wrap-and-forward, got {:?}", other),
    }
}

#[test]
fn finish_needs_wnear_for_message_recipients() {
    let mut contract = new_bridge();
    contract.wnear_account = None;
    assert_eq!(
        contract
            .finish_eth_to_near_transfer(
                &bridge_account(),
                &bridge_account(),
                true,
                "test.near:swap_msg".to_string(),
                1000,
                create_proof(e_near_eth_address()),
                1000,
                1,
            )
            .unwrap_err(),
        BridgeError::WNearNotSet
    );
}

#[test]
fn replaying_a_settled_proof_is_rejected() {
    let mut contract = new_bridge();
    contract
        .finish_eth_to_near_transfer(
            &bridge_account(),
            &bridge_account(),
            true,
            "test.near".to_string(),
            1000,
            create_proof(e_near_eth_address()),
            1000,
            1,
        )
        .unwrap();
    let accrued_after_first = contract.accrued_fees();

    // a second proof differing only in payload fields shares the identity
    let mut second = create_proof(e_near_eth_address());
    second.receipt_data = vec![1, 2, 3];
    second.proof = vec![vec![4, 5]];
    assert_eq!(
        contract
            .finish_eth_to_near_transfer(
                &bridge_account(),
                &bridge_account(),
                true,
                "test.near".to_string(),
                1000,
                second,
                1000,
                1,
            )
            .unwrap_err(),
        BridgeError::DuplicateProof
    );
    assert_eq!(contract.accrued_fees(), accrued_after_first);
}

#[test]
fn fee_bound_clamping() {
    // ten percent of a million clamps down to the upper bound of 200
    let schedule = FeeSchedule {
        percentage: 100_000,
        bounds: FeeBounds { lower_bound: 100, upper_bound: 200 },
    };
    assert_eq!(compute_fee(1_000_000, &schedule), 200);
    // and through the outbound path the net amount reflects it
    let mut contract = new_bridge();
    contract
        .set_fee_schedules(
            FeeSchedule {
                percentage: 100_000,
                bounds: FeeBounds { lower_bound: 100, upper_bound: 200 },
            },
            FeeSchedule::zero(),
            &alice_near_account(),
        )
        .unwrap();
    let ResultType::MigrateNearToEthereum { amount, .. } = contract
        .migrate_to_ethereum(alice_eth_address(), &alice_near_account(), 1_000_000)
        .unwrap();
    assert_eq!(amount, 999_800);
    assert_eq!(contract.accrued_fees(), 200);
}

#[test]
fn fee_outbound_large_amount_clamps_to_upper_bound() {
    let schedule = FeeSchedule {
        percentage: 100_000,
        bounds: FeeBounds { lower_bound: 100, upper_bound: 200 },
    };
    let amount = 1_000_000_000_000_000_000_000_000u128;
    assert_eq!(compute_fee(amount, &schedule), 200);
    let mut contract = new_bridge();
    contract
        .set_fee_schedules(schedule, FeeSchedule::zero(), &alice_near_account())
        .unwrap();
    let ResultType::MigrateNearToEthereum { amount: net, .. } = contract
        .migrate_to_ethereum(alice_eth_address(), &alice_near_account(), amount)
        .unwrap();
    assert_eq!(net, amount - 200);
}

#[test]
fn fee_lower_bound_applies_at_zero_rate() {
    let schedule = FeeSchedule {
        percentage: 0,
        bounds: FeeBounds { lower_bound: 5, upper_bound: 10 },
    };
    assert_eq!(compute_fee(1_000_000, &schedule), 5);
    assert_eq!(compute_fee(0, &schedule), 5);
}

#[test]
fn fee_unclamped_midrange() {
    let schedule = FeeSchedule {
        percentage: 2_500,  // 0.25%
        bounds: FeeBounds { lower_bound: 0, upper_bound: 0 },
    };
    assert_eq!(compute_fee(4_000_000, &schedule), 10_000);
    assert!(compute_fee(100, &schedule) <= compute_fee(200, &schedule));
}

#[test]
fn fee_exceeding_amount_is_rejected() {
    let mut contract = new_bridge();
    contract
        .set_fee_schedules(
            FeeSchedule {
                percentage: 0,
                bounds: FeeBounds { lower_bound: 100, upper_bound: 0 },
            },
            FeeSchedule::zero(),
            &alice_near_account(),
        )
        .unwrap();
    assert_eq!(
        contract
            .migrate_to_ethereum(alice_eth_address(), &alice_near_account(), 50)
            .unwrap_err(),
        BridgeError::FeeExceedsAmount
    );
}

#[test]
fn claimed_fees_leave_the_accrual() {
    let mut contract = new_bridge();
    contract
        .set_fee_schedules(
            FeeSchedule {
                percentage: 100_000,
                bounds: FeeBounds { lower_bound: 0, upper_bound: 0 },
            },
            FeeSchedule::zero(),
            &alice_near_account(),
        )
        .unwrap();
    contract
        .migrate_to_ethereum(alice_eth_address(), &alice_near_account(), 1_000)
        .unwrap();
    assert_eq!(contract.accrued_fees(), 100);
    assert_eq!(
        contract
            .claim_fees(101, &alice_near_account())
            .unwrap_err(),
        BridgeError::InputValidation
    );
    assert_eq!(
        contract
            .claim_fees(100, &bob_near_account())
            .unwrap_err(),
        BridgeError::Unauthorized
    );
    match contract.claim_fees(40, &alice_near_account()).unwrap() {
        SettlementAction::Transfer { recipient, amount } => {
            assert_eq!(recipient, alice_near_account());
            assert_eq!(amount, 40);
        },
        other => panic!("expected a transfer, got {:?}", other),
    }
    assert_eq!(contract.accrued_fees(), 60);
}

#[test]
fn test_set_wnear_account_id() {
    let mut contract = NearBridge::new(
        prover_near_account(),
        e_near_eth_address(),
        "old_wnear_near.near".to_string(),
        alice_near_account(),
    )
    .unwrap();

    contract
        .set_wnear_account_id(wnear_near_account(), &alice_near_account(), 0)
        .unwrap();

    assert_eq!(
        contract.get_wnear_account_id().unwrap(),
        wnear_near_account()
    );
}

#[test]
fn set_wnear_requires_dao() {
    let mut contract = new_bridge();
    assert_eq!(
        contract
            .set_wnear_account_id(wnear_near_account(), &bob_near_account(), 0)
            .unwrap_err(),
        BridgeError::Unauthorized
    );
}

#[test]
fn available_balance_subtracts_deposit_and_storage() {
    let contract = new_bridge();
    assert_eq!(contract.get_avialable_balance(100, 10, 2, 5), 80);
}

#[test]
fn send_to_omni_bridge_forwards_available_balance() {
    let contract = new_bridge();
    assert_eq!(
        contract
            .send_to_omni_bridge("omni.near".to_string(), &bob_near_account(), 100, 10, 2, 5)
            .unwrap_err(),
        BridgeError::Unauthorized
    );
    let action = contract
        .send_to_omni_bridge("omni.near".to_string(), &alice_near_account(), 100, 10, 2, 5)
        .unwrap();
    assert_eq!(action.wnear_account, wnear_near_account());
    assert_eq!(action.omni_bridge, "omni.near");
    assert_eq!(action.amount, 80);
}

#[test]
fn attach_full_access_key_requires_dao() {
    let contract = new_bridge();
    assert_eq!(
        contract
            .attach_full_access_key(vec![1, 2, 3], &bob_near_account())
            .unwrap_err(),
        BridgeError::Unauthorized
    );
    let action = contract
        .attach_full_access_key(vec![1, 2, 3], &alice_near_account())
        .unwrap();
    assert_eq!(action.public_key, vec![1, 2, 3]);
}

#[test]
fn new_rejects_malformed_counterpart_address() {
    assert_eq!(
        NearBridge::new(
            prover_near_account(),
            invalid_eth_address(),
            wnear_near_account(),
            alice_near_account(),
        )
        .unwrap_err(),
        BridgeError::InputValidation
    );
}

#[test]
fn version_names_the_crate_version() {
    let contract = new_bridge();
    assert_eq!(contract.version(), "0.1.0");
}
