use deposit_vault::codec::{deserialize_vault_state, serialize_vault_state};
use deposit_vault::error::DepositError;
use deposit_vault::identity::Identity;
use deposit_vault::ledger::{
    commit_operation, compute_refund_fee, process_deposit, process_initialize_vault,
    process_instruction, process_refund, vault_seed, OpContext, OperationPlan,
    TransferAuthorization,
};
use deposit_vault::state::VaultState;

fn ident(tag: u8) -> Identity {
    Identity::from_bytes(vec![tag; 32]).unwrap()
}

const PROGRAM: u8 = 11;
const VAULT: u8 = 22;
const CREATOR: u8 = 33;
const DEPOSITOR_A: u8 = 44;
const DEPOSITOR_B: u8 = 55;

fn ctx_for(caller: u8, is_signer: bool, stored: Vec<u8>) -> OpContext {
    OpContext {
        program_id: ident(PROGRAM),
        caller: ident(caller),
        caller_is_signer: is_signer,
        vault: ident(VAULT),
        vault_owner: ident(PROGRAM),
        vault_data: stored,
    }
}

fn commit_ok(stored: &mut Vec<u8>, plan: &OperationPlan) {
    commit_operation(stored, plan, Ok(())).unwrap();
}

fn load(stored: &Vec<u8>) -> VaultState {
    deserialize_vault_state(stored).unwrap()
}

#[test]
fn initialize_builds_the_empty_record() {
    let ctx = ctx_for(CREATOR, true, Vec::new());
    let plan = process_initialize_vault(&ctx).unwrap();
    assert!(plan.transfer.is_none());
    let state = load(&plan.new_data);
    assert_eq!(state.listing_creator.as_bytes(), ident(CREATOR).as_bytes());
    assert_eq!(state.total_deposits, 0);
    assert!(state.deposits.is_empty());
}

#[test]
fn initialize_requires_a_signer() {
    let ctx = ctx_for(CREATOR, false, Vec::new());
    assert_eq!(process_initialize_vault(&ctx).unwrap_err(), DepositError::Unauthorized);
}

#[test]
fn deposit_appends_an_entry_and_raises_the_total() {
    let init_plan = process_initialize_vault(&ctx_for(CREATOR, true, Vec::new())).unwrap();
    let ctx = ctx_for(DEPOSITOR_A, true, init_plan.new_data);
    let plan = process_deposit(&ctx, 1000).unwrap();
    let transfer = plan.transfer.as_ref().unwrap();
    assert_eq!(transfer.from.as_bytes(), ident(DEPOSITOR_A).as_bytes());
    assert_eq!(transfer.to.as_bytes(), ident(VAULT).as_bytes());
    assert_eq!(transfer.amount, 1000);
    assert!(matches!(transfer.authorization, TransferAuthorization::CallerSignature));
    let state = load(&plan.new_data);
    assert_eq!(state.total_deposits, 1000);
    assert_eq!(state.deposits.len(), 1);
    assert_eq!(state.deposits[0].depositor.as_bytes(), ident(DEPOSITOR_A).as_bytes());
    assert_eq!(state.deposits[0].amount, 1000);
}

#[test]
fn deposit_checks_signature_owner_and_amount() {
    let init_plan = process_initialize_vault(&ctx_for(CREATOR, true, Vec::new())).unwrap();
    let stored = init_plan.new_data;

    let unsigned = ctx_for(DEPOSITOR_A, false, stored.clone());
    assert_eq!(process_deposit(&unsigned, 1000).unwrap_err(), DepositError::Unauthorized);

    let mut foreign = ctx_for(DEPOSITOR_A, true, stored.clone());
    foreign.vault_owner = ident(99);
    assert_eq!(process_deposit(&foreign, 1000).unwrap_err(), DepositError::IllegalOwner);

    let zero = ctx_for(DEPOSITOR_A, true, stored.clone());
    assert_eq!(process_deposit(&zero, 0).unwrap_err(), DepositError::InvalidAmount);

    let garbage = ctx_for(DEPOSITOR_A, true, vec![1, 2, 3]);
    assert_eq!(process_deposit(&garbage, 1000).unwrap_err(), DepositError::CorruptState);
}

#[test]
fn deposit_rejects_a_total_overflow() {
    // A layout-valid record whose total is already at the maximum.
    let mut state = load(&process_initialize_vault(&ctx_for(CREATOR, true, Vec::new()))
        .unwrap()
        .new_data);
    state.total_deposits = u64::MAX;
    let stored = serialize_vault_state(&state);
    let ctx = ctx_for(DEPOSITOR_A, true, stored);
    assert_eq!(process_deposit(&ctx, 1).unwrap_err(), DepositError::InvalidAmount);
}

#[test]
fn refund_takes_the_first_covering_entry() {
    // Entries [{A, 1000}, {A, 500}]; a refund of 1000 must hit index 0.
    let mut stored = process_initialize_vault(&ctx_for(CREATOR, true, Vec::new()))
        .unwrap()
        .new_data;
    let plan = process_deposit(&ctx_for(DEPOSITOR_A, true, stored.clone()), 1000).unwrap();
    commit_ok(&mut stored, &plan);
    let plan = process_deposit(&ctx_for(DEPOSITOR_A, true, stored.clone()), 500).unwrap();
    commit_ok(&mut stored, &plan);

    let plan = process_refund(&ctx_for(DEPOSITOR_A, true, stored.clone()), 1000).unwrap();
    let transfer = plan.transfer.as_ref().unwrap();
    assert_eq!(transfer.amount, 980);
    let state = load(&plan.new_data);
    assert_eq!(state.deposits.len(), 2);
    assert_eq!(state.deposits[0].amount, 0);
    assert_eq!(state.deposits[1].amount, 500);
    assert_eq!(state.total_deposits, 500);
}

#[test]
fn refund_skips_entries_that_cannot_cover() {
    // Entries [{A, 300}, {A, 500}]; a refund of 400 must hit index 1.
    let mut stored = process_initialize_vault(&ctx_for(CREATOR, true, Vec::new()))
        .unwrap()
        .new_data;
    let plan = process_deposit(&ctx_for(DEPOSITOR_A, true, stored.clone()), 300).unwrap();
    commit_ok(&mut stored, &plan);
    let plan = process_deposit(&ctx_for(DEPOSITOR_A, true, stored.clone()), 500).unwrap();
    commit_ok(&mut stored, &plan);

    let plan = process_refund(&ctx_for(DEPOSITOR_A, true, stored.clone()), 400).unwrap();
    let state = load(&plan.new_data);
    assert_eq!(state.deposits[0].amount, 300);
    assert_eq!(state.deposits[1].amount, 100);
    assert_eq!(state.total_deposits, 400);
}

#[test]
fn refund_uses_the_derived_authority() {
    let mut stored = process_initialize_vault(&ctx_for(CREATOR, true, Vec::new()))
        .unwrap()
        .new_data;
    let plan = process_deposit(&ctx_for(DEPOSITOR_A, true, stored.clone()), 1000).unwrap();
    commit_ok(&mut stored, &plan);

    let plan = process_refund(&ctx_for(DEPOSITOR_A, true, stored), 1000).unwrap();
    let transfer = plan.transfer.as_ref().unwrap();
    assert_eq!(transfer.from.as_bytes(), ident(VAULT).as_bytes());
    assert_eq!(transfer.to.as_bytes(), ident(DEPOSITOR_A).as_bytes());

    // The authority must be the program-derived address for the fixed
    // seed tag, as the host runtime itself would derive it.
    let program_key = solana_program::pubkey::Pubkey::new_from_array([PROGRAM; 32]);
    let (expected, expected_bump) =
        solana_program::pubkey::Pubkey::find_program_address(&[b"vault"], &program_key);
    match &transfer.authorization {
        TransferAuthorization::DerivedAuthority { authority, bump } => {
            assert_eq!(authority.as_bytes().as_slice(), expected.to_bytes().as_slice());
            assert_eq!(*bump, expected_bump);
            assert_ne!(authority.as_bytes().as_slice(), program_key.to_bytes().as_slice());
        }
        TransferAuthorization::CallerSignature => panic!("refund must use the derived authority"),
    }
    assert_eq!(vault_seed(), b"vault".to_vec());
}

#[test]
fn refund_without_a_match_fails_and_changes_nothing() {
    let mut stored = process_initialize_vault(&ctx_for(CREATOR, true, Vec::new()))
        .unwrap()
        .new_data;
    let plan = process_deposit(&ctx_for(DEPOSITOR_A, true, stored.clone()), 1000).unwrap();
    commit_ok(&mut stored, &plan);
    let before = stored.clone();

    // No entries for B at all.
    let r = process_refund(&ctx_for(DEPOSITOR_B, true, stored.clone()), 10);
    assert_eq!(r.unwrap_err(), DepositError::NoMatchingDeposit);
    // An entry for A exists but cannot cover the request.
    let r = process_refund(&ctx_for(DEPOSITOR_A, true, stored.clone()), 1001);
    assert_eq!(r.unwrap_err(), DepositError::NoMatchingDeposit);
    assert_eq!(stored, before);
}

#[test]
fn refund_requires_a_signer_and_a_sane_total() {
    let mut stored = process_initialize_vault(&ctx_for(CREATOR, true, Vec::new()))
        .unwrap()
        .new_data;
    let plan = process_deposit(&ctx_for(DEPOSITOR_A, true, stored.clone()), 1000).unwrap();
    commit_ok(&mut stored, &plan);

    let r = process_refund(&ctx_for(DEPOSITOR_A, false, stored.clone()), 1000);
    assert_eq!(r.unwrap_err(), DepositError::Unauthorized);

    // A record whose total cannot cover the matched entry is corrupt.
    let mut state = load(&stored);
    state.total_deposits = 10;
    let broken = serialize_vault_state(&state);
    let r = process_refund(&ctx_for(DEPOSITOR_A, true, broken), 1000);
    assert_eq!(r.unwrap_err(), DepositError::CorruptState);
}

#[test]
fn fee_is_two_percent_truncated() {
    assert_eq!(compute_refund_fee(1000), 20);
    assert_eq!(compute_refund_fee(1), 0);
    assert_eq!(compute_refund_fee(49), 0);
    assert_eq!(compute_refund_fee(50), 1);
    assert_eq!(compute_refund_fee(0), 0);
    assert_eq!(compute_refund_fee(u64::MAX), ((u64::MAX as u128) * 2 / 100) as u64);
}

#[test]
fn failed_transfer_leaves_the_record_byte_identical() {
    let mut stored = process_initialize_vault(&ctx_for(CREATOR, true, Vec::new()))
        .unwrap()
        .new_data;
    let plan = process_deposit(&ctx_for(DEPOSITOR_A, true, stored.clone()), 1000).unwrap();
    let before = stored.clone();
    let r = commit_operation(&mut stored, &plan, Err(DepositError::InsufficientFunds));
    assert_eq!(r.unwrap_err(), DepositError::InsufficientFunds);
    assert_eq!(stored, before);
}

#[test]
fn end_to_end_scenario() {
    // Initialize(creator = X).
    let init_plan = process_initialize_vault(&ctx_for(CREATOR, true, Vec::new())).unwrap();
    let mut stored = Vec::new();
    commit_ok(&mut stored, &init_plan);
    let state = load(&stored);
    assert_eq!(state.total_deposits, 0);
    assert!(state.deposits.is_empty());

    // Deposit(A, 1000) through the raw instruction path.
    let mut data = vec![1u8];
    data.extend_from_slice(&1000u64.to_le_bytes());
    let plan = process_instruction(&ctx_for(DEPOSITOR_A, true, stored.clone()), &data).unwrap();
    commit_ok(&mut stored, &plan);
    let state = load(&stored);
    assert_eq!(state.total_deposits, 1000);
    assert_eq!(state.deposits.len(), 1);

    // Deposit(A, 500).
    let mut data = vec![1u8];
    data.extend_from_slice(&500u64.to_le_bytes());
    let plan = process_instruction(&ctx_for(DEPOSITOR_A, true, stored.clone()), &data).unwrap();
    commit_ok(&mut stored, &plan);
    let state = load(&stored);
    assert_eq!(state.total_deposits, 1500);
    assert_eq!(state.deposits.len(), 2);
    assert_eq!(state.deposits[0].amount, 1000);
    assert_eq!(state.deposits[1].amount, 500);

    // Refund(A, 1000): 980 transferred, full 1000 deducted.
    let mut data = vec![2u8];
    data.extend_from_slice(&1000u64.to_le_bytes());
    let plan = process_instruction(&ctx_for(DEPOSITOR_A, true, stored.clone()), &data).unwrap();
    assert_eq!(plan.transfer.as_ref().unwrap().amount, 980);
    commit_ok(&mut stored, &plan);
    let state = load(&stored);
    assert_eq!(state.total_deposits, 500);
    assert_eq!(state.deposits.len(), 2);
    assert_eq!(state.deposits[0].amount, 0);
    assert_eq!(state.deposits[1].amount, 500);

    // Refund(B, 10) with no entries for B fails; state unchanged.
    let before = stored.clone();
    let mut data = vec![2u8];
    data.extend_from_slice(&10u64.to_le_bytes());
    let r = process_instruction(&ctx_for(DEPOSITOR_B, true, stored.clone()), &data);
    assert_eq!(r.unwrap_err(), DepositError::NoMatchingDeposit);
    assert_eq!(stored, before);

    // Deposit without a valid signer proof fails; state unchanged.
    let mut data = vec![1u8];
    data.extend_from_slice(&100u64.to_le_bytes());
    let r = process_instruction(&ctx_for(DEPOSITOR_A, false, stored.clone()), &data);
    assert_eq!(r.unwrap_err(), DepositError::Unauthorized);
    assert_eq!(stored, before);

    // An undecodable command is rejected as such.
    let r = process_instruction(&ctx_for(DEPOSITOR_A, true, stored.clone()), &vec![9, 9]);
    assert_eq!(r.unwrap_err(), DepositError::InvalidInstruction);
}
