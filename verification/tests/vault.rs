use token_vault::derivation::{derive_access_address, derive_vault_address};
use token_vault::state::{TransferError, VaultState};
use token_vault::vault::{Deposit, ErrorCode, InitializeAccess, InitializeVault, Withdraw};

fn key(fill: u8) -> Vec<u8> {
    vec![fill; 32]
}

fn program_id() -> Vec<u8> {
    key(7)
}

fn pool_address(mint: &Vec<u8>) -> Vec<u8> {
    derive_vault_address(&program_id(), mint).unwrap().0
}

fn access_address(mint: &Vec<u8>, owner: &Vec<u8>) -> Vec<u8> {
    derive_access_address(&program_id(), mint, owner).unwrap().0
}

/// A store with a pool for the mint, an access record for (mint, owner1),
/// and a token account for owner1 holding `balance` of the mint.
fn ready_vault(mint: &Vec<u8>, owner1: &Vec<u8>, token_account: &Vec<u8>, balance: u64) -> VaultState {
    let mut vault = VaultState::new(program_id());
    let init_pool = InitializeVault { vault_account: pool_address(mint), mint: mint.clone() };
    assert_eq!(vault.initialize_vault(&init_pool), Ok(()));
    let init_access = InitializeAccess {
        vault_access: access_address(mint, owner1),
        mint: mint.clone(),
        authority: owner1.clone(),
    };
    assert_eq!(vault.initialize_vault_access(&init_access), Ok(()));
    assert!(vault.create_token_account(token_account.clone(), mint.clone(), owner1.clone(), balance));
    vault
}

fn deposit_request(mint: &Vec<u8>, owner: &Vec<u8>, token_account: &Vec<u8>) -> Deposit {
    Deposit {
        vault_account: pool_address(mint),
        vault_access: access_address(mint, owner),
        owner: owner.clone(),
        depositor: owner.clone(),
        depositor_token_account: token_account.clone(),
    }
}

fn withdraw_request(mint: &Vec<u8>, owner: &Vec<u8>, to: &Vec<u8>) -> Withdraw {
    Withdraw {
        vault_account: pool_address(mint),
        vault_access: access_address(mint, owner),
        owner: owner.clone(),
        to: to.clone(),
        authority: owner.clone(),
    }
}

#[test]
fn derivation_is_deterministic_and_not_the_input() {
    let mint = key(1);
    let (first, first_bump) = derive_vault_address(&program_id(), &mint).unwrap();
    let (second, second_bump) = derive_vault_address(&program_id(), &mint).unwrap();
    assert_eq!(first, second);
    assert_eq!(first_bump, second_bump);
    assert_eq!(first.len(), 32);
    assert_ne!(first, mint);
    let other = derive_vault_address(&program_id(), &key(2)).unwrap().0;
    assert_ne!(first, other);
    let access = derive_access_address(&program_id(), &mint, &key(2)).unwrap().0;
    assert_ne!(first, access);
}

#[test]
fn derivation_matches_the_solana_reference() {
    let mint = key(1);
    let owner = key(2);
    let mut id_bytes = [0u8; 32];
    id_bytes.copy_from_slice(&program_id());
    let program = solana_pubkey::Pubkey::new_from_array(id_bytes);

    let seeds: [&[u8]; 2] = [b"vault", mint.as_slice()];
    let (expected, expected_bump) = solana_pubkey::Pubkey::find_program_address(&seeds, &program);
    let (got, got_bump) = derive_vault_address(&program_id(), &mint).unwrap();
    assert_eq!(got, expected.to_bytes().to_vec());
    assert_eq!(got_bump, expected_bump);

    let seeds: [&[u8]; 3] = [b"vault-access", mint.as_slice(), owner.as_slice()];
    let (expected, expected_bump) = solana_pubkey::Pubkey::find_program_address(&seeds, &program);
    let (got, got_bump) = derive_access_address(&program_id(), &mint, &owner).unwrap();
    assert_eq!(got, expected.to_bytes().to_vec());
    assert_eq!(got_bump, expected_bump);
}

#[test]
fn initialize_vault_is_idempotent() {
    let mint = key(1);
    let mut vault = VaultState::new(program_id());
    let req = InitializeVault { vault_account: pool_address(&mint), mint: mint.clone() };
    assert_eq!(vault.initialize_vault(&req), Ok(()));
    assert_eq!(vault.balance_of(&pool_address(&mint)), Some(0));
    assert_eq!(vault.initialize_vault(&req), Ok(()));
    assert_eq!(vault.balance_of(&pool_address(&mint)), Some(0));
}

#[test]
fn initialize_vault_rejects_a_wrong_pool_address() {
    let mint = key(1);
    let mut vault = VaultState::new(program_id());
    let req = InitializeVault { vault_account: key(9), mint: mint.clone() };
    assert_eq!(vault.initialize_vault(&req), Err(ErrorCode::InvalidDerivedAddress));
    assert_eq!(vault.balance_of(&key(9)), None);
}

#[test]
fn initialize_access_is_idempotent_and_starts_at_zero() {
    let mint = key(1);
    let owner = key(2);
    let mut vault = VaultState::new(program_id());
    let req = InitializeAccess {
        vault_access: access_address(&mint, &owner),
        mint: mint.clone(),
        authority: owner.clone(),
    };
    assert_eq!(vault.initialize_vault_access(&req), Ok(()));
    assert_eq!(vault.owed_amount(&access_address(&mint, &owner)), Some(0));
    assert_eq!(vault.initialize_vault_access(&req), Ok(()));
    assert_eq!(vault.owed_amount(&access_address(&mint, &owner)), Some(0));
}

#[test]
fn initialize_access_rejects_a_wrong_record_address() {
    let mint = key(1);
    let owner = key(2);
    let mut vault = VaultState::new(program_id());
    let req = InitializeAccess {
        vault_access: access_address(&mint, &key(3)),
        mint: mint.clone(),
        authority: owner.clone(),
    };
    assert_eq!(vault.initialize_vault_access(&req), Err(ErrorCode::InvalidDerivedAddress));
    assert_eq!(vault.owed_amount(&access_address(&mint, &key(3))), None);
}

#[test]
fn deposit_credits_the_record_and_the_pool() {
    let mint = key(1);
    let owner = key(2);
    let token_account = key(10);
    let mut vault = ready_vault(&mint, &owner, &token_account, 250);
    let req = deposit_request(&mint, &owner, &token_account);
    assert_eq!(vault.deposit(&req, 100), Ok(()));
    assert_eq!(vault.owed_amount(&access_address(&mint, &owner)), Some(100));
    assert_eq!(vault.balance_of(&pool_address(&mint)), Some(100));
    assert_eq!(vault.balance_of(&token_account), Some(150));
    assert_eq!(vault.deposit(&req, 50), Ok(()));
    assert_eq!(vault.owed_amount(&access_address(&mint, &owner)), Some(150));
    assert_eq!(vault.balance_of(&pool_address(&mint)), Some(150));
    assert_eq!(vault.balance_of(&token_account), Some(100));
}

#[test]
fn deposit_rejects_a_wrong_pool_address() {
    let mint = key(1);
    let owner = key(2);
    let token_account = key(10);
    let mut vault = ready_vault(&mint, &owner, &token_account, 250);
    let mut req = deposit_request(&mint, &owner, &token_account);
    req.vault_account = key(9);
    assert_eq!(vault.deposit(&req, 100), Err(ErrorCode::InvalidDerivedAddress));
    assert_eq!(vault.owed_amount(&access_address(&mint, &owner)), Some(0));
    assert_eq!(vault.balance_of(&token_account), Some(250));
}

#[test]
fn deposit_rejects_a_wrong_record_address() {
    let mint = key(1);
    let owner = key(2);
    let token_account = key(10);
    let mut vault = ready_vault(&mint, &owner, &token_account, 250);
    let mut req = deposit_request(&mint, &owner, &token_account);
    req.vault_access = access_address(&key(4), &owner);
    assert_eq!(vault.deposit(&req, 100), Err(ErrorCode::InvalidDerivedAddress));
    assert_eq!(vault.owed_amount(&access_address(&mint, &owner)), Some(0));
}

#[test]
fn deposit_rejects_a_foreign_requester() {
    let mint = key(1);
    let owner1 = key(2);
    let owner2 = key(3);
    let token_account = key(10);
    let intruder_account = key(11);
    let mut vault = ready_vault(&mint, &owner1, &token_account, 250);
    assert!(vault.create_token_account(intruder_account.clone(), mint.clone(), owner2.clone(), 250));
    let mut req = deposit_request(&mint, &owner1, &intruder_account);
    req.depositor = owner2.clone();
    assert_eq!(vault.deposit(&req, 100), Err(ErrorCode::NotAuthorized));
    assert_eq!(vault.owed_amount(&access_address(&mint, &owner1)), Some(0));
    assert_eq!(vault.balance_of(&intruder_account), Some(250));
}

#[test]
fn deposit_rejects_an_overflowing_ledger() {
    let mint = key(1);
    let owner = key(2);
    let token_account = key(10);
    let mut vault = ready_vault(&mint, &owner, &token_account, u64::MAX);
    let req = deposit_request(&mint, &owner, &token_account);
    assert_eq!(vault.deposit(&req, u64::MAX), Ok(()));
    assert_eq!(vault.owed_amount(&access_address(&mint, &owner)), Some(u64::MAX));
    assert_eq!(vault.deposit(&req, 1), Err(ErrorCode::ArithmeticOverflow));
    assert_eq!(vault.owed_amount(&access_address(&mint, &owner)), Some(u64::MAX));
    assert_eq!(vault.balance_of(&token_account), Some(0));
}

#[test]
fn deposit_surfaces_an_insufficient_source_balance() {
    let mint = key(1);
    let owner = key(2);
    let token_account = key(10);
    let mut vault = ready_vault(&mint, &owner, &token_account, 50);
    let req = deposit_request(&mint, &owner, &token_account);
    assert_eq!(
        vault.deposit(&req, 100),
        Err(ErrorCode::Transfer(TransferError::InsufficientSourceBalance)),
    );
    assert_eq!(vault.owed_amount(&access_address(&mint, &owner)), Some(0));
    assert_eq!(vault.balance_of(&token_account), Some(50));
    assert_eq!(vault.balance_of(&pool_address(&mint)), Some(0));
}

#[test]
fn vault_lifecycle_deposits_and_withdraws() {
    let mint = key(1);
    let owner1 = key(2);
    let token_account = key(10);
    let mut vault = ready_vault(&mint, &owner1, &token_account, 100);

    let dep = deposit_request(&mint, &owner1, &token_account);
    assert_eq!(vault.deposit(&dep, 100), Ok(()));
    assert_eq!(vault.owed_amount(&access_address(&mint, &owner1)), Some(100));
    assert_eq!(vault.balance_of(&pool_address(&mint)), Some(100));

    let wd = withdraw_request(&mint, &owner1, &token_account);
    assert_eq!(vault.withdraw(&wd, 40), Ok(()));
    assert_eq!(vault.owed_amount(&access_address(&mint, &owner1)), Some(60));
    assert_eq!(vault.balance_of(&pool_address(&mint)), Some(60));
    assert_eq!(vault.balance_of(&token_account), Some(40));

    assert_eq!(vault.withdraw(&wd, 100), Err(ErrorCode::InsufficientLedgerBalance));
    assert_eq!(vault.owed_amount(&access_address(&mint, &owner1)), Some(60));
    assert_eq!(vault.balance_of(&pool_address(&mint)), Some(60));
    assert_eq!(vault.balance_of(&token_account), Some(40));
}

#[test]
fn withdraw_rejects_a_foreign_record() {
    let mint = key(1);
    let owner1 = key(2);
    let owner2 = key(3);
    let token_account = key(10);
    let intruder_account = key(11);
    let mut vault = ready_vault(&mint, &owner1, &token_account, 100);
    assert!(vault.create_token_account(intruder_account.clone(), mint.clone(), owner2.clone(), 0));
    let dep = deposit_request(&mint, &owner1, &token_account);
    assert_eq!(vault.deposit(&dep, 100), Ok(()));

    let req = Withdraw {
        vault_account: pool_address(&mint),
        vault_access: access_address(&mint, &owner1),
        owner: owner1.clone(),
        to: intruder_account.clone(),
        authority: owner2.clone(),
    };
    assert_eq!(vault.withdraw(&req, 40), Err(ErrorCode::NotAuthorized));
    assert_eq!(vault.owed_amount(&access_address(&mint, &owner1)), Some(100));
    assert_eq!(vault.balance_of(&pool_address(&mint)), Some(100));
    assert_eq!(vault.balance_of(&intruder_account), Some(0));
}

#[test]
fn withdraw_rejects_a_destination_the_requester_does_not_own() {
    let mint = key(1);
    let owner1 = key(2);
    let owner2 = key(3);
    let token_account = key(10);
    let foreign_account = key(11);
    let mut vault = ready_vault(&mint, &owner1, &token_account, 100);
    assert!(vault.create_token_account(foreign_account.clone(), mint.clone(), owner2.clone(), 0));
    let dep = deposit_request(&mint, &owner1, &token_account);
    assert_eq!(vault.deposit(&dep, 100), Ok(()));

    let mut req = withdraw_request(&mint, &owner1, &foreign_account);
    req.authority = owner1.clone();
    assert_eq!(vault.withdraw(&req, 40), Err(ErrorCode::NotAuthorized));
    assert_eq!(vault.owed_amount(&access_address(&mint, &owner1)), Some(100));
}

#[test]
fn withdraw_rejects_a_wrong_pool_address() {
    let mint = key(1);
    let owner = key(2);
    let token_account = key(10);
    let mut vault = ready_vault(&mint, &owner, &token_account, 100);
    let dep = deposit_request(&mint, &owner, &token_account);
    assert_eq!(vault.deposit(&dep, 100), Ok(()));

    let mut req = withdraw_request(&mint, &owner, &token_account);
    req.vault_account = key(9);
    assert_eq!(vault.withdraw(&req, 40), Err(ErrorCode::InvalidDerivedAddress));
    assert_eq!(vault.owed_amount(&access_address(&mint, &owner)), Some(100));
    assert_eq!(vault.balance_of(&pool_address(&mint)), Some(100));
}

#[test]
fn withdraw_rejects_a_wrong_record_address() {
    let mint = key(1);
    let owner = key(2);
    let token_account = key(10);
    let mut vault = ready_vault(&mint, &owner, &token_account, 100);
    let dep = deposit_request(&mint, &owner, &token_account);
    assert_eq!(vault.deposit(&dep, 100), Ok(()));

    let mut req = withdraw_request(&mint, &owner, &token_account);
    req.vault_access = access_address(&mint, &key(3));
    assert_eq!(vault.withdraw(&req, 40), Err(ErrorCode::InvalidDerivedAddress));
    assert_eq!(vault.owed_amount(&access_address(&mint, &owner)), Some(100));
}

#[test]
fn create_token_account_refuses_a_taken_address() {
    let mint = key(1);
    let owner = key(2);
    let token_account = key(10);
    let mut vault = VaultState::new(program_id());
    assert!(vault.create_token_account(token_account.clone(), mint.clone(), owner.clone(), 75));
    assert!(!vault.create_token_account(token_account.clone(), mint.clone(), owner.clone(), 10));
    assert_eq!(vault.balance_of(&token_account), Some(75));
}
