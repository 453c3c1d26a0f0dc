use solana_program::pubkey::Pubkey;
use token_whitelist::error::{ProgramError, TokenWhitelistError};
use token_whitelist::instruction::TokenWhitelistInstruction;
use token_whitelist::processor::{Account, Processor};
use token_whitelist::state::{TokenWhitelist, ACCOUNT_STATE_SPACE};

const PROGRAM: [u8; 32] = [9; 32];
const A: [u8; 32] = [1; 32];
const P: [u8; 32] = [2; 32];
const OTHER: [u8; 32] = [3; 32];
const RENT_MIN: u64 = 1_000;
const REGISTRY_BALANCE: u64 = 5_000;

fn account(key: [u8; 32], is_signer: bool, lamports: u64, len: usize) -> Account {
    Account { key, is_signer, lamports, data: vec![0; len] }
}

fn id(key: [u8; 32]) -> String {
    Pubkey::new_from_array(key).to_string()
}

fn run(accounts: &mut Vec<Account>, i: TokenWhitelistInstruction) -> Result<(), ProgramError> {
    Processor::process(&PROGRAM, accounts, &i.pack(), RENT_MIN)
}

fn fresh(caller: [u8; 32], third: [u8; 32]) -> Vec<Account> {
    vec![
        account(caller, true, 10, 0),
        account([5; 32], false, REGISTRY_BALANCE, ACCOUNT_STATE_SPACE),
        account(third, false, 0, 0),
    ]
}

fn init(accounts: &mut Vec<Account>, capacity: u64) {
    run(accounts, TokenWhitelistInstruction::InitTokenWhitelist { max_whitelist_size: capacity })
        .unwrap();
}

fn add(accounts: &mut Vec<Account>, amount: u64) -> Result<(), ProgramError> {
    run(accounts, TokenWhitelistInstruction::AddToWhitelist { allocation_amount: amount })
}

fn decoded(accounts: &[Account]) -> TokenWhitelist {
    TokenWhitelist::unpack_from_slice(&accounts[1].data).unwrap()
}

fn custom(e: TokenWhitelistError) -> Result<(), ProgramError> {
    Err(ProgramError::Custom(e))
}

#[test]
fn init_then_add_records_entry() {
    let mut accounts = fresh(A, P);
    init(&mut accounts, 100);
    add(&mut accounts, 250).unwrap();
    let st = decoded(&accounts);
    assert!(st.is_initialized);
    assert_eq!(st.init_pubkey, A);
    assert_eq!(st.max_whitelist_size, 100);
    assert_eq!(st.whitelist_map.len(), 1);
    assert_eq!(st.get(&id(P)), Some(250));
}

#[test]
fn remove_after_add_empties_map() {
    let mut accounts = fresh(A, P);
    init(&mut accounts, 100);
    add(&mut accounts, 250).unwrap();
    run(&mut accounts, TokenWhitelistInstruction::RemoveFromWhitelist {}).unwrap();
    let st = decoded(&accounts);
    assert_eq!(st.whitelist_map.len(), 0);
    assert!(!st.contains_key(&id(P)));
    // removing an absent participant is no error
    run(&mut accounts, TokenWhitelistInstruction::RemoveFromWhitelist {}).unwrap();
}

#[test]
fn close_moves_balance_and_zeroes_record() {
    let mut accounts = fresh(A, OTHER);
    accounts[2].lamports = 77;
    init(&mut accounts, 100);
    run(&mut accounts, TokenWhitelistInstruction::CloseWhitelistAccount {}).unwrap();
    assert_eq!(accounts[2].lamports, 77 + REGISTRY_BALANCE);
    assert_eq!(accounts[1].lamports, 0);
    assert_eq!(accounts[1].data.len(), ACCOUNT_STATE_SPACE);
    assert!(accounts[1].data.iter().all(|b| *b == 0));
    // the record is reusable
    let st = decoded(&accounts);
    assert!(!st.is_initialized);
}

#[test]
fn non_authority_is_refused_and_record_unchanged() {
    let mut accounts = fresh(A, P);
    init(&mut accounts, 100);
    add(&mut accounts, 250).unwrap();
    let before = accounts[1].data.clone();
    accounts[0].key = OTHER;
    assert_eq!(add(&mut accounts, 1), custom(TokenWhitelistError::TokenWhitelistNotOwner));
    assert_eq!(accounts[1].data, before);
    assert_eq!(
        run(&mut accounts, TokenWhitelistInstruction::RemoveFromWhitelist {}),
        custom(TokenWhitelistError::TokenWhitelistNotOwner)
    );
    assert_eq!(accounts[1].data, before);
    assert_eq!(
        run(&mut accounts, TokenWhitelistInstruction::CloseWhitelistAccount {}),
        custom(TokenWhitelistError::InvalidAuthority)
    );
    assert_eq!(accounts[1].data, before);
    assert_eq!(accounts[1].lamports, REGISTRY_BALANCE);
}

#[test]
fn zero_allocation_by_participant() {
    let mut accounts = fresh(A, P);
    init(&mut accounts, 100);
    add(&mut accounts, 250).unwrap();
    accounts[2].key = OTHER;
    add(&mut accounts, 40).unwrap();
    // P zeroes itself
    accounts[0].key = P;
    accounts[2].key = P;
    run(&mut accounts, TokenWhitelistInstruction::SetAllocationToZero {}).unwrap();
    let st = decoded(&accounts);
    assert_eq!(st.get(&id(P)), Some(0));
    assert_eq!(st.get(&id(OTHER)), Some(40));
    assert_eq!(st.whitelist_map.len(), 2);
}

#[test]
fn zero_allocation_of_absent_participant_fails() {
    let mut accounts = fresh(A, P);
    init(&mut accounts, 100);
    accounts[0].key = P;
    let before = accounts[1].data.clone();
    assert_eq!(
        run(&mut accounts, TokenWhitelistInstruction::SetAllocationToZero {}),
        Err(ProgramError::InvalidAccountData)
    );
    assert_eq!(accounts[1].data, before);
}

#[test]
fn zero_allocation_of_someone_else_fails() {
    let mut accounts = fresh(A, P);
    init(&mut accounts, 100);
    add(&mut accounts, 250).unwrap();
    assert_eq!(
        run(&mut accounts, TokenWhitelistInstruction::SetAllocationToZero {}),
        custom(TokenWhitelistError::NotOwner)
    );
}

#[test]
fn capacity_bounds_new_entries() {
    let mut accounts = fresh(A, P);
    init(&mut accounts, 1);
    add(&mut accounts, 1).unwrap();
    // updating an existing entry at capacity is allowed
    add(&mut accounts, 2).unwrap();
    accounts[2].key = OTHER;
    let before = accounts[1].data.clone();
    assert_eq!(add(&mut accounts, 3), custom(TokenWhitelistError::TokenWhitelistSizeExceeds));
    assert_eq!(accounts[1].data, before);
    assert_eq!(decoded(&accounts).get(&id(P)), Some(2));
}

#[test]
fn init_failures() {
    let mut accounts = fresh(A, P);
    accounts[1].lamports = RENT_MIN - 1;
    assert_eq!(
        run(&mut accounts, TokenWhitelistInstruction::InitTokenWhitelist { max_whitelist_size: 1 }),
        custom(TokenWhitelistError::NotRentExempt)
    );
    let mut accounts = fresh(A, P);
    accounts[0].is_signer = false;
    assert_eq!(
        run(&mut accounts, TokenWhitelistInstruction::InitTokenWhitelist { max_whitelist_size: 1 }),
        Err(ProgramError::MissingRequiredSignature)
    );
    let mut accounts = fresh(A, P);
    init(&mut accounts, 1);
    assert_eq!(
        run(&mut accounts, TokenWhitelistInstruction::InitTokenWhitelist { max_whitelist_size: 1 }),
        Err(ProgramError::AccountAlreadyInitialized)
    );
    let mut accounts = fresh(A, P);
    accounts.truncate(2);
    assert_eq!(
        run(&mut accounts, TokenWhitelistInstruction::InitTokenWhitelist { max_whitelist_size: 1 }),
        Err(ProgramError::NotEnoughAccountKeys)
    );
}

#[test]
fn operations_before_init_fail() {
    let mut accounts = fresh(A, P);
    assert_eq!(add(&mut accounts, 1), custom(TokenWhitelistError::TokenWhitelistNotInit));
    assert_eq!(
        run(&mut accounts, TokenWhitelistInstruction::CloseWhitelistAccount {}),
        custom(TokenWhitelistError::TokenWhitelistNotInit)
    );
}

#[test]
fn close_failures() {
    let mut accounts = fresh(A, OTHER);
    init(&mut accounts, 1);
    accounts[0].is_signer = false;
    assert_eq!(
        run(&mut accounts, TokenWhitelistInstruction::CloseWhitelistAccount {}),
        Err(ProgramError::MissingRequiredSignature)
    );
    accounts[0].is_signer = true;
    accounts[2].lamports = u64::MAX - 1;
    let before = accounts[1].data.clone();
    assert_eq!(
        run(&mut accounts, TokenWhitelistInstruction::CloseWhitelistAccount {}),
        custom(TokenWhitelistError::Overflow)
    );
    assert_eq!(accounts[2].lamports, u64::MAX - 1);
    assert_eq!(accounts[1].lamports, REGISTRY_BALANCE);
    assert_eq!(accounts[1].data, before);
}

#[test]
fn invalid_instruction_data_is_refused() {
    let mut accounts = fresh(A, P);
    assert_eq!(
        Processor::process(&PROGRAM, &mut accounts, &[9], RENT_MIN),
        custom(TokenWhitelistError::InvalidInstruction)
    );
    assert_eq!(
        Processor::process(&PROGRAM, &mut accounts, &[1, 0, 0], RENT_MIN),
        custom(TokenWhitelistError::InvalidInstruction)
    );
}

#[test]
fn missing_participant_record_is_refused() {
    let mut accounts = fresh(A, P);
    init(&mut accounts, 1);
    accounts.truncate(2);
    assert_eq!(add(&mut accounts, 1), Err(ProgramError::NotEnoughAccountKeys));
}
