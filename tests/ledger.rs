use pallet_template::{ensure_signed, Balance, Config, Error, Origin, Pallet};

struct Runtime;

impl Config for Runtime {
    fn ed() -> Balance {
        5
    }
}

fn ledger() -> Pallet<Runtime> {
    Pallet::new()
}

/// The state of the first scenario: 42 minted into account 0.
fn ledger_with_42_in_0() -> Pallet<Runtime> {
    let mut p = ledger();
    assert!(p.mint_unsafe(Origin::Signed(1), 0, 42).is_ok());
    p
}

#[test]
fn mint_works() {
    let mut p = ledger();
    assert_eq!(p.balance(1), None);
    assert!(p.mint_unsafe(Origin::Signed(1), 0, 42).is_ok());
    assert_eq!(p.balance(0), Some(42));
    assert_eq!(p.total_issuance(), 42);
}

#[test]
fn transfer_more_than_balance_fails_and_changes_nothing() {
    let mut p = ledger_with_42_in_0();
    assert_eq!(p.transfer(Origin::Signed(0), 1, 50), Err(Error::InsufficientBalance));
    assert_eq!(p.balance(0), Some(42));
    assert_eq!(p.balance(1), None);
    assert_eq!(p.total_issuance(), 42);
}

#[test]
fn transfer_whole_balance_leaves_zero_entry() {
    let mut p = ledger_with_42_in_0();
    assert_eq!(p.transfer(Origin::Signed(0), 1, 42), Ok(()));
    assert_eq!(p.balance(0), Some(0));
    assert_eq!(p.balance(1), Some(42));
    assert_eq!(p.total_issuance(), 42);
}

#[test]
fn transfer_from_unknown_account_fails() {
    let mut p = ledger_with_42_in_0();
    assert_eq!(p.transfer(Origin::Signed(99), 1, 1), Err(Error::NonExistentAccount));
    assert_eq!(p.balance(1), None);
}

#[test]
fn transfer_from_zero_entry_of_zero_succeeds() {
    let mut p = ledger();
    assert_eq!(p.mint_unsafe(Origin::Signed(3), 7, 0), Ok(()));
    assert_eq!(p.balance(7), Some(0));
    assert_eq!(p.transfer(Origin::Signed(7), 8, 0), Ok(()));
    assert_eq!(p.balance(8), Some(0));
    assert_eq!(p.transfer(Origin::Signed(7), 8, 1), Err(Error::InsufficientBalance));
}

#[test]
fn self_transfer_keeps_balance() {
    let mut p = ledger_with_42_in_0();
    assert_eq!(p.transfer(Origin::Signed(0), 0, 30), Ok(()));
    assert_eq!(p.balance(0), Some(42));
    assert_eq!(p.transfer(Origin::Signed(0), 0, 42), Ok(()));
    assert_eq!(p.balance(0), Some(42));
    assert_eq!(p.total_issuance(), 42);
}

#[test]
fn self_transfer_beyond_balance_fails() {
    let mut p = ledger_with_42_in_0();
    assert_eq!(p.transfer(Origin::Signed(0), 0, 43), Err(Error::InsufficientBalance));
    assert_eq!(p.balance(0), Some(42));
}

#[test]
fn mint_into_existing_adds() {
    let mut p = ledger_with_42_in_0();
    assert_eq!(p.mint_unsafe(Origin::Signed(5), 0, 8), Ok(()));
    assert_eq!(p.balance(0), Some(50));
    assert_eq!(p.total_issuance(), 50);
}

#[test]
fn two_mints_equal_one_mint_of_the_sum() {
    let mut twice = ledger();
    assert_eq!(twice.mint_unsafe(Origin::Signed(1), 4, 10), Ok(()));
    assert_eq!(twice.mint_unsafe(Origin::Signed(1), 4, 32), Ok(()));
    let mut once = ledger();
    assert_eq!(once.mint_unsafe(Origin::Signed(1), 4, 42), Ok(()));
    assert_eq!(twice.balance(4), once.balance(4));
    assert_eq!(twice.balance(4), Some(42));
    assert_eq!(twice.total_issuance(), once.total_issuance());
}

#[test]
fn mint_overflowing_balance_fails_and_changes_nothing() {
    let mut p = ledger();
    assert_eq!(p.mint_unsafe(Origin::Signed(1), 2, Balance::MAX - 1), Ok(()));
    assert_eq!(p.mint_unsafe(Origin::Signed(1), 2, 2), Err(Error::Overflow));
    assert_eq!(p.balance(2), Some(Balance::MAX - 1));
    assert_eq!(p.total_issuance(), Balance::MAX - 1);
    assert_eq!(p.mint_unsafe(Origin::Signed(1), 2, 1), Ok(()));
    assert_eq!(p.balance(2), Some(Balance::MAX));
}

#[test]
fn mint_overflowing_issuance_fails_and_changes_nothing() {
    let mut p = ledger();
    assert_eq!(p.mint_unsafe(Origin::Signed(1), 2, Balance::MAX), Ok(()));
    assert_eq!(p.mint_unsafe(Origin::Signed(1), 3, 1), Err(Error::Overflow));
    assert_eq!(p.balance(3), None);
    assert_eq!(p.balance(2), Some(Balance::MAX));
    assert_eq!(p.total_issuance(), Balance::MAX);
}

#[test]
fn transfer_of_the_largest_balance_succeeds() {
    let mut p = ledger();
    assert_eq!(p.mint_unsafe(Origin::Signed(1), 2, Balance::MAX), Ok(()));
    assert_eq!(p.transfer(Origin::Signed(2), 3, Balance::MAX), Ok(()));
    assert_eq!(p.balance(2), Some(0));
    assert_eq!(p.balance(3), Some(Balance::MAX));
    assert_eq!(p.total_issuance(), Balance::MAX);
}

#[test]
fn unsigned_and_root_origins_are_rejected() {
    let mut p = ledger_with_42_in_0();
    assert_eq!(p.mint_unsafe(Origin::Root, 0, 1), Err(Error::AuthenticationFailed));
    assert_eq!(p.mint_unsafe(Origin::Unsigned, 0, 1), Err(Error::AuthenticationFailed));
    assert_eq!(p.transfer(Origin::Root, 1, 1), Err(Error::AuthenticationFailed));
    assert_eq!(p.transfer(Origin::Unsigned, 1, 1), Err(Error::AuthenticationFailed));
    assert_eq!(p.balance(0), Some(42));
    assert_eq!(p.balance(1), None);
    assert_eq!(p.total_issuance(), 42);
}

#[test]
fn ensure_signed_yields_the_signer() {
    assert_eq!(ensure_signed(Origin::Signed(17)), Ok(17));
    assert_eq!(ensure_signed(Origin::Root), Err(Error::AuthenticationFailed));
    assert_eq!(ensure_signed(Origin::Unsigned), Err(Error::AuthenticationFailed));
}

#[test]
fn transfers_keep_the_sum_equal_to_issuance() {
    let mut p = ledger();
    assert_eq!(p.mint_unsafe(Origin::Signed(9), 1, 100), Ok(()));
    assert_eq!(p.mint_unsafe(Origin::Signed(9), 2, 50), Ok(()));
    assert_eq!(p.transfer(Origin::Signed(1), 2, 30), Ok(()));
    assert_eq!(p.transfer(Origin::Signed(2), 3, 80), Ok(()));
    assert_eq!(p.transfer(Origin::Signed(3), 1, 81), Err(Error::InsufficientBalance));
    assert_eq!(p.transfer(Origin::Signed(3), 1, 5), Ok(()));
    let sum: Balance = (0..5).map(|who| p.balance(who).unwrap_or(0)).sum();
    assert_eq!(sum, 150);
    assert_eq!(p.total_issuance(), 150);
    assert_eq!(p.balance(1), Some(75));
    assert_eq!(p.balance(2), Some(0));
    assert_eq!(p.balance(3), Some(75));
}

#[test]
fn config_exposes_minimum_balance() {
    assert_eq!(Runtime::ed(), 5);
}
