use rust_state_machine::balances::{Pallet, TransferError};

#[test]
fn init_balances() {
    let mut p = Pallet::new();

    assert_eq!(p.balance(&"wasi".to_string()), 0);

    p.set_balance(&"wasi".to_string(), 1);

    assert_eq!(p.balance(&"wasi".to_string()), 1);
}

#[test]
fn transfer_balance() {
    let mut p = Pallet::new();
    assert_eq!(
        p.transfer(&"wasi".to_string(), &"alice".to_string(), 1).map_err(|e| e.message()),
        Err("Unsufficient balance")
    );
    assert_eq!(p.balance(&"wasi".to_string()), 0);
    assert_eq!(p.balance(&"alice".to_string()), 0);

    p.set_balance(&"wasi".to_string(), 1);
    assert_eq!(p.transfer(&"wasi".to_string(), &"alice".to_string(), 1), Ok(()));
    assert_eq!(p.balance(&"wasi".to_string()), 0);
    assert_eq!(p.balance(&"alice".to_string()), 1);

    p.set_balance(&"wasi".to_string(), 1);
    p.set_balance(&"alice".to_string(), u128::max_value());
    assert_eq!(
        p.transfer(&"wasi".to_string(), &"alice".to_string(), 1).map_err(|e| e.message()),
        Err("Overflow")
    );
}

#[test]
fn untouched_account_reads_zero() {
    let mut p = Pallet::new();
    p.set_balance(&"alice".to_string(), 5);
    assert_eq!(p.balance(&"bob".to_string()), 0);
    assert_eq!(p.balance(&"".to_string()), 0);
}

#[test]
fn set_balance_overwrites() {
    let mut p = Pallet::new();
    p.set_balance(&"alice".to_string(), 7);
    p.set_balance(&"bob".to_string(), 9);
    p.set_balance(&"alice".to_string(), u128::MAX);
    assert_eq!(p.balance(&"alice".to_string()), u128::MAX);
    assert_eq!(p.balance(&"bob".to_string()), 9);
    p.set_balance(&"alice".to_string(), 0);
    assert_eq!(p.balance(&"alice".to_string()), 0);
}

#[test]
fn transfer_conserves_sum() {
    let mut p = Pallet::new();
    p.set_balance(&"alice".to_string(), 100);
    p.set_balance(&"bob".to_string(), 11);
    p.set_balance(&"carol".to_string(), 3);
    assert_eq!(p.transfer(&"alice".to_string(), &"bob".to_string(), 42), Ok(()));
    assert_eq!(p.balance(&"alice".to_string()), 58);
    assert_eq!(p.balance(&"bob".to_string()), 53);
    assert_eq!(p.balance(&"alice".to_string()) + p.balance(&"bob".to_string()), 111);
    assert_eq!(p.balance(&"carol".to_string()), 3);
}

#[test]
fn transfer_whole_balance() {
    let mut p = Pallet::new();
    p.set_balance(&"alice".to_string(), 10);
    assert_eq!(p.transfer(&"alice".to_string(), &"bob".to_string(), 10), Ok(()));
    assert_eq!(p.balance(&"alice".to_string()), 0);
    assert_eq!(p.balance(&"bob".to_string()), 10);
}

#[test]
fn transfer_zero_amount() {
    let mut p = Pallet::new();
    assert_eq!(p.transfer(&"alice".to_string(), &"bob".to_string(), 0), Ok(()));
    assert_eq!(p.balance(&"alice".to_string()), 0);
    assert_eq!(p.balance(&"bob".to_string()), 0);
}

#[test]
fn insufficient_balance_changes_nothing() {
    let mut p = Pallet::new();
    p.set_balance(&"alice".to_string(), 10);
    p.set_balance(&"bob".to_string(), 4);
    assert_eq!(
        p.transfer(&"alice".to_string(), &"bob".to_string(), 11),
        Err(TransferError::InsufficientBalance)
    );
    assert_eq!(p.balance(&"alice".to_string()), 10);
    assert_eq!(p.balance(&"bob".to_string()), 4);
}

#[test]
fn overflow_changes_nothing() {
    let mut p = Pallet::new();
    p.set_balance(&"alice".to_string(), 10);
    p.set_balance(&"bob".to_string(), u128::MAX - 5);
    assert_eq!(
        p.transfer(&"alice".to_string(), &"bob".to_string(), 6),
        Err(TransferError::Overflow)
    );
    assert_eq!(p.balance(&"alice".to_string()), 10);
    assert_eq!(p.balance(&"bob".to_string()), u128::MAX - 5);
    assert_eq!(p.transfer(&"alice".to_string(), &"bob".to_string(), 5), Ok(()));
    assert_eq!(p.balance(&"alice".to_string()), 5);
    assert_eq!(p.balance(&"bob".to_string()), u128::MAX);
}

#[test]
fn insufficient_checked_before_overflow() {
    let mut p = Pallet::new();
    p.set_balance(&"alice".to_string(), 1);
    p.set_balance(&"bob".to_string(), u128::MAX);
    assert_eq!(
        p.transfer(&"alice".to_string(), &"bob".to_string(), 2),
        Err(TransferError::InsufficientBalance)
    );
}

#[test]
fn self_transfer_keeps_balance() {
    let mut p = Pallet::new();
    p.set_balance(&"alice".to_string(), u128::MAX);
    assert_eq!(p.transfer(&"alice".to_string(), &"alice".to_string(), 7), Ok(()));
    assert_eq!(p.balance(&"alice".to_string()), u128::MAX);
    assert_eq!(
        p.transfer(&"alice".to_string(), &"alice".to_string(), u128::MAX), Ok(())
    );
    assert_eq!(p.balance(&"alice".to_string()), u128::MAX);
}

#[test]
fn self_transfer_needs_funds() {
    let mut p = Pallet::new();
    p.set_balance(&"alice".to_string(), 3);
    assert_eq!(
        p.transfer(&"alice".to_string(), &"alice".to_string(), 4),
        Err(TransferError::InsufficientBalance)
    );
    assert_eq!(p.balance(&"alice".to_string()), 3);
}

#[test]
fn error_messages() {
    assert_eq!(TransferError::InsufficientBalance.message(), "Unsufficient balance");
    assert_eq!(TransferError::Overflow.message(), "Overflow");
}

#[test]
fn balance_entries_list_each_account_once() {
    let mut p = Pallet::new();
    p.set_balance(&"alice".to_string(), 1);
    p.set_balance(&"bob".to_string(), 2);
    p.set_balance(&"alice".to_string(), 3);
    let mut e = p.entries();
    e.sort();
    assert_eq!(e, vec![("alice".to_string(), 3), ("bob".to_string(), 2)]);
}
