use krwallet::amount::Amount;
use krwallet::wallet::Wallet;
use krwallet::{ProcessorError, Transaction, TransactionType};

fn make_tx(id: u32, client: u16, tx_type: TransactionType, amount: Option<Amount>) -> Transaction {
    Transaction {
        id,
        client,
        tx_type,
        amount,
        disputed: false,
    }
}

#[test]
fn deposit_increases_balance_and_records_tx() {
    let mut wallet = Wallet::default();
    let tx = make_tx(1, 100, TransactionType::Deposit, Some(Amount::whole(50)));

    wallet.process_transaction(tx.clone()).unwrap();

    assert_eq!(wallet.available, Amount::whole(50));
    assert!(wallet.transactions.contains_key(&1));
}

#[test]
fn duplicate_deposit_returns_error() {
    let mut wallet = Wallet::default();
    let tx = make_tx(1, 100, TransactionType::Deposit, Some(Amount::whole(10)));

    wallet.process_transaction(tx.clone()).unwrap();
    let err = wallet.process_transaction(tx.clone()).unwrap_err();

    match err {
        ProcessorError::DuplicateTransaction { tx_id } => assert_eq!(tx_id, 1),
        _ => panic!("Expected DuplicateTransaction error"),
    }
}

#[test]
fn withdrawal_reduces_balance() {
    let mut wallet = Wallet::default();
    wallet.process_transaction(make_tx(1, 100, TransactionType::Deposit, Some(Amount::whole(100)))).unwrap();
    wallet.process_transaction(make_tx(2, 100, TransactionType::Withdrawal, Some(Amount::whole(30)))).unwrap();

    assert_eq!(wallet.available, Amount::whole(70));
}

#[test]
fn withdrawal_insufficient_funds_fails() {
    let mut wallet = Wallet::default();
    wallet.process_transaction(make_tx(1, 100, TransactionType::Deposit, Some(Amount::whole(20)))).unwrap();

    let err = wallet
        .process_transaction(make_tx(2, 100, TransactionType::Withdrawal, Some(Amount::whole(50))))
        .unwrap_err();

    match err {
        ProcessorError::InsufficientFunds { available, required } => {
            assert_eq!(available, Amount::whole(20));
            assert_eq!(required, Amount::whole(50));
        }
        _ => panic!("Expected InsufficientFunds error"),
    }
}

#[test]
fn dispute_moves_funds_to_held() {
    let mut wallet = Wallet::default();
    let deposit = make_tx(1, 100, TransactionType::Deposit, Some(Amount::whole(100)));
    wallet.process_transaction(deposit).unwrap();
    wallet.process_transaction(make_tx(1, 100, TransactionType::Dispute, None)).unwrap();

    assert_eq!(wallet.available, Amount::whole(0));
    assert_eq!(wallet.held, Amount::whole(100));
}

#[test]
fn resolve_moves_back_from_held() {
    let mut wallet = Wallet::default();
    wallet.process_transaction(make_tx(1, 100, TransactionType::Deposit, Some(Amount::whole(100)))).unwrap();
    wallet.process_transaction(make_tx(2, 100, TransactionType::Deposit, Some(Amount::whole(100)))).unwrap();
    wallet.process_transaction(make_tx(2, 100, TransactionType::Dispute, None)).unwrap();
    wallet.process_transaction(make_tx(2, 100, TransactionType::Resolve, None)).unwrap();

    assert_eq!(wallet.available, Amount::whole(200));
    assert_eq!(wallet.held, Amount::whole(0));
}

#[test]
fn chargeback_locks_account_and_removes_funds() {
    let mut wallet = Wallet::default();
    wallet.process_transaction(make_tx(1, 100, TransactionType::Deposit, Some(Amount::whole(200)))).unwrap();
    wallet.process_transaction(make_tx(1, 100, TransactionType::Dispute, None)).unwrap();
    wallet.process_transaction(make_tx(1, 100, TransactionType::Chargeback, None)).unwrap();

    assert!(wallet.locked);
    assert_eq!(wallet.available, Amount::whole(0));
    assert_eq!(wallet.held, Amount::whole(0));
}

#[test]
fn locked_account_rejects_new_deposits_and_withdrawals() {
    let mut wallet = Wallet::default();
    wallet.process_transaction(make_tx(1, 100, TransactionType::Deposit, Some(Amount::whole(100)))).unwrap();
    wallet.process_transaction(make_tx(1, 100, TransactionType::Dispute, None)).unwrap();
    wallet.process_transaction(make_tx(1, 100, TransactionType::Chargeback, None)).unwrap();

    let deposit_err = wallet
        .process_transaction(make_tx(1, 100, TransactionType::Deposit, Some(Amount::whole(50))))
        .unwrap_err();
    assert!(matches!(deposit_err, ProcessorError::AccountLocked { .. }));

    let withdrawal_err = wallet
        .process_transaction(make_tx(5, 100, TransactionType::Withdrawal, Some(Amount::whole(10))))
        .unwrap_err();
    assert!(matches!(withdrawal_err, ProcessorError::AccountLocked { .. }));
}

#[test]
fn dispute_of_withdrawal_only_raises_held() {
    let mut wallet = Wallet::default();
    wallet.process_transaction(make_tx(1, 7, TransactionType::Deposit, Some(Amount::whole(100)))).unwrap();
    wallet.process_transaction(make_tx(2, 7, TransactionType::Withdrawal, Some(Amount::whole(40)))).unwrap();
    wallet.process_transaction(make_tx(2, 7, TransactionType::Dispute, None)).unwrap();
    assert_eq!(wallet.available, Amount::whole(60));
    assert_eq!(wallet.held, Amount::whole(40));
    assert!(wallet.transactions.get(&2).unwrap().disputed);
}

#[test]
fn chargeback_of_withdrawal_restores_available() {
    let mut wallet = Wallet::default();
    wallet.process_transaction(make_tx(1, 7, TransactionType::Deposit, Some(Amount::whole(100)))).unwrap();
    wallet.process_transaction(make_tx(2, 7, TransactionType::Withdrawal, Some(Amount::whole(40)))).unwrap();
    wallet.process_transaction(make_tx(2, 7, TransactionType::Dispute, None)).unwrap();
    wallet.process_transaction(make_tx(2, 7, TransactionType::Chargeback, None)).unwrap();
    assert!(wallet.locked);
    assert_eq!(wallet.available, Amount::whole(100));
    assert_eq!(wallet.held, Amount::whole(0));
    assert!(!wallet.transactions.get(&2).unwrap().disputed);
}

#[test]
fn dispute_may_leave_available_negative() {
    let mut wallet = Wallet::default();
    wallet.process_transaction(make_tx(1, 7, TransactionType::Deposit, Some(Amount::whole(100)))).unwrap();
    wallet.process_transaction(make_tx(2, 7, TransactionType::Withdrawal, Some(Amount::whole(80)))).unwrap();
    wallet.process_transaction(make_tx(1, 7, TransactionType::Dispute, None)).unwrap();
    assert_eq!(wallet.available, Amount::whole(-80));
    assert_eq!(wallet.held, Amount::whole(100));
}

#[test]
fn dispute_of_unknown_transaction_is_not_found() {
    let mut wallet = Wallet::default();
    let err = wallet.process_transaction(make_tx(9, 7, TransactionType::Dispute, None)).unwrap_err();
    assert!(matches!(err, ProcessorError::TransactionNotFound { tx_id: 9 }));
    let err = wallet.process_transaction(make_tx(9, 7, TransactionType::Chargeback, None)).unwrap_err();
    assert!(matches!(err, ProcessorError::TransactionNotFound { tx_id: 9 }));
}

#[test]
fn resolve_and_chargeback_need_a_dispute() {
    let mut wallet = Wallet::default();
    wallet.process_transaction(make_tx(1, 7, TransactionType::Deposit, Some(Amount::whole(10)))).unwrap();
    let err = wallet.process_transaction(make_tx(1, 7, TransactionType::Resolve, None)).unwrap_err();
    assert!(matches!(err, ProcessorError::InvalidDisputeState));
    let err = wallet.process_transaction(make_tx(1, 7, TransactionType::Chargeback, None)).unwrap_err();
    assert!(matches!(err, ProcessorError::InvalidDisputeState));
    assert_eq!(wallet.available, Amount::whole(10));
    assert!(!wallet.locked);
}

#[test]
fn missing_or_negative_amount_is_invalid() {
    let mut wallet = Wallet::default();
    let err = wallet.process_transaction(make_tx(1, 7, TransactionType::Deposit, None)).unwrap_err();
    assert!(matches!(err, ProcessorError::InvalidAmount { tx_id: 1 }));
    let err = wallet
        .process_transaction(make_tx(2, 7, TransactionType::Withdrawal, Some(Amount::from_units(-1))))
        .unwrap_err();
    assert!(matches!(err, ProcessorError::InvalidAmount { tx_id: 2 }));
    assert_eq!(wallet.available, Amount::zero());
}

#[test]
fn balance_overflow_is_refused() {
    let mut wallet = Wallet::default();
    let big = Amount::from_units(krwallet::amount::MAX_UNITS);
    wallet.process_transaction(make_tx(1, 7, TransactionType::Deposit, Some(big))).unwrap();
    let err = wallet
        .process_transaction(make_tx(2, 7, TransactionType::Deposit, Some(Amount::from_units(1))))
        .unwrap_err();
    assert!(matches!(err, ProcessorError::BalanceOverflow { tx_id: 2 }));
    assert_eq!(wallet.available, big);
    assert!(!wallet.transactions.contains_key(&2));
}

#[test]
fn deposits_and_withdrawals_sum_up() {
    let mut wallet = Wallet::default();
    wallet.process_transaction(make_tx(1, 7, TransactionType::Deposit, Some(Amount::from_units(12345)))).unwrap();
    wallet.process_transaction(make_tx(2, 7, TransactionType::Deposit, Some(Amount::from_units(20000)))).unwrap();
    wallet.process_transaction(make_tx(3, 7, TransactionType::Withdrawal, Some(Amount::from_units(2345)))).unwrap();
    assert!(wallet
        .process_transaction(make_tx(4, 7, TransactionType::Withdrawal, Some(Amount::whole(1000))))
        .is_err());
    assert_eq!(wallet.available, Amount::from_units(30000));
    assert_eq!(wallet.held, Amount::zero());
}

#[test]
fn locked_wallet_checks_the_lock_before_the_amount() {
    let mut wallet = Wallet::default();
    wallet.process_transaction(make_tx(1, 7, TransactionType::Deposit, Some(Amount::whole(10)))).unwrap();
    wallet.process_transaction(make_tx(1, 7, TransactionType::Dispute, None)).unwrap();
    wallet.process_transaction(make_tx(1, 7, TransactionType::Chargeback, None)).unwrap();
    let err = wallet.process_transaction(make_tx(2, 7, TransactionType::Deposit, None)).unwrap_err();
    assert!(matches!(err, ProcessorError::AccountLocked { client: 7 }));
    let err = wallet
        .process_transaction(make_tx(3, 7, TransactionType::Withdrawal, Some(Amount::from_units(-5))))
        .unwrap_err();
    assert!(matches!(err, ProcessorError::AccountLocked { client: 7 }));
    assert_eq!(wallet.available, Amount::zero());
    assert_eq!(wallet.held, Amount::zero());
    assert!(!wallet.transactions.contains_key(&2));
}

#[test]
fn no_resolve_after_chargeback() {
    let mut wallet = Wallet::default();
    wallet.process_transaction(make_tx(1, 7, TransactionType::Deposit, Some(Amount::whole(10)))).unwrap();
    wallet.process_transaction(make_tx(1, 7, TransactionType::Dispute, None)).unwrap();
    wallet.process_transaction(make_tx(1, 7, TransactionType::Chargeback, None)).unwrap();
    let err = wallet.process_transaction(make_tx(1, 7, TransactionType::Resolve, None)).unwrap_err();
    assert!(matches!(err, ProcessorError::InvalidDisputeState));
    assert_eq!(wallet.available, Amount::zero());
    assert_eq!(wallet.held, Amount::zero());
}
