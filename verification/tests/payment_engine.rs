use toy_payments_engine::{Amount, PaymentEngine, PaymentError, Transaction, TransactionType};

#[test]
fn payment_engine_process_deposit() {
    let mut payment_engine = PaymentEngine::new();

    let transaction =
        Transaction::new(TransactionType::Deposit, 1, 1, Some(Amount::new(10, 1)), false).unwrap();

    payment_engine.process_transaction(&transaction).unwrap();

    let expected_accounts = "client,available,held,total,locked
1,1.0000,0.0000,1.0000,false
";

    let actual_accounts = payment_engine.serialize_accounts().unwrap();
    assert_eq!(actual_accounts, expected_accounts);
}

#[test]
fn process_duplicate_deposit() {
    let mut payment_engine = PaymentEngine::new();

    let transaction =
        Transaction::new(TransactionType::Deposit, 1, 1, Some(Amount::new(10, 1)), false).unwrap();

    payment_engine.process_transaction(&transaction).unwrap();
    let res = payment_engine.process_transaction(&transaction);

    assert!(res.is_err());
    assert_eq!(
        res.unwrap_err(),
        PaymentError::TransactionIDNotUnique(1, transaction.clone())
    );
}

#[test]
fn process_successful_withdrawal() {
    let mut payment_engine = PaymentEngine::new();

    let deposit_transaction =
        Transaction::new(TransactionType::Deposit, 1, 1, Some(Amount::new(10, 1)), false).unwrap();

    let withdrawal_transaction =
        Transaction::new(TransactionType::Withdrawal, 1, 2, Some(Amount::new(10, 1)), false).unwrap();

    payment_engine
        .process_transaction(&deposit_transaction)
        .unwrap();
    payment_engine
        .process_transaction(&withdrawal_transaction)
        .unwrap();

    let expected_accounts = "client,available,held,total,locked
1,0.0000,0.0000,0.0000,false
";

    let actual_accounts = payment_engine.serialize_accounts().unwrap();
    assert_eq!(actual_accounts, expected_accounts);
}

#[test]
fn payment_engine_process_failed_withdrawal() {
    let mut payment_engine = PaymentEngine::new();

    let deposit_transaction =
        Transaction::new(TransactionType::Deposit, 1, 1, Some(Amount::new(10, 1)), false).unwrap();
    let withdrawal_transaction =
        Transaction::new(TransactionType::Withdrawal, 1, 2, Some(Amount::new(20, 1)), false).unwrap();

    payment_engine
        .process_transaction(&deposit_transaction)
        .unwrap();
    let res = payment_engine.process_transaction(&withdrawal_transaction);

    assert!(res.is_err());
    assert_eq!(
        res.unwrap_err(),
        PaymentError::InsufficientFunds(1, withdrawal_transaction.to_record().unwrap())
    );
}

#[test]
fn process_duplicate_withdrawal() {
    let mut payment_engine = PaymentEngine::new();

    let deposit_transaction =
        Transaction::new(TransactionType::Deposit, 1, 1, Some(Amount::new(10, 1)), false).unwrap();

    let withdrawal_transaction =
        Transaction::new(TransactionType::Withdrawal, 1, 2, Some(Amount::new(10, 1)), false).unwrap();

    payment_engine
        .process_transaction(&deposit_transaction)
        .unwrap();
    payment_engine
        .process_transaction(&withdrawal_transaction)
        .unwrap();
    let res = payment_engine.process_transaction(&withdrawal_transaction);

    assert!(res.is_err());
    assert_eq!(
        res.unwrap_err(),
        PaymentError::TransactionIDNotUnique(2, withdrawal_transaction.clone())
    );
}

#[test]
fn payment_engine_process_successful_dispute() {
    let mut payment_engine = PaymentEngine::new();

    let deposit_transaction =
        Transaction::new(TransactionType::Deposit, 1, 1, Some(Amount::new(10, 1)), false).unwrap();

    let dispute_transaction =
        Transaction::new(TransactionType::Dispute, 1, 1, None, false).unwrap();

    payment_engine
        .process_transaction(&deposit_transaction)
        .unwrap();
    payment_engine
        .process_transaction(&dispute_transaction)
        .unwrap();

    let expected_accounts = "client,available,held,total,locked
1,0.0000,1.0000,1.0000,false
";

    let actual_accounts = payment_engine.serialize_accounts().unwrap();
    assert_eq!(actual_accounts, expected_accounts);
}

#[test]
fn payment_engine_process_nonexistent_dispute() {
    let mut payment_engine = PaymentEngine::new();

    let dispute_transaction =
        Transaction::new(TransactionType::Dispute, 1, 1, None, false).unwrap();

    let res = payment_engine.process_transaction(&dispute_transaction);

    assert!(res.is_err());
    assert_eq!(
        res.unwrap_err(),
        PaymentError::TransactionNotFound(1, dispute_transaction.to_modifier().unwrap())
    );
}

#[test]
fn payment_engine_process_double_dispute() {
    let mut payment_engine = PaymentEngine::new();

    let deposit_transaction =
        Transaction::new(TransactionType::Deposit, 1, 1, Some(Amount::new(10, 1)), false).unwrap();

    let dispute_transaction =
        Transaction::new(TransactionType::Dispute, 1, 1, None, false).unwrap();

    payment_engine
        .process_transaction(&deposit_transaction)
        .unwrap();
    payment_engine
        .process_transaction(&dispute_transaction)
        .unwrap();
    let res = payment_engine.process_transaction(&dispute_transaction);

    assert!(res.is_err());
    assert_eq!(
        res.unwrap_err(),
        PaymentError::TransactionUnderDispute(1, dispute_transaction.to_modifier().unwrap())
    );
}

#[test]
fn process_inconsistent_dispute() {
    let mut payment_engine = PaymentEngine::new();

    let deposit_transaction =
        Transaction::new(TransactionType::Deposit, 1, 1, Some(Amount::new(10, 1)), false).unwrap();

    let dispute_transaction =
        Transaction::new(TransactionType::Dispute, 2, 1, None, false).unwrap();

    payment_engine
        .process_transaction(&deposit_transaction)
        .unwrap();
    let res = payment_engine.process_transaction(&dispute_transaction);

    assert!(res.is_err());
    assert_eq!(
        res.unwrap_err(),
        PaymentError::InconsistentDisputeRequest(1, 2, dispute_transaction.to_modifier().unwrap())
    );
}

#[test]
fn payment_engine_process_successful_resolve() {
    let mut payment_engine = PaymentEngine::new();

    let deposit_transaction =
        Transaction::new(TransactionType::Deposit, 1, 1, Some(Amount::new(10, 1)), false).unwrap();

    let dispute_transaction =
        Transaction::new(TransactionType::Dispute, 1, 1, None, false).unwrap();

    let resolve_transaction =
        Transaction::new(TransactionType::Resolve, 1, 1, None, false).unwrap();

    payment_engine
        .process_transaction(&deposit_transaction)
        .unwrap();
    payment_engine
        .process_transaction(&dispute_transaction)
        .unwrap();
    payment_engine
        .process_transaction(&resolve_transaction)
        .unwrap();

    let expected_accounts = "client,available,held,total,locked
1,1.0000,0.0000,1.0000,false
";

    let actual_accounts = payment_engine.serialize_accounts().unwrap();
    assert_eq!(actual_accounts, expected_accounts);
}

#[test]
fn payment_engine_process_nonexistent_resolve() {
    let mut payment_engine = PaymentEngine::new();

    let resolve_transaction =
        Transaction::new(TransactionType::Resolve, 1, 1, None, false).unwrap();

    let res = payment_engine.process_transaction(&resolve_transaction);

    assert!(res.is_err());
    assert_eq!(
        res.unwrap_err(),
        PaymentError::TransactionNotFound(1, resolve_transaction.to_modifier().unwrap())
    );
}

#[test]
fn payment_engine_process_double_resolve() {
    let mut payment_engine = PaymentEngine::new();

    let deposit_transaction =
        Transaction::new(TransactionType::Deposit, 1, 1, Some(Amount::new(10, 1)), false).unwrap();

    let dispute_transaction =
        Transaction::new(TransactionType::Dispute, 1, 1, None, false).unwrap();

    let resolve_transaction =
        Transaction::new(TransactionType::Resolve, 1, 1, None, false).unwrap();

    payment_engine
        .process_transaction(&deposit_transaction)
        .unwrap();
    payment_engine
        .process_transaction(&dispute_transaction)
        .unwrap();
    payment_engine
        .process_transaction(&resolve_transaction)
        .unwrap();
    let res = payment_engine.process_transaction(&resolve_transaction);

    assert!(res.is_err());
    assert_eq!(
        res.unwrap_err(),
        PaymentError::TransactionNotUnderDispute(1, resolve_transaction.to_modifier().unwrap())
    );
}

#[test]
fn process_inconsistent_resolve() {
    let mut payment_engine = PaymentEngine::new();

    let deposit_transaction =
        Transaction::new(TransactionType::Deposit, 1, 1, Some(Amount::new(10, 1)), false).unwrap();

    let dispute_transaction =
        Transaction::new(TransactionType::Dispute, 1, 1, None, false).unwrap();

    let resolve_transaction =
        Transaction::new(TransactionType::Resolve, 2, 1, None, false).unwrap();

    payment_engine
        .process_transaction(&deposit_transaction)
        .unwrap();
    payment_engine
        .process_transaction(&dispute_transaction)
        .unwrap();
    let res = payment_engine.process_transaction(&resolve_transaction);

    assert!(res.is_err());
    assert_eq!(
        res.unwrap_err(),
        PaymentError::InconsistentDisputeRequest(1, 2, resolve_transaction.to_modifier().unwrap())
    );
}

#[test]
fn payment_engine_process_successful_chargeback() {
    let mut payment_engine = PaymentEngine::new();

    let deposit_transaction =
        Transaction::new(TransactionType::Deposit, 1, 1, Some(Amount::new(10, 1)), false).unwrap();

    let dispute_transaction =
        Transaction::new(TransactionType::Dispute, 1, 1, None, false).unwrap();

    let chargeback_transaction =
        Transaction::new(TransactionType::Chargeback, 1, 1, None, false).unwrap();

    payment_engine
        .process_transaction(&deposit_transaction)
        .unwrap();
    payment_engine
        .process_transaction(&dispute_transaction)
        .unwrap();
    payment_engine
        .process_transaction(&chargeback_transaction)
        .unwrap();

    let expected_accounts = "client,available,held,total,locked
1,0.0000,0.0000,0.0000,true
";

    let actual_accounts = payment_engine.serialize_accounts().unwrap();
    assert_eq!(actual_accounts, expected_accounts);
}

#[test]
fn payment_engine_process_nonexistent_chargeback() {
    let mut payment_engine = PaymentEngine::new();

    let chargeback_transaction =
        Transaction::new(TransactionType::Chargeback, 1, 1, None, false).unwrap();

    let res = payment_engine.process_transaction(&chargeback_transaction);

    assert!(res.is_err());
    assert_eq!(
        res.unwrap_err(),
        PaymentError::TransactionNotFound(1, chargeback_transaction.to_modifier().unwrap())
    );
}

#[test]
fn payment_engine_process_undisputed_chargeback() {
    let mut payment_engine = PaymentEngine::new();

    let deposit_transaction =
        Transaction::new(TransactionType::Deposit, 1, 1, Some(Amount::new(10, 1)), false).unwrap();

    let chargeback_transaction =
        Transaction::new(TransactionType::Chargeback, 1, 1, None, false).unwrap();

    payment_engine
        .process_transaction(&deposit_transaction)
        .unwrap();
    let res = payment_engine.process_transaction(&chargeback_transaction);

    assert!(res.is_err());
    assert_eq!(
        res.unwrap_err(),
        PaymentError::TransactionNotUnderDispute(1, chargeback_transaction.to_modifier().unwrap())
    );
}

#[test]
fn payment_engine_process_double_chargeback() {
    let mut payment_engine = PaymentEngine::new();

    let deposit_transaction =
        Transaction::new(TransactionType::Deposit, 1, 1, Some(Amount::new(10, 1)), false).unwrap();

    let dispute_transaction =
        Transaction::new(TransactionType::Dispute, 1, 1, None, false).unwrap();

    let chargeback_transaction =
        Transaction::new(TransactionType::Chargeback, 1, 1, None, false).unwrap();

    payment_engine
        .process_transaction(&deposit_transaction)
        .unwrap();
    payment_engine
        .process_transaction(&dispute_transaction)
        .unwrap();
    payment_engine
        .process_transaction(&chargeback_transaction)
        .unwrap();
    let res = payment_engine.process_transaction(&chargeback_transaction);

    assert!(res.is_err());
    assert_eq!(
        res.unwrap_err(),
        PaymentError::AccountLocked(1, chargeback_transaction.clone())
    );
}

#[test]
fn process_inconsistent_chargeback() {
    let mut payment_engine = PaymentEngine::new();

    let deposit_transaction =
        Transaction::new(TransactionType::Deposit, 1, 1, Some(Amount::new(10, 1)), false).unwrap();

    let dispute_transaction =
        Transaction::new(TransactionType::Dispute, 1, 1, None, false).unwrap();

    let chargeback_transaction =
        Transaction::new(TransactionType::Chargeback, 2, 1, None, false).unwrap();

    payment_engine
        .process_transaction(&deposit_transaction)
        .unwrap();
    payment_engine
        .process_transaction(&dispute_transaction)
        .unwrap();
    let res = payment_engine.process_transaction(&chargeback_transaction);

    assert!(res.is_err());
    assert_eq!(
        res.unwrap_err(),
        PaymentError::InconsistentDisputeRequest(
            1,
            2,
            chargeback_transaction.to_modifier().unwrap()
        )
    );
}

#[test]
fn process_locked_account() {
    let mut payment_engine = PaymentEngine::new();
    let deposit =
        Transaction::new(TransactionType::Deposit, 1, 1, Some(Amount::new(10, 1)), false).unwrap();
    let dispute = Transaction::new(TransactionType::Dispute, 1, 1, None, false).unwrap();
    let chargeback = Transaction::new(TransactionType::Chargeback, 1, 1, None, false).unwrap();
    payment_engine.process_transaction(&deposit).unwrap();
    payment_engine.process_transaction(&dispute).unwrap();
    payment_engine.process_transaction(&chargeback).unwrap();

    let transaction =
        Transaction::new(TransactionType::Deposit, 1, 2, Some(Amount::new(10, 1)), false).unwrap();
    let res = payment_engine.process_transaction(&transaction);
    assert!(res.is_err());
    assert_eq!(res.unwrap_err(), PaymentError::AccountLocked(1, transaction.clone()));
}

#[test]
fn serialize_accounts_of_new_engine_is_empty() {
    let payment_engine = PaymentEngine::new();
    assert!(payment_engine.accounts_fit_csv());
    assert_eq!(payment_engine.serialize_accounts().unwrap(), "");
}

#[test]
fn accounts_fit_csv_refuses_28_whole_digits() {
    let mut payment_engine = PaymentEngine::new();
    let big = Amount::from_parts(10_i128.pow(27), false, 0).unwrap();
    let deposit = Transaction::new(TransactionType::Deposit, 1, 1, Some(big), false).unwrap();
    assert_eq!(payment_engine.process_transaction_checked(&deposit), Some(Ok(())));
    assert!(!payment_engine.accounts_fit_csv());
}

#[test]
fn exact_deposit_is_processed_checked() {
    let mut payment_engine = PaymentEngine::new();
    let deposit =
        Transaction::new(TransactionType::Deposit, 1, 1, Some(Amount::new(10, 1)), false).unwrap();
    assert_eq!(payment_engine.process_transaction_checked(&deposit), Some(Ok(())));
}

#[test]
fn payment_error_messages() {
    let deposit =
        Transaction::new(TransactionType::Deposit, 1, 7, Some(Amount::new(10, 1)), false).unwrap();
    let withdrawal =
        Transaction::new(TransactionType::Withdrawal, 1, 8, Some(Amount::new(10, 1)), false)
            .unwrap();
    let dispute = Transaction::new(TransactionType::Dispute, 3, 7, None, false).unwrap();
    let modifier = dispute.to_modifier().unwrap();
    assert_eq!(
        PaymentError::AccountLocked(1, deposit.clone()).to_string(),
        "Account 1 is locked"
    );
    assert_eq!(
        PaymentError::InsufficientFunds(1, withdrawal.to_record().unwrap()).to_string(),
        "Account 1 has insufficient funds for transaction 8"
    );
    assert_eq!(
        PaymentError::TransactionNotFound(7, modifier).to_string(),
        "Transaction 7 not found"
    );
    assert_eq!(
        PaymentError::TransactionUnderDispute(7, modifier).to_string(),
        "Transaction 7 is already under dispute"
    );
    assert_eq!(
        PaymentError::TransactionNotUnderDispute(7, modifier).to_string(),
        "Transaction 7 is not under dispute"
    );
    assert_eq!(
        PaymentError::TransactionIDNotUnique(7, deposit).to_string(),
        "Transaction ID 7 is already in use"
    );
    assert_eq!(
        PaymentError::InconsistentDisputeRequest(1, 3, modifier).to_string(),
        "Transaction 7 belongs to account 1, not to account 3"
    );
}
