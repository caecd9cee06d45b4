use toy_payments_engine::{Amount, PaymentEngine, PaymentError, Transaction, TransactionType};

fn tx(kind: TransactionType, client: u16, id: u32, amount: Option<Amount>) -> Transaction {
    Transaction::new(kind, client, id, amount, false).unwrap()
}

#[test]
fn locked_account_refuses_everything() {
    let mut e = PaymentEngine::new();
    e.process_transaction(&tx(TransactionType::Deposit, 1, 1, Some(Amount::new(5, 0)))).unwrap();
    e.process_transaction(&tx(TransactionType::Deposit, 1, 2, Some(Amount::new(3, 0)))).unwrap();
    e.process_transaction(&tx(TransactionType::Dispute, 1, 1, None)).unwrap();
    e.process_transaction(&tx(TransactionType::Chargeback, 1, 1, None)).unwrap();
    let before = e.serialize_accounts().unwrap();
    assert_eq!(before, "client,available,held,total,locked\n1,3.0000,0.0000,3.0000,true\n");
    let d = tx(TransactionType::Deposit, 1, 3, Some(Amount::new(1, 0)));
    assert_eq!(e.process_transaction(&d).unwrap_err(), PaymentError::AccountLocked(1, d));
    let w = tx(TransactionType::Withdrawal, 1, 4, Some(Amount::new(1, 0)));
    assert_eq!(e.process_transaction(&w).unwrap_err(), PaymentError::AccountLocked(1, w));
    let s = tx(TransactionType::Dispute, 1, 2, None);
    assert_eq!(e.process_transaction(&s).unwrap_err(), PaymentError::AccountLocked(1, s));
    assert_eq!(e.serialize_accounts().unwrap(), before);
}

#[test]
fn resolve_undoes_dispute() {
    let mut e = PaymentEngine::new();
    e.process_transaction(&tx(TransactionType::Deposit, 2, 1, Some(Amount::new(125, 2)))).unwrap();
    e.process_transaction(&tx(TransactionType::Deposit, 2, 2, Some(Amount::new(2, 0)))).unwrap();
    let before = e.serialize_accounts().unwrap();
    e.process_transaction(&tx(TransactionType::Dispute, 2, 1, None)).unwrap();
    assert_eq!(
        e.serialize_accounts().unwrap(),
        "client,available,held,total,locked\n2,2.0000,1.2500,3.2500,false\n"
    );
    e.process_transaction(&tx(TransactionType::Resolve, 2, 1, None)).unwrap();
    assert_eq!(e.serialize_accounts().unwrap(), before);
}

#[test]
fn replayed_withdrawal_is_refused() {
    let mut e = PaymentEngine::new();
    e.process_transaction(&tx(TransactionType::Deposit, 1, 1, Some(Amount::new(10, 0)))).unwrap();
    let w = tx(TransactionType::Withdrawal, 1, 2, Some(Amount::new(4, 0)));
    e.process_transaction(&w).unwrap();
    assert_eq!(e.process_transaction(&w).unwrap_err(), PaymentError::TransactionIDNotUnique(2, w));
    assert_eq!(
        e.serialize_accounts().unwrap(),
        "client,available,held,total,locked\n1,6.0000,0.0000,6.0000,false\n"
    );
}

#[test]
fn refused_transaction_creates_empty_account() {
    let mut e = PaymentEngine::new();
    let d = tx(TransactionType::Dispute, 5, 1, None);
    assert!(e.process_transaction(&d).is_err());
    assert_eq!(
        e.serialize_accounts().unwrap(),
        "client,available,held,total,locked\n5,0.0000,0.0000,0.0000,false\n"
    );
}

#[test]
fn failed_withdrawal_keeps_balances() {
    let mut e = PaymentEngine::new();
    e.process_transaction(&tx(TransactionType::Deposit, 1, 1, Some(Amount::new(1, 0)))).unwrap();
    let w = tx(TransactionType::Withdrawal, 1, 2, Some(Amount::new(100001, 5)));
    assert_eq!(
        e.process_transaction(&w).unwrap_err(),
        PaymentError::InsufficientFunds(1, w.to_record().unwrap())
    );
    // the refused id can be used again
    let w2 = tx(TransactionType::Withdrawal, 1, 2, Some(Amount::new(1, 0)));
    e.process_transaction(&w2).unwrap();
    assert_eq!(
        e.serialize_accounts().unwrap(),
        "client,available,held,total,locked\n1,0.0000,0.0000,0.0000,false\n"
    );
}

#[test]
fn disputed_withdrawal_holds_its_amount() {
    let mut e = PaymentEngine::new();
    e.process_transaction(&tx(TransactionType::Deposit, 1, 1, Some(Amount::new(5, 0)))).unwrap();
    e.process_transaction(&tx(TransactionType::Withdrawal, 1, 2, Some(Amount::new(2, 0)))).unwrap();
    e.process_transaction(&tx(TransactionType::Dispute, 1, 2, None)).unwrap();
    assert_eq!(
        e.serialize_accounts().unwrap(),
        "client,available,held,total,locked\n1,1.0000,2.0000,3.0000,false\n"
    );
}

#[test]
fn checked_processing_refuses_overflow() {
    let mut e = PaymentEngine::default();
    let d = tx(TransactionType::Deposit, 1, 1, Some(Amount::new(1, 0)));
    assert_eq!(e.process_transaction_checked(&d), Some(Ok(())));
    let big = Amount::from_parts(79228162514264337593543950335, false, 0).unwrap();
    let overflow = tx(TransactionType::Deposit, 1, 3, Some(big));
    assert_eq!(e.process_transaction_checked(&overflow), None);
    assert_eq!(
        e.serialize_accounts().unwrap(),
        "client,available,held,total,locked\n1,1.0000,0.0000,1.0000,false\n"
    );
    // a refused transaction does no arithmetic
    let replay = tx(TransactionType::Deposit, 1, 1, Some(big));
    assert_eq!(
        e.process_transaction_checked(&replay),
        Some(Err(PaymentError::TransactionIDNotUnique(1, replay)))
    );
    // a sum that has to round is still taken
    let tiny = tx(TransactionType::Deposit, 1, 4, Some(Amount::new(1, 28)));
    assert_eq!(e.process_transaction_checked(&tiny), Some(Ok(())));
}

#[test]
fn accounts_csv_lists_every_client_once() {
    let mut e = PaymentEngine::new();
    for c in 1..=3u16 {
        e.process_transaction(&tx(TransactionType::Deposit, c, c as u32, Some(Amount::new(c as i64, 0)))).unwrap();
    }
    let csv = e.serialize_accounts().unwrap();
    let mut lines: Vec<&str> = csv.lines().collect();
    assert_eq!(lines[0], "client,available,held,total,locked");
    lines.remove(0);
    lines.sort();
    assert_eq!(
        lines,
        vec![
            "1,1.0000,0.0000,1.0000,false",
            "2,2.0000,0.0000,2.0000,false",
            "3,3.0000,0.0000,3.0000,false"
        ]
    );
}

#[test]
fn held_funds_are_the_disputed_amounts() {
    let mut e = PaymentEngine::new();
    e.process_transaction(&tx(TransactionType::Deposit, 1, 1, Some(Amount::new(15, 1)))).unwrap();
    e.process_transaction(&tx(TransactionType::Deposit, 1, 2, Some(Amount::new(25, 1)))).unwrap();
    e.process_transaction(&tx(TransactionType::Deposit, 2, 3, Some(Amount::new(4, 0)))).unwrap();
    e.process_transaction(&tx(TransactionType::Dispute, 1, 1, None)).unwrap();
    e.process_transaction(&tx(TransactionType::Dispute, 1, 2, None)).unwrap();
    e.process_transaction(&tx(TransactionType::Dispute, 2, 3, None)).unwrap();
    e.process_transaction(&tx(TransactionType::Resolve, 1, 1, None)).unwrap();
    let csv = e.serialize_accounts().unwrap();
    let mut lines: Vec<&str> = csv.lines().skip(1).collect();
    lines.sort();
    assert_eq!(lines, vec!["1,1.5000,2.5000,4.0000,false", "2,0.0000,4.0000,4.0000,false"]);
}

#[test]
fn dispute_of_other_clients_transaction_is_refused() {
    let mut e = PaymentEngine::new();
    e.process_transaction(&tx(TransactionType::Deposit, 1, 1, Some(Amount::new(1, 0)))).unwrap();
    let d = tx(TransactionType::Dispute, 2, 1, None);
    assert_eq!(
        e.process_transaction(&d).unwrap_err(),
        PaymentError::InconsistentDisputeRequest(1, 2, d.to_modifier().unwrap())
    );
}
