use std::convert::TryFrom;
use toy_payments_engine::{
    Amount, Transaction, TransactionError, TransactionModifier, TransactionRow, TransactionType,
};

#[test]
fn transaction_requires_amount_for_deposits_and_withdrawals() {
    assert_eq!(
        Transaction::new(TransactionType::Deposit, 1, 1, None, false).unwrap_err(),
        TransactionError::MissingAmount(TransactionType::Deposit, 1, 1)
    );
    assert_eq!(
        Transaction::new(TransactionType::Withdrawal, 2, 5, None, false).unwrap_err(),
        TransactionError::MissingAmount(TransactionType::Withdrawal, 2, 5)
    );
    assert!(Transaction::new(TransactionType::Deposit, 1, 1, Some(Amount::new(1, 0)), false).is_ok());
}

#[test]
fn transaction_rejects_amount_for_dispute_types() {
    for kind in [TransactionType::Dispute, TransactionType::Resolve, TransactionType::Chargeback] {
        assert_eq!(
            Transaction::new(kind, 1, 1, Some(Amount::new(15, 1)), false).unwrap_err(),
            TransactionError::UnrequiredAmount(kind, 1, 1, Amount::new(15, 1))
        );
        assert!(Transaction::new(kind, 1, 1, None, false).is_ok());
    }
}

#[test]
fn transaction_getters_and_setter() {
    let mut t = Transaction::new(TransactionType::Deposit, 4, 9, Some(Amount::new(3, 0)), false).unwrap();
    assert_eq!(*t.kind(), TransactionType::Deposit);
    assert_eq!(*t.client(), 4);
    assert_eq!(*t.tx(), 9);
    assert_eq!(*t.amount(), Some(Amount::new(3, 0)));
    assert!(!*t.disputed());
    t.set_disputed(true);
    assert!(*t.disputed());
}

#[test]
fn transaction_to_record_and_modifier() {
    let d = Transaction::new(TransactionType::Withdrawal, 2, 3, Some(Amount::new(21235, 4)), false).unwrap();
    let r = d.to_record().unwrap();
    assert_eq!(*r.kind(), TransactionType::Withdrawal);
    assert_eq!(*r.client(), 2);
    assert_eq!(*r.tx(), 3);
    assert_eq!(*r.amount(), Amount::new(21235, 4));
    assert!(!*r.disputed());
    assert_eq!(
        d.to_modifier().unwrap_err(),
        TransactionError::UnrequiredAmount(TransactionType::Withdrawal, 2, 3, Amount::new(21235, 4))
    );
    let c = Transaction::new(TransactionType::Chargeback, 1, 3, None, false).unwrap();
    assert_eq!(c.to_modifier().unwrap(), TransactionModifier::new(TransactionType::Chargeback, 1, 3));
    assert_eq!(
        c.to_record().unwrap_err(),
        TransactionError::MissingAmount(TransactionType::Chargeback, 1, 3)
    );
}

#[test]
fn transaction_text() {
    let d = Transaction::new(TransactionType::Deposit, 1, 2, Some(Amount::new(15, 1)), false).unwrap();
    assert_eq!(d.to_string(), "`deposit,1,2,1.5000`");
    assert_eq!(d.to_record().unwrap().to_string(), "`deposit,1,2,1.5000`");
    let r = Transaction::new(TransactionType::Resolve, 65535, 4294967295, None, false).unwrap();
    assert_eq!(r.to_string(), "`resolve,65535,4294967295`");
    assert_eq!(r.to_modifier().unwrap().to_string(), "`resolve,65535,4294967295`");
    assert_eq!(TransactionType::Withdrawal.to_string(), "withdrawal");
    assert_eq!(TransactionType::Chargeback.to_string(), "chargeback");
}

#[test]
fn transaction_error_messages() {
    assert_eq!(
        TransactionError::MissingAmount(TransactionType::Deposit, 1, 1).to_string(),
        "Missing amount from transaction `deposit,1,1`"
    );
    assert_eq!(
        TransactionError::UnrequiredAmount(TransactionType::Dispute, 1, 1, Amount::new(15, 1)).to_string(),
        "Unrequired amount for transaction `dispute,1,1,1.5`"
    );
}

#[test]
fn row_rounds_amount_and_converts() {
    let row = TransactionRow::new(TransactionType::Withdrawal, 2, 3, Some(Amount::new(2123499999999999, 15)));
    assert_eq!(row.amount().unwrap().mantissa(), 21235);
    assert_eq!(row.to_string(), "`withdrawal,2,3,2.1235`");
    let t = Transaction::try_from(row).unwrap();
    assert_eq!(
        t,
        Transaction::new(TransactionType::Withdrawal, 2, 3, Some(Amount::new(21235, 4)), false).unwrap()
    );
    let row = TransactionRow::new(TransactionType::Deposit, 1, 1, Some(Amount::new(1, 0)));
    assert_eq!(row.amount().unwrap().scale(), 0);
    let row = TransactionRow::new(TransactionType::Dispute, 1, 3, None);
    assert_eq!(
        Transaction::try_from(row).unwrap(),
        Transaction::new(TransactionType::Dispute, 1, 3, None, false).unwrap()
    );
}

#[test]
fn row_with_wrong_amount_is_refused() {
    let row = TransactionRow::new(TransactionType::Deposit, 1, 1, None);
    assert_eq!(
        Transaction::try_from(row).unwrap_err(),
        TransactionError::MissingAmount(TransactionType::Deposit, 1, 1)
    );
    let row = TransactionRow::new(TransactionType::Dispute, 1, 1, Some(Amount::new(15, 1)));
    assert_eq!(
        Transaction::try_from(row).unwrap_err(),
        TransactionError::UnrequiredAmount(TransactionType::Dispute, 1, 1, Amount::new(15, 1))
    );
}
