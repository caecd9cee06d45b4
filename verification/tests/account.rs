use toy_payments_engine::{accounts_to_csv, Account, Amount};

#[test]
fn serialize_accounts_to_csv() {
    let mut accounts = vec![Account::new(1), Account::new(2)];
    accounts[0].deposit(Amount::new(10, 1));
    accounts[1].deposit(Amount::new(2123499999999999, 15)); // check for rounding

    let expected = b"client,available,held,total,locked
1,1.0000,0.0000,1.0000,false
2,2.1235,0.0000,2.1235,false
";
    let result = accounts_to_csv(&accounts).into_bytes();
    assert_eq!(result, expected);
}

#[test]
fn new_account_is_empty_and_unlocked() {
    let account = Account::new(7);
    assert_eq!(*account.client(), 7);
    assert_eq!(account.available().to_string(), "0.0");
    assert_eq!(account.held().to_string(), "0.0");
    assert_eq!(account.total().to_string(), "0.0");
    assert!(!*account.locked());
}

#[test]
fn account_operations_move_funds() {
    let mut account = Account::new(3);
    account.deposit(Amount::new(1000, 2));
    assert_eq!(account.to_string(), "`3,10.0000,0.0000,10.0000,false`");
    account.withdraw(Amount::new(25, 1));
    assert_eq!(account.to_string(), "`3,7.5000,0.0000,7.5000,false`");
    account.dispute(Amount::new(5, 0));
    assert_eq!(account.to_string(), "`3,2.5000,5.0000,7.5000,false`");
    account.resolve(Amount::new(2, 0));
    assert_eq!(account.to_string(), "`3,4.5000,3.0000,7.5000,false`");
    account.chargeback(Amount::new(3, 0));
    assert_eq!(account.to_string(), "`3,4.5000,0.0000,4.5000,false`");
    account.set_locked(true);
    assert!(*account.locked());
    assert_eq!(account.to_string(), "`3,4.5000,0.0000,4.5000,true`");
}

#[test]
fn account_display_cuts_without_rounding() {
    let mut account = Account::new(1);
    account.deposit(Amount::new(123456, 5));
    // Display cuts to four digits; the CSV record rounds.
    assert_eq!(account.to_string(), "`1,1.2345,0.0000,1.2345,false`");
    let csv = accounts_to_csv(&vec![account]);
    assert_eq!(csv, "client,available,held,total,locked\n1,1.2346,0.0000,1.2346,false\n");
}

#[test]
fn dispute_can_make_available_negative() {
    let mut account = Account::new(9);
    account.deposit(Amount::new(1, 0));
    account.withdraw(Amount::new(1, 0));
    account.dispute(Amount::new(1, 0));
    assert_eq!(account.to_string(), "`9,-1.0000,1.0000,0.0000,false`");
}

#[test]
fn accounts_to_csv_of_no_accounts_is_empty() {
    assert_eq!(accounts_to_csv(&Vec::new()), "");
}

#[test]
fn account_fits_csv_only_with_at_most_27_whole_digits() {
    let mut account = Account::new(1);
    assert!(account.fits_csv());
    account.deposit(Amount::from_parts(10_i128.pow(27), false, 0).unwrap());
    assert!(!account.fits_csv());
    let mut small = Account::new(2);
    small.deposit(Amount::from_parts(10_i128.pow(27) - 1, false, 0).unwrap());
    assert!(small.fits_csv());
    assert_eq!(
        accounts_to_csv(&vec![small]),
        "client,available,held,total,locked\n2,999999999999999999999999999.0000,0.0000,999999999999999999999999999.0000,false\n"
    );
}
