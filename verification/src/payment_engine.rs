use std::collections::HashMap;
use vstd::prelude::*;
use vstd::std_specs::iter::IteratorSpec;

use crate::account::{account_csv_line, Account};
use crate::amount::{exact_sum, sum_is, sum_ok, Amount};
use crate::text::{nat_string, nat_text};
use crate::transaction::{
    needs_amount, Transaction, TransactionModifier, TransactionRecord, TransactionType,
};

verus! {

broadcast use vstd::std_specs::hash::group_hash_axioms;

/// The payment engine: the accounts it has touched, by client id, and the
/// deposits and withdrawals it has recorded, by transaction id.
pub struct PaymentEngine {
    accounts: HashMap<u16, Account>,
    transactions: HashMap<u32, TransactionRecord>,
}

#[verifier::external_type_specification]
#[verifier::external_body]
pub struct ExAnyhowError(anyhow::Error);

/// The header line of the accounts CSV.
pub open spec fn csv_header() -> Seq<char> {
    "client,available,held,total,locked\n"@
}

/// The CSV records of these accounts, in this order.
pub open spec fn csv_records(accounts: Seq<Account>) -> Seq<char>
    decreases accounts.len(),
{
    if accounts.len() == 0 {
        Seq::<char>::empty()
    } else {
        csv_records(accounts.drop_last()) + account_csv_line(accounts.last())
    }
}

/// The accounts CSV of these accounts, in this order: nothing when there
/// are none (the header is written with the first record), otherwise the
/// header line and one record per account.
pub open spec fn accounts_csv(accounts: Seq<Account>) -> Seq<char> {
    if accounts.len() == 0 {
        Seq::<char>::empty()
    } else {
        csv_header() + csv_records(accounts)
    }
}

/// Writes accounts as CSV (see `accounts_csv`), each amount rounded to four
/// fractional digits; with no accounts the text is empty.
pub fn accounts_to_csv(accounts: &Vec<Account>) -> (r: String)
    requires
        forall|i: int| 0 <= i < accounts.len() ==> #[trigger] accounts@[i].csv_fits(),
    ensures
        r@ == accounts_csv(accounts@),
        accounts@.len() == 0 ==> r@ == Seq::<char>::empty(),
{
    if accounts.len() == 0 {
        return String::new();
    }
    proof {
        reveal_strlit("client,available,held,total,locked\n");
    }
    let mut out = String::from_str("client,available,held,total,locked\n");
    for i in 0..accounts.len()
        invariant
            out@ == csv_header() + csv_records(accounts@.take(i as int)),
            forall|j: int| 0 <= j < accounts.len() ==> #[trigger] accounts@[j].csv_fits(),
    {
        out.append(accounts[i].csv_line().as_str());
        assert(accounts@.take(i + 1).drop_last() == accounts@.take(i as int));
    }
    assert(accounts@.take(accounts.len() as int) == accounts@);
    out
}

/// The sum of `g` over the finite set `s`.
pub open spec fn sum_over(s: Set<u32>, g: spec_fn(u32) -> int) -> int
    decreases s.len(),
    when s.finite()
{
    if s.len() == 0 {
        0
    } else {
        let x = s.choose();
        g(x) + sum_over(s.remove(x), g)
    }
}

/// What a recorded transaction adds to the funds held for client `c`: its
/// amount when it is `c`'s and under dispute, nothing otherwise.
pub open spec fn held_part(records: Map<u32, TransactionRecord>, c: u16) -> spec_fn(u32) -> int {
    |id: u32|
        if records[id].spec_client() == c && records[id].spec_disputed() {
            records[id].spec_amount()@
        } else {
            0
        }
}

/// The amounts of client `c`'s recorded transactions that are under dispute,
/// summed.
pub open spec fn disputed_total(records: Map<u32, TransactionRecord>, c: u16) -> int {
    sum_over(records.dom(), held_part(records, c))
}

/// Why the payment engine refused a transaction.
#[derive(Debug, PartialEq)]
pub enum PaymentError {
    AccountLocked(u16, Transaction),
    InsufficientFunds(u16, TransactionRecord),
    TransactionNotFound(u32, TransactionModifier),
    TransactionUnderDispute(u32, TransactionModifier),
    TransactionNotUnderDispute(u32, TransactionModifier),
    TransactionIDNotUnique(u32, Transaction),
    InconsistentDisputeRequest(u16, u16, TransactionModifier),
}

/// The message of a payment error, naming the account or transaction ids it
/// concerns.
pub open spec fn payment_error_text(e: PaymentError) -> Seq<char> {
    match e {
        PaymentError::AccountLocked(c, _) => "Account "@ + nat_text(c as nat) + " is locked"@,
        PaymentError::InsufficientFunds(c, record) => "Account "@ + nat_text(c as nat)
            + " has insufficient funds for transaction "@ + nat_text(record.spec_tx() as nat),
        PaymentError::TransactionNotFound(tx, _) => "Transaction "@ + nat_text(tx as nat)
            + " not found"@,
        PaymentError::TransactionUnderDispute(tx, _) => "Transaction "@ + nat_text(tx as nat)
            + " is already under dispute"@,
        PaymentError::TransactionNotUnderDispute(tx, _) => "Transaction "@ + nat_text(tx as nat)
            + " is not under dispute"@,
        PaymentError::TransactionIDNotUnique(tx, _) => "Transaction ID "@ + nat_text(tx as nat)
            + " is already in use"@,
        PaymentError::InconsistentDisputeRequest(owner, requester, m) => "Transaction "@
            + nat_text(m.spec_tx() as nat) + " belongs to account "@ + nat_text(owner as nat)
            + ", not to account "@ + nat_text(requester as nat),
    }
}

impl PaymentError {
    /// The message of the error (see `payment_error_text`).
    pub fn to_string(&self) -> (r: String)
        ensures
            r@ == payment_error_text(*self),
    {
        match self {
            PaymentError::AccountLocked(c, _) => {
                let mut s = String::from_str("Account ");
                s.append(nat_string(*c as u64).as_str());
                s.append(" is locked");
                s
            },
            PaymentError::InsufficientFunds(c, record) => {
                let mut s = String::from_str("Account ");
                s.append(nat_string(*c as u64).as_str());
                s.append(" has insufficient funds for transaction ");
                s.append(nat_string(*record.tx() as u64).as_str());
                s
            },
            PaymentError::TransactionNotFound(tx, _) => {
                let mut s = String::from_str("Transaction ");
                s.append(nat_string(*tx as u64).as_str());
                s.append(" not found");
                s
            },
            PaymentError::TransactionUnderDispute(tx, _) => {
                let mut s = String::from_str("Transaction ");
                s.append(nat_string(*tx as u64).as_str());
                s.append(" is already under dispute");
                s
            },
            PaymentError::TransactionNotUnderDispute(tx, _) => {
                let mut s = String::from_str("Transaction ");
                s.append(nat_string(*tx as u64).as_str());
                s.append(" is not under dispute");
                s
            },
            PaymentError::TransactionIDNotUnique(tx, _) => {
                let mut s = String::from_str("Transaction ID ");
                s.append(nat_string(*tx as u64).as_str());
                s.append(" is already in use");
                s
            },
            PaymentError::InconsistentDisputeRequest(owner, requester, m) => {
                let mut s = String::from_str("Transaction ");
                s.append(nat_string(*m.tx() as u64).as_str());
                s.append(" belongs to account ");
                s.append(nat_string(*owner as u64).as_str());
                s.append(", not to account ");
                s.append(nat_string(*requester as u64).as_str());
                s
            },
        }
    }
}

/// The amount a transaction moves: its own for a deposit or withdrawal, the
/// recorded transaction's for a dispute, resolve or chargeback.
pub open spec fn moved_amount(records: Map<u32, TransactionRecord>, t: Transaction) -> Amount {
    if needs_amount(t.spec_kind()) {
        t.spec_amount()->Some_0
    } else {
        records[t.spec_tx()].spec_amount()
    }
}

/// Whether the arithmetic that a transaction of type `kind` moving `x` does on
/// account `a` is exact (see `exact_sum`).
pub open spec fn sums_exact(a: Account, kind: TransactionType, x: Amount) -> bool {
    match kind {
        TransactionType::Deposit => exact_sum(a.spec_available(), x, false) && exact_sum(
            a.spec_total(),
            x,
            false,
        ),
        TransactionType::Withdrawal => exact_sum(a.spec_available(), x, true) && exact_sum(
            a.spec_total(),
            x,
            true,
        ),
        TransactionType::Dispute => exact_sum(a.spec_held(), x, false) && exact_sum(
            a.spec_available(),
            x,
            true,
        ),
        TransactionType::Resolve => exact_sum(a.spec_held(), x, true) && exact_sum(
            a.spec_available(),
            x,
            false,
        ),
        TransactionType::Chargeback => exact_sum(a.spec_held(), x, true) && exact_sum(
            a.spec_total(),
            x,
            true,
        ),
    }
}

/// Whether the arithmetic that a transaction of type `kind` moving `x` does on
/// account `a` does not overflow (where `rust_decimal`'s `+` and `-` would
/// panic).
pub open spec fn sums_ok(a: Account, kind: TransactionType, x: Amount) -> bool {
    match kind {
        TransactionType::Deposit => sum_ok(a.spec_available(), x, false) && sum_ok(
            a.spec_total(),
            x,
            false,
        ),
        TransactionType::Withdrawal => sum_ok(a.spec_available(), x, true) && sum_ok(
            a.spec_total(),
            x,
            true,
        ),
        TransactionType::Dispute => sum_ok(a.spec_held(), x, false) && sum_ok(
            a.spec_available(),
            x,
            true,
        ),
        TransactionType::Resolve => sum_ok(a.spec_held(), x, true) && sum_ok(
            a.spec_available(),
            x,
            false,
        ),
        TransactionType::Chargeback => sum_ok(a.spec_held(), x, true) && sum_ok(
            a.spec_total(),
            x,
            true,
        ),
    }
}

/// How an account changes when a transaction of type `kind` moving `x`
/// succeeds: a deposit adds to the available and total funds, a withdrawal
/// takes from both, a dispute moves funds from available to held, a resolve
/// moves them back, and a chargeback takes them out of held and total and
/// locks the account.
pub open spec fn account_applied(a: Account, n: Account, kind: TransactionType, x: Amount) -> bool {
    &&& n.spec_client() == a.spec_client()
    &&& n.spec_locked() == (a.spec_locked() || kind == TransactionType::Chargeback)
    &&& match kind {
        TransactionType::Deposit => {
            &&& sum_is(n.spec_available(), a.spec_available(), x, false)
            &&& sum_is(n.spec_total(), a.spec_total(), x, false)
            &&& n.spec_held() == a.spec_held()
        },
        TransactionType::Withdrawal => {
            &&& sum_is(n.spec_available(), a.spec_available(), x, true)
            &&& sum_is(n.spec_total(), a.spec_total(), x, true)
            &&& n.spec_held() == a.spec_held()
        },
        TransactionType::Dispute => {
            &&& sum_is(n.spec_held(), a.spec_held(), x, false)
            &&& sum_is(n.spec_available(), a.spec_available(), x, true)
            &&& n.spec_total() == a.spec_total()
        },
        TransactionType::Resolve => {
            &&& sum_is(n.spec_held(), a.spec_held(), x, true)
            &&& sum_is(n.spec_available(), a.spec_available(), x, false)
            &&& n.spec_total() == a.spec_total()
        },
        TransactionType::Chargeback => {
            &&& sum_is(n.spec_held(), a.spec_held(), x, true)
            &&& sum_is(n.spec_total(), a.spec_total(), x, true)
            &&& n.spec_available() == a.spec_available()
        },
    }
}

impl PaymentEngine {
    pub closed spec fn accounts_map(self) -> Map<u16, Account> {
        self.accounts@
    }

    pub closed spec fn records_map(self) -> Map<u32, TransactionRecord> {
        self.transactions@
    }

    /// Every account is stored under its client id; every record is a
    /// deposit or withdrawal stored under its transaction id, and its client
    /// has an account.
    pub open spec fn wf(self) -> bool {
        &&& forall|c: u16| #[trigger]
            self.accounts_map().contains_key(c) ==> self.accounts_map()[c].spec_client() == c
        &&& forall|t: u32| #[trigger]
            self.records_map().contains_key(t) ==> self.records_map()[t].spec_tx() == t
                && needs_amount(self.records_map()[t].spec_kind())
                && self.accounts_map().contains_key(self.records_map()[t].spec_client())
    }

    /// The funds held in every account are the amounts of its transactions
    /// under dispute.
    pub open spec fn held_matches_disputes(self) -> bool {
        forall|c: u16| #[trigger]
            self.accounts_map().contains_key(c) ==> self.accounts_map()[c].spec_held()@
                == disputed_total(self.records_map(), c)
    }

    /// The recorded transactions are finitely many.
    pub proof fn lemma_records_finite(self)
        ensures
            self.records_map().dom().finite(),
    {
    }

    /// What `process_transaction` does: it answers as `outcome` says; the
    /// client's account exists afterwards and no other account changes; a
    /// refused transaction changes nothing else (the client's account is the
    /// one it was, or a new one), a successful one changes the client's
    /// account as `account_applied` says and the records as `records_after`
    /// says.
    pub open spec fn processed(
        self,
        next: Self,
        t: Transaction,
        r: Result<(), PaymentError>,
    ) -> bool {
        let c = t.spec_client();
        &&& r == self.outcome(t)
        &&& next.accounts_map().contains_key(c)
        &&& next.accounts_map() == self.accounts_map().insert(c, next.accounts_map()[c])
        &&& r is Err ==> next.accounts_map()[c] == self.account_of(c) && next.records_map()
            == self.records_map()
        &&& r is Ok ==> account_applied(
            self.account_of(c),
            next.accounts_map()[c],
            t.spec_kind(),
            moved_amount(self.records_map(), t),
        ) && next.records_map() == self.records_after(t)
    }

    /// What `process_transaction_checked` does: it answers `None`, changing
    /// nothing, exactly when the transaction's arithmetic would overflow;
    /// otherwise it does what `process_transaction` does (see `processed`).
    pub open spec fn checked_processed(
        self,
        next: Self,
        t: Transaction,
        r: Option<Result<(), PaymentError>>,
    ) -> bool {
        &&& r is None <==> !self.no_overflow(t)
        &&& r is None ==> next == self
        &&& r is Some ==> self.processed(next, t, r->Some_0)
    }

    /// The account of a client: the stored one, or a new one.
    pub open spec fn account_of(self, c: u16) -> Account {
        if self.accounts_map().contains_key(c) {
            self.accounts_map()[c]
        } else {
            Account::spec_new(c)
        }
    }

    /// What looking up the transaction that a dispute, resolve or chargeback
    /// names gives: its amount, or why the request is refused.
    pub open spec fn dispute_check(self, t: Transaction) -> Result<Amount, PaymentError> {
        let m = TransactionModifier::spec_new(t.spec_kind(), t.spec_client(), t.spec_tx());
        let records = self.records_map();
        if !records.contains_key(t.spec_tx()) {
            Err(PaymentError::TransactionNotFound(t.spec_tx(), m))
        } else if records[t.spec_tx()].spec_client() != t.spec_client() {
            Err(
                PaymentError::InconsistentDisputeRequest(
                    records[t.spec_tx()].spec_client(),
                    t.spec_client(),
                    m,
                ),
            )
        } else if t.spec_kind() == TransactionType::Dispute && records[t.spec_tx()].spec_disputed() {
            Err(PaymentError::TransactionUnderDispute(t.spec_tx(), m))
        } else if t.spec_kind() != TransactionType::Dispute
            && !records[t.spec_tx()].spec_disputed() {
            Err(PaymentError::TransactionNotUnderDispute(t.spec_tx(), m))
        } else {
            Ok(records[t.spec_tx()].spec_amount())
        }
    }

    /// The answer to a transaction once the account is known to be unlocked.
    pub open spec fn handler_outcome(self, t: Transaction) -> Result<(), PaymentError> {
        let a = self.account_of(t.spec_client());
        if needs_amount(t.spec_kind()) {
            if self.records_map().contains_key(t.spec_tx()) {
                Err(PaymentError::TransactionIDNotUnique(t.spec_tx(), t))
            } else if t.spec_kind() == TransactionType::Withdrawal && a.spec_available()@
                < t.spec_amount()->Some_0@ {
                Err(
                    PaymentError::InsufficientFunds(
                        t.spec_client(),
                        TransactionRecord::spec_new(
                            t.spec_kind(),
                            t.spec_client(),
                            t.spec_tx(),
                            t.spec_amount()->Some_0,
                            t.spec_disputed(),
                        ),
                    ),
                )
            } else {
                Ok(())
            }
        } else {
            match self.dispute_check(t) {
                Ok(_) => Ok(()),
                Err(e) => Err(e),
            }
        }
    }

    /// The answer of the engine to a transaction: refused when the client's
    /// account is locked, then as `handler_outcome` says.
    pub open spec fn outcome(self, t: Transaction) -> Result<(), PaymentError> {
        if self.account_of(t.spec_client()).spec_locked() {
            Err(PaymentError::AccountLocked(t.spec_client(), t))
        } else {
            self.handler_outcome(t)
        }
    }

    /// Whether the arithmetic a transaction would do is exact: true when the
    /// transaction is refused, since it then does none.
    pub open spec fn arithmetic_exact(self, t: Transaction) -> bool {
        self.outcome(t) is Ok ==> sums_exact(
            self.account_of(t.spec_client()),
            t.spec_kind(),
            moved_amount(self.records_map(), t),
        )
    }

    /// Whether the arithmetic a transaction would do does not overflow: true
    /// when the transaction is refused, since it then does none.
    pub open spec fn no_overflow(self, t: Transaction) -> bool {
        self.outcome(t) is Ok ==> sums_ok(
            self.account_of(t.spec_client()),
            t.spec_kind(),
            moved_amount(self.records_map(), t),
        )
    }

    /// Whether the arithmetic a transaction would do on the client's account,
    /// locked or not, does not overflow: true when the transaction's own
    /// checks refuse it, since it then does none.
    pub open spec fn handler_no_overflow(self, t: Transaction) -> bool {
        self.handler_outcome(t) is Ok ==> sums_ok(
            self.account_of(t.spec_client()),
            t.spec_kind(),
            moved_amount(self.records_map(), t),
        )
    }

    /// Every account is balanced: its total is what is available plus what is
    /// held.
    pub open spec fn all_balanced(self) -> bool {
        forall|c: u16| #[trigger]
            self.accounts_map().contains_key(c) ==> self.accounts_map()[c].balanced()
    }

    /// The records once a transaction succeeds: a deposit or withdrawal is
    /// recorded; a dispute marks the recorded transaction as disputed, a
    /// resolve or chargeback marks it as no longer disputed.
    pub open spec fn records_after(self, t: Transaction) -> Map<u32, TransactionRecord> {
        let records = self.records_map();
        match t.spec_kind() {
            TransactionType::Deposit | TransactionType::Withdrawal => records.insert(
                t.spec_tx(),
                TransactionRecord::spec_new(
                    t.spec_kind(),
                    t.spec_client(),
                    t.spec_tx(),
                    t.spec_amount()->Some_0,
                    t.spec_disputed(),
                ),
            ),
            TransactionType::Dispute => records.insert(
                t.spec_tx(),
                records[t.spec_tx()].with_disputed(true),
            ),
            _ => records.insert(t.spec_tx(), records[t.spec_tx()].with_disputed(false)),
        }
    }

    /// An engine with no accounts and no recorded transactions.
    pub fn new() -> (r: Self)
        ensures
            r.wf(),
            r.all_balanced(),
            r.held_matches_disputes(),
            r.accounts_map() == Map::<u16, Account>::empty(),
            r.records_map() == Map::<u32, TransactionRecord>::empty(),
    {
        Self { accounts: HashMap::new(), transactions: HashMap::new() }
    }

    /// Whether every account's CSV record can be written (see
    /// `Account::csv_fits`).
    pub open spec fn csv_fits(self) -> bool {
        forall|c: u16| #[trigger]
            self.accounts_map().contains_key(c) ==> self.accounts_map()[c].csv_fits()
    }

    /// Whether `text` is the accounts CSV of this engine: empty when there are
    /// no accounts, otherwise the header line, then one record per account, in
    /// some order that lists every client once.
    pub open spec fn is_accounts_csv(self, text: Seq<char>) -> bool {
        exists|order: Seq<u16>|
            #![trigger order.to_set()]
            {
                &&& order.no_duplicates()
                &&& order.to_set() == self.accounts_map().dom()
                &&& text == accounts_csv(order.map_values(|c: u16| self.accounts_map()[c]))
            }
    }

    /// The accounts, in the order in which the account map is walked.
    fn account_list(&self) -> (r: (Vec<Account>, Ghost<Seq<u16>>))
        ensures
            r.1@.no_duplicates(),
            r.1@.to_set() == self.accounts_map().dom(),
            r.0@ == r.1@.map_values(|c: u16| self.accounts_map()[c]),
    {
        let mut accounts: Vec<Account> = Vec::new();
        let ghost mut order: Seq<u16> = Seq::empty();
        let ghost keys = vstd::std_specs::hash::spec_keys_iter(&self.accounts).remaining();
        for client in it: self.accounts.keys()
            invariant
                it.seq() == keys,
                order.len() == it.index(),
                forall|i: int| 0 <= i < it.index() ==> order[i] == *it.seq()[i],
                accounts@ == order.map_values(|c: u16| self.accounts_map()[c]),
                it.seq().unref().to_set() == self.accounts_map().dom(),
                it.seq().no_duplicates(),
        {
            let account = self.accounts.get(client).unwrap();
            accounts.push(*account);
            proof {
                order = order.push(*client);
            }
        }
        proof {
            assert(order == keys.unref());
        }
        (accounts, Ghost(order))
    }

    /// Whether every account's CSV record can be written, so that
    /// `serialize_accounts` may be called.
    pub fn accounts_fit_csv(&self) -> (r: bool)
        ensures
            r == self.csv_fits(),
    {
        let (accounts, Ghost(order)) = self.account_list();
        let mut i: usize = 0;
        while i < accounts.len()
            invariant
                i <= accounts.len(),
                accounts@ == order.map_values(|c: u16| self.accounts_map()[c]),
                order.to_set() == self.accounts_map().dom(),
                forall|j: int| 0 <= j < i ==> #[trigger] accounts@[j].csv_fits(),
            decreases accounts.len() - i,
        {
            if !accounts[i].fits_csv() {
                assert(order.contains(order[i as int]));
                assert(self.accounts_map().contains_key(order[i as int]));
                return false;
            }
            i = i + 1;
        }
        assert forall|c: u16| #[trigger] self.accounts_map().contains_key(c) implies self.accounts_map()[c].csv_fits() by {
            assert(order.to_set().contains(c));
            let j = order.index_of(c);
            assert(accounts@[j].csv_fits());
        }
        true
    }

    /// Writes all accounts as CSV: nothing when there are none, otherwise a
    /// header line, then one record per account, in the order in which the
    /// account map is walked, each amount rounded to four fractional digits.
    pub fn serialize_accounts(&self) -> (r: Result<String, anyhow::Error>)
        requires
            self.csv_fits(),
        ensures
            r matches Ok(s) && self.is_accounts_csv(s@),
            self.accounts_map().dom().len() == 0 ==> (r matches Ok(s) && s@ == Seq::<char>::empty()),
    {
        let (accounts, Ghost(order)) = self.account_list();
        assert forall|i: int| 0 <= i < accounts.len() implies #[trigger] accounts@[i].csv_fits() by {
            assert(order.to_set().contains(order[i]));
        }
        proof {
            if self.accounts_map().dom().len() == 0 {
                order.unique_seq_to_set();
            }
        }
        Ok(accounts_to_csv(&accounts))
    }

    /// Processes one transaction: refuses it, with the reason, or applies it to
    /// the client's account and to the recorded transactions. The client's
    /// account is created, empty, on first access, even when the transaction
    /// is refused.
    pub fn process_transaction(&mut self, transaction: &Transaction) -> (r: Result<
        (),
        PaymentError,
    >)
        requires
            old(self).wf(),
            old(self).no_overflow(*transaction),
        ensures
            final(self).wf(),
            old(self).processed(*final(self), *transaction, r),
            old(self).checked_processed(*final(self), *transaction, Some(r)),
    {
        let client = *transaction.client();
        let account = self.get_account(client);
        let ghost mid = *self;
        if *account.locked() {
            return Err(PaymentError::AccountLocked(client, *transaction));
        }
        assert(mid.account_of(client) == old(self).account_of(client));
        assert(mid.records_after(*transaction) == old(self).records_after(*transaction));
        assert(mid.handler_outcome(*transaction) == old(self).handler_outcome(*transaction));
        assert(mid.handler_no_overflow(*transaction));
        let handled = match transaction.kind() {
            TransactionType::Deposit => self.deposit(transaction),
            TransactionType::Withdrawal => self.withdraw(transaction),
            TransactionType::Dispute => self.dispute(transaction),
            TransactionType::Resolve => self.resolve(transaction),
            TransactionType::Chargeback => self.chargeback(transaction),
        };
        if handled.is_err() {
            assert(self.accounts_map() =~= mid.accounts_map());
            return handled;
        }
        self.store_transaction(transaction);
        let ghost c = client;
        assert(old(self).outcome(*transaction) is Ok);
        assert(self.accounts_map().contains_key(c));
        assert(self.accounts_map() == old(self).accounts_map().insert(c, self.accounts_map()[c]));
        assert(account_applied(
            old(self).account_of(c),
            self.accounts_map()[c],
            transaction.spec_kind(),
            moved_amount(old(self).records_map(), *transaction),
        ));
        assert(self.records_map() == old(self).records_after(*transaction));
        Ok(())
    }

    /// A copy of the account of a client: the stored one, or a new one.
    fn account_snapshot(&self, client: u16) -> (r: Account)
        requires
            self.wf(),
        ensures
            r == self.account_of(client),
    {
        match self.accounts.get(&client) {
            Some(a) => *a,
            None => Account::new(client),
        }
    }

    /// The answer `process_transaction` would give, without changing anything.
    fn check(&self, transaction: &Transaction) -> (r: Result<(), PaymentError>)
        requires
            self.wf(),
        ensures
            r == self.outcome(*transaction),
    {
        proof {
            use_type_invariant(transaction);
        }
        let client = *transaction.client();
        let account = self.account_snapshot(client);
        if *account.locked() {
            return Err(PaymentError::AccountLocked(client, *transaction));
        }
        match transaction.kind() {
            TransactionType::Deposit | TransactionType::Withdrawal => {
                if self.transactions.contains_key(transaction.tx()) {
                    return Err(
                        PaymentError::TransactionIDNotUnique(*transaction.tx(), *transaction),
                    );
                }
                let is_withdrawal = match transaction.kind() {
                    TransactionType::Withdrawal => true,
                    _ => false,
                };
                if is_withdrawal && account.available().is_less_than(
                    &transaction.amount().unwrap(),
                ) {
                    return Err(
                        PaymentError::InsufficientFunds(client, transaction.to_record().unwrap()),
                    );
                }
                Ok(())
            },
            _ => {
                self.get_disputed_amount(transaction)?;
                Ok(())
            },
        }
    }

    /// Whether the arithmetic `process_transaction` would do for this
    /// transaction overflows (see `no_overflow`), found by doing it on copies.
    fn overflows(&self, transaction: &Transaction) -> (r: bool)
        requires
            self.wf(),
        ensures
            r == !self.no_overflow(*transaction),
            self.arithmetic_exact(*transaction) ==> !r,
    {
        proof {
            use_type_invariant(transaction);
        }
        if self.check(transaction).is_err() {
            return false;
        }
        let account = self.account_snapshot(*transaction.client());
        let x = match transaction.amount() {
            Some(a) => *a,
            None => *self.transactions.get(transaction.tx()).unwrap().amount(),
        };
        let (first, second) = match transaction.kind() {
            TransactionType::Deposit => (
                account.available().checked_add(&x),
                account.total().checked_add(&x),
            ),
            TransactionType::Withdrawal => (
                account.available().checked_sub(&x),
                account.total().checked_sub(&x),
            ),
            TransactionType::Dispute => (
                account.held().checked_add(&x),
                account.available().checked_sub(&x),
            ),
            TransactionType::Resolve => (
                account.held().checked_sub(&x),
                account.available().checked_add(&x),
            ),
            TransactionType::Chargeback => (
                account.held().checked_sub(&x),
                account.total().checked_sub(&x),
            ),
        };
        first.is_none() || second.is_none()
    }

    /// Processes one transaction as `process_transaction` does, unless its
    /// arithmetic would overflow (where `process_transaction` would panic):
    /// then nothing changes and the answer is `None`. Exact arithmetic (see
    /// `arithmetic_exact`) never overflows.
    pub fn process_transaction_checked(&mut self, transaction: &Transaction) -> (r: Option<
        Result<(), PaymentError>,
    >)
        requires
            old(self).wf(),
        ensures
            final(self).wf(),
            r is None <==> !old(self).no_overflow(*transaction),
            old(self).arithmetic_exact(*transaction) ==> r is Some,
            r is None ==> *final(self) == *old(self),
            r matches Some(x) ==> old(self).processed(*final(self), *transaction, x),
            old(self).checked_processed(*final(self), *transaction, r),
    {
        if self.overflows(transaction) {
            return None;
        }
        Some(self.process_transaction(transaction))
    }

    /// The account of a client, created empty on first access.
    fn get_account(&mut self, client: u16) -> (r: Account)
        requires
            old(self).wf(),
        ensures
            final(self).wf(),
            r == old(self).account_of(client),
            r.spec_client() == client,
            final(self).accounts_map() == old(self).accounts_map().insert(client, r),
            final(self).records_map() == old(self).records_map(),
    {
        match self.accounts.get(&client) {
            Some(a) => {
                let a = *a;
                assert(self.accounts_map() =~= self.accounts_map().insert(client, a));
                a
            },
            None => {
                let a = Account::new(client);
                self.accounts.insert(client, a);
                assert forall|c: u16| #[trigger]
                    self.accounts_map().contains_key(c) implies self.accounts_map()[c].spec_client()
                    == c by {
                    if c != client {
                        assert(old(self).accounts_map().contains_key(c));
                    }
                }
                assert forall|t: u32| #[trigger]
                    self.records_map().contains_key(t) implies self.accounts_map().contains_key(
                    self.records_map()[t].spec_client(),
                ) by {
                    assert(old(self).records_map().contains_key(t));
                }
                a
            },
        }
    }

    /// Stores an account back under its client id.
    fn put_account(&mut self, account: Account)
        requires
            old(self).wf(),
        ensures
            final(self).wf(),
            final(self).accounts_map() == old(self).accounts_map().insert(
                account.spec_client(),
                account,
            ),
            final(self).records_map() == old(self).records_map(),
    {
        self.accounts.insert(*account.client(), account);
        assert forall|c: u16| #[trigger]
            self.accounts_map().contains_key(c) implies self.accounts_map()[c].spec_client() == c by {
            if c != account.spec_client() {
                assert(old(self).accounts_map().contains_key(c));
            }
        }
        assert forall|t: u32| #[trigger]
            self.records_map().contains_key(t) implies self.accounts_map().contains_key(
            self.records_map()[t].spec_client(),
        ) by {
            assert(old(self).records_map().contains_key(t));
        }
    }

    /// The amount of the recorded transaction that a dispute, resolve or
    /// chargeback names, or why the request is refused.
    fn get_disputed_amount(&self, transaction: &Transaction) -> (r: Result<Amount, PaymentError>)
        requires
            self.wf(),
            !needs_amount(transaction.spec_kind()),
        ensures
            r == self.dispute_check(*transaction),
    {
        proof {
            use_type_invariant(transaction);
        }
        let tx = *transaction.tx();
        let modifier = transaction.to_modifier().unwrap();
        let disputed_transaction = match self.transactions.get(&tx) {
            Some(record) => *record,
            None => {
                return Err(PaymentError::TransactionNotFound(tx, modifier));
            },
        };
        if *disputed_transaction.client() != *transaction.client() {
            return Err(
                PaymentError::InconsistentDisputeRequest(
                    *disputed_transaction.client(),
                    *transaction.client(),
                    modifier,
                ),
            );
        }
        let is_dispute = match transaction.kind() {
            TransactionType::Dispute => true,
            _ => false,
        };
        if is_dispute && *disputed_transaction.disputed() {
            return Err(PaymentError::TransactionUnderDispute(tx, modifier));
        }
        if !is_dispute && !*disputed_transaction.disputed() {
            return Err(PaymentError::TransactionNotUnderDispute(tx, modifier));
        }
        Ok(*disputed_transaction.amount())
    }

    /// Records a deposit or withdrawal; marks a disputed transaction as under
    /// dispute or, on resolve or chargeback, as no longer under dispute.
    fn store_transaction(&mut self, transaction: &Transaction)
        requires
            old(self).wf(),
            needs_amount(transaction.spec_kind()) || old(self).records_map().contains_key(
                transaction.spec_tx(),
            ),
        ensures
            !needs_amount(transaction.spec_kind()) || old(self).accounts_map().contains_key(
                transaction.spec_client(),
            ) ==> final(self).wf(),
            final(self).accounts_map() == old(self).accounts_map(),
            final(self).records_map() == old(self).records_after(*transaction),
    {
        proof {
            use_type_invariant(transaction);
        }
        let tx = *transaction.tx();
        match transaction.kind() {
            TransactionType::Deposit | TransactionType::Withdrawal => {
                let record = transaction.to_record().unwrap();
                self.transactions.insert(tx, record);
            },
            TransactionType::Dispute => {
                let mut updated_transaction = *self.transactions.get(&tx).unwrap();
                updated_transaction.set_disputed(true);
                self.transactions.insert(tx, updated_transaction);
            },
            TransactionType::Resolve | TransactionType::Chargeback => {
                let mut updated_transaction = *self.transactions.get(&tx).unwrap();
                updated_transaction.set_disputed(false);
                self.transactions.insert(tx, updated_transaction);
            },
        }
        assert forall|t: u32| #[trigger]
            self.records_map().contains_key(t) implies self.records_map()[t].spec_tx() == t
            && needs_amount(self.records_map()[t].spec_kind()) by {
            if t != tx {
                assert(old(self).records_map().contains_key(t));
            } else if !needs_amount(transaction.spec_kind()) {
                assert(old(self).records_map().contains_key(t));
            }
        }
        assert(self.accounts_map() == old(self).accounts_map());
    }

    /// Adds a deposit to the client's account, created empty on first
    /// access, unless its id is already recorded. The lock is not looked at:
    /// `process_transaction` refuses locked accounts before.
    fn deposit(&mut self, transaction: &Transaction) -> (r: Result<(), PaymentError>)
        requires
            old(self).wf(),
            transaction.spec_kind() == TransactionType::Deposit,
            old(self).handler_no_overflow(*transaction),
        ensures
            final(self).wf(),
            r == old(self).handler_outcome(*transaction),
            final(self).records_map() == old(self).records_map(),
            final(self).accounts_map().contains_key(transaction.spec_client()),
            final(self).accounts_map() == old(self).accounts_map().insert(
                transaction.spec_client(),
                final(self).accounts_map()[transaction.spec_client()],
            ),
            r is Err ==> final(self).accounts_map()[transaction.spec_client()] == old(
                self,
            ).account_of(transaction.spec_client()),
            r is Ok ==> account_applied(
                old(self).account_of(transaction.spec_client()),
                final(self).accounts_map()[transaction.spec_client()],
                transaction.spec_kind(),
                moved_amount(old(self).records_map(), *transaction),
            ),
    {
        proof {
            use_type_invariant(transaction);
        }
        let mut account = self.get_account(*transaction.client());
        if self.transactions.contains_key(transaction.tx()) {
            return Err(PaymentError::TransactionIDNotUnique(*transaction.tx(), *transaction));
        }
        account.deposit(transaction.amount().unwrap());
        self.put_account(account);
        Ok(())
    }

    /// Takes a withdrawal from the client's account, created empty on first
    /// access, unless its id is already recorded or the available funds are
    /// less than its amount. The lock is not looked at.
    fn withdraw(&mut self, transaction: &Transaction) -> (r: Result<(), PaymentError>)
        requires
            old(self).wf(),
            transaction.spec_kind() == TransactionType::Withdrawal,
            old(self).handler_no_overflow(*transaction),
        ensures
            final(self).wf(),
            r == old(self).handler_outcome(*transaction),
            final(self).records_map() == old(self).records_map(),
            final(self).accounts_map().contains_key(transaction.spec_client()),
            final(self).accounts_map() == old(self).accounts_map().insert(
                transaction.spec_client(),
                final(self).accounts_map()[transaction.spec_client()],
            ),
            r is Err ==> final(self).accounts_map()[transaction.spec_client()] == old(
                self,
            ).account_of(transaction.spec_client()),
            r is Ok ==> account_applied(
                old(self).account_of(transaction.spec_client()),
                final(self).accounts_map()[transaction.spec_client()],
                transaction.spec_kind(),
                moved_amount(old(self).records_map(), *transaction),
            ),
    {
        proof {
            use_type_invariant(transaction);
        }
        let mut account = self.get_account(*transaction.client());
        if self.transactions.contains_key(transaction.tx()) {
            return Err(PaymentError::TransactionIDNotUnique(*transaction.tx(), *transaction));
        }
        let amount = transaction.amount().unwrap();
        if account.available().is_less_than(&amount) {
            return Err(
                PaymentError::InsufficientFunds(
                    *transaction.client(),
                    transaction.to_record().unwrap(),
                ),
            );
        }
        account.withdraw(amount);
        self.put_account(account);
        Ok(())
    }

    /// Holds the disputed transaction's amount in the client's account.
    fn dispute(&mut self, transaction: &Transaction) -> (r: Result<(), PaymentError>)
        requires
            old(self).wf(),
            transaction.spec_kind() == TransactionType::Dispute,
            old(self).handler_no_overflow(*transaction),
        ensures
            final(self).wf(),
            r == old(self).handler_outcome(*transaction),
            final(self).records_map() == old(self).records_map(),
            r is Err ==> final(self).accounts_map() == old(self).accounts_map(),
            r is Ok ==> final(self).accounts_map().contains_key(transaction.spec_client())
                && final(self).accounts_map() == old(self).accounts_map().insert(
                transaction.spec_client(),
                final(self).accounts_map()[transaction.spec_client()],
            ) && account_applied(
                old(self).account_of(transaction.spec_client()),
                final(self).accounts_map()[transaction.spec_client()],
                transaction.spec_kind(),
                moved_amount(old(self).records_map(), *transaction),
            ),
    {
        let amount = self.get_disputed_amount(transaction)?;
        let mut account = self.get_account(*transaction.client());
        account.dispute(amount);
        self.put_account(account);
        Ok(())
    }

    /// Releases the held amount of a disputed transaction back to the
    /// client's available funds.
    fn resolve(&mut self, transaction: &Transaction) -> (r: Result<(), PaymentError>)
        requires
            old(self).wf(),
            transaction.spec_kind() == TransactionType::Resolve,
            old(self).handler_no_overflow(*transaction),
        ensures
            final(self).wf(),
            r == old(self).handler_outcome(*transaction),
            final(self).records_map() == old(self).records_map(),
            r is Err ==> final(self).accounts_map() == old(self).accounts_map(),
            r is Ok ==> final(self).accounts_map().contains_key(transaction.spec_client())
                && final(self).accounts_map() == old(self).accounts_map().insert(
                transaction.spec_client(),
                final(self).accounts_map()[transaction.spec_client()],
            ) && account_applied(
                old(self).account_of(transaction.spec_client()),
                final(self).accounts_map()[transaction.spec_client()],
                transaction.spec_kind(),
                moved_amount(old(self).records_map(), *transaction),
            ),
    {
        let amount = self.get_disputed_amount(transaction)?;
        let mut account = self.get_account(*transaction.client());
        account.resolve(amount);
        self.put_account(account);
        Ok(())
    }

    /// Takes the held amount of a disputed transaction out of the client's
    /// account and locks the account.
    fn chargeback(&mut self, transaction: &Transaction) -> (r: Result<(), PaymentError>)
        requires
            old(self).wf(),
            transaction.spec_kind() == TransactionType::Chargeback,
            old(self).handler_no_overflow(*transaction),
        ensures
            final(self).wf(),
            r == old(self).handler_outcome(*transaction),
            final(self).records_map() == old(self).records_map(),
            r is Err ==> final(self).accounts_map() == old(self).accounts_map(),
            r is Ok ==> final(self).accounts_map().contains_key(transaction.spec_client())
                && final(self).accounts_map() == old(self).accounts_map().insert(
                transaction.spec_client(),
                final(self).accounts_map()[transaction.spec_client()],
            ) && account_applied(
                old(self).account_of(transaction.spec_client()),
                final(self).accounts_map()[transaction.spec_client()],
                transaction.spec_kind(),
                moved_amount(old(self).records_map(), *transaction),
            ),
    {
        let amount = self.get_disputed_amount(transaction)?;
        let mut account = self.get_account(*transaction.client());
        account.chargeback(amount);
        account.set_locked(true);
        self.put_account(account);
        Ok(())
    }
}

impl Default for PaymentEngine {
    fn default() -> (r: Self)
        ensures
            r.wf(),
            r.accounts_map() == Map::<u16, Account>::empty(),
            r.records_map() == Map::<u32, TransactionRecord>::empty(),
    {
        Self::new()
    }
}

} // verus!
