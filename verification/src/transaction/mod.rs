mod transaction_modifier;
mod transaction_record;
mod transaction_row;

pub use transaction_modifier::TransactionModifier;
pub use transaction_record::TransactionRecord;
pub use transaction_row::TransactionRow;

use vstd::prelude::*;

use crate::amount::{text_4dp, text_4dp_fits, text_full, Amount};
use crate::text::{nat_string, nat_text};

verus! {

/// The supported transaction types.
#[derive(Clone, Copy, Debug, PartialEq, Eq, Structural)]
pub enum TransactionType {
    Deposit,
    Withdrawal,
    Dispute,
    Resolve,
    Chargeback,
}

/// The name of a transaction type, in lower case, as the CSV files write it.
pub open spec fn type_text(t: TransactionType) -> Seq<char> {
    match t {
        TransactionType::Deposit => seq!['d', 'e', 'p', 'o', 's', 'i', 't'],
        TransactionType::Withdrawal => seq!['w', 'i', 't', 'h', 'd', 'r', 'a', 'w', 'a', 'l'],
        TransactionType::Dispute => seq!['d', 'i', 's', 'p', 'u', 't', 'e'],
        TransactionType::Resolve => seq!['r', 'e', 's', 'o', 'l', 'v', 'e'],
        TransactionType::Chargeback => seq!['c', 'h', 'a', 'r', 'g', 'e', 'b', 'a', 'c', 'k'],
    }
}

impl TransactionType {
    /// The name of the type in lower case.
    pub fn to_string(&self) -> (r: String)
        ensures
            r@ == type_text(*self),
    {
        match self {
            TransactionType::Deposit => {
                proof {
                    reveal_strlit("deposit");
                }
                String::from_str("deposit")
            },
            TransactionType::Withdrawal => {
                proof {
                    reveal_strlit("withdrawal");
                }
                String::from_str("withdrawal")
            },
            TransactionType::Dispute => {
                proof {
                    reveal_strlit("dispute");
                }
                String::from_str("dispute")
            },
            TransactionType::Resolve => {
                proof {
                    reveal_strlit("resolve");
                }
                String::from_str("resolve")
            },
            TransactionType::Chargeback => {
                proof {
                    reveal_strlit("chargeback");
                }
                String::from_str("chargeback")
            },
        }
    }
}

/// Whether a transaction of this type carries an amount: deposits and
/// withdrawals do, disputes, resolves and chargebacks do not.
pub open spec fn needs_amount(t: TransactionType) -> bool {
    t == TransactionType::Deposit || t == TransactionType::Withdrawal
}

/// The errors found when validating a parsed transaction.
#[derive(Debug, PartialEq, Eq)]
pub enum TransactionError {
    MissingAmount(TransactionType, u16, u32),
    UnrequiredAmount(TransactionType, u16, u32, Amount),
}

/// `` `type,client,tx` ``, the fields of a transaction in the CSV format.
pub open spec fn fields_text(kind: TransactionType, client: u16, tx: u32) -> Seq<char> {
    type_text(kind) + seq![','] + nat_text(client as nat) + seq![','] + nat_text(tx as nat)
}

/// The message of a transaction error.
pub open spec fn transaction_error_text(e: TransactionError) -> Seq<char> {
    match e {
        TransactionError::MissingAmount(kind, client, tx) => "Missing amount from transaction `"@
            + fields_text(kind, client, tx) + seq!['`'],
        TransactionError::UnrequiredAmount(kind, client, tx, amount) =>
            "Unrequired amount for transaction `"@ + fields_text(kind, client, tx) + seq![',']
            + text_full(amount) + seq!['`'],
    }
}

/// The fields of a transaction as written between backquotes.
pub fn fields_string(kind: TransactionType, client: u16, tx: u32) -> (r: String)
    ensures
        r@ == fields_text(kind, client, tx),
{
    proof {
        reveal_strlit(",");
    }
    let mut s = kind.to_string();
    s.append(",");
    s.append(nat_string(client as u64).as_str());
    s.append(",");
    s.append(nat_string(tx as u64).as_str());
    s
}

impl TransactionError {
    /// The message of the error.
    pub fn to_string(&self) -> (r: String)
        ensures
            r@ == transaction_error_text(*self),
    {
        proof {
            reveal_strlit("Missing amount from transaction `");
            reveal_strlit("Unrequired amount for transaction `");
            reveal_strlit("`");
            reveal_strlit(",");
        }
        match self {
            TransactionError::MissingAmount(kind, client, tx) => {
                let mut s = String::from_str("Missing amount from transaction `");
                s.append(fields_string(*kind, *client, *tx).as_str());
                s.append("`");
                s
            },
            TransactionError::UnrequiredAmount(kind, client, tx, amount) => {
                let mut s = String::from_str("Unrequired amount for transaction `");
                s.append(fields_string(*kind, *client, *tx).as_str());
                s.append(",");
                s.append(amount.to_string().as_str());
                s.append("`");
                s
            },
        }
    }
}

/// What `Transaction::new` gives for these fields.
pub closed spec fn validated(
    kind: TransactionType,
    client: u16,
    tx: u32,
    amount: Option<Amount>,
    disputed: bool,
) -> Result<Transaction, TransactionError> {
    if needs_amount(kind) && amount is None {
        Err(TransactionError::MissingAmount(kind, client, tx))
    } else if !needs_amount(kind) && amount is Some {
        Err(TransactionError::UnrequiredAmount(kind, client, tx, amount->Some_0))
    } else {
        Ok(Transaction { kind, client, tx, amount, disputed })
    }
}

/// A transaction handled by the payment engine: deposits and withdrawals
/// carry an amount, disputes, resolves and chargebacks do not.
#[derive(Clone, Copy, Debug, PartialEq, Eq)]
pub struct Transaction {
    kind: TransactionType,
    client: u16,
    tx: u32,
    amount: Option<Amount>,
    disputed: bool,
}

impl Transaction {
    pub closed spec fn spec_kind(self) -> TransactionType {
        self.kind
    }

    pub closed spec fn spec_client(self) -> u16 {
        self.client
    }

    pub closed spec fn spec_tx(self) -> u32 {
        self.tx
    }

    pub closed spec fn spec_amount(self) -> Option<Amount> {
        self.amount
    }

    pub closed spec fn spec_disputed(self) -> bool {
        self.disputed
    }

    #[verifier::type_invariant]
    pub open spec fn well_formed(self) -> bool {
        self.spec_amount() is Some <==> needs_amount(self.spec_kind())
    }

    /// Builds a transaction, checking that deposits and withdrawals carry an
    /// amount and that the other types do not.
    pub fn new(
        kind: TransactionType,
        client: u16,
        tx: u32,
        amount: Option<Amount>,
        disputed: bool,
    ) -> (r: Result<Self, TransactionError>)
        ensures
            r == validated(kind, client, tx, amount, disputed),
            needs_amount(kind) && amount is None ==> r == Err::<Self, TransactionError>(
                TransactionError::MissingAmount(kind, client, tx),
            ),
            !needs_amount(kind) ==> (amount matches Some(a) ==> r == Err::<Self, TransactionError>(
                TransactionError::UnrequiredAmount(kind, client, tx, a),
            )),
            (amount is Some <==> needs_amount(kind)) ==> (r matches Ok(t) && t.spec_kind() == kind
                && t.spec_client() == client && t.spec_tx() == tx && t.spec_amount() == amount
                && t.spec_disputed() == disputed),
    {
        match kind {
            TransactionType::Deposit | TransactionType::Withdrawal => {
                if amount.is_none() {
                    return Err(TransactionError::MissingAmount(kind, client, tx));
                }
            },
            TransactionType::Dispute | TransactionType::Resolve | TransactionType::Chargeback => {
                if let Some(a) = amount {
                    return Err(TransactionError::UnrequiredAmount(kind, client, tx, a));
                }
            },
        }
        Ok(Self { kind, client, tx, amount, disputed })
    }

    /// The deposit or withdrawal as a record to keep; an error for a
    /// transaction without an amount.
    pub fn to_record(&self) -> (r: Result<TransactionRecord, TransactionError>)
        ensures
            match self.spec_amount() {
                Some(a) => r == Ok::<TransactionRecord, TransactionError>(
                    TransactionRecord::spec_new(
                        self.spec_kind(),
                        self.spec_client(),
                        self.spec_tx(),
                        a,
                        self.spec_disputed(),
                    ),
                ) && (r matches Ok(rec) && rec.spec_kind() == self.spec_kind()
                    && rec.spec_client() == self.spec_client() && rec.spec_tx() == self.spec_tx()
                    && rec.spec_amount() == a && rec.spec_disputed() == self.spec_disputed()),
                None => r == Err::<TransactionRecord, TransactionError>(
                    TransactionError::MissingAmount(
                        self.spec_kind(),
                        self.spec_client(),
                        self.spec_tx(),
                    ),
                ),
            },
    {
        if let Some(amount) = self.amount {
            Ok(TransactionRecord::new(self.kind, self.client, self.tx, amount, self.disputed))
        } else {
            Err(TransactionError::MissingAmount(self.kind, self.client, self.tx))
        }
    }

    /// The dispute, resolve or chargeback as a request on a recorded
    /// transaction; an error for a transaction with an amount.
    pub fn to_modifier(&self) -> (r: Result<TransactionModifier, TransactionError>)
        ensures
            match self.spec_amount() {
                Some(a) => r == Err::<TransactionModifier, TransactionError>(
                    TransactionError::UnrequiredAmount(
                        self.spec_kind(),
                        self.spec_client(),
                        self.spec_tx(),
                        a,
                    ),
                ),
                None => r == Ok::<TransactionModifier, TransactionError>(
                    TransactionModifier::spec_new(
                        self.spec_kind(),
                        self.spec_client(),
                        self.spec_tx(),
                    ),
                ) && (r matches Ok(m) && m.spec_kind() == self.spec_kind() && m.spec_client()
                    == self.spec_client() && m.spec_tx() == self.spec_tx()),
            },
    {
        if let Some(amount) = self.amount {
            Err(TransactionError::UnrequiredAmount(self.kind, self.client, self.tx, amount))
        } else {
            Ok(TransactionModifier::new(self.kind, self.client, self.tx))
        }
    }

    pub fn kind(&self) -> (r: &TransactionType)
        ensures
            *r == self.spec_kind(),
    {
        &self.kind
    }

    pub fn client(&self) -> (r: &u16)
        ensures
            *r == self.spec_client(),
    {
        &self.client
    }

    pub fn tx(&self) -> (r: &u32)
        ensures
            *r == self.spec_tx(),
    {
        &self.tx
    }

    pub fn amount(&self) -> (r: &Option<Amount>)
        ensures
            *r == self.spec_amount(),
    {
        &self.amount
    }

    pub fn disputed(&self) -> (r: &bool)
        ensures
            *r == self.spec_disputed(),
    {
        &self.disputed
    }

    /// Marks the transaction as disputed or not; the other fields stay.
    pub fn set_disputed(&mut self, val: bool) -> (r: &mut Self)
        ensures
            r.spec_disputed() == val,
            r.spec_kind() == old(self).spec_kind(),
            r.spec_client() == old(self).spec_client(),
            r.spec_tx() == old(self).spec_tx(),
            r.spec_amount() == old(self).spec_amount(),
            *final(self) == *final(r),
    {
        proof {
            use_type_invariant(&*self);
        }
        self.disputed = val;
        self
    }

    /// The transaction as a line of the input CSV file, in backquotes, its
    /// amount with four fractional digits; the disputed flag is not shown.
    pub fn to_string(&self) -> (r: String)
        requires
            self.spec_amount() is Some ==> text_4dp_fits(self.spec_amount()->Some_0),
        ensures
            r@ == seq!['`'] + fields_text(self.spec_kind(), self.spec_client(), self.spec_tx())
                + match self.spec_amount() {
                Some(a) => seq![','] + text_4dp(a),
                None => Seq::<char>::empty(),
            } + seq!['`'],
    {
        proof {
            reveal_strlit("`");
            reveal_strlit(",");
        }
        let mut s = String::from_str("`");
        s.append(fields_string(self.kind, self.client, self.tx).as_str());
        if let Some(amount) = self.amount {
            s.append(",");
            s.append(amount.to_string_4dp().as_str());
        }
        s.append("`");
        s
    }
}

/// A row read from a CSV file becomes a transaction that is not under dispute,
/// when its amount agrees with its type (see `Transaction::new`).
impl TryFrom<TransactionRow> for Transaction {
    type Error = TransactionError;

    fn try_from(row: TransactionRow) -> (r: Result<Self, Self::Error>) {
        Self::new(*row.kind(), *row.client(), *row.tx(), *row.amount(), false)
    }
}

impl vstd::std_specs::convert::TryFromSpecImpl<TransactionRow> for Transaction {
    open spec fn obeys_try_from_spec() -> bool {
        true
    }

    open spec fn try_from_spec(row: TransactionRow) -> Result<Self, TransactionError> {
        validated(row.spec_kind(), row.spec_client(), row.spec_tx(), row.spec_amount(), false)
    }
}

} // verus!
