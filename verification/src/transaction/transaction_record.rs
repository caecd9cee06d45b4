use vstd::prelude::*;

use crate::amount::{text_4dp, text_4dp_fits, Amount};
use crate::transaction::{fields_string, fields_text, TransactionType};

verus! {

/// A deposit or withdrawal kept by the payment engine, with its amount and
/// whether it is under dispute.
#[derive(Clone, Copy, Debug, PartialEq, Eq)]
pub struct TransactionRecord {
    kind: TransactionType,
    client: u16,
    tx: u32,
    amount: Amount,
    disputed: bool,
}

impl TransactionRecord {
    pub closed spec fn spec_kind(self) -> TransactionType {
        self.kind
    }

    pub closed spec fn spec_client(self) -> u16 {
        self.client
    }

    pub closed spec fn spec_tx(self) -> u32 {
        self.tx
    }

    pub closed spec fn spec_amount(self) -> Amount {
        self.amount
    }

    pub closed spec fn spec_disputed(self) -> bool {
        self.disputed
    }

    /// The record `TransactionRecord::new` builds from these fields.
    pub closed spec fn spec_new(
        kind: TransactionType,
        client: u16,
        tx: u32,
        amount: Amount,
        disputed: bool,
    ) -> TransactionRecord {
        TransactionRecord { kind, client, tx, amount, disputed }
    }

    /// A record built from fields has those fields.
    pub broadcast proof fn lemma_spec_new(
        kind: TransactionType,
        client: u16,
        tx: u32,
        amount: Amount,
        disputed: bool,
    )
        ensures
            (#[trigger] TransactionRecord::spec_new(kind, client, tx, amount, disputed)).spec_kind()
                == kind,
            TransactionRecord::spec_new(kind, client, tx, amount, disputed).spec_client() == client,
            TransactionRecord::spec_new(kind, client, tx, amount, disputed).spec_tx() == tx,
            TransactionRecord::spec_new(kind, client, tx, amount, disputed).spec_amount() == amount,
            TransactionRecord::spec_new(kind, client, tx, amount, disputed).spec_disputed()
                == disputed,
    {
    }

    /// The record with its disputed flag set to `val`.
    pub open spec fn with_disputed(self, val: bool) -> TransactionRecord {
        TransactionRecord::spec_new(
            self.spec_kind(),
            self.spec_client(),
            self.spec_tx(),
            self.spec_amount(),
            val,
        )
    }

    pub(crate) fn new(
        kind: TransactionType,
        client: u16,
        tx: u32,
        amount: Amount,
        disputed: bool,
    ) -> (r: Self)
        ensures
            r == TransactionRecord::spec_new(kind, client, tx, amount, disputed),
            r.spec_kind() == kind,
            r.spec_client() == client,
            r.spec_tx() == tx,
            r.spec_amount() == amount,
            r.spec_disputed() == disputed,
    {
        Self { kind, client, tx, amount, disputed }
    }

    pub fn kind(&self) -> (r: &TransactionType)
        ensures
            *r == self.spec_kind(),
    {
        &self.kind
    }

    pub fn client(&self) -> (r: &u16)
        ensures
            *r == self.spec_client(),
    {
        &self.client
    }

    pub fn tx(&self) -> (r: &u32)
        ensures
            *r == self.spec_tx(),
    {
        &self.tx
    }

    pub fn amount(&self) -> (r: &Amount)
        ensures
            *r == self.spec_amount(),
    {
        &self.amount
    }

    pub fn disputed(&self) -> (r: &bool)
        ensures
            *r == self.spec_disputed(),
    {
        &self.disputed
    }

    /// Marks the record as disputed or not; the other fields stay.
    pub fn set_disputed(&mut self, val: bool) -> (r: &mut Self)
        ensures
            *r == old(self).with_disputed(val),
            r.spec_disputed() == val,
            r.spec_kind() == old(self).spec_kind(),
            r.spec_client() == old(self).spec_client(),
            r.spec_tx() == old(self).spec_tx(),
            r.spec_amount() == old(self).spec_amount(),
            *final(self) == *final(r),
    {
        self.disputed = val;
        self
    }

    /// The record as a line of the input CSV file, in backquotes, its amount
    /// with four fractional digits; the disputed flag is not shown.
    pub fn to_string(&self) -> (r: String)
        requires
            text_4dp_fits(self.spec_amount()),
        ensures
            r@ == seq!['`'] + fields_text(self.spec_kind(), self.spec_client(), self.spec_tx())
                + seq![','] + text_4dp(self.spec_amount()) + seq!['`'],
    {
        proof {
            reveal_strlit("`");
            reveal_strlit(",");
        }
        let mut s = String::from_str("`");
        s.append(fields_string(self.kind, self.client, self.tx).as_str());
        s.append(",");
        s.append(self.amount.to_string_4dp().as_str());
        s.append("`");
        s
    }
}

} // verus!
