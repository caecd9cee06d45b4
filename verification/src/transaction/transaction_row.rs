use vstd::prelude::*;

use crate::amount::{rounded_4dp, text_4dp, text_4dp_fits, Amount};
use crate::transaction::{fields_string, fields_text, TransactionType};

verus! {

/// A transaction row of the CSV files, its amount rounded to four fractional
/// digits as it is read.
#[derive(Clone, Copy, Debug, PartialEq, Eq)]
pub struct TransactionRow {
    kind: TransactionType,
    client: u16,
    tx: u32,
    amount: Option<Amount>,
}

impl TransactionRow {
    pub closed spec fn spec_kind(self) -> TransactionType {
        self.kind
    }

    pub closed spec fn spec_client(self) -> u16 {
        self.client
    }

    pub closed spec fn spec_tx(self) -> u32 {
        self.tx
    }

    pub closed spec fn spec_amount(self) -> Option<Amount> {
        self.amount
    }

    /// The row read from the fields of a CSV record: the amount, when there is
    /// one, is rounded to four fractional digits (`round_dp(4)`).
    pub fn new(kind: TransactionType, client: u16, tx: u32, amount: Option<Amount>) -> (r: Self)
        ensures
            r.spec_kind() == kind,
            r.spec_client() == client,
            r.spec_tx() == tx,
            r.spec_amount() is Some <==> amount is Some,
            amount matches Some(a) ==> {
                let b = r.spec_amount()->Some_0;
                (b.mant(), b.neg(), b.scl()) == rounded_4dp(a)
            },
    {
        let rounded = match amount {
            Some(a) => Some(a.round_4dp()),
            None => None,
        };
        Self { kind, client, tx, amount: rounded }
    }

    pub fn kind(&self) -> (r: &TransactionType)
        ensures
            *r == self.spec_kind(),
    {
        &self.kind
    }

    pub fn client(&self) -> (r: &u16)
        ensures
            *r == self.spec_client(),
    {
        &self.client
    }

    pub fn tx(&self) -> (r: &u32)
        ensures
            *r == self.spec_tx(),
    {
        &self.tx
    }

    pub fn amount(&self) -> (r: &Option<Amount>)
        ensures
            *r == self.spec_amount(),
    {
        &self.amount
    }

    /// The row as written in the CSV file, in backquotes, its amount (when
    /// there is one) with four fractional digits.
    pub fn to_string(&self) -> (r: String)
        requires
            self.spec_amount() is Some ==> text_4dp_fits(self.spec_amount()->Some_0),
        ensures
            r@ == seq!['`'] + fields_text(self.spec_kind(), self.spec_client(), self.spec_tx())
                + match self.spec_amount() {
                Some(a) => seq![','] + text_4dp(a),
                None => Seq::<char>::empty(),
            } + seq!['`'],
    {
        proof {
            reveal_strlit("`");
            reveal_strlit(",");
        }
        let mut s = String::from_str("`");
        s.append(fields_string(self.kind, self.client, self.tx).as_str());
        if let Some(amount) = self.amount {
            s.append(",");
            s.append(amount.to_string_4dp().as_str());
        }
        s.append("`");
        s
    }
}

} // verus!
