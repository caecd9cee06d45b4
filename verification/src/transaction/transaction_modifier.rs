use vstd::prelude::*;

use crate::text::{nat_string, nat_text};
use crate::transaction::{type_text, TransactionType};

verus! {

/// A Dispute/Resolve/Chargeback request, which modifies a recorded transaction.
#[derive(Clone, Copy, Debug, PartialEq, Eq)]
pub struct TransactionModifier {
    kind: TransactionType,
    client: u16,
    tx: u32,
}

impl TransactionModifier {
    pub closed spec fn spec_kind(self) -> TransactionType {
        self.kind
    }

    pub closed spec fn spec_client(self) -> u16 {
        self.client
    }

    pub closed spec fn spec_tx(self) -> u32 {
        self.tx
    }

    /// The request `TransactionModifier::new` builds from these fields.
    pub closed spec fn spec_new(kind: TransactionType, client: u16, tx: u32) -> TransactionModifier {
        TransactionModifier { kind, client, tx }
    }

    /// A request built from fields has those fields.
    pub broadcast proof fn lemma_spec_new(kind: TransactionType, client: u16, tx: u32)
        ensures
            (#[trigger] TransactionModifier::spec_new(kind, client, tx)).spec_kind() == kind,
            TransactionModifier::spec_new(kind, client, tx).spec_client() == client,
            TransactionModifier::spec_new(kind, client, tx).spec_tx() == tx,
    {
    }

    pub fn new(kind: TransactionType, client: u16, tx: u32) -> (r: Self)
        ensures
            r == TransactionModifier::spec_new(kind, client, tx),
            r.spec_kind() == kind,
            r.spec_client() == client,
            r.spec_tx() == tx,
    {
        Self { kind, client, tx }
    }

    pub fn kind(&self) -> (r: &TransactionType)
        ensures
            *r == self.spec_kind(),
    {
        &self.kind
    }

    pub fn client(&self) -> (r: &u16)
        ensures
            *r == self.spec_client(),
    {
        &self.client
    }

    pub fn tx(&self) -> (r: &u32)
        ensures
            *r == self.spec_tx(),
    {
        &self.tx
    }

    /// The request as a line of the input CSV file, in backquotes:
    /// `` `type,client,tx` ``.
    pub fn to_string(&self) -> (r: String)
        ensures
            r@ == seq!['`'] + type_text(self.spec_kind()) + seq![','] + nat_text(
                self.spec_client() as nat,
            ) + seq![','] + nat_text(self.spec_tx() as nat) + seq!['`'],
    {
        proof {
            reveal_strlit("`");
            reveal_strlit(",");
        }
        let mut s = String::from_str("`");
        s.append(self.kind.to_string().as_str());
        s.append(",");
        s.append(nat_string(self.client as u64).as_str());
        s.append(",");
        s.append(nat_string(self.tx as u64).as_str());
        s.append("`");
        s
    }
}

} // verus!
