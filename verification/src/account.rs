use vstd::prelude::*;

use crate::amount::{
    exact_sum, pow10, rounded_4dp, rounded_text_fits, sum_is, sum_ok, text_4dp, text_4dp_fits,
    Amount,
};
use crate::text::{bool_string, bool_text, nat_string, nat_text};

verus! {

/// A client's account: funds available, funds held under dispute, their total,
/// and whether a chargeback has locked it.
#[derive(Clone, Copy, Debug, PartialEq, Eq)]
pub struct Account {
    client: u16,
    available: Amount,
    held: Amount,
    total: Amount,
    locked: bool,
}

/// The text of an amount rounded to four fractional digits, as the account
/// CSV writes it (`{:.4}` of `round_dp(4)`).
pub open spec fn rounded_text(a: Amount) -> Seq<char> {
    let (m, n, s) = rounded_4dp(a);
    crate::amount::decimal_text(n, crate::amount::abs(m) as nat, s, 4)
}

/// The CSV record of an account: `client,available,held,total,locked`, the
/// amounts rounded to four fractional digits, ended by a newline.
pub open spec fn account_csv_line(a: Account) -> Seq<char> {
    nat_text(a.spec_client() as nat) + seq![','] + rounded_text(a.spec_available()) + seq![',']
        + rounded_text(a.spec_held()) + seq![','] + rounded_text(a.spec_total()) + seq![',']
        + bool_text(a.spec_locked()) + seq!['\n']
}

impl Account {
    pub closed spec fn spec_client(self) -> u16 {
        self.client
    }

    pub closed spec fn spec_available(self) -> Amount {
        self.available
    }

    pub closed spec fn spec_held(self) -> Amount {
        self.held
    }

    pub closed spec fn spec_total(self) -> Amount {
        self.total
    }

    pub closed spec fn spec_locked(self) -> bool {
        self.locked
    }

    /// The account `Account::new(client)` builds.
    pub closed spec fn spec_new(client: u16) -> Account {
        let zero = Amount::spec_zero_tenths();
        Account { client, available: zero, held: zero, total: zero, locked: false }
    }

    /// The new account of a client is empty, unlocked and balanced.
    pub proof fn lemma_spec_new(client: u16)
        ensures
            Account::spec_new(client).is_new(client),
            Account::spec_new(client).balanced(),
            Account::spec_new(client).spec_available()@ == 0,
            Account::spec_new(client).spec_held()@ == 0,
            Account::spec_new(client).spec_total()@ == 0,
    {
        Amount::lemma_zero_tenths();
        let z = Amount::spec_zero_tenths();
        assert(z.mant() * pow10((28 - z.scl()) as nat) == 0);
    }

    /// The total is what is available plus what is held.
    pub open spec fn balanced(self) -> bool {
        self.spec_total()@ == self.spec_available()@ + self.spec_held()@
    }

    /// Whether the three amounts can be written with four fractional digits
    /// (see `text_4dp_fits`).
    pub open spec fn text_fits(self) -> bool {
        &&& text_4dp_fits(self.spec_available())
        &&& text_4dp_fits(self.spec_held())
        &&& text_4dp_fits(self.spec_total())
    }

    /// Whether the three amounts, rounded to four fractional digits, can be
    /// written in the CSV record (see `rounded_text_fits`).
    pub open spec fn csv_fits(self) -> bool {
        &&& rounded_text_fits(self.spec_available())
        &&& rounded_text_fits(self.spec_held())
        &&& rounded_text_fits(self.spec_total())
    }

    /// Whether the account's CSV record can be written (see `csv_fits`).
    pub fn fits_csv(&self) -> (r: bool)
        ensures
            r == self.csv_fits(),
    {
        self.available.round_4dp().fits_text_4dp() && self.held.round_4dp().fits_text_4dp()
            && self.total.round_4dp().fits_text_4dp()
    }

    /// Whether the account is the unlocked, empty account of `client`, its
    /// three amounts `0.0`.
    pub open spec fn is_new(self, client: u16) -> bool {
        &&& self.spec_client() == client
        &&& !self.spec_locked()
        &&& self.spec_available().mant() == 0 && !self.spec_available().neg()
            && self.spec_available().scl() == 1
        &&& self.spec_held().mant() == 0 && !self.spec_held().neg() && self.spec_held().scl() == 1
        &&& self.spec_total().mant() == 0 && !self.spec_total().neg() && self.spec_total().scl()
            == 1
    }

    /// The empty, unlocked account of a client.
    pub fn new(client: u16) -> (r: Self)
        ensures
            r == Account::spec_new(client),
            r.is_new(client),
            r.balanced(),
    {
        let zero = Amount::new(0, 1);
        assert(zero@ == 0);
        proof {
            Amount::lemma_zero_tenths();
            Amount::lemma_same_parts(zero, Amount::spec_zero_tenths());
        }
        Self { client, available: zero, held: zero, total: zero, locked: false }
    }

    /// Adds a deposit to the available and total funds.
    pub fn deposit(&mut self, amount: Amount)
        requires
            sum_ok(old(self).spec_available(), amount, false),
            sum_ok(old(self).spec_total(), amount, false),
        ensures
            final(self).spec_client() == old(self).spec_client(),
            final(self).spec_locked() == old(self).spec_locked(),
            final(self).spec_held() == old(self).spec_held(),
            sum_is(final(self).spec_available(), old(self).spec_available(), amount, false),
            sum_is(final(self).spec_total(), old(self).spec_total(), amount, false),
            old(self).balanced() && exact_sum(old(self).spec_available(), amount, false) && exact_sum(old(self).spec_total(), amount, false) ==> final(self).balanced(),
    {
        self.available = self.available.add(&amount);
        self.total = self.total.add(&amount);
    }

    /// Takes a withdrawal from the available and total funds.
    pub fn withdraw(&mut self, amount: Amount)
        requires
            sum_ok(old(self).spec_available(), amount, true),
            sum_ok(old(self).spec_total(), amount, true),
        ensures
            final(self).spec_client() == old(self).spec_client(),
            final(self).spec_locked() == old(self).spec_locked(),
            final(self).spec_held() == old(self).spec_held(),
            sum_is(final(self).spec_available(), old(self).spec_available(), amount, true),
            sum_is(final(self).spec_total(), old(self).spec_total(), amount, true),
            old(self).balanced() && exact_sum(old(self).spec_available(), amount, true) && exact_sum(old(self).spec_total(), amount, true) ==> final(self).balanced(),
    {
        self.available = self.available.sub(&amount);
        self.total = self.total.sub(&amount);
    }

    /// Moves a disputed amount from the available funds to the held funds.
    pub fn dispute(&mut self, amount: Amount)
        requires
            sum_ok(old(self).spec_held(), amount, false),
            sum_ok(old(self).spec_available(), amount, true),
        ensures
            final(self).spec_client() == old(self).spec_client(),
            final(self).spec_locked() == old(self).spec_locked(),
            final(self).spec_total() == old(self).spec_total(),
            sum_is(final(self).spec_held(), old(self).spec_held(), amount, false),
            sum_is(final(self).spec_available(), old(self).spec_available(), amount, true),
            old(self).balanced() && exact_sum(old(self).spec_held(), amount, false) && exact_sum(old(self).spec_available(), amount, true) ==> final(self).balanced(),
    {
        self.held = self.held.add(&amount);
        self.available = self.available.sub(&amount);
    }

    /// Moves a resolved amount from the held funds back to the available funds.
    pub fn resolve(&mut self, amount: Amount)
        requires
            sum_ok(old(self).spec_held(), amount, true),
            sum_ok(old(self).spec_available(), amount, false),
        ensures
            final(self).spec_client() == old(self).spec_client(),
            final(self).spec_locked() == old(self).spec_locked(),
            final(self).spec_total() == old(self).spec_total(),
            sum_is(final(self).spec_held(), old(self).spec_held(), amount, true),
            sum_is(final(self).spec_available(), old(self).spec_available(), amount, false),
            old(self).balanced() && exact_sum(old(self).spec_held(), amount, true) && exact_sum(old(self).spec_available(), amount, false) ==> final(self).balanced(),
    {
        self.held = self.held.sub(&amount);
        self.available = self.available.add(&amount);
    }

    /// Takes a charged-back amount out of the held and total funds.
    pub fn chargeback(&mut self, amount: Amount)
        requires
            sum_ok(old(self).spec_held(), amount, true),
            sum_ok(old(self).spec_total(), amount, true),
        ensures
            final(self).spec_client() == old(self).spec_client(),
            final(self).spec_locked() == old(self).spec_locked(),
            final(self).spec_available() == old(self).spec_available(),
            sum_is(final(self).spec_held(), old(self).spec_held(), amount, true),
            sum_is(final(self).spec_total(), old(self).spec_total(), amount, true),
            old(self).balanced() && exact_sum(old(self).spec_held(), amount, true) && exact_sum(old(self).spec_total(), amount, true) ==> final(self).balanced(),
    {
        self.held = self.held.sub(&amount);
        self.total = self.total.sub(&amount);
    }

    pub fn client(&self) -> (r: &u16)
        ensures
            *r == self.spec_client(),
    {
        &self.client
    }

    pub fn available(&self) -> (r: &Amount)
        ensures
            *r == self.spec_available(),
    {
        &self.available
    }

    pub fn held(&self) -> (r: &Amount)
        ensures
            *r == self.spec_held(),
    {
        &self.held
    }

    pub fn total(&self) -> (r: &Amount)
        ensures
            *r == self.spec_total(),
    {
        &self.total
    }

    pub fn locked(&self) -> (r: &bool)
        ensures
            *r == self.spec_locked(),
    {
        &self.locked
    }

    /// Locks or unlocks the account; the amounts stay.
    pub fn set_locked(&mut self, val: bool) -> (r: &mut Self)
        ensures
            r.spec_locked() == val,
            r.spec_client() == old(self).spec_client(),
            r.spec_available() == old(self).spec_available(),
            r.spec_held() == old(self).spec_held(),
            r.spec_total() == old(self).spec_total(),
            *final(self) == *final(r),
    {
        self.locked = val;
        self
    }

    /// The account in backquotes, `` `client,available,held,total,locked` ``,
    /// the amounts cut to four fractional digits; `rust_decimal` cannot write
    /// an amount with more than 27 whole digits that way.
    pub fn to_string(&self) -> (r: String)
        requires
            self.text_fits(),
        ensures
            r@ == seq!['`'] + nat_text(self.spec_client() as nat) + seq![','] + text_4dp(
                self.spec_available(),
            ) + seq![','] + text_4dp(self.spec_held()) + seq![','] + text_4dp(self.spec_total())
                + seq![','] + bool_text(self.spec_locked()) + seq!['`'],
    {
        proof {
            reveal_strlit("`");
            reveal_strlit(",");
        }
        let mut s = String::from_str("`");
        s.append(nat_string(self.client as u64).as_str());
        s.append(",");
        s.append(self.available.to_string_4dp().as_str());
        s.append(",");
        s.append(self.held.to_string_4dp().as_str());
        s.append(",");
        s.append(self.total.to_string_4dp().as_str());
        s.append(",");
        s.append(bool_string(self.locked).as_str());
        s.append("`");
        s
    }

    /// The CSV record of the account (see `account_csv_line`).
    pub(crate) fn csv_line(&self) -> (r: String)
        requires
            self.csv_fits(),
        ensures
            r@ == account_csv_line(*self),
    {
        proof {
            reveal_strlit(",");
            reveal_strlit("\n");
        }
        let mut s = nat_string(self.client as u64);
        s.append(",");
        s.append(self.available.round_4dp().to_string_4dp().as_str());
        s.append(",");
        s.append(self.held.round_4dp().to_string_4dp().as_str());
        s.append(",");
        s.append(self.total.round_4dp().to_string_4dp().as_str());
        s.append(",");
        s.append(bool_string(self.locked).as_str());
        s.append("\n");
        s
    }
}

} // verus!
