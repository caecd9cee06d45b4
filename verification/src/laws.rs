use vstd::prelude::*;

use crate::account::Account;
use crate::amount::{sum_is, Amount};
use crate::payment_engine::{
    account_applied, disputed_total, held_part, moved_amount, sum_over, sums_exact,
    PaymentEngine, PaymentError,
};
use crate::transaction::{
    needs_amount, Transaction, TransactionModifier, TransactionRecord, TransactionType,
};

verus! {

/// A locked account refuses every later transaction of its client: the answer
/// is `AccountLocked`, and neither the accounts nor the records change.
pub proof fn lemma_locked_account_refuses(
    e: PaymentEngine,
    e2: PaymentEngine,
    t: Transaction,
    r: Option<Result<(), PaymentError>>,
)
    requires
        e.wf(),
        e.accounts_map().contains_key(t.spec_client()),
        e.accounts_map()[t.spec_client()].spec_locked(),
        e.checked_processed(e2, t, r),
    ensures
        r == Some::<Result<(), PaymentError>>(
            Err(PaymentError::AccountLocked(t.spec_client(), t)),
        ),
        e2.accounts_map() == e.accounts_map(),
        e2.records_map() == e.records_map(),
{
    assert(e2.accounts_map() =~= e.accounts_map());
}

/// A refused transaction changes no balance and no record: the only change it
/// may make is to create the client's empty account. A transaction whose
/// arithmetic would overflow (answered `None`) changes nothing at all.
pub proof fn lemma_refused_transaction_changes_nothing(
    e: PaymentEngine,
    e2: PaymentEngine,
    t: Transaction,
    r: Option<Result<(), PaymentError>>,
)
    requires
        e.wf(),
        e.checked_processed(e2, t, r),
        r != Some::<Result<(), PaymentError>>(Ok(())),
    ensures
        e2.records_map() == e.records_map(),
        forall|c: u16| #[trigger]
            e.accounts_map().contains_key(c) ==> e2.accounts_map().contains_key(c)
                && e2.accounts_map()[c] == e.accounts_map()[c],
        r is Some ==> e2.accounts_map().dom() == e.accounts_map().dom().insert(t.spec_client()),
        r is None ==> e2 == e,
        !e.accounts_map().contains_key(t.spec_client()) && e2.accounts_map().contains_key(
            t.spec_client(),
        ) ==> e2.accounts_map()[t.spec_client()].is_new(t.spec_client()),
{
    Account::lemma_spec_new(t.spec_client());
    if r is Some {
        assert(e2.accounts_map().dom() =~= e.accounts_map().dom().insert(t.spec_client()));
    }
}

/// What a transaction does to locks: the accounts of other clients do not
/// change; a locked account refuses the transaction and nothing changes; a
/// locked account stays locked; and an account becomes locked only by a
/// chargeback of its client that succeeds.
pub proof fn lemma_lock_behaviour(
    e: PaymentEngine,
    e2: PaymentEngine,
    t: Transaction,
    r: Option<Result<(), PaymentError>>,
)
    requires
        e.wf(),
        e.checked_processed(e2, t, r),
    ensures
        forall|c: u16| #[trigger]
            e.accounts_map().contains_key(c) && c != t.spec_client() ==> e2.accounts_map().contains_key(c)
                && e2.accounts_map()[c] == e.accounts_map()[c],
        forall|c: u16| #[trigger]
            e2.accounts_map().contains_key(c) ==> e.accounts_map().contains_key(c) || c
                == t.spec_client(),
        e.account_of(t.spec_client()).spec_locked() ==> r == Some::<Result<(), PaymentError>>(
            Err(PaymentError::AccountLocked(t.spec_client(), t)),
        ) && e2.accounts_map() == e.accounts_map() && e2.records_map() == e.records_map(),
        forall|c: u16| #[trigger]
            e.accounts_map().contains_key(c) && e.accounts_map()[c].spec_locked() ==> e2.accounts_map().contains_key(c)
                && e2.accounts_map()[c].spec_locked(),
        forall|c: u16| #[trigger]
            e2.accounts_map().contains_key(c) && e2.accounts_map()[c].spec_locked() ==> (
            e.accounts_map().contains_key(c) && e.accounts_map()[c].spec_locked()) || (c
                == t.spec_client() && t.spec_kind() == TransactionType::Chargeback && r
                == Some::<Result<(), PaymentError>>(Ok(()))),
{
    let tc = t.spec_client();
    Account::lemma_spec_new(tc);
    if e.account_of(tc).spec_locked() {
        assert(e.accounts_map().contains_key(tc));
        assert(e2.accounts_map() =~= e.accounts_map());
    }
    if r is Some {
        assert forall|c: u16| #[trigger]
            e2.accounts_map().contains_key(c) implies e.accounts_map().contains_key(c) || c == tc by {
            if c != tc {
                assert(e2.accounts_map().dom() == e.accounts_map().insert(tc, e2.accounts_map()[tc]).dom());
            }
        }
    }
}

/// What a transaction that succeeds does: the client's account (the stored
/// one, or a new one) changes as its type says, with the sums `rust_decimal`
/// gives (see `account_applied`): a deposit adds its amount to the available
/// and total funds, a withdrawal (which the available funds cover) takes it
/// from both, a dispute moves the recorded amount from available to held, a
/// resolve moves it back, a chargeback takes it out of held and total and
/// locks the account. A deposit or withdrawal is then recorded as it came; a
/// dispute marks the recorded transaction as disputed, a resolve or
/// chargeback as no longer disputed; no other record and no other account
/// changes.
pub proof fn lemma_step_effect(
    e: PaymentEngine,
    e2: PaymentEngine,
    t: Transaction,
    r: Option<Result<(), PaymentError>>,
)
    requires
        e.wf(),
        e.checked_processed(e2, t, r),
        r == Some::<Result<(), PaymentError>>(Ok(())),
    ensures
        !e.account_of(t.spec_client()).spec_locked(),
        e2.accounts_map().contains_key(t.spec_client()),
        account_applied(
            e.account_of(t.spec_client()),
            e2.accounts_map()[t.spec_client()],
            t.spec_kind(),
            moved_amount(e.records_map(), t),
        ),
        t.spec_kind() == TransactionType::Withdrawal ==> !(e.account_of(
            t.spec_client(),
        ).spec_available()@ < t.spec_amount()->Some_0@),
        !needs_amount(t.spec_kind()) ==> e.records_map().contains_key(t.spec_tx())
            && e.records_map()[t.spec_tx()].spec_client() == t.spec_client()
            && moved_amount(e.records_map(), t) == e.records_map()[t.spec_tx()].spec_amount(),
        forall|c: u16| #[trigger]
            e.accounts_map().contains_key(c) && c != t.spec_client() ==> e2.accounts_map().contains_key(c)
                && e2.accounts_map()[c] == e.accounts_map()[c],
        e2.records_map().contains_key(t.spec_tx()),
        needs_amount(t.spec_kind()) ==> !e.records_map().contains_key(t.spec_tx())
            && e2.records_map()[t.spec_tx()] == TransactionRecord::spec_new(
            t.spec_kind(),
            t.spec_client(),
            t.spec_tx(),
            t.spec_amount()->Some_0,
            t.spec_disputed(),
        ),
        t.spec_kind() == TransactionType::Dispute ==> !e.records_map()[t.spec_tx()].spec_disputed()
            && e2.records_map()[t.spec_tx()] == e.records_map()[t.spec_tx()].with_disputed(true),
        t.spec_kind() == TransactionType::Resolve || t.spec_kind() == TransactionType::Chargeback
            ==> e.records_map()[t.spec_tx()].spec_disputed() && e2.records_map()[t.spec_tx()]
            == e.records_map()[t.spec_tx()].with_disputed(false),
        forall|id: u32| #[trigger]
            e.records_map().contains_key(id) && id != t.spec_tx() ==> e2.records_map().contains_key(id)
                && e2.records_map()[id] == e.records_map()[id],
{
    let tc = t.spec_client();
    assert(e.outcome(t) is Ok);
    if !needs_amount(t.spec_kind()) {
        assert(e.dispute_check(t) is Ok);
    }
}

/// Only a chargeback locks an account: a transaction that succeeds on an
/// unlocked account leaves it locked exactly when it is a chargeback.
pub proof fn lemma_only_chargeback_locks(a: Account, n: Account, kind: TransactionType, x: Amount)
    requires
        !a.spec_locked(),
        account_applied(a, n, kind, x),
    ensures
        n.spec_locked() <==> kind == TransactionType::Chargeback,
        n.spec_client() == a.spec_client(),
{
}

/// The total funds of an account change only by a deposit (up by its
/// amount), a withdrawal or a chargeback (down by the amount); disputes and
/// resolves only move funds between available and held (for a step whose
/// decimal arithmetic does not round).
pub proof fn lemma_total_changes_only_by_money_movements(
    a: Account,
    n: Account,
    kind: TransactionType,
    x: Amount,
)
    requires
        account_applied(a, n, kind, x),
        sums_exact(a, kind, x),
    ensures
        n.spec_total()@ - a.spec_total()@ == match kind {
            TransactionType::Deposit => x@,
            TransactionType::Withdrawal | TransactionType::Chargeback => -x@,
            _ => 0,
        },
        kind == TransactionType::Dispute || kind == TransactionType::Resolve ==> n.spec_available()@
            + n.spec_held()@ == a.spec_available()@ + a.spec_held()@,
{
}

/// A resolve undoes the dispute it settles: after a dispute and then a
/// resolve of the same amount, the available, held and total funds are what
/// they were before the dispute (when neither step has to round).
pub proof fn lemma_resolve_undoes_dispute(a: Account, n1: Account, n2: Account, x: Amount)
    requires
        account_applied(a, n1, TransactionType::Dispute, x),
        sums_exact(a, TransactionType::Dispute, x),
        account_applied(n1, n2, TransactionType::Resolve, x),
        sums_exact(n1, TransactionType::Resolve, x),
    ensures
        n2.spec_available()@ == a.spec_available()@,
        n2.spec_held()@ == a.spec_held()@,
        n2.spec_total()@ == a.spec_total()@,
        n2.spec_locked() == a.spec_locked(),
        n2.spec_client() == a.spec_client(),
{
}

/// A chargeback after a dispute takes the disputed amount out of the
/// account: the held funds are back where they were, the available funds stay
/// reduced by the amount, the total drops by it, and the account is locked
/// (when neither step has to round).
pub proof fn lemma_chargeback_after_dispute(a: Account, n1: Account, n2: Account, x: Amount)
    requires
        account_applied(a, n1, TransactionType::Dispute, x),
        sums_exact(a, TransactionType::Dispute, x),
        account_applied(n1, n2, TransactionType::Chargeback, x),
        sums_exact(n1, TransactionType::Chargeback, x),
    ensures
        n2.spec_available()@ == a.spec_available()@ - x@,
        n2.spec_held()@ == a.spec_held()@,
        n2.spec_total()@ == a.spec_total()@ - x@,
        n2.spec_locked(),
{
}

/// A withdrawal that succeeds never overdraws: the available funds it
/// leaves are not negative (when the subtraction does not have to round).
pub proof fn lemma_withdrawal_never_overdraws(e: PaymentEngine, t: Transaction, n: Account)
    requires
        e.wf(),
        t.well_formed(),
        t.spec_kind() == TransactionType::Withdrawal,
        e.outcome(t) is Ok,
        e.arithmetic_exact(t),
        account_applied(e.account_of(t.spec_client()), n, t.spec_kind(), moved_amount(e.records_map(), t)),
    ensures
        n.spec_available()@ >= 0,
{
}

/// A recorded transaction is never altered but for its dispute flag: after
/// any transaction succeeds, every transaction recorded before is still
/// recorded with the same type, client, id and amount.
pub proof fn lemma_records_keep_their_fields(e: PaymentEngine, t: Transaction, id: u32)
    requires
        e.wf(),
        e.outcome(t) is Ok,
        e.records_map().contains_key(id),
    ensures
        e.records_after(t).contains_key(id),
        e.records_after(t)[id].spec_kind() == e.records_map()[id].spec_kind(),
        e.records_after(t)[id].spec_client() == e.records_map()[id].spec_client(),
        e.records_after(t)[id].spec_tx() == e.records_map()[id].spec_tx(),
        e.records_after(t)[id].spec_amount() == e.records_map()[id].spec_amount(),
        id != t.spec_tx() ==> e.records_after(t)[id] == e.records_map()[id],
{
    broadcast use crate::transaction::TransactionRecord::lemma_spec_new;

}

/// A deposit or withdrawal is taken once: after it succeeds, processing it
/// again is refused because its id is already recorded.
pub proof fn lemma_replayed_transaction_refused(e: PaymentEngine, e2: PaymentEngine, t: Transaction)
    requires
        e.wf(),
        needs_amount(t.spec_kind()),
        e.outcome(t) is Ok,
        e2.accounts_map().contains_key(t.spec_client()),
        account_applied(
            e.account_of(t.spec_client()),
            e2.accounts_map()[t.spec_client()],
            t.spec_kind(),
            moved_amount(e.records_map(), t),
        ),
        e2.records_map() == e.records_after(t),
    ensures
        e2.outcome(t) == Err::<(), PaymentError>(
            PaymentError::TransactionIDNotUnique(t.spec_tx(), t),
        ),
{
}

/// Every account stays balanced, its total what is available plus what is
/// held, through any transaction whose decimal arithmetic does not round.
pub proof fn lemma_balance_kept(
    e: PaymentEngine,
    e2: PaymentEngine,
    t: Transaction,
    r: Option<Result<(), PaymentError>>,
)
    requires
        e.wf(),
        e.all_balanced(),
        e.checked_processed(e2, t, r),
        e.arithmetic_exact(t),
    ensures
        e2.all_balanced(),
{
    let tc = t.spec_client();
    Account::lemma_spec_new(tc);
    assert forall|c: u16| #[trigger] e2.accounts_map().contains_key(c) implies e2.accounts_map()[c].balanced() by {
        if r is Some && c != tc {
            assert(e.accounts_map().contains_key(c));
        }
    }
}

/// Summing over a set that holds `a` is `g(a)` plus the sum over the rest,
/// whichever element the sum picks first.
pub proof fn lemma_sum_over_remove(s: Set<u32>, g: spec_fn(u32) -> int, a: u32)
    requires
        s.finite(),
        s.contains(a),
    ensures
        sum_over(s, g) == g(a) + sum_over(s.remove(a), g),
    decreases s.len(),
{
    let x = s.choose();
    if x != a {
        lemma_sum_over_remove(s.remove(x), g, a);
        lemma_sum_over_remove(s.remove(a), g, x);
        assert(s.remove(x).remove(a) =~= s.remove(a).remove(x));
    }
}

/// Functions that agree on a set have the same sum over it.
pub proof fn lemma_sum_over_congruent(s: Set<u32>, g1: spec_fn(u32) -> int, g2: spec_fn(u32) -> int)
    requires
        s.finite(),
        forall|x: u32| s.contains(x) ==> g1(x) == g2(x),
    ensures
        sum_over(s, g1) == sum_over(s, g2),
    decreases s.len(),
{
    if s.len() > 0 {
        let x = s.choose();
        lemma_sum_over_congruent(s.remove(x), g1, g2);
    }
}

/// A function that is zero on a set sums to zero over it.
pub proof fn lemma_sum_over_zero(s: Set<u32>, g: spec_fn(u32) -> int)
    requires
        s.finite(),
        forall|x: u32| s.contains(x) ==> g(x) == 0,
    ensures
        sum_over(s, g) == 0,
    decreases s.len(),
{
    if s.len() > 0 {
        let x = s.choose();
        lemma_sum_over_zero(s.remove(x), g);
    }
}

/// Recording `r` under `id` changes the disputed total of client `c` by what
/// `r` adds, less what the record it replaces added.
pub proof fn lemma_disputed_total_insert(
    records: Map<u32, TransactionRecord>,
    id: u32,
    r: TransactionRecord,
    c: u16,
)
    requires
        records.dom().finite(),
    ensures
        disputed_total(records.insert(id, r), c) == disputed_total(records, c) - (
        if records.contains_key(id) {
            held_part(records, c)(id)
        } else {
            0
        }) + held_part(records.insert(id, r), c)(id),
{
    let new = records.insert(id, r);
    let g = held_part(records, c);
    let g2 = held_part(new, c);
    let d = records.dom();
    let d2 = new.dom();
    assert(d2 =~= d.insert(id));
    lemma_sum_over_remove(d2, g2, id);
    assert(d2.remove(id) =~= d.remove(id));
    lemma_sum_over_congruent(d.remove(id), g, g2);
    if records.contains_key(id) {
        lemma_sum_over_remove(d, g, id);
    } else {
        assert(d.remove(id) =~= d);
    }
}

/// The funds held in the account of any client, stored or new, are the
/// amounts of its transactions under dispute.
pub proof fn lemma_held_of_any_client(e: PaymentEngine, c: u16)
    requires
        e.wf(),
        e.held_matches_disputes(),
    ensures
        e.account_of(c).spec_held()@ == disputed_total(e.records_map(), c),
{
    if !e.accounts_map().contains_key(c) {
        Account::lemma_spec_new(c);
        e.lemma_records_finite();
        let g = held_part(e.records_map(), c);
        assert forall|x: u32| e.records_map().dom().contains(x) implies g(x) == 0 by {
            assert(e.records_map().contains_key(x));
        }
        lemma_sum_over_zero(e.records_map().dom(), g);
    }
}

/// The funds held in every account are exactly the amounts of its
/// transactions under dispute, and processing a transaction keeps it so,
/// whether the transaction is refused or succeeds; a deposit or withdrawal
/// must come in undisputed, as every transaction read from a file does, and
/// the step's decimal arithmetic must not round.
pub proof fn lemma_held_matches_disputes_kept(
    e: PaymentEngine,
    e2: PaymentEngine,
    t: Transaction,
    r: Option<Result<(), PaymentError>>,
)
    requires
        e.wf(),
        e.held_matches_disputes(),
        e.checked_processed(e2, t, r),
        e.arithmetic_exact(t),
        needs_amount(t.spec_kind()) ==> !t.spec_disputed(),
    ensures
        e2.held_matches_disputes(),
{
    broadcast use crate::transaction::TransactionRecord::lemma_spec_new;

    if r is Some {
        lemma_held_matches_disputes_kept_step(e, e2, t, r->Some_0);
    }
}

/// One step of `lemma_held_matches_disputes_kept`, for a transaction that
/// `process_transaction` answered with `r`.
proof fn lemma_held_matches_disputes_kept_step(
    e: PaymentEngine,
    e2: PaymentEngine,
    t: Transaction,
    r: Result<(), PaymentError>,
)
    requires
        e.wf(),
        e.held_matches_disputes(),
        e.processed(e2, t, r),
        e.arithmetic_exact(t),
        needs_amount(t.spec_kind()) ==> !t.spec_disputed(),
    ensures
        e2.held_matches_disputes(),
{
    broadcast use crate::transaction::TransactionRecord::lemma_spec_new;


    e.lemma_records_finite();
    let tc = t.spec_client();
    let records = e.records_map();
    lemma_held_of_any_client(e, tc);
    assert forall|c: u16| #[trigger]
        e2.accounts_map().contains_key(c) implies e2.accounts_map()[c].spec_held()@
        == disputed_total(e2.records_map(), c) by {
        if c != tc {
            assert(e.accounts_map().contains_key(c));
            assert(e2.accounts_map()[c] == e.accounts_map()[c]);
        }
        if r is Ok {
            let id = t.spec_tx();
            let rec2 = e2.records_map()[id];
            assert(e2.records_map() == records.insert(id, rec2));
            lemma_disputed_total_insert(records, id, rec2, c);
            let new_part = held_part(records.insert(id, rec2), c)(id);
            let old_part = if records.contains_key(id) {
                held_part(records, c)(id)
            } else {
                0
            };
            let x = moved_amount(records, t);
            if needs_amount(t.spec_kind()) {
                assert(!records.contains_key(id));
                assert(rec2.spec_client() == tc);
                assert(!rec2.spec_disputed());
                assert(new_part == 0);
                assert(old_part == 0);
            } else {
                assert(e.dispute_check(t) is Ok);
                assert(records.contains_key(id));
                let old_rec = records[id];
                assert(old_rec.spec_client() == tc);
                assert(rec2.spec_client() == tc);
                assert(rec2.spec_amount() == old_rec.spec_amount());
                assert(x == old_rec.spec_amount());
                if c != tc {
                    assert(new_part == 0);
                    assert(old_part == 0);
                } else if t.spec_kind() == TransactionType::Dispute {
                    assert(!old_rec.spec_disputed());
                    assert(rec2.spec_disputed());
                    assert(old_part == 0);
                    assert(new_part == x@);
                } else {
                    assert(old_rec.spec_disputed());
                    assert(!rec2.spec_disputed());
                    assert(old_part == x@);
                    assert(new_part == 0);
                }
            }
        }
    }
}

/// A deposit with an id not yet recorded, on an account that is not locked,
/// is accepted whatever the account holds: its amount is added to the
/// available and total funds, the held funds and the lock stay, and the
/// deposit is recorded.
pub proof fn lemma_fresh_deposit_accepted(
    e: PaymentEngine,
    e2: PaymentEngine,
    t: Transaction,
    r: Option<Result<(), PaymentError>>,
)
    requires
        e.wf(),
        t.well_formed(),
        e.checked_processed(e2, t, r),
        t.spec_kind() == TransactionType::Deposit,
        !e.account_of(t.spec_client()).spec_locked(),
        !e.records_map().contains_key(t.spec_tx()),
    ensures
        e.outcome(t) is Ok,
        r is Some ==> r->Some_0 is Ok,
        r is Some ==> {
            let a = e.account_of(t.spec_client());
            let n = e2.accounts_map()[t.spec_client()];
            &&& sum_is(n.spec_available(), a.spec_available(), t.spec_amount()->Some_0, false)
            &&& sum_is(n.spec_total(), a.spec_total(), t.spec_amount()->Some_0, false)
            &&& n.spec_held() == a.spec_held()
            &&& !n.spec_locked()
            &&& e2.records_map().contains_key(t.spec_tx())
        },
{
}

/// A withdrawal with an id not yet recorded, on an account that is not
/// locked, is accepted whenever its amount is at most the available funds,
/// whatever funds are held: its amount is taken from the available and total
/// funds.
pub proof fn lemma_covered_withdrawal_accepted(
    e: PaymentEngine,
    e2: PaymentEngine,
    t: Transaction,
    r: Option<Result<(), PaymentError>>,
)
    requires
        e.wf(),
        t.well_formed(),
        e.checked_processed(e2, t, r),
        t.spec_kind() == TransactionType::Withdrawal,
        !e.account_of(t.spec_client()).spec_locked(),
        !e.records_map().contains_key(t.spec_tx()),
        t.spec_amount()->Some_0@ <= e.account_of(t.spec_client()).spec_available()@,
    ensures
        e.outcome(t) is Ok,
        r is Some ==> r->Some_0 is Ok,
        r is Some ==> {
            let a = e.account_of(t.spec_client());
            let n = e2.accounts_map()[t.spec_client()];
            &&& sum_is(n.spec_available(), a.spec_available(), t.spec_amount()->Some_0, true)
            &&& sum_is(n.spec_total(), a.spec_total(), t.spec_amount()->Some_0, true)
            &&& n.spec_held() == a.spec_held()
        },
{
}

/// A dispute by the client who owns the named recorded transaction, which is
/// not yet under dispute, on an account that is not locked, is accepted even
/// when the available funds are below the disputed amount: the amount moves
/// from the available to the held funds and the transaction is marked as
/// disputed.
pub proof fn lemma_owned_dispute_accepted(
    e: PaymentEngine,
    e2: PaymentEngine,
    t: Transaction,
    r: Option<Result<(), PaymentError>>,
)
    requires
        e.wf(),
        e.checked_processed(e2, t, r),
        t.spec_kind() == TransactionType::Dispute,
        !e.account_of(t.spec_client()).spec_locked(),
        e.records_map().contains_key(t.spec_tx()),
        e.records_map()[t.spec_tx()].spec_client() == t.spec_client(),
        !e.records_map()[t.spec_tx()].spec_disputed(),
    ensures
        e.outcome(t) is Ok,
        r is Some ==> r->Some_0 is Ok,
        r is Some ==> {
            let a = e.account_of(t.spec_client());
            let n = e2.accounts_map()[t.spec_client()];
            let x = e.records_map()[t.spec_tx()].spec_amount();
            &&& sum_is(n.spec_held(), a.spec_held(), x, false)
            &&& sum_is(n.spec_available(), a.spec_available(), x, true)
            &&& n.spec_total() == a.spec_total()
            &&& e2.records_map()[t.spec_tx()].spec_disputed()
        },
{
    broadcast use crate::transaction::TransactionRecord::lemma_spec_new;

    assert(e.dispute_check(t) is Ok);
}

/// A resolve by the client who owns the named recorded transaction, which is
/// under dispute, on an account that is not locked, is accepted whether that
/// transaction was a deposit or a withdrawal: its amount moves from the held
/// back to the available funds and it is no longer disputed.
pub proof fn lemma_owned_resolve_accepted(
    e: PaymentEngine,
    e2: PaymentEngine,
    t: Transaction,
    r: Option<Result<(), PaymentError>>,
)
    requires
        e.wf(),
        e.checked_processed(e2, t, r),
        t.spec_kind() == TransactionType::Resolve,
        !e.account_of(t.spec_client()).spec_locked(),
        e.records_map().contains_key(t.spec_tx()),
        e.records_map()[t.spec_tx()].spec_client() == t.spec_client(),
        e.records_map()[t.spec_tx()].spec_disputed(),
    ensures
        e.outcome(t) is Ok,
        r is Some ==> r->Some_0 is Ok,
        r is Some ==> {
            let a = e.account_of(t.spec_client());
            let n = e2.accounts_map()[t.spec_client()];
            let x = e.records_map()[t.spec_tx()].spec_amount();
            &&& sum_is(n.spec_held(), a.spec_held(), x, true)
            &&& sum_is(n.spec_available(), a.spec_available(), x, false)
            &&& n.spec_total() == a.spec_total()
            &&& !e2.records_map()[t.spec_tx()].spec_disputed()
        },
{
    broadcast use crate::transaction::TransactionRecord::lemma_spec_new;

    assert(e.dispute_check(t) is Ok);
}

/// A chargeback by the client who owns the named recorded transaction, which
/// is under dispute, on an account that is not locked, is accepted whatever
/// the account's balances: the amount leaves the held and total funds, the
/// available funds stay, and the account is locked.
pub proof fn lemma_owned_chargeback_accepted(
    e: PaymentEngine,
    e2: PaymentEngine,
    t: Transaction,
    r: Option<Result<(), PaymentError>>,
)
    requires
        e.wf(),
        e.checked_processed(e2, t, r),
        t.spec_kind() == TransactionType::Chargeback,
        !e.account_of(t.spec_client()).spec_locked(),
        e.records_map().contains_key(t.spec_tx()),
        e.records_map()[t.spec_tx()].spec_client() == t.spec_client(),
        e.records_map()[t.spec_tx()].spec_disputed(),
    ensures
        e.outcome(t) is Ok,
        r is Some ==> r->Some_0 is Ok,
        r is Some ==> {
            let a = e.account_of(t.spec_client());
            let n = e2.accounts_map()[t.spec_client()];
            let x = e.records_map()[t.spec_tx()].spec_amount();
            &&& sum_is(n.spec_held(), a.spec_held(), x, true)
            &&& sum_is(n.spec_total(), a.spec_total(), x, true)
            &&& n.spec_available() == a.spec_available()
            &&& n.spec_locked()
            &&& !e2.records_map()[t.spec_tx()].spec_disputed()
        },
{
    broadcast use crate::transaction::TransactionRecord::lemma_spec_new;

    assert(e.dispute_check(t) is Ok);
}

/// Why a transaction on an account that is not locked is refused: a deposit
/// or withdrawal whose id is already recorded; a withdrawal above the
/// available funds; a dispute, resolve or chargeback naming no recorded
/// transaction, or one of another client; a dispute of a transaction already
/// under dispute; a resolve or chargeback of one that is not.
pub proof fn lemma_refusal_reasons(
    e: PaymentEngine,
    e2: PaymentEngine,
    t: Transaction,
    r: Option<Result<(), PaymentError>>,
)
    requires
        e.wf(),
        t.well_formed(),
        e.checked_processed(e2, t, r),
        !e.account_of(t.spec_client()).spec_locked(),
    ensures
        ({
            let c = t.spec_client();
            let id = t.spec_tx();
            let records = e.records_map();
            let m = TransactionModifier::spec_new(t.spec_kind(), c, id);
            &&& needs_amount(t.spec_kind()) && records.contains_key(id) ==> r == Some::<
                Result<(), PaymentError>,
            >(Err(PaymentError::TransactionIDNotUnique(id, t)))
            &&& t.spec_kind() == TransactionType::Withdrawal && !records.contains_key(id)
                && e.account_of(c).spec_available()@ < t.spec_amount()->Some_0@ ==> r == Some::<
                Result<(), PaymentError>,
            >(
                Err(
                    PaymentError::InsufficientFunds(
                        c,
                        TransactionRecord::spec_new(
                            t.spec_kind(),
                            c,
                            id,
                            t.spec_amount()->Some_0,
                            t.spec_disputed(),
                        ),
                    ),
                ),
            )
            &&& !needs_amount(t.spec_kind()) && !records.contains_key(id) ==> r == Some::<
                Result<(), PaymentError>,
            >(Err(PaymentError::TransactionNotFound(id, m)))
            &&& !needs_amount(t.spec_kind()) && records.contains_key(id) && records[id].spec_client()
                != c ==> r == Some::<Result<(), PaymentError>>(
                Err(PaymentError::InconsistentDisputeRequest(records[id].spec_client(), c, m)),
            )
            &&& t.spec_kind() == TransactionType::Dispute && records.contains_key(id)
                && records[id].spec_client() == c && records[id].spec_disputed() ==> r == Some::<
                Result<(), PaymentError>,
            >(Err(PaymentError::TransactionUnderDispute(id, m)))
            &&& (t.spec_kind() == TransactionType::Resolve || t.spec_kind()
                == TransactionType::Chargeback) && records.contains_key(id)
                && records[id].spec_client() == c && !records[id].spec_disputed() ==> r == Some::<
                Result<(), PaymentError>,
            >(Err(PaymentError::TransactionNotUnderDispute(id, m)))
        }),
{
}

} // verus!
