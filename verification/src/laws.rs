//! What holds of the processor over every transaction and every run of them.
use crate::account::Account;
use crate::decimal::{
    amount_of, decimal_checked_add, decimal_checked_sub, difference_is_exact,
    exact_difference_result, exact_sum_result, fits_value, sum_is_exact, Amount,
};
use crate::processor::{
    insufficient, non_positive_message, chargeback_step, deposit_step, dispute_check, dispute_step, process_step,
    resolve_step, withdrawal_step, ProcessorView,
};
use crate::account::{account_row, listing_text};
use crate::engine::{client_order, listed_clients, listing};
use crate::error::EngineErrorView;
use crate::transaction::{DepositRecord, Transaction, TransactionType};
use vstd::prelude::*;

verus! {

/// What a deposit record contributes to the funds held for client `c`.
pub open spec fn held_for(d: DepositRecord, c: u16) -> int {
    if d.client_id == c && d.disputed {
        d.amount.value()
    } else {
        0
    }
}

/// The sum of the amounts of the deposits of client `c` that are under dispute.
pub open spec fn disputed_sum(deps: Map<u32, DepositRecord>, c: u16) -> int
    decreases deps.dom().len(),
{
    if deps.dom().finite() && deps.dom().len() > 0 {
        let t = deps.dom().choose();
        proof {
            assert(deps.dom().contains(t));
            assert(deps.remove(t).dom() =~= deps.dom().remove(t));
        }
        held_for(deps[t], c) + disputed_sum(deps.remove(t), c)
    } else {
        0
    }
}

/// The sum does not depend on which deposit is taken first.
pub proof fn lemma_disputed_sum_remove(deps: Map<u32, DepositRecord>, t: u32, c: u16)
    requires
        deps.dom().finite(),
        deps.contains_key(t),
    ensures
        disputed_sum(deps, c) == held_for(deps[t], c) + disputed_sum(deps.remove(t), c),
    decreases deps.dom().len(),
{
    assert(deps.remove(t).dom() =~= deps.dom().remove(t));
    let u = deps.dom().choose();
    assert(deps.dom().contains(u));
    if u != t {
        assert(deps.remove(u).dom() =~= deps.dom().remove(u));
        lemma_disputed_sum_remove(deps.remove(u), t, c);
        lemma_disputed_sum_remove(deps.remove(t), u, c);
        assert(deps.remove(u).remove(t) =~= deps.remove(t).remove(u));
    }
}

/// Adding a deposit under a new transaction id adds its contribution.
pub proof fn lemma_disputed_sum_insert_new(
    deps: Map<u32, DepositRecord>,
    t: u32,
    d: DepositRecord,
    c: u16,
)
    requires
        deps.dom().finite(),
        !deps.contains_key(t),
    ensures
        disputed_sum(deps.insert(t, d), c) == held_for(d, c) + disputed_sum(deps, c),
{
    lemma_disputed_sum_remove(deps.insert(t, d), t, c);
    assert(deps.insert(t, d).remove(t) =~= deps);
}

/// Replacing the record of a transaction replaces its contribution.
pub proof fn lemma_disputed_sum_update(
    deps: Map<u32, DepositRecord>,
    t: u32,
    d: DepositRecord,
    c: u16,
)
    requires
        deps.dom().finite(),
        deps.contains_key(t),
    ensures
        disputed_sum(deps.insert(t, d), c) == disputed_sum(deps, c) - held_for(deps[t], c)
            + held_for(d, c),
{
    lemma_disputed_sum_remove(deps, t, c);
    lemma_disputed_sum_remove(deps.insert(t, d), t, c);
    assert(deps.insert(t, d).remove(t) =~= deps.remove(t));
}

/// No deposit of client `c` is under dispute: nothing is held for it.
pub proof fn lemma_disputed_sum_zero(deps: Map<u32, DepositRecord>, c: u16)
    requires
        deps.dom().finite(),
        forall|t: u32| #[trigger] deps.contains_key(t) ==> held_for(deps[t], c) == 0,
    ensures
        disputed_sum(deps, c) == 0,
    decreases deps.dom().len(),
{
    if deps.dom().len() > 0 {
        let t = deps.dom().choose();
        assert(deps.dom().contains(t));
        lemma_disputed_sum_remove(deps, t, c);
        assert(deps.remove(t).dom() =~= deps.dom().remove(t));
        lemma_disputed_sum_zero(deps.remove(t), c);
    }
}

/// What is held for a client, where every deposit is positive, is at least the
/// amount of any of its disputed deposits.
pub proof fn lemma_disputed_sum_covers(deps: Map<u32, DepositRecord>, t: u32, c: u16)
    requires
        deps.dom().finite(),
        forall|u: u32| #[trigger] deps.contains_key(u) ==> deps[u].amount.value() > 0,
        deps.contains_key(t),
    ensures
        disputed_sum(deps, c) >= held_for(deps[t], c),
        disputed_sum(deps, c) - held_for(deps[t], c) == disputed_sum(deps.remove(t), c),
        disputed_sum(deps.remove(t), c) >= 0,
{
    lemma_disputed_sum_remove(deps, t, c);
    lemma_disputed_sum_nonneg(deps.remove(t), c);
}

/// Where every deposit is positive, what is held for a client is not negative.
pub proof fn lemma_disputed_sum_nonneg(deps: Map<u32, DepositRecord>, c: u16)
    requires
        deps.dom().finite(),
        forall|u: u32| #[trigger] deps.contains_key(u) ==> deps[u].amount.value() > 0,
    ensures
        disputed_sum(deps, c) >= 0,
    decreases deps.dom().len(),
{
    if deps.dom().len() > 0 {
        let t = deps.dom().choose();
        assert(deps.dom().contains(t));
        lemma_disputed_sum_remove(deps, t, c);
        assert(deps.remove(t).dom() =~= deps.dom().remove(t));
        lemma_disputed_sum_nonneg(deps.remove(t), c);
    }
}

/// `x + y` as rust_decimal computes it is the exact sum, in range.
pub open spec fn exact_sum(x: Amount, y: Amount) -> bool {
    decimal_checked_add(x@, y@) matches Some(v) && amount_of(v)@ == v && amount_of(v).wf()
        && amount_of(v).value() == x.value() + y.value() && amount_of(v) == amount_of(
        exact_sum_result(x, y),
    )
}

/// `x - y` as rust_decimal computes it is the exact difference, in range.
pub open spec fn exact_difference(x: Amount, y: Amount) -> bool {
    decimal_checked_sub(x@, y@) matches Some(v) && amount_of(v)@ == v && amount_of(v).wf()
        && amount_of(v).value() == x.value() - y.value() && amount_of(v) == amount_of(
        exact_difference_result(x, y),
    )
}

/// `add_ok` and `sub_ok` hold of every addition and subtraction that the
/// transaction would perform on the state's funds.
pub open spec fn arithmetic_holds(
    s: ProcessorView,
    tx: Transaction,
    add_ok: spec_fn(Amount, Amount) -> bool,
    sub_ok: spec_fn(Amount, Amount) -> bool,
) -> bool {
    let acct = s.account_or_new(tx.client);
    match tx.tx_type {
        TransactionType::Deposit => match tx.amount {
            Some(a) => (a.value() > 0 && !s.deposits.contains_key(tx.tx) && !acct.locked)
                ==> add_ok(acct.available, a),
            None => true,
        },
        TransactionType::Withdrawal => match tx.amount {
            Some(a) => (a.value() > 0 && !acct.locked && acct.available.value() >= a.value())
                ==> sub_ok(acct.available, a),
            None => true,
        },
        TransactionType::Dispute => {
            let amt = s.deposits[tx.tx].amount;
            (dispute_check(s, tx, false) is None && acct.available.value() >= amt.value()) ==> (
            sub_ok(acct.available, amt) && add_ok(acct.held, amt))
        },
        TransactionType::Resolve => {
            let amt = s.deposits[tx.tx].amount;
            dispute_check(s, tx, true) is None ==> (sub_ok(acct.held, amt) && add_ok(
                acct.available,
                amt,
            ))
        },
        TransactionType::Chargeback => {
            let amt = s.deposits[tx.tx].amount;
            dispute_check(s, tx, true) is None ==> sub_ok(acct.held, amt)
        },
    }
}

/// Every addition and subtraction the transaction performs is exact by
/// rust_decimal's own guarantee: no operand nor result needs more than 96 bits.
pub open spec fn step_exact(s: ProcessorView, tx: Transaction) -> bool {
    arithmetic_holds(
        s,
        tx,
        |x: Amount, y: Amount| sum_is_exact(x, y),
        |x: Amount, y: Amount| difference_is_exact(x, y),
    )
}

/// Every addition and subtraction the transaction performs gave the exact result.
pub open spec fn step_named_exact(s: ProcessorView, tx: Transaction) -> bool {
    arithmetic_holds(
        s,
        tx,
        |x: Amount, y: Amount| exact_sum(x, y),
        |x: Amount, y: Amount| exact_difference(x, y),
    )
}

/// Every addition and subtraction the transaction performs has a result within
/// the decimal range.
pub open spec fn step_fits(s: ProcessorView, tx: Transaction) -> bool {
    arithmetic_holds(
        s,
        tx,
        |x: Amount, y: Amount| fits_value(x.value() + y.value()),
        |x: Amount, y: Amount| fits_value(x.value() - y.value()),
    )
}

/// Every addition and subtraction the transaction performs gave a result: none
/// overflowed.
pub open spec fn step_named_defined(s: ProcessorView, tx: Transaction) -> bool {
    arithmetic_holds(
        s,
        tx,
        |x: Amount, y: Amount| decimal_checked_add(x@, y@) is Some,
        |x: Amount, y: Amount| decimal_checked_sub(x@, y@) is Some,
    )
}

/// The bookkeeping of one client's account.
pub open spec fn account_sound(s: ProcessorView, c: u16) -> bool {
    let a = s.accounts[c];
    &&& a.client_id == c
    &&& a.available.value() >= 0
    &&& a.held.value() >= 0
    &&& !a.locked ==> a.held.value() == disputed_sum(s.deposits, c)
}

/// The processor's books are sound: no balance is negative, an unlocked account
/// holds exactly the sum of its disputed deposits, and every deposit is positive
/// and belongs to an existing account.
pub open spec fn consistent(s: ProcessorView) -> bool {
    &&& s.wf()
    &&& s.deposits.dom().finite()
    &&& forall|c: u16| #[trigger] s.accounts.contains_key(c) ==> account_sound(s, c)
    &&& forall|t: u32| #[trigger]
        s.deposits.contains_key(t) ==> {
            &&& s.deposits[t].amount.value() > 0
            &&& s.accounts.contains_key(s.deposits[t].client_id)
        }
}

/// A processor with no accounts is consistent.
pub proof fn lemma_empty_consistent()
    ensures
        consistent(ProcessorView::empty()),
{
    assert(ProcessorView::empty().deposits.dom() =~= Set::<u32>::empty());
}

/// Putting the client's (possibly new, empty) account in place keeps the books sound.
pub proof fn lemma_with_account_or_new(s: ProcessorView, c: u16)
    requires
        consistent(s),
    ensures
        consistent(s.with_account(c, s.account_or_new(c))),
        s.account_or_new(c).client_id == c,
        !s.account_or_new(c).locked ==> s.account_or_new(c).held.value() == disputed_sum(
            s.deposits,
            c,
        ),
        s.account_or_new(c).available.value() >= 0,
        s.account_or_new(c).held.value() >= 0,
        s.account_or_new(c).wf(),
{
    let s1 = s.with_account(c, s.account_or_new(c));
    if s.accounts.contains_key(c) {
        assert(account_sound(s, c));
        assert(s1.accounts =~= s.accounts);
    } else {
        assert forall|t: u32| #[trigger] s.deposits.contains_key(t) implies held_for(
            s.deposits[t],
            c,
        ) == 0 by {}
        lemma_disputed_sum_zero(s.deposits, c);
        assert forall|d: u16| #[trigger] s1.accounts.contains_key(d) implies account_sound(
            s1,
            d,
        ) by {
            if d != c {
                assert(account_sound(s, d));
            }
        }
    }
}

proof fn lemma_deposit_consistent(s: ProcessorView, tx: Transaction)
    requires
        consistent(s),
        tx.wf(),
        tx.tx_type == TransactionType::Deposit,
        step_named_exact(s, tx),
    ensures
        consistent(deposit_step(s, tx).0),
{
    if let Some(a) = tx.amount {
        if a.value() > 0 && !s.deposits.contains_key(tx.tx) {
            let c = tx.client;
            let acct = s.account_or_new(c);
            lemma_with_account_or_new(s, c);
            if !acct.locked {
                assert(exact_sum(acct.available, a));
                let s2 = deposit_step(s, tx).0;
                let rec = DepositRecord { client_id: c, amount: a, disputed: false };
                assert(s2.deposits == s.deposits.insert(tx.tx, rec));
                assert forall|d: u16| #[trigger] s2.accounts.contains_key(d) implies account_sound(
                    s2,
                    d,
                ) by {
                    lemma_disputed_sum_insert_new(s.deposits, tx.tx, rec, d);
                    if d != c {
                        assert(account_sound(s, d));
                    }
                }
                assert forall|t: u32| #[trigger] s2.deposits.contains_key(t) implies {
                    &&& s2.deposits[t].amount.value() > 0
                    &&& s2.accounts.contains_key(s2.deposits[t].client_id)
                } by {
                    if t != tx.tx {
                        assert(s.deposits.contains_key(t));
                    }
                }
            }
        }
    }
}

proof fn lemma_withdrawal_consistent(s: ProcessorView, tx: Transaction)
    requires
        consistent(s),
        tx.wf(),
        tx.tx_type == TransactionType::Withdrawal,
        step_named_exact(s, tx),
    ensures
        consistent(withdrawal_step(s, tx).0),
{
    if let Some(a) = tx.amount {
        if a.value() > 0 {
            let c = tx.client;
            let acct = s.account_or_new(c);
            lemma_with_account_or_new(s, c);
            if !acct.locked && acct.available.value() >= a.value() {
                assert(exact_difference(acct.available, a));
                let s2 = withdrawal_step(s, tx).0;
                assert forall|d: u16| #[trigger] s2.accounts.contains_key(d) implies account_sound(
                    s2,
                    d,
                ) by {
                    if d != c {
                        assert(account_sound(s, d));
                    }
                }
                assert forall|t: u32| #[trigger] s2.deposits.contains_key(t) implies {
                    &&& s2.deposits[t].amount.value() > 0
                    &&& s2.accounts.contains_key(s2.deposits[t].client_id)
                } by {
                    assert(s.deposits.contains_key(t));
                }
            }
        }
    }
}

proof fn lemma_dispute_consistent(s: ProcessorView, tx: Transaction)
    requires
        consistent(s),
        tx.wf(),
        tx.tx_type == TransactionType::Dispute,
        step_named_exact(s, tx),
    ensures
        consistent(dispute_step(s, tx).0),
{
    if dispute_check(s, tx, false) is None {
        let c = tx.client;
        let d = s.deposits[tx.tx];
        let acct = s.accounts[c];
        assert(account_sound(s, c));
        assert(s.account_or_new(c) == acct);
        if acct.available.value() >= d.amount.value() {
            assert(exact_difference(acct.available, d.amount));
            assert(exact_sum(acct.held, d.amount));
            let s2 = dispute_step(s, tx).0;
            let rec = DepositRecord { disputed: true, ..d };
            assert(s2.deposits == s.deposits.insert(tx.tx, rec));
            assert forall|e: u16| #[trigger] s2.accounts.contains_key(e) implies account_sound(
                s2,
                e,
            ) by {
                lemma_disputed_sum_update(s.deposits, tx.tx, rec, e);
                if e != c {
                    assert(account_sound(s, e));
                }
            }
            assert forall|t: u32| #[trigger] s2.deposits.contains_key(t) implies {
                &&& s2.deposits[t].amount.value() > 0
                &&& s2.accounts.contains_key(s2.deposits[t].client_id)
            } by {
                assert(s.deposits.contains_key(t));
            }
        }
    }
}

proof fn lemma_resolve_consistent(s: ProcessorView, tx: Transaction)
    requires
        consistent(s),
        tx.wf(),
        tx.tx_type == TransactionType::Resolve,
        step_named_exact(s, tx),
    ensures
        consistent(resolve_step(s, tx).0),
{
    if dispute_check(s, tx, true) is None {
        let c = tx.client;
        let d = s.deposits[tx.tx];
        let acct = s.accounts[c];
        assert(account_sound(s, c));
        assert(s.account_or_new(c) == acct);
        assert(exact_difference(acct.held, d.amount));
        assert(exact_sum(acct.available, d.amount));
        let s2 = resolve_step(s, tx).0;
        assert(s2.deposits == s.deposits.remove(tx.tx));
        lemma_disputed_sum_covers(s.deposits, tx.tx, c);
        assert(s2.deposits.dom() =~= s.deposits.dom().remove(tx.tx));
        assert forall|e: u16| #[trigger] s2.accounts.contains_key(e) implies account_sound(
            s2,
            e,
        ) by {
            lemma_disputed_sum_remove(s.deposits, tx.tx, e);
            if e != c {
                assert(account_sound(s, e));
            }
        }
        assert forall|t: u32| #[trigger] s2.deposits.contains_key(t) implies {
            &&& s2.deposits[t].amount.value() > 0
            &&& s2.accounts.contains_key(s2.deposits[t].client_id)
        } by {
            assert(s.deposits.contains_key(t));
        }
    }
}

proof fn lemma_chargeback_consistent(s: ProcessorView, tx: Transaction)
    requires
        consistent(s),
        tx.wf(),
        tx.tx_type == TransactionType::Chargeback,
        step_named_exact(s, tx),
    ensures
        consistent(chargeback_step(s, tx).0),
{
    if dispute_check(s, tx, true) is None {
        let c = tx.client;
        let d = s.deposits[tx.tx];
        let acct = s.accounts[c];
        assert(account_sound(s, c));
        assert(s.account_or_new(c) == acct);
        assert(exact_difference(acct.held, d.amount));
        let s2 = chargeback_step(s, tx).0;
        lemma_disputed_sum_covers(s.deposits, tx.tx, c);
        assert(s2.deposits == s.deposits.remove(tx.tx));
        assert(s2.deposits.dom() =~= s.deposits.dom().remove(tx.tx));
        assert forall|e: u16| #[trigger] s2.accounts.contains_key(e) implies account_sound(
            s2,
            e,
        ) by {
            lemma_disputed_sum_remove(s.deposits, tx.tx, e);
            if e != c {
                assert(account_sound(s, e));
            }
        }
        assert forall|t: u32| #[trigger] s2.deposits.contains_key(t) implies {
            &&& s2.deposits[t].amount.value() > 0
            &&& s2.accounts.contains_key(s2.deposits[t].client_id)
        } by {
            assert(s.deposits.contains_key(t));
        }
    }
}

/// Balances never go negative: every transaction whose arithmetic is exact
/// keeps the books consistent (see [`consistent`]).
pub proof fn lemma_step_preserves_consistency(s: ProcessorView, tx: Transaction)
    requires
        consistent(s),
        tx.wf(),
        step_named_exact(s, tx),
    ensures
        consistent(process_step(s, tx).0),
{
    match tx.tx_type {
        TransactionType::Deposit => lemma_deposit_consistent(s, tx),
        TransactionType::Withdrawal => lemma_withdrawal_consistent(s, tx),
        TransactionType::Dispute => lemma_dispute_consistent(s, tx),
        TransactionType::Resolve => lemma_resolve_consistent(s, tx),
        TransactionType::Chargeback => lemma_chargeback_consistent(s, tx),
    }
}

/// The state after processing `txs` in order, whatever each one reports.
pub open spec fn run(s: ProcessorView, txs: Seq<Transaction>) -> ProcessorView
    decreases txs.len(),
{
    if txs.len() == 0 {
        s
    } else {
        run(process_step(s, txs[0]).0, txs.drop_first())
    }
}

/// Every transaction of the run, in the state it meets, has exact arithmetic.
pub open spec fn run_named_exact(s: ProcessorView, txs: Seq<Transaction>) -> bool
    decreases txs.len(),
{
    txs.len() == 0 || (step_named_exact(s, txs[0]) && run_named_exact(
        process_step(s, txs[0]).0,
        txs.drop_first(),
    ))
}

/// Balances never go negative over any run of transactions whose arithmetic is
/// exact: the books stay consistent from the first transaction to the last.
pub proof fn lemma_run_preserves_consistency(s: ProcessorView, txs: Seq<Transaction>)
    requires
        consistent(s),
        forall|i: int| 0 <= i < txs.len() ==> #[trigger] txs[i].wf(),
        run_named_exact(s, txs),
    ensures
        consistent(run(s, txs)),
    decreases txs.len(),
{
    if txs.len() > 0 {
        assert(txs[0].wf());
        lemma_step_preserves_consistency(s, txs[0]);
        assert forall|i: int| 0 <= i < txs.drop_first().len() implies #[trigger] txs.drop_first()[i].wf() by {
            assert(txs[i + 1].wf());
        }
        lemma_run_preserves_consistency(process_step(s, txs[0]).0, txs.drop_first());
    }
}

/// A locked account never changes again, whatever transaction comes.
pub proof fn lemma_locked_account_frozen(s: ProcessorView, tx: Transaction, c: u16)
    requires
        s.accounts.contains_key(c),
        s.accounts[c].locked,
    ensures
        process_step(s, tx).0.accounts.contains_key(c),
        process_step(s, tx).0.accounts[c] == s.accounts[c],
{
}

/// A locked account never changes again, over any run of transactions.
pub proof fn lemma_run_locked_account_frozen(s: ProcessorView, txs: Seq<Transaction>, c: u16)
    requires
        s.accounts.contains_key(c),
        s.accounts[c].locked,
    ensures
        run(s, txs).accounts.contains_key(c),
        run(s, txs).accounts[c] == s.accounts[c],
    decreases txs.len(),
{
    if txs.len() > 0 {
        lemma_locked_account_frozen(s, txs[0], c);
        lemma_run_locked_account_frozen(process_step(s, txs[0]).0, txs.drop_first(), c);
    }
}

/// Available plus held.
pub open spec fn funds(a: Account) -> int {
    a.available.value() + a.held.value()
}

/// How much a transaction moves into (or, negative, out of) its client's funds:
/// the amount of an accepted deposit, minus that of an accepted withdrawal or
/// chargeback, and nothing for disputes, resolutions and anything refused.
pub open spec fn funds_moved(s: ProcessorView, tx: Transaction, r: Result<(), EngineErrorView>) -> int {
    if r is Err {
        0
    } else {
        match tx.tx_type {
            TransactionType::Deposit => tx.amount.unwrap().value(),
            TransactionType::Withdrawal => -tx.amount.unwrap().value(),
            TransactionType::Chargeback => -s.deposits[tx.tx].amount.value(),
            _ => 0,
        }
    }
}

/// A transaction touches only its own client's account, and moves that client's
/// funds by exactly [`funds_moved`]: disputes and resolutions only shift funds
/// between available and held.
pub proof fn lemma_funds_change(s: ProcessorView, tx: Transaction)
    requires
        step_named_exact(s, tx),
    ensures
        ({
            let (s2, r) = process_step(s, tx);
            &&& forall|c: u16| #[trigger]
                s.accounts.contains_key(c) && c != tx.client ==> s2.accounts.contains_key(c)
                    && s2.accounts[c] == s.accounts[c]
            &&& forall|c: u16| #[trigger]
                s2.accounts.contains_key(c) ==> (s.accounts.contains_key(c) || c == tx.client)
            &&& s2.accounts.contains_key(tx.client) ==> funds(s2.accounts[tx.client]) == funds(
                s.account_or_new(tx.client),
            ) + funds_moved(s, tx, r)
        }),
{
    let c = tx.client;
    let acct = s.account_or_new(c);
    match tx.tx_type {
        TransactionType::Deposit => {
            if let Some(a) = tx.amount {
                if a.value() > 0 && !s.deposits.contains_key(tx.tx) && !acct.locked {
                    assert(exact_sum(acct.available, a));
                }
            }
        },
        TransactionType::Withdrawal => {
            if let Some(a) = tx.amount {
                if a.value() > 0 && !acct.locked && acct.available.value() >= a.value() {
                    assert(exact_difference(acct.available, a));
                }
            }
        },
        TransactionType::Dispute => {
            if dispute_check(s, tx, false) is None {
                assert(acct == s.accounts[c]);
                let amt = s.deposits[tx.tx].amount;
                if acct.available.value() >= amt.value() {
                    assert(exact_difference(acct.available, amt));
                    assert(exact_sum(acct.held, amt));
                }
            }
        },
        TransactionType::Resolve => {
            if dispute_check(s, tx, true) is None {
                assert(acct == s.accounts[c]);
                let amt = s.deposits[tx.tx].amount;
                assert(exact_difference(acct.held, amt));
                assert(exact_sum(acct.available, amt));
            }
        },
        TransactionType::Chargeback => {
            if dispute_check(s, tx, true) is None {
                assert(acct == s.accounts[c]);
                let amt = s.deposits[tx.tx].amount;
                assert(exact_difference(acct.held, amt));
            }
        },
    }
}

/// A refused transaction changes nothing, except that a withdrawal refused for
/// a client without an account leaves that client an empty account.
pub proof fn lemma_refusal_changes_nothing(s: ProcessorView, tx: Transaction)
    requires
        step_named_defined(s, tx),
        process_step(s, tx).1 is Err,
    ensures
        process_step(s, tx).0.deposits == s.deposits,
        process_step(s, tx).0.accounts == s.accounts || (!s.accounts.contains_key(tx.client)
            && process_step(s, tx).0.accounts == s.accounts.insert(
            tx.client,
            Account::spec_new(tx.client),
        )),
{
    let c = tx.client;
    let acct = s.account_or_new(c);
    if s.accounts.contains_key(c) {
        assert(s.accounts.insert(c, acct) =~= s.accounts);
    }
    match tx.tx_type {
        TransactionType::Deposit => {
            if let Some(a) = tx.amount {
                if a.value() > 0 && !s.deposits.contains_key(tx.tx) && !acct.locked {
                    assert(decimal_checked_add(acct.available@, a@) is Some);
                }
            }
        },
        TransactionType::Withdrawal => {
            if let Some(a) = tx.amount {
                if a.value() > 0 && !acct.locked && acct.available.value() >= a.value() {
                    assert(decimal_checked_sub(acct.available@, a@) is Some);
                }
            }
        },
        TransactionType::Dispute => {
            if dispute_check(s, tx, false) is None {
                assert(acct == s.accounts[c]);
                let amt = s.deposits[tx.tx].amount;
                if acct.available.value() >= amt.value() {
                    assert(decimal_checked_sub(acct.available@, amt@) is Some);
                    assert(decimal_checked_add(acct.held@, amt@) is Some);
                }
            }
        },
        TransactionType::Resolve => {
            if dispute_check(s, tx, true) is None {
                assert(acct == s.accounts[c]);
                let amt = s.deposits[tx.tx].amount;
                assert(decimal_checked_sub(acct.held@, amt@) is Some);
                assert(decimal_checked_add(acct.available@, amt@) is Some);
            }
        },
        TransactionType::Chargeback => {
            if dispute_check(s, tx, true) is None {
                assert(acct == s.accounts[c]);
                let amt = s.deposits[tx.tx].amount;
                assert(decimal_checked_sub(acct.held@, amt@) is Some);
            }
        },
    }
}

/// Resolving a dispute undoes it: after an accepted dispute, resolving the same
/// transaction for the same client is accepted, puts the client's available and
/// held funds back where they were, and forgets the deposit.
pub proof fn lemma_resolve_undoes_dispute(s: ProcessorView, tx: Transaction)
    requires
        tx.tx_type == TransactionType::Dispute,
        process_step(s, tx).1 is Ok,
        step_named_exact(s, tx),
        step_named_exact(process_step(s, tx).0, Transaction { tx_type: TransactionType::Resolve, ..tx }),
    ensures
        ({
            let s1 = process_step(s, tx).0;
            let (s2, r) = process_step(s1, Transaction { tx_type: TransactionType::Resolve, ..tx });
            &&& r is Ok
            &&& s2.deposits == s.deposits.remove(tx.tx)
            &&& s2.accounts.dom() == s.accounts.dom()
            &&& s2.accounts[tx.client].available.value() == s.accounts[tx.client].available.value()
            &&& s2.accounts[tx.client].held.value() == s.accounts[tx.client].held.value()
            &&& s2.accounts[tx.client].locked == s.accounts[tx.client].locked
            &&& forall|c: u16| #[trigger]
                s.accounts.contains_key(c) && c != tx.client ==> s2.accounts[c] == s.accounts[c]
        }),
{
    let c = tx.client;
    let acct = s.accounts[c];
    let amt = s.deposits[tx.tx].amount;
    assert(s.account_or_new(c) == acct);
    assert(exact_difference(acct.available, amt));
    assert(exact_sum(acct.held, amt));
    let s1 = process_step(s, tx).0;
    let tx2 = Transaction { tx_type: TransactionType::Resolve, ..tx };
    assert(dispute_check(s1, tx2, true) is None);
    assert(s1.account_or_new(c) == s1.accounts[c]);
    assert(exact_difference(s1.accounts[c].held, amt));
    assert(exact_sum(s1.accounts[c].available, amt));
    let s2 = process_step(s1, tx2).0;
    assert(s2.deposits =~= s.deposits.remove(tx.tx));
    assert(s2.accounts.dom() =~= s.accounts.dom());
}

/// A resolved or charged-back deposit cannot be disputed, resolved or charged
/// back again: its record is gone, so any of these on the same transaction is
/// not found.
pub proof fn lemma_settled_deposit_is_forgotten(s: ProcessorView, tx: Transaction, next: Transaction)
    requires
        tx.tx_type == TransactionType::Resolve || tx.tx_type == TransactionType::Chargeback,
        process_step(s, tx).1 is Ok,
        next.tx == tx.tx,
        next.tx_type != TransactionType::Deposit,
        next.tx_type != TransactionType::Withdrawal,
    ensures
        process_step(process_step(s, tx).0, next) == (
            process_step(s, tx).0,
            Err::<(), EngineErrorView>(EngineErrorView::TransactionNotFound(tx.tx)),
        ),
{
}

/// Transaction ids of deposits are never reused while recorded: an accepted
/// deposit is recorded, and any later deposit under the same id is refused as a
/// duplicate without changing anything.
pub proof fn lemma_deposit_id_taken(s: ProcessorView, tx: Transaction, next: Transaction)
    requires
        tx.tx_type == TransactionType::Deposit,
        process_step(s, tx).1 is Ok,
        next.tx_type == TransactionType::Deposit,
        next.tx == tx.tx,
        next.amount matches Some(a) && a.value() > 0,
    ensures
        process_step(s, tx).0.deposits.contains_key(tx.tx),
        process_step(process_step(s, tx).0, next) == (
            process_step(s, tx).0,
            Err::<(), EngineErrorView>(EngineErrorView::DuplicateTransaction(tx.tx)),
        ),
{
}

/// The clients below `n` that satisfy `pred`, in the order of [`client_order`],
/// come in strictly increasing order.
proof fn lemma_client_prefix_filter_increasing(pred: spec_fn(u16) -> bool, n: int)
    requires
        0 <= n <= 65536,
    ensures
        forall|i: int, j: int|
            0 <= i < j < client_order().take(n).filter(pred).len() ==> client_order().take(n).filter(
                pred,
            )[i] < client_order().take(n).filter(pred)[j],
        forall|i: int|
            0 <= i < client_order().take(n).filter(pred).len() ==> client_order().take(n).filter(
                pred,
            )[i] < n,
    decreases n,
{
    if n > 0 {
        lemma_client_prefix_filter_increasing(pred, n - 1);
        let c: u16 = (n - 1) as u16;
        assert(client_order().take(n) == client_order().take(n - 1).push(c));
        client_order().take(n - 1).lemma_filter_push(c, pred);
    } else {
        assert(client_order().take(0).filter(pred).len() == 0) by {
            client_order().take(0).lemma_filter_len(pred);
        }
    }
}

/// The account listing has one row for each account, and none other, by
/// strictly increasing client id.
pub proof fn lemma_listing_in_client_order(s: ProcessorView)
    requires
        consistent(s),
    ensures
        forall|i: int, j: int|
            0 <= i < j < listing(s.accounts).len() ==> listing(s.accounts)[i].client < listing(
                s.accounts,
            )[j].client,
        forall|i: int|
            0 <= i < listing(s.accounts).len() ==> s.accounts.contains_key(
                #[trigger] listing(s.accounts)[i].client,
            ),
        forall|c: u16|
            #[trigger] s.accounts.contains_key(c) ==> exists|i: int|
                0 <= i < listing(s.accounts).len() && listing(s.accounts)[i].client == c,
{
    let m = s.accounts;
    let pred = |c: u16| m.contains_key(c);
    let f = listed_clients(m);
    assert(client_order().take(65536) == client_order());
    lemma_client_prefix_filter_increasing(pred, 65536);
    assert forall|i: int| 0 <= i < f.len() implies m.contains_key(#[trigger] f[i]) && listing(m)[i].client == f[i] by {
        client_order().lemma_filter_pred(pred, i);
        assert(account_sound(s, f[i]));
    }
    assert forall|c: u16| #[trigger] m.contains_key(c) implies exists|i: int|
        0 <= i < listing(m).len() && listing(m)[i].client == c by {
        let k: int = c as int;
        assert(client_order()[k] == c);
        client_order().lemma_filter_contains(pred, k);
        let i: int = f.index_of(c);
        assert(f[i] == c);
        assert(listing(m)[i].client == c);
    }
}

/// Only a deposit or a withdrawal of a positive amount opens an account, and only
/// for its own client; a new account starts unlocked with nothing held.
pub proof fn lemma_account_creation(s: ProcessorView, tx: Transaction, c: u16)
    requires
        !s.accounts.contains_key(c),
        process_step(s, tx).0.accounts.contains_key(c),
    ensures
        c == tx.client,
        tx.tx_type == TransactionType::Deposit || tx.tx_type == TransactionType::Withdrawal,
        tx.amount matches Some(a) && a.value() > 0,
        !process_step(s, tx).0.accounts[c].locked,
        process_step(s, tx).0.accounts[c].held == Amount::spec_zero(),
{
}

/// Accounts other than client `c`'s are untouched from `s` to `s2`.
pub open spec fn others_unchanged(s: ProcessorView, s2: ProcessorView, c: u16) -> bool {
    &&& s2.accounts.dom() == s.accounts.dom().insert(c)
    &&& forall|e: u16| #[trigger]
        s.accounts.contains_key(e) && e != c ==> s2.accounts[e] == s.accounts[e]
}

/// A deposit of a positive amount under a transaction id not yet recorded, to an
/// unlocked (or new) account, is accepted whatever the account's balance: it
/// raises available by exactly the amount, leaves held and the lock alone,
/// records the deposit as undisputed, and touches no other account.
pub proof fn lemma_deposit_accepted(s: ProcessorView, tx: Transaction, a: Amount)
    requires
        tx.tx_type == TransactionType::Deposit,
        tx.amount == Some(a),
        a.value() > 0,
        !s.deposits.contains_key(tx.tx),
        !s.account_or_new(tx.client).locked,
        step_named_exact(s, tx),
    ensures
        ({
            let (s2, r) = process_step(s, tx);
            let before = s.account_or_new(tx.client);
            let after = s2.accounts[tx.client];
            &&& r is Ok
            &&& after.available.value() == before.available.value() + a.value()
            &&& after.held == before.held
            &&& after.locked == before.locked
            &&& after.client_id == before.client_id
            &&& s2.deposits == s.deposits.insert(
                tx.tx,
                DepositRecord { client_id: tx.client, amount: a, disputed: false },
            )
            &&& others_unchanged(s, s2, tx.client)
        }),
{
    let acct = s.account_or_new(tx.client);
    assert(exact_sum(acct.available, a));
    let s2 = process_step(s, tx).0;
    assert(s2.accounts.dom() =~= s.accounts.dom().insert(tx.client));
}

/// A withdrawal of a positive amount from an unlocked (or new) account whose
/// available funds cover it is accepted whatever is held: it lowers available by
/// exactly the amount, leaves held, the lock and the deposits alone, and touches
/// no other account.
pub proof fn lemma_withdrawal_accepted(s: ProcessorView, tx: Transaction, a: Amount)
    requires
        tx.tx_type == TransactionType::Withdrawal,
        tx.amount == Some(a),
        a.value() > 0,
        !s.account_or_new(tx.client).locked,
        s.account_or_new(tx.client).available.value() >= a.value(),
        step_named_exact(s, tx),
    ensures
        ({
            let (s2, r) = process_step(s, tx);
            let before = s.account_or_new(tx.client);
            let after = s2.accounts[tx.client];
            &&& r is Ok
            &&& after.available.value() == before.available.value() - a.value()
            &&& after.held == before.held
            &&& after.locked == before.locked
            &&& after.client_id == before.client_id
            &&& s2.deposits == s.deposits
            &&& others_unchanged(s, s2, tx.client)
        }),
{
    let acct = s.account_or_new(tx.client);
    assert(exact_difference(acct.available, a));
    let s2 = process_step(s, tx).0;
    assert(s2.accounts.dom() =~= s.accounts.dom().insert(tx.client));
}

/// A dispute, by its own client, of an undisputed deposit on an unlocked account
/// whose available funds cover the deposit is accepted whatever is already held:
/// it moves exactly the deposit's amount from available to held, marks that
/// deposit (and only it) disputed, and touches no other account.
pub proof fn lemma_dispute_accepted(s: ProcessorView, tx: Transaction)
    requires
        tx.tx_type == TransactionType::Dispute,
        s.deposits.contains_key(tx.tx),
        s.deposits[tx.tx].client_id == tx.client,
        !s.deposits[tx.tx].disputed,
        s.accounts.contains_key(tx.client),
        !s.accounts[tx.client].locked,
        s.accounts[tx.client].available.value() >= s.deposits[tx.tx].amount.value(),
        step_named_exact(s, tx),
    ensures
        ({
            let (s2, r) = process_step(s, tx);
            let d = s.deposits[tx.tx];
            let before = s.accounts[tx.client];
            let after = s2.accounts[tx.client];
            &&& r is Ok
            &&& after.available.value() == before.available.value() - d.amount.value()
            &&& after.held.value() == before.held.value() + d.amount.value()
            &&& after.locked == before.locked
            &&& after.client_id == before.client_id
            &&& s2.deposits == s.deposits.insert(tx.tx, DepositRecord { disputed: true, ..d })
            &&& others_unchanged(s, s2, tx.client)
        }),
{
    let acct = s.accounts[tx.client];
    let d = s.deposits[tx.tx];
    assert(s.account_or_new(tx.client) == acct);
    assert(exact_difference(acct.available, d.amount));
    assert(exact_sum(acct.held, d.amount));
    let s2 = process_step(s, tx).0;
    assert(s2.accounts.dom() =~= s.accounts.dom().insert(tx.client));
}

/// In any state, a resolution, by its own client, of a disputed deposit on an
/// unlocked account is accepted: it moves exactly the deposit's amount from held
/// back to available, forgets the deposit, and touches no other account.
pub proof fn lemma_resolve_accepted(s: ProcessorView, tx: Transaction)
    requires
        tx.tx_type == TransactionType::Resolve,
        s.deposits.contains_key(tx.tx),
        s.deposits[tx.tx].client_id == tx.client,
        s.deposits[tx.tx].disputed,
        s.accounts.contains_key(tx.client),
        !s.accounts[tx.client].locked,
        step_named_exact(s, tx),
    ensures
        ({
            let (s2, r) = process_step(s, tx);
            let d = s.deposits[tx.tx];
            let before = s.accounts[tx.client];
            let after = s2.accounts[tx.client];
            &&& r is Ok
            &&& after.available.value() == before.available.value() + d.amount.value()
            &&& after.held.value() == before.held.value() - d.amount.value()
            &&& after.locked == before.locked
            &&& after.client_id == before.client_id
            &&& s2.deposits == s.deposits.remove(tx.tx)
            &&& others_unchanged(s, s2, tx.client)
        }),
{
    let acct = s.accounts[tx.client];
    let d = s.deposits[tx.tx];
    assert(s.account_or_new(tx.client) == acct);
    assert(exact_difference(acct.held, d.amount));
    assert(exact_sum(acct.available, d.amount));
    let s2 = process_step(s, tx).0;
    assert(s2.accounts.dom() =~= s.accounts.dom().insert(tx.client));
}

/// In any state, a chargeback, by its own client, of a disputed deposit on an
/// unlocked account is accepted: it takes exactly the deposit's amount out of
/// held, leaves available alone, locks the account, forgets the deposit, and
/// touches no other account.
pub proof fn lemma_chargeback_accepted(s: ProcessorView, tx: Transaction)
    requires
        tx.tx_type == TransactionType::Chargeback,
        s.deposits.contains_key(tx.tx),
        s.deposits[tx.tx].client_id == tx.client,
        s.deposits[tx.tx].disputed,
        s.accounts.contains_key(tx.client),
        !s.accounts[tx.client].locked,
        step_named_exact(s, tx),
    ensures
        ({
            let (s2, r) = process_step(s, tx);
            let d = s.deposits[tx.tx];
            let before = s.accounts[tx.client];
            let after = s2.accounts[tx.client];
            &&& r is Ok
            &&& after.available == before.available
            &&& after.held.value() == before.held.value() - d.amount.value()
            &&& after.locked
            &&& after.client_id == before.client_id
            &&& s2.deposits == s.deposits.remove(tx.tx)
            &&& others_unchanged(s, s2, tx.client)
        }),
{
    let acct = s.accounts[tx.client];
    let d = s.deposits[tx.tx];
    assert(s.account_or_new(tx.client) == acct);
    assert(exact_difference(acct.held, d.amount));
    let s2 = process_step(s, tx).0;
    assert(s2.accounts.dom() =~= s.accounts.dom().insert(tx.client));
}

/// The listing row of an account shows its available and held funds, and as its
/// total their exact sum: an amount whose value is available plus held.
pub proof fn lemma_listing_total(a: Account)
    requires
        a.wf(),
        exact_sum(a.available, a.held),
    ensures
        account_row(a).available == listing_text(a.available@),
        account_row(a).held == listing_text(a.held@),
        account_row(a).total == listing_text(amount_of(exact_sum_result(a.available, a.held))@),
        amount_of(exact_sum_result(a.available, a.held)).value() == a.available.value()
            + a.held.value(),
        account_row(a).locked == a.locked,
        account_row(a).client == a.client_id,
{
}

/// Why a deposit is refused: a missing or non-positive amount, a transaction id
/// already recorded, or a locked account; each refusal leaves everything as it was.
pub proof fn lemma_deposit_refusals(s: ProcessorView, tx: Transaction)
    requires
        tx.tx_type == TransactionType::Deposit,
    ensures
        tx.amount is None ==> process_step(s, tx) == (
            s,
            Err::<(), EngineErrorView>(EngineErrorView::InvalidTransaction("Deposit missing amount"@)),
        ),
        tx.amount matches Some(a) && a.value() <= 0 ==> process_step(s, tx) == (
            s,
            Err::<(), EngineErrorView>(
                EngineErrorView::InvalidTransaction(
                    non_positive_message("Deposit"@, tx.tx, tx.amount.unwrap()),
                ),
            ),
        ),
        tx.amount matches Some(a) && a.value() > 0 && s.deposits.contains_key(tx.tx)
            ==> process_step(s, tx) == (
            s,
            Err::<(), EngineErrorView>(EngineErrorView::DuplicateTransaction(tx.tx)),
        ),
        tx.amount matches Some(a) && a.value() > 0 && !s.deposits.contains_key(tx.tx)
            && s.account_or_new(tx.client).locked ==> process_step(s, tx).1 == Err::<
            (),
            EngineErrorView,
        >(EngineErrorView::AccountLocked(tx.client)) && process_step(s, tx).0 == s,
{
    if s.accounts.contains_key(tx.client) {
        assert(s.accounts.insert(tx.client, s.accounts[tx.client]) =~= s.accounts);
    }
}

/// Why a withdrawal is refused: a missing or non-positive amount, a locked
/// account, or available funds short of the amount. Nothing but the client's
/// account, opened empty where it was missing, is touched.
pub proof fn lemma_withdrawal_refusals(s: ProcessorView, tx: Transaction)
    requires
        tx.tx_type == TransactionType::Withdrawal,
    ensures
        tx.amount is None ==> process_step(s, tx) == (
            s,
            Err::<(), EngineErrorView>(
                EngineErrorView::InvalidTransaction("Withdrawal missing amount"@),
            ),
        ),
        tx.amount matches Some(a) && a.value() <= 0 ==> process_step(s, tx) == (
            s,
            Err::<(), EngineErrorView>(
                EngineErrorView::InvalidTransaction(
                    non_positive_message("Withdrawal"@, tx.tx, tx.amount.unwrap()),
                ),
            ),
        ),
        tx.amount matches Some(a) && a.value() > 0 && s.account_or_new(tx.client).locked
            ==> process_step(s, tx) == (
            s,
            Err::<(), EngineErrorView>(EngineErrorView::AccountLocked(tx.client)),
        ),
        tx.amount matches Some(a) && a.value() > 0 && !s.account_or_new(tx.client).locked
            && s.account_or_new(tx.client).available.value() < a.value() ==> process_step(
            s,
            tx,
        ) == (
            s.with_account(tx.client, s.account_or_new(tx.client)),
            Err::<(), EngineErrorView>(
                insufficient(tx.client, s.account_or_new(tx.client).available, tx.amount.unwrap()),
            ),
        ),
{
    if s.accounts.contains_key(tx.client) {
        assert(s.accounts.insert(tx.client, s.accounts[tx.client]) =~= s.accounts);
    }
}

/// Why a dispute, resolution or chargeback is refused, checked in this order:
/// an unknown transaction, a transaction of another client, a deposit already
/// disputed (for a dispute) or not disputed (otherwise), a locked account, and,
/// for a dispute, available funds short of the deposit. Each refusal leaves
/// everything as it was.
pub proof fn lemma_settlement_refusals(s: ProcessorView, tx: Transaction)
    requires
        tx.tx_type == TransactionType::Dispute || tx.tx_type == TransactionType::Resolve
            || tx.tx_type == TransactionType::Chargeback,
    ensures
        ({
            let is_dispute = tx.tx_type == TransactionType::Dispute;
            let d = s.deposits[tx.tx];
            let right_state = d.disputed != is_dispute;
            &&& !s.deposits.contains_key(tx.tx) ==> process_step(s, tx) == (
                s,
                Err::<(), EngineErrorView>(EngineErrorView::TransactionNotFound(tx.tx)),
            )
            &&& s.deposits.contains_key(tx.tx) && d.client_id != tx.client ==> process_step(s, tx)
                == (
                s,
                Err::<(), EngineErrorView>(
                    EngineErrorView::FraudAttempt(tx.client, tx.tx, d.client_id),
                ),
            )
            &&& s.deposits.contains_key(tx.tx) && d.client_id == tx.client && is_dispute
                && d.disputed ==> process_step(s, tx) == (
                s,
                Err::<(), EngineErrorView>(EngineErrorView::DisputeAlreadyActive(tx.tx)),
            )
            &&& s.deposits.contains_key(tx.tx) && d.client_id == tx.client && !is_dispute
                && !d.disputed ==> process_step(s, tx) == (
                s,
                Err::<(), EngineErrorView>(EngineErrorView::DisputeNotFound(tx.tx)),
            )
            &&& s.deposits.contains_key(tx.tx) && d.client_id == tx.client && right_state
                && s.accounts.contains_key(tx.client) && s.accounts[tx.client].locked
                ==> process_step(s, tx) == (
                s,
                Err::<(), EngineErrorView>(EngineErrorView::AccountLocked(tx.client)),
            )
            &&& s.deposits.contains_key(tx.tx) && d.client_id == tx.client && is_dispute
                && !d.disputed && s.accounts.contains_key(tx.client)
                && !s.accounts[tx.client].locked && s.accounts[tx.client].available.value()
                < d.amount.value() ==> process_step(s, tx) == (
                s,
                Err::<(), EngineErrorView>(
                    insufficient(tx.client, s.accounts[tx.client].available, d.amount),
                ),
            )
        }),
{
}

} // verus!
