//! Properties of the engine that hold for every ledger and every record.
use vstd::prelude::*;

use crate::account::{lemma_rules_keep_wf, Client};
use crate::amount::{common_scale, difference_of, pow10, rescaled, sum_of, Amount, MAX_SCALE};
use crate::store::{ledger_wf, Ledger};
use crate::transaction::{
    account_for, apply, apply_all, referenced, Transaction, TransactionDetails, TransactionError,
    TransactionId,
};

verus! {

/// Applying any record to a consistent ledger leaves it consistent: in
/// particular every account still has `total == available + held`.
pub proof fn lemma_apply_wf(l: Ledger, t: Transaction)
    requires
        ledger_wf(l),
        t.wf(),
    ensures
        ledger_wf(apply(l, t).0),
{
    let c = t.client();
    let a = account_for(l, c);
    match t {
        Transaction::Deposit { amount, .. } => lemma_rules_keep_wf(a, amount),
        Transaction::Withdrawal { amount, .. } => lemma_rules_keep_wf(a, amount),
        _ => {
            if let Some((amount, _)) = referenced(l.transactions, t.transaction_id()) {
                lemma_rules_keep_wf(a, amount);
            }
        },
    }
}

/// After any sequence of records, applied to a consistent ledger, every
/// account still has `total == available + held`.
pub proof fn lemma_apply_all_wf(l: Ledger, ts: Seq<Transaction>)
    requires
        ledger_wf(l),
        forall|i: int| 0 <= i < ts.len() ==> (#[trigger] ts[i]).wf(),
    ensures
        ledger_wf(apply_all(l, ts)),
    decreases ts.len(),
{
    if ts.len() > 0 {
        lemma_apply_wf(l, ts[0]);
        assert forall|i: int| 0 <= i < ts.drop_first().len() implies (
        #[trigger] ts.drop_first()[i]).wf() by {
            assert(ts.drop_first()[i] == ts[i + 1]);
        }
        lemma_apply_all_wf(apply(l, ts[0]).0, ts.drop_first());
    }
}

/// A locked account is frozen: no record, of any kind and for any client,
/// changes it.
pub proof fn lemma_locked_account_unchanged(l: Ledger, t: Transaction, c: u16)
    requires
        l.accounts.contains_key(c),
        l.accounts[c].is_locked,
    ensures
        apply(l, t).0.accounts.contains_key(c),
        apply(l, t).0.accounts[c] == l.accounts[c],
{
}

/// A locked account stays as it is through any sequence of records.
pub proof fn lemma_locked_account_unchanged_all(l: Ledger, ts: Seq<Transaction>, c: u16)
    requires
        l.accounts.contains_key(c),
        l.accounts[c].is_locked,
    ensures
        apply_all(l, ts).accounts.contains_key(c),
        apply_all(l, ts).accounts[c] == l.accounts[c],
    decreases ts.len(),
{
    if ts.len() > 0 {
        lemma_locked_account_unchanged(l, ts[0], c);
        lemma_locked_account_unchanged_all(apply(l, ts[0]).0, ts.drop_first(), c);
    }
}

/// Disputing a transaction a second time, right after a dispute of it was
/// accepted, is rejected and changes nothing.
pub proof fn lemma_second_dispute_rejected(l: Ledger, details: TransactionDetails)
    requires
        apply(l, Transaction::Dispute { details }).1 is Ok,
    ensures
        ({
            let t = Transaction::Dispute { details };
            let once = apply(l, t).0;
            apply(once, t) == (
                once,
                Err::<(), TransactionError>(TransactionError::ErroneousDispute(details.transaction_id)),
            )
        }),
{
    let t = Transaction::Dispute { details };
    let once = apply(l, t).0;
    let c = details.client_id.0;
    assert(once.accounts.insert(c, once.accounts[c]) =~= once.accounts);
}

/// A deposit followed by a withdrawal of the same amount, on a client that
/// has no account yet, are both accepted and leave the account at zero and
/// unlocked.
pub proof fn lemma_deposit_withdraw_round_trip(
    l: Ledger,
    c: Client,
    t1: TransactionId,
    t2: TransactionId,
    d: Amount,
)
    requires
        !l.accounts.contains_key(c.0),
        d.wf(),
        d.value() >= 0,
    ensures
        ({
            let deposit = Transaction::Deposit {
                details: TransactionDetails { client_id: c, transaction_id: t1 },
                amount: d,
                is_under_dispute: false,
            };
            let withdrawal = Transaction::Withdrawal {
                details: TransactionDetails { client_id: c, transaction_id: t2 },
                amount: d,
                is_under_dispute: false,
            };
            let (after_deposit, r1) = apply(l, deposit);
            let (after_withdrawal, r2) = apply(after_deposit, withdrawal);
            let a = after_withdrawal.accounts[c.0];
            &&& r1 is Ok
            &&& r2 is Ok
            &&& after_withdrawal.accounts.contains_key(c.0)
            &&& a.available_amount.value() == 0
            &&& a.held_amount.value() == 0
            &&& a.total_amount.value() == 0
            &&& !a.is_locked
        }),
{
    let zero = Amount { mantissa: 0, scale: 0 };
    let p = pow10((MAX_SCALE - d.scale) as nat);
    assert(pow10(0) == 1);
    assert(0 * p == 0) by (nonlinear_arith);
    assert(rescaled(zero, common_scale(zero, d)) == 0);
    assert(sum_of(zero, d) == d);
    assert(difference_of(d, d).value() == 0);
}

} // verus!
