//! Transaction records and the engine that applies them, one at a time, to a
//! [`Store`].
use vstd::prelude::*;

use crate::account::{
    charged_back, deposited, disputed, fresh_account, resolved, withdrawn, Account, Client,
};
use crate::amount::Amount;
use crate::store::{Ledger, Store};

verus! {

/// A transaction identifier.
#[derive(Clone, Copy, Debug, PartialEq, Eq, Structural, PartialOrd, Ord, Hash)]
pub struct TransactionId(pub u32);

/// Who a record concerns and which transaction it carries or refers to.
#[derive(Clone, Copy, Debug, PartialEq, Eq, Structural)]
pub struct TransactionDetails {
    pub client_id: Client,
    pub transaction_id: TransactionId,
}

impl TransactionDetails {
    pub fn new(client_id: Client, transaction_id: TransactionId) -> (r: TransactionDetails)
        ensures
            r.client_id == client_id,
            r.transaction_id == transaction_id,
    {
        TransactionDetails { client_id, transaction_id }
    }
}

/// One input record.
///
/// Deposits and withdrawals carry an amount and are kept in the store, with
/// a flag that is set while they are disputed. Disputes, resolves and
/// chargebacks refer to a kept deposit or withdrawal by its transaction id.
#[derive(Clone, Copy, Debug, PartialEq, Eq, Structural)]
pub enum Transaction {
    /// Credits the client: `available` and `total` grow.
    Deposit { details: TransactionDetails, amount: Amount, is_under_dispute: bool },
    /// Debits the client, if enough is available: `available` and `total` shrink.
    Withdrawal { details: TransactionDetails, amount: Amount, is_under_dispute: bool },
    /// Holds the amount of the referenced record: `available` to `held`.
    Dispute { details: TransactionDetails },
    /// Ends a dispute in the client's favour: `held` back to `available`.
    Resolve { details: TransactionDetails },
    /// Ends a dispute by reversing the record: `held` and `total` shrink and
    /// the account locks.
    Chargeback { details: TransactionDetails },
}

/// Why a record was rejected. A rejected record changes no balance.
#[derive(Clone, Copy, Debug, PartialEq, Eq, Structural)]
pub enum TransactionError {
    /// A deposit or withdrawal of a negative amount.
    InvalidAmount(Amount),
    /// A withdrawal of more than is available.
    InsufficientFunds { requested: Amount, available: Amount },
    /// The client's account is locked.
    AccountLocked(Client),
    /// A dispute of an unknown or already disputed transaction.
    ErroneousDispute(TransactionId),
    /// A resolve of an unknown or undisputed transaction.
    ErroneousResolve(TransactionId),
    /// A chargeback of an unknown or undisputed transaction.
    ErroneousChargeback(TransactionId),
    /// A deposit or withdrawal that arrived without an amount.
    MissingAmount(TransactionId),
    /// A balance would leave the range of an [`Amount`].
    Overflow,
}

/// The kind of an input record.
#[derive(Clone, Copy, Debug, PartialEq, Eq, Structural)]
pub enum TransactionKind {
    Deposit,
    Withdrawal,
    Dispute,
    Resolve,
    Chargeback,
}

impl Transaction {
    pub open spec fn details_of(self) -> TransactionDetails {
        match self {
            Transaction::Deposit { details, .. } => details,
            Transaction::Withdrawal { details, .. } => details,
            Transaction::Dispute { details } => details,
            Transaction::Resolve { details } => details,
            Transaction::Chargeback { details } => details,
        }
    }

    pub open spec fn client(self) -> Client {
        self.details_of().client_id
    }

    pub open spec fn transaction_id(self) -> TransactionId {
        self.details_of().transaction_id
    }

    /// The amount of a deposit or withdrawal.
    pub open spec fn amount_of(self) -> Option<Amount> {
        match self {
            Transaction::Deposit { amount, .. } => Some(amount),
            Transaction::Withdrawal { amount, .. } => Some(amount),
            _ => None,
        }
    }

    pub open spec fn is_disputed(self) -> bool {
        match self {
            Transaction::Deposit { is_under_dispute, .. } => is_under_dispute,
            Transaction::Withdrawal { is_under_dispute, .. } => is_under_dispute,
            _ => false,
        }
    }

    /// The record with its dispute flag set to `flag` (records without an
    /// amount carry no flag).
    pub open spec fn flagged(self, flag: bool) -> Transaction {
        match self {
            Transaction::Deposit { details, amount, .. } => Transaction::Deposit {
                details,
                amount,
                is_under_dispute: flag,
            },
            Transaction::Withdrawal { details, amount, .. } => Transaction::Withdrawal {
                details,
                amount,
                is_under_dispute: flag,
            },
            _ => self,
        }
    }

    /// Any amount the record carries is in range.
    pub open spec fn wf(self) -> bool {
        match self.amount_of() {
            Some(a) => a.wf(),
            None => true,
        }
    }

    /// The record may be kept in the store: a deposit or withdrawal in range.
    pub open spec fn stored_wf(self) -> bool {
        &&& self.amount_of() is Some
        &&& self.wf()
    }
}

/// The client's account in `l`, or a fresh one if the client has none.
pub open spec fn account_for(l: Ledger, c: Client) -> Account {
    if l.accounts.contains_key(c.0) {
        l.accounts[c.0]
    } else {
        fresh_account(c)
    }
}

/// The amount and dispute flag of the kept deposit or withdrawal `id`.
pub open spec fn referenced(txs: Map<u32, Transaction>, id: TransactionId) -> Option<(Amount, bool)> {
    if txs.contains_key(id.0) && txs[id.0].amount_of() is Some {
        Some((txs[id.0].amount_of()->Some_0, txs[id.0].is_disputed()))
    } else {
        None
    }
}

/// What record `t` does to the unlocked account `a` and to the kept
/// transactions `txs`: the new account and transactions, or the reason it
/// is rejected.
///
/// A deposit re-using a known transaction id replaces the kept record. A
/// dispute is accepted only for an undisputed record, so disputing twice
/// does not hold the amount twice.
pub open spec fn rule(txs: Map<u32, Transaction>, a: Account, t: Transaction) -> Result<
    (Account, Map<u32, Transaction>),
    TransactionError,
> {
    let id = t.transaction_id();
    match t {
        Transaction::Deposit { amount, .. } => {
            if amount.value() < 0 {
                Err(TransactionError::InvalidAmount(amount))
            } else {
                match deposited(a, amount) {
                    Ok(b) => Ok((b, txs.insert(id.0, t.flagged(false)))),
                    Err(e) => Err(e),
                }
            }
        },
        Transaction::Withdrawal { amount, .. } => {
            if amount.value() < 0 {
                Err(TransactionError::InvalidAmount(amount))
            } else {
                match withdrawn(a, amount) {
                    Ok(b) => Ok((b, txs.insert(id.0, t.flagged(false)))),
                    Err(e) => Err(e),
                }
            }
        },
        Transaction::Dispute { .. } => match referenced(txs, id) {
            Some((amount, false)) => match disputed(a, amount) {
                Ok(b) => Ok((b, txs.insert(id.0, txs[id.0].flagged(true)))),
                Err(e) => Err(e),
            },
            _ => Err(TransactionError::ErroneousDispute(id)),
        },
        Transaction::Resolve { .. } => match referenced(txs, id) {
            Some((amount, true)) => match resolved(a, amount) {
                Ok(b) => Ok(
                    (b, txs.insert(id.0, txs[id.0].flagged(false))),
                ),
                Err(e) => Err(e),
            },
            _ => Err(TransactionError::ErroneousResolve(id)),
        },
        Transaction::Chargeback { .. } => match referenced(txs, id) {
            Some((amount, true)) => match charged_back(a, amount) {
                Ok(b) => Ok(
                    (b, txs.insert(id.0, txs[id.0].flagged(false))),
                ),
                Err(e) => Err(e),
            },
            _ => Err(TransactionError::ErroneousChargeback(id)),
        },
    }
}

/// The ledger after record `t`, and whether `t` was accepted.
///
/// The client's account is looked up, or created with zero balances, first.
/// A locked account rejects every record. Otherwise [`rule`] decides; a
/// rejected record leaves everything else as it was.
pub open spec fn apply(l: Ledger, t: Transaction) -> (Ledger, Result<(), TransactionError>) {
    let c = t.client();
    let a = account_for(l, c);
    let opened = Ledger { accounts: l.accounts.insert(c.0, a), transactions: l.transactions };
    if a.is_locked {
        (opened, Err(TransactionError::AccountLocked(c)))
    } else {
        match rule(l.transactions, a, t) {
            Ok((b, txs)) => (Ledger { accounts: l.accounts.insert(c.0, b), transactions: txs }, Ok(())),
            Err(e) => (opened, Err(e)),
        }
    }
}

/// The ledger after the records `ts`, applied in order.
pub open spec fn apply_all(l: Ledger, ts: Seq<Transaction>) -> Ledger
    decreases ts.len(),
{
    if ts.len() == 0 {
        l
    } else {
        apply_all(apply(l, ts[0]).0, ts.drop_first())
    }
}

/// Whether each of the records `ts` was accepted, applied in order to `l`.
pub open spec fn outcomes(l: Ledger, ts: Seq<Transaction>) -> Seq<Result<(), TransactionError>>
    decreases ts.len(),
{
    if ts.len() == 0 {
        Seq::empty()
    } else {
        seq![apply(l, ts[0]).1] + outcomes(apply(l, ts[0]).0, ts.drop_first())
    }
}

impl Transaction {
    /// The record with these fields, as they arrive. Deposits and
    /// withdrawals need an amount; the other kinds ignore one.
    pub fn from_record(
        kind: TransactionKind,
        client_id: Client,
        transaction_id: TransactionId,
        amount: Option<Amount>,
    ) -> (r: Result<Transaction, TransactionError>)
        ensures
            ({
                let details = TransactionDetails { client_id, transaction_id };
                match kind {
                    TransactionKind::Deposit => r == match amount {
                        Some(a) => Ok(
                            Transaction::Deposit { details, amount: a, is_under_dispute: false },
                        ),
                        None => Err(TransactionError::MissingAmount(transaction_id)),
                    },
                    TransactionKind::Withdrawal => r == match amount {
                        Some(a) => Ok(
                            Transaction::Withdrawal { details, amount: a, is_under_dispute: false },
                        ),
                        None => Err(TransactionError::MissingAmount(transaction_id)),
                    },
                    TransactionKind::Dispute => r == Ok::<Transaction, TransactionError>(
                        Transaction::Dispute { details },
                    ),
                    TransactionKind::Resolve => r == Ok::<Transaction, TransactionError>(
                        Transaction::Resolve { details },
                    ),
                    TransactionKind::Chargeback => r == Ok::<Transaction, TransactionError>(
                        Transaction::Chargeback { details },
                    ),
                }
            }),
    {
        let details = TransactionDetails::new(client_id, transaction_id);
        match kind {
            TransactionKind::Deposit => match amount {
                Some(a) => Ok(Transaction::Deposit { details, amount: a, is_under_dispute: false }),
                None => Err(TransactionError::MissingAmount(transaction_id)),
            },
            TransactionKind::Withdrawal => match amount {
                Some(a) => Ok(
                    Transaction::Withdrawal { details, amount: a, is_under_dispute: false },
                ),
                None => Err(TransactionError::MissingAmount(transaction_id)),
            },
            TransactionKind::Dispute => Ok(Transaction::Dispute { details }),
            TransactionKind::Resolve => Ok(Transaction::Resolve { details }),
            TransactionKind::Chargeback => Ok(Transaction::Chargeback { details }),
        }
    }

    pub fn details(&self) -> (r: TransactionDetails)
        ensures
            r == self.details_of(),
    {
        match self {
            Transaction::Deposit { details, .. } => *details,
            Transaction::Withdrawal { details, .. } => *details,
            Transaction::Dispute { details } => *details,
            Transaction::Resolve { details } => *details,
            Transaction::Chargeback { details } => *details,
        }
    }

    /// The amount of a deposit or withdrawal; `None` for the other kinds.
    pub fn get_amount(&self) -> (r: Option<Amount>)
        ensures
            r == self.amount_of(),
    {
        match self {
            Transaction::Deposit { amount, .. } => Some(*amount),
            Transaction::Withdrawal { amount, .. } => Some(*amount),
            _ => None,
        }
    }

    pub fn get_is_under_dispute(&self) -> (r: bool)
        ensures
            r == self.is_disputed(),
    {
        match self {
            Transaction::Deposit { is_under_dispute, .. } => *is_under_dispute,
            Transaction::Withdrawal { is_under_dispute, .. } => *is_under_dispute,
            _ => false,
        }
    }

    /// Sets the dispute flag of a deposit or withdrawal; other kinds are left
    /// as they are.
    pub fn set_is_under_dispute(&mut self, is_under_dispute: bool)
        ensures
            *final(self) == old(self).flagged(is_under_dispute),
    {
        match self {
            Transaction::Deposit { is_under_dispute: disputed, .. } => {
                *disputed = is_under_dispute;
            },
            Transaction::Withdrawal { is_under_dispute: disputed, .. } => {
                *disputed = is_under_dispute;
            },
            _ => {},
        }
    }

    /// The kept deposit or withdrawal with this id.
    pub fn find_by_id(transaction_id: TransactionId, store: &Store) -> (r: Option<Transaction>)
        ensures
            r == (if store@.transactions.contains_key(transaction_id.0) {
                Some(store@.transactions[transaction_id.0])
            } else {
                None
            }),
    {
        broadcast use vstd::std_specs::btree::group_btree_axioms;
        broadcast use vstd::laws_cmp::group_laws_cmp;

        match store.transactions.get(&transaction_id.0) {
            Some(t) => Some(*t),
            None => None,
        }
    }
    /// Applies this record to `store`: the one entry point of the engine.
    ///
    /// The store ends as [`apply`] describes, and the result says whether the
    /// record was accepted or why it was rejected.
    pub fn save(self, store: &mut Store) -> (r: Result<(), TransactionError>)
        requires
            old(store).wf(),
            self.wf(),
        ensures
            final(store)@ == apply(old(store)@, self).0,
            r == apply(old(store)@, self).1,
            final(store).wf(),
    {
        let details = self.details();
        let account = Account::find_or_create_by_client(details.client_id, store);
        if account.is_locked {
            return Err(TransactionError::AccountLocked(details.client_id));
        }
        let r = self.update_account(account, store);
        proof {
            let l = old(store)@;
            let c = details.client_id.0;
            let opened = l.accounts.insert(c, account);
            match rule(l.transactions, account, self) {
                Ok((b, txs)) => {
                    assert(opened.insert(c, b) =~= l.accounts.insert(c, b));
                },
                Err(e) => {},
            }
            crate::laws::lemma_apply_wf(l, self);
        }
        r
    }

    /// Applies this record to the unlocked `account`, already in `store`.
    fn update_account(self, account: Account, store: &mut Store) -> (r: Result<
        (),
        TransactionError,
    >)
        requires
            old(store).wf(),
            self.wf(),
            old(store)@.accounts.contains_key(self.client().0),
            old(store)@.accounts[self.client().0] == account,
            !account.is_locked,
        ensures
            match rule(old(store)@.transactions, account, self) {
                Ok((b, txs)) => {
                    &&& r == Ok::<(), TransactionError>(())
                    &&& final(store)@ == Ledger {
                        accounts: old(store)@.accounts.insert(self.client().0, b),
                        transactions: txs,
                    }
                },
                Err(e) => r == Err::<(), TransactionError>(e) && final(store)@ == old(store)@,
            },
    {
        broadcast use vstd::laws_cmp::group_laws_cmp;

        let id = self.details().transaction_id;
        match self {
            Transaction::Deposit { amount, .. } => {
                if amount.is_negative() {
                    return Err(TransactionError::InvalidAmount(amount));
                }
                match account.deposit(amount) {
                    Ok(updated) => {
                        let mut kept = self;
                        kept.set_is_under_dispute(false);
                        store.transactions.insert(id.0, kept);
                        updated.update(store);
                        Ok(())
                    },
                    Err(e) => Err(e),
                }
            },
            Transaction::Withdrawal { amount, .. } => {
                if amount.is_negative() {
                    return Err(TransactionError::InvalidAmount(amount));
                }
                match account.withdraw(amount) {
                    Ok(updated) => {
                        let mut kept = self;
                        kept.set_is_under_dispute(false);
                        store.transactions.insert(id.0, kept);
                        updated.update(store);
                        Ok(())
                    },
                    Err(e) => Err(e),
                }
            },
            Transaction::Dispute { .. } => {
                let found = Transaction::find_by_id(id, store);
                match found {
                    Some(mut stored) => match stored.get_amount() {
                        Some(amount) => {
                            if stored.get_is_under_dispute() {
                                return Err(TransactionError::ErroneousDispute(id));
                            }
                            match account.dispute(amount) {
                                Ok(updated) => {
                                    stored.set_is_under_dispute(true);
                                    store.transactions.insert(id.0, stored);
                                    updated.update(store);
                                    Ok(())
                                },
                                Err(e) => Err(e),
                            }
                        },
                        None => Err(TransactionError::ErroneousDispute(id)),
                    },
                    None => Err(TransactionError::ErroneousDispute(id)),
                }
            },
            Transaction::Resolve { .. } => {
                let found = Transaction::find_by_id(id, store);
                match found {
                    Some(mut stored) => match stored.get_amount() {
                        Some(amount) => {
                            if !stored.get_is_under_dispute() {
                                return Err(TransactionError::ErroneousResolve(id));
                            }
                            match account.resolve(amount) {
                                Ok(updated) => {
                                    stored.set_is_under_dispute(false);
                                    store.transactions.insert(id.0, stored);
                                    updated.update(store);
                                    Ok(())
                                },
                                Err(e) => Err(e),
                            }
                        },
                        None => Err(TransactionError::ErroneousResolve(id)),
                    },
                    None => Err(TransactionError::ErroneousResolve(id)),
                }
            },
            Transaction::Chargeback { .. } => {
                let found = Transaction::find_by_id(id, store);
                match found {
                    Some(mut stored) => match stored.get_amount() {
                        Some(amount) => {
                            if !stored.get_is_under_dispute() {
                                return Err(TransactionError::ErroneousChargeback(id));
                            }
                            match account.charge_back(amount) {
                                Ok(updated) => {
                                    stored.set_is_under_dispute(false);
                                    store.transactions.insert(id.0, stored);
                                    updated.update(store);
                                    Ok(())
                                },
                                Err(e) => Err(e),
                            }
                        },
                        None => Err(TransactionError::ErroneousChargeback(id)),
                    },
                    None => Err(TransactionError::ErroneousChargeback(id)),
                }
            },
        }
    }
}

} // verus!
