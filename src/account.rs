//! Client accounts and the balance rules that each kind of record applies.
use vstd::prelude::*;

use crate::amount::{
    difference_fits, difference_of, lemma_difference_value, lemma_sum_value, sum_fits, sum_of,
    Amount,
};
use crate::store::Store;
use crate::transaction::TransactionError;

verus! {

/// A client identifier.
#[derive(Clone, Copy, Debug, PartialEq, Eq, Structural, PartialOrd, Ord, Hash)]
pub struct Client(pub u16);

/// The state of one client's account.
#[derive(Clone, Copy, Debug, PartialEq, Eq, Structural)]
pub struct Account {
    pub client: Client,
    /// Funds usable for withdrawal.
    pub available_amount: Amount,
    /// Funds frozen while a dispute is open.
    pub held_amount: Amount,
    /// Everything the client owns: `available + held`.
    pub total_amount: Amount,
    /// Set by a chargeback; a locked account accepts no further record.
    pub is_locked: bool,
}

/// The account a client starts with: all amounts zero, not locked.
pub open spec fn fresh_account(client: Client) -> Account {
    Account {
        client,
        available_amount: Amount { mantissa: 0, scale: 0 },
        held_amount: Amount { mantissa: 0, scale: 0 },
        total_amount: Amount { mantissa: 0, scale: 0 },
        is_locked: false,
    }
}

/// A deposit: `available` and `total` grow by `amount`.
pub open spec fn deposited(a: Account, amount: Amount) -> Result<Account, TransactionError> {
    if sum_fits(a.available_amount, amount) && sum_fits(a.total_amount, amount) {
        Ok(
            Account {
                available_amount: sum_of(a.available_amount, amount),
                total_amount: sum_of(a.total_amount, amount),
                ..a
            },
        )
    } else {
        Err(TransactionError::Overflow)
    }
}

/// A withdrawal: refused unless `available >= amount`; then `available` and
/// `total` shrink by `amount`.
pub open spec fn withdrawn(a: Account, amount: Amount) -> Result<Account, TransactionError> {
    if a.available_amount.value() < amount.value() {
        Err(
            TransactionError::InsufficientFunds {
                requested: amount,
                available: a.available_amount,
            },
        )
    } else if difference_fits(a.available_amount, amount) && difference_fits(
        a.total_amount,
        amount,
    ) {
        Ok(
            Account {
                available_amount: difference_of(a.available_amount, amount),
                total_amount: difference_of(a.total_amount, amount),
                ..a
            },
        )
    } else {
        Err(TransactionError::Overflow)
    }
}

/// A dispute: `amount` moves from `available` to `held`.
pub open spec fn disputed(a: Account, amount: Amount) -> Result<Account, TransactionError> {
    if difference_fits(a.available_amount, amount) && sum_fits(a.held_amount, amount) {
        Ok(
            Account {
                available_amount: difference_of(a.available_amount, amount),
                held_amount: sum_of(a.held_amount, amount),
                ..a
            },
        )
    } else {
        Err(TransactionError::Overflow)
    }
}

/// A resolve: `amount` moves from `held` back to `available`.
pub open spec fn resolved(a: Account, amount: Amount) -> Result<Account, TransactionError> {
    if sum_fits(a.available_amount, amount) && difference_fits(a.held_amount, amount) {
        Ok(
            Account {
                available_amount: sum_of(a.available_amount, amount),
                held_amount: difference_of(a.held_amount, amount),
                ..a
            },
        )
    } else {
        Err(TransactionError::Overflow)
    }
}

/// A chargeback: `amount` leaves `held` and `total`, and the account locks.
/// No floor is applied: the balances may become negative.
pub open spec fn charged_back(a: Account, amount: Amount) -> Result<Account, TransactionError> {
    if difference_fits(a.held_amount, amount) && difference_fits(a.total_amount, amount) {
        Ok(
            Account {
                held_amount: difference_of(a.held_amount, amount),
                total_amount: difference_of(a.total_amount, amount),
                is_locked: true,
                ..a
            },
        )
    } else {
        Err(TransactionError::Overflow)
    }
}

/// Each balance rule, when it succeeds on a consistent account, yields a
/// consistent account of the same client.
pub proof fn lemma_rules_keep_wf(a: Account, amount: Amount)
    requires
        a.wf(),
        amount.wf(),
    ensures
        deposited(a, amount) matches Ok(b) ==> b.wf() && b.client == a.client,
        withdrawn(a, amount) matches Ok(b) ==> b.wf() && b.client == a.client,
        disputed(a, amount) matches Ok(b) ==> b.wf() && b.client == a.client,
        resolved(a, amount) matches Ok(b) ==> b.wf() && b.client == a.client,
        charged_back(a, amount) matches Ok(b) ==> b.wf() && b.client == a.client,
{
    if sum_fits(a.available_amount, amount) {
        lemma_sum_value(a.available_amount, amount);
    }
    if sum_fits(a.held_amount, amount) {
        lemma_sum_value(a.held_amount, amount);
    }
    if sum_fits(a.total_amount, amount) {
        lemma_sum_value(a.total_amount, amount);
    }
    if difference_fits(a.available_amount, amount) {
        lemma_difference_value(a.available_amount, amount);
    }
    if difference_fits(a.held_amount, amount) {
        lemma_difference_value(a.held_amount, amount);
    }
    if difference_fits(a.total_amount, amount) {
        lemma_difference_value(a.total_amount, amount);
    }
}

impl Account {
    /// Every amount is in range and `total == available + held`.
    pub open spec fn wf(self) -> bool {
        &&& self.available_amount.wf()
        &&& self.held_amount.wf()
        &&& self.total_amount.wf()
        &&& self.total_amount.value() == self.available_amount.value()
            + self.held_amount.value()
    }

    pub fn new(client: Client) -> (r: Account)
        ensures
            r == fresh_account(client),
            r.wf(),
    {
        Account {
            client,
            available_amount: Amount::zero(),
            held_amount: Amount::zero(),
            total_amount: Amount::zero(),
            is_locked: false,
        }
    }

    /// The client's account in `store`, created there with zero balances if
    /// the client has none yet.
    pub fn find_or_create_by_client(client: Client, store: &mut Store) -> (r: Account)
        ensures
            r == (if old(store)@.accounts.contains_key(client.0) {
                old(store)@.accounts[client.0]
            } else {
                fresh_account(client)
            }),
            final(store)@.accounts == old(store)@.accounts.insert(client.0, r),
            final(store)@.transactions == old(store)@.transactions,
    {
        broadcast use vstd::std_specs::btree::group_btree_axioms;
        broadcast use vstd::laws_cmp::group_laws_cmp;

        match store.accounts.get(&client.0) {
            Some(a) => {
                let a = *a;
                proof {
                    assert(old(store)@.accounts.insert(client.0, a) =~= old(store)@.accounts);
                }
                a
            },
            None => {
                let a = Account::new(client);
                store.accounts.insert(client.0, a);
                a
            },
        }
    }

    /// Writes this account into `store` under its client, replacing what was there.
    pub fn update(self, store: &mut Store)
        ensures
            final(store)@.accounts == old(store)@.accounts.insert(self.client.0, self),
            final(store)@.transactions == old(store)@.transactions,
    {
        broadcast use vstd::laws_cmp::group_laws_cmp;

        store.accounts.insert(self.client.0, self);
    }

    pub fn deposit(self, amount: Amount) -> (r: Result<Account, TransactionError>)
        requires
            self.wf(),
            amount.wf(),
        ensures
            r == deposited(self, amount),
            r matches Ok(a) ==> a.wf(),
    {
        match (self.available_amount.checked_add(amount), self.total_amount.checked_add(amount)) {
            (Some(available_amount), Some(total_amount)) => {
                proof {
                    lemma_sum_value(self.available_amount, amount);
                    lemma_sum_value(self.total_amount, amount);
                }
                Ok(Account { available_amount, total_amount, ..self })
            },
            _ => Err(TransactionError::Overflow),
        }
    }

    pub fn withdraw(self, amount: Amount) -> (r: Result<Account, TransactionError>)
        requires
            self.wf(),
            amount.wf(),
        ensures
            r == withdrawn(self, amount),
            r matches Ok(a) ==> a.wf(),
    {
        if self.available_amount.lt(&amount) {
            return Err(
                TransactionError::InsufficientFunds {
                    requested: amount,
                    available: self.available_amount,
                },
            );
        }
        match (self.available_amount.checked_sub(amount), self.total_amount.checked_sub(amount)) {
            (Some(available_amount), Some(total_amount)) => {
                proof {
                    lemma_difference_value(self.available_amount, amount);
                    lemma_difference_value(self.total_amount, amount);
                }
                Ok(Account { available_amount, total_amount, ..self })
            },
            _ => Err(TransactionError::Overflow),
        }
    }

    pub fn dispute(self, amount: Amount) -> (r: Result<Account, TransactionError>)
        requires
            self.wf(),
            amount.wf(),
        ensures
            r == disputed(self, amount),
            r matches Ok(a) ==> a.wf(),
    {
        match (self.available_amount.checked_sub(amount), self.held_amount.checked_add(amount)) {
            (Some(available_amount), Some(held_amount)) => {
                proof {
                    lemma_difference_value(self.available_amount, amount);
                    lemma_sum_value(self.held_amount, amount);
                }
                Ok(Account { available_amount, held_amount, ..self })
            },
            _ => Err(TransactionError::Overflow),
        }
    }

    pub fn resolve(self, amount: Amount) -> (r: Result<Account, TransactionError>)
        requires
            self.wf(),
            amount.wf(),
        ensures
            r == resolved(self, amount),
            r matches Ok(a) ==> a.wf(),
    {
        match (self.available_amount.checked_add(amount), self.held_amount.checked_sub(amount)) {
            (Some(available_amount), Some(held_amount)) => {
                proof {
                    lemma_sum_value(self.available_amount, amount);
                    lemma_difference_value(self.held_amount, amount);
                }
                Ok(Account { available_amount, held_amount, ..self })
            },
            _ => Err(TransactionError::Overflow),
        }
    }

    pub fn charge_back(self, amount: Amount) -> (r: Result<Account, TransactionError>)
        requires
            self.wf(),
            amount.wf(),
        ensures
            r == charged_back(self, amount),
            r matches Ok(a) ==> a.wf(),
    {
        match (self.held_amount.checked_sub(amount), self.total_amount.checked_sub(amount)) {
            (Some(held_amount), Some(total_amount)) => {
                proof {
                    lemma_difference_value(self.held_amount, amount);
                    lemma_difference_value(self.total_amount, amount);
                }
                Ok(Account { held_amount, total_amount, is_locked: true, ..self })
            },
            _ => Err(TransactionError::Overflow),
        }
    }
}

} // verus!
