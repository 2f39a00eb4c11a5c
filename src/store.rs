//! The two stores the engine reads and writes: accounts by client, and
//! deposits and withdrawals by transaction id.
use vstd::prelude::*;

use std::collections::BTreeMap;
use vstd::std_specs::btree::{increasing_seq, spec_btree_map_iter};
use vstd::std_specs::cmp::OrdSpec;
use vstd::std_specs::iter::IteratorSpec;

use crate::account::{Account, Client};
use crate::transaction::{apply_all, outcomes, Transaction, TransactionError};

verus! {

/// What a [`Store`] holds: accounts keyed by client id, and stored
/// deposits and withdrawals keyed by transaction id.
pub struct Ledger {
    pub accounts: Map<u16, Account>,
    pub transactions: Map<u32, Transaction>,
}

/// The ledger is consistent: each account sits under its own client id and
/// balances, and each stored record is a deposit or withdrawal in range,
/// filed under its own transaction id.
pub open spec fn ledger_wf(l: Ledger) -> bool {
    &&& forall|c: u16| #[trigger]
        l.accounts.contains_key(c) ==> l.accounts[c].wf() && l.accounts[c].client.0 == c
    &&& forall|id: u32| #[trigger]
        l.transactions.contains_key(id) ==> l.transactions[id].stored_wf()
            && l.transactions[id].transaction_id().0 == id
}

/// Accounts by client and past deposits and withdrawals by transaction id.
pub struct Store {
    pub accounts: BTreeMap<u16, Account>,
    pub transactions: BTreeMap<u32, Transaction>,
}

impl View for Store {
    type V = Ledger;

    open spec fn view(&self) -> Ledger {
        Ledger { accounts: self.accounts@, transactions: self.transactions@ }
    }
}

impl Store {
    pub open spec fn wf(&self) -> bool {
        ledger_wf(self@)
    }

    pub fn new() -> (r: Store)
        ensures
            r@.accounts == Map::<u16, Account>::empty(),
            r@.transactions == Map::<u32, Transaction>::empty(),
            r.wf(),
    {
        Store { accounts: BTreeMap::new(), transactions: BTreeMap::new() }
    }
    /// The account of `client`, if the client has one.
    pub fn account(&self, client: Client) -> (r: Option<Account>)
        ensures
            r == (if self@.accounts.contains_key(client.0) {
                Some(self@.accounts[client.0])
            } else {
                None
            }),
    {
        broadcast use vstd::std_specs::btree::group_btree_axioms;
        broadcast use vstd::laws_cmp::group_laws_cmp;

        match self.accounts.get(&client.0) {
            Some(a) => Some(*a),
            None => None,
        }
    }

    /// Every account, in ascending order of client id.
    pub fn accounts_in_order(&self) -> (r: Vec<Account>)
        requires
            self.wf(),
        ensures
            forall|i: int| #![trigger r@[i]]
                0 <= i < r@.len() ==> self@.accounts.contains_key(r@[i].client.0)
                    && self@.accounts[r@[i].client.0] == r@[i],
            forall|c: u16| #[trigger]
                self@.accounts.contains_key(c) ==> exists|i: int|
                    0 <= i < r@.len() && #[trigger] r@[i].client.0 == c,
            forall|i: int, j: int|
                0 <= i < j < r@.len() ==> (#[trigger] r@[i]).client.0 < (#[trigger] r@[j]).client.0,
    {
        broadcast use vstd::std_specs::btree::group_btree_axioms;
        broadcast use vstd::laws_cmp::group_laws_cmp;

        let ghost v = spec_btree_map_iter(&self.accounts).remaining();
        let mut r: Vec<Account> = Vec::new();
        for kv in it: self.accounts.iter()
            invariant
                it.seq() == v,
                increasing_seq(v.map_values(|kv: (&u16, &Account)| *kv.0)),
                r@.len() == it.index(),
                forall|i: int| 0 <= i < r@.len() ==> r@[i] == *it.seq()[i].1,
        {
            r.push(*kv.1);
        }
        proof {
            assert(r@.len() == v.len());
            let keys = v.map_values(|kv: (&u16, &Account)| *kv.0);
            assert forall|i: int| 0 <= i < r@.len() implies (#[trigger] r@[i]).client.0 == *v[i].0 by {
                assert(self@.accounts.contains_key(*v[i].0));
            }
            assert forall|c: u16| #[trigger]
                self@.accounts.contains_key(c) implies exists|i: int|
                    0 <= i < r@.len() && #[trigger] r@[i].client.0 == c by {
                assert(v.contains((&c, &self@.accounts[c])));
                let i = choose|i: int| 0 <= i < v.len() && v[i] == (&c, &self@.accounts[c]);
                assert(r@[i].client.0 == c);
            }
            assert forall|i: int, j: int|
                0 <= i < j < r@.len() implies (#[trigger] r@[i]).client.0 < (#[trigger] r@[j]).client.0 by {
                assert(keys[i] == *v[i].0);
                assert(keys[j] == *v[j].0);
                assert(keys[i].cmp_spec(&keys[j]) is Less);
            }
        }
        r
    }
    /// Applies `records` in order, each as [`Transaction::save`] does, and
    /// returns whether each was accepted.
    pub fn save_all(&mut self, records: &Vec<Transaction>) -> (r: Vec<Result<(), TransactionError>>)
        requires
            old(self).wf(),
            forall|i: int| 0 <= i < records@.len() ==> (#[trigger] records@[i]).wf(),
        ensures
            final(self)@ == apply_all(old(self)@, records@),
            r@ == outcomes(old(self)@, records@),
            final(self).wf(),
    {
        let mut r: Vec<Result<(), TransactionError>> = Vec::new();
        let mut i: usize = 0;
        proof {
            assert(records@.skip(0) =~= records@);
            assert(r@ + outcomes(self@, records@) =~= outcomes(self@, records@));
        }
        while i < records.len()
            invariant
                i <= records@.len(),
                self.wf(),
                forall|j: int| 0 <= j < records@.len() ==> (#[trigger] records@[j]).wf(),
                apply_all(self@, records@.skip(i as int)) == apply_all(old(self)@, records@),
                r@ + outcomes(self@, records@.skip(i as int)) == outcomes(old(self)@, records@),
            decreases records@.len() - i,
        {
            let ghost before = self@;
            let outcome = records[i].save(self);
            proof {
                let rest = records@.skip(i as int);
                assert(rest[0] == records@[i as int]);
                assert(rest.drop_first() =~= records@.skip(i + 1));
                assert(r@.push(outcome) + outcomes(self@, records@.skip(i + 1)) =~= r@ + outcomes(
                    before,
                    rest,
                ));
            }
            r.push(outcome);
            i = i + 1;
        }
        proof {
            assert(records@.skip(i as int) =~= Seq::<Transaction>::empty());
            assert(r@ + Seq::<Result<(), TransactionError>>::empty() =~= r@);
        }
        r
    }
}

} // verus!
