use vstd::prelude::*;

use std::collections::HashMap;

use crate::store::TxStore;
use crate::types::{fits_i64, Amount, ClientId};

verus! {

broadcast use vstd::std_specs::hash::group_hash_axioms;

/// Balances and lock flag of one client.
#[derive(Debug, Clone, Copy, PartialEq, Eq, Structural)]
pub struct AccountState {
    pub available: Amount,
    pub held: Amount,
    pub locked: bool,
}

/// A newly referenced account: no funds, not locked.
pub open spec fn fresh_account() -> AccountState {
    AccountState { available: Amount(0), held: Amount(0), locked: false }
}

impl AccountState {
    /// Funds on hold are never negative, and the total is representable.
    pub open spec fn wf(&self) -> bool {
        &&& self.held@ >= 0
        &&& fits_i64(self.available@ + self.held@)
    }

    pub fn new() -> (r: AccountState)
        ensures
            r == fresh_account(),
            r.wf(),
    {
        AccountState { available: Amount::zero(), held: Amount::zero(), locked: false }
    }

    /// The account's full balance, `available + held`.
    pub fn total(&self) -> (r: Amount)
        requires
            fits_i64(self.available@ + self.held@),
        ensures
            r@ == self.available@ + self.held@,
    {
        Amount(self.available.0 + self.held.0)
    }
}

/// The kinds of transaction that leave a record in the history.
#[derive(Debug, Clone, Copy, PartialEq, Eq, Structural)]
pub enum TxKind {
    Deposit,
    Withdrawal,
}

/// What the history remembers of an accepted deposit or withdrawal.
#[derive(Debug, Clone, Copy, PartialEq, Eq, Structural)]
pub struct TxRecord {
    pub client: ClientId,
    pub amount: Amount,
    pub kind: TxKind,
    pub disputed: bool,
}

impl TxRecord {
    pub open spec fn wf(&self) -> bool {
        self.amount@ >= 0
    }
}

/// All accounts, keyed by client, and the transaction history.
#[derive(Debug)]
pub struct EngineState<S: TxStore> {
    pub accounts: HashMap<ClientId, AccountState>,
    pub store: S,
}

impl<S: TxStore> EngineState<S> {
    pub fn new(store: S) -> (r: Self)
        ensures
            r.accounts@ == Map::<ClientId, AccountState>::empty(),
            r.store == store,
    {
        EngineState { accounts: HashMap::new(), store }
    }

    /// The account of `client`, created empty if it was never referenced.
    pub fn account_mut(&mut self, client: ClientId) -> (r: &mut AccountState)
        ensures
            *r == (if old(self).accounts@.contains_key(client) {
                old(self).accounts@[client]
            } else {
                fresh_account()
            }),
            final(self).accounts@ == old(self).accounts@.insert(client, *final(r)),
            final(self).store == old(self).store,
    {
        self.accounts.entry(client).or_insert(AccountState::new())
    }

    /// Every account with its client, in no particular order.
    pub fn accounts_iter(&self) -> (r: std::collections::hash_map::Iter<'_, ClientId, AccountState>)
        ensures
            r == vstd::std_specs::hash::spec_hash_map_iter(&self.accounts),
    {
        self.accounts.iter()
    }
}

} // verus!
