use vstd::prelude::*;

use std::collections::HashMap;

use crate::state::TxRecord;
use crate::types::TxId;

verus! {

broadcast use vstd::std_specs::hash::group_hash_axioms;

/// A keyed history of accepted deposits and withdrawals.
pub trait TxStore: Sized {
    /// The records held, by transaction id.
    spec fn records(&self) -> Map<TxId, TxRecord>;

    fn get(&self, tx: TxId) -> (r: Option<&TxRecord>)
        ensures
            match r {
                Some(rec) => self.records().contains_key(tx) && *rec == self.records()[tx],
                None => !self.records().contains_key(tx),
            },
    ;

    /// Sets the dispute flag of the record `tx`, if there is one.
    fn set_disputed(&mut self, tx: TxId, disputed: bool)
        ensures
            old(self).records().contains_key(tx) ==> final(self).records() == old(self).records().insert(
                tx,
                TxRecord { disputed, ..old(self).records()[tx] },
            ),
            !old(self).records().contains_key(tx) ==> final(self).records() == old(self).records(),
    ;

    /// Stores `rec` under `tx`, replacing any record already there.
    fn insert(&mut self, tx: TxId, rec: TxRecord)
        ensures
            final(self).records() == old(self).records().insert(tx, rec),
    ;

    fn contains(&self, tx: TxId) -> (r: bool)
        ensures
            r == self.records().contains_key(tx),
    ;
}

/// The in-memory history.
#[derive(Debug)]
pub struct HashMapStore {
    inner: HashMap<TxId, TxRecord>,
}

impl HashMapStore {
    pub fn new() -> (r: HashMapStore)
        ensures
            r.records() == Map::<TxId, TxRecord>::empty(),
    {
        HashMapStore { inner: HashMap::new() }
    }
}

impl TxStore for HashMapStore {
    closed spec fn records(&self) -> Map<TxId, TxRecord> {
        self.inner@
    }

    fn get(&self, tx: TxId) -> (r: Option<&TxRecord>) {
        self.inner.get(&tx)
    }

    fn set_disputed(&mut self, tx: TxId, disputed: bool) {
        let found = match self.inner.get(&tx) {
            Some(rec) => Some(*rec),
            None => None,
        };
        if let Some(rec) = found {
            self.inner.insert(tx, TxRecord { disputed, ..rec });
        }
    }

    fn insert(&mut self, tx: TxId, rec: TxRecord) {
        self.inner.insert(tx, rec);
    }

    fn contains(&self, tx: TxId) -> (r: bool) {
        self.inner.contains_key(&tx)
    }
}

} // verus!
