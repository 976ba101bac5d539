use vstd::prelude::*;

use crate::errors::LedgerError;
use crate::ingest::IngestEvent;
use crate::ledger::{
    self, chargeback_result, deposit_result, dispute_result, resolve_result, withdrawal_result,
};
use crate::metrics::{bump, incr, zero_metrics, Metrics};
use crate::state::{fresh_account, AccountState, EngineState, TxKind, TxRecord};
use crate::store::TxStore;
use crate::types::{AccountRow, Amount, ClientId, Transaction, TransactionType, TxId};

verus! {

broadcast use vstd::std_specs::hash::group_hash_axioms;

pub type Accounts = Map<ClientId, AccountState>;

pub type Records = Map<TxId, TxRecord>;

/// The account that an event for `client` works on.
pub open spec fn account_for(accts: Accounts, client: ClientId) -> AccountState {
    if accts.contains_key(client) {
        accts[client]
    } else {
        fresh_account()
    }
}

pub open spec fn funds_result(kind: TransactionType, a: AccountState, amount: Amount) -> Result<
    AccountState,
    LedgerError,
> {
    if kind == TransactionType::Deposit {
        deposit_result(a, amount)
    } else {
        withdrawal_result(a, amount)
    }
}

pub open spec fn reference_result(kind: TransactionType, a: AccountState, r: TxRecord) -> Result<
    (AccountState, TxRecord),
    LedgerError,
> {
    if kind == TransactionType::Dispute {
        dispute_result(a, r)
    } else if kind == TransactionType::Resolve {
        resolve_result(a, r)
    } else {
        chargeback_result(a, r)
    }
}

pub open spec fn is_funds_kind(kind: TransactionType) -> bool {
    kind == TransactionType::Deposit || kind == TransactionType::Withdrawal
}

pub open spec fn record_kind(kind: TransactionType) -> TxKind {
    if kind == TransactionType::Deposit {
        TxKind::Deposit
    } else {
        TxKind::Withdrawal
    }
}

/// The effect of one transaction request on accounts, history and counters.
pub open spec fn step_tx(accts: Accounts, recs: Records, m: Metrics, tx: Transaction) -> (
    Accounts,
    Records,
    Metrics,
) {
    let a = account_for(accts, tx.client);
    let touched = accts.insert(tx.client, a);
    if a.locked {
        (touched, recs, Metrics { locked_ignored: bump(m.locked_ignored), ..m })
    } else if is_funds_kind(tx.kind) {
        match tx.amount {
            None => (touched, recs, Metrics { missing_amount: bump(m.missing_amount), ..m }),
            Some(amount) => if recs.contains_key(tx.tx) {
                (touched, recs, Metrics { duplicate_tx: bump(m.duplicate_tx), ..m })
            } else {
                match funds_result(tx.kind, a, amount) {
                    Ok(a2) => (
                        accts.insert(tx.client, a2),
                        recs.insert(
                            tx.tx,
                            TxRecord {
                                client: tx.client,
                                amount,
                                kind: record_kind(tx.kind),
                                disputed: false,
                            },
                        ),
                        m,
                    ),
                    Err(_) => (touched, recs, Metrics { ledger_errors: bump(m.ledger_errors), ..m }),
                }
            },
        }
    } else if !recs.contains_key(tx.tx) {
        (touched, recs, Metrics { tx_not_found: bump(m.tx_not_found), ..m })
    } else if recs[tx.tx].client != tx.client {
        (touched, recs, Metrics { wrong_client_ref: bump(m.wrong_client_ref), ..m })
    } else {
        match reference_result(tx.kind, a, recs[tx.tx]) {
            Ok((a2, r2)) => (accts.insert(tx.client, a2), recs.insert(tx.tx, r2), m),
            Err(_) => (touched, recs, Metrics { ledger_errors: bump(m.ledger_errors), ..m }),
        }
    }
}

/// The effect of one ingest event.
pub open spec fn step(accts: Accounts, recs: Records, m: Metrics, ev: IngestEvent) -> (
    Accounts,
    Records,
    Metrics,
) {
    match ev {
        IngestEvent::Tx(tx) => step_tx(accts, recs, m, tx),
        IngestEvent::MalformedRow => (
            accts,
            recs,
            Metrics { malformed_rows: bump(m.malformed_rows), ..m },
        ),
        IngestEvent::UnknownType => (accts, recs, Metrics { unknown_type: bump(m.unknown_type), ..m }),
    }
}

/// Every account keeps its hold non-negative and its total representable, and
/// every recorded amount is non-negative.
pub open spec fn state_wf(accts: Accounts, recs: Records) -> bool {
    &&& forall|c: ClientId| #[trigger] accts.contains_key(c) ==> accts[c].wf()
    &&& forall|t: TxId| #[trigger] recs.contains_key(t) ==> recs[t].wf()
}

/// The output row of one account.
pub open spec fn row_of(client: ClientId, a: AccountState) -> AccountRow {
    AccountRow {
        client,
        available: a.available,
        held: a.held,
        total: Amount((a.available@ + a.held@) as i64),
        locked: a.locked,
    }
}

/// Replays ingest events against accounts and a transaction history.
pub struct Processor<S: TxStore> {
    state: EngineState<S>,
    metrics: Metrics,
}

impl<S: TxStore> Processor<S> {
    pub closed spec fn spec_accounts(&self) -> Accounts {
        self.state.accounts@
    }

    pub closed spec fn spec_records(&self) -> Records {
        self.state.store.records()
    }

    pub closed spec fn spec_metrics(&self) -> Metrics {
        self.metrics
    }

    pub open spec fn wf(&self) -> bool {
        state_wf(self.spec_accounts(), self.spec_records())
    }

    pub fn new(store: S) -> (r: Self)
        requires
            forall|t: TxId| #[trigger] store.records().contains_key(t) ==> store.records()[t].wf(),
        ensures
            r.spec_accounts() == Map::<ClientId, AccountState>::empty(),
            r.spec_records() == store.records(),
            r.spec_metrics() == zero_metrics(),
            r.wf(),
    {
        Processor { state: EngineState::new(store), metrics: Metrics::default() }
    }

    pub fn metrics(&self) -> (r: &Metrics)
        ensures
            *r == self.spec_metrics(),
    {
        &self.metrics
    }

    pub fn state(&self) -> (r: &EngineState<S>)
        ensures
            r.accounts@ == self.spec_accounts(),
            r.store.records() == self.spec_records(),
    {
        &self.state
    }

    /// Applies one event; a rejected event only increments its counter.
    pub fn apply_event(&mut self, event: IngestEvent)
        requires
            old(self).wf(),
            event.amount_ok(),
        ensures
            final(self).wf(),
            (final(self).spec_accounts(), final(self).spec_records(), final(self).spec_metrics())
                == step(
                old(self).spec_accounts(),
                old(self).spec_records(),
                old(self).spec_metrics(),
                event,
            ),
    {
        match event {
            IngestEvent::Tx(tx) => self.apply(tx),
            IngestEvent::MalformedRow => {
                self.metrics.malformed_rows = incr(self.metrics.malformed_rows);
            },
            IngestEvent::UnknownType => {
                self.metrics.unknown_type = incr(self.metrics.unknown_type);
            },
        }
    }

    fn apply(&mut self, tx: Transaction)
        requires
            old(self).wf(),
            IngestEvent::Tx(tx).amount_ok(),
        ensures
            final(self).wf(),
            (final(self).spec_accounts(), final(self).spec_records(), final(self).spec_metrics())
                == step_tx(
                old(self).spec_accounts(),
                old(self).spec_records(),
                old(self).spec_metrics(),
                tx,
            ),
    {
        let mut account = match self.state.accounts.get(&tx.client) {
            Some(a) => *a,
            None => AccountState::new(),
        };
        if account.locked {
            self.state.accounts.insert(tx.client, account);
            self.metrics.locked_ignored = incr(self.metrics.locked_ignored);
            return;
        }
        match tx.kind {
            TransactionType::Deposit | TransactionType::Withdrawal => {
                let amount = match tx.amount {
                    Some(a) => a,
                    None => {
                        self.state.accounts.insert(tx.client, account);
                        self.metrics.missing_amount = incr(self.metrics.missing_amount);
                        return;
                    },
                };
                if self.state.store.contains(tx.tx) {
                    self.state.accounts.insert(tx.client, account);
                    self.metrics.duplicate_tx = incr(self.metrics.duplicate_tx);
                    return;
                }
                let (res, kind) = match tx.kind {
                    TransactionType::Deposit => (ledger::deposit(&mut account, amount), TxKind::Deposit),
                    _ => (ledger::withdrawal(&mut account, amount), TxKind::Withdrawal),
                };
                match res {
                    Ok(()) => {
                        self.state.store.insert(
                            tx.tx,
                            TxRecord { client: tx.client, amount, kind, disputed: false },
                        );
                    },
                    Err(_) => {
                        self.metrics.ledger_errors = incr(self.metrics.ledger_errors);
                    },
                }
                self.state.accounts.insert(tx.client, account);
            },
            TransactionType::Dispute | TransactionType::Resolve | TransactionType::Chargeback => {
                let mut rec = match self.state.store.get(tx.tx) {
                    Some(r) => *r,
                    None => {
                        self.state.accounts.insert(tx.client, account);
                        self.metrics.tx_not_found = incr(self.metrics.tx_not_found);
                        return;
                    },
                };
                if rec.client != tx.client {
                    self.state.accounts.insert(tx.client, account);
                    self.metrics.wrong_client_ref = incr(self.metrics.wrong_client_ref);
                    return;
                }
                let res = match tx.kind {
                    TransactionType::Dispute => ledger::dispute(&mut account, &mut rec),
                    TransactionType::Resolve => ledger::resolve(&mut account, &mut rec),
                    _ => ledger::chargeback(&mut account, &mut rec),
                };
                match res {
                    Ok(()) => {
                        self.state.store.set_disputed(tx.tx, rec.disputed);
                    },
                    Err(_) => {
                        self.metrics.ledger_errors = incr(self.metrics.ledger_errors);
                    },
                }
                self.state.accounts.insert(tx.client, account);
            },
        }
    }

    /// One row per account ever referenced, ascending by client.
    pub fn results(&self) -> (r: Vec<AccountRow>)
        requires
            self.wf(),
        ensures
            forall|i: int|
                0 <= i < r@.len() ==> self.spec_accounts().contains_key(#[trigger] r@[i].client)
                    && r@[i] == row_of(r@[i].client, self.spec_accounts()[r@[i].client]),
            forall|i: int, j: int| 0 <= i < j < r@.len() ==> r@[i].client < r@[j].client,
            forall|c: ClientId| #[trigger]
                self.spec_accounts().contains_key(c) ==> exists|i: int|
                    0 <= i < r@.len() && r@[i].client == c,
    {
        let ghost accts = self.spec_accounts();
        let mut rows: Vec<AccountRow> = Vec::new();
        let mut c: u32 = 0;
        while c <= 0xffff
            invariant
                c <= 0x10000,
                accts == self.state.accounts@,
                state_wf(accts, self.spec_records()),
                forall|i: int|
                    0 <= i < rows@.len() ==> accts.contains_key(#[trigger] rows@[i].client)
                        && rows@[i] == row_of(rows@[i].client, accts[rows@[i].client])
                        && (rows@[i].client as u32) < c,
                forall|i: int, j: int| 0 <= i < j < rows@.len() ==> rows@[i].client < rows@[j].client,
                forall|k: ClientId| #[trigger]
                    accts.contains_key(k) && (k as u32) < c ==> exists|i: int|
                        0 <= i < rows@.len() && rows@[i].client == k,
            decreases 0x10000 - c,
        {
            let client = c as u16;
            let ghost before = rows@;
            if let Some(a) = self.state.accounts.get(&client) {
                assert(accts.contains_key(client));
                let row = AccountRow {
                    client,
                    available: a.available,
                    held: a.held,
                    total: a.total(),
                    locked: a.locked,
                };
                rows.push(row);
                assert(rows@[rows@.len() - 1] == row);
            }
            assert forall|k: ClientId| #[trigger]
                accts.contains_key(k) && (k as u32) < c + 1 implies exists|i: int|
                    0 <= i < rows@.len() && rows@[i].client == k by {
                if k == client {
                    assert(rows@[rows@.len() - 1].client == k);
                } else {
                    let i = choose|i: int| 0 <= i < before.len() && before[i].client == k;
                    assert(rows@[i] == before[i]);
                }
            }
            c += 1;
        }
        rows
    }
}

/// The effect of a whole sequence of events, in order.
pub open spec fn run(accts: Accounts, recs: Records, m: Metrics, evs: Seq<IngestEvent>) -> (
    Accounts,
    Records,
    Metrics,
)
    decreases evs.len(),
{
    if evs.len() == 0 {
        (accts, recs, m)
    } else {
        let (a1, r1, m1) = step(accts, recs, m, evs[0]);
        run(a1, r1, m1, evs.drop_first())
    }
}

/// Every event keeps holds non-negative, totals representable and recorded
/// amounts non-negative.
pub proof fn lemma_step_keeps_wf(accts: Accounts, recs: Records, m: Metrics, ev: IngestEvent)
    requires
        state_wf(accts, recs),
        ev.amount_ok(),
    ensures
        state_wf(step(accts, recs, m, ev).0, step(accts, recs, m, ev).1),
{
    if let IngestEvent::Tx(tx) = ev {
        let a = account_for(accts, tx.client);
        assert(a.wf());
        if !a.locked && !is_funds_kind(tx.kind) && recs.contains_key(tx.tx) {
            assert(recs[tx.tx].wf());
        }
    }
}

/// Over any sequence of events with non-negative amounts, every account keeps
/// a non-negative hold and a representable total `available + held`.
pub proof fn lemma_run_keeps_wf(accts: Accounts, recs: Records, m: Metrics, evs: Seq<IngestEvent>)
    requires
        state_wf(accts, recs),
        forall|i: int| 0 <= i < evs.len() ==> (#[trigger] evs[i]).amount_ok(),
    ensures
        state_wf(run(accts, recs, m, evs).0, run(accts, recs, m, evs).1),
    decreases evs.len(),
{
    if evs.len() > 0 {
        lemma_step_keeps_wf(accts, recs, m, evs[0]);
        let (a1, r1, m1) = step(accts, recs, m, evs[0]);
        let rest = evs.drop_first();
        assert forall|i: int| 0 <= i < rest.len() implies (#[trigger] rest[i]).amount_ok() by {
            assert(rest[i] == evs[i + 1]);
        }
        lemma_run_keeps_wf(a1, r1, m1, rest);
    }
}

/// Once an account is locked, no later event changes it.
pub proof fn lemma_locked_account_frozen(
    accts: Accounts,
    recs: Records,
    m: Metrics,
    evs: Seq<IngestEvent>,
    c: ClientId,
)
    requires
        accts.contains_key(c),
        accts[c].locked,
    ensures
        run(accts, recs, m, evs).0.contains_key(c),
        run(accts, recs, m, evs).0[c] == accts[c],
    decreases evs.len(),
{
    if evs.len() > 0 {
        let (a1, r1, m1) = step(accts, recs, m, evs[0]);
        assert(a1.contains_key(c) && a1[c] == accts[c]);
        lemma_locked_account_frozen(a1, r1, m1, evs.drop_first(), c);
    }
}

/// A recorded transaction keeps its client, amount and kind for the rest of
/// the run; only its dispute flag may change.
pub proof fn lemma_record_kept(
    accts: Accounts,
    recs: Records,
    m: Metrics,
    evs: Seq<IngestEvent>,
    t: TxId,
)
    requires
        recs.contains_key(t),
    ensures
        run(accts, recs, m, evs).1.contains_key(t),
        run(accts, recs, m, evs).1[t] == (TxRecord {
            disputed: run(accts, recs, m, evs).1[t].disputed,
            ..recs[t]
        }),
    decreases evs.len(),
{
    if evs.len() > 0 {
        let (a1, r1, m1) = step(accts, recs, m, evs[0]);
        assert(r1.contains_key(t));
        assert(r1[t] == TxRecord { disputed: r1[t].disputed, ..recs[t] });
        lemma_record_kept(a1, r1, m1, evs.drop_first(), t);
    }
}

/// A deposit or withdrawal that reuses a recorded id is rejected: history and
/// balances stay as they were and only a counter moves.
pub proof fn lemma_reused_id_rejected(accts: Accounts, recs: Records, m: Metrics, tx: Transaction)
    requires
        is_funds_kind(tx.kind),
        recs.contains_key(tx.tx),
    ensures
        step_tx(accts, recs, m, tx).1 == recs,
        step_tx(accts, recs, m, tx).0 == accts.insert(tx.client, account_for(accts, tx.client)),
{
}

} // verus!
