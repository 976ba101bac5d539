use vstd::prelude::*;

use crate::errors::CoreError;
use crate::types::{
    parse_amount_text, trim_text, trimmed, Amount, ClientId, Transaction, TransactionType, TxId,
};

verus! {

/// What one input row turned out to be.
#[derive(Debug, Clone, Copy, PartialEq, Eq, Structural)]
pub enum IngestEvent {
    Tx(Transaction),
    MalformedRow,
    UnknownType,
}

impl IngestEvent {
    /// Any amount the event carries is non-negative, as parsing guarantees.
    pub open spec fn amount_ok(&self) -> bool {
        match *self {
            IngestEvent::Tx(t) => match t.amount {
                Some(a) => a@ >= 0,
                None => true,
            },
            _ => true,
        }
    }
}

/// The transaction kind that an already trimmed name stands for.
pub open spec fn kind_from_text(t: Seq<char>) -> Result<TransactionType, CoreError> {
    if t == "deposit"@ {
        Ok(TransactionType::Deposit)
    } else if t == "withdrawal"@ {
        Ok(TransactionType::Withdrawal)
    } else if t == "dispute"@ {
        Ok(TransactionType::Dispute)
    } else if t == "resolve"@ {
        Ok(TransactionType::Resolve)
    } else if t == "chargeback"@ {
        Ok(TransactionType::Chargeback)
    } else {
        Err(CoreError::UnknownTransactionType)
    }
}

/// The event for a row whose fields were read: the kind decides, and only
/// deposits and withdrawals keep an amount, when it parsed.
pub open spec fn row_event(
    kind: Result<TransactionType, CoreError>,
    client: ClientId,
    tx: TxId,
    amount: Option<Result<Amount, CoreError>>,
) -> IngestEvent {
    match kind {
        Err(CoreError::UnknownTransactionType) => IngestEvent::UnknownType,
        Err(_) => IngestEvent::MalformedRow,
        Ok(k) => IngestEvent::Tx(
            Transaction {
                kind: k,
                client,
                tx,
                amount: if k == TransactionType::Deposit || k == TransactionType::Withdrawal {
                    match amount {
                        Some(Ok(a)) => Some(a),
                        _ => None,
                    }
                } else {
                    None
                },
            },
        ),
    }
}

/// Whether two texts hold the same characters.
fn same_text(a: &str, b: &str) -> (r: bool)
    ensures
        r == (a@ == b@),
{
    let n = a.unicode_len();
    if n != b.unicode_len() {
        return false;
    }
    let mut i: usize = 0;
    while i < n
        invariant
            n == a@.len(),
            n == b@.len(),
            i <= n,
            forall|j: int| 0 <= j < i ==> a@[j] == b@[j],
        decreases n - i,
    {
        if a.get_char(i) != b.get_char(i) {
            return false;
        }
        i += 1;
    }
    assert(a@ =~= b@);
    true
}

/// Reads a transaction kind name that carries no surrounding whitespace.
pub fn kind_from_trimmed(t: &str) -> (r: Result<TransactionType, CoreError>)
    ensures
        r == kind_from_text(t@),
{
    if same_text(t, "deposit") {
        Ok(TransactionType::Deposit)
    } else if same_text(t, "withdrawal") {
        Ok(TransactionType::Withdrawal)
    } else if same_text(t, "dispute") {
        Ok(TransactionType::Dispute)
    } else if same_text(t, "resolve") {
        Ok(TransactionType::Resolve)
    } else if same_text(t, "chargeback") {
        Ok(TransactionType::Chargeback)
    } else {
        Err(CoreError::UnknownTransactionType)
    }
}

/// Reads a transaction kind name (case-sensitive), ignoring surrounding
/// whitespace.
pub fn parse_kind(s: &str) -> (r: Result<TransactionType, CoreError>)
    ensures
        r == kind_from_text(trimmed(s@)),
{
    kind_from_trimmed(trim_text(s))
}

/// Turns the fields of one input row into an ingest event.
pub fn classify_row(kind: &str, client: ClientId, tx: TxId, amount: Option<&str>) -> (r:
    IngestEvent)
    ensures
        r == row_event(
            kind_from_text(trimmed(kind@)),
            client,
            tx,
            match amount {
                Some(a) => Some(parse_amount_text(trimmed(a@))),
                None => None,
            },
        ),
        r.amount_ok(),
{
    let k = match parse_kind(kind) {
        Ok(k) => k,
        Err(CoreError::UnknownTransactionType) => return IngestEvent::UnknownType,
        Err(_) => return IngestEvent::MalformedRow,
    };
    let parsed = match k {
        TransactionType::Deposit | TransactionType::Withdrawal => match amount {
            Some(a) => match Amount::from_str_4dp(a) {
                Ok(v) => Some(v),
                Err(_) => None,
            },
            None => None,
        },
        _ => None,
    };
    IngestEvent::Tx(Transaction { kind: k, client, tx, amount: parsed })
}

} // verus!
