use vstd::prelude::*;

verus! {

/// Failures met while interpreting text at the ingest boundary.
#[derive(Debug, Clone, Copy, PartialEq, Eq, Structural)]
pub enum CoreError {
    ParseAmount,
    NegativeAmount,
    UnknownTransactionType,
}

impl CoreError {
    /// A short human-readable description of the error.
    pub fn message(&self) -> (r: &'static str)
        ensures
            r@ == match *self {
                CoreError::ParseAmount => "failed to parse amount"@,
                CoreError::NegativeAmount => "amount must be non-negative"@,
                CoreError::UnknownTransactionType => "unknown transaction type"@,
            },
    {
        match self {
            CoreError::ParseAmount => "failed to parse amount",
            CoreError::NegativeAmount => "amount must be non-negative",
            CoreError::UnknownTransactionType => "unknown transaction type",
        }
    }
}

/// Reasons a ledger operation refuses to change an account.
#[derive(Debug, Clone, Copy, PartialEq, Eq, Structural)]
pub enum LedgerError {
    InsufficientFunds,
    TxAlreadyDisputed,
    TxNotDisputed,
    DisputeOnWithdrawal,
    TxWrongClient,
    Overflow,
}

impl LedgerError {
    /// A short human-readable description of the error.
    pub fn message(&self) -> (r: &'static str)
        ensures
            r@ == match *self {
                LedgerError::InsufficientFunds => "insufficient funds"@,
                LedgerError::TxAlreadyDisputed => "transaction already disputed"@,
                LedgerError::TxNotDisputed => "transaction not disputed"@,
                LedgerError::DisputeOnWithdrawal => "only deposits can be disputed"@,
                LedgerError::TxWrongClient => "transaction-client mismatch"@,
                LedgerError::Overflow => "arithmetic overflow"@,
            },
    {
        match self {
            LedgerError::InsufficientFunds => "insufficient funds",
            LedgerError::TxAlreadyDisputed => "transaction already disputed",
            LedgerError::TxNotDisputed => "transaction not disputed",
            LedgerError::DisputeOnWithdrawal => "only deposits can be disputed",
            LedgerError::TxWrongClient => "transaction-client mismatch",
            LedgerError::Overflow => "arithmetic overflow",
        }
    }
}

} // verus!
