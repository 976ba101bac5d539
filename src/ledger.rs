use vstd::prelude::*;

use crate::errors::LedgerError;
use crate::state::{AccountState, TxKind, TxRecord};
use crate::types::{fits_i64, Amount};

verus! {

/// A hold may only be released down to zero.
pub open spec fn release_ok(held: int, amount: int) -> bool {
    0 <= held - amount <= i64::MAX
}

pub open spec fn deposit_result(a: AccountState, amount: Amount) -> Result<AccountState, LedgerError> {
    if !fits_i64(a.available@ + amount@) || !fits_i64(a.available@ + a.held@ + amount@) {
        Err(LedgerError::Overflow)
    } else {
        Ok(AccountState { available: Amount((a.available@ + amount@) as i64), ..a })
    }
}

pub open spec fn withdrawal_result(a: AccountState, amount: Amount) -> Result<
    AccountState,
    LedgerError,
> {
    if a.available@ < amount@ {
        Err(LedgerError::InsufficientFunds)
    } else if !fits_i64(a.available@ - amount@) || !fits_i64(a.available@ + a.held@ - amount@) {
        Err(LedgerError::Overflow)
    } else {
        Ok(AccountState { available: Amount((a.available@ - amount@) as i64), ..a })
    }
}

pub open spec fn dispute_result(a: AccountState, r: TxRecord) -> Result<
    (AccountState, TxRecord),
    LedgerError,
> {
    if r.disputed {
        Err(LedgerError::TxAlreadyDisputed)
    } else if r.kind != TxKind::Deposit {
        Err(LedgerError::DisputeOnWithdrawal)
    } else if !fits_i64(a.available@ - r.amount@) || !fits_i64(a.held@ + r.amount@) {
        Err(LedgerError::Overflow)
    } else {
        Ok(
            (
                AccountState {
                    available: Amount((a.available@ - r.amount@) as i64),
                    held: Amount((a.held@ + r.amount@) as i64),
                    locked: a.locked,
                },
                TxRecord { disputed: true, ..r },
            ),
        )
    }
}

pub open spec fn resolve_result(a: AccountState, r: TxRecord) -> Result<
    (AccountState, TxRecord),
    LedgerError,
> {
    if !r.disputed {
        Err(LedgerError::TxNotDisputed)
    } else if r.kind != TxKind::Deposit {
        Err(LedgerError::DisputeOnWithdrawal)
    } else if !fits_i64(a.available@ + r.amount@) || !release_ok(a.held@, r.amount@) {
        Err(LedgerError::Overflow)
    } else {
        Ok(
            (
                AccountState {
                    available: Amount((a.available@ + r.amount@) as i64),
                    held: Amount((a.held@ - r.amount@) as i64),
                    locked: a.locked,
                },
                TxRecord { disputed: false, ..r },
            ),
        )
    }
}

pub open spec fn chargeback_result(a: AccountState, r: TxRecord) -> Result<
    (AccountState, TxRecord),
    LedgerError,
> {
    if !r.disputed {
        Err(LedgerError::TxNotDisputed)
    } else if r.kind != TxKind::Deposit {
        Err(LedgerError::DisputeOnWithdrawal)
    } else if !release_ok(a.held@, r.amount@) {
        Err(LedgerError::Overflow)
    } else {
        Ok(
            (
                AccountState {
                    available: a.available,
                    held: Amount((a.held@ - r.amount@) as i64),
                    locked: true,
                },
                TxRecord { disputed: false, ..r },
            ),
        )
    }
}

/// Credits `amount` to the available funds. Refused with `Overflow`, leaving
/// the account as it was, when the available funds or the account's total
/// would leave the range of an `i64`.
pub fn deposit(account: &mut AccountState, amount: Amount) -> (r: Result<(), LedgerError>)
    ensures
        match deposit_result(*old(account), amount) {
            Ok(a) => r is Ok && *final(account) == a,
            Err(e) => r == Err::<(), LedgerError>(e) && *final(account) == *old(account),
        },
        old(account).wf() && amount@ >= 0 ==> final(account).wf(),
{
    let new_available = match account.available.checked_add(amount) {
        Ok(v) => v,
        Err(e) => return Err(e),
    };
    let new_total: i128 = account.available.0 as i128 + account.held.0 as i128 + amount.0 as i128;
    if new_total < i64::MIN as i128 || new_total > i64::MAX as i128 {
        return Err(LedgerError::Overflow);
    }
    account.available = new_available;
    Ok(())
}

/// Debits `amount` from the available funds, if they cover it; otherwise
/// refused with `InsufficientFunds` and the account is left as it was.
pub fn withdrawal(account: &mut AccountState, amount: Amount) -> (r: Result<(), LedgerError>)
    ensures
        match withdrawal_result(*old(account), amount) {
            Ok(a) => r is Ok && *final(account) == a,
            Err(e) => r == Err::<(), LedgerError>(e) && *final(account) == *old(account),
        },
        old(account).wf() && amount@ >= 0 ==> final(account).wf(),
{
    if account.available.0 < amount.0 {
        return Err(LedgerError::InsufficientFunds);
    }
    let new_available = match account.available.checked_sub(amount) {
        Ok(v) => v,
        Err(e) => return Err(e),
    };
    let new_total: i128 = account.available.0 as i128 + account.held.0 as i128 - amount.0 as i128;
    if new_total < i64::MIN as i128 || new_total > i64::MAX as i128 {
        return Err(LedgerError::Overflow);
    }
    account.available = new_available;
    Ok(())
}

/// Places the funds of a deposit on hold.
pub fn dispute(account: &mut AccountState, rec: &mut TxRecord) -> (r: Result<(), LedgerError>)
    ensures
        match dispute_result(*old(account), *old(rec)) {
            Ok((a, t)) => r is Ok && *final(account) == a && *final(rec) == t,
            Err(e) => r == Err::<(), LedgerError>(e) && *final(account) == *old(account)
                && *final(rec) == *old(rec),
        },
        old(account).wf() && old(rec).wf() ==> final(account).wf() && final(rec).wf(),
{
    if rec.disputed {
        return Err(LedgerError::TxAlreadyDisputed);
    }
    if let TxKind::Withdrawal = rec.kind {
        return Err(LedgerError::DisputeOnWithdrawal);
    }
    let new_available = match account.available.checked_sub(rec.amount) {
        Ok(v) => v,
        Err(e) => return Err(e),
    };
    let new_held = match account.held.checked_add(rec.amount) {
        Ok(v) => v,
        Err(e) => return Err(e),
    };
    account.available = new_available;
    account.held = new_held;
    rec.disputed = true;
    Ok(())
}

/// Releases the hold of a disputed deposit back to the available funds.
pub fn resolve(account: &mut AccountState, rec: &mut TxRecord) -> (r: Result<(), LedgerError>)
    ensures
        match resolve_result(*old(account), *old(rec)) {
            Ok((a, t)) => r is Ok && *final(account) == a && *final(rec) == t,
            Err(e) => r == Err::<(), LedgerError>(e) && *final(account) == *old(account)
                && *final(rec) == *old(rec),
        },
        old(account).wf() && old(rec).wf() ==> final(account).wf() && final(rec).wf(),
{
    if !rec.disputed {
        return Err(LedgerError::TxNotDisputed);
    }
    if let TxKind::Withdrawal = rec.kind {
        return Err(LedgerError::DisputeOnWithdrawal);
    }
    let new_available = match account.available.checked_add(rec.amount) {
        Ok(v) => v,
        Err(e) => return Err(e),
    };
    let new_held = match release(account.held, rec.amount) {
        Ok(v) => v,
        Err(e) => return Err(e),
    };
    account.available = new_available;
    account.held = new_held;
    rec.disputed = false;
    Ok(())
}

/// Removes the held funds of a disputed deposit for good and locks the account.
pub fn chargeback(account: &mut AccountState, rec: &mut TxRecord) -> (r: Result<(), LedgerError>)
    ensures
        match chargeback_result(*old(account), *old(rec)) {
            Ok((a, t)) => r is Ok && *final(account) == a && *final(rec) == t,
            Err(e) => r == Err::<(), LedgerError>(e) && *final(account) == *old(account)
                && *final(rec) == *old(rec),
        },
        old(account).wf() && old(rec).wf() ==> final(account).wf() && final(rec).wf(),
{
    if !rec.disputed {
        return Err(LedgerError::TxNotDisputed);
    }
    if let TxKind::Withdrawal = rec.kind {
        return Err(LedgerError::DisputeOnWithdrawal);
    }
    let new_held = match release(account.held, rec.amount) {
        Ok(v) => v,
        Err(e) => return Err(e),
    };
    account.held = new_held;
    account.locked = true;
    rec.disputed = false;
    Ok(())
}

/// `held - amount`, refused when it would fall below zero or overflow.
fn release(held: Amount, amount: Amount) -> (r: Result<Amount, LedgerError>)
    ensures
        release_ok(held@, amount@) ==> r == Ok::<Amount, LedgerError>(Amount((held@ - amount@) as i64)),
        !release_ok(held@, amount@) ==> r == Err::<Amount, LedgerError>(LedgerError::Overflow),
{
    match held.checked_sub(amount) {
        Ok(v) => {
            if v.0 < 0 {
                Err(LedgerError::Overflow)
            } else {
                Ok(v)
            }
        },
        Err(e) => Err(e),
    }
}

/// A dispute immediately followed by a resolve of the same record gives back
/// the account and the record exactly as they were before the dispute.
pub proof fn lemma_dispute_then_resolve(a: AccountState, r: TxRecord)
    requires
        a.wf(),
        dispute_result(a, r) is Ok,
    ensures
        resolve_result(dispute_result(a, r)->Ok_0.0, dispute_result(a, r)->Ok_0.1) == Ok::<
            (AccountState, TxRecord),
            LedgerError,
        >((a, r)),
{
    let (a1, r1) = dispute_result(a, r)->Ok_0;
    assert(TxRecord { disputed: false, ..r1 } == r);
}

/// A dispute followed by a chargeback of the same record removes exactly the
/// disputed amount from the hold, leaves the available funds where the dispute
/// put them, and locks the account.
pub proof fn lemma_dispute_then_chargeback(a: AccountState, r: TxRecord)
    requires
        a.wf(),
        dispute_result(a, r) is Ok,
    ensures
        ({
            let (a1, r1) = dispute_result(a, r)->Ok_0;
            &&& chargeback_result(a1, r1) is Ok
            &&& chargeback_result(a1, r1)->Ok_0.0.held@ == a1.held@ - r.amount@
            &&& chargeback_result(a1, r1)->Ok_0.0.held == a.held
            &&& chargeback_result(a1, r1)->Ok_0.0.available == a1.available
            &&& chargeback_result(a1, r1)->Ok_0.0.locked
            &&& !chargeback_result(a1, r1)->Ok_0.1.disputed
        }),
{
}

} // verus!
