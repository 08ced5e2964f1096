use vstd::prelude::*;
use crate::error::OuhError;
use crate::records::{kind_matches_amount, Config, TransactionAccount, TransactionStatus, TransactionType, UserAccount, UserStatus};

verus! {

/// Whether two byte strings of one length hold the same bytes.
pub fn same_bytes<const N: usize>(a: &[u8; N], b: &[u8; N]) -> (same: bool)
    ensures
        same == (*a == *b),
{
    let mut i: usize = 0;
    while i < N
        invariant
            i <= N,
            forall|j: int| 0 <= j < i ==> a[j] == b[j],
        decreases N - i,
    {
        if a[i] != b[i] {
            return false;
        }
        i += 1;
    }
    assert(*a =~= *b);
    true
}

/// Refuses everything while the configuration is paused.
pub fn paused_guard(config: &Config) -> (r: Result<(), OuhError>)
    ensures
        r == (if config.paused {
            Err::<(), OuhError>(OuhError::ContractPaused)
        } else {
            Ok(())
        }),
{
    if config.paused {
        Err(OuhError::ContractPaused)
    } else {
        Ok(())
    }
}

/// An amount lies within the configured limits, both ends included.
pub open spec fn within_limits(config: Config, amount: u64) -> bool {
    config.min_limit <= amount <= config.max_limit
}

/// Refuses an amount below the lower or above the upper limit.
pub fn limit_guard(config: &Config, amount: u64) -> (r: Result<(), OuhError>)
    ensures
        r == (if within_limits(*config, amount) {
            Ok::<(), OuhError>(())
        } else {
            Err(OuhError::TransactionLimitOutOfBounds)
        }),
{
    if amount < config.min_limit || amount > config.max_limit {
        Err(OuhError::TransactionLimitOutOfBounds)
    } else {
        Ok(())
    }
}

/// Refuses a user who is not active.
pub fn active_guard(user: &UserAccount) -> (r: Result<(), OuhError>)
    ensures
        r == (if user.status == UserStatus::Active {
            Ok::<(), OuhError>(())
        } else {
            Err(OuhError::UserSuspended)
        }),
{
    match user.status {
        UserStatus::Active => Ok(()),
        UserStatus::Suspended => Err(OuhError::UserSuspended),
    }
}

/// Refuses a `Crypto` transaction without a stable-value amount and an
/// `Airtime` transaction with one.
pub fn kind_amount_guard(tx_type: TransactionType, amount_usdc: Option<u64>) -> (r: Result<
    (),
    OuhError,
>)
    ensures
        r == (if kind_matches_amount(tx_type, amount_usdc) {
            Ok::<(), OuhError>(())
        } else {
            Err(OuhError::InvalidInput)
        }),
{
    let agrees = match tx_type {
        TransactionType::Crypto => amount_usdc.is_some(),
        TransactionType::Airtime => amount_usdc.is_none(),
    };
    if agrees {
        Ok(())
    } else {
        Err(OuhError::InvalidInput)
    }
}

/// Refuses a signer who is not the configured administrator.
pub fn admin_guard(config: &Config, signer: &[u8; 32]) -> (r: Result<(), OuhError>)
    ensures
        r == (if *signer == config.admin {
            Ok::<(), OuhError>(())
        } else {
            Err(OuhError::Unauthorized)
        }),
{
    if same_bytes(signer, &config.admin) {
        Ok(())
    } else {
        Err(OuhError::Unauthorized)
    }
}

/// Refuses a transaction that has already reached a final status.
pub fn terminal_guard(transaction: &TransactionAccount) -> (r: Result<(), OuhError>)
    ensures
        r == (if transaction.status == TransactionStatus::Pending {
            Ok::<(), OuhError>(())
        } else {
            Err(OuhError::InvalidTransition)
        }),
{
    match transaction.status {
        TransactionStatus::Pending => Ok(()),
        _ => Err(OuhError::InvalidTransition),
    }
}

} // verus!
