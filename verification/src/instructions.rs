use vstd::prelude::*;
use crate::derivation::RecordKey;
use crate::error::OuhError;
use crate::records::{kind_matches_amount, Config, TransactionAccount, TransactionStatus, TransactionType, UserAccount, UserStatus};
use crate::validator::{active_guard, kind_amount_guard, limit_guard, paused_guard, terminal_guard, within_limits};

verus! {

/// What an invocation does with a record it names.
#[derive(Clone, Copy, Debug, PartialEq, Eq, Structural)]
pub enum Access {
    /// The record must not exist yet; the host allocates it and the
    /// signer pays for it.
    Create,
    /// The record must exist; what the handler writes is kept.
    Mutate,
    /// The record must exist and is only read.
    Read,
}

/// One record that an invocation names, and what it does with it.
#[derive(Clone, Copy, Debug, PartialEq, Eq)]
pub struct RecordUse {
    pub key: RecordKey,
    pub access: Access,
}

/// What the host hands to `initialize_config`: the freshly allocated
/// configuration record and the key of the administrator who signed.
#[derive(Clone, Copy, Debug, PartialEq, Eq)]
pub struct InitializeConfig {
    pub config: Config,
    pub admin: [u8; 32],
}

/// What the host hands to `register_user`: the freshly allocated user
/// record, the key of the user who signed, and the host's clock.
#[derive(Clone, Copy, Debug, PartialEq, Eq)]
pub struct RegisterUser {
    pub user_account: UserAccount,
    pub user: [u8; 32],
    /// Seconds since the epoch, as the host reads them at this invocation.
    pub unix_timestamp: i64,
}

/// What the host hands to `create_transaction`: the freshly allocated
/// transaction record, the user it is opened for, the configuration, the
/// key of the user who signed, and the host's clock.
#[derive(Clone, Copy, Debug, PartialEq, Eq)]
pub struct CreateTransaction {
    pub transaction_account: TransactionAccount,
    pub user_account: UserAccount,
    pub config: Config,
    pub user: [u8; 32],
    /// Seconds since the epoch, as the host reads them at this invocation.
    pub unix_timestamp: i64,
}

/// What the host hands to `complete_transaction`: the transaction, the
/// user it belongs to, and the key of whoever signed.
#[derive(Clone, Copy, Debug, PartialEq, Eq)]
pub struct CompleteTransaction {
    pub transaction_account: TransactionAccount,
    pub user_account: UserAccount,
    /// Any signer is accepted here; the key is carried and not compared.
    pub authority: [u8; 32],
}

/// What the host hands to `get_user_balance`: the user's record.
#[derive(Clone, Copy, Debug, PartialEq, Eq)]
pub struct GetUserBalance {
    pub user_account: UserAccount,
}

impl InitializeConfig {
    /// The records that `initialize_config` names.
    pub open spec fn spec_records() -> Seq<RecordUse> {
        seq![RecordUse { key: RecordKey::Config, access: Access::Create }]
    }

    /// The records that `initialize_config` names: the configuration,
    /// which it creates. The administrator signs.
    pub fn records() -> (uses: Vec<RecordUse>)
        ensures
            uses@ == InitializeConfig::spec_records(),
    {
        let uses = vec![RecordUse { key: RecordKey::Config, access: Access::Create }];
        assert(uses@ =~= InitializeConfig::spec_records());
        uses
    }
}

impl RegisterUser {
    /// The records that `register_user` names for a phone number.
    pub open spec fn spec_records(phone_number: [u8; 14]) -> Seq<RecordUse> {
        seq![RecordUse { key: RecordKey::User { phone_number }, access: Access::Create }]
    }

    /// The records that `register_user` names: the user under the
    /// phone number, which it creates. The user signs.
    pub fn records(phone_number: [u8; 14]) -> (uses: Vec<RecordUse>)
        ensures
            uses@ == RegisterUser::spec_records(phone_number),
    {
        let uses = vec![RecordUse { key: RecordKey::User { phone_number }, access: Access::Create }];
        assert(uses@ =~= RegisterUser::spec_records(phone_number));
        uses
    }
}

impl CreateTransaction {
    /// The records that `create_transaction` names for its first two
    /// arguments.
    pub open spec fn spec_records(tx_id: [u8; 16], user_phone: [u8; 14]) -> Seq<RecordUse> {
        seq![
            RecordUse { key: RecordKey::Transaction { tx_id }, access: Access::Create },
            RecordUse { key: RecordKey::User { phone_number: user_phone }, access: Access::Mutate },
            RecordUse { key: RecordKey::Config, access: Access::Read },
        ]
    }

    /// The records that `create_transaction` names, in the order in
    /// which the host passes them: the transaction under its
    /// identifier, which it creates; the user under the phone number,
    /// open for writing; the configuration, read only. The user signs.
    pub fn records(tx_id: [u8; 16], user_phone: [u8; 14]) -> (uses: Vec<RecordUse>)
        ensures
            uses@ == CreateTransaction::spec_records(tx_id, user_phone),
    {
        let uses = vec![
            RecordUse { key: RecordKey::Transaction { tx_id }, access: Access::Create },
            RecordUse { key: RecordKey::User { phone_number: user_phone }, access: Access::Mutate },
            RecordUse { key: RecordKey::Config, access: Access::Read },
        ];
        assert(uses@ =~= CreateTransaction::spec_records(tx_id, user_phone));
        uses
    }
}

impl CompleteTransaction {
    /// The records that `complete_transaction` names for a transaction.
    pub open spec fn spec_records(transaction: TransactionAccount) -> Seq<RecordUse> {
        seq![
            RecordUse {
                key: RecordKey::Transaction { tx_id: transaction.tx_id },
                access: Access::Mutate,
            },
            RecordUse {
                key: RecordKey::User { phone_number: transaction.user_phone },
                access: Access::Mutate,
            },
        ]
    }

    /// The records that `complete_transaction` names, in the order in
    /// which the host passes them: the transaction, under the
    /// identifier it holds, and the user under the phone number that
    /// the transaction holds; both open for writing. Whoever signs is
    /// accepted as the authority.
    pub fn records(transaction: &TransactionAccount) -> (uses: Vec<RecordUse>)
        ensures
            uses@ == CompleteTransaction::spec_records(*transaction),
    {
        let uses = vec![
            RecordUse {
                key: RecordKey::Transaction { tx_id: transaction.tx_id },
                access: Access::Mutate,
            },
            RecordUse {
                key: RecordKey::User { phone_number: transaction.user_phone },
                access: Access::Mutate,
            },
        ];
        assert(uses@ =~= CompleteTransaction::spec_records(*transaction));
        uses
    }
}

impl GetUserBalance {
    /// The records that `get_user_balance` names for a phone number.
    pub open spec fn spec_records(phone_number: [u8; 14]) -> Seq<RecordUse> {
        seq![RecordUse { key: RecordKey::User { phone_number }, access: Access::Read }]
    }

    /// The records that `get_user_balance` names: the user under the
    /// phone number, read only. Nobody needs to sign.
    pub fn records(phone_number: [u8; 14]) -> (uses: Vec<RecordUse>)
        ensures
            uses@ == GetUserBalance::spec_records(phone_number),
    {
        let uses = vec![RecordUse { key: RecordKey::User { phone_number }, access: Access::Read }];
        assert(uses@ =~= GetUserBalance::spec_records(phone_number));
        uses
    }
}

/// The configuration that `initialize_config` writes for a signer and
/// its four arguments.
pub open spec fn initial_config(
    admin: [u8; 32],
    crypto_fee_bps: u16,
    airtime_fee_bps: u16,
    min_limit: u64,
    max_limit: u64,
) -> Config {
    Config { admin, crypto_fee_bps, airtime_fee_bps, min_limit, max_limit, paused: false }
}

/// The user that `register_user` writes.
pub open spec fn registered_user(
    wallet: [u8; 32],
    phone_number: [u8; 14],
    pin_hash: [u8; 32],
    now: i64,
) -> UserAccount {
    UserAccount {
        phone_number,
        wallet,
        pin_hash,
        total_volume: 0,
        registered_at: now,
        status: UserStatus::Active,
    }
}

/// The transaction that `create_transaction` writes.
pub open spec fn opened_transaction(
    tx_id: [u8; 16],
    user_phone: [u8; 14],
    tx_type: TransactionType,
    amount_ngn: u64,
    amount_usdc: Option<u64>,
    fee: u64,
    now: i64,
) -> TransactionAccount {
    TransactionAccount {
        tx_id,
        user_phone,
        tx_type,
        amount_ngn,
        amount_usdc,
        status: TransactionStatus::Pending,
        timestamp: now,
        fee,
    }
}

/// Why `create_transaction` refuses, if it does. The checks run in this
/// order and the first that fails names the error.
pub open spec fn opening_refusal(
    config: Config,
    user: UserAccount,
    tx_type: TransactionType,
    amount_ngn: u64,
    amount_usdc: Option<u64>,
) -> Option<OuhError> {
    if config.paused {
        Some(OuhError::ContractPaused)
    } else if !within_limits(config, amount_ngn) {
        Some(OuhError::TransactionLimitOutOfBounds)
    } else if user.status != UserStatus::Active {
        Some(OuhError::UserSuspended)
    } else if !kind_matches_amount(tx_type, amount_usdc) {
        Some(OuhError::InvalidInput)
    } else {
        None
    }
}

/// Why `complete_transaction` refuses, if it does: first a transaction
/// that is no longer pending, then a volume that would not fit.
pub open spec fn completion_refusal(transaction: TransactionAccount, user: UserAccount) -> Option<
    OuhError,
> {
    if transaction.status != TransactionStatus::Pending {
        Some(OuhError::InvalidTransition)
    } else if user.total_volume + transaction.amount_ngn > u64::MAX {
        Some(OuhError::ArithmeticOverflow)
    } else {
        None
    }
}

/// The transaction after `complete_transaction` accepted it.
pub open spec fn completed(transaction: TransactionAccount) -> TransactionAccount {
    TransactionAccount { status: TransactionStatus::Completed, ..transaction }
}

/// The user after `amount` was added to the volume.
pub open spec fn credited(user: UserAccount, amount: u64) -> UserAccount
    recommends
        user.total_volume + amount <= u64::MAX,
{
    UserAccount { total_volume: (user.total_volume + amount) as u64, ..user }
}

/// Writes the configuration for the first and only time.
///
/// Fee rates above one hundred percent and a lower limit above the upper
/// one are refused with `InvalidInput`, and nothing is written.
pub fn initialize_config(
    ctx: &mut InitializeConfig,
    crypto_fee_bps: u16,
    airtime_fee_bps: u16,
    min_limit: u64,
    max_limit: u64,
) -> (r: Result<(), OuhError>)
    ensures
        final(ctx).admin == old(ctx).admin,
        initial_config(
            old(ctx).admin,
            crypto_fee_bps,
            airtime_fee_bps,
            min_limit,
            max_limit,
        ).valid() ==> r is Ok && final(ctx).config == initial_config(
            old(ctx).admin,
            crypto_fee_bps,
            airtime_fee_bps,
            min_limit,
            max_limit,
        ),
        !initial_config(
            old(ctx).admin,
            crypto_fee_bps,
            airtime_fee_bps,
            min_limit,
            max_limit,
        ).valid() ==> r == Err::<(), OuhError>(OuhError::InvalidInput) && *final(ctx) == *old(ctx),
{
    let config = Config {
        admin: ctx.admin,
        crypto_fee_bps,
        airtime_fee_bps,
        min_limit,
        max_limit,
        paused: false,
    };
    if !config.is_valid() {
        return Err(OuhError::InvalidInput);
    }
    ctx.config = config;
    Ok(())
}

/// Writes a new user: active, with no volume, owned by the signer.
/// The phone number is stored as given.
pub fn register_user(ctx: &mut RegisterUser, phone_number: [u8; 14], pin_hash: [u8; 32]) -> (r:
    Result<(), OuhError>)
    ensures
        r is Ok,
        *final(ctx) == (RegisterUser {
            user_account: registered_user(
                old(ctx).user,
                phone_number,
                pin_hash,
                old(ctx).unix_timestamp,
            ),
            ..*old(ctx)
        }),
{
    ctx.user_account = UserAccount {
        phone_number,
        wallet: ctx.user,
        pin_hash,
        total_volume: 0,
        registered_at: ctx.unix_timestamp,
        status: UserStatus::Active,
    };
    Ok(())
}

/// Opens a pending transaction, if the configuration, the amount, the
/// user and the kind allow it. The fee is stored as given.
pub fn create_transaction(
    ctx: &mut CreateTransaction,
    tx_id: [u8; 16],
    user_phone: [u8; 14],
    tx_type: TransactionType,
    amount_ngn: u64,
    amount_usdc: Option<u64>,
    fee: u64,
) -> (r: Result<(), OuhError>)
    ensures
        match opening_refusal(
            old(ctx).config,
            old(ctx).user_account,
            tx_type,
            amount_ngn,
            amount_usdc,
        ) {
            Some(e) => r == Err::<(), OuhError>(e) && *final(ctx) == *old(ctx),
            None => r is Ok && *final(ctx) == (CreateTransaction {
                transaction_account: opened_transaction(
                    tx_id,
                    user_phone,
                    tx_type,
                    amount_ngn,
                    amount_usdc,
                    fee,
                    old(ctx).unix_timestamp,
                ),
                ..*old(ctx)
            }),
        },
        r is Ok ==> !old(ctx).config.paused && old(ctx).config.min_limit <= amount_ngn
            <= old(ctx).config.max_limit,
        r is Ok ==> final(ctx).transaction_account.valid(),
{
    paused_guard(&ctx.config)?;
    limit_guard(&ctx.config, amount_ngn)?;
    active_guard(&ctx.user_account)?;
    kind_amount_guard(tx_type, amount_usdc)?;
    ctx.transaction_account = TransactionAccount {
        tx_id,
        user_phone,
        tx_type,
        amount_ngn,
        amount_usdc,
        status: TransactionStatus::Pending,
        timestamp: ctx.unix_timestamp,
        fee,
    };
    Ok(())
}

/// Moves a pending transaction to `Completed` and adds its amount to the
/// user's volume. Both happen or neither does.
pub fn complete_transaction(ctx: &mut CompleteTransaction) -> (r: Result<(), OuhError>)
    ensures
        match completion_refusal(old(ctx).transaction_account, old(ctx).user_account) {
            Some(e) => r == Err::<(), OuhError>(e) && *final(ctx) == *old(ctx),
            None => r is Ok && *final(ctx) == (CompleteTransaction {
                transaction_account: completed(old(ctx).transaction_account),
                user_account: credited(
                    old(ctx).user_account,
                    old(ctx).transaction_account.amount_ngn,
                ),
                ..*old(ctx)
            }),
        },
{
    terminal_guard(&ctx.transaction_account)?;
    let volume = match ctx.user_account.total_volume.checked_add(ctx.transaction_account.amount_ngn) {
        Some(v) => v,
        None => {
            return Err(OuhError::ArithmeticOverflow);
        },
    };
    ctx.transaction_account.status = TransactionStatus::Completed;
    ctx.user_account.total_volume = volume;
    Ok(())
}

/// Reads the user's cumulative volume.
pub fn get_user_balance(ctx: &GetUserBalance) -> (r: Result<u64, OuhError>)
    ensures
        r == Ok::<u64, OuhError>(ctx.user_account.total_volume),
{
    Ok(ctx.user_account.total_volume)
}

} // verus!
