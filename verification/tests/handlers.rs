use ouh::{
    complete_transaction, create_transaction, get_user_balance, initialize_config, register_user,
    CompleteTransaction, Config, CreateTransaction, GetUserBalance, InitializeConfig, OuhError,
    RegisterUser, TransactionAccount, TransactionStatus, TransactionType, UserAccount, UserStatus,
};

const PHONE: [u8; 14] = *b"+2348000000001";

fn config(paused: bool) -> Config {
    Config {
        admin: [9u8; 32],
        crypto_fee_bps: 100,
        airtime_fee_bps: 50,
        min_limit: 1000,
        max_limit: 1_000_000,
        paused,
    }
}

fn user(status: UserStatus, total_volume: u64) -> UserAccount {
    UserAccount {
        phone_number: PHONE,
        wallet: [5u8; 32],
        pin_hash: [0u8; 32],
        total_volume,
        registered_at: 11,
        status,
    }
}

fn pending(amount_ngn: u64) -> TransactionAccount {
    TransactionAccount {
        tx_id: [1u8; 16],
        user_phone: PHONE,
        tx_type: TransactionType::Crypto,
        amount_ngn,
        amount_usdc: Some(30),
        status: TransactionStatus::Pending,
        timestamp: 12,
        fee: 500,
    }
}

#[test]
fn blank_records_are_zeroed() {
    let c = Config::blank();
    assert_eq!(c, Config { admin: [0; 32], crypto_fee_bps: 0, airtime_fee_bps: 0, min_limit: 0, max_limit: 0, paused: false });
    let u = UserAccount::blank();
    assert_eq!(u, UserAccount { phone_number: [0; 14], wallet: [0; 32], pin_hash: [0; 32], total_volume: 0, registered_at: 0, status: UserStatus::Active });
    let t = TransactionAccount::blank();
    assert_eq!(t.tx_id, [0; 16]);
    assert_eq!(t.user_phone, [0; 14]);
    assert_eq!(t.tx_type, TransactionType::Crypto);
    assert_eq!(t.amount_usdc, None);
    assert_eq!(t.status, TransactionStatus::Pending);
    assert_eq!((t.amount_ngn, t.timestamp, t.fee), (0, 0, 0));
}

#[test]
fn initialize_config_writes_all_six_fields() {
    let mut ctx = InitializeConfig { config: Config::blank(), admin: [9u8; 32] };
    assert_eq!(initialize_config(&mut ctx, 100, 50, 1000, 1_000_000), Ok(()));
    assert_eq!(ctx.config, config(false));
    assert_eq!(ctx.admin, [9u8; 32]);
}

#[test]
fn initialize_config_unpauses() {
    let mut ctx = InitializeConfig { config: config(true), admin: [8u8; 32] };
    assert_eq!(initialize_config(&mut ctx, 0, 10_000, 5, 5), Ok(()));
    assert_eq!(
        ctx.config,
        Config { admin: [8u8; 32], crypto_fee_bps: 0, airtime_fee_bps: 10_000, min_limit: 5, max_limit: 5, paused: false }
    );
}

#[test]
fn initialize_config_refuses_unsound_input() {
    let before = InitializeConfig { config: Config::blank(), admin: [9u8; 32] };
    for (c, a, lo, hi) in [(10_001u16, 0u16, 0u64, 0u64), (0, 10_001, 0, 0), (0, 0, 2, 1), (u16::MAX, u16::MAX, u64::MAX, 0)] {
        let mut ctx = before;
        assert_eq!(initialize_config(&mut ctx, c, a, lo, hi), Err(OuhError::InvalidInput));
        assert_eq!(ctx, before);
    }
}

#[test]
fn register_user_writes_a_fresh_active_user() {
    let mut ctx = RegisterUser { user_account: user(UserStatus::Suspended, 99), user: [7u8; 32], unix_timestamp: -3 };
    assert_eq!(register_user(&mut ctx, PHONE, [4u8; 32]), Ok(()));
    assert_eq!(
        ctx.user_account,
        UserAccount {
            phone_number: PHONE,
            wallet: [7u8; 32],
            pin_hash: [4u8; 32],
            total_volume: 0,
            registered_at: -3,
            status: UserStatus::Active,
        }
    );
    assert_eq!(ctx.user, [7u8; 32]);
    assert_eq!(ctx.unix_timestamp, -3);
}

#[test]
fn create_transaction_writes_a_pending_transaction() {
    let mut ctx = CreateTransaction {
        transaction_account: TransactionAccount::blank(),
        user_account: user(UserStatus::Active, 0),
        config: config(false),
        user: [5u8; 32],
        unix_timestamp: 12,
    };
    assert_eq!(
        create_transaction(&mut ctx, [1u8; 16], PHONE, TransactionType::Crypto, 50_000, Some(30), 500),
        Ok(())
    );
    assert_eq!(ctx.transaction_account, pending(50_000));
    assert_eq!(ctx.user_account, user(UserStatus::Active, 0));
    assert_eq!(ctx.config, config(false));
}

#[test]
fn create_transaction_records_the_fee_as_given() {
    let mut ctx = CreateTransaction {
        transaction_account: TransactionAccount::blank(),
        user_account: user(UserStatus::Active, 0),
        config: config(false),
        user: [5u8; 32],
        unix_timestamp: 12,
    };
    assert_eq!(
        create_transaction(&mut ctx, [1u8; 16], PHONE, TransactionType::Airtime, 1000, None, u64::MAX),
        Ok(())
    );
    assert_eq!(ctx.transaction_account.fee, u64::MAX);
    assert_eq!(ctx.transaction_account.amount_usdc, None);
}

#[test]
fn create_transaction_refusals_leave_the_context_alone() {
    let cases = [
        (config(true), UserStatus::Active, 50_000u64, Some(30u64), OuhError::ContractPaused),
        (config(false), UserStatus::Active, 999, Some(30), OuhError::TransactionLimitOutOfBounds),
        (config(false), UserStatus::Active, 1_000_001, Some(30), OuhError::TransactionLimitOutOfBounds),
        (config(false), UserStatus::Suspended, 50_000, Some(30), OuhError::UserSuspended),
        (config(false), UserStatus::Active, 50_000, None, OuhError::InvalidInput),
        (config(true), UserStatus::Suspended, 1, None, OuhError::ContractPaused),
    ];
    for (cfg, status, amount, usdc, expected) in cases {
        let before = CreateTransaction {
            transaction_account: TransactionAccount::blank(),
            user_account: user(status, 0),
            config: cfg,
            user: [5u8; 32],
            unix_timestamp: 12,
        };
        let mut ctx = before;
        assert_eq!(
            create_transaction(&mut ctx, [1u8; 16], PHONE, TransactionType::Crypto, amount, usdc, 500),
            Err(expected)
        );
        assert_eq!(ctx, before);
    }
}

#[test]
fn complete_transaction_credits_the_user() {
    let mut ctx = CompleteTransaction {
        transaction_account: pending(50_000),
        user_account: user(UserStatus::Active, 7),
        authority: [3u8; 32],
    };
    assert_eq!(complete_transaction(&mut ctx), Ok(()));
    assert_eq!(
        ctx.transaction_account,
        TransactionAccount { status: TransactionStatus::Completed, ..pending(50_000) }
    );
    assert_eq!(ctx.user_account, user(UserStatus::Active, 50_007));
    assert_eq!(ctx.authority, [3u8; 32]);
}

#[test]
fn complete_transaction_refuses_what_is_not_pending() {
    for status in [TransactionStatus::Completed, TransactionStatus::Failed] {
        let before = CompleteTransaction {
            transaction_account: TransactionAccount { status, ..pending(50_000) },
            user_account: user(UserStatus::Active, 7),
            authority: [3u8; 32],
        };
        let mut ctx = before;
        assert_eq!(complete_transaction(&mut ctx), Err(OuhError::InvalidTransition));
        assert_eq!(ctx, before);
    }
}

#[test]
fn complete_transaction_refuses_overflow() {
    let before = CompleteTransaction {
        transaction_account: pending(100),
        user_account: user(UserStatus::Active, u64::MAX - 10),
        authority: [3u8; 32],
    };
    let mut ctx = before;
    assert_eq!(complete_transaction(&mut ctx), Err(OuhError::ArithmeticOverflow));
    assert_eq!(ctx, before);

    let mut ctx = CompleteTransaction {
        transaction_account: pending(10),
        user_account: user(UserStatus::Active, u64::MAX - 10),
        authority: [3u8; 32],
    };
    assert_eq!(complete_transaction(&mut ctx), Ok(()));
    assert_eq!(ctx.user_account.total_volume, u64::MAX);
}

#[test]
fn complete_transaction_accepts_a_suspended_user() {
    let mut ctx = CompleteTransaction {
        transaction_account: pending(100),
        user_account: user(UserStatus::Suspended, 1),
        authority: [0u8; 32],
    };
    assert_eq!(complete_transaction(&mut ctx), Ok(()));
    assert_eq!(ctx.user_account.total_volume, 101);
}

#[test]
fn get_user_balance_reads_the_volume() {
    let ctx = GetUserBalance { user_account: user(UserStatus::Suspended, 123_456) };
    assert_eq!(get_user_balance(&ctx), Ok(123_456));
}

#[test]
fn record_soundness_checks() {
    assert!(config(false).is_valid());
    assert!(!Config { crypto_fee_bps: 10_001, ..config(false) }.is_valid());
    assert!(!Config { airtime_fee_bps: 10_001, ..config(false) }.is_valid());
    assert!(!Config { min_limit: 2, max_limit: 1, ..config(false) }.is_valid());
    assert!(pending(1).is_valid());
    assert!(!TransactionAccount { amount_usdc: None, ..pending(1) }.is_valid());
    assert!(!TransactionAccount { tx_type: TransactionType::Airtime, ..pending(1) }.is_valid());
    assert!(TransactionAccount { tx_type: TransactionType::Airtime, amount_usdc: None, ..pending(1) }.is_valid());
}
