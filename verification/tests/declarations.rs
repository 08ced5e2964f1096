use ouh::{
    Access, CompleteTransaction, CreateTransaction, GetUserBalance, InitializeConfig, Ledger,
    Record, RecordKey, RecordUse, RegisterUser, TransactionAccount, TransactionStatus,
    TransactionType,
};

const PHONE: [u8; 14] = *b"+2348000000001";
const TX_ID: [u8; 16] = [1u8; 16];

#[test]
fn initialize_config_creates_the_configuration() {
    assert_eq!(
        InitializeConfig::records(),
        vec![RecordUse { key: RecordKey::Config, access: Access::Create }]
    );
}

#[test]
fn register_user_creates_the_user() {
    assert_eq!(
        RegisterUser::records(PHONE),
        vec![RecordUse { key: RecordKey::User { phone_number: PHONE }, access: Access::Create }]
    );
}

#[test]
fn create_transaction_names_three_records() {
    assert_eq!(
        CreateTransaction::records(TX_ID, PHONE),
        vec![
            RecordUse { key: RecordKey::Transaction { tx_id: TX_ID }, access: Access::Create },
            RecordUse { key: RecordKey::User { phone_number: PHONE }, access: Access::Mutate },
            RecordUse { key: RecordKey::Config, access: Access::Read },
        ]
    );
}

#[test]
fn complete_transaction_names_records_through_the_transaction() {
    let tx = TransactionAccount {
        tx_id: TX_ID,
        user_phone: PHONE,
        tx_type: TransactionType::Airtime,
        amount_ngn: 1,
        amount_usdc: None,
        status: TransactionStatus::Pending,
        timestamp: 0,
        fee: 0,
    };
    assert_eq!(
        CompleteTransaction::records(&tx),
        vec![
            RecordUse { key: RecordKey::Transaction { tx_id: TX_ID }, access: Access::Mutate },
            RecordUse { key: RecordKey::User { phone_number: PHONE }, access: Access::Mutate },
        ]
    );
}

#[test]
fn get_user_balance_reads_the_user() {
    assert_eq!(
        GetUserBalance::records(PHONE),
        vec![RecordUse { key: RecordKey::User { phone_number: PHONE }, access: Access::Read }]
    );
}

#[test]
fn record_finds_each_kind_by_key() {
    let mut ledger = Ledger::new();
    assert_eq!(ledger.record(&RecordKey::Config), None);
    assert_eq!(ledger.record(&RecordKey::User { phone_number: PHONE }), None);
    assert_eq!(ledger.record(&RecordKey::Transaction { tx_id: TX_ID }), None);
    assert_eq!(ledger.initialize_config([9u8; 32], 100, 50, 1000, 1_000_000), Ok(()));
    assert_eq!(ledger.register_user([5u8; 32], PHONE, [0u8; 32], 3), Ok(()));
    assert_eq!(
        ledger.create_transaction([5u8; 32], TX_ID, PHONE, TransactionType::Airtime, 1000, None, 0, 4),
        Ok(())
    );
    assert_eq!(ledger.record(&RecordKey::Config), Some(Record::Config(ledger.config().unwrap())));
    assert_eq!(
        ledger.record(&RecordKey::User { phone_number: PHONE }),
        Some(Record::User(ledger.user(&PHONE).unwrap()))
    );
    assert_eq!(
        ledger.record(&RecordKey::Transaction { tx_id: TX_ID }),
        Some(Record::Transaction(ledger.transaction(&TX_ID).unwrap()))
    );
    assert_eq!(ledger.record(&RecordKey::Transaction { tx_id: [2u8; 16] }), None);
}

#[test]
fn an_invocation_leaves_unnamed_records_alone() {
    let mut ledger = Ledger::new();
    let other: [u8; 14] = *b"+2348000000002";
    assert_eq!(ledger.initialize_config([9u8; 32], 100, 50, 1000, 1_000_000), Ok(()));
    assert_eq!(ledger.register_user([5u8; 32], PHONE, [0u8; 32], 3), Ok(()));
    assert_eq!(ledger.register_user([6u8; 32], other, [0u8; 32], 3), Ok(()));
    assert_eq!(
        ledger.create_transaction([5u8; 32], TX_ID, PHONE, TransactionType::Airtime, 1000, None, 0, 4),
        Ok(())
    );
    assert_eq!(
        ledger.create_transaction([6u8; 32], [2u8; 16], other, TransactionType::Airtime, 2000, None, 0, 4),
        Ok(())
    );
    let config = ledger.config();
    let other_user = ledger.user(&other);
    let other_tx = ledger.transaction(&[2u8; 16]);
    assert_eq!(ledger.complete_transaction([0u8; 32], TX_ID), Ok(()));
    assert_eq!(ledger.config(), config);
    assert_eq!(ledger.user(&other), other_user);
    assert_eq!(ledger.transaction(&[2u8; 16]), other_tx);
    assert_eq!(ledger.user(&PHONE).unwrap().total_volume, 1000);
}
