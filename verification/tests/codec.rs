use ouh::codec::{
    bits_of_i64, get_array, get_le, i64_from_bits, put_bytes, put_le, put_zeros, starts_with,
    CONFIG_DISCRIMINATOR, TRANSACTION_DISCRIMINATOR, USER_DISCRIMINATOR,
};
use ouh::{
    Config, DecodeError, TransactionAccount, TransactionStatus, TransactionType, UserAccount,
    UserStatus,
};

fn user() -> UserAccount {
    UserAccount {
        phone_number: *b"+2348000000001",
        wallet: [5u8; 32],
        pin_hash: [6u8; 32],
        total_volume: 0x0102_0304_0506_0708,
        registered_at: -2,
        status: UserStatus::Suspended,
    }
}

fn transaction(amount_usdc: Option<u64>) -> TransactionAccount {
    TransactionAccount {
        tx_id: [1u8; 16],
        user_phone: *b"+2348000000001",
        tx_type: if amount_usdc.is_some() { TransactionType::Crypto } else { TransactionType::Airtime },
        amount_ngn: 50_000,
        amount_usdc,
        status: TransactionStatus::Failed,
        timestamp: 1_700_000_000,
        fee: 500,
    }
}

fn config() -> Config {
    Config {
        admin: [9u8; 32],
        crypto_fee_bps: 100,
        airtime_fee_bps: 10_000,
        min_limit: 1000,
        max_limit: 1_000_000,
        paused: true,
    }
}

#[test]
fn lengths_are_fixed() {
    assert_eq!(UserAccount::LEN, 103);
    assert_eq!(TransactionAccount::LEN, 73);
    assert_eq!(Config::LEN, 61);
    assert_eq!(user().to_bytes().len(), 103);
    assert_eq!(transaction(Some(30)).to_bytes().len(), 73);
    assert_eq!(transaction(None).to_bytes().len(), 73);
    assert_eq!(config().to_bytes().len(), 61);
}

#[test]
fn type_marks_are_the_known_bytes() {
    assert_eq!(USER_DISCRIMINATOR, [0xd3, 0x21, 0x88, 0x10, 0xba, 0x6e, 0xf2, 0x7f]);
    assert_eq!(TRANSACTION_DISCRIMINATOR, [0x92, 0x7d, 0xfd, 0xa7, 0xfa, 0xe2, 0xaf, 0x7b]);
    assert_eq!(CONFIG_DISCRIMINATOR, [0x9b, 0x0c, 0xaa, 0xe0, 0x1e, 0xfa, 0xcc, 0x82]);
}

#[test]
fn config_bytes_are_exact() {
    let mut expected = Vec::new();
    expected.extend_from_slice(&CONFIG_DISCRIMINATOR);
    expected.extend_from_slice(&[9u8; 32]);
    expected.extend_from_slice(&[100, 0]);
    expected.extend_from_slice(&[0x10, 0x27]);
    expected.extend_from_slice(&[0xe8, 0x03, 0, 0, 0, 0, 0, 0]);
    expected.extend_from_slice(&[0x40, 0x42, 0x0f, 0, 0, 0, 0, 0]);
    expected.push(1);
    assert_eq!(config().to_bytes(), expected);
}

#[test]
fn user_bytes_are_exact() {
    let mut expected = Vec::new();
    expected.extend_from_slice(&USER_DISCRIMINATOR);
    expected.extend_from_slice(b"+2348000000001");
    expected.extend_from_slice(&[5u8; 32]);
    expected.extend_from_slice(&[6u8; 32]);
    expected.extend_from_slice(&[8, 7, 6, 5, 4, 3, 2, 1]);
    expected.extend_from_slice(&[0xfe, 0xff, 0xff, 0xff, 0xff, 0xff, 0xff, 0xff]);
    expected.push(1);
    assert_eq!(user().to_bytes(), expected);
}

#[test]
fn transaction_bytes_are_exact() {
    let mut head = Vec::new();
    head.extend_from_slice(&TRANSACTION_DISCRIMINATOR);
    head.extend_from_slice(&[1u8; 16]);
    head.extend_from_slice(b"+2348000000001");
    let tail = [2u8, 0x00, 0xf1, 0x53, 0x65, 0, 0, 0, 0, 0xf4, 0x01, 0, 0, 0, 0, 0, 0];

    let mut with_amount = head.clone();
    with_amount.push(0);
    with_amount.extend_from_slice(&50_000u64.to_le_bytes());
    with_amount.push(1);
    with_amount.extend_from_slice(&30u64.to_le_bytes());
    with_amount.extend_from_slice(&tail);
    assert_eq!(transaction(Some(30)).to_bytes(), with_amount);

    let mut without = head.clone();
    without.push(1);
    without.extend_from_slice(&50_000u64.to_le_bytes());
    without.push(0);
    without.extend_from_slice(&tail);
    without.extend_from_slice(&[0u8; 8]);
    assert_eq!(transaction(None).to_bytes(), without);
}

#[test]
fn records_round_trip() {
    assert_eq!(UserAccount::from_bytes(&user().to_bytes()), Ok(user()));
    assert_eq!(Config::from_bytes(&config().to_bytes()), Ok(config()));
    assert_eq!(
        TransactionAccount::from_bytes(&transaction(Some(30)).to_bytes()),
        Ok(transaction(Some(30)))
    );
    assert_eq!(
        TransactionAccount::from_bytes(&transaction(None).to_bytes()),
        Ok(transaction(None))
    );
}

#[test]
fn extreme_values_round_trip() {
    for (volume, stamp) in [(0u64, 0i64), (u64::MAX, i64::MAX), (1, i64::MIN), (u64::MAX - 10, -1)] {
        let u = UserAccount { total_volume: volume, registered_at: stamp, status: UserStatus::Active, ..user() };
        assert_eq!(UserAccount::from_bytes(&u.to_bytes()), Ok(u));
        let t = TransactionAccount {
            amount_ngn: volume,
            amount_usdc: Some(volume),
            timestamp: stamp,
            fee: volume,
            status: TransactionStatus::Pending,
            ..transaction(Some(1))
        };
        assert_eq!(TransactionAccount::from_bytes(&t.to_bytes()), Ok(t));
    }
    let c = Config { crypto_fee_bps: u16::MAX, airtime_fee_bps: 0, min_limit: 0, max_limit: u64::MAX, paused: false, ..config() };
    assert_eq!(Config::from_bytes(&c.to_bytes()), Ok(c));
}

#[test]
fn trailing_bytes_are_ignored() {
    let mut bytes = user().to_bytes();
    bytes.extend_from_slice(&[0xaa; 20]);
    assert_eq!(UserAccount::from_bytes(&bytes), Ok(user()));
    let mut bytes = config().to_bytes();
    bytes.push(0xff);
    assert_eq!(Config::from_bytes(&bytes), Ok(config()));
    let mut bytes = transaction(None).to_bytes();
    bytes.truncate(65);
    assert_eq!(TransactionAccount::from_bytes(&bytes), Ok(transaction(None)));
}

#[test]
fn short_input_has_no_type_mark() {
    assert_eq!(UserAccount::from_bytes(&[]), Err(DecodeError::DiscriminatorNotFound));
    assert_eq!(Config::from_bytes(&CONFIG_DISCRIMINATOR[..7]), Err(DecodeError::DiscriminatorNotFound));
    assert_eq!(
        TransactionAccount::from_bytes(&[0x92, 0x7d, 0xfd]),
        Err(DecodeError::DiscriminatorNotFound)
    );
}

#[test]
fn foreign_type_mark_is_a_mismatch() {
    assert_eq!(UserAccount::from_bytes(&config().to_bytes()), Err(DecodeError::DiscriminatorMismatch));
    assert_eq!(Config::from_bytes(&user().to_bytes()), Err(DecodeError::DiscriminatorMismatch));
    assert_eq!(
        TransactionAccount::from_bytes(&user().to_bytes()),
        Err(DecodeError::DiscriminatorMismatch)
    );
    let mut bytes = user().to_bytes();
    bytes[7] ^= 1;
    assert_eq!(UserAccount::from_bytes(&bytes), Err(DecodeError::DiscriminatorMismatch));
    assert_eq!(UserAccount::from_bytes(&[0u8; 8]), Err(DecodeError::DiscriminatorMismatch));
}

#[test]
fn truncated_records_do_not_deserialize() {
    let bytes = user().to_bytes();
    assert_eq!(UserAccount::from_bytes(&bytes[..102]), Err(DecodeError::DidNotDeserialize));
    assert_eq!(UserAccount::from_bytes(&bytes[..8]), Err(DecodeError::DidNotDeserialize));
    let bytes = config().to_bytes();
    assert_eq!(Config::from_bytes(&bytes[..60]), Err(DecodeError::DidNotDeserialize));
    let bytes = transaction(Some(30)).to_bytes();
    assert_eq!(TransactionAccount::from_bytes(&bytes[..72]), Err(DecodeError::DidNotDeserialize));
    assert_eq!(TransactionAccount::from_bytes(&bytes[..47]), Err(DecodeError::DidNotDeserialize));
    let bytes = transaction(None).to_bytes();
    assert_eq!(TransactionAccount::from_bytes(&bytes[..64]), Err(DecodeError::DidNotDeserialize));
}

#[test]
fn bytes_that_stand_for_nothing_do_not_deserialize() {
    let mut bytes = user().to_bytes();
    bytes[102] = 2;
    assert_eq!(UserAccount::from_bytes(&bytes), Err(DecodeError::DidNotDeserialize));
    let mut bytes = config().to_bytes();
    bytes[60] = 2;
    assert_eq!(Config::from_bytes(&bytes), Err(DecodeError::DidNotDeserialize));
    let mut bytes = transaction(Some(30)).to_bytes();
    bytes[38] = 2;
    assert_eq!(TransactionAccount::from_bytes(&bytes), Err(DecodeError::DidNotDeserialize));
    let mut bytes = transaction(Some(30)).to_bytes();
    bytes[47] = 2;
    assert_eq!(TransactionAccount::from_bytes(&bytes), Err(DecodeError::DidNotDeserialize));
    let mut bytes = transaction(Some(30)).to_bytes();
    bytes[56] = 3;
    assert_eq!(TransactionAccount::from_bytes(&bytes), Err(DecodeError::DidNotDeserialize));
    let mut bytes = transaction(None).to_bytes();
    bytes[48] = 3;
    assert_eq!(TransactionAccount::from_bytes(&bytes), Err(DecodeError::DidNotDeserialize));
}

#[test]
fn enum_ordinals_are_the_stored_bytes() {
    assert_eq!(UserStatus::Active.to_byte(), 0);
    assert_eq!(UserStatus::Suspended.to_byte(), 1);
    assert_eq!(TransactionType::Crypto.to_byte(), 0);
    assert_eq!(TransactionType::Airtime.to_byte(), 1);
    assert_eq!(TransactionStatus::Pending.to_byte(), 0);
    assert_eq!(TransactionStatus::Completed.to_byte(), 1);
    assert_eq!(TransactionStatus::Failed.to_byte(), 2);
    assert_eq!(UserStatus::from_byte(1), Some(UserStatus::Suspended));
    assert_eq!(UserStatus::from_byte(2), None);
    assert_eq!(TransactionType::from_byte(0), Some(TransactionType::Crypto));
    assert_eq!(TransactionType::from_byte(255), None);
    assert_eq!(TransactionStatus::from_byte(2), Some(TransactionStatus::Failed));
    assert_eq!(TransactionStatus::from_byte(3), None);
}

#[test]
fn integers_are_little_endian() {
    let mut out = vec![0xeeu8];
    put_le(&mut out, 0x1122_3344_5566_7788, 8);
    assert_eq!(out, vec![0xee, 0x88, 0x77, 0x66, 0x55, 0x44, 0x33, 0x22, 0x11]);
    let mut out = Vec::new();
    put_le(&mut out, 0x1234, 2);
    assert_eq!(out, vec![0x34, 0x12]);
    let mut out = Vec::new();
    put_le(&mut out, 0x1234, 0);
    assert_eq!(out, Vec::<u8>::new());
    let bytes = [0xee, 0x88, 0x77, 0x66, 0x55, 0x44, 0x33, 0x22, 0x11, 0xdd];
    assert_eq!(get_le(&bytes, 1, 8), 0x1122_3344_5566_7788);
    assert_eq!(get_le(&bytes, 1, 2), 0x7788);
    assert_eq!(get_le(&bytes, 9, 1), 0xdd);
    assert_eq!(get_le(&bytes, 10, 0), 0);
}

#[test]
fn signed_numbers_keep_their_bits() {
    assert_eq!(bits_of_i64(0), 0);
    assert_eq!(bits_of_i64(-1), u64::MAX);
    assert_eq!(bits_of_i64(i64::MIN), 1u64 << 63);
    assert_eq!(bits_of_i64(i64::MAX), (1u64 << 63) - 1);
    assert_eq!(i64_from_bits(u64::MAX), -1);
    assert_eq!(i64_from_bits(1u64 << 63), i64::MIN);
    assert_eq!(i64_from_bits((1u64 << 63) - 1), i64::MAX);
    assert_eq!(i64_from_bits(5), 5);
}

#[test]
fn byte_helpers_do_what_they_say() {
    let mut out = vec![1u8];
    put_bytes(&mut out, &[2, 3]);
    put_zeros(&mut out, 2);
    put_bytes(&mut out, &[]);
    put_zeros(&mut out, 0);
    assert_eq!(out, vec![1, 2, 3, 0, 0]);
    assert_eq!(get_array::<3>(&out, 1), [2, 3, 0]);
    assert_eq!(get_array::<0>(&out, 5), [0u8; 0]);
    assert!(starts_with(&out, 1, &[2, 3]));
    assert!(!starts_with(&out, 0, &[2, 3]));
    assert!(starts_with(&out, 5, &[0u8; 0]));
}
