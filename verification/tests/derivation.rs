use anchor_lang::prelude::Pubkey;
use ouh::{RecordKey, CONFIG_SEED, PROGRAM_ID, TRANSACTION_SEED, USER_SEED};
use std::str::FromStr;

const PHONE: [u8; 14] = *b"+2348000000001";
const TX_ID: [u8; 16] = [1u8; 16];

#[test]
fn tags_are_the_three_words() {
    assert_eq!(&USER_SEED[..], b"user");
    assert_eq!(&TRANSACTION_SEED[..], b"transaction");
    assert_eq!(&CONFIG_SEED[..], b"config");
}

#[test]
fn program_id_is_the_declared_one() {
    let id = Pubkey::from_str("CZohQsF3D3cDDTtJnMZi9WirsknWxWyBKgHiLg5b1T8E").unwrap();
    assert_eq!(id.to_bytes(), PROGRAM_ID);
}

#[test]
fn seeds_are_tag_then_key() {
    assert_eq!(RecordKey::Config.seeds(), vec![b"config".to_vec()]);
    assert_eq!(
        RecordKey::User { phone_number: PHONE }.seeds(),
        vec![b"user".to_vec(), PHONE.to_vec()]
    );
    assert_eq!(
        RecordKey::Transaction { tx_id: TX_ID }.seeds(),
        vec![b"transaction".to_vec(), TX_ID.to_vec()]
    );
}

#[test]
fn derive_agrees_with_the_host_scheme() {
    let id = Pubkey::new_from_array(PROGRAM_ID);

    let (address, bump) = Pubkey::find_program_address(&[b"config"], &id);
    assert_eq!(
        ouh::derivation::derive(&RecordKey::Config, &PROGRAM_ID),
        Some((address.to_bytes(), bump))
    );

    let (address, bump) = Pubkey::find_program_address(&[b"user", &PHONE], &id);
    assert_eq!(
        ouh::derivation::derive(&RecordKey::User { phone_number: PHONE }, &PROGRAM_ID),
        Some((address.to_bytes(), bump))
    );

    let (address, bump) = Pubkey::find_program_address(&[b"transaction", &TX_ID], &id);
    assert_eq!(
        ouh::derivation::derive(&RecordKey::Transaction { tx_id: TX_ID }, &PROGRAM_ID),
        Some((address.to_bytes(), bump))
    );
}

#[test]
fn derived_address_is_off_the_curve_and_checks_out() {
    let id = Pubkey::new_from_array(PROGRAM_ID);
    let (address, bump) =
        ouh::derivation::derive(&RecordKey::User { phone_number: PHONE }, &PROGRAM_ID).unwrap();
    assert!(!Pubkey::new_from_array(address).is_on_curve());
    let again = Pubkey::create_program_address(&[b"user", &PHONE, &[bump]], &id).unwrap();
    assert_eq!(again.to_bytes(), address);
    assert_ne!(address, PROGRAM_ID);
}

#[test]
fn derive_is_deterministic() {
    let key = RecordKey::Transaction { tx_id: TX_ID };
    assert_eq!(
        ouh::derivation::derive(&key, &PROGRAM_ID),
        ouh::derivation::derive(&key, &PROGRAM_ID)
    );
}

#[test]
fn distinct_keys_get_distinct_addresses() {
    let mut other_phone = PHONE;
    other_phone[13] = b'2';
    let mut phone_as_tx = [0u8; 16];
    phone_as_tx[..14].copy_from_slice(&PHONE);
    let keys = [
        RecordKey::Config,
        RecordKey::User { phone_number: PHONE },
        RecordKey::User { phone_number: other_phone },
        RecordKey::User { phone_number: [0u8; 14] },
        RecordKey::Transaction { tx_id: TX_ID },
        RecordKey::Transaction { tx_id: [0u8; 16] },
        RecordKey::Transaction { tx_id: phone_as_tx },
    ];
    for i in 0..keys.len() {
        for j in 0..keys.len() {
            let a = ouh::derivation::derive(&keys[i], &PROGRAM_ID).unwrap();
            let b = ouh::derivation::derive(&keys[j], &PROGRAM_ID).unwrap();
            assert_eq!(a.0 == b.0, i == j);
            assert_eq!(keys[i].seeds() == keys[j].seeds(), i == j);
        }
    }
}

#[test]
fn address_depends_on_the_program() {
    let other = [7u8; 32];
    let key = RecordKey::Config;
    assert_ne!(
        ouh::derivation::derive(&key, &PROGRAM_ID).unwrap().0,
        ouh::derivation::derive(&key, &other).unwrap().0
    );
}

#[test]
fn bytes_of_copies_the_bytes() {
    assert_eq!(ouh::derivation::bytes_of(&PHONE), PHONE.to_vec());
    assert_eq!(ouh::derivation::bytes_of(&[0u8; 0]), Vec::<u8>::new());
}

#[test]
fn space_is_the_stored_length() {
    assert_eq!(RecordKey::Config.space(), 61);
    assert_eq!(RecordKey::User { phone_number: PHONE }.space(), 103);
    assert_eq!(RecordKey::Transaction { tx_id: TX_ID }.space(), 73);
}
