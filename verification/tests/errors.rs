use ouh::{OuhError, ERROR_CODE_OFFSET};

const ALL: [OuhError; 11] = [
    OuhError::InvalidPhoneFormat,
    OuhError::TransactionLimitOutOfBounds,
    OuhError::ContractPaused,
    OuhError::UserSuspended,
    OuhError::InsufficientBalance,
    OuhError::InvalidPin,
    OuhError::ArithmeticOverflow,
    OuhError::InvalidTransition,
    OuhError::NotFound,
    OuhError::Unauthorized,
    OuhError::InvalidInput,
];

#[test]
fn offset_is_the_framework_offset() {
    assert_eq!(ERROR_CODE_OFFSET, anchor_lang::error::ERROR_CODE_OFFSET);
    assert_eq!(ERROR_CODE_OFFSET, 6000);
}

#[test]
fn codes_count_up_from_the_offset() {
    for (i, e) in ALL.iter().enumerate() {
        assert_eq!(e.code(), 6000 + i as u32);
    }
    assert_eq!(OuhError::InvalidPhoneFormat.code(), 6000);
    assert_eq!(OuhError::ContractPaused.code(), 6002);
    assert_eq!(OuhError::InvalidPin.code(), 6005);
    assert_eq!(OuhError::InvalidInput.code(), 6010);
}

#[test]
fn from_code_inverts_code() {
    for e in ALL.iter() {
        assert_eq!(OuhError::from_code(e.code()), Some(*e));
    }
    assert_eq!(OuhError::from_code(5999), None);
    assert_eq!(OuhError::from_code(6011), None);
    assert_eq!(OuhError::from_code(0), None);
    assert_eq!(OuhError::from_code(u32::MAX), None);
}

#[test]
fn messages_are_the_known_texts() {
    assert_eq!(OuhError::InvalidPhoneFormat.message(), "Invalid phone number format");
    assert_eq!(OuhError::TransactionLimitOutOfBounds.message(), "Transaction limit out of bounds");
    assert_eq!(OuhError::ContractPaused.message(), "Contract paused");
    assert_eq!(OuhError::UserSuspended.message(), "User suspended");
    assert_eq!(OuhError::InsufficientBalance.message(), "Insufficient balance");
    assert_eq!(OuhError::InvalidPin.message(), "Invalid PIN");
    assert_eq!(OuhError::ArithmeticOverflow.message(), "Arithmetic overflow");
    assert_eq!(OuhError::InvalidTransition.message(), "Invalid transition");
    assert_eq!(OuhError::NotFound.message(), "Not found");
    assert_eq!(OuhError::Unauthorized.message(), "Unauthorized");
    assert_eq!(OuhError::InvalidInput.message(), "Invalid input");
}
