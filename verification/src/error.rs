use vstd::prelude::*;

verus! {

/// The number from which the program's error codes count upwards.
pub const ERROR_CODE_OFFSET: u32 = 6000;

/// Every way in which the program can refuse an invocation.
///
/// The order of the variants fixes their codes: add new ones at the end,
/// so that the numbers clients know stay as they are.
#[derive(Clone, Copy, Debug, PartialEq, Eq, Structural)]
pub enum OuhError {
    /// Reserved; nothing raises it yet.
    InvalidPhoneFormat,
    TransactionLimitOutOfBounds,
    ContractPaused,
    UserSuspended,
    /// Reserved; nothing raises it yet.
    InsufficientBalance,
    /// Reserved; nothing raises it yet.
    InvalidPin,
    ArithmeticOverflow,
    InvalidTransition,
    NotFound,
    Unauthorized,
    InvalidInput,
}

impl OuhError {
    /// Position of the variant in the declaration, counted from zero.
    pub open spec fn ordinal(self) -> nat {
        match self {
            OuhError::InvalidPhoneFormat => 0,
            OuhError::TransactionLimitOutOfBounds => 1,
            OuhError::ContractPaused => 2,
            OuhError::UserSuspended => 3,
            OuhError::InsufficientBalance => 4,
            OuhError::InvalidPin => 5,
            OuhError::ArithmeticOverflow => 6,
            OuhError::InvalidTransition => 7,
            OuhError::NotFound => 8,
            OuhError::Unauthorized => 9,
            OuhError::InvalidInput => 10,
        }
    }

    /// The text shown to a person for this error.
    pub open spec fn spec_message(self) -> Seq<char> {
        match self {
            OuhError::InvalidPhoneFormat => "Invalid phone number format"@,
            OuhError::TransactionLimitOutOfBounds => "Transaction limit out of bounds"@,
            OuhError::ContractPaused => "Contract paused"@,
            OuhError::UserSuspended => "User suspended"@,
            OuhError::InsufficientBalance => "Insufficient balance"@,
            OuhError::InvalidPin => "Invalid PIN"@,
            OuhError::ArithmeticOverflow => "Arithmetic overflow"@,
            OuhError::InvalidTransition => "Invalid transition"@,
            OuhError::NotFound => "Not found"@,
            OuhError::Unauthorized => "Unauthorized"@,
            OuhError::InvalidInput => "Invalid input"@,
        }
    }

    /// The stable number a host reports for this error.
    pub fn code(self) -> (c: u32)
        ensures
            c == ERROR_CODE_OFFSET + self.ordinal(),
    {
        let i: u32 = match self {
            OuhError::InvalidPhoneFormat => 0,
            OuhError::TransactionLimitOutOfBounds => 1,
            OuhError::ContractPaused => 2,
            OuhError::UserSuspended => 3,
            OuhError::InsufficientBalance => 4,
            OuhError::InvalidPin => 5,
            OuhError::ArithmeticOverflow => 6,
            OuhError::InvalidTransition => 7,
            OuhError::NotFound => 8,
            OuhError::Unauthorized => 9,
            OuhError::InvalidInput => 10,
        };
        ERROR_CODE_OFFSET + i
    }

    /// The error that carries a given code, if any does.
    pub fn from_code(code: u32) -> (e: Option<OuhError>)
        ensures
            match e {
                Some(err) => code == ERROR_CODE_OFFSET + err.ordinal(),
                None => forall|err: OuhError| code != ERROR_CODE_OFFSET + #[trigger] err.ordinal(),
            },
    {
        if code < ERROR_CODE_OFFSET {
            return None;
        }
        let i: u32 = code - ERROR_CODE_OFFSET;
        match i {
            0 => Some(OuhError::InvalidPhoneFormat),
            1 => Some(OuhError::TransactionLimitOutOfBounds),
            2 => Some(OuhError::ContractPaused),
            3 => Some(OuhError::UserSuspended),
            4 => Some(OuhError::InsufficientBalance),
            5 => Some(OuhError::InvalidPin),
            6 => Some(OuhError::ArithmeticOverflow),
            7 => Some(OuhError::InvalidTransition),
            8 => Some(OuhError::NotFound),
            9 => Some(OuhError::Unauthorized),
            10 => Some(OuhError::InvalidInput),
            _ => None,
        }
    }

    /// The text shown to a person for this error.
    pub fn message(self) -> (m: &'static str)
        ensures
            m@ == self.spec_message(),
    {
        match self {
            OuhError::InvalidPhoneFormat => "Invalid phone number format",
            OuhError::TransactionLimitOutOfBounds => "Transaction limit out of bounds",
            OuhError::ContractPaused => "Contract paused",
            OuhError::UserSuspended => "User suspended",
            OuhError::InsufficientBalance => "Insufficient balance",
            OuhError::InvalidPin => "Invalid PIN",
            OuhError::ArithmeticOverflow => "Arithmetic overflow",
            OuhError::InvalidTransition => "Invalid transition",
            OuhError::NotFound => "Not found",
            OuhError::Unauthorized => "Unauthorized",
            OuhError::InvalidInput => "Invalid input",
        }
    }
}

/// Two errors with one code are one error.
pub proof fn lemma_code_identifies_error(a: OuhError, b: OuhError)
    requires
        a.ordinal() == b.ordinal(),
    ensures
        a == b,
{
}

} // verus!
