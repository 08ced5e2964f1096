use vstd::prelude::*;

verus! {

/// The largest fee rate, in basis points: one hundred percent.
pub const MAX_FEE_BPS: u16 = 10000;

/// Whether a user may open transactions.
#[derive(Clone, Copy, Debug, PartialEq, Eq, Structural)]
pub enum UserStatus {
    Active,
    Suspended,
}

/// What a transaction pays for.
#[derive(Clone, Copy, Debug, PartialEq, Eq, Structural)]
pub enum TransactionType {
    Crypto,
    Airtime,
}

/// Where a transaction stands. `Pending` is where each one starts;
/// the other two are final.
#[derive(Clone, Copy, Debug, PartialEq, Eq, Structural)]
pub enum TransactionStatus {
    Pending,
    Completed,
    Failed,
}

impl UserStatus {
    /// The byte that stands for this status in a stored record.
    pub open spec fn ordinal(self) -> u8 {
        match self {
            UserStatus::Active => 0,
            UserStatus::Suspended => 1,
        }
    }

    /// The status that a byte stands for, if it stands for one.
    pub open spec fn of_ordinal(b: u8) -> Option<UserStatus> {
        if b == 0 {
            Some(UserStatus::Active)
        } else if b == 1 {
            Some(UserStatus::Suspended)
        } else {
            None
        }
    }

    pub fn to_byte(self) -> (b: u8)
        ensures
            b == self.ordinal(),
    {
        match self {
            UserStatus::Active => 0,
            UserStatus::Suspended => 1,
        }
    }

    pub fn from_byte(b: u8) -> (s: Option<UserStatus>)
        ensures
            s == UserStatus::of_ordinal(b),
    {
        match b {
            0 => Some(UserStatus::Active),
            1 => Some(UserStatus::Suspended),
            _ => None,
        }
    }
}

impl TransactionType {
    /// The byte that stands for this kind in a stored record.
    pub open spec fn ordinal(self) -> u8 {
        match self {
            TransactionType::Crypto => 0,
            TransactionType::Airtime => 1,
        }
    }

    /// The kind that a byte stands for, if it stands for one.
    pub open spec fn of_ordinal(b: u8) -> Option<TransactionType> {
        if b == 0 {
            Some(TransactionType::Crypto)
        } else if b == 1 {
            Some(TransactionType::Airtime)
        } else {
            None
        }
    }

    pub fn to_byte(self) -> (b: u8)
        ensures
            b == self.ordinal(),
    {
        match self {
            TransactionType::Crypto => 0,
            TransactionType::Airtime => 1,
        }
    }

    pub fn from_byte(b: u8) -> (t: Option<TransactionType>)
        ensures
            t == TransactionType::of_ordinal(b),
    {
        match b {
            0 => Some(TransactionType::Crypto),
            1 => Some(TransactionType::Airtime),
            _ => None,
        }
    }
}

impl TransactionStatus {
    /// A status from which no further move is allowed.
    pub open spec fn is_terminal(self) -> bool {
        self != TransactionStatus::Pending
    }

    /// The byte that stands for this status in a stored record.
    pub open spec fn ordinal(self) -> u8 {
        match self {
            TransactionStatus::Pending => 0,
            TransactionStatus::Completed => 1,
            TransactionStatus::Failed => 2,
        }
    }

    /// The status that a byte stands for, if it stands for one.
    pub open spec fn of_ordinal(b: u8) -> Option<TransactionStatus> {
        if b == 0 {
            Some(TransactionStatus::Pending)
        } else if b == 1 {
            Some(TransactionStatus::Completed)
        } else if b == 2 {
            Some(TransactionStatus::Failed)
        } else {
            None
        }
    }

    pub fn to_byte(self) -> (b: u8)
        ensures
            b == self.ordinal(),
    {
        match self {
            TransactionStatus::Pending => 0,
            TransactionStatus::Completed => 1,
            TransactionStatus::Failed => 2,
        }
    }

    pub fn from_byte(b: u8) -> (s: Option<TransactionStatus>)
        ensures
            s == TransactionStatus::of_ordinal(b),
    {
        match b {
            0 => Some(TransactionStatus::Pending),
            1 => Some(TransactionStatus::Completed),
            2 => Some(TransactionStatus::Failed),
            _ => None,
        }
    }
}

/// One registered user, found by phone number.
#[derive(Clone, Copy, Debug, PartialEq, Eq)]
pub struct UserAccount {
    /// Opaque to the ledger; clients agree on its form among themselves.
    pub phone_number: [u8; 14],
    pub wallet: [u8; 32],
    /// Computed by the client; stored and never looked into.
    pub pin_hash: [u8; 32],
    /// Sum of what this user's completed transactions moved, in minor units.
    pub total_volume: u64,
    /// Seconds since the epoch, set at registration.
    pub registered_at: i64,
    pub status: UserStatus,
}

/// One transaction, found by its identifier.
#[derive(Clone, Copy, Debug, PartialEq, Eq)]
pub struct TransactionAccount {
    pub tx_id: [u8; 16],
    /// The phone number of the user this transaction belongs to.
    pub user_phone: [u8; 14],
    pub tx_type: TransactionType,
    /// Amount in minor units of the national currency.
    pub amount_ngn: u64,
    /// Stable-value amount; there for `Crypto`, not there for `Airtime`.
    pub amount_usdc: Option<u64>,
    pub status: TransactionStatus,
    /// Seconds since the epoch, set at creation.
    pub timestamp: i64,
    /// As the client computed it; stored as given.
    pub fee: u64,
}

/// The one record that governs all others.
#[derive(Clone, Copy, Debug, PartialEq, Eq)]
pub struct Config {
    pub admin: [u8; 32],
    pub crypto_fee_bps: u16,
    pub airtime_fee_bps: u16,
    pub min_limit: u64,
    pub max_limit: u64,
    pub paused: bool,
}

/// Every byte of `s` is zero.
pub open spec fn all_zero(s: Seq<u8>) -> bool {
    forall|i: int| 0 <= i < s.len() ==> s[i] == 0
}

/// A stable-value amount goes with `Crypto` and with nothing else.
pub open spec fn kind_matches_amount(tx_type: TransactionType, amount_usdc: Option<u64>) -> bool {
    (tx_type == TransactionType::Crypto) <==> amount_usdc is Some
}

impl UserAccount {
    /// Bytes that one stored user takes, type mark included.
    pub const LEN: usize = 8 + 14 + 32 + 32 + 8 + 8 + 1;

    /// The record as storage hands it out before anything was written.
    pub fn blank() -> (u: UserAccount)
        ensures
            all_zero(u.phone_number@),
            all_zero(u.wallet@),
            all_zero(u.pin_hash@),
            u.total_volume == 0,
            u.registered_at == 0,
            u.status == UserStatus::Active,
    {
        UserAccount {
            phone_number: [0u8; 14],
            wallet: [0u8; 32],
            pin_hash: [0u8; 32],
            total_volume: 0,
            registered_at: 0,
            status: UserStatus::Active,
        }
    }
}

impl TransactionAccount {
    /// Bytes that one stored transaction takes, type mark included.
    pub const LEN: usize = 8 + 16 + 14 + 1 + 8 + 9 + 1 + 8 + 8;

    /// What must hold of every stored transaction.
    pub open spec fn valid(self) -> bool {
        kind_matches_amount(self.tx_type, self.amount_usdc)
    }

    pub fn is_valid(&self) -> (b: bool)
        ensures
            b == self.valid(),
    {
        match self.tx_type {
            TransactionType::Crypto => self.amount_usdc.is_some(),
            TransactionType::Airtime => self.amount_usdc.is_none(),
        }
    }

    /// The record as storage hands it out before anything was written.
    pub fn blank() -> (t: TransactionAccount)
        ensures
            all_zero(t.tx_id@),
            all_zero(t.user_phone@),
            t.tx_type == TransactionType::Crypto,
            t.amount_ngn == 0,
            t.amount_usdc is None,
            t.status == TransactionStatus::Pending,
            t.timestamp == 0,
            t.fee == 0,
    {
        TransactionAccount {
            tx_id: [0u8; 16],
            user_phone: [0u8; 14],
            tx_type: TransactionType::Crypto,
            amount_ngn: 0,
            amount_usdc: None,
            status: TransactionStatus::Pending,
            timestamp: 0,
            fee: 0,
        }
    }
}

impl Config {
    /// Bytes that the stored configuration takes, type mark included.
    pub const LEN: usize = 8 + 32 + 2 + 2 + 8 + 8 + 1;

    /// What must hold of the stored configuration.
    pub open spec fn valid(self) -> bool {
        &&& self.crypto_fee_bps <= MAX_FEE_BPS
        &&& self.airtime_fee_bps <= MAX_FEE_BPS
        &&& self.min_limit <= self.max_limit
    }

    pub fn is_valid(&self) -> (b: bool)
        ensures
            b == self.valid(),
    {
        self.crypto_fee_bps <= MAX_FEE_BPS && self.airtime_fee_bps <= MAX_FEE_BPS
            && self.min_limit <= self.max_limit
    }

    /// The record as storage hands it out before anything was written.
    pub fn blank() -> (c: Config)
        ensures
            all_zero(c.admin@),
            c.crypto_fee_bps == 0,
            c.airtime_fee_bps == 0,
            c.min_limit == 0,
            c.max_limit == 0,
            !c.paused,
    {
        Config {
            admin: [0u8; 32],
            crypto_fee_bps: 0,
            airtime_fee_bps: 0,
            min_limit: 0,
            max_limit: 0,
            paused: false,
        }
    }
}

} // verus!
