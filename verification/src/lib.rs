//! A phone-number-indexed payments ledger: its records, the guards and
//! handlers that move them from state to state, the byte format in
//! which they are stored, the derivation of their addresses, and the
//! proofs of what holds in every state the handlers can reach.

pub mod codec;
pub mod derivation;
pub mod error;
pub mod instructions;
pub mod invocation;
pub mod laws;
pub mod ledger;
pub mod records;
pub mod validator;

pub use codec::DecodeError;
pub use derivation::{RecordKey, CONFIG_SEED, PROGRAM_ID, TRANSACTION_SEED, USER_SEED};
pub use error::{OuhError, ERROR_CODE_OFFSET};
pub use instructions::{
    complete_transaction, create_transaction, get_user_balance, initialize_config, register_user,
    Access, CompleteTransaction, CreateTransaction, GetUserBalance, InitializeConfig, RecordUse,
    RegisterUser,
};
pub use invocation::Invocation;
pub use ledger::{HostError, Ledger, Record};
pub use records::{
    Config, TransactionAccount, TransactionStatus, TransactionType, UserAccount, UserStatus,
};
