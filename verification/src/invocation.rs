use vstd::prelude::*;
use crate::derivation::RecordKey;
use crate::instructions::{
    Access, CompleteTransaction, CreateTransaction, GetUserBalance, InitializeConfig, RecordUse,
    RegisterUser,
};
use crate::ledger::{
    lemma_complete_transaction_sound, lemma_create_transaction_sound,
    lemma_initialize_config_sound, lemma_register_user_sound, HostError, Ledger, LedgerState,
};
use crate::records::TransactionType;

verus! {

/// One request as it reaches the host: which of the five entry points,
/// who signed, and the arguments.
#[derive(Clone, Copy, Debug, PartialEq, Eq)]
pub enum Invocation {
    InitializeConfig {
        admin: [u8; 32],
        crypto_fee_bps: u16,
        airtime_fee_bps: u16,
        min_limit: u64,
        max_limit: u64,
    },
    RegisterUser { user: [u8; 32], phone_number: [u8; 14], pin_hash: [u8; 32] },
    CreateTransaction {
        user: [u8; 32],
        tx_id: [u8; 16],
        user_phone: [u8; 14],
        tx_type: TransactionType,
        amount_ngn: u64,
        amount_usdc: Option<u64>,
        fee: u64,
    },
    /// The transaction is named by its identifier; the host finds its
    /// user through it.
    CompleteTransaction { authority: [u8; 32], tx_id: [u8; 16] },
    GetUserBalance { phone_number: [u8; 14] },
}

impl Invocation {
    /// The records that the invocation names when it reaches the ledger
    /// `s`. A completion names its user through the stored transaction;
    /// where there is no such transaction, it names only that.
    pub open spec fn records(self, s: LedgerState) -> Seq<RecordUse> {
        match self {
            Invocation::InitializeConfig { .. } => InitializeConfig::spec_records(),
            Invocation::RegisterUser { phone_number, .. } => RegisterUser::spec_records(
                phone_number,
            ),
            Invocation::CreateTransaction {
                tx_id,
                user_phone,
                ..
            } => CreateTransaction::spec_records(tx_id, user_phone),
            Invocation::CompleteTransaction { tx_id, .. } => if s.has_transaction(tx_id) {
                CompleteTransaction::spec_records(s.transaction(tx_id))
            } else {
                seq![RecordUse { key: RecordKey::Transaction { tx_id }, access: Access::Mutate }]
            },
            Invocation::GetUserBalance { phone_number } => GetUserBalance::spec_records(
                phone_number,
            ),
        }
    }
}

/// Whether `uses` name `key` for creating or for writing.
pub open spec fn may_write(uses: Seq<RecordUse>, key: RecordKey) -> bool {
    exists|i: int| 0 <= i < uses.len() && (#[trigger] uses[i]).key == key && uses[i].access
        != Access::Read
}

impl LedgerState {
    /// The ledger after the host handled `invocation` at the time
    /// `now`. A refused invocation leaves it as it was.
    pub open spec fn step(self, invocation: Invocation, now: i64) -> LedgerState {
        match invocation {
            Invocation::InitializeConfig {
                admin,
                crypto_fee_bps,
                airtime_fee_bps,
                min_limit,
                max_limit,
            } => match self.initialize_config(
                admin,
                crypto_fee_bps,
                airtime_fee_bps,
                min_limit,
                max_limit,
            ) {
                Ok(s) => s,
                Err(_) => self,
            },
            Invocation::RegisterUser {
                user,
                phone_number,
                pin_hash,
            } => match self.register_user(user, phone_number, pin_hash, now) {
                Ok(s) => s,
                Err(_) => self,
            },
            Invocation::CreateTransaction {
                user,
                tx_id,
                user_phone,
                tx_type,
                amount_ngn,
                amount_usdc,
                fee,
            } => match self.create_transaction(
                tx_id,
                user_phone,
                tx_type,
                amount_ngn,
                amount_usdc,
                fee,
                now,
            ) {
                Ok(s) => s,
                Err(_) => self,
            },
            Invocation::CompleteTransaction { authority, tx_id } => match self.complete_transaction(
                tx_id,
            ) {
                Ok(s) => s,
                Err(_) => self,
            },
            Invocation::GetUserBalance { phone_number } => self,
        }
    }

    /// What the host answers to `invocation` at the time `now`: the
    /// volume for `GetUserBalance`, nothing for the others, or the error.
    pub open spec fn outcome(self, invocation: Invocation, now: i64) -> Result<
        Option<u64>,
        HostError,
    > {
        match invocation {
            Invocation::InitializeConfig {
                admin,
                crypto_fee_bps,
                airtime_fee_bps,
                min_limit,
                max_limit,
            } => match self.initialize_config(
                admin,
                crypto_fee_bps,
                airtime_fee_bps,
                min_limit,
                max_limit,
            ) {
                Ok(_) => Ok(None),
                Err(e) => Err(e),
            },
            Invocation::RegisterUser {
                user,
                phone_number,
                pin_hash,
            } => match self.register_user(user, phone_number, pin_hash, now) {
                Ok(_) => Ok(None),
                Err(e) => Err(e),
            },
            Invocation::CreateTransaction {
                user,
                tx_id,
                user_phone,
                tx_type,
                amount_ngn,
                amount_usdc,
                fee,
            } => match self.create_transaction(
                tx_id,
                user_phone,
                tx_type,
                amount_ngn,
                amount_usdc,
                fee,
                now,
            ) {
                Ok(_) => Ok(None),
                Err(e) => Err(e),
            },
            Invocation::CompleteTransaction { authority, tx_id } => match self.complete_transaction(
                tx_id,
            ) {
                Ok(_) => Ok(None),
                Err(e) => Err(e),
            },
            Invocation::GetUserBalance { phone_number } => match self.get_user_balance(
                phone_number,
            ) {
                Ok(volume) => Ok(Some(volume)),
                Err(e) => Err(e),
            },
        }
    }
}

/// The ledger after the host handled, from `start` on, each of
/// `invocations` in turn, each at its own time.
pub open spec fn run_from(start: LedgerState, invocations: Seq<(Invocation, i64)>) -> LedgerState
    decreases invocations.len(),
{
    if invocations.len() == 0 {
        start
    } else {
        run_from(start, invocations.drop_last()).step(
            invocations.last().0,
            invocations.last().1,
        )
    }
}

/// The ledger that `invocations` lead to from an empty one: a state is
/// reachable where it is `run` of some invocations.
pub open spec fn run(invocations: Seq<(Invocation, i64)>) -> LedgerState {
    run_from(LedgerState::empty(), invocations)
}

/// One invocation keeps a sound ledger sound, and volumes that added up
/// still add up.
pub proof fn lemma_step_sound(s: LedgerState, invocation: Invocation, now: i64)
    requires
        s.wf(),
    ensures
        s.step(invocation, now).wf(),
        s.volumes_consistent() ==> s.step(invocation, now).volumes_consistent(),
{
    match invocation {
        Invocation::InitializeConfig {
            admin,
            crypto_fee_bps,
            airtime_fee_bps,
            min_limit,
            max_limit,
        } => {
            if s.initialize_config(admin, crypto_fee_bps, airtime_fee_bps, min_limit, max_limit)
                is Ok {
                lemma_initialize_config_sound(
                    s,
                    admin,
                    crypto_fee_bps,
                    airtime_fee_bps,
                    min_limit,
                    max_limit,
                );
            }
        },
        Invocation::RegisterUser { user, phone_number, pin_hash } => {
            if s.register_user(user, phone_number, pin_hash, now) is Ok {
                lemma_register_user_sound(s, user, phone_number, pin_hash, now);
            }
        },
        Invocation::CreateTransaction {
            user,
            tx_id,
            user_phone,
            tx_type,
            amount_ngn,
            amount_usdc,
            fee,
        } => {
            if s.create_transaction(tx_id, user_phone, tx_type, amount_ngn, amount_usdc, fee, now)
                is Ok {
                lemma_create_transaction_sound(
                    s,
                    tx_id,
                    user_phone,
                    tx_type,
                    amount_ngn,
                    amount_usdc,
                    fee,
                    now,
                );
            }
        },
        Invocation::CompleteTransaction { authority, tx_id } => {
            if s.complete_transaction(tx_id) is Ok {
                lemma_complete_transaction_sound(s, tx_id);
            }
        },
        Invocation::GetUserBalance { phone_number } => {},
    }
}

impl Ledger {
    /// Handles one invocation at the host time `unix_timestamp`, and
    /// answers with the volume for `GetUserBalance` and with nothing
    /// for the others.
    pub fn invoke(&mut self, invocation: &Invocation, unix_timestamp: i64) -> (r: Result<
        Option<u64>,
        HostError,
    >)
        requires
            old(self).wf(),
        ensures
            final(self).wf(),
            r == old(self)@.outcome(*invocation, unix_timestamp),
            final(self)@ == old(self)@.step(*invocation, unix_timestamp),
            old(self)@.volumes_consistent() ==> final(self)@.volumes_consistent(),
    {
        match *invocation {
            Invocation::InitializeConfig {
                admin,
                crypto_fee_bps,
                airtime_fee_bps,
                min_limit,
                max_limit,
            } => match self.initialize_config(
                admin,
                crypto_fee_bps,
                airtime_fee_bps,
                min_limit,
                max_limit,
            ) {
                Ok(()) => Ok(None),
                Err(e) => Err(e),
            },
            Invocation::RegisterUser {
                user,
                phone_number,
                pin_hash,
            } => match self.register_user(user, phone_number, pin_hash, unix_timestamp) {
                Ok(()) => Ok(None),
                Err(e) => Err(e),
            },
            Invocation::CreateTransaction {
                user,
                tx_id,
                user_phone,
                tx_type,
                amount_ngn,
                amount_usdc,
                fee,
            } => match self.create_transaction(
                user,
                tx_id,
                user_phone,
                tx_type,
                amount_ngn,
                amount_usdc,
                fee,
                unix_timestamp,
            ) {
                Ok(()) => Ok(None),
                Err(e) => Err(e),
            },
            Invocation::CompleteTransaction { authority, tx_id } => match self.complete_transaction(
                authority,
                tx_id,
            ) {
                Ok(()) => Ok(None),
                Err(e) => Err(e),
            },
            Invocation::GetUserBalance { phone_number } => match self.get_user_balance(
                phone_number,
            ) {
                Ok(volume) => Ok(Some(volume)),
                Err(e) => Err(e),
            },
        }
    }
}

} // verus!
