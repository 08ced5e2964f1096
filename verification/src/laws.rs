use vstd::prelude::*;
use crate::error::OuhError;
use crate::instructions::completed;
use crate::derivation::RecordKey;
use crate::instructions::Access;
use crate::invocation::{lemma_step_sound, may_write, run, run_from, Invocation};
use crate::ledger::{
    completed_volume, lemma_transaction_found, lemma_user_found, HostError, LedgerState,
};
use crate::records::{kind_matches_amount, TransactionStatus, TransactionType, UserStatus};
use crate::validator::within_limits;

verus! {

/// Whatever invocations a sound ledger handles, it stays sound, and
/// volumes that added up still add up.
pub proof fn lemma_run_sound(start: LedgerState, invocations: Seq<(Invocation, i64)>)
    requires
        start.wf(),
    ensures
        run_from(start, invocations).wf(),
        start.volumes_consistent() ==> run_from(start, invocations).volumes_consistent(),
    decreases invocations.len(),
{
    if invocations.len() > 0 {
        lemma_run_sound(start, invocations.drop_last());
        lemma_step_sound(
            run_from(start, invocations.drop_last()),
            invocations.last().0,
            invocations.last().1,
        );
    }
}

/// Every state that invocations reach from the empty ledger is sound,
/// and its volumes add up.
pub proof fn lemma_reachable_sound(invocations: Seq<(Invocation, i64)>)
    ensures
        run(invocations).wf(),
        run(invocations).volumes_consistent(),
{
    lemma_run_sound(LedgerState::empty(), invocations);
}

/// In every reachable state, every user's volume is at least zero and is
/// the sum of the amounts of the completed transactions of that user.
pub proof fn lemma_volume_is_completed_sum(invocations: Seq<(Invocation, i64)>, i: int)
    requires
        0 <= i < run(invocations).users.len(),
    ensures
        run(invocations).users[i].total_volume >= 0,
        run(invocations).users[i].total_volume == completed_volume(
            run(invocations).transactions,
            run(invocations).users[i].phone_number,
        ),
{
    lemma_reachable_sound(invocations);
}

/// One invocation leaves every transaction as it was, or moves it from
/// `Pending` to `Completed` and changes nothing else in it. Transactions
/// are never removed and keep their place.
pub proof fn lemma_status_moves_forward(s: LedgerState, invocation: Invocation, now: i64, i: int)
    requires
        s.wf(),
        0 <= i < s.transactions.len(),
    ensures
        i < s.step(invocation, now).transactions.len(),
        s.step(invocation, now).transactions[i] == s.transactions[i] || (s.transactions[i].status
            == TransactionStatus::Pending && s.step(invocation, now).transactions[i] == completed(
            s.transactions[i],
        )),
{
}

/// A transaction that has left `Pending` is never changed again,
/// whatever invocations follow.
pub proof fn lemma_terminal_is_final(
    s: LedgerState,
    invocations: Seq<(Invocation, i64)>,
    i: int,
)
    requires
        s.wf(),
        0 <= i < s.transactions.len(),
        s.transactions[i].status != TransactionStatus::Pending,
    ensures
        i < run_from(s, invocations).transactions.len(),
        run_from(s, invocations).transactions[i] == s.transactions[i],
    decreases invocations.len(),
{
    if invocations.len() > 0 {
        let before = run_from(s, invocations.drop_last());
        lemma_terminal_is_final(s, invocations.drop_last(), i);
        lemma_run_sound(s, invocations.drop_last());
        lemma_status_moves_forward(before, invocations.last().0, invocations.last().1, i);
    }
}

/// In every reachable state, a `Crypto` transaction has a stable-value
/// amount and an `Airtime` transaction has none.
pub proof fn lemma_kind_matches_amount(invocations: Seq<(Invocation, i64)>, i: int)
    requires
        0 <= i < run(invocations).transactions.len(),
    ensures
        run(invocations).transactions[i].tx_type == TransactionType::Crypto ==> run(
            invocations,
        ).transactions[i].amount_usdc is Some,
        run(invocations).transactions[i].tx_type == TransactionType::Airtime ==> run(
            invocations,
        ).transactions[i].amount_usdc is None,
{
    lemma_reachable_sound(invocations);
    assert(run(invocations).transactions[i].valid());
}

/// Where `create_transaction` is accepted, the configuration was there
/// and not paused, the amount lay within its limits, the user was
/// active, and the kind agreed with the stable-value amount.
pub proof fn lemma_accepted_opening_was_allowed(
    s: LedgerState,
    tx_id: [u8; 16],
    user_phone: [u8; 14],
    tx_type: TransactionType,
    amount_ngn: u64,
    amount_usdc: Option<u64>,
    fee: u64,
    now: i64,
)
    requires
        s.create_transaction(tx_id, user_phone, tx_type, amount_ngn, amount_usdc, fee, now) is Ok,
    ensures
        s.config is Some,
        !s.config->Some_0.paused,
        s.config->Some_0.min_limit <= amount_ngn <= s.config->Some_0.max_limit,
        s.has_user(user_phone),
        s.user(user_phone).status == UserStatus::Active,
        kind_matches_amount(tx_type, amount_usdc),
        !s.has_transaction(tx_id),
{
}

/// One invocation never removes a user, never moves one, never changes
/// who it is, and never lowers its volume.
pub proof fn lemma_user_persists(s: LedgerState, invocation: Invocation, now: i64, i: int)
    requires
        s.wf(),
        0 <= i < s.users.len(),
    ensures
        i < s.step(invocation, now).users.len(),
        s.step(invocation, now).users[i].phone_number == s.users[i].phone_number,
        s.step(invocation, now).users[i].wallet == s.users[i].wallet,
        s.step(invocation, now).users[i].pin_hash == s.users[i].pin_hash,
        s.step(invocation, now).users[i].registered_at == s.users[i].registered_at,
        s.step(invocation, now).users[i].status == s.users[i].status,
        s.step(invocation, now).users[i].total_volume >= s.users[i].total_volume,
{
}

/// A user's volume never decreases, whatever invocations follow.
pub proof fn lemma_volume_never_decreases(
    s: LedgerState,
    invocations: Seq<(Invocation, i64)>,
    i: int,
)
    requires
        s.wf(),
        0 <= i < s.users.len(),
    ensures
        i < run_from(s, invocations).users.len(),
        run_from(s, invocations).users[i].phone_number == s.users[i].phone_number,
        run_from(s, invocations).users[i].total_volume >= s.users[i].total_volume,
    decreases invocations.len(),
{
    if invocations.len() > 0 {
        let before = run_from(s, invocations.drop_last());
        lemma_volume_never_decreases(s, invocations.drop_last(), i);
        lemma_run_sound(s, invocations.drop_last());
        lemma_user_persists(before, invocations.last().0, invocations.last().1, i);
    }
}

/// The configuration, once written, is not changed by any invocation.
pub proof fn lemma_config_persists(s: LedgerState, invocation: Invocation, now: i64)
    requires
        s.config is Some,
    ensures
        s.step(invocation, now).config == s.config,
{
}

/// The configuration is written once: after `initialize_config` was
/// accepted, a second one is refused because the address is taken.
pub proof fn lemma_initialize_config_once(
    s: LedgerState,
    admin: [u8; 32],
    crypto_fee_bps: u16,
    airtime_fee_bps: u16,
    min_limit: u64,
    max_limit: u64,
    admin2: [u8; 32],
    crypto_fee_bps2: u16,
    airtime_fee_bps2: u16,
    min_limit2: u64,
    max_limit2: u64,
)
    requires
        s.initialize_config(admin, crypto_fee_bps, airtime_fee_bps, min_limit, max_limit) is Ok,
    ensures
        s.initialize_config(
            admin,
            crypto_fee_bps,
            airtime_fee_bps,
            min_limit,
            max_limit,
        )->Ok_0.initialize_config(
            admin2,
            crypto_fee_bps2,
            airtime_fee_bps2,
            min_limit2,
            max_limit2,
        ) == Err::<LedgerState, HostError>(HostError::AddressInUse),
{
}

/// A phone number is registered once: after `register_user` was
/// accepted, a second one for the same number is refused because the
/// address is taken, whoever signs and whatever else it brings.
pub proof fn lemma_register_user_once(
    s: LedgerState,
    user: [u8; 32],
    phone_number: [u8; 14],
    pin_hash: [u8; 32],
    now: i64,
    user2: [u8; 32],
    pin_hash2: [u8; 32],
    now2: i64,
)
    requires
        s.register_user(user, phone_number, pin_hash, now) is Ok,
    ensures
        s.register_user(user, phone_number, pin_hash, now)->Ok_0.register_user(
            user2,
            phone_number,
            pin_hash2,
            now2,
        ) == Err::<LedgerState, HostError>(HostError::AddressInUse),
{
    let t = s.register_user(user, phone_number, pin_hash, now)->Ok_0;
    assert(t.users[s.users.len() as int].phone_number == phone_number);
}

/// A transaction identifier is used once: after `create_transaction`
/// was accepted, a second one under the same identifier is refused
/// because the address is taken, whatever else it brings.
pub proof fn lemma_create_transaction_once(
    s: LedgerState,
    tx_id: [u8; 16],
    user_phone: [u8; 14],
    tx_type: TransactionType,
    amount_ngn: u64,
    amount_usdc: Option<u64>,
    fee: u64,
    now: i64,
    user_phone2: [u8; 14],
    tx_type2: TransactionType,
    amount_ngn2: u64,
    amount_usdc2: Option<u64>,
    fee2: u64,
    now2: i64,
)
    requires
        s.create_transaction(tx_id, user_phone, tx_type, amount_ngn, amount_usdc, fee, now) is Ok,
    ensures
        s.create_transaction(
            tx_id,
            user_phone,
            tx_type,
            amount_ngn,
            amount_usdc,
            fee,
            now,
        )->Ok_0.create_transaction(
            tx_id,
            user_phone2,
            tx_type2,
            amount_ngn2,
            amount_usdc2,
            fee2,
            now2,
        ) == Err::<LedgerState, HostError>(HostError::AddressInUse),
{
    let t = s.create_transaction(
        tx_id,
        user_phone,
        tx_type,
        amount_ngn,
        amount_usdc,
        fee,
        now,
    )->Ok_0;
    assert(t.transactions[s.transactions.len() as int].tx_id == tx_id);
}

/// A transaction is completed once: after `complete_transaction` was
/// accepted, a second one for the same transaction is refused with
/// `InvalidTransition`, and so the ledger stays as the first left it.
pub proof fn lemma_complete_transaction_once(s: LedgerState, tx_id: [u8; 16])
    requires
        s.wf(),
        s.complete_transaction(tx_id) is Ok,
    ensures
        s.complete_transaction(tx_id)->Ok_0.complete_transaction(tx_id) == Err::<
            LedgerState,
            HostError,
        >(HostError::Program(OuhError::InvalidTransition)),
{
    let t = s.complete_transaction(tx_id)->Ok_0;
    let ti = s.transaction_index(tx_id);
    let phone = s.transactions[ti].user_phone;
    let ui = s.user_index(phone);
    crate::ledger::lemma_complete_transaction_sound(s, tx_id);
    assert(t.transactions[ti].tx_id == tx_id);
    lemma_transaction_found(t, ti);
    assert(t.users[ui].phone_number == phone);
    lemma_user_found(t, ui);
}

/// A transaction that was opened and not yet completed can be
/// completed exactly when the user's volume has room for its amount;
/// where it has not, the refusal is `ArithmeticOverflow`.
pub proof fn lemma_completion_decided_by_room(s: LedgerState, tx_id: [u8; 16])
    requires
        s.wf(),
        s.has_transaction(tx_id),
        s.transaction(tx_id).status == TransactionStatus::Pending,
    ensures
        s.user(s.transaction(tx_id).user_phone).total_volume + s.transaction(tx_id).amount_ngn
            <= u64::MAX ==> s.complete_transaction(tx_id) is Ok,
        s.user(s.transaction(tx_id).user_phone).total_volume + s.transaction(tx_id).amount_ngn
            > u64::MAX ==> s.complete_transaction(tx_id) == Err::<LedgerState, HostError>(
            HostError::Program(OuhError::ArithmeticOverflow),
        ),
{
    let ti = s.transaction_index(tx_id);
    assert(s.has_user(s.transactions[ti].user_phone));
}

/// An amount at either limit is within the limits; one below the lower
/// or one above the upper is not.
pub proof fn lemma_limits_include_both_ends(config: crate::records::Config)
    requires
        config.valid(),
    ensures
        within_limits(config, config.min_limit),
        within_limits(config, config.max_limit),
        config.min_limit > 0 ==> !within_limits(config, (config.min_limit - 1) as u64),
        config.max_limit < u64::MAX ==> !within_limits(config, (config.max_limit + 1) as u64),
{
}

/// Where two sound ledgers hold the same users at every place at which
/// either holds the user of `phone`, and the second holds none of it
/// beyond the first, they hold the same record for `phone`.
proof fn lemma_same_user(s: LedgerState, t: LedgerState, phone: [u8; 14])
    requires
        s.wf(),
        t.wf(),
        s.users.len() <= t.users.len(),
        forall|i: int|
            0 <= i < s.users.len() && ((#[trigger] s.users[i]).phone_number == phone
                || t.users[i].phone_number == phone) ==> t.users[i] == s.users[i],
        forall|i: int|
            s.users.len() <= i < t.users.len() ==> (#[trigger] t.users[i]).phone_number != phone,
    ensures
        t.record(RecordKey::User { phone_number: phone }) == s.record(
            RecordKey::User { phone_number: phone },
        ),
{
    if s.has_user(phone) {
        let j = s.user_index(phone);
        assert(s.users[j].phone_number == phone);
        assert(t.users[j] == s.users[j]);
        lemma_user_found(t, j);
        lemma_user_found(s, j);
    } else if t.has_user(phone) {
        let j = t.user_index(phone);
        assert(t.users[j].phone_number == phone);
        assert(j < s.users.len());
        assert(s.users[j].phone_number == phone || t.users[j].phone_number == phone);
        assert(t.users[j] == s.users[j]);
    }
}

/// The same for transactions and an identifier.
proof fn lemma_same_transaction(s: LedgerState, t: LedgerState, tx_id: [u8; 16])
    requires
        s.wf(),
        t.wf(),
        s.transactions.len() <= t.transactions.len(),
        forall|i: int|
            0 <= i < s.transactions.len() && ((#[trigger] s.transactions[i]).tx_id == tx_id
                || t.transactions[i].tx_id == tx_id) ==> t.transactions[i] == s.transactions[i],
        forall|i: int|
            s.transactions.len() <= i < t.transactions.len() ==> (
            #[trigger] t.transactions[i]).tx_id != tx_id,
    ensures
        t.record(RecordKey::Transaction { tx_id }) == s.record(RecordKey::Transaction { tx_id }),
{
    if s.has_transaction(tx_id) {
        let j = s.transaction_index(tx_id);
        assert(s.transactions[j].tx_id == tx_id);
        assert(t.transactions[j] == s.transactions[j]);
        lemma_transaction_found(t, j);
        lemma_transaction_found(s, j);
    } else if t.has_transaction(tx_id) {
        let j = t.transaction_index(tx_id);
        assert(t.transactions[j].tx_id == tx_id);
        assert(j < s.transactions.len());
        assert(s.transactions[j].tx_id == tx_id || t.transactions[j].tx_id == tx_id);
        assert(t.transactions[j] == s.transactions[j]);
    }
}

/// An invocation leaves alone every record that it does not name for
/// creating or for writing.
pub proof fn lemma_step_frame(s: LedgerState, invocation: Invocation, now: i64, key: RecordKey)
    requires
        s.wf(),
        !may_write(invocation.records(s), key),
    ensures
        s.step(invocation, now).record(key) == s.record(key),
{
    let t = s.step(invocation, now);
    let uses = invocation.records(s);
    lemma_step_sound(s, invocation, now);
    if t != s {
        match invocation {
            Invocation::InitializeConfig { .. } => {
                assert(uses[0].key == RecordKey::Config);
                match key {
                    RecordKey::Config => {},
                    RecordKey::User { phone_number } => {
                        lemma_same_user(s, t, phone_number);
                    },
                    RecordKey::Transaction { tx_id } => {
                        lemma_same_transaction(s, t, tx_id);
                    },
                }
            },
            Invocation::RegisterUser { phone_number: registered, .. } => {
                assert(uses[0].key == RecordKey::User { phone_number: registered });
                match key {
                    RecordKey::Config => {},
                    RecordKey::User { phone_number } => {
                        lemma_same_user(s, t, phone_number);
                    },
                    RecordKey::Transaction { tx_id } => {
                        lemma_same_transaction(s, t, tx_id);
                    },
                }
            },
            Invocation::CreateTransaction { tx_id: opened, .. } => {
                assert(uses[0].key == RecordKey::Transaction { tx_id: opened });
                match key {
                    RecordKey::Config => {},
                    RecordKey::User { phone_number } => {
                        lemma_same_user(s, t, phone_number);
                    },
                    RecordKey::Transaction { tx_id } => {
                        lemma_same_transaction(s, t, tx_id);
                    },
                }
            },
            Invocation::CompleteTransaction { tx_id: closed, .. } => {
                let ti = s.transaction_index(closed);
                let phone = s.transactions[ti].user_phone;
                let ui = s.user_index(phone);
                assert(uses[0].key == RecordKey::Transaction { tx_id: closed });
                assert(uses[1].key == RecordKey::User { phone_number: phone });
                assert(s.transactions[ti].tx_id == closed);
                assert(s.users[ui].phone_number == phone);
                match key {
                    RecordKey::Config => {},
                    RecordKey::User { phone_number } => {
                        lemma_same_user(s, t, phone_number);
                    },
                    RecordKey::Transaction { tx_id } => {
                        lemma_same_transaction(s, t, tx_id);
                    },
                }
            },
            Invocation::GetUserBalance { .. } => {},
        }
    }
}

/// Where an invocation is accepted, every record that it names for
/// creating was not there before and is there after, and every record
/// that it names for writing or reading was there before and still is.
pub proof fn lemma_declared_access(s: LedgerState, invocation: Invocation, now: i64, i: int)
    requires
        s.wf(),
        s.outcome(invocation, now) is Ok,
        0 <= i < invocation.records(s).len(),
    ensures
        invocation.records(s)[i].access == Access::Create ==> s.record(
            invocation.records(s)[i].key,
        ) is None,
        invocation.records(s)[i].access != Access::Create ==> s.record(
            invocation.records(s)[i].key,
        ) is Some,
        s.step(invocation, now).record(invocation.records(s)[i].key) is Some,
{
    let t = s.step(invocation, now);
    lemma_step_sound(s, invocation, now);
    match invocation {
        Invocation::InitializeConfig { .. } => {},
        Invocation::RegisterUser { phone_number, .. } => {
            assert(t.users[s.users.len() as int].phone_number == phone_number);
        },
        Invocation::CreateTransaction { tx_id, user_phone, .. } => {
            assert(t.transactions[s.transactions.len() as int].tx_id == tx_id);
            assert(t.users[s.user_index(user_phone)].phone_number == user_phone);
        },
        Invocation::CompleteTransaction { tx_id, .. } => {
            let ti = s.transaction_index(tx_id);
            let phone = s.transactions[ti].user_phone;
            let ui = s.user_index(phone);
            assert(t.transactions[ti].tx_id == tx_id);
            assert(t.users[ui].phone_number == phone);
        },
        Invocation::GetUserBalance { .. } => {},
    }
}

} // verus!
