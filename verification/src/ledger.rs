use vstd::prelude::*;
use crate::derivation::RecordKey;
use crate::error::OuhError;
use crate::instructions::{
    completed, completion_refusal, credited, initial_config, opened_transaction, opening_refusal,
    registered_user, CompleteTransaction, CreateTransaction, GetUserBalance, InitializeConfig,
    RegisterUser,
};
use crate::records::{Config, TransactionAccount, TransactionStatus, TransactionType, UserAccount};
use crate::validator::same_bytes;

verus! {

/// Why an invocation came to nothing.
#[derive(Clone, Copy, Debug, PartialEq, Eq, Structural)]
pub enum HostError {
    /// A creating invocation named a key under which a record already lives.
    AddressInUse,
    /// The program refused, with its own error.
    Program(OuhError),
}

/// One record of any of the three kinds.
#[derive(Clone, Copy, Debug, PartialEq, Eq)]
pub enum Record {
    Config(Config),
    User(UserAccount),
    Transaction(TransactionAccount),
}

/// Everything the ledger holds, as mathematics sees it: the
/// configuration once written, and users and transactions in the order
/// in which they were created.
pub struct LedgerState {
    pub config: Option<Config>,
    pub users: Seq<UserAccount>,
    pub transactions: Seq<TransactionAccount>,
}

/// What one transaction counts towards the volume of `phone`: its
/// amount where it is completed and belongs to that user, else nothing.
pub open spec fn contribution(transaction: TransactionAccount, phone: [u8; 14]) -> int {
    if transaction.status == TransactionStatus::Completed && transaction.user_phone == phone {
        transaction.amount_ngn as int
    } else {
        0
    }
}

/// What `transactions` have moved for `phone`: the sum of the amounts of
/// those that are completed and belong to that user.
pub open spec fn completed_volume(transactions: Seq<TransactionAccount>, phone: [u8; 14]) -> int
    decreases transactions.len(),
{
    if transactions.len() == 0 {
        0
    } else {
        completed_volume(transactions.drop_last(), phone) + contribution(
            transactions.last(),
            phone,
        )
    }
}

impl LedgerState {
    /// The ledger before anything happened.
    pub open spec fn empty() -> LedgerState {
        LedgerState { config: None, users: Seq::empty(), transactions: Seq::empty() }
    }

    pub open spec fn has_user(self, phone: [u8; 14]) -> bool {
        exists|i: int| 0 <= i < self.users.len() && (#[trigger] self.users[i]).phone_number == phone
    }

    /// Where the user with this phone number stands, if there is one.
    pub open spec fn user_index(self, phone: [u8; 14]) -> int {
        choose|i: int| 0 <= i < self.users.len() && (#[trigger] self.users[i]).phone_number == phone
    }

    pub open spec fn user(self, phone: [u8; 14]) -> UserAccount {
        self.users[self.user_index(phone)]
    }

    pub open spec fn has_transaction(self, tx_id: [u8; 16]) -> bool {
        exists|i: int|
            0 <= i < self.transactions.len() && (#[trigger] self.transactions[i]).tx_id == tx_id
    }

    /// Where the transaction with this identifier stands, if there is one.
    pub open spec fn transaction_index(self, tx_id: [u8; 16]) -> int {
        choose|i: int|
            0 <= i < self.transactions.len() && (#[trigger] self.transactions[i]).tx_id == tx_id
    }

    pub open spec fn transaction(self, tx_id: [u8; 16]) -> TransactionAccount {
        self.transactions[self.transaction_index(tx_id)]
    }

    /// The record that lives under `key`, if one does.
    pub open spec fn record(self, key: RecordKey) -> Option<Record> {
        match key {
            RecordKey::Config => match self.config {
                Some(c) => Some(Record::Config(c)),
                None => None,
            },
            RecordKey::User { phone_number } => if self.has_user(phone_number) {
                Some(Record::User(self.user(phone_number)))
            } else {
                None
            },
            RecordKey::Transaction { tx_id } => if self.has_transaction(tx_id) {
                Some(Record::Transaction(self.transaction(tx_id)))
            } else {
                None
            },
        }
    }

    /// What holds of the ledger at all times: one record per key, every
    /// record sound in itself, and every transaction's user on record.
    pub open spec fn wf(self) -> bool {
        &&& forall|i: int, j: int|
            0 <= i < j < self.users.len() ==> (#[trigger] self.users[i]).phone_number != (
            #[trigger] self.users[j]).phone_number
        &&& forall|i: int, j: int|
            0 <= i < j < self.transactions.len() ==> (#[trigger] self.transactions[i]).tx_id != (
            #[trigger] self.transactions[j]).tx_id
        &&& (self.config matches Some(c) ==> c.valid())
        &&& forall|i: int|
            0 <= i < self.transactions.len() ==> (#[trigger] self.transactions[i]).valid()
        &&& forall|i: int|
            0 <= i < self.transactions.len() ==> self.has_user(
                (#[trigger] self.transactions[i]).user_phone,
            )
    }

    /// Every user's volume is what that user's completed transactions
    /// add up to.
    pub open spec fn volumes_consistent(self) -> bool {
        forall|i: int|
            0 <= i < self.users.len() ==> (#[trigger] self.users[i]).total_volume
                == completed_volume(self.transactions, self.users[i].phone_number)
    }

    /// The ledger after `initialize_config`, or why it is refused.
    pub open spec fn initialize_config(
        self,
        admin: [u8; 32],
        crypto_fee_bps: u16,
        airtime_fee_bps: u16,
        min_limit: u64,
        max_limit: u64,
    ) -> Result<LedgerState, HostError> {
        let config = initial_config(admin, crypto_fee_bps, airtime_fee_bps, min_limit, max_limit);
        if self.config is Some {
            Err(HostError::AddressInUse)
        } else if !config.valid() {
            Err(HostError::Program(OuhError::InvalidInput))
        } else {
            Ok(LedgerState { config: Some(config), ..self })
        }
    }

    /// The ledger after `register_user`, or why it is refused.
    pub open spec fn register_user(
        self,
        user: [u8; 32],
        phone_number: [u8; 14],
        pin_hash: [u8; 32],
        now: i64,
    ) -> Result<LedgerState, HostError> {
        if self.has_user(phone_number) {
            Err(HostError::AddressInUse)
        } else {
            Ok(
                LedgerState {
                    users: self.users.push(registered_user(user, phone_number, pin_hash, now)),
                    ..self
                },
            )
        }
    }

    /// The ledger after `create_transaction`, or why it is refused:
    /// first what the host finds when it looks the records up, then
    /// what the program finds in them. Who signed does not enter into it.
    pub open spec fn create_transaction(
        self,
        tx_id: [u8; 16],
        user_phone: [u8; 14],
        tx_type: TransactionType,
        amount_ngn: u64,
        amount_usdc: Option<u64>,
        fee: u64,
        now: i64,
    ) -> Result<LedgerState, HostError> {
        if self.has_transaction(tx_id) {
            Err(HostError::AddressInUse)
        } else if !self.has_user(user_phone) || self.config is None {
            Err(HostError::Program(OuhError::NotFound))
        } else {
            match opening_refusal(
                self.config->Some_0,
                self.user(user_phone),
                tx_type,
                amount_ngn,
                amount_usdc,
            ) {
                Some(e) => Err(HostError::Program(e)),
                None => Ok(
                    LedgerState {
                        transactions: self.transactions.push(
                            opened_transaction(
                                tx_id,
                                user_phone,
                                tx_type,
                                amount_ngn,
                                amount_usdc,
                                fee,
                                now,
                            ),
                        ),
                        ..self
                    },
                ),
            }
        }
    }

    /// The ledger after `complete_transaction`, or why it is refused.
    /// Any signer is accepted as the authority, so who signed does not
    /// enter into it.
    pub open spec fn complete_transaction(self, tx_id: [u8; 16]) -> Result<
        LedgerState,
        HostError,
    > {
        if !self.has_transaction(tx_id) || !self.has_user(self.transaction(tx_id).user_phone) {
            Err(HostError::Program(OuhError::NotFound))
        } else {
            let transaction = self.transaction(tx_id);
            let user = self.user(transaction.user_phone);
            match completion_refusal(transaction, user) {
                Some(e) => Err(HostError::Program(e)),
                None => Ok(
                    LedgerState {
                        users: self.users.update(
                            self.user_index(transaction.user_phone),
                            credited(user, transaction.amount_ngn),
                        ),
                        transactions: self.transactions.update(
                            self.transaction_index(tx_id),
                            completed(transaction),
                        ),
                        ..self
                    },
                ),
            }
        }
    }

    /// What `get_user_balance` answers.
    pub open spec fn get_user_balance(self, phone_number: [u8; 14]) -> Result<u64, HostError> {
        if self.has_user(phone_number) {
            Ok(self.user(phone_number).total_volume)
        } else {
            Err(HostError::Program(OuhError::NotFound))
        }
    }

    /// The ledger after an administrator put `user` in place of the
    /// record with the same phone number, or added it where there was none.
    pub open spec fn with_user(self, user: UserAccount) -> LedgerState {
        if self.has_user(user.phone_number) {
            LedgerState {
                users: self.users.update(self.user_index(user.phone_number), user),
                ..self
            }
        } else {
            LedgerState { users: self.users.push(user), ..self }
        }
    }
}

/// In a sound ledger a user stands where its phone number is found.
pub proof fn lemma_user_found(s: LedgerState, i: int)
    requires
        s.wf(),
        0 <= i < s.users.len(),
    ensures
        s.has_user(s.users[i].phone_number),
        s.user_index(s.users[i].phone_number) == i,
        s.user(s.users[i].phone_number) == s.users[i],
{
    let phone = s.users[i].phone_number;
    let j = s.user_index(phone);
    assert(s.users[j].phone_number == phone);
    if i < j {
        assert(s.users[i].phone_number != s.users[j].phone_number);
    } else if j < i {
        assert(s.users[j].phone_number != s.users[i].phone_number);
    }
}

/// In a sound ledger a transaction stands where its identifier is found.
pub proof fn lemma_transaction_found(s: LedgerState, i: int)
    requires
        s.wf(),
        0 <= i < s.transactions.len(),
    ensures
        s.has_transaction(s.transactions[i].tx_id),
        s.transaction_index(s.transactions[i].tx_id) == i,
        s.transaction(s.transactions[i].tx_id) == s.transactions[i],
{
    let id = s.transactions[i].tx_id;
    let j = s.transaction_index(id);
    assert(s.transactions[j].tx_id == id);
    if i < j {
        assert(s.transactions[i].tx_id != s.transactions[j].tx_id);
    } else if j < i {
        assert(s.transactions[j].tx_id != s.transactions[i].tx_id);
    }
}

/// One more transaction adds what it counts, and nothing else changes.
pub proof fn lemma_volume_push(
    transactions: Seq<TransactionAccount>,
    transaction: TransactionAccount,
    phone: [u8; 14],
)
    ensures
        completed_volume(transactions.push(transaction), phone) == completed_volume(
            transactions,
            phone,
        ) + contribution(transaction, phone),
{
    assert(transactions.push(transaction).drop_last() =~= transactions);
}

/// Putting one transaction in place of another changes the sum by the
/// difference of what the two count.
pub proof fn lemma_volume_update(
    transactions: Seq<TransactionAccount>,
    i: int,
    transaction: TransactionAccount,
    phone: [u8; 14],
)
    requires
        0 <= i < transactions.len(),
    ensures
        completed_volume(transactions.update(i, transaction), phone) == completed_volume(
            transactions,
            phone,
        ) - contribution(transactions[i], phone) + contribution(transaction, phone),
    decreases transactions.len(),
{
    let after = transactions.update(i, transaction);
    if i == transactions.len() - 1 {
        assert(after.drop_last() =~= transactions.drop_last());
    } else {
        lemma_volume_update(transactions.drop_last(), i, transaction, phone);
        assert(after.drop_last() =~= transactions.drop_last().update(i, transaction));
    }
}

/// Transactions of other users move nothing for `phone`.
pub proof fn lemma_volume_unreferenced(transactions: Seq<TransactionAccount>, phone: [u8; 14])
    requires
        forall|i: int|
            0 <= i < transactions.len() ==> (#[trigger] transactions[i]).user_phone != phone,
    ensures
        completed_volume(transactions, phone) == 0,
    decreases transactions.len(),
{
    if transactions.len() > 0 {
        let front = transactions.drop_last();
        assert forall|i: int| 0 <= i < front.len() implies (#[trigger] front[i]).user_phone
            != phone by {
            assert(front[i] == transactions[i]);
        }
        lemma_volume_unreferenced(front, phone);
        assert(transactions.last() == transactions[transactions.len() - 1]);
    }
}

/// Writing the configuration keeps the ledger sound and the volumes right.
pub proof fn lemma_initialize_config_sound(
    s: LedgerState,
    admin: [u8; 32],
    crypto_fee_bps: u16,
    airtime_fee_bps: u16,
    min_limit: u64,
    max_limit: u64,
)
    requires
        s.wf(),
        s.initialize_config(admin, crypto_fee_bps, airtime_fee_bps, min_limit, max_limit) is Ok,
    ensures
        s.initialize_config(
            admin,
            crypto_fee_bps,
            airtime_fee_bps,
            min_limit,
            max_limit,
        )->Ok_0.wf(),
        s.volumes_consistent() ==> s.initialize_config(
            admin,
            crypto_fee_bps,
            airtime_fee_bps,
            min_limit,
            max_limit,
        )->Ok_0.volumes_consistent(),
{
    let t = s.initialize_config(admin, crypto_fee_bps, airtime_fee_bps, min_limit, max_limit)->Ok_0;
    assert forall|i: int| 0 <= i < t.transactions.len() implies t.has_user(
        (#[trigger] t.transactions[i]).user_phone,
    ) by {
        let phone = s.transactions[i].user_phone;
        assert(s.has_user(phone));
        let j = s.user_index(phone);
        assert(t.users[j].phone_number == phone);
    }
}

/// Registering a user keeps the ledger sound and the volumes right.
pub proof fn lemma_register_user_sound(
    s: LedgerState,
    user: [u8; 32],
    phone_number: [u8; 14],
    pin_hash: [u8; 32],
    now: i64,
)
    requires
        s.wf(),
        s.register_user(user, phone_number, pin_hash, now) is Ok,
    ensures
        s.register_user(user, phone_number, pin_hash, now)->Ok_0.wf(),
        s.volumes_consistent() ==> s.register_user(
            user,
            phone_number,
            pin_hash,
            now,
        )->Ok_0.volumes_consistent(),
{
    let t = s.register_user(user, phone_number, pin_hash, now)->Ok_0;
    let n = s.users.len() as int;
    assert forall|i: int, j: int| 0 <= i < j < t.users.len() implies (#[trigger] t.users[i]).phone_number
        != (#[trigger] t.users[j]).phone_number by {
        if j == n {
            assert(s.users[i].phone_number != phone_number);
        } else {
            assert(s.users[i].phone_number != s.users[j].phone_number);
        }
    }
    assert forall|i: int| 0 <= i < t.transactions.len() implies t.has_user(
        (#[trigger] t.transactions[i]).user_phone,
    ) by {
        let phone = s.transactions[i].user_phone;
        assert(s.has_user(phone));
        let j = s.user_index(phone);
        assert(t.users[j].phone_number == phone);
    }
    if s.volumes_consistent() {
        assert forall|i: int| 0 <= i < s.transactions.len() implies (#[trigger] s.transactions[i]).user_phone
            != phone_number by {
            assert(s.has_user(s.transactions[i].user_phone));
        }
        lemma_volume_unreferenced(s.transactions, phone_number);
        assert forall|i: int| 0 <= i < t.users.len() implies (#[trigger] t.users[i]).total_volume
            == completed_volume(t.transactions, t.users[i].phone_number) by {
            if i < n {
                assert(t.users[i] == s.users[i]);
            }
        }
    }
}

/// Opening a transaction keeps the ledger sound and the volumes right.
pub proof fn lemma_create_transaction_sound(
    s: LedgerState,
    tx_id: [u8; 16],
    user_phone: [u8; 14],
    tx_type: TransactionType,
    amount_ngn: u64,
    amount_usdc: Option<u64>,
    fee: u64,
    now: i64,
)
    requires
        s.wf(),
        s.create_transaction(tx_id, user_phone, tx_type, amount_ngn, amount_usdc, fee, now) is Ok,
    ensures
        s.create_transaction(
            tx_id,
            user_phone,
            tx_type,
            amount_ngn,
            amount_usdc,
            fee,
            now,
        )->Ok_0.wf(),
        s.volumes_consistent() ==> s.create_transaction(
            tx_id,
            user_phone,
            tx_type,
            amount_ngn,
            amount_usdc,
            fee,
            now,
        )->Ok_0.volumes_consistent(),
{
    let t = s.create_transaction(
        tx_id,
        user_phone,
        tx_type,
        amount_ngn,
        amount_usdc,
        fee,
        now,
    )->Ok_0;
    let opened = opened_transaction(tx_id, user_phone, tx_type, amount_ngn, amount_usdc, fee, now);
    let n = s.transactions.len() as int;
    assert forall|i: int, j: int| 0 <= i < j < t.transactions.len() implies (
    #[trigger] t.transactions[i]).tx_id != (#[trigger] t.transactions[j]).tx_id by {
        if j == n {
            assert(s.transactions[i].tx_id != tx_id);
        } else {
            assert(s.transactions[i].tx_id != s.transactions[j].tx_id);
        }
    }
    assert forall|i: int| 0 <= i < t.transactions.len() implies (#[trigger] t.transactions[i]).valid()
        && t.has_user(t.transactions[i].user_phone) by {
        if i < n {
            assert(t.transactions[i] == s.transactions[i]);
            assert(s.has_user(s.transactions[i].user_phone));
            let j = s.user_index(s.transactions[i].user_phone);
            assert(t.users[j].phone_number == s.transactions[i].user_phone);
        } else {
            let j = s.user_index(user_phone);
            assert(t.users[j].phone_number == user_phone);
        }
    }
    if s.volumes_consistent() {
        assert forall|i: int| 0 <= i < t.users.len() implies (#[trigger] t.users[i]).total_volume
            == completed_volume(t.transactions, t.users[i].phone_number) by {
            lemma_volume_push(s.transactions, opened, t.users[i].phone_number);
        }
    }
}

/// Completing a transaction keeps the ledger sound and the volumes right.
pub proof fn lemma_complete_transaction_sound(s: LedgerState, tx_id: [u8; 16])
    requires
        s.wf(),
        s.complete_transaction(tx_id) is Ok,
    ensures
        s.complete_transaction(tx_id)->Ok_0.wf(),
        s.volumes_consistent() ==> s.complete_transaction(tx_id)->Ok_0.volumes_consistent(),
{
    let t = s.complete_transaction(tx_id)->Ok_0;
    let ti = s.transaction_index(tx_id);
    let transaction = s.transactions[ti];
    let ui = s.user_index(transaction.user_phone);
    let user = s.users[ui];
    assert(user.phone_number == transaction.user_phone);
    assert forall|i: int, j: int| 0 <= i < j < t.users.len() implies (#[trigger] t.users[i]).phone_number
        != (#[trigger] t.users[j]).phone_number by {
        assert(t.users[i].phone_number == s.users[i].phone_number);
        assert(t.users[j].phone_number == s.users[j].phone_number);
    }
    assert forall|i: int, j: int| 0 <= i < j < t.transactions.len() implies (
    #[trigger] t.transactions[i]).tx_id != (#[trigger] t.transactions[j]).tx_id by {
        assert(t.transactions[i].tx_id == s.transactions[i].tx_id);
        assert(t.transactions[j].tx_id == s.transactions[j].tx_id);
    }
    assert forall|i: int| 0 <= i < t.transactions.len() implies (#[trigger] t.transactions[i]).valid()
        && t.has_user(t.transactions[i].user_phone) by {
        assert(s.transactions[i].valid());
        let phone = s.transactions[i].user_phone;
        assert(t.transactions[i].user_phone == phone);
        assert(s.has_user(phone));
        let j = s.user_index(phone);
        assert(t.users[j].phone_number == phone);
    }
    if s.volumes_consistent() {
        assert forall|i: int| 0 <= i < t.users.len() implies (#[trigger] t.users[i]).total_volume
            == completed_volume(t.transactions, t.users[i].phone_number) by {
            let phone = s.users[i].phone_number;
            assert(t.users[i].phone_number == phone);
            lemma_volume_update(s.transactions, ti, completed(transaction), phone);
            if i != ui {
                if i < ui {
                    assert(s.users[i].phone_number != s.users[ui].phone_number);
                } else {
                    assert(s.users[ui].phone_number != s.users[i].phone_number);
                }
            }
        }
    }
}

/// An administrator's write of a user keeps the ledger sound.
pub proof fn lemma_with_user_sound(s: LedgerState, user: UserAccount)
    requires
        s.wf(),
    ensures
        s.with_user(user).wf(),
        s.with_user(user).has_user(user.phone_number),
        s.with_user(user).user(user.phone_number) == user,
{
    let t = s.with_user(user);
    let n = s.users.len() as int;
    let k = if s.has_user(user.phone_number) {
        s.user_index(user.phone_number)
    } else {
        n
    };
    assert(t.users[k] == user);
    assert forall|i: int, j: int| 0 <= i < j < t.users.len() implies (#[trigger] t.users[i]).phone_number
        != (#[trigger] t.users[j]).phone_number by {
        if s.has_user(user.phone_number) {
            assert(t.users[i].phone_number == s.users[i].phone_number);
            assert(t.users[j].phone_number == s.users[j].phone_number);
        } else if j == n {
            assert(s.users[i].phone_number != user.phone_number);
        } else {
            assert(s.users[i].phone_number != s.users[j].phone_number);
        }
    }
    assert forall|i: int| 0 <= i < t.transactions.len() implies t.has_user(
        (#[trigger] t.transactions[i]).user_phone,
    ) by {
        let phone = s.transactions[i].user_phone;
        assert(s.has_user(phone));
        let j = s.user_index(phone);
        assert(t.users[j].phone_number == phone);
    }
    lemma_user_found(t, k);
}

/// The ledger: the host's side of the program, held in memory. It keeps
/// the records, finds them by key, hands them to the handlers and writes
/// back what they changed, all or nothing.
pub struct Ledger {
    config: Option<Config>,
    users: Vec<UserAccount>,
    transactions: Vec<TransactionAccount>,
}

impl View for Ledger {
    type V = LedgerState;

    closed spec fn view(&self) -> LedgerState {
        LedgerState { config: self.config, users: self.users@, transactions: self.transactions@ }
    }
}

impl Ledger {
    /// What holds of every ledger that `new` made and the methods changed.
    pub open spec fn wf(&self) -> bool {
        self@.wf()
    }

    /// A ledger with nothing in it.
    pub fn new() -> (ledger: Ledger)
        ensures
            ledger@ == LedgerState::empty(),
            ledger.wf(),
            ledger@.volumes_consistent(),
    {
        let ledger = Ledger { config: None, users: Vec::new(), transactions: Vec::new() };
        assert(ledger@.users =~= Seq::empty());
        assert(ledger@.transactions =~= Seq::empty());
        ledger
    }

    fn find_user(&self, phone: &[u8; 14]) -> (r: Option<usize>)
        requires
            self.wf(),
        ensures
            match r {
                Some(i) => self@.has_user(*phone) && i == self@.user_index(*phone) && i
                    < self.users.len(),
                None => !self@.has_user(*phone),
            },
    {
        let mut i: usize = 0;
        while i < self.users.len()
            invariant
                i <= self.users.len(),
                self.wf(),
                forall|j: int| 0 <= j < i ==> (#[trigger] self.users@[j]).phone_number != *phone,
            decreases self.users.len() - i,
        {
            if same_bytes(&self.users[i].phone_number, phone) {
                proof {
                    lemma_user_found(self@, i as int);
                }
                return Some(i);
            }
            i += 1;
        }
        None
    }

    fn find_transaction(&self, tx_id: &[u8; 16]) -> (r: Option<usize>)
        requires
            self.wf(),
        ensures
            match r {
                Some(i) => self@.has_transaction(*tx_id) && i == self@.transaction_index(*tx_id)
                    && i < self.transactions.len(),
                None => !self@.has_transaction(*tx_id),
            },
    {
        let mut i: usize = 0;
        while i < self.transactions.len()
            invariant
                i <= self.transactions.len(),
                self.wf(),
                forall|j: int| 0 <= j < i ==> (#[trigger] self.transactions@[j]).tx_id != *tx_id,
            decreases self.transactions.len() - i,
        {
            if same_bytes(&self.transactions[i].tx_id, tx_id) {
                proof {
                    lemma_transaction_found(self@, i as int);
                }
                return Some(i);
            }
            i += 1;
        }
        None
    }

    /// The record that lives under `key`, if one does.
    pub fn record(&self, key: &RecordKey) -> (r: Option<Record>)
        requires
            self.wf(),
        ensures
            r == self@.record(*key),
    {
        match key {
            RecordKey::Config => match self.config {
                Some(c) => Some(Record::Config(c)),
                None => None,
            },
            RecordKey::User { phone_number } => match self.find_user(phone_number) {
                Some(i) => Some(Record::User(self.users[i])),
                None => None,
            },
            RecordKey::Transaction { tx_id } => match self.find_transaction(tx_id) {
                Some(i) => Some(Record::Transaction(self.transactions[i])),
                None => None,
            },
        }
    }

    /// The configuration, once it was written.
    pub fn config(&self) -> (r: Option<Config>)
        ensures
            r == self@.config,
    {
        self.config
    }

    /// The user with this phone number, if there is one.
    pub fn user(&self, phone_number: &[u8; 14]) -> (r: Option<UserAccount>)
        requires
            self.wf(),
        ensures
            r == (if self@.has_user(*phone_number) {
                Some(self@.user(*phone_number))
            } else {
                None
            }),
    {
        match self.find_user(phone_number) {
            Some(i) => Some(self.users[i]),
            None => None,
        }
    }

    /// The transaction with this identifier, if there is one.
    pub fn transaction(&self, tx_id: &[u8; 16]) -> (r: Option<TransactionAccount>)
        requires
            self.wf(),
        ensures
            r == (if self@.has_transaction(*tx_id) {
                Some(self@.transaction(*tx_id))
            } else {
                None
            }),
    {
        match self.find_transaction(tx_id) {
            Some(i) => Some(self.transactions[i]),
            None => None,
        }
    }

    /// An administrator's write of the configuration, past the handlers.
    /// A configuration that is not sound is refused with `InvalidInput`.
    pub fn store_config(&mut self, config: Config) -> (r: Result<(), HostError>)
        requires
            old(self).wf(),
        ensures
            final(self).wf(),
            r == (if config.valid() {
                Ok::<(), HostError>(())
            } else {
                Err(HostError::Program(OuhError::InvalidInput))
            }),
            final(self)@ == (if config.valid() {
                LedgerState { config: Some(config), ..old(self)@ }
            } else {
                old(self)@
            }),
            old(self)@.volumes_consistent() ==> final(self)@.volumes_consistent(),
    {
        if !config.is_valid() {
            return Err(HostError::Program(OuhError::InvalidInput));
        }
        self.config = Some(config);
        proof {
            let s = old(self)@;
            let t = self@;
            assert forall|i: int| 0 <= i < t.transactions.len() implies t.has_user(
                (#[trigger] t.transactions[i]).user_phone,
            ) by {
                let phone = s.transactions[i].user_phone;
                assert(s.has_user(phone));
                let j = s.user_index(phone);
                assert(t.users[j].phone_number == phone);
            }
        }
        Ok(())
    }

    /// An administrator's write of a user, past the handlers: in place
    /// of the record with the same phone number, or as a new one. The
    /// volume is taken as given, so the volumes may no longer add up.
    pub fn store_user(&mut self, user: UserAccount)
        requires
            old(self).wf(),
        ensures
            final(self).wf(),
            final(self)@ == old(self)@.with_user(user),
    {
        proof {
            lemma_with_user_sound(self@, user);
        }
        match self.find_user(&user.phone_number) {
            Some(i) => {
                self.users.set(i, user);
            },
            None => {
                self.users.push(user);
            },
        }
    }

    /// Handles `initialize_config` for the signer `admin`: allocates the
    /// configuration, lets the handler fill it, and keeps it.
    pub fn initialize_config(
        &mut self,
        admin: [u8; 32],
        crypto_fee_bps: u16,
        airtime_fee_bps: u16,
        min_limit: u64,
        max_limit: u64,
    ) -> (r: Result<(), HostError>)
        requires
            old(self).wf(),
        ensures
            final(self).wf(),
            match old(self)@.initialize_config(
                admin,
                crypto_fee_bps,
                airtime_fee_bps,
                min_limit,
                max_limit,
            ) {
                Ok(s) => r is Ok && final(self)@ == s,
                Err(e) => r == Err::<(), HostError>(e) && final(self)@ == old(self)@,
            },
            old(self)@.volumes_consistent() ==> final(self)@.volumes_consistent(),
    {
        if self.config.is_some() {
            return Err(HostError::AddressInUse);
        }
        let mut ctx = InitializeConfig { config: Config::blank(), admin };
        match crate::instructions::initialize_config(
            &mut ctx,
            crypto_fee_bps,
            airtime_fee_bps,
            min_limit,
            max_limit,
        ) {
            Err(e) => Err(HostError::Program(e)),
            Ok(()) => {
                proof {
                    lemma_initialize_config_sound(
                        self@,
                        admin,
                        crypto_fee_bps,
                        airtime_fee_bps,
                        min_limit,
                        max_limit,
                    );
                }
                self.config = Some(ctx.config);
                Ok(())
            },
        }
    }

    /// Handles `register_user` for the signer `user` at the host time
    /// `unix_timestamp`: allocates the user under the phone number, lets
    /// the handler fill it, and keeps it.
    pub fn register_user(
        &mut self,
        user: [u8; 32],
        phone_number: [u8; 14],
        pin_hash: [u8; 32],
        unix_timestamp: i64,
    ) -> (r: Result<(), HostError>)
        requires
            old(self).wf(),
        ensures
            final(self).wf(),
            match old(self)@.register_user(user, phone_number, pin_hash, unix_timestamp) {
                Ok(s) => r is Ok && final(self)@ == s,
                Err(e) => r == Err::<(), HostError>(e) && final(self)@ == old(self)@,
            },
            old(self)@.volumes_consistent() ==> final(self)@.volumes_consistent(),
    {
        if self.find_user(&phone_number).is_some() {
            return Err(HostError::AddressInUse);
        }
        let mut ctx = RegisterUser { user_account: UserAccount::blank(), user, unix_timestamp };
        match crate::instructions::register_user(&mut ctx, phone_number, pin_hash) {
            Err(e) => Err(HostError::Program(e)),
            Ok(()) => {
                proof {
                    lemma_register_user_sound(self@, user, phone_number, pin_hash, unix_timestamp);
                }
                self.users.push(ctx.user_account);
                Ok(())
            },
        }
    }

    /// Handles `create_transaction` for the signer `user` at the host
    /// time `unix_timestamp`: allocates the transaction under its
    /// identifier, loads the user and the configuration, lets the
    /// handler decide, and keeps what it wrote.
    pub fn create_transaction(
        &mut self,
        user: [u8; 32],
        tx_id: [u8; 16],
        user_phone: [u8; 14],
        tx_type: TransactionType,
        amount_ngn: u64,
        amount_usdc: Option<u64>,
        fee: u64,
        unix_timestamp: i64,
    ) -> (r: Result<(), HostError>)
        requires
            old(self).wf(),
        ensures
            final(self).wf(),
            match old(self)@.create_transaction(
                tx_id,
                user_phone,
                tx_type,
                amount_ngn,
                amount_usdc,
                fee,
                unix_timestamp,
            ) {
                Ok(s) => r is Ok && final(self)@ == s,
                Err(e) => r == Err::<(), HostError>(e) && final(self)@ == old(self)@,
            },
            old(self)@.volumes_consistent() ==> final(self)@.volumes_consistent(),
    {
        if self.find_transaction(&tx_id).is_some() {
            return Err(HostError::AddressInUse);
        }
        let ui = match self.find_user(&user_phone) {
            Some(i) => i,
            None => {
                return Err(HostError::Program(OuhError::NotFound));
            },
        };
        let config = match self.config {
            Some(c) => c,
            None => {
                return Err(HostError::Program(OuhError::NotFound));
            },
        };
        let mut ctx = CreateTransaction {
            transaction_account: TransactionAccount::blank(),
            user_account: self.users[ui],
            config,
            user,
            unix_timestamp,
        };
        match crate::instructions::create_transaction(
            &mut ctx,
            tx_id,
            user_phone,
            tx_type,
            amount_ngn,
            amount_usdc,
            fee,
        ) {
            Err(e) => Err(HostError::Program(e)),
            Ok(()) => {
                proof {
                    lemma_create_transaction_sound(
                        self@,
                        tx_id,
                        user_phone,
                        tx_type,
                        amount_ngn,
                        amount_usdc,
                        fee,
                        unix_timestamp,
                    );
                }
                self.transactions.push(ctx.transaction_account);
                Ok(())
            },
        }
    }

    /// Handles `complete_transaction` for whoever signed: loads the
    /// transaction and its user, lets the handler decide, and writes
    /// both back or neither.
    pub fn complete_transaction(&mut self, authority: [u8; 32], tx_id: [u8; 16]) -> (r: Result<
        (),
        HostError,
    >)
        requires
            old(self).wf(),
        ensures
            final(self).wf(),
            match old(self)@.complete_transaction(tx_id) {
                Ok(s) => r is Ok && final(self)@ == s,
                Err(e) => r == Err::<(), HostError>(e) && final(self)@ == old(self)@,
            },
            old(self)@.volumes_consistent() ==> final(self)@.volumes_consistent(),
    {
        let ti = match self.find_transaction(&tx_id) {
            Some(i) => i,
            None => {
                return Err(HostError::Program(OuhError::NotFound));
            },
        };
        let ui = match self.find_user(&self.transactions[ti].user_phone) {
            Some(i) => i,
            None => {
                return Err(HostError::Program(OuhError::NotFound));
            },
        };
        let mut ctx = CompleteTransaction {
            transaction_account: self.transactions[ti],
            user_account: self.users[ui],
            authority,
        };
        match crate::instructions::complete_transaction(&mut ctx) {
            Err(e) => Err(HostError::Program(e)),
            Ok(()) => {
                proof {
                    lemma_complete_transaction_sound(self@, tx_id);
                }
                self.transactions.set(ti, ctx.transaction_account);
                self.users.set(ui, ctx.user_account);
                Ok(())
            },
        }
    }

    /// Handles `get_user_balance`: loads the user and lets the handler
    /// read the volume. Nobody needs to sign and nothing changes.
    pub fn get_user_balance(&self, phone_number: [u8; 14]) -> (r: Result<u64, HostError>)
        requires
            self.wf(),
        ensures
            r == self@.get_user_balance(phone_number),
    {
        let ui = match self.find_user(&phone_number) {
            Some(i) => i,
            None => {
                return Err(HostError::Program(OuhError::NotFound));
            },
        };
        let ctx = GetUserBalance { user_account: self.users[ui] };
        match crate::instructions::get_user_balance(&ctx) {
            Ok(volume) => Ok(volume),
            Err(e) => Err(HostError::Program(e)),
        }
    }
}

} // verus!
