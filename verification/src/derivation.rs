use vstd::prelude::*;
use anchor_lang::solana_program::pubkey::Pubkey;
use crate::records::{Config, TransactionAccount, UserAccount};

verus! {

/// Tag that sets user records apart: the letters `user`.
pub const USER_SEED: [u8; 4] = [117, 115, 101, 114];

/// Tag that sets transaction records apart: the letters `transaction`.
pub const TRANSACTION_SEED: [u8; 11] = [116, 114, 97, 110, 115, 97, 99, 116, 105, 111, 110];

/// Tag of the one configuration record: the letters `config`.
pub const CONFIG_SEED: [u8; 6] = [99, 111, 110, 102, 105, 103];

/// The program that owns every record:
/// `CZohQsF3D3cDDTtJnMZi9WirsknWxWyBKgHiLg5b1T8E`.
pub const PROGRAM_ID: [u8; 32] = [
    171, 215, 241, 56, 47, 145, 43, 79, 11, 220, 245, 87, 3, 79, 186, 117,
    12, 207, 80, 108, 212, 109, 175, 36, 109, 179, 39, 200, 195, 123, 58, 43,
];

/// What a record is found by.
#[derive(Clone, Copy, Debug, PartialEq, Eq)]
pub enum RecordKey {
    /// The configuration; there is only one.
    Config,
    /// A user, by phone number.
    User { phone_number: [u8; 14] },
    /// A transaction, by its identifier.
    Transaction { tx_id: [u8; 16] },
}

/// The views of the byte strings in `parts`, in order.
pub open spec fn views_of(parts: Seq<Vec<u8>>) -> Seq<Seq<u8>> {
    Seq::new(parts.len(), |i: int| parts[i]@)
}

impl RecordKey {
    /// The tag of the key's kind.
    pub open spec fn tag(self) -> Seq<u8> {
        match self {
            RecordKey::Config => CONFIG_SEED@,
            RecordKey::User { .. } => USER_SEED@,
            RecordKey::Transaction { .. } => TRANSACTION_SEED@,
        }
    }

    /// The seeds from which the record's address is derived: the tag,
    /// then the key's own bytes where it has any.
    pub open spec fn spec_seeds(self) -> Seq<Seq<u8>> {
        match self {
            RecordKey::Config => seq![CONFIG_SEED@],
            RecordKey::User { phone_number } => seq![USER_SEED@, phone_number@],
            RecordKey::Transaction { tx_id } => seq![TRANSACTION_SEED@, tx_id@],
        }
    }

    /// The seeds laid end to end, which is what gets hashed.
    pub open spec fn spec_preimage(self) -> Seq<u8> {
        match self {
            RecordKey::Config => CONFIG_SEED@,
            RecordKey::User { phone_number } => USER_SEED@ + phone_number@,
            RecordKey::Transaction { tx_id } => TRANSACTION_SEED@ + tx_id@,
        }
    }

    /// Bytes that storage sets aside for a record of this kind.
    pub open spec fn spec_space(self) -> usize {
        match self {
            RecordKey::Config => Config::LEN,
            RecordKey::User { .. } => UserAccount::LEN,
            RecordKey::Transaction { .. } => TransactionAccount::LEN,
        }
    }

    /// Bytes that storage sets aside for a record of this kind. The
    /// size is fixed when the record is created and never changes.
    pub fn space(&self) -> (n: usize)
        ensures
            n == self.spec_space(),
    {
        match self {
            RecordKey::Config => Config::LEN,
            RecordKey::User { .. } => UserAccount::LEN,
            RecordKey::Transaction { .. } => TransactionAccount::LEN,
        }
    }

    /// The seeds from which the record's address is derived.
    pub fn seeds(&self) -> (parts: Vec<Vec<u8>>)
        ensures
            views_of(parts@) == self.spec_seeds(),
    {
        let mut parts: Vec<Vec<u8>> = Vec::new();
        match self {
            RecordKey::Config => {
                parts.push(bytes_of(&CONFIG_SEED));
            },
            RecordKey::User { phone_number } => {
                parts.push(bytes_of(&USER_SEED));
                parts.push(bytes_of(phone_number));
            },
            RecordKey::Transaction { tx_id } => {
                parts.push(bytes_of(&TRANSACTION_SEED));
                parts.push(bytes_of(tx_id));
            },
        }
        assert(views_of(parts@) =~= self.spec_seeds());
        parts
    }
}

/// The bytes of a fixed-length string, as a growable one.
pub fn bytes_of<const N: usize>(a: &[u8; N]) -> (v: Vec<u8>)
    ensures
        v@ == a@,
{
    let mut v: Vec<u8> = Vec::new();
    let mut i: usize = 0;
    while i < N
        invariant
            i <= N,
            v@ == a@.subrange(0, i as int),
        decreases N - i,
    {
        v.push(a[i]);
        assert(v@ =~= a@.subrange(0, i + 1));
        i += 1;
    }
    assert(v@ =~= a@);
    v
}

/// The address and bump seed that the host's scheme gives for a list of
/// seeds under a program, or `None` where it gives none.
pub uninterp spec fn program_address(seeds: Seq<Seq<u8>>, program_id: Seq<u8>) -> Option<
    (Seq<u8>, u8),
>;

/// Calls `Pubkey::try_find_program_address`. Believed of it: what it
/// returns depends on the seeds and the program id alone, and that
/// result is what `program_address` names. Nothing is claimed about
/// which address comes out, nor that one always does.
#[verifier::external_body]
fn find_program_address(seeds: &Vec<Vec<u8>>, program_id: &[u8; 32]) -> (r: Option<([u8; 32], u8)>)
    ensures
        match r {
            Some((address, bump)) => program_address(views_of(seeds@), program_id@) == Some(
                (address@, bump),
            ),
            None => program_address(views_of(seeds@), program_id@) is None,
        },
{
    let parts: Vec<&[u8]> = seeds.iter().map(|s| s.as_slice()).collect();
    Pubkey::try_find_program_address(&parts, &Pubkey::new_from_array(*program_id)).map(
        |(address, bump)| (address.to_bytes(), bump),
    )
}

/// The storage address of the record that `key` names, under
/// `program_id`, with the bump seed that goes with it.
///
/// The same key under the same program always gives the same answer.
/// `None` means that the host's scheme found no address for these seeds.
pub fn derive(key: &RecordKey, program_id: &[u8; 32]) -> (r: Option<([u8; 32], u8)>)
    ensures
        match r {
            Some((address, bump)) => program_address(key.spec_seeds(), program_id@) == Some(
                (address@, bump),
            ),
            None => program_address(key.spec_seeds(), program_id@) is None,
        },
{
    let parts = key.seeds();
    find_program_address(&parts, program_id)
}

/// Keys with the same seeds are the same key: no two records of one
/// kind, and no two records of different kinds, share their seeds.
pub proof fn lemma_seeds_injective(a: RecordKey, b: RecordKey)
    requires
        a.spec_seeds() == b.spec_seeds(),
    ensures
        a == b,
{
    let sa = a.spec_seeds();
    let sb = b.spec_seeds();
    assert(sa.len() == sb.len());
    assert(sa[0] == sb[0]);
    assert(sa[0].len() == sb[0].len());
    match (a, b) {
        (RecordKey::User { phone_number: p }, RecordKey::User { phone_number: q }) => {
            assert(sa[1] == sb[1]);
            assert(p =~= q);
        },
        (RecordKey::Transaction { tx_id: p }, RecordKey::Transaction { tx_id: q }) => {
            assert(sa[1] == sb[1]);
            assert(p =~= q);
        },
        _ => {},
    }
}

/// Keys whose seeds, laid end to end, are the same bytes are the same
/// key. The host hashes exactly these bytes, so two keys can only meet
/// in one address where the hash itself collides.
pub proof fn lemma_preimage_injective(a: RecordKey, b: RecordKey)
    requires
        a.spec_preimage() == b.spec_preimage(),
    ensures
        a == b,
{
    let pa = a.spec_preimage();
    let pb = b.spec_preimage();
    assert(pa.len() == pb.len());
    match (a, b) {
        (RecordKey::User { phone_number: p }, RecordKey::User { phone_number: q }) => {
            assert forall|i: int| 0 <= i < 14 implies p[i] == q[i] by {
                assert(pa[4 + i] == p@[i]);
                assert(pb[4 + i] == q@[i]);
            }
            assert(p =~= q);
        },
        (RecordKey::Transaction { tx_id: p }, RecordKey::Transaction { tx_id: q }) => {
            assert forall|i: int| 0 <= i < 16 implies p[i] == q[i] by {
                assert(pa[11 + i] == p@[i]);
                assert(pb[11 + i] == q@[i]);
            }
            assert(p =~= q);
        },
        _ => {},
    }
}

} // verus!
