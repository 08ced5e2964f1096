use vstd::prelude::*;
use crate::records::{Config, TransactionAccount, TransactionStatus, TransactionType, UserAccount, UserStatus};

verus! {

/// Type mark at the head of every stored user.
pub const USER_DISCRIMINATOR: [u8; 8] = [211, 33, 136, 16, 186, 110, 242, 127];

/// Type mark at the head of every stored transaction.
pub const TRANSACTION_DISCRIMINATOR: [u8; 8] = [146, 125, 253, 167, 250, 226, 175, 123];

/// Type mark at the head of the stored configuration.
pub const CONFIG_DISCRIMINATOR: [u8; 8] = [155, 12, 170, 224, 30, 250, 204, 130];

/// Why stored bytes were not read as a record.
#[derive(Clone, Copy, Debug, PartialEq, Eq, Structural)]
pub enum DecodeError {
    /// Fewer than the eight bytes of a type mark.
    DiscriminatorNotFound,
    /// The type mark of another kind of record.
    DiscriminatorMismatch,
    /// Too few bytes after the type mark, or a byte that stands for nothing.
    DidNotDeserialize,
}

/// 256 to the power `n`.
pub open spec fn pow256(n: nat) -> nat
    decreases n,
{
    if n == 0 {
        1
    } else {
        256 * pow256((n - 1) as nat)
    }
}

/// The `width` low bytes of `x`, lowest first.
pub open spec fn le_bytes(x: nat, width: nat) -> Seq<u8>
    decreases width,
{
    if width == 0 {
        Seq::empty()
    } else {
        seq![(x % 256) as u8] + le_bytes(x / 256, (width - 1) as nat)
    }
}

/// The number whose bytes, lowest first, are `s`.
pub open spec fn le_value(s: Seq<u8>) -> nat
    decreases s.len(),
{
    if s.len() == 0 {
        0
    } else {
        s[0] as nat + 256 * le_value(s.subrange(1, s.len() as int))
    }
}

/// The bits of a signed number, read as an unsigned one.
pub open spec fn i64_bits(t: i64) -> nat {
    if t >= 0 {
        t as nat
    } else {
        (t + 0x1_0000_0000_0000_0000) as nat
    }
}

/// The signed number whose bits, read as an unsigned one, are `n`.
pub open spec fn i64_of_bits(n: nat) -> i64 {
    if n < 0x8000_0000_0000_0000 {
        n as i64
    } else {
        (n - 0x1_0000_0000_0000_0000) as i64
    }
}

pub proof fn lemma_le_bytes_len(x: nat, width: nat)
    ensures
        le_bytes(x, width).len() == width,
    decreases width,
{
    if width > 0 {
        lemma_le_bytes_len(x / 256, (width - 1) as nat);
    }
}

/// A number of `n` bytes is below 256 to the `n`.
pub proof fn lemma_le_value_bound(s: Seq<u8>)
    ensures
        le_value(s) < pow256(s.len()),
    decreases s.len(),
{
    if s.len() > 0 {
        lemma_le_value_bound(s.subrange(1, s.len() as int));
    }
}

/// Writing a number that fits and reading it back gives the number.
pub proof fn lemma_le_round_trip(x: nat, width: nat)
    requires
        x < pow256(width),
    ensures
        le_value(le_bytes(x, width)) == x,
    decreases width,
{
    if width > 0 {
        let rest = le_bytes(x / 256, (width - 1) as nat);
        let all = le_bytes(x, width);
        lemma_le_round_trip(x / 256, (width - 1) as nat);
        assert(all.subrange(1, all.len() as int) =~= rest);
        assert(all[0] == (x % 256) as u8);
    }
}

/// Reading bytes as a number and writing it back gives the bytes.
pub proof fn lemma_le_bytes_of_value(s: Seq<u8>)
    ensures
        le_bytes(le_value(s), s.len()) == s,
    decreases s.len(),
{
    if s.len() > 0 {
        let rest = s.subrange(1, s.len() as int);
        lemma_le_bytes_of_value(rest);
        let x = le_value(s);
        assert(x % 256 == s[0] as nat);
        assert(x / 256 == le_value(rest));
        assert(le_bytes(x, s.len()) =~= s);
    } else {
        assert(le_bytes(le_value(s), s.len()) =~= s);
    }
}

/// A signed number comes back from its bits.
pub proof fn lemma_i64_bits_round_trip(t: i64)
    ensures
        i64_bits(t) < pow256(8),
        i64_of_bits(i64_bits(t)) == t,
{
    lemma_pow256_values();
}

/// The bits of a signed number come back from the number.
pub proof fn lemma_i64_of_bits_round_trip(n: nat)
    requires
        n < pow256(8),
    ensures
        i64_bits(i64_of_bits(n)) == n,
{
    lemma_pow256_values();
}

/// The powers of 256 that the record formats use.
pub proof fn lemma_pow256_values()
    ensures
        pow256(0) == 1,
        pow256(1) == 0x100,
        pow256(2) == 0x1_0000,
        pow256(8) == 0x1_0000_0000_0000_0000,
{
    reveal_with_fuel(pow256, 9);
}

/// Appends the `width` low bytes of `x`, lowest first.
pub fn put_le(out: &mut Vec<u8>, x: u64, width: usize)
    requires
        width <= 8,
    ensures
        final(out)@ == old(out)@ + le_bytes(x as nat, width as nat),
{
    let mut rest: u64 = x;
    let mut i: usize = 0;
    while i < width
        invariant
            i <= width <= 8,
            out@ + le_bytes(rest as nat, (width - i) as nat) == old(out)@ + le_bytes(
                x as nat,
                width as nat,
            ),
        decreases width - i,
    {
        let ghost before = out@;
        let low: u8 = (rest % 256) as u8;
        out.push(low);
        proof {
            let tail = le_bytes((rest / 256) as nat, (width - i - 1) as nat);
            assert(le_bytes(rest as nat, (width - i) as nat) == seq![low] + tail);
            assert(out@ + tail =~= before + (seq![low] + tail));
        }
        rest = rest / 256;
        i += 1;
    }
    assert(out@ + le_bytes(rest as nat, 0) =~= out@);
}

/// Reads the `width` bytes from `at` on as a number, lowest byte first.
pub fn get_le(bytes: &[u8], at: usize, width: usize) -> (x: u64)
    requires
        width <= 8,
        at + width <= bytes@.len(),
    ensures
        x == le_value(bytes@.subrange(at as int, at + width)),
{
    let n = bytes.len();
    let mut x: u64 = 0;
    let mut i: usize = width;
    proof {
        lemma_pow256_values();
        assert(bytes@.subrange(at + width, at + width).len() == 0);
    }
    while i > 0
        invariant
            i <= width <= 8,
            at + width <= n == bytes@.len(),
            x == le_value(bytes@.subrange(at + i, at + width)),
        decreases i,
    {
        let ghost tail = bytes@.subrange(at + i, at + width);
        let ghost whole = bytes@.subrange(at + i - 1, at + width);
        proof {
            lemma_le_value_bound(tail);
            lemma_pow256_le(tail.len(), 7);
            reveal_with_fuel(pow256, 8);
            assert(whole.subrange(1, whole.len() as int) =~= tail);
            assert(whole[0] == bytes@[at + i - 1]);
        }
        i -= 1;
        x = x * 256 + bytes[at + i] as u64;
    }
    x
}

/// A higher power of 256 is not smaller.
pub proof fn lemma_pow256_le(a: nat, b: nat)
    requires
        a <= b,
    ensures
        pow256(a) <= pow256(b),
    decreases b,
{
    if a < b {
        lemma_pow256_le(a, (b - 1) as nat);
    }
}

/// The fixed-length byte string that holds exactly the bytes of `s`.
pub open spec fn array_of<const N: usize>(s: Seq<u8>) -> [u8; N] {
    choose|a: [u8; N]| a@ == s
}

/// A fixed-length byte string is the one that holds its own bytes.
pub proof fn lemma_array_of<const N: usize>(a: [u8; N])
    ensures
        array_of::<N>(a@) == a,
{
    let b = array_of::<N>(a@);
    assert(b@ == a@);
    assert(b =~= a);
}

/// `a` with its first `k` bytes taken from `s`.
pub open spec fn overwritten<const N: usize>(a: [u8; N], s: Seq<u8>, k: nat) -> [u8; N]
    decreases k,
{
    if k == 0 {
        a
    } else {
        vstd::array::spec_array_update(overwritten(a, s, (k - 1) as nat), k - 1, s[k - 1])
    }
}

proof fn lemma_overwritten<const N: usize>(a: [u8; N], s: Seq<u8>, k: nat)
    requires
        k <= N,
        s.len() == N,
    ensures
        forall|i: int| 0 <= i < k ==> overwritten(a, s, k)@[i] == s[i],
    decreases k,
{
    if k > 0 {
        lemma_overwritten(a, s, (k - 1) as nat);
    }
}

/// Every byte string of length `N` is held by a fixed-length one, and
/// `array_of` names it.
pub proof fn lemma_array_of_view<const N: usize>(s: Seq<u8>)
    requires
        s.len() == N,
    ensures
        array_of::<N>(s)@ == s,
{
    let a = overwritten(arbitrary::<[u8; N]>(), s, N as nat);
    lemma_overwritten(arbitrary::<[u8; N]>(), s, N as nat);
    assert(a@ =~= s);
}

/// `n` zero bytes.
pub open spec fn zeros(n: nat) -> Seq<u8> {
    Seq::new(n, |i: int| 0u8)
}

/// Appends the bytes of `a`.
pub fn put_bytes(out: &mut Vec<u8>, a: &[u8])
    ensures
        final(out)@ == old(out)@ + a@,
{
    let n = a.len();
    let mut i: usize = 0;
    while i < n
        invariant
            i <= n == a@.len(),
            out@ == old(out)@ + a@.subrange(0, i as int),
        decreases n - i,
    {
        out.push(a[i]);
        assert(out@ =~= old(out)@ + a@.subrange(0, i + 1));
        i += 1;
    }
    assert(a@.subrange(0, n as int) =~= a@);
}

/// Appends `n` zero bytes.
pub fn put_zeros(out: &mut Vec<u8>, n: usize)
    ensures
        final(out)@ == old(out)@ + zeros(n as nat),
{
    let mut i: usize = 0;
    while i < n
        invariant
            i <= n,
            out@ == old(out)@ + zeros(i as nat),
        decreases n - i,
    {
        out.push(0u8);
        assert(out@ =~= old(out)@ + zeros((i + 1) as nat));
        i += 1;
    }
}

/// Reads the `N` bytes from `at` on.
pub fn get_array<const N: usize>(bytes: &[u8], at: usize) -> (a: [u8; N])
    requires
        at + N <= bytes@.len(),
    ensures
        a@ == bytes@.subrange(at as int, at + N),
        a == array_of::<N>(bytes@.subrange(at as int, at + N)),
{
    let n = bytes.len();
    let mut a = [0u8; N];
    let mut i: usize = 0;
    while i < N
        invariant
            i <= N,
            at + N <= n == bytes@.len(),
            forall|j: int| 0 <= j < i ==> a@[j] == bytes@[at + j],
        decreases N - i,
    {
        a[i] = bytes[at + i];
        i += 1;
    }
    proof {
        assert(a@ =~= bytes@.subrange(at as int, at + N));
        lemma_array_of::<N>(a);
    }
    a
}

/// Whether the bytes from `at` on are those of `mark`.
pub fn starts_with<const N: usize>(bytes: &[u8], at: usize, mark: &[u8; N]) -> (same: bool)
    requires
        at + N <= bytes@.len(),
    ensures
        same == (bytes@.subrange(at as int, at + N) == mark@),
{
    let n = bytes.len();
    let mut i: usize = 0;
    while i < N
        invariant
            i <= N,
            at + N <= n == bytes@.len(),
            forall|j: int| 0 <= j < i ==> bytes@[at + j] == mark@[j],
        decreases N - i,
    {
        if bytes[at + i] != mark[i] {
            assert(bytes@.subrange(at as int, at + N)[i as int] != mark@[i as int]);
            return false;
        }
        i += 1;
    }
    assert(bytes@.subrange(at as int, at + N) =~= mark@);
    true
}

/// The bits of a signed number, read as an unsigned one.
pub fn bits_of_i64(t: i64) -> (n: u64)
    ensures
        n == i64_bits(t),
{
    if t >= 0 {
        t as u64
    } else {
        let shifted: i64 = (t + i64::MAX) + 1;
        (shifted as u64) + 0x8000_0000_0000_0000u64
    }
}

/// The signed number whose bits, read as an unsigned one, are `n`.
pub fn i64_from_bits(n: u64) -> (t: i64)
    ensures
        t == i64_of_bits(n as nat),
{
    if n < 0x8000_0000_0000_0000u64 {
        n as i64
    } else {
        let low: i64 = (n - 0x8000_0000_0000_0000u64) as i64;
        low + i64::MIN
    }
}

/// The byte that stands for a flag.
pub open spec fn flag_byte(b: bool) -> u8 {
    if b {
        1
    } else {
        0
    }
}

impl Config {
    /// The configuration as it lies in storage: type mark, then the
    /// fields in order, numbers with their lowest byte first.
    pub open spec fn spec_to_bytes(self) -> Seq<u8> {
        CONFIG_DISCRIMINATOR@ + self.admin@ + le_bytes(self.crypto_fee_bps as nat, 2) + le_bytes(
            self.airtime_fee_bps as nat,
            2,
        ) + le_bytes(self.min_limit as nat, 8) + le_bytes(self.max_limit as nat, 8) + seq![
            flag_byte(self.paused),
        ]
    }

    /// What reading `bytes` as a configuration gives. Bytes beyond the
    /// record are not looked at.
    pub open spec fn spec_from_bytes(bytes: Seq<u8>) -> Result<Config, DecodeError> {
        if bytes.len() < 8 {
            Err(DecodeError::DiscriminatorNotFound)
        } else if bytes.subrange(0, 8) != CONFIG_DISCRIMINATOR@ {
            Err(DecodeError::DiscriminatorMismatch)
        } else if bytes.len() < 61 || bytes[60] > 1 {
            Err(DecodeError::DidNotDeserialize)
        } else {
            Ok(
                Config {
                    admin: array_of::<32>(bytes.subrange(8, 40)),
                    crypto_fee_bps: le_value(bytes.subrange(40, 42)) as u16,
                    airtime_fee_bps: le_value(bytes.subrange(42, 44)) as u16,
                    min_limit: le_value(bytes.subrange(44, 52)) as u64,
                    max_limit: le_value(bytes.subrange(52, 60)) as u64,
                    paused: bytes[60] == 1,
                },
            )
        }
    }

    /// Writes the configuration as it lies in storage.
    pub fn to_bytes(&self) -> (out: Vec<u8>)
        ensures
            out@ == self.spec_to_bytes(),
            out@.len() == Config::LEN,
    {
        let mut out: Vec<u8> = Vec::new();
        put_bytes(&mut out, &CONFIG_DISCRIMINATOR);
        put_bytes(&mut out, &self.admin);
        put_le(&mut out, self.crypto_fee_bps as u64, 2);
        put_le(&mut out, self.airtime_fee_bps as u64, 2);
        put_le(&mut out, self.min_limit, 8);
        put_le(&mut out, self.max_limit, 8);
        out.push(if self.paused { 1 } else { 0 });
        proof {
            lemma_config_len(*self);
            assert(out@ =~= self.spec_to_bytes());
        }
        out
    }

    /// Reads a configuration from storage.
    pub fn from_bytes(bytes: &[u8]) -> (r: Result<Config, DecodeError>)
        ensures
            r == Config::spec_from_bytes(bytes@),
    {
        if bytes.len() < 8 {
            return Err(DecodeError::DiscriminatorNotFound);
        }
        if !starts_with(bytes, 0, &CONFIG_DISCRIMINATOR) {
            return Err(DecodeError::DiscriminatorMismatch);
        }
        if bytes.len() < 61 || bytes[60] > 1 {
            return Err(DecodeError::DidNotDeserialize);
        }
        proof {
            lemma_le_value_bound(bytes@.subrange(40, 42));
            lemma_le_value_bound(bytes@.subrange(42, 44));
            lemma_pow256_values();
        }
        Ok(
            Config {
                admin: get_array::<32>(bytes, 8),
                crypto_fee_bps: get_le(bytes, 40, 2) as u16,
                airtime_fee_bps: get_le(bytes, 42, 2) as u16,
                min_limit: get_le(bytes, 44, 8),
                max_limit: get_le(bytes, 52, 8),
                paused: bytes[60] == 1,
            },
        )
    }
}

/// A stored configuration takes `Config::LEN` bytes.
pub proof fn lemma_config_len(c: Config)
    ensures
        c.spec_to_bytes().len() == Config::LEN,
{
    lemma_le_bytes_len(c.crypto_fee_bps as nat, 2);
    lemma_le_bytes_len(c.airtime_fee_bps as nat, 2);
    lemma_le_bytes_len(c.min_limit as nat, 8);
    lemma_le_bytes_len(c.max_limit as nat, 8);
}

/// A configuration that was written is read back as it was, whatever
/// bytes follow it in storage.
pub proof fn lemma_config_round_trip(c: Config, trailing: Seq<u8>)
    ensures
        Config::spec_from_bytes(c.spec_to_bytes() + trailing) == Ok::<Config, DecodeError>(c),
{
    let bytes = c.spec_to_bytes() + trailing;
    lemma_config_len(c);
    lemma_le_bytes_len(c.crypto_fee_bps as nat, 2);
    lemma_le_bytes_len(c.airtime_fee_bps as nat, 2);
    lemma_le_bytes_len(c.min_limit as nat, 8);
    lemma_le_bytes_len(c.max_limit as nat, 8);
    lemma_pow256_values();
    lemma_le_round_trip(c.crypto_fee_bps as nat, 2);
    lemma_le_round_trip(c.airtime_fee_bps as nat, 2);
    lemma_le_round_trip(c.min_limit as nat, 8);
    lemma_le_round_trip(c.max_limit as nat, 8);
    lemma_array_of::<32>(c.admin);
    assert(bytes.subrange(0, 8) =~= CONFIG_DISCRIMINATOR@);
    assert(bytes.subrange(8, 40) =~= c.admin@);
    assert(bytes.subrange(40, 42) =~= le_bytes(c.crypto_fee_bps as nat, 2));
    assert(bytes.subrange(42, 44) =~= le_bytes(c.airtime_fee_bps as nat, 2));
    assert(bytes.subrange(44, 52) =~= le_bytes(c.min_limit as nat, 8));
    assert(bytes.subrange(52, 60) =~= le_bytes(c.max_limit as nat, 8));
    assert(bytes[60] == flag_byte(c.paused));
    let back = Config::spec_from_bytes(bytes)->Ok_0;
    assert(back.admin == c.admin);
    assert(back.paused == c.paused);
}

/// Bytes that are read as a configuration are, as far as the record
/// reaches, the bytes that this configuration is written as.
pub proof fn lemma_config_bytes_determined(bytes: Seq<u8>, c: Config)
    requires
        Config::spec_from_bytes(bytes) == Ok::<Config, DecodeError>(c),
    ensures
        bytes.len() >= 61,
        bytes.subrange(0, 61) == c.spec_to_bytes(),
{
    lemma_array_of_view::<32>(bytes.subrange(8, 40));
    lemma_le_bytes_of_value(bytes.subrange(40, 42));
    lemma_le_bytes_of_value(bytes.subrange(42, 44));
    lemma_le_bytes_of_value(bytes.subrange(44, 52));
    lemma_le_bytes_of_value(bytes.subrange(52, 60));
    lemma_le_value_bound(bytes.subrange(40, 42));
    lemma_le_value_bound(bytes.subrange(42, 44));
    lemma_le_value_bound(bytes.subrange(44, 52));
    lemma_le_value_bound(bytes.subrange(52, 60));
    lemma_pow256_values();
    lemma_config_len(c);
    let written = c.spec_to_bytes();
    assert forall|i: int| 0 <= i < 61 implies bytes[i] == written[i] by {
        if i < 8 {
            assert(bytes.subrange(0, 8)[i] == CONFIG_DISCRIMINATOR@[i]);
        } else if i < 40 {
            assert(bytes.subrange(8, 40)[i - 8] == c.admin@[i - 8]);
        } else if i < 42 {
            assert(bytes.subrange(40, 42)[i - 40] == le_bytes(c.crypto_fee_bps as nat, 2)[i - 40]);
        } else if i < 44 {
            assert(bytes.subrange(42, 44)[i - 42] == le_bytes(c.airtime_fee_bps as nat, 2)[i - 42]);
        } else if i < 52 {
            assert(bytes.subrange(44, 52)[i - 44] == le_bytes(c.min_limit as nat, 8)[i - 44]);
        } else if i < 60 {
            assert(bytes.subrange(52, 60)[i - 52] == le_bytes(c.max_limit as nat, 8)[i - 52]);
        }
    }
    assert(bytes.subrange(0, 61) =~= written);
}

impl UserAccount {
    /// The user as it lies in storage: type mark, then the fields in
    /// order, numbers with their lowest byte first.
    pub open spec fn spec_to_bytes(self) -> Seq<u8> {
        USER_DISCRIMINATOR@ + self.phone_number@ + self.wallet@ + self.pin_hash@ + le_bytes(
            self.total_volume as nat,
            8,
        ) + le_bytes(i64_bits(self.registered_at), 8) + seq![self.status.ordinal()]
    }

    /// What reading `bytes` as a user gives. Bytes beyond the record are
    /// not looked at.
    pub open spec fn spec_from_bytes(bytes: Seq<u8>) -> Result<UserAccount, DecodeError> {
        if bytes.len() < 8 {
            Err(DecodeError::DiscriminatorNotFound)
        } else if bytes.subrange(0, 8) != USER_DISCRIMINATOR@ {
            Err(DecodeError::DiscriminatorMismatch)
        } else if bytes.len() < 103 {
            Err(DecodeError::DidNotDeserialize)
        } else {
            match UserStatus::of_ordinal(bytes[102]) {
                None => Err(DecodeError::DidNotDeserialize),
                Some(status) => Ok(
                    UserAccount {
                        phone_number: array_of::<14>(bytes.subrange(8, 22)),
                        wallet: array_of::<32>(bytes.subrange(22, 54)),
                        pin_hash: array_of::<32>(bytes.subrange(54, 86)),
                        total_volume: le_value(bytes.subrange(86, 94)) as u64,
                        registered_at: i64_of_bits(le_value(bytes.subrange(94, 102))),
                        status,
                    },
                ),
            }
        }
    }

    /// Writes the user as it lies in storage.
    pub fn to_bytes(&self) -> (out: Vec<u8>)
        ensures
            out@ == self.spec_to_bytes(),
            out@.len() == UserAccount::LEN,
    {
        let mut out: Vec<u8> = Vec::new();
        put_bytes(&mut out, &USER_DISCRIMINATOR);
        put_bytes(&mut out, &self.phone_number);
        put_bytes(&mut out, &self.wallet);
        put_bytes(&mut out, &self.pin_hash);
        put_le(&mut out, self.total_volume, 8);
        put_le(&mut out, bits_of_i64(self.registered_at), 8);
        out.push(self.status.to_byte());
        proof {
            lemma_user_len(*self);
            assert(out@ =~= self.spec_to_bytes());
        }
        out
    }

    /// Reads a user from storage.
    pub fn from_bytes(bytes: &[u8]) -> (r: Result<UserAccount, DecodeError>)
        ensures
            r == UserAccount::spec_from_bytes(bytes@),
    {
        if bytes.len() < 8 {
            return Err(DecodeError::DiscriminatorNotFound);
        }
        if !starts_with(bytes, 0, &USER_DISCRIMINATOR) {
            return Err(DecodeError::DiscriminatorMismatch);
        }
        if bytes.len() < 103 {
            return Err(DecodeError::DidNotDeserialize);
        }
        let status = match UserStatus::from_byte(bytes[102]) {
            Some(s) => s,
            None => {
                return Err(DecodeError::DidNotDeserialize);
            },
        };
        Ok(
            UserAccount {
                phone_number: get_array::<14>(bytes, 8),
                wallet: get_array::<32>(bytes, 22),
                pin_hash: get_array::<32>(bytes, 54),
                total_volume: get_le(bytes, 86, 8),
                registered_at: i64_from_bits(get_le(bytes, 94, 8)),
                status,
            },
        )
    }
}

/// A stored user takes `UserAccount::LEN` bytes.
pub proof fn lemma_user_len(u: UserAccount)
    ensures
        u.spec_to_bytes().len() == UserAccount::LEN,
{
    lemma_le_bytes_len(u.total_volume as nat, 8);
    lemma_le_bytes_len(i64_bits(u.registered_at), 8);
}

/// A user that was written is read back as it was, whatever bytes
/// follow it in storage.
pub proof fn lemma_user_round_trip(u: UserAccount, trailing: Seq<u8>)
    ensures
        UserAccount::spec_from_bytes(u.spec_to_bytes() + trailing) == Ok::<
            UserAccount,
            DecodeError,
        >(u),
{
    let bytes = u.spec_to_bytes() + trailing;
    lemma_user_len(u);
    lemma_le_bytes_len(u.total_volume as nat, 8);
    lemma_le_bytes_len(i64_bits(u.registered_at), 8);
    lemma_pow256_values();
    lemma_i64_bits_round_trip(u.registered_at);
    lemma_le_round_trip(u.total_volume as nat, 8);
    lemma_le_round_trip(i64_bits(u.registered_at), 8);
    lemma_array_of::<14>(u.phone_number);
    lemma_array_of::<32>(u.wallet);
    lemma_array_of::<32>(u.pin_hash);
    assert(bytes.subrange(0, 8) =~= USER_DISCRIMINATOR@);
    assert(bytes.subrange(8, 22) =~= u.phone_number@);
    assert(bytes.subrange(22, 54) =~= u.wallet@);
    assert(bytes.subrange(54, 86) =~= u.pin_hash@);
    assert(bytes.subrange(86, 94) =~= le_bytes(u.total_volume as nat, 8));
    assert(bytes.subrange(94, 102) =~= le_bytes(i64_bits(u.registered_at), 8));
    assert(bytes[102] == u.status.ordinal());
    assert(UserStatus::of_ordinal(u.status.ordinal()) == Some(u.status));
}

/// Bytes that are read as a user are, as far as the record reaches, the
/// bytes that this user is written as.
pub proof fn lemma_user_bytes_determined(bytes: Seq<u8>, u: UserAccount)
    requires
        UserAccount::spec_from_bytes(bytes) == Ok::<UserAccount, DecodeError>(u),
    ensures
        bytes.len() >= 103,
        bytes.subrange(0, 103) == u.spec_to_bytes(),
{
    lemma_array_of_view::<14>(bytes.subrange(8, 22));
    lemma_array_of_view::<32>(bytes.subrange(22, 54));
    lemma_array_of_view::<32>(bytes.subrange(54, 86));
    lemma_le_bytes_of_value(bytes.subrange(86, 94));
    lemma_le_bytes_of_value(bytes.subrange(94, 102));
    lemma_le_value_bound(bytes.subrange(86, 94));
    lemma_le_value_bound(bytes.subrange(94, 102));
    lemma_i64_of_bits_round_trip(le_value(bytes.subrange(94, 102)));
    lemma_pow256_values();
    lemma_user_len(u);
    let written = u.spec_to_bytes();
    assert forall|i: int| 0 <= i < 103 implies bytes[i] == written[i] by {
        if i < 8 {
            assert(bytes.subrange(0, 8)[i] == USER_DISCRIMINATOR@[i]);
        } else if i < 22 {
            assert(bytes.subrange(8, 22)[i - 8] == u.phone_number@[i - 8]);
        } else if i < 54 {
            assert(bytes.subrange(22, 54)[i - 22] == u.wallet@[i - 22]);
        } else if i < 86 {
            assert(bytes.subrange(54, 86)[i - 54] == u.pin_hash@[i - 54]);
        } else if i < 94 {
            assert(bytes.subrange(86, 94)[i - 86] == le_bytes(u.total_volume as nat, 8)[i - 86]);
        } else if i < 102 {
            assert(bytes.subrange(94, 102)[i - 94] == le_bytes(i64_bits(u.registered_at), 8)[i
                - 94]);
        }
    }
    assert(bytes.subrange(0, 103) =~= written);
}

/// The bytes of an amount that may be absent: a zero byte for none, a
/// one byte and the amount for one.
pub open spec fn option_bytes(v: Option<u64>) -> Seq<u8> {
    match v {
        None => seq![0u8],
        Some(x) => seq![1u8] + le_bytes(x as nat, 8),
    }
}

impl TransactionAccount {
    /// The part of the stored transaction that holds something: type
    /// mark, then the fields in order. It is eight bytes shorter where
    /// there is no stable-value amount.
    pub open spec fn spec_content(self) -> Seq<u8> {
        TRANSACTION_DISCRIMINATOR@ + self.tx_id@ + self.user_phone@ + seq![self.tx_type.ordinal()]
            + le_bytes(self.amount_ngn as nat, 8) + option_bytes(self.amount_usdc) + seq![
            self.status.ordinal(),
        ] + le_bytes(i64_bits(self.timestamp), 8) + le_bytes(self.fee as nat, 8)
    }

    /// The transaction as it lies in storage: its content, then zero
    /// bytes up to the fixed length.
    pub open spec fn spec_to_bytes(self) -> Seq<u8> {
        self.spec_content() + zeros((73 - self.spec_content().len()) as nat)
    }

    /// What reading `bytes` as a transaction gives. Bytes beyond the
    /// content are not looked at.
    pub open spec fn spec_from_bytes(bytes: Seq<u8>) -> Result<TransactionAccount, DecodeError> {
        if bytes.len() < 8 {
            Err(DecodeError::DiscriminatorNotFound)
        } else if bytes.subrange(0, 8) != TRANSACTION_DISCRIMINATOR@ {
            Err(DecodeError::DiscriminatorMismatch)
        } else if bytes.len() < 48 || bytes[47] > 1 {
            Err(DecodeError::DidNotDeserialize)
        } else {
            let after: int = if bytes[47] == 1 {
                56
            } else {
                48
            };
            if bytes.len() < after + 17 {
                Err(DecodeError::DidNotDeserialize)
            } else {
                match (TransactionType::of_ordinal(bytes[38]), TransactionStatus::of_ordinal(
                    bytes[after],
                )) {
                    (Some(tx_type), Some(status)) => Ok(
                        TransactionAccount {
                            tx_id: array_of::<16>(bytes.subrange(8, 24)),
                            user_phone: array_of::<14>(bytes.subrange(24, 38)),
                            tx_type,
                            amount_ngn: le_value(bytes.subrange(39, 47)) as u64,
                            amount_usdc: if bytes[47] == 1 {
                                Some(le_value(bytes.subrange(48, 56)) as u64)
                            } else {
                                None
                            },
                            status,
                            timestamp: i64_of_bits(le_value(bytes.subrange(after + 1, after + 9))),
                            fee: le_value(bytes.subrange(after + 9, after + 17)) as u64,
                        },
                    ),
                    _ => Err(DecodeError::DidNotDeserialize),
                }
            }
        }
    }

    /// Writes the transaction as it lies in storage.
    pub fn to_bytes(&self) -> (out: Vec<u8>)
        ensures
            out@ == self.spec_to_bytes(),
            out@.len() == TransactionAccount::LEN,
    {
        let mut out: Vec<u8> = Vec::new();
        put_bytes(&mut out, &TRANSACTION_DISCRIMINATOR);
        put_bytes(&mut out, &self.tx_id);
        put_bytes(&mut out, &self.user_phone);
        out.push(self.tx_type.to_byte());
        put_le(&mut out, self.amount_ngn, 8);
        let ghost head = out@;
        let padding: usize = match self.amount_usdc {
            None => {
                out.push(0);
                assert(out@ =~= head + option_bytes(self.amount_usdc));
                8
            },
            Some(x) => {
                out.push(1);
                put_le(&mut out, x, 8);
                assert(out@ =~= head + option_bytes(self.amount_usdc));
                0
            },
        };
        out.push(self.status.to_byte());
        put_le(&mut out, bits_of_i64(self.timestamp), 8);
        put_le(&mut out, self.fee, 8);
        proof {
            lemma_transaction_len(*self);
            assert(out@ =~= self.spec_content());
        }
        put_zeros(&mut out, padding);
        out
    }

    /// Reads a transaction from storage.
    pub fn from_bytes(bytes: &[u8]) -> (r: Result<TransactionAccount, DecodeError>)
        ensures
            r == TransactionAccount::spec_from_bytes(bytes@),
    {
        if bytes.len() < 8 {
            return Err(DecodeError::DiscriminatorNotFound);
        }
        if !starts_with(bytes, 0, &TRANSACTION_DISCRIMINATOR) {
            return Err(DecodeError::DiscriminatorMismatch);
        }
        if bytes.len() < 48 || bytes[47] > 1 {
            return Err(DecodeError::DidNotDeserialize);
        }
        let after: usize = if bytes[47] == 1 {
            56
        } else {
            48
        };
        if bytes.len() < after + 17 {
            return Err(DecodeError::DidNotDeserialize);
        }
        let tx_type = match TransactionType::from_byte(bytes[38]) {
            Some(t) => t,
            None => {
                return Err(DecodeError::DidNotDeserialize);
            },
        };
        let status = match TransactionStatus::from_byte(bytes[after]) {
            Some(s) => s,
            None => {
                return Err(DecodeError::DidNotDeserialize);
            },
        };
        let amount_usdc = if bytes[47] == 1 {
            Some(get_le(bytes, 48, 8))
        } else {
            None
        };
        Ok(
            TransactionAccount {
                tx_id: get_array::<16>(bytes, 8),
                user_phone: get_array::<14>(bytes, 24),
                tx_type,
                amount_ngn: get_le(bytes, 39, 8),
                amount_usdc,
                status,
                timestamp: i64_from_bits(get_le(bytes, after + 1, 8)),
                fee: get_le(bytes, after + 9, 8),
            },
        )
    }
}

/// The content of a stored transaction takes 73 bytes with a
/// stable-value amount and 65 without; stored, it always takes
/// `TransactionAccount::LEN`.
pub proof fn lemma_transaction_len(t: TransactionAccount)
    ensures
        t.spec_content().len() == (if t.amount_usdc is Some {
            73int
        } else {
            65int
        }),
        t.spec_to_bytes().len() == TransactionAccount::LEN,
{
    lemma_le_bytes_len(t.amount_ngn as nat, 8);
    lemma_le_bytes_len(i64_bits(t.timestamp), 8);
    lemma_le_bytes_len(t.fee as nat, 8);
    if let Some(x) = t.amount_usdc {
        lemma_le_bytes_len(x as nat, 8);
    }
}

/// A transaction that was written is read back as it was, whatever
/// bytes follow it in storage.
pub proof fn lemma_transaction_round_trip(t: TransactionAccount, trailing: Seq<u8>)
    ensures
        TransactionAccount::spec_from_bytes(t.spec_to_bytes() + trailing) == Ok::<
            TransactionAccount,
            DecodeError,
        >(t),
{
    let bytes = t.spec_to_bytes() + trailing;
    let content = t.spec_content();
    lemma_transaction_len(t);
    lemma_le_bytes_len(t.amount_ngn as nat, 8);
    lemma_le_bytes_len(i64_bits(t.timestamp), 8);
    lemma_le_bytes_len(t.fee as nat, 8);
    lemma_pow256_values();
    lemma_i64_bits_round_trip(t.timestamp);
    lemma_le_round_trip(t.amount_ngn as nat, 8);
    lemma_le_round_trip(i64_bits(t.timestamp), 8);
    lemma_le_round_trip(t.fee as nat, 8);
    lemma_array_of::<16>(t.tx_id);
    lemma_array_of::<14>(t.user_phone);
    assert(bytes.subrange(0, 8) =~= TRANSACTION_DISCRIMINATOR@);
    assert(bytes.subrange(8, 24) =~= t.tx_id@);
    assert(bytes.subrange(24, 38) =~= t.user_phone@);
    assert(bytes[38] == t.tx_type.ordinal());
    assert(bytes.subrange(39, 47) =~= le_bytes(t.amount_ngn as nat, 8));
    assert(TransactionType::of_ordinal(t.tx_type.ordinal()) == Some(t.tx_type));
    assert(TransactionStatus::of_ordinal(t.status.ordinal()) == Some(t.status));
    match t.amount_usdc {
        None => {
            assert(bytes[47] == 0);
            assert(bytes[48] == t.status.ordinal());
            assert(bytes.subrange(49, 57) =~= le_bytes(i64_bits(t.timestamp), 8));
            assert(bytes.subrange(57, 65) =~= le_bytes(t.fee as nat, 8));
        },
        Some(x) => {
            lemma_le_bytes_len(x as nat, 8);
            lemma_le_round_trip(x as nat, 8);
            assert(bytes[47] == 1);
            assert(bytes.subrange(48, 56) =~= le_bytes(x as nat, 8));
            assert(bytes[56] == t.status.ordinal());
            assert(bytes.subrange(57, 65) =~= le_bytes(i64_bits(t.timestamp), 8));
            assert(bytes.subrange(65, 73) =~= le_bytes(t.fee as nat, 8));
        },
    }
}

/// Bytes that are read as a transaction are, as far as the content
/// reaches, the bytes that this transaction's content is written as.
pub proof fn lemma_transaction_bytes_determined(bytes: Seq<u8>, t: TransactionAccount)
    requires
        TransactionAccount::spec_from_bytes(bytes) == Ok::<TransactionAccount, DecodeError>(t),
    ensures
        bytes.len() >= t.spec_content().len(),
        bytes.subrange(0, t.spec_content().len() as int) == t.spec_content(),
{
    let after: int = if bytes[47] == 1 {
        56
    } else {
        48
    };
    lemma_array_of_view::<16>(bytes.subrange(8, 24));
    lemma_array_of_view::<14>(bytes.subrange(24, 38));
    lemma_le_bytes_of_value(bytes.subrange(39, 47));
    lemma_le_bytes_of_value(bytes.subrange(after + 1, after + 9));
    lemma_le_bytes_of_value(bytes.subrange(after + 9, after + 17));
    lemma_le_value_bound(bytes.subrange(39, 47));
    lemma_le_value_bound(bytes.subrange(after + 1, after + 9));
    lemma_le_value_bound(bytes.subrange(after + 9, after + 17));
    lemma_i64_of_bits_round_trip(le_value(bytes.subrange(after + 1, after + 9)));
    lemma_pow256_values();
    lemma_transaction_len(t);
    if bytes[47] == 1 {
        lemma_le_bytes_of_value(bytes.subrange(48, 56));
        lemma_le_value_bound(bytes.subrange(48, 56));
        lemma_le_bytes_len(t.amount_usdc->Some_0 as nat, 8);
    }
    lemma_le_bytes_len(t.amount_ngn as nat, 8);
    lemma_le_bytes_len(i64_bits(t.timestamp), 8);
    lemma_le_bytes_len(t.fee as nat, 8);
    let written = t.spec_content();
    assert(written.len() == after + 17);
    assert forall|i: int| 0 <= i < after + 17 implies bytes[i] == written[i] by {
        if i < 8 {
            assert(bytes.subrange(0, 8)[i] == TRANSACTION_DISCRIMINATOR@[i]);
        } else if i < 24 {
            assert(bytes.subrange(8, 24)[i - 8] == t.tx_id@[i - 8]);
        } else if i < 38 {
            assert(bytes.subrange(24, 38)[i - 24] == t.user_phone@[i - 24]);
        } else if i < 39 {
        } else if i < 47 {
            assert(bytes.subrange(39, 47)[i - 39] == le_bytes(t.amount_ngn as nat, 8)[i - 39]);
        } else if i < 48 {
        } else if i < after {
            assert(bytes.subrange(48, 56)[i - 48] == le_bytes(t.amount_usdc->Some_0 as nat, 8)[i
                - 48]);
        } else if i < after + 1 {
        } else if i < after + 9 {
            assert(bytes.subrange(after + 1, after + 9)[i - after - 1] == le_bytes(
                i64_bits(t.timestamp),
                8,
            )[i - after - 1]);
        } else {
            assert(bytes.subrange(after + 9, after + 17)[i - after - 9] == le_bytes(
                t.fee as nat,
                8,
            )[i - after - 9]);
        }
    }
    assert(bytes.subrange(0, after + 17) =~= written);
}

} // verus!
