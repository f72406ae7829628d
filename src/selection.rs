//! One step of the streaming partial Fisher-Yates draw, and where its entropy comes from.
use vstd::prelude::*;

use crate::account::{model_wf, record_result, AccountModel, DataAccount};
use crate::codec::{read_record, swap_records};
use crate::generator::{generate_random_number, generate_spec};
use crate::{Errors, Record};

verus! {

/// The Keccak-256 digest of a byte string.
pub uninterp spec fn keccak256(data: Seq<u8>) -> Seq<u8>;

/// Relies on `anchor_lang::solana_program::keccak::hashv`: it feeds each part to one
/// Keccak-256 hasher in turn, so the 32-byte result is the digest of the concatenation.
#[verifier::external_body]
fn keccak_digest(first: &[u8], second: &[u8]) -> (r: [u8; 32])
    ensures
        r@ == keccak256(first@ + second@),
{
    anchor_lang::solana_program::keccak::hashv(&[first, second]).to_bytes()
}

/// The unsigned integer whose little-endian bytes are `s`.
pub open spec fn le_value(s: Seq<u8>) -> nat
    decreases s.len(),
{
    if s.len() == 0 {
        0
    } else {
        s[0] as nat + 256 * le_value(s.drop_first())
    }
}

/// The four little-endian bytes of `x`.
pub open spec fn le_bytes_u32(x: u32) -> Seq<u8> {
    seq![
        (x % 256) as u8,
        ((x / 256) % 256) as u8,
        ((x / 65536) % 256) as u8,
        ((x / 16777216) % 256) as u8,
    ]
}

/// The entropy of a draw: the first eight digest bytes of the supplied entropy
/// followed by the little-endian pool size, read as a little-endian `u64`.
pub open spec fn entropy_value(recent: Seq<u8>, remaining: u32) -> u64 {
    le_value(keccak256(recent + le_bytes_u32(remaining)).subrange(0, 8)) as u64
}

/// The generator's increment for a pool of `remaining` records.
pub open spec fn increment_for(entropy: u64, remaining: nat) -> u32 {
    (((entropy as nat) % remaining) * 7) as u32
}

/// The absolute index drawn from a non-empty pool: forced when one record is left,
/// else the generator's first value in `[used_items, num_items)`.
pub open spec fn selected_index(m: AccountModel, entropy: u64) -> Result<nat, Errors> {
    let remaining = (m.num_items - m.used_items) as nat;
    if remaining == 1 {
        Ok(m.used_items)
    } else {
        match generate_spec(21, increment_for(entropy, remaining), 100, m.used_items as u32, m.num_items as u32) {
            Ok(v) => Ok(v as nat),
            Err(e) => Err(e),
        }
    }
}

/// `s` with the entries at `i` and `j` exchanged.
pub open spec fn swap_slots(s: Seq<Seq<u8>>, i: int, j: int) -> Seq<Seq<u8>> {
    s.update(i, s[j]).update(j, s[i])
}

/// One draw: the new state and the drawn record. On an exhausted pool, or when the
/// generator finds nothing, the state is unchanged.
pub open spec fn select_spec(m: AccountModel, entropy: u64) -> (AccountModel, Result<Seq<u8>, Errors>) {
    if m.used_items >= m.num_items {
        (m, Err(Errors::PoolExhausted))
    } else {
        match selected_index(m, entropy) {
            Err(e) => (m, Err(e)),
            Ok(s) => (
                AccountModel {
                    used_items: m.used_items + 1,
                    slots: swap_slots(m.slots, s as int, m.used_items as int),
                    ..m
                },
                Ok(m.slots[s as int]),
            ),
        }
    }
}

/// Little-endian bytes of `x`.
pub fn le_bytes(x: u32) -> (r: [u8; 4])
    ensures
        r@ == le_bytes_u32(x),
{
    let r: [u8; 4] = [(x % 256) as u8, ((x / 256) % 256) as u8, ((x / 65536) % 256) as u8, ((x / 16777216) % 256) as u8];
    assert(r@ =~= le_bytes_u32(x));
    r
}

pub proof fn lemma_le_value_bound(s: Seq<u8>)
    ensures
        le_value(s) < pow256(s.len()),
    decreases s.len(),
{
    if s.len() > 0 {
        lemma_le_value_bound(s.drop_first());
        let rest = le_value(s.drop_first());
        let p = pow256((s.len() - 1) as nat);
        assert(s[0] as nat + 256 * rest < 256 * p) by (nonlinear_arith)
            requires
                s[0] < 256,
                rest < p,
        ;
    }
}

pub open spec fn pow256(n: nat) -> nat
    decreases n,
{
    if n == 0 {
        1
    } else {
        256 * pow256((n - 1) as nat)
    }
}

/// The `u64` whose little-endian bytes are the first eight of `b`.
pub fn u64_from_le_prefix(b: &[u8; 32]) -> (r: u64)
    ensures
        r == le_value(b@.subrange(0, 8)),
{
    let mut v: u64 = 0;
    let mut k: usize = 8;
    while k > 0
        invariant
            k <= 8,
            v == le_value(b@.subrange(k as int, 8)),
            v < pow256((8 - k) as nat),
        decreases k,
    {
        let ghost tail = b@.subrange(k as int, 8);
        let ghost longer = b@.subrange(k - 1, 8);
        assert(longer.drop_first() =~= tail);
        assert(pow256((8 - k) as nat) <= pow256(7)) by {
            lemma_pow256_mono((8 - k) as nat, 7);
        }
        assert(pow256(7) == 0x100_0000_0000_0000) by {
            reveal_with_fuel(pow256, 8);
        }
        assert(pow256((8 - k + 1) as nat) == 256 * pow256((8 - k) as nat));
        v = (b[k - 1] as u64) + 256 * v;
        k = k - 1;
        assert(v == le_value(longer));
    }
    assert(b@.subrange(0, 8) =~= b@.subrange(k as int, 8));
    v
}

proof fn lemma_pow256_mono(a: nat, b: nat)
    requires
        a <= b,
    ensures
        pow256(a) <= pow256(b),
    decreases b,
{
    if a < b {
        lemma_pow256_mono(a, (b - 1) as nat);
    }
}

impl DataAccount {
    /// One draw with the given entropy value: picks an undrawn record, moves it to
    /// position `used_items` and returns it, advancing `used_items` by one.
    /// Fails with `PoolExhausted` when every added record is drawn, and with
    /// `RandomNumberNotFound` when the generator finds no index; a failure changes nothing.
    pub fn select_with_entropy(&mut self, entropy: u64) -> (r: Result<Record, Errors>)
        requires
            old(self).wf(),
        ensures
            final(self).wf(),
            final(self)@ == select_spec(old(self)@, entropy).0,
            record_result(r) == select_spec(old(self)@, entropy).1,
    {
        if self.used_items >= self.num_items {
            return Err(Errors::PoolExhausted);
        }
        let ghost before = self@;
        let remaining: u32 = self.num_items - self.used_items;
        let mut selected: u64 = self.used_items as u64;
        if remaining > 1 {
            let increment: u32 = ((entropy % remaining as u64) * 7) as u32;
            match generate_random_number(21, increment, 100, self.used_items, self.num_items) {
                Ok(v) => {
                    selected = v;
                },
                Err(e) => {
                    return Err(e);
                },
            }
        }
        let sel: usize = selected as usize;
        let next: usize = self.used_items as usize;
        if sel != next {
            swap_records(&mut self.data, sel, next);
        }
        let rec = read_record(self.data.as_slice(), next);
        self.used_items = self.used_items + 1;
        assert(self@.slots =~= swap_slots(before.slots, sel as int, next as int));
        Ok(rec)
    }

    /// One draw whose entropy is derived from `recent`, a byte string supplied by the
    /// host: the Keccak-256 digest of `recent` followed by the little-endian pool size.
    pub fn select_item(&mut self, recent: &[u8]) -> (r: Result<Record, Errors>)
        requires
            old(self).wf(),
        ensures
            final(self).wf(),
            old(self).used_items >= old(self).num_items ==> r == Err::<Record, Errors>(Errors::PoolExhausted)
                && final(self)@ == old(self)@,
            old(self).used_items < old(self).num_items ==> {
                let e = entropy_value(recent@, (old(self).num_items - old(self).used_items) as u32);
                &&& final(self)@ == select_spec(old(self)@, e).0
                &&& record_result(r) == select_spec(old(self)@, e).1
            },
    {
        if self.used_items >= self.num_items {
            return Err(Errors::PoolExhausted);
        }
        let remaining: u32 = self.num_items - self.used_items;
        let size_bytes = le_bytes(remaining);
        let digest = keccak_digest(recent, size_bytes.as_slice());
        let entropy = u64_from_le_prefix(&digest);
        self.select_with_entropy(entropy)
    }
}

} // verus!
