use vstd::prelude::*;

use crate::hashable::{sha256_of, Hashable};
use crate::transaction::{spec_transaction_bytes, Transaction};
use crate::{
    append_bytes, difficulty_bytes_as_u128, lemma_u64_bytes_injective, spec_leading_u128,
    spec_u128_bytes, spec_u32_bytes, spec_u64_bytes, u128_bytes, u32_bytes, u64_bytes, BlockHash,
};

verus! {

/// One unit of chain linkage: a payload of transactions tied to its
/// predecessor by digest, made valid by a proof-of-work search over `nonce`.
pub struct Block {
    /// This block's position within the chain.
    pub index: u32,
    /// Creation time, a Unix-epoch-like counter.
    pub timestamp: u128,
    /// This block's own digest: a 32-byte zero placeholder until `mine`
    /// succeeds and commits the found digest.
    pub hash: BlockHash,
    /// The digest of the chain predecessor.
    pub prev_block_hash: BlockHash,
    /// The proof-of-work search variable.
    pub nonce: u64,
    /// The value transfers this block carries.
    pub transactions: Vec<Transaction>,
    /// The proof-of-work threshold: a found digest's leading 16 bytes, read
    /// as a big-endian integer, must fall strictly below it.
    pub difficulty: u128,
}

/// The all-zero 32-byte placeholder that stands for a digest not yet found.
pub open spec fn spec_zero_digest() -> Seq<u8> {
    Seq::new(32, |i: int| 0u8)
}

/// The concatenation of the canonical bytes of a sequence of Transactions.
pub open spec fn spec_transactions_bytes(s: Seq<Transaction>) -> Seq<u8>
    decreases s.len(),
{
    if s.len() == 0 {
        Seq::empty()
    } else {
        spec_transactions_bytes(s.drop_last()) + spec_transaction_bytes(s.last())
    }
}

/// The canonical byte encoding of a Block, in fixed order: index (4 bytes,
/// big-endian), timestamp (16 bytes), predecessor digest (raw), nonce (8
/// bytes), every transaction's bytes in order, difficulty (16 bytes). The
/// block's own `hash` field takes no part in the encoding.
pub open spec fn spec_block_bytes(b: Block) -> Seq<u8> {
    spec_u32_bytes(b.index) + spec_u128_bytes(b.timestamp) + b.prev_block_hash@
        + spec_u64_bytes(b.nonce) + spec_transactions_bytes(b.transactions@)
        + spec_u128_bytes(b.difficulty)
}

/// The same block with another nonce, every other field unchanged.
pub open spec fn spec_with_nonce(b: Block, nonce: u64) -> Block {
    Block { nonce, ..b }
}

/// A digest satisfies a difficulty threshold when its leading 16 bytes, read
/// as a big-endian 128-bit integer, are strictly below the threshold.
pub open spec fn spec_check_difficulty(hash: Seq<u8>, difficulty: u128) -> bool
    recommends
        hash.len() >= 16,
{
    difficulty > spec_leading_u128(hash)
}

/// Decides whether a candidate digest satisfies a difficulty threshold.
pub fn check_difficulty(hash: &BlockHash, difficulty: u128) -> (r: bool)
    requires
        hash@.len() >= 16,
    ensures
        r == spec_check_difficulty(hash@, difficulty),
{
    difficulty > difficulty_bytes_as_u128(hash)
}

impl Block {
    /// Constructs a block with the placeholder digest and nonce 0. No
    /// hashing happens here.
    pub fn new(
        index: u32,
        timestamp: u128,
        prev_block_hash: BlockHash,
        transactions: Vec<Transaction>,
        difficulty: u128,
    ) -> (b: Block)
        ensures
            b.index == index,
            b.timestamp == timestamp,
            b.hash@ == spec_zero_digest(),
            b.prev_block_hash == prev_block_hash,
            b.nonce == 0,
            b.transactions == transactions,
            b.difficulty == difficulty,
    {
        let mut hash: Vec<u8> = Vec::new();
        let mut i: usize = 0;
        while i < 32
            invariant
                i <= 32,
                hash@.len() == i,
                forall|k: int| 0 <= k < i ==> hash@[k] == 0u8,
            decreases 32 - i,
        {
            hash.push(0);
            i = i + 1;
        }
        proof {
            assert(hash@ =~= spec_zero_digest());
        }
        Block { index, timestamp, hash, prev_block_hash, nonce: 0, transactions, difficulty }
    }

    /// Searches the full 64-bit nonce space, from 0 upward, for a digest
    /// that satisfies this block's difficulty. On success the found digest
    /// is committed to `hash` and the winning nonce is the first that
    /// qualifies. On exhaustion nothing qualifies for any nonce, and `hash`
    /// keeps its placeholder value.
    #[verifier::loop_isolation(false)]
    pub fn mine(&mut self) -> (solved: bool)
        ensures
            final(self).index == old(self).index,
            final(self).timestamp == old(self).timestamp,
            final(self).prev_block_hash == old(self).prev_block_hash,
            final(self).transactions == old(self).transactions,
            final(self).difficulty == old(self).difficulty,
            solved ==> final(self).hash@ == sha256_of(spec_block_bytes(*final(self))),
            solved ==> final(self).hash@.len() == 32,
            solved ==> spec_check_difficulty(final(self).hash@, final(self).difficulty),
            solved ==> forall|m: u64|
                m < final(self).nonce ==> !spec_check_difficulty(
                    sha256_of(spec_block_bytes(spec_with_nonce(*old(self), m))),
                    old(self).difficulty,
                ),
            !solved ==> final(self).hash == old(self).hash,
            !solved ==> final(self).nonce == u64::MAX,
            !solved ==> forall|m: u64|
                !spec_check_difficulty(
                    sha256_of(spec_block_bytes(spec_with_nonce(*old(self), m))),
                    old(self).difficulty,
                ),
    {
        let mut attempt: u64 = 0;
        loop
            invariant
                self.index == old(self).index,
                self.timestamp == old(self).timestamp,
                self.prev_block_hash == old(self).prev_block_hash,
                self.transactions == old(self).transactions,
                self.difficulty == old(self).difficulty,
                self.hash == old(self).hash,
                forall|m: u64|
                    m < attempt ==> !spec_check_difficulty(
                        sha256_of(spec_block_bytes(spec_with_nonce(*old(self), m))),
                        old(self).difficulty,
                    ),
            decreases u64::MAX - attempt,
        {
            self.nonce = attempt;
            proof {
                assert(*self == spec_with_nonce(*old(self), attempt));
            }
            let candidate = self.hash();
            if check_difficulty(&candidate, self.difficulty) {
                self.hash = candidate;
                proof {
                    assert(spec_block_bytes(*self) == spec_block_bytes(
                        spec_with_nonce(*old(self), attempt),
                    ));
                }
                return true;
            }
            if attempt == u64::MAX {
                return false;
            }
            attempt = attempt + 1;
        }
    }
}

/// Within a block's canonical bytes, the 8 bytes that follow the index, the
/// timestamp and the predecessor digest are exactly the nonce's encoding.
pub proof fn lemma_block_bytes_nonce_window(b: Block)
    ensures
        forall|i: int|
            0 <= i < 8 ==> spec_block_bytes(b)[20 + b.prev_block_hash@.len() + i]
                == spec_u64_bytes(b.nonce)[i],
{
    let a1 = spec_u32_bytes(b.index);
    let a2 = spec_u128_bytes(b.timestamp);
    let a3 = b.prev_block_hash@;
    let n = spec_u64_bytes(b.nonce);
    let t = spec_transactions_bytes(b.transactions@);
    let d = spec_u128_bytes(b.difficulty);
    assert forall|i: int|
        0 <= i < 8 implies spec_block_bytes(b)[20 + b.prev_block_hash@.len() + i] == n[i] by {
        let h3 = a1 + a2 + a3;
        let h4 = h3 + n;
        let h5 = h4 + t;
        assert(spec_block_bytes(b) == h5 + d);
        assert(h3.len() == 20 + a3.len());
        let p = 20 + a3.len() + i;
        assert((h5 + d)[p] == h5[p]);
        assert(h5[p] == h4[p]);
        assert(h4[p] == n[i]);
    };
}

/// Determinism: a block's canonical bytes and digest are functions of its
/// fields alone; two blocks whose fields agree encode and hash alike.
pub proof fn lemma_block_digest_deterministic(a: Block, b: Block)
    requires
        a.index == b.index,
        a.timestamp == b.timestamp,
        a.prev_block_hash@ == b.prev_block_hash@,
        a.nonce == b.nonce,
        a.transactions@ == b.transactions@,
        a.difficulty == b.difficulty,
    ensures
        spec_block_bytes(a) == spec_block_bytes(b),
        sha256_of(spec_block_bytes(a)) == sha256_of(spec_block_bytes(b)),
{
}

/// Nonce sensitivity: two blocks that agree on every field but the nonce
/// have different canonical bytes.
pub proof fn lemma_nonce_sensitivity(a: Block, b: Block)
    requires
        a.index == b.index,
        a.timestamp == b.timestamp,
        a.prev_block_hash@ == b.prev_block_hash@,
        a.transactions@ == b.transactions@,
        a.difficulty == b.difficulty,
        a.nonce != b.nonce,
    ensures
        spec_block_bytes(a) != spec_block_bytes(b),
{
    if spec_block_bytes(a) == spec_block_bytes(b) {
        lemma_block_bytes_nonce_window(a);
        lemma_block_bytes_nonce_window(b);
        assert forall|i: int|
            0 <= i < 8 implies spec_u64_bytes(a.nonce)[i] == spec_u64_bytes(b.nonce)[i] by {
            assert(spec_block_bytes(a)[20 + a.prev_block_hash@.len() + i] == spec_u64_bytes(
                a.nonce,
            )[i]);
            assert(spec_block_bytes(b)[20 + b.prev_block_hash@.len() + i] == spec_u64_bytes(
                b.nonce,
            )[i]);
        };
        assert(spec_u64_bytes(a.nonce) =~= spec_u64_bytes(b.nonce));
        lemma_u64_bytes_injective(a.nonce, b.nonce);
    }
}

/// Difficulty monotonicity: a digest that satisfies a threshold satisfies
/// every higher threshold; one that misses a threshold misses every lower.
pub proof fn lemma_difficulty_monotonic(hash: Seq<u8>, d1: u128, d2: u128)
    requires
        hash.len() >= 16,
        d1 <= d2,
        spec_check_difficulty(hash, d1),
    ensures
        spec_check_difficulty(hash, d2),
{
}

impl Hashable for Block {
    open spec fn spec_bytes(&self) -> Seq<u8> {
        spec_block_bytes(*self)
    }

    fn bytes(&self) -> (r: Vec<u8>) {
        let mut r: Vec<u8> = Vec::new();
        let ib = u32_bytes(self.index);
        append_bytes(&mut r, &ib);
        let tb = u128_bytes(self.timestamp);
        append_bytes(&mut r, &tb);
        append_bytes(&mut r, &self.prev_block_hash);
        let nb = u64_bytes(self.nonce);
        append_bytes(&mut r, &nb);
        let ghost header = r@;
        let mut i: usize = 0;
        while i < self.transactions.len()
            invariant
                i <= self.transactions.len(),
                r@ == header + spec_transactions_bytes(self.transactions@.take(i as int)),
            decreases self.transactions.len() - i,
        {
            let txb = self.transactions[i].bytes();
            proof {
                assert(self.transactions@.take(i + 1).drop_last() =~= self.transactions@.take(
                    i as int,
                ));
            }
            append_bytes(&mut r, &txb);
            i = i + 1;
        }
        proof {
            assert(self.transactions@.take(self.transactions@.len() as int)
                =~= self.transactions@);
        }
        let db = u128_bytes(self.difficulty);
        append_bytes(&mut r, &db);
        proof {
            assert(r@ =~= spec_block_bytes(*self));
            assert(self.spec_bytes() == spec_block_bytes(*self));
        }
        r
    }
}

} // verus!
