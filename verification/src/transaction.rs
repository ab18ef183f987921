use vstd::prelude::*;

use crate::hashable::{sha256_of, Hashable};
use crate::{spec_u64_bytes, append_bytes, u64_bytes, Address, BlockHash};

verus! {

/// A value assignment: some amount credited to a recipient.
#[derive(Clone)]
pub struct Output {
    pub to_addr: Address,
    pub value: u64,
}

/// The canonical byte encoding of an Output: the recipient's raw bytes
/// followed by the value as 8 big-endian bytes.
pub open spec fn spec_output_bytes(o: Output) -> Seq<u8> {
    o.to_addr@ + spec_u64_bytes(o.value)
}

impl Hashable for Output {
    open spec fn spec_bytes(&self) -> Seq<u8> {
        spec_output_bytes(*self)
    }

    fn bytes(&self) -> (r: Vec<u8>) {
        let mut r: Vec<u8> = Vec::new();
        append_bytes(&mut r, &self.to_addr);
        let vb = u64_bytes(self.value);
        append_bytes(&mut r, &vb);
        proof {
            assert(r@ =~= spec_output_bytes(*self));
            assert(self.spec_bytes() == spec_output_bytes(*self));
        }
        r
    }
}

/// The concatenation of the canonical bytes of a sequence of Outputs, in order.
pub open spec fn spec_outputs_bytes(s: Seq<Output>) -> Seq<u8>
    decreases s.len(),
{
    if s.len() == 0 {
        Seq::empty()
    } else {
        spec_outputs_bytes(s.drop_last()) + spec_output_bytes(s.last())
    }
}

/// The sum of the values of a sequence of Outputs.
pub open spec fn spec_sum_values(s: Seq<Output>) -> nat
    decreases s.len(),
{
    if s.len() == 0 {
        0
    } else {
        (spec_sum_values(s.drop_last()) + s.last().value) as nat
    }
}

/// A prefix of a sequence never sums to more than the whole sequence.
pub proof fn lemma_sum_take_le(s: Seq<Output>, i: int)
    requires
        0 <= i <= s.len(),
    ensures
        spec_sum_values(s.take(i)) <= spec_sum_values(s),
    decreases s.len() - i,
{
    if i == s.len() {
        assert(s.take(i) =~= s);
    } else {
        assert(s.take(i + 1).drop_last() =~= s.take(i));
        assert(spec_sum_values(s.take(i + 1)) == spec_sum_values(s.take(i)) + s[i].value);
        lemma_sum_take_le(s, i + 1);
    }
}

/// The set of digests of a sequence of Outputs: one entry per distinct
/// canonical byte encoding, duplicates collapsed.
pub open spec fn spec_output_digests(s: Seq<Output>) -> Set<Seq<u8>>
    decreases s.len(),
{
    if s.len() == 0 {
        Set::empty()
    } else {
        spec_output_digests(s.drop_last()).insert(sha256_of(spec_output_bytes(s.last())))
    }
}

/// The digest of every element of a sequence belongs to its digest set.
pub proof fn lemma_output_digests_contains(s: Seq<Output>, k: int)
    requires
        0 <= k < s.len(),
    ensures
        spec_output_digests(s).contains(sha256_of(spec_output_bytes(s[k]))),
    decreases s.len(),
{
    if k < s.len() - 1 {
        lemma_output_digests_contains(s.drop_last(), k);
    }
}

/// Fingerprint deduplication: appending an Output whose bytes repeat an
/// earlier element's leaves the digest set unchanged.
pub proof fn lemma_duplicate_fingerprint_collapses(s: Seq<Output>, o: Output, k: int)
    requires
        0 <= k < s.len(),
        spec_output_bytes(o) == spec_output_bytes(s[k]),
    ensures
        spec_output_digests(s.push(o)) == spec_output_digests(s),
{
    lemma_output_digests_contains(s, k);
    assert(s.push(o).drop_last() =~= s);
    assert(s.push(o).last() == o);
    assert(spec_output_digests(s).insert(sha256_of(spec_output_bytes(o))) =~= spec_output_digests(
        s,
    ));
}

/// Determinism: a transaction's canonical bytes and digest are functions of
/// its inputs and outputs alone.
pub proof fn lemma_transaction_digest_deterministic(a: Transaction, b: Transaction)
    requires
        a.inputs@ == b.inputs@,
        a.outputs@ == b.outputs@,
    ensures
        spec_transaction_bytes(a) == spec_transaction_bytes(b),
        sha256_of(spec_transaction_bytes(a)) == sha256_of(spec_transaction_bytes(b)),
{
}

/// The views of a vector of digests, collected as a set.
pub open spec fn spec_hash_views(s: Seq<BlockHash>) -> Set<Seq<u8>>
    decreases s.len(),
{
    if s.len() == 0 {
        Set::empty()
    } else {
        spec_hash_views(s.drop_last()).insert(s.last()@)
    }
}

/// Membership in the collected view set is membership at some index.
pub proof fn lemma_hash_views_contains(s: Seq<BlockHash>, x: Seq<u8>)
    ensures
        spec_hash_views(s).contains(x) <==> exists|k: int| 0 <= k < s.len() && s[k]@ == x,
    decreases s.len(),
{
    if s.len() > 0 {
        lemma_hash_views_contains(s.drop_last(), x);
        if s.last()@ == x {
            assert(s[s.len() - 1]@ == x);
        } else if exists|k: int| 0 <= k < s.len() && s[k]@ == x {
            let k = choose|k: int| 0 <= k < s.len() && s[k]@ == x;
            assert(s.drop_last()[k] == s[k]);
        }
    }
}

/// A transfer of value: the Outputs being consumed and the Outputs created.
pub struct Transaction {
    pub inputs: Vec<Output>,
    pub outputs: Vec<Output>,
}

/// The canonical byte encoding of a Transaction: every input's bytes in
/// order, then every output's bytes in order.
pub open spec fn spec_transaction_bytes(t: Transaction) -> Seq<u8> {
    spec_outputs_bytes(t.inputs@) + spec_outputs_bytes(t.outputs@)
}

/// Sums the values of a vector of Outputs.
#[verifier::loop_isolation(false)]
fn sum_values(s: &Vec<Output>) -> (r: u64)
    requires
        spec_sum_values(s@) <= u64::MAX,
    ensures
        r == spec_sum_values(s@),
{
    let mut total: u64 = 0;
    let mut i: usize = 0;
    while i < s.len()
        invariant
            i <= s.len(),
            total == spec_sum_values(s@.take(i as int)),
        decreases s.len() - i,
    {
        proof {
            lemma_sum_take_le(s@, i + 1);
            assert(s@.take(i + 1).drop_last() =~= s@.take(i as int));
            assert(spec_sum_values(s@.take(i + 1)) == spec_sum_values(s@.take(i as int)) + s@[i as int].value);
        }
        total = total + s[i].value;
        i = i + 1;
    }
    proof {
        assert(s@.take(s@.len() as int) =~= s@);
    }
    total
}

/// Compares two digests byte for byte.
#[verifier::loop_isolation(false)]
fn hash_eq(a: &BlockHash, b: &BlockHash) -> (r: bool)
    ensures
        r == (a@ == b@),
{
    if a.len() != b.len() {
        return false;
    }
    let mut i: usize = 0;
    while i < a.len()
        invariant
            i <= a.len(),
            forall|k: int| 0 <= k < i ==> a@[k] == b@[k],
        decreases a.len() - i,
    {
        if a[i] != b[i] {
            return false;
        }
        i = i + 1;
    }
    proof {
        assert(a@ =~= b@);
    }
    true
}

/// Collects the digest of every element of `s`, skipping any digest already
/// collected: the result lists each distinct digest exactly once.
#[verifier::loop_isolation(false)]
fn distinct_hashes(s: &Vec<Output>) -> (r: Vec<BlockHash>)
    ensures
        spec_hash_views(r@) == spec_output_digests(s@),
        forall|i: int, j: int| 0 <= i < j < r@.len() ==> r@[i]@ != r@[j]@,
{
    let mut r: Vec<BlockHash> = Vec::new();
    let mut i: usize = 0;
    while i < s.len()
        invariant
            i <= s.len(),
            spec_hash_views(r@) == spec_output_digests(s@.take(i as int)),
            forall|p: int, q: int| 0 <= p < q < r@.len() ==> r@[p]@ != r@[q]@,
        decreases s.len() - i,
    {
        let h = s[i].hash();
        let mut found = false;
        let mut j: usize = 0;
        while j < r.len()
            invariant
                j <= r.len(),
                found <==> exists|k: int| 0 <= k < j && r@[k]@ == h@,
            decreases r.len() - j,
        {
            if hash_eq(&r[j], &h) {
                found = true;
            }
            j = j + 1;
        }
        proof {
            assert(s@.take(i + 1).drop_last() =~= s@.take(i as int));
            assert(s@.take(i + 1).last() == s@[i as int]);
            assert(spec_output_digests(s@.take(i + 1))
                == spec_output_digests(s@.take(i as int)).insert(sha256_of(spec_output_bytes(s@[i as int]))));
            lemma_hash_views_contains(r@, h@);
        }
        if found {
            proof {
                assert(spec_hash_views(r@).contains(h@));
                assert(spec_hash_views(r@).insert(h@) =~= spec_hash_views(r@));
            }
        } else {
            let ghost r_before = r@;
            r.push(h);
            proof {
                assert(r@.drop_last() =~= r_before);
                assert(spec_hash_views(r@) == spec_hash_views(r_before).insert(h@));
            }
        }
        i = i + 1;
    }
    proof {
        assert(s@.take(s@.len() as int) =~= s@);
    }
    r
}

impl Transaction {
    /// The total value consumed: the sum of the values of the inputs, 0 for
    /// an empty input list.
    pub fn input_value(&self) -> (r: u64)
        requires
            spec_sum_values(self.inputs@) <= u64::MAX,
        ensures
            r == spec_sum_values(self.inputs@),
    {
        sum_values(&self.inputs)
    }

    /// The total value created: the sum of the values of the outputs, 0 for
    /// an empty output list.
    pub fn output_value(&self) -> (r: u64)
        requires
            spec_sum_values(self.outputs@) <= u64::MAX,
        ensures
            r == spec_sum_values(self.outputs@),
    {
        sum_values(&self.outputs)
    }

    /// The set of digests of the inputs, one entry per distinct input
    /// encoding: byte-identical inputs collapse to a single digest.
    pub fn input_hashes(&self) -> (r: Vec<BlockHash>)
        ensures
            spec_hash_views(r@) == spec_output_digests(self.inputs@),
            forall|i: int, j: int| 0 <= i < j < r@.len() ==> r@[i]@ != r@[j]@,
    {
        distinct_hashes(&self.inputs)
    }

    /// The set of digests of the outputs, one entry per distinct output
    /// encoding: byte-identical outputs collapse to a single digest.
    pub fn output_hashes(&self) -> (r: Vec<BlockHash>)
        ensures
            spec_hash_views(r@) == spec_output_digests(self.outputs@),
            forall|i: int, j: int| 0 <= i < j < r@.len() ==> r@[i]@ != r@[j]@,
    {
        distinct_hashes(&self.outputs)
    }

    /// A coinbase transaction consumes nothing: true exactly when the input
    /// list is empty, whatever the outputs hold.
    pub fn is_coinbase(&self) -> (r: bool)
        ensures
            r == (self.inputs@.len() == 0),
    {
        self.inputs.len() == 0
    }
}

impl Hashable for Transaction {
    open spec fn spec_bytes(&self) -> Seq<u8> {
        spec_transaction_bytes(*self)
    }

    fn bytes(&self) -> (r: Vec<u8>) {
        let mut r: Vec<u8> = Vec::new();
        let mut i: usize = 0;
        while i < self.inputs.len()
            invariant
                i <= self.inputs.len(),
                r@ == spec_outputs_bytes(self.inputs@.take(i as int)),
            decreases self.inputs.len() - i,
        {
            let ob = self.inputs[i].bytes();
            proof {
                assert(self.inputs@.take(i + 1).drop_last() =~= self.inputs@.take(i as int));
            }
            append_bytes(&mut r, &ob);
            i = i + 1;
        }
        proof {
            assert(self.inputs@.take(self.inputs@.len() as int) =~= self.inputs@);
        }
        let mut j: usize = 0;
        while j < self.outputs.len()
            invariant
                j <= self.outputs.len(),
                r@ == spec_outputs_bytes(self.inputs@) + spec_outputs_bytes(self.outputs@.take(j as int)),
            decreases self.outputs.len() - j,
        {
            let ob = self.outputs[j].bytes();
            proof {
                assert(self.outputs@.take(j + 1).drop_last() =~= self.outputs@.take(j as int));
            }
            append_bytes(&mut r, &ob);
            j = j + 1;
        }
        proof {
            assert(self.outputs@.take(self.outputs@.len() as int) =~= self.outputs@);
            assert(self.spec_bytes() == spec_transaction_bytes(*self));
        }
        r
    }
}

} // verus!
