use vstd::prelude::*;

use crate::dedup::{fifo_push, hash_chars, text_hash};
use crate::text::chars_of;
use crate::tokenize::views;

verus! {

/// Default Hamming distance at or under which two hashes are near-duplicates.
pub const DEFAULT_SIMHASH_THRESHOLD: u32 = 3;

/// Default number of hashes remembered.
pub const DEFAULT_SIMHASH_CAPACITY: usize = 1024;

/// Bit `i` of `x`.
pub open spec fn bit(x: u64, i: u64) -> bool {
    (x >> i) & 1 == 1
}

/// Sign vote on bit `i`: plus one per hash with the bit set, minus one per
/// hash without it.
pub open spec fn vote(hs: Seq<u64>, i: u64) -> int
    decreases hs.len(),
{
    if hs.len() == 0 {
        0
    } else {
        vote(hs.drop_last(), i) + if bit(hs.last(), i) {
            1int
        } else {
            -1int
        }
    }
}

/// The stable hashes of tokens.
pub open spec fn token_hashes(tokens: Seq<Seq<char>>) -> Seq<u64> {
    tokens.map_values(|t: Seq<char>| text_hash(t))
}

/// `h` is the SimHash of the tokens: each bit is set exactly when its vote is positive.
pub open spec fn is_simhash(h: u64, tokens: Seq<Seq<char>>) -> bool {
    forall|i: u64| i < 64 ==> (#[trigger] bit(h, i) <==> vote(token_hashes(tokens), i) > 0)
}

/// Number of set bits of `x` below bit `n`.
pub open spec fn ones_below(x: u64, n: u64) -> nat
    decreases n,
{
    if n == 0 {
        0
    } else {
        ones_below(x, (n - 1) as u64) + if bit(x, (n - 1) as u64) {
            1nat
        } else {
            0nat
        }
    }
}

/// Hamming distance of two 64-bit hashes.
pub open spec fn hamming(a: u64, b: u64) -> nat {
    ones_below(a ^ b, 64)
}

proof fn lemma_set_bit(r: u64, b: u64, j: u64)
    requires
        b < 64,
        j < 64,
    ensures
        bit(r | (1u64 << b), j) <==> (bit(r, j) || j == b),
{
    assert(((r | (1u64 << b)) >> j) & 1 == 1 <==> ((r >> j) & 1 == 1 || j == b)) by (bit_vector)
        requires
            b < 64,
            j < 64,
    ;
}

proof fn lemma_zero_bits(j: u64)
    requires
        j < 64,
    ensures
        !bit(0, j),
{
    assert((0u64 >> j) & 1 != 1) by (bit_vector)
        requires
            j < 64,
    ;
}

/// Hamming distance of two hashes.
pub fn hamming_distance(a: u64, b: u64) -> (r: u32)
    ensures
        r == hamming(a, b),
{
    let x = a ^ b;
    let mut n: u32 = 0;
    let mut i: u64 = 0;
    while i < 64
        invariant
            0 <= i <= 64,
            x == a ^ b,
            n == ones_below(x, i),
            n <= i,
        decreases 64 - i,
    {
        if (x >> i) & 1 == 1 {
            n = n + 1;
        }
        i = i + 1;
    }
    n
}

/// Remembers recent SimHashes and reports near-duplicates.
pub struct SimHashCache {
    hashes: Vec<u64>,
    threshold: u32,
    capacity: usize,
}

impl SimHashCache {
    /// Remembered hashes, oldest first.
    pub closed spec fn stored(&self) -> Seq<u64> {
        self.hashes@
    }

    pub closed spec fn threshold_spec(&self) -> nat {
        self.threshold as nat
    }

    pub closed spec fn capacity_spec(&self) -> nat {
        self.capacity as nat
    }

    pub open spec fn wf(&self) -> bool {
        self.stored().len() <= self.capacity_spec()
    }

    /// Some stored hash lies within the threshold of `h`.
    pub open spec fn near(&self, h: u64) -> bool {
        exists|k: int|
            0 <= k < self.stored().len() && hamming(#[trigger] self.stored()[k], h)
                <= self.threshold_spec()
    }

    pub fn new(threshold: u32, capacity: usize) -> (r: SimHashCache)
        ensures
            r.wf(),
            r.stored() == Seq::<u64>::empty(),
            r.threshold_spec() == threshold,
            r.capacity_spec() == capacity,
    {
        SimHashCache { hashes: Vec::new(), threshold, capacity }
    }

    /// The SimHash of a token stream: bit `i` is set when more token hashes
    /// have bit `i` set than not.
    pub fn sim_hash(&self, tokens: &Vec<String>) -> (r: u64)
        ensures
            is_simhash(r, views(tokens@)),
    {
        let ghost hs = token_hashes(views(tokens@));
        let mut counts: Vec<i128> = Vec::new();
        let mut b: u64 = 0;
        while b < 64
            invariant
                0 <= b <= 64,
                counts.len() == b,
                forall|j: int| 0 <= j < b ==> counts@[j] == 0,
            decreases 64 - b,
        {
            counts.push(0);
            b = b + 1;
        }
        let mut t: usize = 0;
        while t < tokens.len()
            invariant
                0 <= t <= tokens.len(),
                hs == token_hashes(views(tokens@)),
                counts.len() == 64,
                forall|j: u64| j < 64 ==> #[trigger] counts@[j as int] == vote(hs.take(t as int), j),
                forall|j: int| 0 <= j < 64 ==> -(t as int) <= #[trigger] counts@[j] <= t,
            decreases tokens.len() - t,
        {
            let chars = chars_of(tokens[t].as_str());
            let h = hash_chars(&chars);
            assert(hs.take(t + 1).drop_last() =~= hs.take(t as int));
            assert(hs.take(t + 1).last() == h);
            let mut b: u64 = 0;
            while b < 64
                invariant
                    0 <= b <= 64,
                    0 <= t < tokens.len(),
                    hs == token_hashes(views(tokens@)),
                    counts.len() == 64,
                    h == hs.take(t + 1).last(),
                    hs.take(t + 1).drop_last() == hs.take(t as int),
                    forall|j: u64| b <= j < 64 ==> #[trigger] counts@[j as int] == vote(hs.take(t as int), j),
                    forall|j: u64| j < b ==> #[trigger] counts@[j as int] == vote(hs.take(t + 1), j),
                    forall|j: int| b <= j < 64 ==> -(t as int) <= #[trigger] counts@[j] <= t,
                    forall|j: int| 0 <= j < b ==> -(t + 1) <= #[trigger] counts@[j] <= t + 1,
                decreases 64 - b,
            {
                let c = counts[b as usize];
                if (h >> b) & 1 == 1 {
                    counts.set(b as usize, c + 1);
                } else {
                    counts.set(b as usize, c - 1);
                }
                assert(counts@[b as int] == vote(hs.take(t + 1), b));
                b = b + 1;
            }
            t = t + 1;
        }
        assert(hs.take(tokens.len() as int) =~= hs);
        let mut r: u64 = 0;
        assert forall|j: u64| j < 64 implies !#[trigger] bit(r, j) by {
            lemma_zero_bits(j);
        }
        let mut b: u64 = 0;
        while b < 64
            invariant
                0 <= b <= 64,
                counts.len() == 64,
                forall|j: u64| j < 64 ==> #[trigger] counts@[j as int] == vote(hs, j),
                forall|j: u64| j < b ==> (#[trigger] bit(r, j) <==> counts@[j as int] > 0),
                forall|j: u64| b <= j < 64 ==> !#[trigger] bit(r, j),
            decreases 64 - b,
        {
            let ghost r0 = r;
            if counts[b as usize] > 0 {
                r = r | (1u64 << b);
                assert forall|j: u64| j < 64 implies (#[trigger] bit(r, j) <==> (bit(r0, j) || j == b)) by {
                    lemma_set_bit(r0, b, j);
                }
            }
            b = b + 1;
        }
        r
    }

    /// Whether some stored hash lies within the threshold of `h`; nothing is stored.
    pub fn is_near_duplicate(&self, h: u64) -> (r: bool)
        ensures
            r == self.near(h),
    {
        let mut i: usize = 0;
        while i < self.hashes.len()
            invariant
                0 <= i <= self.hashes.len(),
                forall|k: int| 0 <= k < i ==> hamming(#[trigger] self.stored()[k], h) > self.threshold_spec(),
            decreases self.hashes.len() - i,
        {
            if hamming_distance(self.hashes[i], h) <= self.threshold {
                assert(hamming(self.stored()[i as int], h) <= self.threshold_spec());
                return true;
            }
            i = i + 1;
        }
        false
    }

    /// Remembers `h`, evicting the oldest hash when full.
    pub fn insert(&mut self, h: u64)
        requires
            old(self).wf(),
        ensures
            final(self).wf(),
            final(self).stored() == fifo_push(old(self).stored(), h, old(self).capacity_spec()),
            final(self).threshold_spec() == old(self).threshold_spec(),
            final(self).capacity_spec() == old(self).capacity_spec(),
    {
        self.hashes.push(h);
        if self.hashes.len() > self.capacity {
            self.hashes.remove(0);
        }
        assert(self.stored() =~= fifo_push(old(self).stored(), h, old(self).capacity_spec()));
    }
}

} // verus!
