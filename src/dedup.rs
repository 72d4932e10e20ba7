use std::collections::HashSet;
use std::collections::VecDeque;
use vstd::prelude::*;

use crate::text::chars_of;
use crate::tokenize::{news_text, norm_code, normalize_chars};
use crate::types::RawNews;

verus! {

pub const FNV_OFFSET: u64 = 0xcbf2_9ce4_8422_2325;

pub const FNV_PRIME: u64 = 0x0100_0000_01b3;

/// Default number of fingerprints remembered.
pub const DEFAULT_DEDUP_CAPACITY: usize = 10_000;

/// 64-bit FNV-1a over a sequence of character codes.
pub open spec fn fnv1a(codes: Seq<u32>) -> u64
    decreases codes.len(),
{
    if codes.len() == 0 {
        FNV_OFFSET
    } else {
        (fnv1a(codes.drop_last()) ^ (codes.last() as u64)).wrapping_mul(FNV_PRIME)
    }
}

/// The codes of the characters of a text.
pub open spec fn codes_of(s: Seq<char>) -> Seq<u32> {
    s.map_values(|c: char| c as u32)
}

/// Stable 64-bit hash of a text.
pub open spec fn text_hash(s: Seq<char>) -> u64 {
    fnv1a(codes_of(s))
}

/// Content fingerprint of a news item: the hash of its normalised title and
/// description (lower case, punctuation as spaces).
pub open spec fn fingerprint(news: RawNews) -> u64 {
    fnv1a(news_text(news).map_values(|c: char| norm_code(c, true, true)))
}

/// Appends `x` to a FIFO holding at most `cap` items, evicting the oldest.
pub open spec fn fifo_push(s: Seq<u64>, x: u64, cap: nat) -> Seq<u64> {
    if s.len() >= cap {
        s.push(x).drop_first()
    } else {
        s.push(x)
    }
}

/// Hashes a text.
pub fn hash_chars(s: &Vec<char>) -> (r: u64)
    ensures
        r == text_hash(s@),
{
    let mut h: u64 = FNV_OFFSET;
    let mut i: usize = 0;
    while i < s.len()
        invariant
            0 <= i <= s.len(),
            h == fnv1a(codes_of(s@).take(i as int)),
        decreases s.len() - i,
    {
        assert(codes_of(s@).take(i + 1).drop_last() =~= codes_of(s@).take(i as int));
        h = (h ^ (s[i] as u32 as u64)).wrapping_mul(FNV_PRIME);
        i = i + 1;
    }
    assert(codes_of(s@).take(s.len() as int) =~= codes_of(s@));
    h
}

/// Remembers the fingerprints of recent news and reports repeats: a hash
/// set answers membership, a ring keeps insertion order for eviction.
pub struct ExactDuplicateDetector {
    ring: VecDeque<u64>,
    members: HashSet<u64>,
    capacity: usize,
}

impl ExactDuplicateDetector {
    /// Remembered fingerprints, oldest first.
    pub closed spec fn seen(&self) -> Seq<u64> {
        self.ring@
    }

    pub closed spec fn capacity_spec(&self) -> nat {
        self.capacity as nat
    }

    pub closed spec fn wf(&self) -> bool {
        &&& self.ring@.len() <= self.capacity
        &&& self.ring@.no_duplicates()
        &&& forall|x: u64| self.members@.contains(x) <==> self.ring@.contains(x)
    }

    /// The state after checking `news`: unchanged for a repeat, else its
    /// fingerprint is remembered.
    pub open spec fn after_check(&self, news: RawNews) -> Seq<u64> {
        if self.seen().contains(fingerprint(news)) {
            self.seen()
        } else {
            fifo_push(self.seen(), fingerprint(news), self.capacity_spec())
        }
    }

    pub fn new(capacity: usize) -> (r: ExactDuplicateDetector)
        ensures
            r.wf(),
            r.seen() == Seq::<u64>::empty(),
            r.capacity_spec() == capacity,
    {
        ExactDuplicateDetector { ring: VecDeque::new(), members: HashSet::new(), capacity }
    }

    /// The fingerprint of a news item.
    pub fn fingerprint_of(news: &RawNews) -> (r: u64)
        ensures
            r == fingerprint(*news),
    {
        let mut text = chars_of(news.title.as_str());
        text.push(' ');
        let mut rest = chars_of(news.description.as_str());
        text.append(&mut rest);
        assert(text@ =~= news_text(*news));
        let norm = normalize_chars(&text, true, true);
        let h = hash_chars(&norm);
        assert(codes_of(norm@) =~= news_text(*news).map_values(|c: char| norm_code(c, true, true)));
        h
    }

    /// Whether the news item repeats a remembered one; a new one is remembered,
    /// evicting the oldest fingerprint when full.
    pub fn is_duplicate(&mut self, news: &RawNews) -> (r: bool)
        requires
            old(self).wf(),
        ensures
            final(self).wf(),
            r == old(self).seen().contains(fingerprint(*news)),
            final(self).seen() == old(self).after_check(*news),
            final(self).capacity_spec() == old(self).capacity_spec(),
    {
        broadcast use vstd::std_specs::hash::group_hash_axioms;

        let fp = ExactDuplicateDetector::fingerprint_of(news);
        if self.members.contains(&fp) {
            return true;
        }
        let ghost s0 = self.ring@;
        self.ring.push_back(fp);
        self.members.insert(fp);
        assert(self.ring@ == s0.push(fp));
        assert(self.ring@.no_duplicates()) by {
            assert forall|i: int, j: int| 0 <= i < j < self.ring@.len() implies self.ring@[i] != self.ring@[j] by {
                if j == s0.len() {
                    assert(s0.contains(s0[i]));
                }
            }
        }
        assert forall|x: u64| self.members@.contains(x) <==> self.ring@.contains(x) by {
            if s0.contains(x) {
                let i = choose|i: int| 0 <= i < s0.len() && s0[i] == x;
                assert(self.ring@[i] == x);
            }
            if self.ring@.contains(x) && x != fp {
                let i = choose|i: int| 0 <= i < self.ring@.len() && self.ring@[i] == x;
                assert(s0[i] == x);
            }
            if x == fp {
                assert(self.ring@[s0.len() as int] == fp);
            }
        }
        if self.ring.len() > self.capacity {
            let ghost s1 = self.ring@;
            match self.ring.pop_front() {
                Some(oldest) => {
                    self.members.remove(&oldest);
                    assert(self.ring@ == s1.drop_first());
                    assert forall|x: u64| self.members@.contains(x) <==> self.ring@.contains(x) by {
                        if self.ring@.contains(x) {
                            let i = choose|i: int| 0 <= i < self.ring@.len() && self.ring@[i] == x;
                            assert(s1[i + 1] == x);
                            assert(s1.contains(x));
                            assert(x != oldest);
                        }
                        if s1.contains(x) && x != oldest {
                            let i = choose|i: int| 0 <= i < s1.len() && s1[i] == x;
                            assert(i != 0);
                            assert(self.ring@[i - 1] == x);
                        }
                    }
                },
                None => {},
            }
        }
        assert(self.seen() =~= fifo_push(s0, fp, old(self).capacity_spec()));
        false
    }
}

} // verus!
