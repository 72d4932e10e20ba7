use vstd::prelude::*;

use crate::types::MarketDataSnap;

verus! {

/// Latest snapshot per market, at most one per market id.
pub struct MarketCache {
    snaps: Vec<MarketDataSnap>,
}

/// Some entry of `s` is for market `id`.
pub open spec fn has_id(s: Seq<MarketDataSnap>, id: Seq<char>) -> bool {
    exists|i: int| 0 <= i < s.len() && (#[trigger] s[i]).market_id@ == id
}

/// Market ids are unique in `s`.
pub open spec fn unique_ids(s: Seq<MarketDataSnap>) -> bool {
    forall|i: int, j: int|
        0 <= i < s.len() && 0 <= j < s.len() && i != j ==> (#[trigger] s[i]).market_id@ != (
        #[trigger] s[j]).market_id@
}

/// The snapshot of `s` for market `id`, if any.
pub open spec fn snap_in(s: Seq<MarketDataSnap>, id: Seq<char>) -> Option<MarketDataSnap> {
    if has_id(s, id) {
        Some(s[choose|i: int| 0 <= i < s.len() && (#[trigger] s[i]).market_id@ == id])
    } else {
        None
    }
}

proof fn lemma_snap_at(s: Seq<MarketDataSnap>, i: int)
    requires
        unique_ids(s),
        0 <= i < s.len(),
    ensures
        snap_in(s, s[i].market_id@) == Some(s[i]),
{
    let id = s[i].market_id@;
    assert(has_id(s, id));
    let j = choose|j: int| 0 <= j < s.len() && (#[trigger] s[j]).market_id@ == id;
    assert(i == j);
}

impl MarketCache {
    pub closed spec fn entries(&self) -> Seq<MarketDataSnap> {
        self.snaps@
    }

    /// The cached snapshot of market `id`, if any.
    pub open spec fn get_spec(&self, id: Seq<char>) -> Option<MarketDataSnap> {
        snap_in(self.entries(), id)
    }

    pub open spec fn wf(&self) -> bool {
        unique_ids(self.entries())
    }

    pub fn new() -> (r: MarketCache)
        ensures
            r.wf(),
            forall|id: Seq<char>| r.get_spec(id) is None,
    {
        MarketCache { snaps: Vec::new() }
    }

    /// Position of the snapshot of market `id`.
    fn position(&self, id: &String) -> (r: Option<usize>)
        requires
            self.wf(),
        ensures
            r matches Some(i) ==> i < self.entries().len() && self.entries()[i as int].market_id@
                == id@,
            r is None ==> !has_id(self.entries(), id@),
    {
        let mut i: usize = 0;
        while i < self.snaps.len()
            invariant
                0 <= i <= self.snaps.len(),
                forall|j: int| 0 <= j < i ==> (#[trigger] self.snaps@[j]).market_id@ != id@,
            decreases self.snaps.len() - i,
        {
            if self.snaps[i].market_id == *id {
                return Some(i);
            }
            i = i + 1;
        }
        None
    }

    /// The cached snapshot of market `id`, if any.
    pub fn get(&self, id: &String) -> (r: Option<&MarketDataSnap>)
        requires
            self.wf(),
        ensures
            r matches Some(s) ==> self.get_spec(id@) == Some(*s),
            r is None ==> self.get_spec(id@) is None,
    {
        match self.position(id) {
            Some(i) => {
                proof {
                    lemma_snap_at(self.entries(), i as int);
                }
                Some(&self.snaps[i])
            },
            None => None,
        }
    }

    /// Whether a snapshot of market `id` is cached.
    pub fn contains(&self, id: &String) -> (r: bool)
        requires
            self.wf(),
        ensures
            r == (self.get_spec(id@) is Some),
    {
        self.position(id).is_some()
    }

    /// Stores `snap` as the latest snapshot of its market.
    pub fn insert(&mut self, snap: MarketDataSnap)
        requires
            old(self).wf(),
        ensures
            final(self).wf(),
            final(self).get_spec(snap.market_id@) == Some(snap),
            forall|id: Seq<char>|
                id != snap.market_id@ ==> #[trigger] final(self).get_spec(id) == old(self).get_spec(id),
    {
        let ghost id0 = snap.market_id@;
        let ghost s0 = self.snaps@;
        match self.position(&snap.market_id) {
            Some(i) => {
                self.snaps.set(i, snap);
                assert(unique_ids(self.snaps@));
                proof {
                    lemma_snap_at(self.snaps@, i as int);
                    assert forall|id: Seq<char>| id != id0 implies #[trigger] snap_in(self.snaps@, id)
                        == snap_in(s0, id) by {
                        if has_id(s0, id) {
                            let j = choose|j: int| 0 <= j < s0.len() && (#[trigger] s0[j]).market_id@ == id;
                            assert(self.snaps@[j] == s0[j]);
                            lemma_snap_at(s0, j);
                            lemma_snap_at(self.snaps@, j);
                        } else {
                            assert(!has_id(self.snaps@, id)) by {
                                if has_id(self.snaps@, id) {
                                    let j = choose|j: int| 0 <= j < self.snaps@.len() && (#[trigger] self.snaps@[j]).market_id@ == id;
                                    assert(s0[j] == self.snaps@[j]);
                                }
                            }
                        }
                    }
                }
            },
            None => {
                self.snaps.push(snap);
                assert(unique_ids(self.snaps@));
                proof {
                    lemma_snap_at(self.snaps@, s0.len() as int);
                    assert forall|id: Seq<char>| id != id0 implies #[trigger] snap_in(self.snaps@, id)
                        == snap_in(s0, id) by {
                        if has_id(s0, id) {
                            let j = choose|j: int| 0 <= j < s0.len() && (#[trigger] s0[j]).market_id@ == id;
                            assert(self.snaps@[j] == s0[j]);
                            lemma_snap_at(s0, j);
                            lemma_snap_at(self.snaps@, j);
                        } else {
                            assert(!has_id(self.snaps@, id)) by {
                                if has_id(self.snaps@, id) {
                                    let j = choose|j: int| 0 <= j < self.snaps@.len() && (#[trigger] self.snaps@[j]).market_id@ == id;
                                    if j < s0.len() {
                                        assert(s0[j] == self.snaps@[j]);
                                    }
                                }
                            }
                        }
                    }
                }
            },
        }
    }
}

} // verus!
