use vstd::prelude::*;

verus! {

/// `r` lists the positions of the (at most `k`) highest positive scores of
/// `s`, best first: distinct positions of positive scores in descending order
/// of score, and any positive score left out is no higher than every listed
/// one and was left out only because `k` were listed. Equal scores go by
/// position: listed ones in increasing position, and one left out comes
/// after every listed one of its score.
pub open spec fn is_top_k(s: Seq<i64>, k: nat, r: Seq<usize>) -> bool {
    &&& r.len() <= k
    &&& r.no_duplicates()
    &&& forall|j: int| 0 <= j < r.len() ==> (#[trigger] r[j]) < s.len() && s[r[j] as int] > 0
    &&& forall|j: int, l: int| 0 <= j < l < r.len() ==> s[(#[trigger] r[j]) as int] >= s[(#[trigger] r[l]) as int]
    &&& forall|i: int|
        0 <= i < s.len() && s[i] > 0 && !r.contains(i as usize) ==> r.len() == k && forall|j: int|
            0 <= j < r.len() ==> s[(#[trigger] r[j]) as int] >= s[i]
    &&& forall|j: int, l: int|
        0 <= j < l < r.len() && s[(#[trigger] r[j]) as int] == s[(#[trigger] r[l]) as int] ==> r[j] < r[l]
    &&& forall|i: int, j: int|
        0 <= i < s.len() && !r.contains(i as usize) && 0 <= j < r.len() && #[trigger] s[i] == s[(#[trigger] r[j]) as int]
            ==> i > r[j]
}

/// Positions of the `k` highest positive scores, best first; among equal
/// scores the earlier position comes first.
pub fn top_k(scores: &Vec<i64>, k: usize) -> (r: Vec<usize>)
    ensures
        is_top_k(scores@, k as nat, r@),
{
    let n = scores.len();
    let mut picked: Vec<bool> = Vec::new();
    let mut i: usize = 0;
    while i < n
        invariant
            0 <= i <= n,
            n == scores.len(),
            picked.len() == i,
            forall|j: int| 0 <= j < i ==> !picked@[j],
        decreases n - i,
    {
        picked.push(false);
        i = i + 1;
    }
    let mut r: Vec<usize> = Vec::new();
    let mut done = false;
    while r.len() < k && !done
        invariant
            n == scores.len(),
            picked.len() == n,
            r.len() <= k,
            r@.no_duplicates(),
            forall|j: int| 0 <= j < r.len() ==> (#[trigger] r@[j]) < n && scores@[r@[j] as int] > 0,
            forall|i: int| 0 <= i < n ==> (#[trigger] picked@[i] <==> r@.contains(i as usize)),
            forall|j: int, l: int|
                0 <= j < l < r.len() ==> scores@[(#[trigger] r@[j]) as int] >= scores@[(#[trigger] r@[l]) as int],
            forall|i: int, j: int|
                0 <= i < n && !picked@[i] && 0 <= j < r.len() ==> scores@[(#[trigger] r@[j]) as int]
                    >= #[trigger] scores@[i],
            done ==> forall|i: int| 0 <= i < n && !picked@[i] ==> scores@[i] <= 0,
            forall|j: int, l: int|
                0 <= j < l < r.len() && scores@[(#[trigger] r@[j]) as int] == scores@[(#[trigger] r@[l]) as int]
                    ==> r@[j] < r@[l],
            forall|i: int, j: int|
                0 <= i < n && !picked@[i] && 0 <= j < r.len() && #[trigger] scores@[i] == scores@[(#[trigger] r@[j]) as int]
                    ==> i > r@[j],
        decreases k - r.len(), (if done { 0int } else { 1int }),
    {
        let mut best: usize = n;
        let mut j: usize = 0;
        while j < n
            invariant
                n == scores.len(),
                picked.len() == n,
                0 <= j <= n,
                best == n || (best < j && !picked@[best as int] && scores@[best as int] > 0),
                forall|i: int|
                    0 <= i < j && !picked@[i] && scores@[i] > 0 ==> best < n && scores@[best as int]
                        >= scores@[i],
                forall|i: int|
                    0 <= i < j && !picked@[i] && scores@[i] > 0 && scores@[i] == scores@[best as int]
                        ==> best <= i,
            decreases n - j,
        {
            if !picked[j] && scores[j] > 0 && (best == n || scores[j] > scores[best]) {
                best = j;
            }
            j = j + 1;
        }
        if best == n {
            done = true;
        } else {
            let ghost r0 = r@;
            let ghost p0 = picked@;
            proof {
                assert(!r0.contains(best));
            }
            r.push(best);
            picked.set(best, true);
            assert forall|i: int| 0 <= i < n implies (#[trigger] picked@[i] <==> r@.contains(i as usize)) by {
                if i == best as int {
                    assert(r@[r@.len() - 1] == best);
                } else {
                    if r@.contains(i as usize) {
                        let w = choose|w: int| 0 <= w < r@.len() && r@[w] == i as usize;
                        if w < r0.len() {
                            assert(r0.contains(i as usize));
                        }
                    }
                    if r0.contains(i as usize) {
                        let w = choose|w: int| 0 <= w < r0.len() && r0[w] == i as usize;
                        assert(r@[w] == i as usize);
                    }
                }
            }
        }
    }
    proof {
        assert forall|i: int, j: int|
            0 <= i < scores@.len() && !r@.contains(i as usize) && 0 <= j < r@.len() && #[trigger] scores@[i]
                == scores@[(#[trigger] r@[j]) as int] implies i > r@[j] by {
            assert(!picked@[i]);
        }
        assert forall|i: int|
            0 <= i < scores@.len() && scores@[i] > 0 && !r@.contains(i as usize) implies r@.len() == k
                && forall|j: int| 0 <= j < r@.len() ==> scores@[(#[trigger] r@[j]) as int] >= scores@[i] by {
            assert(!picked@[i]);
        }
    }
    r
}

} // verus!
