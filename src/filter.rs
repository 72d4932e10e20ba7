use vstd::prelude::*;

use crate::features::{entity_values, Entity};
use crate::text::{chars_of, lower_code};
use crate::types::RawCandidate;
use crate::window::TimeWindow;

verus! {

/// `label`, compared in ASCII lower case, occurs in `text` at position `i`.
pub open spec fn occurs_at(text: Seq<char>, label: Seq<char>, i: int) -> bool {
    &&& 0 <= i
    &&& i + label.len() <= text.len()
    &&& forall|k: int| 0 <= k < label.len() ==> (#[trigger] text[i + k]) as u32 == lower_code(label[k])
}

/// `text` mentions `label` (in lower case).
pub open spec fn mentions(text: Seq<char>, label: Seq<char>) -> bool {
    exists|i: int| occurs_at(text, label, i)
}

/// A candidate passes when its indexed text (if known) mentions every
/// required entity, and its end time (if known) lies in the window (if any).
pub open spec fn passes(c: RawCandidate, labels: Seq<Seq<char>>, tw: Option<TimeWindow>) -> bool {
    &&& (c.text@.len() == 0 || forall|j: int| 0 <= j < labels.len() ==> mentions(c.text@, #[trigger] labels[j]))
    &&& match (tw, c.end_time) {
        (Some(w), Some(t)) => w.start <= t <= w.end,
        _ => true,
    }
}

/// The candidates that pass, in order.
pub open spec fn passing(cs: Seq<RawCandidate>, labels: Seq<Seq<char>>, tw: Option<TimeWindow>) -> Seq<
    RawCandidate,
>
    decreases cs.len(),
{
    if cs.len() == 0 {
        Seq::empty()
    } else if passes(cs.last(), labels, tw) {
        passing(cs.drop_last(), labels, tw).push(cs.last())
    } else {
        passing(cs.drop_last(), labels, tw)
    }
}

fn occurs_at_exec(text: &Vec<char>, label: &Vec<char>, i: usize) -> (r: bool)
    requires
        i + label.len() <= text.len(),
    ensures
        r == occurs_at(text@, label@, i as int),
{
    let mut k: usize = 0;
    while k < label.len()
        invariant
            i + label.len() <= text.len(),
            0 <= k <= label.len(),
            forall|m: int| 0 <= m < k ==> (#[trigger] text@[i + m]) as u32 == lower_code(label@[m]),
        decreases label.len() - k,
    {
        let c = label[k];
        let lc: u32 = if 'A' <= c && c <= 'Z' { c as u32 + 32 } else { c as u32 };
        if text[i + k] as u32 != lc {
            return false;
        }
        k = k + 1;
    }
    true
}

/// Whether `text` mentions `label`.
pub fn mentions_exec(text: &str, label: &str) -> (r: bool)
    ensures
        r == mentions(text@, label@),
{
    let t = chars_of(text);
    let l = chars_of(label);
    if l.len() > t.len() {
        return false;
    }
    let mut i: usize = 0;
    while i <= t.len() - l.len()
        invariant
            t@ == text@,
            l@ == label@,
            l.len() <= t.len(),
            0 <= i <= t.len() - l.len() + 1,
            forall|j: int| 0 <= j < i ==> !occurs_at(t@, l@, j),
        decreases t.len() - i + 1,
    {
        if occurs_at_exec(&t, &l, i) {
            return true;
        }
        i = i + 1;
    }
    assert forall|j: int| !occurs_at(t@, l@, j) by {
        if j >= i {
            assert(j + l@.len() > t@.len());
        }
    }
    false
}

/// Prunes candidates that contradict the extracted entities or time window.
pub struct HardFilterer {}

impl HardFilterer {
    pub fn new() -> (r: HardFilterer) {
        HardFilterer {  }
    }

    fn passes_exec(c: &RawCandidate, entities: &Vec<Entity>, tw: &Option<TimeWindow>) -> (r: bool)
        ensures
            r == passes(*c, entity_values(entities@), *tw),
    {
        let ghost labels = entity_values(entities@);
        let time_ok = match (tw, c.end_time) {
            (Some(w), Some(t)) => w.start <= t && t <= w.end,
            _ => true,
        };
        if !time_ok {
            return false;
        }
        if c.text.as_str().unicode_len() == 0 {
            return true;
        }
        let mut j: usize = 0;
        while j < entities.len()
            invariant
                0 <= j <= entities.len(),
                labels == entity_values(entities@),
                c.text@.len() > 0,
                forall|m: int| 0 <= m < j ==> mentions(c.text@, #[trigger] labels[m]),
            decreases entities.len() - j,
        {
            if !mentions_exec(c.text.as_str(), entities[j].value.as_str()) {
                assert(labels[j as int] == entities@[j as int].value@);
                return false;
            }
            j = j + 1;
        }
        true
    }

    /// The candidates that pass (see [`passes`]), in their order.
    pub fn apply(
        &self,
        candidates: Vec<RawCandidate>,
        entities: &Vec<Entity>,
        time_window: &Option<TimeWindow>,
    ) -> (r: Vec<RawCandidate>)
        ensures
            r@ == passing(candidates@, entity_values(entities@), *time_window),
    {
        let ghost labels = entity_values(entities@);
        let mut out: Vec<RawCandidate> = Vec::new();
        let mut i: usize = 0;
        while i < candidates.len()
            invariant
                0 <= i <= candidates.len(),
                labels == entity_values(entities@),
                out@ == passing(candidates@.take(i as int), labels, *time_window),
            decreases candidates.len() - i,
        {
            assert(candidates@.take(i + 1).drop_last() =~= candidates@.take(i as int));
            assert(candidates@.take(i + 1).last() == candidates@[i as int]);
            if HardFilterer::passes_exec(&candidates[i], entities, time_window) {
                out.push(candidates[i].copied());
            }
            i = i + 1;
        }
        assert(candidates@.take(candidates.len() as int) =~= candidates@);
        out
    }
}

} // verus!
