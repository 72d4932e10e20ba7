use vstd::prelude::*;

use crate::features::{entity_values, EventFeatures};
use crate::text::text_eq;
use crate::window::{TimeWindow, DAY};

verus! {

/// Coarse class of an entity label.
#[derive(Clone, Copy, Debug, PartialEq, Eq, Structural)]
pub enum EntityClass {
    CentralBank,
    MacroData,
    Country,
    Crypto,
    Other,
}

/// Domain guessed for an event.
#[derive(Clone, Copy, Debug, PartialEq, Eq, Structural)]
pub enum Domain {
    Macro,
    Crypto,
    Political,
    Unknown,
}

/// Kind of event.
#[derive(Clone, Copy, Debug, PartialEq, Eq, Structural)]
pub enum EventKind {
    PolicyDecision,
    DataRelease,
    Unspecified,
}

/// Canonical record of a news event.
#[derive(Clone, Debug)]
pub struct CanonicalEvent {
    pub domain: Domain,
    pub kind: EventKind,
    pub primary_entity: Option<String>,
    pub secondary_entities: Vec<String>,
    pub location: Option<String>,
    pub time_window: Option<TimeWindow>,
}

/// Class of a canonical label of the default dictionary.
pub open spec fn class_of(l: Seq<char>) -> EntityClass {
    if l == "Fed"@ || l == "ECB"@ || l == "BoE"@ || l == "BoJ"@ {
        EntityClass::CentralBank
    } else if l == "inflation"@ || l == "CPI"@ || l == "GDP"@ {
        EntityClass::MacroData
    } else if l == "US"@ || l == "China"@ || l == "Germany"@ {
        EntityClass::Country
    } else if l == "BTC"@ || l == "ETH"@ {
        EntityClass::Crypto
    } else {
        EntityClass::Other
    }
}

/// Domain of an entity class.
pub open spec fn domain_of_class(c: EntityClass) -> Domain {
    match c {
        EntityClass::CentralBank => Domain::Macro,
        EntityClass::MacroData => Domain::Macro,
        EntityClass::Country => Domain::Political,
        EntityClass::Crypto => Domain::Crypto,
        EntityClass::Other => Domain::Unknown,
    }
}

/// Domain of an event: that of its first entity with a known class.
pub open spec fn domain_of(ls: Seq<Seq<char>>) -> Domain
    decreases ls.len(),
{
    if ls.len() == 0 {
        Domain::Unknown
    } else if class_of(ls[0]) != EntityClass::Other {
        domain_of_class(class_of(ls[0]))
    } else {
        domain_of(ls.drop_first())
    }
}

pub open spec fn has_class(ls: Seq<Seq<char>>, c: EntityClass) -> bool {
    exists|i: int| 0 <= i < ls.len() && class_of(#[trigger] ls[i]) == c
}

/// A central bank makes a policy decision; otherwise a macro figure makes a
/// data release; otherwise the kind is unspecified.
pub open spec fn kind_of(ls: Seq<Seq<char>>) -> EventKind {
    if has_class(ls, EntityClass::CentralBank) {
        EventKind::PolicyDecision
    } else if has_class(ls, EntityClass::MacroData) {
        EventKind::DataRelease
    } else {
        EventKind::Unspecified
    }
}

/// Distinct labels in order of first occurrence.
pub open spec fn distinct(ls: Seq<Seq<char>>) -> Seq<Seq<char>>
    decreases ls.len(),
{
    if ls.len() == 0 {
        Seq::empty()
    } else {
        let d = distinct(ls.drop_last());
        if d.contains(ls.last()) {
            d
        } else {
            d.push(ls.last())
        }
    }
}

/// The first country in the labels.
pub open spec fn location_of(ls: Seq<Seq<char>>) -> Option<Seq<char>>
    decreases ls.len(),
{
    if ls.len() == 0 {
        None
    } else if class_of(ls[0]) == EntityClass::Country {
        Some(ls[0])
    } else {
        location_of(ls.drop_first())
    }
}

/// The extracted window, else a day either side of publication.
pub open spec fn effective_window(tw: Option<TimeWindow>, published: Option<i64>) -> Option<TimeWindow> {
    match tw {
        Some(w) => Some(w),
        None => match published {
            Some(p) => if i64::MIN + DAY <= p <= i64::MAX - DAY {
                Some(TimeWindow { start: (p - DAY) as i64, end: (p + DAY) as i64 })
            } else {
                None
            },
            None => None,
        },
    }
}

pub open spec fn opt_view(o: Option<String>) -> Option<Seq<char>> {
    match o {
        Some(s) => Some(s@),
        None => None,
    }
}

/// Classifies a label.
pub fn entity_class(l: &str) -> (r: EntityClass)
    ensures
        r == class_of(l@),
{
    if text_eq(l, "Fed") || text_eq(l, "ECB") || text_eq(l, "BoE") || text_eq(l, "BoJ") {
        EntityClass::CentralBank
    } else if text_eq(l, "inflation") || text_eq(l, "CPI") || text_eq(l, "GDP") {
        EntityClass::MacroData
    } else if text_eq(l, "US") || text_eq(l, "China") || text_eq(l, "Germany") {
        EntityClass::Country
    } else if text_eq(l, "BTC") || text_eq(l, "ETH") {
        EntityClass::Crypto
    } else {
        EntityClass::Other
    }
}

/// Promotes extracted features to a canonical event record.
pub struct CanonicalEventBuilder {}

impl CanonicalEventBuilder {
    pub fn new() -> (r: CanonicalEventBuilder) {
        CanonicalEventBuilder {  }
    }

    /// Domain, kind, primary entity (the first found), secondary entities
    /// (the other distinct ones, by first occurrence), location (the first
    /// country) and effective time window (the extracted one, else
    /// `published` plus or minus a day) of an event.
    pub fn build(&self, feat: &EventFeatures, published: Option<i64>) -> (r: CanonicalEvent)
        ensures
            ({
                let ls = entity_values(feat.entities@);
                &&& r.domain == domain_of(ls)
                &&& r.kind == kind_of(ls)
                &&& opt_view(r.primary_entity) == if ls.len() > 0 {
                    Some(ls[0])
                } else {
                    None::<Seq<char>>
                }
                &&& r.secondary_entities@.map_values(|s: String| s@) == if ls.len() > 0 {
                    distinct(ls).drop_first()
                } else {
                    Seq::<Seq<char>>::empty()
                }
                &&& opt_view(r.location) == location_of(ls)
                &&& r.time_window == effective_window(feat.time_window, published)
            }),
    {
        let ghost ls = entity_values(feat.entities@);
        let es = &feat.entities;
        let mut domain = Domain::Unknown;
        let mut domain_set = false;
        let mut central = false;
        let mut data = false;
        let mut location: Option<String> = None;
        let mut seen: Vec<String> = Vec::new();
        let mut i: usize = 0;
        assert(ls.skip(0) =~= ls);
        assert(ls.take(0) =~= Seq::<Seq<char>>::empty());
        while i < es.len()
            invariant
                0 <= i <= es.len(),
                ls == entity_values(es@),
                domain_set ==> domain == domain_of(ls),
                !domain_set ==> domain_of(ls) == domain_of(ls.skip(i as int)) && domain == Domain::Unknown,
                central == has_class(ls.take(i as int), EntityClass::CentralBank),
                data == has_class(ls.take(i as int), EntityClass::MacroData),
                location is Some ==> opt_view(location) == location_of(ls),
                location is None ==> location_of(ls) == location_of(ls.skip(i as int)),
                seen@.map_values(|s: String| s@) == distinct(ls.take(i as int)),
            decreases es.len() - i,
        {
            let label = &es[i].value;
            assert(ls[i as int] == label@);
            assert(ls.skip(i as int).drop_first() =~= ls.skip(i + 1));
            assert(ls.skip(i as int)[0] == ls[i as int]);
            assert(ls.take(i + 1).drop_last() =~= ls.take(i as int));
            assert(ls.take(i + 1).last() == ls[i as int]);
            let c = entity_class(label.as_str());
            if !domain_set && c != EntityClass::Other {
                domain = match c {
                    EntityClass::CentralBank => Domain::Macro,
                    EntityClass::MacroData => Domain::Macro,
                    EntityClass::Country => Domain::Political,
                    EntityClass::Crypto => Domain::Crypto,
                    EntityClass::Other => Domain::Unknown,
                };
                domain_set = true;
            }
            proof {
                assert(has_class(ls.take(i + 1), EntityClass::CentralBank) == (central || c
                    == EntityClass::CentralBank)) by {
                    if has_class(ls.take(i + 1), EntityClass::CentralBank) {
                        let k = choose|k: int| 0 <= k < ls.take(i + 1).len() && class_of(#[trigger] ls.take(i + 1)[k]) == EntityClass::CentralBank;
                        if k < i {
                            assert(ls.take(i as int)[k] == ls.take(i + 1)[k]);
                        }
                    }
                    if central {
                        let k = choose|k: int| 0 <= k < ls.take(i as int).len() && class_of(#[trigger] ls.take(i as int)[k]) == EntityClass::CentralBank;
                        assert(ls.take(i + 1)[k] == ls.take(i as int)[k]);
                    }
                    if c == EntityClass::CentralBank {
                        assert(ls.take(i + 1)[i as int] == ls[i as int]);
                    }
                }
                assert(has_class(ls.take(i + 1), EntityClass::MacroData) == (data || c
                    == EntityClass::MacroData)) by {
                    if has_class(ls.take(i + 1), EntityClass::MacroData) {
                        let k = choose|k: int| 0 <= k < ls.take(i + 1).len() && class_of(#[trigger] ls.take(i + 1)[k]) == EntityClass::MacroData;
                        if k < i {
                            assert(ls.take(i as int)[k] == ls.take(i + 1)[k]);
                        }
                    }
                    if data {
                        let k = choose|k: int| 0 <= k < ls.take(i as int).len() && class_of(#[trigger] ls.take(i as int)[k]) == EntityClass::MacroData;
                        assert(ls.take(i + 1)[k] == ls.take(i as int)[k]);
                    }
                    if c == EntityClass::MacroData {
                        assert(ls.take(i + 1)[i as int] == ls[i as int]);
                    }
                }
            }
            central = central || c == EntityClass::CentralBank;
            data = data || c == EntityClass::MacroData;
            if location.is_none() && c == EntityClass::Country {
                location = Some(label.clone());
            }
            let mut found = false;
            let mut j: usize = 0;
            while j < seen.len()
                invariant
                    0 <= j <= seen.len(),
                    found == exists|k: int| 0 <= k < j && (#[trigger] seen@[k])@ == label@,
                decreases seen.len() - j,
            {
                if seen[j] == *label {
                    found = true;
                }
                j = j + 1;
            }
            let ghost sv = seen@.map_values(|s: String| s@);
            assert(found == sv.contains(label@)) by {
                if found {
                    let k = choose|k: int| 0 <= k < seen.len() && (#[trigger] seen@[k])@ == label@;
                    assert(sv[k] == label@);
                }
                if sv.contains(label@) {
                    let k = choose|k: int| 0 <= k < sv.len() && sv[k] == label@;
                    assert(seen@[k]@ == label@);
                }
            }
            if !found {
                seen.push(label.clone());
                assert(seen@.map_values(|s: String| s@) =~= sv.push(label@));
            }
            i = i + 1;
        }
        assert(ls.take(es.len() as int) =~= ls);
        let primary = if seen.len() > 0 {
            Some(seen[0].clone())
        } else {
            None
        };
        proof {
            if ls.len() > 0 {
                lemma_distinct_first(ls);
            } else {
                assert(distinct(ls) =~= Seq::<Seq<char>>::empty());
            }
        }
        let mut secondary: Vec<String> = Vec::new();
        if seen.len() > 0 {
            let mut k: usize = 1;
            assert(secondary@.map_values(|s: String| s@) =~= seen@.map_values(|s: String| s@).subrange(1, 1));
            while k < seen.len()
                invariant
                    1 <= k <= seen.len(),
                    secondary@.map_values(|s: String| s@) == seen@.map_values(|s: String| s@).subrange(1, k as int),
                decreases seen.len() - k,
            {
                let x = seen[k].clone();
                let ghost before = secondary@;
                secondary.push(x);
                assert(secondary@ == before.push(x));
                assert(secondary@.map_values(|s: String| s@) =~= before.map_values(|s: String| s@).push(x@));
                assert(secondary@.map_values(|s: String| s@) =~= seen@.map_values(|s: String| s@).subrange(1, k + 1));
                k = k + 1;
            }
            assert(seen@.map_values(|s: String| s@).subrange(1, seen.len() as int) =~= distinct(ls).drop_first());
        } else {
            assert(secondary@.map_values(|s: String| s@) =~= Seq::<Seq<char>>::empty());
        }
        let time_window = match feat.time_window {
            Some(w) => Some(w),
            None => match published {
                Some(p) => if i64::MIN + DAY <= p && p <= i64::MAX - DAY {
                    Some(TimeWindow { start: p - DAY, end: p + DAY })
                } else {
                    None
                },
                None => None,
            },
        };
        CanonicalEvent {
            domain,
            kind: if central {
                EventKind::PolicyDecision
            } else if data {
                EventKind::DataRelease
            } else {
                EventKind::Unspecified
            },
            primary_entity: primary,
            secondary_entities: secondary,
            location,
            time_window,
        }
    }
}

proof fn lemma_distinct_first(ls: Seq<Seq<char>>)
    requires
        ls.len() > 0,
    ensures
        distinct(ls).len() > 0,
        distinct(ls)[0] == ls[0],
    decreases ls.len(),
{
    if ls.len() == 1 {
        assert(ls.drop_last() =~= Seq::<Seq<char>>::empty());
        assert(distinct(ls.drop_last()) =~= Seq::<Seq<char>>::empty());
    } else {
        lemma_distinct_first(ls.drop_last());
        assert(ls.drop_last()[0] == ls[0]);
    }
}

} // verus!
