use vstd::prelude::*;

use crate::tokenize::{views, TokenizedNews};
use crate::window::{map_phrase_to_window, phrase_window, TimeWindow};

verus! {

/// An entity found in a text, by its canonical label.
#[derive(Clone, Debug)]
pub struct Entity {
    pub value: String,
}

/// Features extracted from one news item.
#[derive(Clone, Debug)]
pub struct EventFeatures {
    pub entities: Vec<Entity>,
    pub time_window: Option<TimeWindow>,
}

/// Surface forms (lower case) paired with their canonical labels, in order.
#[derive(Clone, Debug)]
pub struct FeatureDictionaries {
    pub entities: Vec<(String, String)>,
}

/// The phrases that designate a time window, with word boundaries.
pub const DATE_PHRASE_PATTERN: &'static str =
    "\\b(year[- ]end|year end|next week|this week|next month|this month|q[1-4])\\b";

/// The pattern indices of the successive matches that aho-corasick reports.
pub uninterp spec fn pattern_matches_of(patterns: Seq<Seq<char>>, text: Seq<char>) -> Option<
    Seq<usize>,
>;

/// The texts of the successive matches that the regex crate reports.
pub uninterp spec fn regex_matches_of(pattern: Seq<char>, text: Seq<char>) -> Option<
    Seq<Seq<char>>,
>;

pub open spec fn opt_indices(r: Option<Vec<usize>>) -> Option<Seq<usize>> {
    match r {
        Some(v) => Some(v@),
        None => None,
    }
}

pub open spec fn opt_texts(r: Option<Vec<String>>) -> Option<Seq<Seq<char>>> {
    match r {
        Some(v) => Some(views(v@)),
        None => None,
    }
}

/// Relies on aho-corasick's `AhoCorasick::new` and `AhoCorasick::find_iter`
/// (standard, non-overlapping semantics): the index of the pattern of each
/// match, left to right; none when the automaton cannot be built. Pattern
/// indices follow the order in which the patterns were given.
#[verifier::external_body]
fn find_pattern_matches(patterns: &Vec<String>, text: &str) -> (r: Option<Vec<usize>>)
    ensures
        opt_indices(r) == pattern_matches_of(views(patterns@), text@),
        r matches Some(v) ==> forall|i: int| 0 <= i < v.len() ==> v@[i] < patterns.len(),
{
    match aho_corasick::AhoCorasick::new(patterns) {
        Ok(ac) => Some(ac.find_iter(text).map(|m| m.pattern().as_usize()).collect()),
        Err(_) => None,
    }
}

/// Relies on regex's `Regex::new` and `Regex::find_iter`: the text of each
/// successive non-overlapping match; none when the pattern does not compile.
#[verifier::external_body]
fn regex_find_all(pattern: &str, text: &str) -> (r: Option<Vec<String>>)
    ensures
        opt_texts(r) == regex_matches_of(pattern@, text@),
{
    match regex::Regex::new(pattern) {
        Ok(re) => Some(re.find_iter(text).map(|m| m.as_str().to_string()).collect()),
        Err(_) => None,
    }
}

/// The window of the first phrase that designates one.
pub open spec fn first_window(phrases: Seq<Seq<char>>, now: int) -> Option<TimeWindow>
    decreases phrases.len(),
{
    if phrases.len() == 0 {
        None
    } else {
        match phrase_window(phrases[0], now) {
            Some(w) => Some(w),
            None => first_window(phrases.drop_first(), now),
        }
    }
}

/// The labels of the matched patterns, in match order.
pub open spec fn labels_of(ids: Seq<usize>, labels: Seq<Seq<char>>) -> Seq<Seq<char>> {
    ids.map_values(|i: usize| labels[i as int])
}

pub open spec fn entity_values(es: Seq<Entity>) -> Seq<Seq<char>> {
    es.map_values(|e: Entity| e.value@)
}

/// The entities that a text mentions, by label, in the order of their matches.
pub open spec fn entities_in(patterns: Seq<Seq<char>>, labels: Seq<Seq<char>>, text: Seq<char>) -> Seq<
    Seq<char>,
> {
    match pattern_matches_of(patterns, text) {
        Some(ids) => labels_of(ids, labels),
        None => Seq::empty(),
    }
}

/// The time window of a text: that of its first date phrase that designates one.
pub open spec fn window_in(text: Seq<char>, now: int) -> Option<TimeWindow> {
    match regex_matches_of(DATE_PHRASE_PATTERN@, text) {
        Some(ps) => first_window(ps, now),
        None => None,
    }
}

/// The surface forms and labels of the default dictionary, in order.
pub open spec fn default_entity_pairs() -> Seq<(Seq<char>, Seq<char>)> {
    seq![
        ("ecb"@, "ECB"@),
        ("fed"@, "Fed"@),
        ("fomc"@, "Fed"@),
        ("bank of england"@, "BoE"@),
        ("boj"@, "BoJ"@),
        ("inflation"@, "inflation"@),
        ("cpi"@, "CPI"@),
        ("gdp"@, "GDP"@),
        ("united states"@, "US"@),
        ("u.s."@, "US"@),
        ("us"@, "US"@),
        ("china"@, "China"@),
        ("germany"@, "Germany"@),
        ("bitcoin"@, "BTC"@),
        ("btc"@, "BTC"@),
        ("ether"@, "ETH"@),
        ("eth"@, "ETH"@),
    ]
}

pub open spec fn pair_views(v: Seq<(String, String)>) -> Seq<(Seq<char>, Seq<char>)> {
    v.map_values(|p: (String, String)| (p.0@, p.1@))
}

fn push_pair(v: &mut Vec<(String, String)>, a: &str, b: &str)
    ensures
        pair_views(final(v)@) == pair_views(old(v)@).push((a@, b@)),
{
    broadcast use vstd::string::group_string_axioms;

    let x = a.to_string();
    let y = b.to_string();
    let ghost before = v@;
    v.push((x, y));
    assert(pair_views(v@) =~= pair_views(before).push((a@, b@)));
}

impl FeatureDictionaries {
    /// A small dictionary of central banks, macro concepts, countries and
    /// crypto assets (see [`default_entity_pairs`]).
    pub fn default_minimal() -> (r: FeatureDictionaries)
        ensures
            pair_views(r.entities@) == default_entity_pairs(),
    {
        let mut entities: Vec<(String, String)> = Vec::new();
        push_pair(&mut entities, "ecb", "ECB");
        push_pair(&mut entities, "fed", "Fed");
        push_pair(&mut entities, "fomc", "Fed");
        push_pair(&mut entities, "bank of england", "BoE");
        push_pair(&mut entities, "boj", "BoJ");
        push_pair(&mut entities, "inflation", "inflation");
        push_pair(&mut entities, "cpi", "CPI");
        push_pair(&mut entities, "gdp", "GDP");
        push_pair(&mut entities, "united states", "US");
        push_pair(&mut entities, "u.s.", "US");
        push_pair(&mut entities, "us", "US");
        push_pair(&mut entities, "china", "China");
        push_pair(&mut entities, "germany", "Germany");
        push_pair(&mut entities, "bitcoin", "BTC");
        push_pair(&mut entities, "btc", "BTC");
        push_pair(&mut entities, "ether", "ETH");
        push_pair(&mut entities, "eth", "ETH");
        assert(pair_views(entities@) =~= default_entity_pairs());
        FeatureDictionaries { entities }
    }
}

/// Extracts entities and a coarse time window from normalised text.
pub struct EventFeatureExtractor {
    patterns: Vec<String>,
    labels: Vec<String>,
}

impl EventFeatureExtractor {
    pub closed spec fn patterns(&self) -> Seq<Seq<char>> {
        views(self.patterns@)
    }

    pub closed spec fn labels(&self) -> Seq<Seq<char>> {
        views(self.labels@)
    }

    pub closed spec fn wf(&self) -> bool {
        self.patterns.len() == self.labels.len()
    }

    /// Builds the extractor from a dictionary; pattern `i` has label `i`.
    pub fn new(dict: FeatureDictionaries) -> (r: EventFeatureExtractor)
        ensures
            r.wf(),
            r.patterns() == dict.entities@.map_values(|p: (String, String)| p.0@),
            r.labels() == dict.entities@.map_values(|p: (String, String)| p.1@),
    {
        let mut patterns: Vec<String> = Vec::new();
        let mut labels: Vec<String> = Vec::new();
        let mut i: usize = 0;
        while i < dict.entities.len()
            invariant
                0 <= i <= dict.entities.len(),
                patterns.len() == i,
                labels.len() == i,
                forall|j: int| 0 <= j < i ==> (#[trigger] patterns@[j])@ == dict.entities@[j].0@,
                forall|j: int| 0 <= j < i ==> (#[trigger] labels@[j])@ == dict.entities@[j].1@,
            decreases dict.entities.len() - i,
        {
            let p = dict.entities[i].0.clone();
            let l = dict.entities[i].1.clone();
            patterns.push(p);
            labels.push(l);
            i = i + 1;
        }
        let r = EventFeatureExtractor { patterns, labels };
        assert(r.patterns() =~= dict.entities@.map_values(|p: (String, String)| p.0@));
        assert(r.labels() =~= dict.entities@.map_values(|p: (String, String)| p.1@));
        r
    }

    /// The extractor over [`FeatureDictionaries::default_minimal`].
    pub fn with_default_dicts() -> (r: EventFeatureExtractor)
        ensures
            r.wf(),
            r.patterns() == default_entity_pairs().map_values(|p: (Seq<char>, Seq<char>)| p.0),
            r.labels() == default_entity_pairs().map_values(|p: (Seq<char>, Seq<char>)| p.1),
    {
        let d = FeatureDictionaries::default_minimal();
        let r = EventFeatureExtractor::new(d);
        assert(r.patterns() =~= default_entity_pairs().map_values(|p: (Seq<char>, Seq<char>)| p.0)) by {
            assert forall|i: int| 0 <= i < r.patterns().len() implies r.patterns()[i]
                == default_entity_pairs().map_values(|p: (Seq<char>, Seq<char>)| p.0)[i] by {
                assert(pair_views(d.entities@)[i] == (d.entities@[i].0@, d.entities@[i].1@));
            }
        }
        assert(r.labels() =~= default_entity_pairs().map_values(|p: (Seq<char>, Seq<char>)| p.1)) by {
            assert forall|i: int| 0 <= i < r.labels().len() implies r.labels()[i]
                == default_entity_pairs().map_values(|p: (Seq<char>, Seq<char>)| p.1)[i] by {
                assert(pair_views(d.entities@)[i] == (d.entities@[i].0@, d.entities@[i].1@));
            }
        }
        r
    }

    /// Entities (in match order, repeats kept) and the time window of the
    /// first date phrase that designates one, relative to `now`.
    pub fn extract(&self, tok: &TokenizedNews, now: i64) -> (r: EventFeatures)
        requires
            self.wf(),
        ensures
            entity_values(r.entities@) == entities_in(self.patterns(), self.labels(), tok.normalized@),
            r.time_window == window_in(tok.normalized@, now as int),
    {
        let text = tok.normalized.as_str();
        let entities = self.extract_entities(text);
        let time_window = self.derive_time_window(text, now);
        EventFeatures { entities, time_window }
    }

    fn extract_entities(&self, text: &str) -> (r: Vec<Entity>)
        requires
            self.wf(),
        ensures
            entity_values(r@) == entities_in(self.patterns(), self.labels(), text@),
    {
        match find_pattern_matches(&self.patterns, text) {
            None => {
                let entities: Vec<Entity> = Vec::new();
                assert(entity_values(entities@) =~= Seq::empty());
                entities
            },
            Some(ids) => entities_for_matches(&ids, &self.labels),
        }
    }

    fn derive_time_window(&self, text: &str, now: i64) -> (r: Option<TimeWindow>)
        ensures
            r == window_in(text@, now as int),
    {
        match regex_find_all(DATE_PHRASE_PATTERN, text) {
            None => None,
            Some(phrases) => window_of_phrases(&phrases, now),
        }
    }
}

/// The entities named by successive pattern matches: the label of each
/// matched pattern, in match order.
pub fn entities_for_matches(ids: &Vec<usize>, labels: &Vec<String>) -> (r: Vec<Entity>)
    requires
        forall|j: int| 0 <= j < ids.len() ==> ids@[j] < labels.len(),
    ensures
        entity_values(r@) == labels_of(ids@, views(labels@)),
{
    let mut entities: Vec<Entity> = Vec::new();
    let mut i: usize = 0;
    while i < ids.len()
        invariant
            0 <= i <= ids.len(),
            entities.len() == i,
            forall|j: int| 0 <= j < ids.len() ==> ids@[j] < labels.len(),
            entity_values(entities@) =~= labels_of(ids@.take(i as int), views(labels@)),
        decreases ids.len() - i,
    {
        let label = labels[ids[i]].clone();
        assert(label@ == views(labels@)[ids@[i as int] as int]);
        let ghost before = entities@;
        entities.push(Entity { value: label });
        assert(entities@ =~= before.push(Entity { value: label }));
        assert(ids@.take(i + 1) =~= ids@.take(i as int).push(ids@[i as int]));
        assert forall|k: int| 0 <= k < i + 1 implies entity_values(entities@)[k]
            == labels_of(ids@.take(i + 1), views(labels@))[k] by {
            if k < i {
                assert(entity_values(before)[k] == labels_of(ids@.take(i as int), views(labels@))[k]);
                assert(entities@[k] == before[k]);
            } else {
                assert(entities@[k] == Entity { value: label });
                assert(ids@.take(i + 1)[k] == ids@[i as int]);
            }
        }
        assert(entity_values(entities@) =~= labels_of(ids@.take(i + 1), views(labels@)));
        i = i + 1;
    }
    assert(ids@.take(ids.len() as int) =~= ids@);
    entities
}

/// The window of the first phrase, in order, that designates one.
pub fn window_of_phrases(phrases: &Vec<String>, now: i64) -> (r: Option<TimeWindow>)
    ensures
        r == first_window(views(phrases@), now as int),
{
    let ghost ps = views(phrases@);
    let mut i: usize = 0;
    assert(ps.skip(0) =~= ps);
    while i < phrases.len()
        invariant
            0 <= i <= phrases.len(),
            ps == views(phrases@),
            first_window(ps, now as int) == first_window(ps.skip(i as int), now as int),
        decreases phrases.len() - i,
    {
        assert(ps.skip(i as int).drop_first() =~= ps.skip(i + 1));
        assert(ps.skip(i as int)[0] == phrases@[i as int]@);
        let w = map_phrase_to_window(phrases[i].as_str(), now);
        if w.is_some() {
            return w;
        }
        i = i + 1;
    }
    assert(ps.skip(i as int).len() == 0);
    None
}

} // verus!
