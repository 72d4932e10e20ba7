use vstd::prelude::*;

use crate::cache::MarketCache;
use crate::text::text_eq;
use crate::types::{EdgedCandidate, RawCandidate, TradeSide, UNIT};

verus! {

/// Belief threshold: a candidate is kept only above this probability.
pub const BELIEF_THRESHOLD: i64 = 600_000;

/// Direction that the scoring oracle reads into a news item for a market.
#[derive(Clone, Copy, Debug, PartialEq, Eq, Structural)]
pub enum Sentiment {
    Positive,
    Negative,
    Neutral,
}

/// The oracle's answer; confidence in millionths.
#[derive(Clone, Copy, Debug, PartialEq, Eq, Structural)]
pub struct Signal {
    pub sentiment: Sentiment,
    pub confidence: i64,
}

/// `Positive` and `Negative` by name; anything else is neutral.
pub open spec fn sentiment_of(s: Seq<char>) -> Sentiment {
    if s == "Positive"@ {
        Sentiment::Positive
    } else if s == "Negative"@ {
        Sentiment::Negative
    } else {
        Sentiment::Neutral
    }
}

/// Reads the oracle's sentiment label.
pub fn parse_sentiment(s: &str) -> (r: Sentiment)
    ensures
        r == sentiment_of(s@),
{
    if text_eq(s, "Positive") {
        Sentiment::Positive
    } else if text_eq(s, "Negative") {
        Sentiment::Negative
    } else {
        Sentiment::Neutral
    }
}

pub open spec fn clamp_unit(x: int) -> int {
    if x < 0 {
        0
    } else if x > UNIT {
        UNIT as int
    } else {
        x
    }
}

/// Side and probability that a signal stands for: a positive signal buys
/// Yes and a negative one buys No, each with probability `0.5 + 0.5 *
/// confidence` (confidence clamped to `[0, 1]`); a neutral one buys Yes at 0.5.
pub open spec fn belief(sig: Signal) -> (TradeSide, int) {
    let half = UNIT as int / 2;
    match sig.sentiment {
        Sentiment::Positive => (TradeSide::BuyYes, half + clamp_unit(sig.confidence as int) / 2),
        Sentiment::Negative => (TradeSide::BuyNo, half + clamp_unit(sig.confidence as int) / 2),
        Sentiment::Neutral => (TradeSide::BuyYes, half),
    }
}

/// Mid price of a market: the midpoint of best bid and best ask of its
/// snapshot, or 0.5 without one.
pub open spec fn mid_price(cache: MarketCache, id: Seq<char>) -> int {
    match cache.get_spec(id) {
        Some(s) => (s.best_bid as int + s.best_ask as int) / 2,
        None => UNIT as int / 2,
    }
}

/// The edged candidate that a signal makes of a candidate, if its belief
/// clears the threshold (and the edge is representable).
pub open spec fn edged_for(c: RawCandidate, sig: Signal, cache: MarketCache) -> Option<EdgedCandidate> {
    let (side, p) = belief(sig);
    let m = mid_price(cache, c.market_id@);
    if p > BELIEF_THRESHOLD && i64::MIN <= p - m <= i64::MAX {
        Some(
            EdgedCandidate {
                candidate: c,
                side,
                score: p as i64,
                probability: p as i64,
                market_price: m as i64,
                edge: (p - m) as i64,
            },
        )
    } else {
        None
    }
}

/// The question of a cached market, or a fallback label.
pub fn market_question(cache: &MarketCache, id: &String) -> (r: String)
    requires
        cache.wf(),
    ensures
        cache.get_spec(id@) matches Some(s) ==> r@ == s.question@,
        cache.get_spec(id@) is None ==> r@ == "Unknown Market Question"@,
{
    match cache.get(id) {
        Some(s) => s.question.clone(),
        None => "Unknown Market Question".to_string(),
    }
}

/// Mid price of a market from the cache.
pub fn market_price(cache: &MarketCache, id: &String) -> (r: i64)
    requires
        cache.wf(),
    ensures
        r == mid_price(*cache, id@),
{
    match cache.get(id) {
        Some(s) => {
            let sum: i128 = s.best_bid as i128 + s.best_ask as i128;
            sum.checked_div_euclid(2).unwrap() as i64
        },
        None => UNIT / 2,
    }
}

/// Turns one oracle signal on a candidate into an edged candidate, if its
/// belief clears the threshold; the edge is the belief less the mid price.
pub fn edge_candidate(c: RawCandidate, sig: Signal, cache: &MarketCache) -> (r: Option<EdgedCandidate>)
    requires
        cache.wf(),
    ensures
        r == edged_for(c, sig, *cache),
        r matches Some(e) ==> e.edge == e.probability - e.market_price && BELIEF_THRESHOLD
            < e.probability <= UNIT,
{
    let conf: i64 = if sig.confidence < 0 {
        0
    } else if sig.confidence > UNIT {
        UNIT
    } else {
        sig.confidence
    };
    let (side, p) = match sig.sentiment {
        Sentiment::Positive => (TradeSide::BuyYes, UNIT / 2 + conf / 2),
        Sentiment::Negative => (TradeSide::BuyNo, UNIT / 2 + conf / 2),
        Sentiment::Neutral => (TradeSide::BuyYes, UNIT / 2),
    };
    let m = market_price(cache, &c.market_id);
    let edge: i128 = p as i128 - m as i128;
    if p > BELIEF_THRESHOLD && i64::MIN as i128 <= edge && edge <= i64::MAX as i128 {
        Some(EdgedCandidate { candidate: c, side, score: p, probability: p, market_price: m, edge: edge as i64 })
    } else {
        None
    }
}

/// The edged candidates of the first `n` candidates, given the oracle's
/// answer on each (none where the oracle failed), in candidate order.
pub open spec fn edged_all(cs: Seq<RawCandidate>, sigs: Seq<Option<Signal>>, cache: MarketCache) -> Seq<
    EdgedCandidate,
>
    decreases cs.len(),
{
    if cs.len() == 0 {
        Seq::empty()
    } else {
        let rest = edged_all(cs.drop_last(), sigs, cache);
        let i = cs.len() - 1;
        if i < sigs.len() {
            match sigs[i] {
                Some(sig) => match edged_for(cs[i], sig, cache) {
                    Some(e) => rest.push(e),
                    None => rest,
                },
                None => rest,
            }
        } else {
            rest
        }
    }
}

/// Scores retrieved candidates through the oracle's signals.
pub struct MarketAnalyst {
    pub top_candidates: usize,
}

impl MarketAnalyst {
    pub fn new(top_candidates: usize) -> (r: MarketAnalyst)
        ensures
            r.top_candidates == top_candidates,
    {
        MarketAnalyst { top_candidates }
    }

    /// The edged candidates among the first `top_candidates` candidates;
    /// `signals[i]` is the oracle's answer on candidate `i`, none where the
    /// oracle failed (that candidate is dropped).
    pub fn analyze_candidates(
        &self,
        candidates: &Vec<RawCandidate>,
        cache: &MarketCache,
        signals: &Vec<Option<Signal>>,
    ) -> (r: Vec<EdgedCandidate>)
        requires
            cache.wf(),
        ensures
            r@ == edged_all(
                candidates@.take(
                    if candidates.len() < self.top_candidates {
                        candidates.len() as int
                    } else {
                        self.top_candidates as int
                    },
                ),
                signals@,
                *cache,
            ),
            forall|k: int|
                0 <= k < r.len() ==> (#[trigger] r@[k]).edge == r@[k].probability - r@[k].market_price
                    && BELIEF_THRESHOLD < r@[k].probability <= UNIT,
    {
        let n: usize = if candidates.len() < self.top_candidates {
            candidates.len()
        } else {
            self.top_candidates
        };
        let mut out: Vec<EdgedCandidate> = Vec::new();
        let mut i: usize = 0;
        while i < n
            invariant
                cache.wf(),
                n <= candidates.len(),
                0 <= i <= n,
                out@ == edged_all(candidates@.take(i as int), signals@, *cache),
                forall|k: int|
                    0 <= k < out.len() ==> (#[trigger] out@[k]).edge == out@[k].probability
                        - out@[k].market_price && BELIEF_THRESHOLD < out@[k].probability <= UNIT,
            decreases n - i,
        {
            assert(candidates@.take(i + 1).drop_last() =~= candidates@.take(i as int));
            assert(candidates@.take(i + 1)[i as int] == candidates@[i as int]);
            if i < signals.len() {
                match signals[i] {
                    Some(sig) => {
                        match edge_candidate(candidates[i].copied(), sig, cache) {
                            Some(e) => {
                                out.push(e);
                            },
                            None => {},
                        }
                    },
                    None => {},
                }
            }
            i = i + 1;
        }
        out
    }
}

} // verus!
