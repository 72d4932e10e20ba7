use vstd::prelude::*;

use crate::analyst::{edged_all, market_question, MarketAnalyst, Signal};
use crate::cache::MarketCache;
use crate::canonical::{distinct, domain_of, effective_window, kind_of, location_of, opt_view, CanonicalEvent, CanonicalEventBuilder};
use crate::dedup::{fingerprint, ExactDuplicateDetector, DEFAULT_DEDUP_CAPACITY};
use crate::features::{entities_in, window_in, EventFeatureExtractor};
use crate::filter::{passing, HardFilterer};
use crate::index::{is_record_of, with_record, MarketRecord, MAX_MARKETS, too_many_terms, indexed, lemma_with_record_keeps, is_lexical_result, is_semantic_result, IndexError, MarketIndex};
use crate::kelly::{kelly_for, sizing, KellySizer};
use crate::orders::{
    build_orders, emitting, is_order_for, lemma_emitting_from, lemma_notional_le, lists_tokens,
};
use crate::rank::{is_top_k, top_k};
use crate::simhash::{is_simhash, SimHashCache, DEFAULT_SIMHASH_CAPACITY, DEFAULT_SIMHASH_THRESHOLD};
use crate::tokenize::{
    is_normalization, kept_words, news_text, split_words, views, TokenizationConfig, TokenizedNews,
};
use crate::types::{
    Execution, MarketDataSnap, Order, PolyMarketEvent, PolyMarketMarket, RawCandidate, RawNews,
    SizedDecision,
};

verus! {

/// Markets taken from lexical retrieval per news item.
pub const TOP_K_LEXICAL: usize = 50;

/// Markets taken from semantic retrieval per news item.
pub const TOP_K_SEMANTIC: usize = 50;

/// Candidates scored per news item.
pub const TOP_CANDIDATES: usize = 5;

/// Outcome of the synchronous front of the news pipeline.
#[derive(Clone, Debug)]
pub enum NewsStep {
    /// The item repeats a remembered one exactly.
    Duplicate,
    /// The item is a near-duplicate of a remembered one.
    NearDuplicate,
    /// The best filtered candidates, to be priced and scored.
    Candidates(Vec<RawCandidate>),
}

pub open spec fn ids_of(cs: Seq<RawCandidate>) -> Seq<Seq<char>> {
    cs.map_values(|c: RawCandidate| c.market_id@)
}

/// Union of two candidate lists keyed by market id: all of `a`, then those
/// of `b` whose market is not yet listed, first seen kept.
pub open spec fn union_first(a: Seq<RawCandidate>, b: Seq<RawCandidate>) -> Seq<RawCandidate>
    decreases b.len(),
{
    if b.len() == 0 {
        a
    } else {
        let m = union_first(a, b.drop_last());
        if ids_of(m).contains(b.last().market_id@) {
            m
        } else {
            m.push(b.last())
        }
    }
}

/// The ids of `cs` that the cache lacks, in order.
pub open spec fn missing_ids(cs: Seq<RawCandidate>, cache: MarketCache) -> Seq<Seq<char>>
    decreases cs.len(),
{
    if cs.len() == 0 {
        Seq::empty()
    } else if cache.get_spec(cs.last().market_id@) is Some {
        missing_ids(cs.drop_last(), cache)
    } else {
        missing_ids(cs.drop_last(), cache).push(cs.last().market_id@)
    }
}

/// Question and description under which a market of an event is indexed:
/// the market's own, else the event's, else empty.
pub open spec fn poly_question(e: PolyMarketEvent, m: PolyMarketMarket) -> Seq<char> {
    match m.question {
        Some(q) => q@,
        None => match e.title {
            Some(t) => t@,
            None => Seq::empty(),
        },
    }
}

pub open spec fn poly_description(e: PolyMarketEvent, m: PolyMarketMarket) -> Seq<char> {
    match m.description {
        Some(d) => d@,
        None => match e.description {
            Some(d) => d@,
            None => Seq::empty(),
        },
    }
}

/// One market of an event indexed into the records `rs`, giving `ts`: a
/// market with an empty question, too many terms, or no room left (being
/// new to a full index) leaves the records as they are; any other puts in
/// its record (see [`with_record`]).
pub open spec fn poly_step(
    rs: Seq<MarketRecord>,
    ts: Seq<MarketRecord>,
    e: PolyMarketEvent,
    m: PolyMarketMarket,
    cfg: TokenizationConfig,
) -> bool {
    let q = poly_question(e, m);
    let d = poly_description(e, m);
    if q.len() == 0 || too_many_terms(q, d, Seq::empty(), cfg) || (!indexed(rs, m.id@) && rs.len()
        >= MAX_MARKETS) {
        ts == rs
    } else {
        exists|rec: MarketRecord|
            is_record_of(rec, m.id@, q, d, Seq::empty(), None, cfg) && ts == with_record(rs, rec)
    }
}

/// The markets `ms` of an event indexed in order into `rs`, giving `ts`
/// (a later market of the same id wins).
pub open spec fn poly_fold(
    rs: Seq<MarketRecord>,
    ts: Seq<MarketRecord>,
    e: PolyMarketEvent,
    ms: Seq<PolyMarketMarket>,
    cfg: TokenizationConfig,
) -> bool
    decreases ms.len(),
{
    if ms.len() == 0 {
        ts == rs
    } else {
        exists|mid: Seq<MarketRecord>|
            poly_fold(rs, mid, e, ms.drop_last(), cfg) && #[trigger] poly_step(mid, ts, e, ms.last(), cfg)
    }
}

fn first_or<'a>(a: &'a Option<String>, b: &'a Option<String>) -> (r: &'a str)
    ensures
        r@ == match *a {
            Some(x) => x@,
            None => match *b {
                Some(y) => y@,
                None => Seq::<char>::empty(),
            },
        },
{
    proof {
        reveal_strlit("");
    }
    match a {
        Some(x) => x.as_str(),
        None => match b {
            Some(y) => y.as_str(),
            None => "",
        },
    }
}

/// Orchestrates deduplication, retrieval, filtering, scoring, sizing and
/// order synthesis for each news item.
pub struct StrategyActor {
    pub detector: ExactDuplicateDetector,
    pub sim_hash_cache: SimHashCache,
    pub event_feature_extractor: EventFeatureExtractor,
    pub market_index: MarketIndex,
    pub hard_filterer: HardFilterer,
    pub canonical_builder: CanonicalEventBuilder,
    pub kelly_sizer: KellySizer,
    pub analyst: MarketAnalyst,
    pub market_data_cache: MarketCache,
    /// Base capital, millionths.
    pub bankroll: i64,
    pub tokenization: TokenizationConfig,
}

/// The retrieval scores of candidates.
pub open spec fn scores_of(cs: Seq<RawCandidate>) -> Seq<i64> {
    cs.map_values(|c: RawCandidate| c.score)
}

/// `v` lists the candidates of `f` at positions `ix`.
pub open spec fn picks(v: Seq<RawCandidate>, f: Seq<RawCandidate>, ix: Seq<usize>) -> bool {
    &&& v.len() == ix.len()
    &&& forall|k: int| 0 <= k < v.len() ==> ix[k] < f.len() && #[trigger] v[k] == f[ix[k] as int]
}

/// `n` is the normalised text of the news item under the strategy's
/// tokenisation and `h` the SimHash of its tokens.
pub open spec fn news_hash(a: StrategyActor, news: RawNews, n: Seq<char>, h: u64) -> bool {
    &&& is_normalization(news_text(news), n, a.tokenization.lowercase, a.tokenization.strip_punct)
    &&& is_simhash(h, news_tokens(a, n))
}

/// The tokens of a normalised text under the strategy's tokenisation.
pub open spec fn news_tokens(a: StrategyActor, n: Seq<char>) -> Seq<Seq<char>> {
    kept_words(split_words(n), a.tokenization.min_token_len as nat, views(a.tokenization.stop_words@))
}

/// `v` is what the front of the pipeline hands on for a fresh news item:
/// with `n` its normalised text, the union of lexical retrieval on its
/// tokens and semantic retrieval on its title, pruned by the hard filter
/// against the entities and time window of `n` at `now`, and of those the
/// best by retrieval score.
pub open spec fn news_candidates(a: StrategyActor, news: RawNews, now: int, v: Seq<RawCandidate>) -> bool {
    exists|n: Seq<char>, l: Seq<RawCandidate>, s: Seq<RawCandidate>, ix: Seq<usize>|
        {
            &&& is_normalization(news_text(news), n, a.tokenization.lowercase, a.tokenization.strip_punct)
            &&& is_lexical_result(a.market_index, news_tokens(a, n), TOP_K_LEXICAL as nat, l)
            &&& is_semantic_result(a.market_index, news.title@, TOP_K_SEMANTIC as nat, s)
            &&& is_top_k(scores_of(filtered_for(a, n, now, l, s)), TOP_CANDIDATES as nat, ix)
            &&& #[trigger] picks(v, filtered_for(a, n, now, l, s), ix)
        }
}

/// Retrieved candidates `union_first(l, s)` that pass the hard filter
/// against the entities and time window of the normalised text `n`.
pub open spec fn filtered_for(a: StrategyActor, n: Seq<char>, now: int, l: Seq<RawCandidate>, s: Seq<RawCandidate>) -> Seq<RawCandidate> {
    passing(
        union_first(l, s),
        entities_in(a.event_feature_extractor.patterns(), a.event_feature_extractor.labels(), n),
        window_in(n, now),
    )
}

/// Union of two candidate lists keyed by market id (see [`union_first`]).
pub fn union_by_id(first: Vec<RawCandidate>, second: &Vec<RawCandidate>) -> (r: Vec<RawCandidate>)
    ensures
        r@ == union_first(first@, second@),
{
    let ghost a = first@;
    let mut out = first;
    let mut i: usize = 0;
    while i < second.len()
        invariant
            0 <= i <= second.len(),
            out@ == union_first(a, second@.take(i as int)),
        decreases second.len() - i,
    {
        assert(second@.take(i + 1).drop_last() =~= second@.take(i as int));
        assert(second@.take(i + 1).last() == second@[i as int]);
        let c = &second[i];
        let mut found = false;
        let mut j: usize = 0;
        while j < out.len()
            invariant
                0 <= j <= out.len(),
                found == exists|k: int| 0 <= k < j && (#[trigger] out@[k]).market_id@ == c.market_id@,
            decreases out.len() - j,
        {
            if out[j].market_id == c.market_id {
                found = true;
            }
            j = j + 1;
        }
        assert(found == ids_of(out@).contains(c.market_id@)) by {
            if found {
                let k = choose|k: int| 0 <= k < out.len() && (#[trigger] out@[k]).market_id@ == c.market_id@;
                assert(ids_of(out@)[k] == c.market_id@);
            }
            if ids_of(out@).contains(c.market_id@) {
                let k = choose|k: int| 0 <= k < ids_of(out@).len() && ids_of(out@)[k] == c.market_id@;
                assert(out@[k].market_id@ == c.market_id@);
            }
        }
        if !found {
            out.push(c.copied());
        }
        i = i + 1;
    }
    assert(second@.take(second.len() as int) =~= second@);
    out
}

impl StrategyActor {
    pub open spec fn wf(&self) -> bool {
        &&& self.detector.wf()
        &&& self.detector.capacity_spec() > 0
        &&& self.sim_hash_cache.wf()
        &&& self.event_feature_extractor.wf()
        &&& self.market_index.wf()
        &&& self.market_data_cache.wf()
    }

    /// A strategy with the default components and the given bankroll (millionths).
    pub fn new(bankroll: i64) -> (r: StrategyActor)
        ensures
            r.wf(),
            r.bankroll == bankroll,
            r.detector.seen().len() == 0,
            r.sim_hash_cache.stored().len() == 0,
            r.market_index.records_spec().len() == 0,
            forall|id: Seq<char>| r.market_data_cache.get_spec(id) is None,
            r.analyst.top_candidates == TOP_CANDIDATES,
            r.kelly_sizer.max_fraction_per_trade == crate::kelly::DEFAULT_MAX_FRACTION_PER_TRADE,
            r.detector.capacity_spec() == DEFAULT_DEDUP_CAPACITY,
            r.sim_hash_cache.threshold_spec() == DEFAULT_SIMHASH_THRESHOLD,
            r.sim_hash_cache.capacity_spec() == DEFAULT_SIMHASH_CAPACITY,
            r.tokenization.lowercase && r.tokenization.strip_punct && r.tokenization.min_token_len == 1,
            views(r.tokenization.stop_words@) == crate::tokenize::default_stop_words(),
            r.event_feature_extractor.patterns() == crate::features::default_entity_pairs().map_values(
                |p: (Seq<char>, Seq<char>)| p.0,
            ),
            r.event_feature_extractor.labels() == crate::features::default_entity_pairs().map_values(
                |p: (Seq<char>, Seq<char>)| p.1,
            ),
    {
        StrategyActor {
            detector: ExactDuplicateDetector::new(DEFAULT_DEDUP_CAPACITY),
            sim_hash_cache: SimHashCache::new(DEFAULT_SIMHASH_THRESHOLD, DEFAULT_SIMHASH_CAPACITY),
            event_feature_extractor: EventFeatureExtractor::with_default_dicts(),
            market_index: MarketIndex::new(),
            hard_filterer: HardFilterer::new(),
            canonical_builder: CanonicalEventBuilder::new(),
            kelly_sizer: KellySizer::default_sizer(),
            analyst: MarketAnalyst::new(TOP_CANDIDATES),
            market_data_cache: MarketCache::new(),
            bankroll,
            tokenization: TokenizationConfig::default_config(),
        }
    }

    /// Records a market-data snapshot; rebalancing is not decided here, so no order.
    pub fn decide_from_tick(&mut self, snap: MarketDataSnap) -> (r: Option<Order>)
        requires
            old(self).wf(),
        ensures
            final(self).wf(),
            r is None,
            final(self).market_data_cache.get_spec(snap.market_id@) == Some(snap),
            forall|id: Seq<char>|
                id != snap.market_id@ ==> #[trigger] final(self).market_data_cache.get_spec(id)
                    == old(self).market_data_cache.get_spec(id),
            final(self).detector == old(self).detector,
            final(self).market_index == old(self).market_index,
            final(self).bankroll == old(self).bankroll,
    {
        self.market_data_cache.insert(snap);
        None
    }

    /// Executions update no position here, so no order.
    pub fn decide_from_executions(&mut self, execution: &Execution) -> (r: Option<Order>)
        ensures
            r is None,
            *final(self) == *old(self),
    {
        None
    }

    /// Indexes one market of an event under its question (or the event's
    /// title) and description (or the event's); a market with an empty
    /// question is skipped.
    pub fn index_poly_market(&mut self, event: &PolyMarketEvent, market: &PolyMarketMarket) -> (r:
        Result<(), IndexError>)
        requires
            old(self).wf(),
        ensures
            final(self).wf(),
            final(self).market_data_cache == old(self).market_data_cache,
            final(self).detector == old(self).detector,
            final(self).bankroll == old(self).bankroll,
            final(self).market_index.config() == old(self).market_index.config(),
            poly_step(
                old(self).market_index.records_spec(),
                final(self).market_index.records_spec(),
                *event,
                *market,
                old(self).market_index.config(),
            ),
            poly_question(*event, *market).len() == 0 ==> r is Ok && final(self).market_index
                == old(self).market_index,
            poly_question(*event, *market).len() > 0 && r is Ok ==> exists|rec: crate::index::MarketRecord|
                crate::index::is_record_of(
                    rec,
                    market.id@,
                    poly_question(*event, *market),
                    poly_description(*event, *market),
                    Seq::empty(),
                    None,
                    old(self).market_index.config(),
                ) && final(self).market_index.records_spec() == crate::index::with_record(
                    old(self).market_index.records_spec(),
                    rec,
                ),
            r is Err ==> final(self).market_index.records_spec() == old(self).market_index.records_spec(),
            forall|id: Seq<char>|
                indexed(old(self).market_index.records_spec(), id) ==> #[trigger] indexed(
                    final(self).market_index.records_spec(),
                    id,
                ),
            final(self).market_index.records_spec().len() >= old(self).market_index.records_spec().len(),
            poly_question(*event, *market).len() > 0 && r is Ok ==> indexed(
                final(self).market_index.records_spec(),
                market.id@,
            ),
            poly_question(*event, *market).len() > 0 ==> (r == Err::<(), IndexError>(
                IndexError::TooManyTerms,
            )) == too_many_terms(
                poly_question(*event, *market),
                poly_description(*event, *market),
                Seq::empty(),
                old(self).market_index.config(),
            ),
            poly_question(*event, *market).len() > 0 ==> (r == Err::<(), IndexError>(IndexError::Full))
                == (!too_many_terms(
                poly_question(*event, *market),
                poly_description(*event, *market),
                Seq::empty(),
                old(self).market_index.config(),
            ) && !indexed(old(self).market_index.records_spec(), market.id@)
                && old(self).market_index.records_spec().len() >= crate::index::MAX_MARKETS),
    {
        let question = first_or(&market.question, &event.title);
        let description = first_or(&market.description, &event.description);
        if question.unicode_len() == 0 {
            return Ok(());
        }
        proof {
            reveal_strlit("");
            assert(""@ =~= Seq::<char>::empty());
        }
        let r = self.market_index.add_market(market.id.as_str(), question, description, "", None);
        proof {
            if r is Ok {
                let rec = choose|rec: crate::index::MarketRecord|
                    crate::index::is_record_of(
                        rec,
                        market.id@,
                        question@,
                        description@,
                        ""@,
                        None,
                        old(self).market_index.config(),
                    ) && self.market_index.records_spec() == crate::index::with_record(
                        old(self).market_index.records_spec(),
                        rec,
                    );
                assert forall|id: Seq<char>|
                    indexed(old(self).market_index.records_spec(), id) implies #[trigger] indexed(
                        self.market_index.records_spec(),
                        id,
                    ) by {
                    lemma_with_record_keeps(old(self).market_index.records_spec(), rec, id);
                }
                lemma_with_record_keeps(old(self).market_index.records_spec(), rec, market.id@);
                assert(""@ == Seq::<char>::empty());
                assert(is_record_of(rec, market.id@, poly_question(*event, *market), poly_description(*event, *market), Seq::empty(), None, old(self).market_index.config()));
            } else {
                match r {
                    Err(IndexError::TooManyTerms) => {},
                    Err(IndexError::Full) => {},
                    Ok(_) => {},
                }
            }
        }
        r
    }

    /// Indexes the markets of a metadata event in order (see
    /// [`StrategyActor::index_poly_market`] and [`poly_fold`]); such events
    /// never trade, and the index never shrinks.
    pub fn decide_from_poly_event(&mut self, event: &PolyMarketEvent) -> (r: Option<Order>)
        requires
            old(self).wf(),
        ensures
            final(self).wf(),
            r is None,
            match event.markets {
                Some(ms) => poly_fold(
                    old(self).market_index.records_spec(),
                    final(self).market_index.records_spec(),
                    *event,
                    ms@,
                    old(self).market_index.config(),
                ),
                None => final(self).market_index.records_spec() == old(self).market_index.records_spec(),
            },
            final(self).market_index.config() == old(self).market_index.config(),
            forall|id: Seq<char>|
                indexed(old(self).market_index.records_spec(), id) ==> #[trigger] indexed(
                    final(self).market_index.records_spec(),
                    id,
                ),
            final(self).market_data_cache == old(self).market_data_cache,
            final(self).detector == old(self).detector,
            final(self).bankroll == old(self).bankroll,
    {
        match &event.markets {
            None => None,
            Some(markets) => {
                let ghost rs0 = self.market_index.records_spec();
                let ghost cfg = self.market_index.config();
                let mut i: usize = 0;
                assert(markets@.take(0) =~= Seq::<PolyMarketMarket>::empty());
                while i < markets.len()
                    invariant
                        self.wf(),
                        0 <= i <= markets.len(),
                        rs0 == old(self).market_index.records_spec(),
                        cfg == old(self).market_index.config(),
                        self.market_index.config() == cfg,
                        poly_fold(rs0, self.market_index.records_spec(), *event, markets@.take(i as int), cfg),
                        self.market_data_cache == old(self).market_data_cache,
                        self.detector == old(self).detector,
                        self.bankroll == old(self).bankroll,
                        forall|id: Seq<char>|
                            indexed(old(self).market_index.records_spec(), id) ==> #[trigger] indexed(
                                self.market_index.records_spec(),
                                id,
                            ),
                    decreases markets.len() - i,
                {
                    let ghost mid = self.market_index.records_spec();
                    let _ = self.index_poly_market(event, &markets[i]);
                    proof {
                        let ms = markets@.take(i + 1);
                        assert(ms.drop_last() =~= markets@.take(i as int));
                        assert(ms.last() == markets@[i as int]);
                        assert(poly_fold(rs0, mid, *event, ms.drop_last(), cfg));
                        assert(poly_step(mid, self.market_index.records_spec(), *event, ms.last(), cfg));
                        assert(poly_fold(rs0, self.market_index.records_spec(), *event, ms, cfg));
                    }
                    i = i + 1;
                }
                assert(markets@.take(markets.len() as int) =~= markets@);
                None
            },
        }
    }

    /// Union of lexical retrieval on the tokens and semantic retrieval on
    /// the title, keyed by market id, lexical results first.
    pub fn retrieve_candidates(&self, tokens: &Vec<String>, raw_text: &str) -> (r: Vec<RawCandidate>)
        requires
            self.wf(),
        ensures
            exists|a: Seq<RawCandidate>, b: Seq<RawCandidate>|
                is_lexical_result(self.market_index, views(tokens@), TOP_K_LEXICAL as nat, a)
                    && is_semantic_result(self.market_index, raw_text@, TOP_K_SEMANTIC as nat, b)
                    && r@ == union_first(a, b),
    {
        let lexical = self.market_index.search(tokens, TOP_K_LEXICAL);
        let semantic = self.market_index.search_semantic(raw_text, TOP_K_SEMANTIC);
        let ghost a = lexical@;
        let ghost b = semantic@;
        let out = union_by_id(lexical, &semantic);
        assert(is_lexical_result(self.market_index, views(tokens@), TOP_K_LEXICAL as nat, a)
            && is_semantic_result(self.market_index, raw_text@, TOP_K_SEMANTIC as nat, b)
            && out@ == union_first(a, b));
        out
    }

    /// The front of the news pipeline, up to the candidates that need prices
    /// and scores: exact dedup, tokenisation, near-duplicate dedup (a new
    /// hash is remembered), feature extraction at `now`, retrieval, hard
    /// filtering, and the best [`TOP_CANDIDATES`] by retrieval score.
    #[verifier::rlimit(100)]
    pub fn begin_news(&mut self, news: &RawNews, now: i64) -> (r: NewsStep)
        requires
            old(self).wf(),
        ensures
            final(self).wf(),
            (r is Duplicate) == old(self).detector.seen().contains(fingerprint(*news)),
            final(self).detector.seen() == old(self).detector.after_check(*news),
            final(self).detector.capacity_spec() == old(self).detector.capacity_spec(),
            final(self).market_index == old(self).market_index,
            final(self).market_data_cache == old(self).market_data_cache,
            final(self).event_feature_extractor == old(self).event_feature_extractor,
            final(self).tokenization == old(self).tokenization,
            final(self).bankroll == old(self).bankroll,
            final(self).analyst == old(self).analyst,
            final(self).kelly_sizer == old(self).kelly_sizer,
            r is Duplicate ==> final(self).sim_hash_cache == old(self).sim_hash_cache,
            r is NearDuplicate ==> final(self).sim_hash_cache == old(self).sim_hash_cache
                && exists|n: Seq<char>, h: u64|
                news_hash(*old(self), *news, n, h) && old(self).sim_hash_cache.near(h),
            r is Candidates ==> exists|n: Seq<char>, h: u64|
                news_hash(*old(self), *news, n, h) && !old(self).sim_hash_cache.near(h)
                    && final(self).sim_hash_cache.stored() == crate::dedup::fifo_push(
                    old(self).sim_hash_cache.stored(),
                    h,
                    old(self).sim_hash_cache.capacity_spec(),
                ) && final(self).sim_hash_cache.threshold_spec() == old(self).sim_hash_cache.threshold_spec()
                    && final(self).sim_hash_cache.capacity_spec() == old(self).sim_hash_cache.capacity_spec(),
            r matches NewsStep::Candidates(v) ==> news_candidates(*old(self), *news, now as int, v@),
    {
        if self.detector.is_duplicate(news) {
            return NewsStep::Duplicate;
        }
        let tokenized = TokenizedNews::from_raw(news, &self.tokenization);
        let h = self.sim_hash_cache.sim_hash(&tokenized.tokens);
        let ghost n = tokenized.normalized@;
        assert(news_hash(*old(self), *news, n, h));
        if self.sim_hash_cache.is_near_duplicate(h) {
            return NewsStep::NearDuplicate;
        }
        self.sim_hash_cache.insert(h);
        let feat = self.event_feature_extractor.extract(&tokenized, now);
        let lexical = self.market_index.search(&tokenized.tokens, TOP_K_LEXICAL);
        let semantic = self.market_index.search_semantic(news.title.as_str(), TOP_K_SEMANTIC);
        let ghost l = lexical@;
        let ghost s = semantic@;
        let raw_candidates = union_by_id(lexical, &semantic);
        let filtered = self.hard_filterer.apply(raw_candidates, &feat.entities, &feat.time_window);
        let mut scores: Vec<i64> = Vec::new();
        let mut i: usize = 0;
        while i < filtered.len()
            invariant
                0 <= i <= filtered.len(),
                scores.len() == i,
                forall|k: int| 0 <= k < i ==> #[trigger] scores@[k] == filtered@[k].score,
            decreases filtered.len() - i,
        {
            scores.push(filtered[i].score);
            i = i + 1;
        }
        assert(scores@ =~= scores_of(filtered@));
        let best = top_k(&scores, TOP_CANDIDATES);
        let mut top: Vec<RawCandidate> = Vec::new();
        let mut j: usize = 0;
        while j < best.len()
            invariant
                0 <= j <= best.len(),
                best.len() <= TOP_CANDIDATES,
                scores.len() == filtered.len(),
                forall|k: int| 0 <= k < best.len() ==> (#[trigger] best@[k]) < scores.len(),
                top.len() == j,
                forall|k: int| 0 <= k < j ==> #[trigger] top@[k] == filtered@[best@[k] as int],
            decreases best.len() - j,
        {
            top.push(filtered[best[j]].copied());
            j = j + 1;
        }
        assert(picks(top@, filtered@, best@));
        proof {
            let a = *old(self);
            assert(filtered@ == filtered_for(a, n, now as int, l, s));
            assert(picks(top@, filtered_for(a, n, now as int, l, s), best@));
        }
        assert(news_candidates(*old(self), *news, now as int, top@));
        NewsStep::Candidates(top)
    }

    /// The canonical record of a news item at `now`: the builder's view of
    /// the entities and time window extracted from its normalised text.
    pub fn canonical_event(&self, news: &RawNews, now: i64) -> (r: CanonicalEvent)
        requires
            self.wf(),
        ensures
            exists|n: Seq<char>|
                {
                    let ls = entities_in(
                        self.event_feature_extractor.patterns(),
                        self.event_feature_extractor.labels(),
                        n,
                    );
                    &&& #[trigger] is_normalization(
                        news_text(*news),
                        n,
                        self.tokenization.lowercase,
                        self.tokenization.strip_punct,
                    )
                    &&& domain_of(ls) == r.domain
                    &&& r.kind == kind_of(ls)
                    &&& opt_view(r.primary_entity) == if ls.len() > 0 {
                        Some(ls[0])
                    } else {
                        None::<Seq<char>>
                    }
                    &&& r.secondary_entities@.map_values(|x: String| x@) == if ls.len() > 0 {
                        distinct(ls).drop_first()
                    } else {
                        Seq::<Seq<char>>::empty()
                    }
                    &&& opt_view(r.location) == location_of(ls)
                    &&& r.time_window == effective_window(window_in(n, now as int), news.published)
                },
    {
        let tokenized = TokenizedNews::from_raw(news, &self.tokenization);
        let feat = self.event_feature_extractor.extract(&tokenized, now);
        let r = self.canonical_builder.build(&feat, news.published);
        assert(domain_of(entities_in(self.event_feature_extractor.patterns(), self.event_feature_extractor.labels(), tokenized.normalized@)) == r.domain);
        r
    }

    /// Ids of the candidates without cached market data, in order; these are
    /// requested from the pricing service before scoring.
    pub fn missing_market_ids(&self, candidates: &Vec<RawCandidate>) -> (r: Vec<String>)
        requires
            self.market_data_cache.wf(),
        ensures
            views(r@) == missing_ids(candidates@, self.market_data_cache),
    {
        let mut out: Vec<String> = Vec::new();
        let mut i: usize = 0;
        while i < candidates.len()
            invariant
                self.market_data_cache.wf(),
                0 <= i <= candidates.len(),
                views(out@) == missing_ids(candidates@.take(i as int), self.market_data_cache),
            decreases candidates.len() - i,
        {
            assert(candidates@.take(i + 1).drop_last() =~= candidates@.take(i as int));
            assert(candidates@.take(i + 1).last() == candidates@[i as int]);
            if !self.market_data_cache.contains(&candidates[i].market_id) {
                let id = candidates[i].market_id.clone();
                out.push(id);
                assert(views(out@) =~= missing_ids(candidates@.take(i as int), self.market_data_cache).push(
                    id@,
                ));
            }
            i = i + 1;
        }
        assert(candidates@.take(candidates.len() as int) =~= candidates@);
        out
    }

    /// Whether market data is cached for every id.
    pub fn has_market_data(&self, ids: &Vec<String>) -> (r: bool)
        requires
            self.market_data_cache.wf(),
        ensures
            r == forall|k: int| 0 <= k < ids.len() ==> (#[trigger] self.market_data_cache.get_spec(ids@[k]@)) is Some,
    {
        let mut i: usize = 0;
        while i < ids.len()
            invariant
                self.market_data_cache.wf(),
                0 <= i <= ids.len(),
                forall|k: int| 0 <= k < i ==> (#[trigger] self.market_data_cache.get_spec(ids@[k]@)) is Some,
            decreases ids.len() - i,
        {
            if !self.market_data_cache.contains(&ids[i]) {
                return false;
            }
            i = i + 1;
        }
        true
    }

    /// The question put to the scoring oracle for a market.
    pub fn question_for(&self, id: &String) -> (r: String)
        requires
            self.market_data_cache.wf(),
        ensures
            self.market_data_cache.get_spec(id@) matches Some(s) ==> r@ == s.question@,
            self.market_data_cache.get_spec(id@) is None ==> r@ == "Unknown Market Question"@,
    {
        market_question(&self.market_data_cache, id)
    }

    /// Orders for sized decisions at the current bankroll (see [`build_orders`]).
    pub fn build_orders_from_sized_decisions(&self, sized: &[SizedDecision], now_micros: i64) -> (r:
        Vec<Order>)
        requires
            self.market_data_cache.wf(),
        ensures
            r.len() == emitting(sized@, self.market_data_cache, self.bankroll as int).len(),
            forall|k: int|
                0 <= k < r.len() ==> is_order_for(
                    #[trigger] r@[k],
                    emitting(sized@, self.market_data_cache, self.bankroll as int)[k],
                    self.market_data_cache,
                    self.bankroll as int,
                    now_micros as int,
                ),
            forall|k: int| 0 <= k < r.len() ==> (#[trigger] r@[k]).size > 0 && r@[k].price > 0,
            forall|k: int|
                0 <= k < r.len() && lists_tokens(self.market_data_cache, (#[trigger] r@[k]).market_id@)
                    ==> r@[k].token_id is Some,
    {
        build_orders(&self.market_data_cache, self.bankroll, sized, now_micros)
    }

    /// The back of the news pipeline: no order for a duplicate or a
    /// near-duplicate; otherwise the analyst turns the oracle's signals on
    /// the candidates into edged candidates, the sizer sizes them and each
    /// sized decision that gives one becomes an order. `signals[i]` answers
    /// for candidate `i`; `now_micros` stamps the order ids.
    pub fn finish_news(&self, step: &NewsStep, signals: &Vec<Option<Signal>>, now_micros: i64) -> (r:
        Vec<Order>)
        requires
            self.wf(),
        ensures
            !(step is Candidates) ==> r.len() == 0,
            step matches NewsStep::Candidates(v) ==> {
                let n = if v.len() < self.analyst.top_candidates {
                    v.len() as int
                } else {
                    self.analyst.top_candidates as int
                };
                let ds = sizing(
                    edged_all(v@.take(n), signals@, self.market_data_cache),
                    self.kelly_sizer.max_fraction_per_trade as int,
                ).0;
                &&& r.len() == emitting(ds, self.market_data_cache, self.bankroll as int).len()
                &&& forall|k: int|
                    0 <= k < r.len() ==> is_order_for(
                        #[trigger] r@[k],
                        emitting(ds, self.market_data_cache, self.bankroll as int)[k],
                        self.market_data_cache,
                        self.bankroll as int,
                        now_micros as int,
                    )
            },
            forall|k: int| 0 <= k < r.len() ==> (#[trigger] r@[k]).size > 0 && r@[k].price > 0,
            forall|k: int|
                0 <= k < r.len() && lists_tokens(self.market_data_cache, (#[trigger] r@[k]).market_id@)
                    ==> r@[k].token_id is Some,
            step matches NewsStep::Candidates(v) ==> {
                let n = if v.len() < self.analyst.top_candidates {
                    v.len() as int
                } else {
                    self.analyst.top_candidates as int
                };
                let ds = sizing(
                    edged_all(v@.take(n), signals@, self.market_data_cache),
                    self.kelly_sizer.max_fraction_per_trade as int,
                ).0;
                forall|k: int|
                    0 <= k < r.len() ==> {
                        let d = #[trigger] emitting(ds, self.market_data_cache, self.bankroll as int)[k];
                        &&& 0 < d.size_fraction <= d.kelly_fraction
                        &&& d.size_fraction <= self.kelly_sizer.max_fraction_per_trade
                        &&& d.kelly_fraction == kelly_for(
                            d.candidate.side,
                            d.candidate.probability as int,
                            d.candidate.market_price as int,
                        )
                        &&& r@[k].size as int * r@[k].price as int <= self.bankroll as int
                            * d.size_fraction as int
                    }
            },
    {
        match step {
            NewsStep::Candidates(v) => {
                let edged = self.analyst.analyze_candidates(v, &self.market_data_cache, signals);
                let sized = self.kelly_sizer.size_positions(edged);
                let r = self.build_orders_from_sized_decisions(sized.as_slice(), now_micros);
                proof {
                    let ds = sized@;
                    let b = self.bankroll as int;
                    assert forall|k: int| 0 <= k < r.len() implies {
                        let d = #[trigger] emitting(ds, self.market_data_cache, b)[k];
                        &&& 0 < d.size_fraction <= d.kelly_fraction
                        &&& d.size_fraction <= self.kelly_sizer.max_fraction_per_trade
                        &&& d.kelly_fraction == kelly_for(
                            d.candidate.side,
                            d.candidate.probability as int,
                            d.candidate.market_price as int,
                        )
                        &&& r@[k].size as int * r@[k].price as int <= b * d.size_fraction as int
                    } by {
                        let d = emitting(ds, self.market_data_cache, b)[k];
                        lemma_emitting_from(ds, self.market_data_cache, b, k);
                        let j = choose|j: int| 0 <= j < ds.len() && ds[j] == d;
                        assert(sized@[j] == d);
                        assert(is_order_for(r@[k], d, self.market_data_cache, b, now_micros as int));
                        lemma_notional_le(d, b);
                    }
                }
                r
            },
            _ => Vec::new(),
        }
    }
}

} // verus!
