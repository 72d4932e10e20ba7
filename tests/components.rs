use news_trader::canonical::{entity_class, CanonicalEventBuilder, Domain, EntityClass, EventKind};
use news_trader::features::{entities_for_matches, window_of_phrases};
use news_trader::oracle::strip_code_fences;
use news_trader::strategy::union_by_id;
use news_trader::analyst::{
    parse_sentiment, MarketAnalyst, Sentiment, Signal, BELIEF_THRESHOLD,
};
use news_trader::cache::MarketCache;
use news_trader::dedup::ExactDuplicateDetector;
use news_trader::features::{EventFeatureExtractor, FeatureDictionaries};
use news_trader::filter::{mentions_exec, HardFilterer};
use news_trader::index::{IndexError, MarketIndex};
use news_trader::kelly::KellySizer;
use news_trader::marketdata::{market_url, snapshot_from_response, SimMarketDataClient};
use news_trader::oracle::{clean_oracle_content, signal_from};
use news_trader::rank::top_k;
use news_trader::simhash::{hamming_distance, SimHashCache};
use news_trader::text::{eq_ignore_ascii_case, text_eq};
use news_trader::tokenize::{TokenizationConfig, TokenizedNews};
use news_trader::types::{EdgedCandidate, MarketDataSnap, RawCandidate, RawNews, TradeSide, UNIT};
use news_trader::window::{map_phrase_to_window, TimeWindow, DAY};

fn make_news(title: &str) -> RawNews {
    RawNews {
        title: title.to_string(),
        url: "http://example.com".to_string(),
        description: "".to_string(),
        feed: "test".to_string(),
        published: Some(chrono::Utc::now().timestamp()),
        labels: vec![],
    }
}

fn make_tokenized(text: &str) -> TokenizedNews {
    TokenizedNews::from_raw(&make_news(text), &TokenizationConfig::default_config())
}

#[test]
fn test_entity_extraction() {
    let extractor = EventFeatureExtractor::with_default_dicts();
    let now = chrono::Utc::now().timestamp();
    let tok = make_tokenized("Fed discuss inflation");
    let feat = extractor.extract(&tok, now);
    let values: Vec<String> = feat.entities.iter().map(|e| e.value.clone()).collect();
    assert!(values.contains(&"Fed".to_string()));
    assert!(values.contains(&"inflation".to_string()));
}

#[test]
fn test_time_window_phrase() {
    let extractor = EventFeatureExtractor::with_default_dicts();
    let now = chrono::Utc::now().timestamp();
    let tok = make_tokenized("Outlook for next week");
    let feat = extractor.extract(&tok, now);
    assert!(feat.time_window.is_some());
    let tw = feat.time_window.unwrap();
    assert!(tw.end > tw.start);
    assert!(tw.start > now);
}

#[test]
fn test_url_construction() {
    let market_id = "12345";
    let url = market_url("http://localhost/markets", market_id);
    assert_eq!(url, "http://localhost/markets/12345");
}

#[test]
fn tokenizer_normalizes_and_drops_stop_words() {
    let tok = make_tokenized("Fed HIKES rates, by 25 bps!");
    assert_eq!(tok.normalized, "fed hikes rates  by 25 bps  ");
    assert_eq!(tok.tokens, vec!["fed", "hikes", "rates", "25", "bps"]);
}

#[test]
fn tokenizer_is_deterministic() {
    let a = make_tokenized("Year-end outlook: ECB, Fed & BoJ");
    let b = make_tokenized("Year-end outlook: ECB, Fed & BoJ");
    assert_eq!(a.normalized, b.normalized);
    assert_eq!(a.tokens, b.tokens);
}

#[test]
fn tokenizer_handles_empty_text_and_min_length() {
    let empty = make_tokenized("");
    assert_eq!(empty.normalized, " ");
    assert!(empty.tokens.is_empty());
    let cfg = TokenizationConfig {
        lowercase: false,
        strip_punct: false,
        min_token_len: 3,
        stop_words: vec![],
    };
    let tok = TokenizedNews::from_raw(&make_news("Go UP now, ok"), &cfg);
    assert_eq!(tok.normalized, "Go UP now, ok ");
    assert_eq!(tok.tokens, vec!["now,"]);
}

#[test]
fn default_dictionary_has_all_surface_forms() {
    let d = FeatureDictionaries::default_minimal();
    assert_eq!(d.entities.len(), 17);
    assert!(d.entities.contains(&("fomc".to_string(), "Fed".to_string())));
}

#[test]
fn entities_keep_match_order_and_repeats() {
    let extractor = EventFeatureExtractor::new(FeatureDictionaries {
        entities: vec![("btc".to_string(), "BTC".to_string()), ("china".to_string(), "China".to_string())],
    });
    let tok = make_tokenized("China buys BTC, more btc");
    let feat = extractor.extract(&tok, 0);
    let values: Vec<String> = feat.entities.iter().map(|e| e.value.clone()).collect();
    assert_eq!(values, vec!["China", "BTC", "BTC"]);
    assert!(feat.time_window.is_none());
}

#[test]
fn first_time_phrase_wins() {
    let extractor = EventFeatureExtractor::with_default_dicts();
    // 2024-06-12 12:00:00 UTC, a Wednesday.
    let now = 1_718_193_600;
    let feat = extractor.extract(&make_tokenized("This week, then next month"), now);
    let monday = 1_717_977_600;
    let w = feat.time_window.unwrap();
    assert_eq!(w, TimeWindow { start: monday, end: monday + 7 * DAY - 1 });
}

#[test]
fn week_windows_are_iso_weeks() {
    // 2024-06-12 12:00:00 UTC is a Wednesday; its week starts Monday 2024-06-10.
    let now = 1_718_193_600;
    let monday = 1_717_977_600;
    let this = map_phrase_to_window("this week", now).unwrap();
    assert_eq!(this, TimeWindow { start: monday, end: monday + 7 * DAY - 1 });
    let next = map_phrase_to_window("next week", now).unwrap();
    assert_eq!(next, TimeWindow { start: monday + 7 * DAY, end: monday + 14 * DAY - 1 });
}

#[test]
fn month_and_year_windows() {
    // 2024-12-15 00:00:00 UTC.
    let now = 1_734_220_800;
    let this = map_phrase_to_window("this month", now).unwrap();
    assert_eq!(this, TimeWindow { start: 1_733_011_200, end: 1_735_689_599 });
    let next = map_phrase_to_window("next month", now).unwrap();
    assert_eq!(next, TimeWindow { start: 1_735_689_600, end: 1_738_367_999 });
    let ye = map_phrase_to_window("year-end", now).unwrap();
    assert_eq!(ye, TimeWindow { start: now, end: 1_735_689_599 });
    assert_eq!(map_phrase_to_window("year end", now), Some(ye));
}

#[test]
fn quarter_windows_have_a_week_of_slack() {
    // 2024-12-15 00:00:00 UTC; Q1 2024 runs from 2024-01-01 to 2024-03-28 23:59:59 plus 7 days.
    let now = 1_734_220_800;
    let q1 = map_phrase_to_window("q1", now).unwrap();
    assert_eq!(q1, TimeWindow { start: 1_704_067_200, end: 1_711_670_399 + 7 * DAY });
    assert!(map_phrase_to_window("q5", now).is_none());
    assert!(map_phrase_to_window("someday", now).is_none());
}

#[test]
fn exact_detector_remembers_and_evicts() {
    let mut d = ExactDuplicateDetector::new(2);
    let a = make_news("A");
    let b = make_news("B");
    let c = make_news("C");
    assert!(!d.is_duplicate(&a));
    assert!(d.is_duplicate(&a));
    assert!(d.is_duplicate(&make_news("a")));
    assert!(!d.is_duplicate(&b));
    assert!(!d.is_duplicate(&c));
    assert!(!d.is_duplicate(&a));
}

#[test]
fn fingerprint_depends_on_normalized_text() {
    assert_eq!(
        ExactDuplicateDetector::fingerprint_of(&make_news("Fed, HIKES")),
        ExactDuplicateDetector::fingerprint_of(&make_news("fed  hikes")),
    );
    assert_ne!(
        ExactDuplicateDetector::fingerprint_of(&make_news("fed hikes")),
        ExactDuplicateDetector::fingerprint_of(&make_news("fed holds")),
    );
}

#[test]
fn simhash_cache_thresholds() {
    let mut cache = SimHashCache::new(3, 2);
    let h = cache.sim_hash(&vec!["fed".to_string(), "hikes".to_string()]);
    assert!(!cache.is_near_duplicate(h));
    cache.insert(h);
    assert!(cache.is_near_duplicate(h));
    assert!(cache.is_near_duplicate(h ^ 0b111));
    assert!(!cache.is_near_duplicate(h ^ 0b1111));
    cache.insert(!h);
    cache.insert(!h);
    assert!(!cache.is_near_duplicate(h));
}

#[test]
fn simhash_of_one_token_is_its_hash() {
    let cache = SimHashCache::new(3, 8);
    let one = cache.sim_hash(&vec!["fed".to_string()]);
    let twice = cache.sim_hash(&vec!["fed".to_string(), "fed".to_string()]);
    assert_eq!(one, twice);
    assert_eq!(cache.sim_hash(&vec![]), 0);
}

#[test]
fn hamming_distance_counts_bits() {
    assert_eq!(hamming_distance(0, 0), 0);
    assert_eq!(hamming_distance(0, u64::MAX), 64);
    assert_eq!(hamming_distance(0b1010, 0b0110), 2);
}

#[test]
fn top_k_orders_by_score_then_position() {
    assert_eq!(top_k(&vec![5, 0, 9, 5, -1, 7], 3), vec![2, 5, 0]);
    assert_eq!(top_k(&vec![5, 0, 9, 5], 10), vec![2, 0, 3]);
    assert!(top_k(&vec![0, -3], 2).is_empty());
}

#[test]
fn index_search_ranks_rarer_terms_higher() {
    let mut idx = MarketIndex::new();
    idx.add_market("A", "Will inflation fall?", "", "", None).unwrap();
    idx.add_market("B", "Will inflation and gdp rise?", "", "", None).unwrap();
    idx.add_market("C", "Will bitcoin rise?", "", "", None).unwrap();
    let r = idx.search(&vec!["gdp".to_string(), "inflation".to_string()], 50);
    assert_eq!(r.len(), 2);
    assert_eq!(r[0].market_id, "B");
    assert_eq!(r[1].market_id, "A");
    assert!(r[0].score > r[1].score);
    let one = idx.search(&vec!["gdp".to_string(), "inflation".to_string()], 1);
    assert_eq!(one.len(), 1);
    assert!(idx.search(&vec!["nothing".to_string()], 5).is_empty());
}

#[test]
fn semantic_search_prefers_similar_text() {
    let mut idx = MarketIndex::new();
    idx.add_market("A", "Will the Fed hike rates?", "", "", None).unwrap();
    idx.add_market("B", "Will bitcoin reach a record?", "", "", None).unwrap();
    let r = idx.search_semantic("Fed hike rates", 50);
    assert_eq!(r[0].market_id, "A");
    assert_eq!(r[0].score, UNIT);
}

#[test]
fn index_rejects_oversized_market() {
    let mut idx = MarketIndex::new();
    let long = "w ".repeat(100_001);
    assert_eq!(idx.add_market("A", &long, "", "", None), Err(IndexError::TooManyTerms));
    assert_eq!(idx.len(), 0);
}

#[test]
fn hard_filter_checks_entities_and_window() {
    let extractor = EventFeatureExtractor::with_default_dicts();
    let feat = extractor.extract(&make_tokenized("Fed speaks"), 0);
    let c = |id: &str, text: &str, end: Option<i64>| RawCandidate {
        market_id: id.to_string(),
        score: 1,
        text: text.to_string(),
        end_time: end,
    };
    let kept = HardFilterer::new().apply(
        vec![c("A", "will the fed hike", None), c("B", "will btc rally", None), c("C", "", None)],
        &feat.entities,
        &Some(TimeWindow { start: 10, end: 20 }),
    );
    let ids: Vec<String> = kept.iter().map(|x| x.market_id.clone()).collect();
    assert_eq!(ids, vec!["A", "C"]);
    let timed = HardFilterer::new().apply(
        vec![c("D", "", Some(15)), c("E", "", Some(25)), c("F", "", None)],
        &vec![],
        &Some(TimeWindow { start: 10, end: 20 }),
    );
    let ids: Vec<String> = timed.iter().map(|x| x.market_id.clone()).collect();
    assert_eq!(ids, vec!["D", "F"]);
    assert!(mentions_exec("the fed", "Fed"));
    assert!(!mentions_exec("fe", "Fed"));
}

fn edged(p: i64, m: i64, side: TradeSide) -> EdgedCandidate {
    EdgedCandidate {
        candidate: RawCandidate { market_id: "M".to_string(), score: 0, text: String::new(), end_time: None },
        side,
        score: p,
        probability: p,
        market_price: m,
        edge: p - m,
    }
}

#[test]
fn kelly_sizes_within_caps() {
    let sizer = KellySizer::default_sizer();
    let out = sizer.size_positions(vec![
        edged(900_000, 560_000, TradeSide::BuyYes),
        edged(600_000, 550_000, TradeSide::BuyYes),
        edged(500_000, 600_000, TradeSide::BuyYes),
        edged(900_000, 200_000, TradeSide::BuyNo),
    ]);
    assert_eq!(out.len(), 3);
    assert_eq!(out[0].kelly_fraction, 772_727);
    assert_eq!(out[0].size_fraction, 100_000);
    assert_eq!(out[1].kelly_fraction, 111_111);
    assert_eq!(out[1].size_fraction, 100_000);
    assert_eq!(out[2].kelly_fraction, 500_000);
    assert_eq!(out[2].side, TradeSide::BuyNo);
    for d in &out {
        assert!(d.size_fraction > 0);
        assert!(d.size_fraction <= d.kelly_fraction.min(100_000));
    }
}

#[test]
fn kelly_small_edge_is_below_cap() {
    let sizer = KellySizer { max_fraction_per_trade: 100_000 };
    let out = sizer.size_positions(vec![edged(610_000, 600_000, TradeSide::BuyYes)]);
    assert_eq!(out.len(), 1);
    assert_eq!(out[0].kelly_fraction, 25_000);
    assert_eq!(out[0].size_fraction, 25_000);
}

#[test]
fn kelly_respects_remaining_bankroll() {
    let sizer = KellySizer { max_fraction_per_trade: 600_000 };
    let out = sizer.size_positions(vec![
        edged(1_000_000, 500_000, TradeSide::BuyYes),
        edged(1_000_000, 500_000, TradeSide::BuyYes),
        edged(1_000_000, 500_000, TradeSide::BuyYes),
    ]);
    assert_eq!(out.len(), 2);
    assert_eq!(out[0].size_fraction, 600_000);
    assert_eq!(out[1].size_fraction, 400_000);
}

fn snap(id: &str, bid: i64, ask: i64) -> MarketDataSnap {
    snapshot_from_response(id.to_string(), format!("Question {}", id), Some(bid), Some(ask), None, 0)
}

#[test]
fn analyst_maps_signals_and_edges() {
    let mut cache = MarketCache::new();
    cache.insert(snap("A", 550_000, 570_000));
    let analyst = MarketAnalyst::new(2);
    let cands: Vec<RawCandidate> = ["A", "B", "C"]
        .iter()
        .map(|id| RawCandidate { market_id: id.to_string(), score: 1, text: String::new(), end_time: None })
        .collect();
    let signals = vec![
        Some(Signal { sentiment: Sentiment::Positive, confidence: 800_000 }),
        Some(Signal { sentiment: Sentiment::Negative, confidence: 400_000 }),
        Some(Signal { sentiment: Sentiment::Positive, confidence: 1_000_000 }),
    ];
    let out = analyst.analyze_candidates(&cands, &cache, &signals);
    assert_eq!(out.len(), 2);
    assert_eq!(out[0].probability, 900_000);
    assert_eq!(out[0].market_price, 560_000);
    assert_eq!(out[0].edge, 340_000);
    assert_eq!(out[0].side, TradeSide::BuyYes);
    assert_eq!(out[1].candidate.market_id, "B");
    assert_eq!(out[1].probability, 700_000);
    assert_eq!(out[1].market_price, 500_000);
    assert_eq!(out[1].edge, 200_000);
    assert_eq!(out[1].side, TradeSide::BuyNo);
    for e in &out {
        assert_eq!(e.edge, e.probability - e.market_price);
        assert!(e.probability > BELIEF_THRESHOLD);
    }
}

#[test]
fn neutral_signal_never_clears_threshold() {
    let cache = MarketCache::new();
    let analyst = MarketAnalyst::new(5);
    let cands = vec![RawCandidate { market_id: "A".to_string(), score: 1, text: String::new(), end_time: None }];
    let out = analyst.analyze_candidates(&cands, &cache, &vec![Some(Signal { sentiment: Sentiment::Neutral, confidence: UNIT })]);
    assert!(out.is_empty());
}

#[test]
fn sentiment_labels_and_clamping() {
    assert_eq!(parse_sentiment("Positive"), Sentiment::Positive);
    assert_eq!(parse_sentiment("Negative"), Sentiment::Negative);
    assert_eq!(parse_sentiment("positive"), Sentiment::Neutral);
    assert_eq!(signal_from("Positive", 2 * UNIT), Signal { sentiment: Sentiment::Positive, confidence: UNIT });
    assert_eq!(signal_from("Neutral", -5), Signal { sentiment: Sentiment::Neutral, confidence: 0 });
}

#[test]
fn oracle_content_fences_are_stripped() {
    assert_eq!(clean_oracle_content("  ```json\n{\"a\": 1}\n```  "), "\n{\"a\": 1}\n");
    assert_eq!(clean_oracle_content("```{}``````"), "{}");
    assert_eq!(clean_oracle_content("{\"x\":2}"), "{\"x\":2}");
}

#[test]
fn cache_replaces_snapshot_of_same_market() {
    let mut cache = MarketCache::new();
    cache.insert(snap("A", 1, 2));
    cache.insert(snap("B", 3, 4));
    cache.insert(snap("A", 5, 6));
    assert_eq!(cache.get(&"A".to_string()).unwrap().best_bid, 5);
    assert_eq!(cache.get(&"B".to_string()).unwrap().best_bid, 3);
    assert!(cache.get(&"C".to_string()).is_none());
    assert!(cache.contains(&"B".to_string()));
}

#[test]
fn snapshot_defaults_missing_prices_to_zero() {
    let s = snapshot_from_response("X".to_string(), "Q".to_string(), None, None, None, 42);
    assert_eq!(s.best_bid, 0);
    assert_eq!(s.best_ask, 0);
    assert_eq!(s.book_ts_ms, 42);
}

#[test]
fn simulator_serves_fixed_book() {
    let s = SimMarketDataClient::new().fetch_market_data("M9", 7);
    assert_eq!(s.market_id, "M9");
    assert_eq!(s.best_bid, 500_000);
    assert_eq!(s.best_ask, 510_000);
    let tokens = s.tokens.unwrap();
    assert_eq!(tokens[0].token_id, "M9-Yes");
    assert_eq!(tokens[1].token_id, "M9-No");
    assert_eq!(s.question, "Simulated Market");
}

#[test]
fn text_comparisons() {
    assert!(eq_ignore_ascii_case("YES", "yes"));
    assert!(!eq_ignore_ascii_case("yes", "no"));
    assert!(!eq_ignore_ascii_case("yes", "yes "));
    assert!(text_eq("abc", "abc"));
    assert!(!text_eq("abc", "abd"));
}

#[test]
fn labels_follow_pattern_matches() {
    let labels = vec!["Fed".to_string(), "US".to_string(), "BTC".to_string()];
    let es = entities_for_matches(&vec![2, 0, 2], &labels);
    let values: Vec<String> = es.iter().map(|e| e.value.clone()).collect();
    assert_eq!(values, vec!["BTC", "Fed", "BTC"]);
    assert!(entities_for_matches(&vec![], &labels).is_empty());
}

#[test]
fn first_phrase_with_a_window_wins() {
    let now = 1_718_193_600;
    let monday = 1_717_977_600;
    let phrases = vec!["q9".to_string(), "next week".to_string(), "this week".to_string()];
    assert_eq!(
        window_of_phrases(&phrases, now),
        Some(TimeWindow { start: monday + 7 * DAY, end: monday + 14 * DAY - 1 })
    );
    assert_eq!(window_of_phrases(&vec![], now), None);
}

#[test]
fn code_fences_are_removed_from_trimmed_text() {
    assert_eq!(strip_code_fences("```json```json{}```"), "{}");
    assert_eq!(strip_code_fences("``` {} "), " {} ");
    assert_eq!(strip_code_fences("{}"), "{}");
}

#[test]
fn union_keeps_first_seen() {
    let c = |id: &str, score: i64| RawCandidate { market_id: id.to_string(), score, text: String::new(), end_time: None };
    let u = union_by_id(vec![c("A", 5), c("B", 4)], &vec![c("B", 99), c("C", 1), c("C", 2)]);
    let got: Vec<(String, i64)> = u.iter().map(|x| (x.market_id.clone(), x.score)).collect();
    assert_eq!(got, vec![("A".to_string(), 5), ("B".to_string(), 4), ("C".to_string(), 1)]);
}

#[test]
fn canonical_event_from_features() {
    let extractor = EventFeatureExtractor::with_default_dicts();
    let feat = extractor.extract(&make_tokenized("Germany watches the Fed and ECB, Fed again; CPI next"), 0);
    let ev = CanonicalEventBuilder::new().build(&feat, Some(1_000_000));
    assert_eq!(ev.domain, Domain::Political);
    assert_eq!(ev.kind, EventKind::PolicyDecision);
    assert_eq!(ev.primary_entity, Some("Germany".to_string()));
    assert_eq!(ev.secondary_entities, vec!["Fed", "ECB", "CPI"]);
    assert_eq!(ev.location, Some("Germany".to_string()));
    assert_eq!(ev.time_window, Some(TimeWindow { start: 1_000_000 - DAY, end: 1_000_000 + DAY }));
}

#[test]
fn canonical_event_without_entities() {
    let extractor = EventFeatureExtractor::with_default_dicts();
    let feat = extractor.extract(&make_tokenized("Quiet day, q2 outlook"), 1_734_220_800);
    let ev = CanonicalEventBuilder::new().build(&feat, None);
    assert_eq!(ev.domain, Domain::Unknown);
    assert_eq!(ev.kind, EventKind::Unspecified);
    assert_eq!(ev.primary_entity, None);
    assert!(ev.secondary_entities.is_empty());
    assert_eq!(ev.location, None);
    assert_eq!(ev.time_window, feat.time_window);
    assert!(ev.time_window.is_some());
    let data = extractor.extract(&make_tokenized("GDP beats"), 0);
    let ev = CanonicalEventBuilder::new().build(&data, None);
    assert_eq!(ev.kind, EventKind::DataRelease);
    assert_eq!(ev.domain, Domain::Macro);
    assert_eq!(ev.time_window, None);
    assert_eq!(entity_class("BTC"), EntityClass::Crypto);
}
