use news_trader::analyst::{Sentiment, Signal};
use news_trader::index::MarketIndex;
use news_trader::simhash::hamming_distance;
use news_trader::strategy::{NewsStep, StrategyActor};
use news_trader::tokenize::{TokenizationConfig, TokenizedNews};
use news_trader::types::{
    EdgedCandidate, MarketDataSnap, MarketToken, PolyMarketEvent, PolyMarketMarket, RawCandidate,
    RawNews, Side, SizedDecision, TradeSide, UNIT,
};

fn news(title: &str, description: &str) -> RawNews {
    RawNews {
        url: "http://example.com".to_string(),
        title: title.to_string(),
        description: description.to_string(),
        feed: "test".to_string(),
        published: None,
        labels: vec![],
    }
}

fn fed_snapshot() -> MarketDataSnap {
    MarketDataSnap {
        market_id: "M1".to_string(),
        book_ts_ms: 0,
        best_bid: 550_000,
        best_ask: 570_000,
        bid_size: 0,
        ask_size: 0,
        tokens: Some(vec![
            MarketToken { token_id: "M1-Y".to_string(), outcome: "Yes".to_string(), price: 560_000 },
            MarketToken { token_id: "M1-N".to_string(), outcome: "No".to_string(), price: 440_000 },
        ]),
        question: "Will the Fed hike rates in December?".to_string(),
    }
}

fn actor_with_fed_market() -> StrategyActor {
    let mut actor = StrategyActor::new(1000 * UNIT);
    actor
        .market_index
        .add_market("M1", "Will the Fed hike rates in December?", "", "", None)
        .unwrap();
    actor
}

const NOW: i64 = 1_733_000_000;

fn candidate(id: &str) -> RawCandidate {
    RawCandidate { market_id: id.to_string(), score: 0, text: String::new(), end_time: None }
}

#[test]
fn test_token_id_resolution() {
    let mut actor = StrategyActor::new(1000 * UNIT);
    let market_id = "123456";
    let yes_token = "token_yes_123";
    let no_token = "token_no_123";
    let snap = MarketDataSnap {
        market_id: market_id.to_string(),
        book_ts_ms: 0,
        best_bid: 500_000,
        best_ask: 600_000,
        bid_size: 100 * UNIT,
        ask_size: 100 * UNIT,
        tokens: Some(vec![
            MarketToken { token_id: yes_token.to_string(), outcome: "Yes".to_string(), price: 550_000 },
            MarketToken { token_id: no_token.to_string(), outcome: "No".to_string(), price: 450_000 },
        ]),
        question: "Will the Fed hike rates?".to_string(),
    };
    actor.market_data_cache.insert(snap);

    let decision_yes = SizedDecision {
        candidate: EdgedCandidate {
            candidate: candidate(market_id),
            side: TradeSide::BuyYes,
            score: 800_000,
            probability: 700_000,
            market_price: 550_000,
            edge: 150_000,
        },
        kelly_fraction: 100_000,
        size_fraction: 100_000,
        side: TradeSide::BuyYes,
    };
    let orders_yes = actor.build_orders_from_sized_decisions(&[decision_yes], 1);
    assert_eq!(orders_yes.len(), 1);
    assert_eq!(orders_yes[0].token_id, Some(yes_token.to_string()));

    let decision_no = SizedDecision {
        candidate: EdgedCandidate {
            candidate: candidate(market_id),
            side: TradeSide::BuyNo,
            score: 800_000,
            probability: 300_000,
            market_price: 450_000,
            edge: 150_000,
        },
        kelly_fraction: 100_000,
        size_fraction: 100_000,
        side: TradeSide::BuyNo,
    };
    let orders_no = actor.build_orders_from_sized_decisions(&[decision_no], 1);
    assert_eq!(orders_no.len(), 1);
    assert_eq!(orders_no[0].token_id, Some(no_token.to_string()));
}

#[test]
fn exact_duplicate_is_suppressed() {
    let mut actor = actor_with_fed_market();
    let a = news("Fed hikes rates by 25 bps", "The central bank moved again.");
    let first = actor.begin_news(&a, NOW);
    assert!(!matches!(first, NewsStep::Duplicate));
    let second = actor.begin_news(&a.clone(), NOW);
    assert!(matches!(second, NewsStep::Duplicate));
    let signals = vec![Some(Signal { sentiment: Sentiment::Positive, confidence: 800_000 })];
    assert!(actor.finish_news(&second, &signals, 7).is_empty());
}

#[test]
fn near_duplicate_is_suppressed() {
    let mut actor = actor_with_fed_market();
    let description = "The central bank moved again.";
    let a = news("Fed hikes rates by 25 bps", description);
    let b = news("Fed hikes interest rates 25 bps", description);
    let cfg = TokenizationConfig::default_config();
    let ha = actor.sim_hash_cache.sim_hash(&TokenizedNews::from_raw(&a, &cfg).tokens);
    let hb = actor.sim_hash_cache.sim_hash(&TokenizedNews::from_raw(&b, &cfg).tokens);
    let _ = actor.begin_news(&a, NOW);
    let step = actor.begin_news(&b, NOW);
    if hamming_distance(ha, hb) <= 3 {
        assert!(matches!(step, NewsStep::NearDuplicate));
        let signals = vec![Some(Signal { sentiment: Sentiment::Positive, confidence: 800_000 })];
        assert!(actor.finish_news(&step, &signals, 7).is_empty());
    } else {
        assert!(matches!(step, NewsStep::Candidates(_)));
    }
}

#[test]
fn happy_path_buys_yes() {
    let mut actor = actor_with_fed_market();
    let _ = actor.decide_from_tick(fed_snapshot());
    let step = actor.begin_news(&news("Fed hikes rates by 25 bps", ""), NOW);
    let candidates = match &step {
        NewsStep::Candidates(v) => v.clone(),
        _ => panic!("expected candidates"),
    };
    assert_eq!(candidates.len(), 1);
    assert_eq!(candidates[0].market_id, "M1");
    assert!(actor.missing_market_ids(&candidates).is_empty());
    let signals = vec![Some(Signal { sentiment: Sentiment::Positive, confidence: 800_000 })];
    let orders = actor.finish_news(&step, &signals, 1_700_000_000_000_000);
    assert_eq!(orders.len(), 1);
    let o = &orders[0];
    assert_eq!(o.market_id, "M1");
    assert_eq!(o.token_id, Some("M1-Y".to_string()));
    assert_eq!(o.side, Side::Buy);
    assert_eq!(o.price, 560_000);
    // Kelly is (0.9 - 0.56) / 0.44 > 0.1, so the per-trade cap of 0.1 applies.
    assert_eq!(o.size, 1000 * UNIT * 100_000 / 560_000);
    assert_eq!(o.client_order_id, "M1-1700000000000000");
}

#[test]
fn sub_threshold_belief_gives_no_order() {
    let mut actor = actor_with_fed_market();
    let _ = actor.decide_from_tick(fed_snapshot());
    let step = actor.begin_news(&news("Fed hikes rates by 25 bps", ""), NOW);
    let signals = vec![Some(Signal { sentiment: Sentiment::Positive, confidence: 100_000 })];
    assert!(actor.finish_news(&step, &signals, 1).is_empty());
}

#[test]
fn missing_market_data_uses_fallback_midpoint() {
    let mut actor = StrategyActor::new(1000 * UNIT);
    actor.market_index.add_market("M2", "Will the Fed cut rates?", "", "", None).unwrap();
    let step = actor.begin_news(&news("Fed cuts rates", ""), NOW);
    let candidates = match &step {
        NewsStep::Candidates(v) => v.clone(),
        _ => panic!("expected candidates"),
    };
    let missing = actor.missing_market_ids(&candidates);
    assert_eq!(missing, vec!["M2".to_string()]);
    assert!(!actor.has_market_data(&missing));
    assert_eq!(actor.question_for(&"M2".to_string()), "Unknown Market Question");
    let signals = vec![Some(Signal { sentiment: Sentiment::Positive, confidence: 800_000 })];
    let orders = actor.finish_news(&step, &signals, 1);
    assert_eq!(orders.len(), 1);
    assert_eq!(orders[0].price, 500_000);
    assert_eq!(orders[0].token_id, None);
    assert_eq!(orders[0].size, 200 * UNIT);
}

#[test]
fn poly_event_indexes_without_trading() {
    let mut actor = StrategyActor::new(1000 * UNIT);
    let event = PolyMarketEvent {
        id: "E1".to_string(),
        title: None,
        description: None,
        markets: Some(vec![PolyMarketMarket {
            id: "M3".to_string(),
            question: Some("Will X happen?".to_string()),
            description: None,
        }]),
    };
    assert!(actor.decide_from_poly_event(&event).is_none());
    let found = actor.market_index.search(&vec!["x".to_string(), "happen".to_string()], 50);
    assert_eq!(found.len(), 1);
    assert_eq!(found[0].market_id, "M3");
}

#[test]
fn poly_market_falls_back_to_event_title() {
    let mut actor = StrategyActor::new(UNIT);
    let event = PolyMarketEvent {
        id: "E2".to_string(),
        title: Some("Bitcoin above 100k".to_string()),
        description: None,
        markets: Some(vec![
            PolyMarketMarket { id: "M4".to_string(), question: None, description: None },
        ]),
    };
    assert!(actor.decide_from_poly_event(&event).is_none());
    assert_eq!(actor.market_index.len(), 1);
    let found = actor.market_index.search(&vec!["bitcoin".to_string()], 5);
    assert_eq!(found[0].market_id, "M4");
}

#[test]
fn poly_market_without_question_is_skipped() {
    let mut actor = StrategyActor::new(UNIT);
    let event = PolyMarketEvent {
        id: "E3".to_string(),
        title: None,
        description: Some("d".to_string()),
        markets: Some(vec![
            PolyMarketMarket { id: "M5".to_string(), question: None, description: None },
        ]),
    };
    assert!(actor.decide_from_poly_event(&event).is_none());
    assert_eq!(actor.market_index.len(), 0);
}

#[test]
fn same_news_twice_orders_only_first() {
    let mut actor = actor_with_fed_market();
    let _ = actor.decide_from_tick(fed_snapshot());
    let a = news("Fed hikes rates by 25 bps", "");
    let signals = vec![Some(Signal { sentiment: Sentiment::Positive, confidence: 800_000 })];
    let s1 = actor.begin_news(&a, NOW);
    assert_eq!(actor.finish_news(&s1, &signals, 1).len(), 1);
    let s2 = actor.begin_news(&a, NOW);
    assert!(actor.finish_news(&s2, &signals, 2).is_empty());
}

#[test]
fn negative_signal_buys_no_token() {
    let mut actor = actor_with_fed_market();
    let mut snap = fed_snapshot();
    snap.best_bid = 200_000;
    snap.best_ask = 200_000;
    let _ = actor.decide_from_tick(snap);
    let step = actor.begin_news(&news("Fed hikes rates by 25 bps", ""), NOW);
    let signals = vec![Some(Signal { sentiment: Sentiment::Negative, confidence: 800_000 })];
    let orders = actor.finish_news(&step, &signals, 1);
    assert_eq!(orders.len(), 1);
    assert_eq!(orders[0].token_id, Some("M1-N".to_string()));
    assert_eq!(orders[0].price, 200_000);
}

#[test]
fn oracle_failure_drops_candidate() {
    let mut actor = actor_with_fed_market();
    let _ = actor.decide_from_tick(fed_snapshot());
    let step = actor.begin_news(&news("Fed hikes rates by 25 bps", ""), NOW);
    assert!(actor.finish_news(&step, &vec![None], 1).is_empty());
}

#[test]
fn executions_give_no_order() {
    let mut actor = StrategyActor::new(UNIT);
    let e = news_trader::types::Execution {
        client_order_id: "x".to_string(),
        market_id: "M1".to_string(),
        avg_px: 1,
        filled: 1,
        fee: 0,
        ts_ms: 0,
    };
    assert!(actor.decide_from_executions(&e).is_none());
}

#[test]
fn index_re_adding_keeps_results() {
    let mut once = MarketIndex::new();
    once.add_market("M1", "Will the Fed hike rates?", "policy", "macro", None).unwrap();
    once.add_market("M2", "Will bitcoin rally?", "", "crypto", None).unwrap();
    let mut twice = MarketIndex::new();
    twice.add_market("M1", "Will the Fed hike rates?", "policy", "macro", None).unwrap();
    twice.add_market("M2", "Will bitcoin rally?", "", "crypto", None).unwrap();
    twice.add_market("M1", "Will the Fed hike rates?", "policy", "macro", None).unwrap();
    assert_eq!(twice.len(), 2);
    let q = vec!["fed".to_string(), "rates".to_string(), "bitcoin".to_string()];
    let a = once.search(&q, 50);
    let b = twice.search(&q, 50);
    assert_eq!(a.len(), b.len());
    for (x, y) in a.iter().zip(b.iter()) {
        assert_eq!(x.market_id, y.market_id);
        assert_eq!(x.score, y.score);
    }
    let sa = once.search_semantic("fed rates", 50);
    let sb = twice.search_semantic("fed rates", 50);
    assert_eq!(sa.len(), sb.len());
    for (x, y) in sa.iter().zip(sb.iter()) {
        assert_eq!(x.market_id, y.market_id);
        assert_eq!(x.score, y.score);
    }
}

#[test]
fn retrieval_lists_lexical_results_first() {
    let mut actor = StrategyActor::new(UNIT);
    actor.market_index.add_market("M1", "Will the Fed hike rates?", "", "", None).unwrap();
    actor.market_index.add_market("M2", "Will the ECB hike?", "", "", None).unwrap();
    let found = actor.retrieve_candidates(&vec!["rates".to_string()], "ECB hike");
    let ids: Vec<String> = found.iter().map(|c| c.market_id.clone()).collect();
    assert_eq!(ids[0], "M1");
    assert!(ids.contains(&"M2".to_string()));
    assert_eq!(ids.len(), 2);
}

#[test]
fn unmatched_outcome_gives_no_order() {
    let mut actor = StrategyActor::new(1000 * UNIT);
    let mut snap = fed_snapshot();
    snap.tokens = Some(vec![MarketToken { token_id: "T".to_string(), outcome: "Maybe".to_string(), price: 1 }]);
    actor.market_data_cache.insert(snap);
    let d = SizedDecision {
        candidate: EdgedCandidate {
            candidate: candidate("M1"),
            side: TradeSide::BuyYes,
            score: 900_000,
            probability: 900_000,
            market_price: 560_000,
            edge: 340_000,
        },
        kelly_fraction: 100_000,
        size_fraction: 100_000,
        side: TradeSide::BuyYes,
    };
    let orders = actor.build_orders_from_sized_decisions(&[d.clone()], 5);
    assert!(orders.is_empty());
    let mut bare = fed_snapshot();
    bare.tokens = None;
    actor.market_data_cache.insert(bare);
    let orders = actor.build_orders_from_sized_decisions(&[d], 5);
    assert_eq!(orders.len(), 1);
    assert_eq!(orders[0].token_id, None);
    assert_eq!(orders[0].client_order_id, "M1-5");
}

#[test]
fn non_positive_price_or_size_gives_no_order() {
    let actor = StrategyActor::new(1000 * UNIT);
    let mk = |price: i64, size: i64| SizedDecision {
        candidate: EdgedCandidate {
            candidate: candidate("M1"),
            side: TradeSide::BuyYes,
            score: 0,
            probability: 900_000,
            market_price: price,
            edge: 0,
        },
        kelly_fraction: 100_000,
        size_fraction: size,
        side: TradeSide::BuyYes,
    };
    let orders = actor.build_orders_from_sized_decisions(&[mk(0, 100_000), mk(500_000, 0), mk(-1, 5), mk(500_000, 1)], 0);
    assert_eq!(orders.len(), 1);
    assert_eq!(orders[0].size, 2000);
    let poor = StrategyActor::new(0);
    assert!(poor.build_orders_from_sized_decisions(&[mk(500_000, 100_000)], 0).is_empty());
}

#[test]
fn strategy_builds_canonical_event() {
    let actor = StrategyActor::new(UNIT);
    let mut n = news("Bitcoin and ether rally", "");
    n.published = Some(10 * 86_400);
    let ev = actor.canonical_event(&n, 0);
    assert_eq!(ev.domain, news_trader::canonical::Domain::Crypto);
    assert_eq!(ev.primary_entity, Some("BTC".to_string()));
    assert_eq!(ev.secondary_entities, vec!["ETH".to_string()]);
    assert_eq!(ev.time_window.unwrap().start, 9 * 86_400);
}

#[test]
fn poly_event_twice_matches_once_and_later_market_wins() {
    let event = PolyMarketEvent {
        id: "E4".to_string(),
        title: None,
        description: None,
        markets: Some(vec![
            PolyMarketMarket { id: "M6".to_string(), question: Some("Will gold rise?".to_string()), description: None },
            PolyMarketMarket { id: "M7".to_string(), question: Some("Will oil fall?".to_string()), description: None },
            PolyMarketMarket { id: "M6".to_string(), question: Some("Will silver rise?".to_string()), description: None },
        ]),
    };
    let mut once = StrategyActor::new(7);
    let mut twice = StrategyActor::new(7);
    let _ = once.decide_from_poly_event(&event);
    let _ = twice.decide_from_poly_event(&event);
    let _ = twice.decide_from_poly_event(&event);
    assert_eq!(once.market_index.len(), 2);
    assert_eq!(twice.market_index.len(), 2);
    assert_eq!(twice.bankroll, 7);
    assert!(once.market_index.search(&vec!["gold".to_string()], 5).is_empty());
    for q in [vec!["silver".to_string()], vec!["rise".to_string(), "oil".to_string()]] {
        let a = once.market_index.search(&q, 5);
        let b = twice.market_index.search(&q, 5);
        let ka: Vec<(String, i64)> = a.iter().map(|c| (c.market_id.clone(), c.score)).collect();
        let kb: Vec<(String, i64)> = b.iter().map(|c| (c.market_id.clone(), c.score)).collect();
        assert_eq!(ka, kb);
    }
    assert_eq!(once.market_index.search(&vec!["silver".to_string()], 5)[0].market_id, "M6");
}
