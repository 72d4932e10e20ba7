use vstd::prelude::*;

use crate::text::{chars_of, string_of};
use crate::types::{MarketDataSnap, MarketToken, UNIT};

verus! {

/// Endpoint of one market: the base URL, a slash, and the market id.
pub open spec fn market_url_of(base: Seq<char>, id: Seq<char>) -> Seq<char> {
    base + "/"@ + id
}

fn join3(a: &str, sep: char, b: &str) -> (r: String)
    ensures
        r@ == a@ + seq![sep] + b@,
{
    let mut v = chars_of(a);
    v.push(sep);
    let mut w = chars_of(b);
    v.append(&mut w);
    string_of(&v)
}

/// The pricing API endpoint of a market.
pub fn market_url(base: &str, id: &str) -> (r: String)
    ensures
        r@ == market_url_of(base@, id@),
{
    proof {
        reveal_strlit("/");
    }
    let r = join3(base, '/', id);
    assert(r@ =~= market_url_of(base@, id@));
    r
}

/// A snapshot from the pricing API's answer: missing best bid and best ask
/// count as zero, sizes are not reported (zero), and `now_ms` stamps it.
pub fn snapshot_from_response(
    id: String,
    question: String,
    best_bid: Option<i64>,
    best_ask: Option<i64>,
    tokens: Option<Vec<MarketToken>>,
    now_ms: i64,
) -> (r: MarketDataSnap)
    ensures
        r.market_id == id,
        r.question == question,
        r.best_bid == match best_bid {
            Some(b) => b,
            None => 0,
        },
        r.best_ask == match best_ask {
            Some(a) => a,
            None => 0,
        },
        r.bid_size == 0,
        r.ask_size == 0,
        r.tokens == tokens,
        r.book_ts_ms == now_ms,
{
    MarketDataSnap {
        market_id: id,
        book_ts_ms: now_ms,
        best_bid: match best_bid {
            Some(b) => b,
            None => 0,
        },
        best_ask: match best_ask {
            Some(a) => a,
            None => 0,
        },
        bid_size: 0,
        ask_size: 0,
        tokens,
        question,
    }
}

/// Stand-in pricing source with a fixed book.
pub struct SimMarketDataClient {}

impl SimMarketDataClient {
    pub fn new() -> (r: SimMarketDataClient) {
        SimMarketDataClient {  }
    }

    /// A simulated snapshot: bid 0.50, ask 0.51, sizes 1000, tokens
    /// `<id>-Yes` and `<id>-No` at 0.50, stamped `now_ms`.
    pub fn fetch_market_data(&self, market_id: &str, now_ms: i64) -> (r: MarketDataSnap)
        ensures
            r.market_id@ == market_id@,
            r.book_ts_ms == now_ms,
            r.best_bid == 500_000,
            r.best_ask == 510_000,
            r.bid_size == 1000 * UNIT,
            r.ask_size == 1000 * UNIT,
            r.question@ == "Simulated Market"@,
            r.tokens matches Some(ts) && ts.len() == 2 && ts@[0].token_id@ == market_id@ + "-Yes"@
                && ts@[0].outcome@ == "Yes"@ && ts@[0].price == 500_000 && ts@[1].token_id@
                == market_id@ + "-No"@ && ts@[1].outcome@ == "No"@ && ts@[1].price == 500_000,
    {
        let yes_id = join3(market_id, '-', "Yes");
        let no_id = join3(market_id, '-', "No");
        proof {
            reveal_strlit("-Yes");
            reveal_strlit("-No");
            reveal_strlit("Yes");
            reveal_strlit("No");
            assert(yes_id@ =~= market_id@ + "-Yes"@);
            assert(no_id@ =~= market_id@ + "-No"@);
        }
        let mut tokens: Vec<MarketToken> = Vec::new();
        tokens.push(MarketToken { token_id: yes_id, outcome: "Yes".to_string(), price: 500_000 });
        tokens.push(MarketToken { token_id: no_id, outcome: "No".to_string(), price: 500_000 });
        MarketDataSnap {
            market_id: string_of(&chars_of(market_id)),
            book_ts_ms: now_ms,
            best_bid: 500_000,
            best_ask: 510_000,
            bid_size: 1000 * UNIT,
            ask_size: 1000 * UNIT,
            tokens: Some(tokens),
            question: "Simulated Market".to_string(),
        }
    }
}

} // verus!
