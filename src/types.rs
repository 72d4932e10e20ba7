use vstd::prelude::*;

verus! {

/// One whole unit in the fixed-point representation: amounts, prices and
/// probabilities are counted in millionths.
pub const UNIT: i64 = 1_000_000;

/// Side of an order on a token.
#[derive(Clone, Copy, Debug, PartialEq, Eq, Structural)]
pub enum Side {
    Buy,
    Sell,
}

/// Direction of a trade on a binary market.
#[derive(Clone, Copy, Debug, PartialEq, Eq, Structural)]
pub enum TradeSide {
    BuyYes,
    BuyNo,
}

/// A news item as ingested; never mutated.
#[derive(Clone, Debug)]
pub struct RawNews {
    pub url: String,
    pub title: String,
    pub description: String,
    pub feed: String,
    /// Publication instant, Unix seconds.
    pub published: Option<i64>,
    pub labels: Vec<String>,
}

/// Request for a fresh snapshot of one market.
#[derive(Clone, Debug)]
pub struct MarketDataRequest {
    pub market_id: String,
}

/// One tradable side of a market.
#[derive(Clone, Debug)]
pub struct MarketToken {
    pub token_id: String,
    /// "Yes" or "No".
    pub outcome: String,
    /// Millionths.
    pub price: i64,
}

/// Point-in-time view of a market's book; prices and sizes in millionths.
#[derive(Clone, Debug)]
pub struct MarketDataSnap {
    pub market_id: String,
    pub book_ts_ms: i64,
    pub best_bid: i64,
    pub best_ask: i64,
    pub bid_size: i64,
    pub ask_size: i64,
    pub tokens: Option<Vec<MarketToken>>,
    pub question: String,
}

/// An order emitted by the strategy; price and size in millionths.
#[derive(Clone, Debug)]
pub struct Order {
    pub client_order_id: String,
    pub market_id: String,
    pub token_id: Option<String>,
    pub side: Side,
    pub price: i64,
    pub size: i64,
}

/// Terminal confirmation of an order; amounts in millionths.
#[derive(Clone, Debug)]
pub struct Execution {
    pub client_order_id: String,
    pub market_id: String,
    pub avg_px: i64,
    pub filled: i64,
    pub fee: i64,
    pub ts_ms: i64,
}

/// Market metadata event with embedded markets.
#[derive(Clone, Debug)]
pub struct PolyMarketEvent {
    pub id: String,
    pub title: Option<String>,
    pub description: Option<String>,
    pub markets: Option<Vec<PolyMarketMarket>>,
}

/// One market inside a [`PolyMarketEvent`].
#[derive(Clone, Debug)]
pub struct PolyMarketMarket {
    pub id: String,
    pub question: Option<String>,
    pub description: Option<String>,
}

/// A market retrieved as possibly relevant to a news item.
#[derive(Clone, Debug)]
pub struct RawCandidate {
    pub market_id: String,
    /// Retrieval weight, millionths.
    pub score: i64,
    /// Lower-cased indexed text of the market, for filtering.
    pub text: String,
    /// Resolution instant of the market, Unix seconds, when known.
    pub end_time: Option<i64>,
}

impl RawCandidate {
    /// A copy of the candidate.
    pub fn copied(&self) -> (r: RawCandidate)
        ensures
            r == *self,
    {
        RawCandidate {
            market_id: self.market_id.clone(),
            score: self.score,
            text: self.text.clone(),
            end_time: self.end_time,
        }
    }
}

/// A candidate with a belief above the threshold; values in millionths.
#[derive(Clone, Debug)]
pub struct EdgedCandidate {
    pub candidate: RawCandidate,
    pub side: TradeSide,
    pub score: i64,
    pub probability: i64,
    pub market_price: i64,
    pub edge: i64,
}

impl EdgedCandidate {
    /// A copy of the candidate.
    pub fn copied(&self) -> (r: EdgedCandidate)
        ensures
            r == *self,
    {
        EdgedCandidate {
            candidate: self.candidate.copied(),
            side: self.side,
            score: self.score,
            probability: self.probability,
            market_price: self.market_price,
            edge: self.edge,
        }
    }
}

/// A sized trade decision; fractions in millionths of the bankroll.
#[derive(Clone, Debug)]
pub struct SizedDecision {
    pub candidate: EdgedCandidate,
    pub kelly_fraction: i64,
    pub size_fraction: i64,
    pub side: TradeSide,
}

} // verus!
