use vstd::prelude::*;

use crate::types::{EdgedCandidate, SizedDecision, TradeSide, UNIT};

verus! {

/// Default cap on the fraction of the bankroll for one trade (0.1).
pub const DEFAULT_MAX_FRACTION_PER_TRADE: i64 = 100_000;

/// Kelly fraction, in millionths, of a binary bet at probability `p` on an
/// outcome priced `q`: `(p - q) / (1 - q)`, which is `(b p - (1 - p)) / b` for
/// the payoff `b = (1 - q) / q`; zero where the price leaves no such bet or
/// the edge is not positive.
pub open spec fn kelly_at(p: int, q: int) -> int {
    if 0 < q < UNIT && p > q {
        (p - q) * (UNIT as int) / ((UNIT as int) - q)
    } else {
        0
    }
}

/// Kelly fraction for a side: buying Yes is priced at the market price,
/// buying No at one minus it.
pub open spec fn kelly_for(side: TradeSide, p: int, m: int) -> int {
    match side {
        TradeSide::BuyYes => kelly_at(p, m),
        TradeSide::BuyNo => kelly_at(p, (UNIT as int) - m),
    }
}

pub open spec fn min3(a: int, b: int, c: int) -> int {
    if a <= b && a <= c {
        a
    } else if b <= c {
        b
    } else {
        c
    }
}

/// Sizes candidates in order: each takes `min(kelly, max_fraction,
/// remaining)` of the bankroll, starting from all of it; one whose size is
/// not positive is dropped. The second component is what remains.
pub open spec fn sizing(cs: Seq<EdgedCandidate>, max: int) -> (Seq<SizedDecision>, int)
    decreases cs.len(),
{
    if cs.len() == 0 {
        (Seq::empty(), UNIT as int)
    } else {
        let (ds, rem) = sizing(cs.drop_last(), max);
        let c = cs.last();
        let k = kelly_for(c.side, c.probability as int, c.market_price as int);
        let s = min3(k, max, rem);
        if s > 0 {
            (
                ds.push(
                    SizedDecision {
                        candidate: c,
                        kelly_fraction: k as i64,
                        size_fraction: s as i64,
                        side: c.side,
                    },
                ),
                rem - s,
            )
        } else {
            (ds, rem)
        }
    }
}

/// Probabilities in `[0, 1]`.
pub open spec fn probabilities_valid(cs: Seq<EdgedCandidate>) -> bool {
    forall|i: int| 0 <= i < cs.len() ==> 0 <= (#[trigger] cs[i]).probability <= UNIT
}

proof fn lemma_kelly_bounds(p: int, q: int)
    requires
        0 <= p <= UNIT,
    ensures
        0 <= kelly_at(p, q) <= UNIT,
{
    if 0 < q < UNIT && p > q {
        let u = UNIT as int;
        assert((p - q) * u / (u - q) <= u) by (nonlinear_arith)
            requires
                0 < q < u,
                q < p <= u,
        ;
        assert((p - q) * u / (u - q) >= 0) by (nonlinear_arith)
            requires
                0 < q < u,
                q < p,
        ;
    }
}

/// Sizes edged candidates under a per-trade cap.
pub struct KellySizer {
    pub max_fraction_per_trade: i64,
}

fn kelly_fraction(side: TradeSide, p: i64, m: i64) -> (r: i64)
    requires
        0 <= p <= UNIT,
    ensures
        r == kelly_for(side, p as int, m as int),
        0 <= r <= UNIT,
{
    let q: i128 = match side {
        TradeSide::BuyYes => m as i128,
        TradeSide::BuyNo => UNIT as i128 - m as i128,
    };
    proof {
        lemma_kelly_bounds(p as int, q as int);
    }
    if 0 < q && q < UNIT as i128 && p as i128 > q {
        let num: i128 = (p as i128 - q) * (UNIT as i128);
        let den: i128 = UNIT as i128 - q;
        (num / den) as i64
    } else {
        0
    }
}

impl KellySizer {
    /// A sizer with the default cap of 0.1 per trade.
    pub fn default_sizer() -> (r: KellySizer)
        ensures
            r.max_fraction_per_trade == DEFAULT_MAX_FRACTION_PER_TRADE,
    {
        KellySizer { max_fraction_per_trade: DEFAULT_MAX_FRACTION_PER_TRADE }
    }

    /// Sizes each candidate in order (see [`sizing`]). Every decision has
    /// `0 < size_fraction <= min(kelly_fraction, max_fraction_per_trade)`,
    /// `kelly_fraction <= 1`, the side of its candidate, and the sizes sum to
    /// at most the whole bankroll.
    pub fn size_positions(&self, edged: Vec<EdgedCandidate>) -> (r: Vec<SizedDecision>)
        requires
            probabilities_valid(edged@),
        ensures
            r@ == sizing(edged@, self.max_fraction_per_trade as int).0,
            forall|k: int|
                0 <= k < r.len() ==> {
                    let d = #[trigger] r@[k];
                    &&& 0 < d.size_fraction <= d.kelly_fraction <= UNIT
                    &&& d.size_fraction <= self.max_fraction_per_trade
                    &&& d.side == d.candidate.side
                    &&& d.kelly_fraction == kelly_for(
                        d.candidate.side,
                        d.candidate.probability as int,
                        d.candidate.market_price as int,
                    )
                },
    {
        let max = self.max_fraction_per_trade;
        let mut out: Vec<SizedDecision> = Vec::new();
        let mut remaining: i64 = UNIT;
        let mut i: usize = 0;
        while i < edged.len()
            invariant
                probabilities_valid(edged@),
                0 <= i <= edged.len(),
                max == self.max_fraction_per_trade,
                (out@, remaining as int) == sizing(edged@.take(i as int), max as int),
                0 <= remaining <= UNIT,
                forall|k: int|
                    0 <= k < out.len() ==> {
                        let d = #[trigger] out@[k];
                        &&& 0 < d.size_fraction <= d.kelly_fraction <= UNIT
                        &&& d.size_fraction <= max
                        &&& d.side == d.candidate.side
                        &&& d.kelly_fraction == kelly_for(
                            d.candidate.side,
                            d.candidate.probability as int,
                            d.candidate.market_price as int,
                        )
                    },
            decreases edged.len() - i,
        {
            assert(edged@.take(i + 1).drop_last() =~= edged@.take(i as int));
            assert(edged@.take(i + 1).last() == edged@[i as int]);
            let c = edged[i].copied();
            assert(0 <= c.probability <= UNIT);
            let k = kelly_fraction(c.side, c.probability, c.market_price);
            let s: i64 = if k <= max && k <= remaining {
                k
            } else if max <= remaining {
                max
            } else {
                remaining
            };
            if s > 0 {
                let side = c.side;
                out.push(SizedDecision { candidate: c, kelly_fraction: k, size_fraction: s, side });
                remaining = remaining - s;
            }
            i = i + 1;
        }
        assert(edged@.take(edged.len() as int) =~= edged@);
        out
    }
}

} // verus!
