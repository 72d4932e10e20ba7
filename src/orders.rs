use vstd::prelude::*;

use crate::cache::MarketCache;
use crate::text::{chars_of, eq_ignore_ascii_case, eq_ignore_ascii_case_spec, string_of};
use crate::types::{MarketToken, Order, Side, SizedDecision, TradeSide};

verus! {

/// The decimal text of an integer, as std formats it.
pub uninterp spec fn decimal_text_of(n: int) -> Seq<char>;

/// Relies on `ToString` for `i64` (its `Display`): the decimal text of the number.
#[verifier::external_body]
fn decimal_text(n: i64) -> (r: String)
    ensures
        r@ == decimal_text_of(n as int),
{
    n.to_string()
}

/// Client order id: the market id, a dash, and the instant in microseconds.
pub open spec fn order_id_of(market_id: Seq<char>, now_micros: int) -> Seq<char> {
    market_id + "-"@ + decimal_text_of(now_micros)
}

/// Outcome label of the token that a side buys.
pub open spec fn outcome_name(side: TradeSide) -> Seq<char> {
    match side {
        TradeSide::BuyYes => "Yes"@,
        TradeSide::BuyNo => "No"@,
    }
}

/// The id of the first token whose outcome matches `target`, ignoring ASCII case.
pub open spec fn first_token(ts: Seq<MarketToken>, target: Seq<char>) -> Option<Seq<char>>
    decreases ts.len(),
{
    if ts.len() == 0 {
        None
    } else if eq_ignore_ascii_case_spec(ts[0].outcome@, target) {
        Some(ts[0].token_id@)
    } else {
        first_token(ts.drop_first(), target)
    }
}

/// The token that an order on market `id` buying `side` trades, from the
/// market's cached snapshot.
pub open spec fn token_for(cache: MarketCache, id: Seq<char>, side: TradeSide) -> Option<Seq<char>> {
    match cache.get_spec(id) {
        Some(s) => match s.tokens {
            Some(ts) => first_token(ts@, outcome_name(side)),
            None => None,
        },
        None => None,
    }
}

/// Order quantity in millionths: `bankroll * size_fraction / price`.
pub open spec fn order_size(d: SizedDecision, bankroll: int) -> int {
    bankroll * (d.size_fraction as int) / (d.candidate.market_price as int)
}

/// The cached snapshot of market `id` lists tokens.
pub open spec fn lists_tokens(cache: MarketCache, id: Seq<char>) -> bool {
    match cache.get_spec(id) {
        Some(s) => s.tokens is Some,
        None => false,
    }
}

/// A decision gives an order when its fraction, its price and its quantity
/// are positive (and the quantity is representable), and, when the market's
/// snapshot lists tokens, one of them is the chosen side's.
pub open spec fn emits(d: SizedDecision, cache: MarketCache, bankroll: int) -> bool {
    &&& d.size_fraction > 0
    &&& d.candidate.market_price > 0
    &&& 0 < order_size(d, bankroll) <= i64::MAX
    &&& lists_tokens(cache, d.candidate.candidate.market_id@) ==> token_for(
        cache,
        d.candidate.candidate.market_id@,
        d.side,
    ) is Some
}

/// The decisions that give orders, in order.
pub open spec fn emitting(ds: Seq<SizedDecision>, cache: MarketCache, bankroll: int) -> Seq<
    SizedDecision,
>
    decreases ds.len(),
{
    if ds.len() == 0 {
        Seq::empty()
    } else if emits(ds.last(), cache, bankroll) {
        emitting(ds.drop_last(), cache, bankroll).push(ds.last())
    } else {
        emitting(ds.drop_last(), cache, bankroll)
    }
}

/// Every decision that gives an order is one of the decisions.
pub proof fn lemma_emitting_from(ds: Seq<SizedDecision>, cache: MarketCache, bankroll: int, k: int)
    requires
        0 <= k < emitting(ds, cache, bankroll).len(),
    ensures
        exists|j: int| 0 <= j < ds.len() && ds[j] == emitting(ds, cache, bankroll)[k],
    decreases ds.len(),
{
    let rest = emitting(ds.drop_last(), cache, bankroll);
    if emits(ds.last(), cache, bankroll) && k == rest.len() {
        assert(ds[ds.len() - 1] == emitting(ds, cache, bankroll)[k]);
    } else {
        lemma_emitting_from(ds.drop_last(), cache, bankroll, k);
        let j = choose|j: int| 0 <= j < ds.drop_last().len() && ds.drop_last()[j] == rest[k];
        assert(ds[j] == emitting(ds, cache, bankroll)[k]);
    }
}

/// An order's notional is at most the fraction of the bankroll it was sized at.
pub proof fn lemma_notional_le(d: SizedDecision, bankroll: int)
    requires
        d.candidate.market_price > 0,
    ensures
        order_size(d, bankroll) * (d.candidate.market_price as int) <= bankroll * (d.size_fraction as int),
{
    let x = bankroll * (d.size_fraction as int);
    let p = d.candidate.market_price as int;
    assert((x / p) * p <= x) by (nonlinear_arith)
        requires
            p > 0,
    ;
}

pub open spec fn opt_text(o: Option<String>) -> Option<Seq<char>> {
    match o {
        Some(s) => Some(s@),
        None => None,
    }
}

/// `o` is the order built from decision `d`: a buy of the side's token at the
/// candidate's market price.
pub open spec fn is_order_for(
    o: Order,
    d: SizedDecision,
    cache: MarketCache,
    bankroll: int,
    now_micros: int,
) -> bool {
    let id = d.candidate.candidate.market_id@;
    &&& o.market_id@ == id
    &&& o.client_order_id@ == order_id_of(id, now_micros)
    &&& opt_text(o.token_id) == token_for(cache, id, d.side)
    &&& o.side == Side::Buy
    &&& o.price == d.candidate.market_price
    &&& o.size as int == order_size(d, bankroll)
}

/// Whether the cached snapshot of market `id` lists tokens.
pub fn snapshot_lists_tokens(cache: &MarketCache, id: &String) -> (r: bool)
    requires
        cache.wf(),
    ensures
        r == lists_tokens(*cache, id@),
{
    match cache.get(id) {
        Some(snap) => snap.tokens.is_some(),
        None => false,
    }
}

/// Finds the token that buys `side` in a market's cached snapshot.
pub fn resolve_token(cache: &MarketCache, id: &String, side: TradeSide) -> (r: Option<String>)
    requires
        cache.wf(),
    ensures
        opt_text(r) == token_for(*cache, id@, side),
{
    let target: &str = match side {
        TradeSide::BuyYes => "Yes",
        TradeSide::BuyNo => "No",
    };
    match cache.get(id) {
        None => None,
        Some(snap) => match &snap.tokens {
            None => None,
            Some(tokens) => {
                let ghost ts = tokens@;
                assert(token_for(*cache, id@, side) == first_token(ts, target@));
                let mut i: usize = 0;
                assert(ts.skip(0) =~= ts);
                while i < tokens.len()
                    invariant
                        0 <= i <= tokens.len(),
                        ts == tokens@,
                        target@ == outcome_name(side),
                        token_for(*cache, id@, side) == first_token(ts, target@),
                        first_token(ts, target@) == first_token(ts.skip(i as int), target@),
                    decreases tokens.len() - i,
                {
                    assert(ts.skip(i as int).drop_first() =~= ts.skip(i + 1));
                    assert(ts.skip(i as int)[0] == tokens@[i as int]);
                    if eq_ignore_ascii_case(tokens[i].outcome.as_str(), target) {
                        return Some(tokens[i].token_id.clone());
                    }
                    i = i + 1;
                }
                None
            },
        },
    }
}

/// Builds the orders of sized decisions, one per decision that gives one
/// (see [`emits`]), in order: a buy at the candidate's market price of
/// `bankroll * size_fraction / price`, on the token of the chosen side when
/// the market's snapshot lists tokens (a decision whose side has no token
/// there gives no order). `now_micros` stamps the order ids.
pub fn build_orders(
    cache: &MarketCache,
    bankroll: i64,
    sized: &[SizedDecision],
    now_micros: i64,
) -> (r: Vec<Order>)
    requires
        cache.wf(),
    ensures
        r.len() == emitting(sized@, *cache, bankroll as int).len(),
        forall|k: int|
            0 <= k < r.len() ==> is_order_for(
                #[trigger] r@[k],
                emitting(sized@, *cache, bankroll as int)[k],
                *cache,
                bankroll as int,
                now_micros as int,
            ),
        forall|k: int| 0 <= k < r.len() ==> (#[trigger] r@[k]).size > 0 && r@[k].price > 0,
        forall|k: int|
            0 <= k < r.len() && lists_tokens(*cache, (#[trigger] r@[k]).market_id@) ==> r@[k].token_id is Some,
{
    let mut orders: Vec<Order> = Vec::new();
    let stamp = decimal_text(now_micros);
    let mut i: usize = 0;
    while i < sized.len()
        invariant
            cache.wf(),
            0 <= i <= sized.len(),
            stamp@ == decimal_text_of(now_micros as int),
            orders.len() == emitting(sized@.take(i as int), *cache, bankroll as int).len(),
            forall|k: int|
                0 <= k < orders.len() ==> is_order_for(
                    #[trigger] orders@[k],
                    emitting(sized@.take(i as int), *cache, bankroll as int)[k],
                    *cache,
                    bankroll as int,
                    now_micros as int,
                ),
            forall|k: int| 0 <= k < orders.len() ==> (#[trigger] orders@[k]).size > 0 && orders@[k].price > 0,
            forall|k: int|
                0 <= k < orders.len() && lists_tokens(*cache, (#[trigger] orders@[k]).market_id@) ==> orders@[k].token_id is Some,
        decreases sized.len() - i,
    {
        let ghost prefix = sized@.take(i as int);
        assert(sized@.take(i + 1).drop_last() =~= prefix);
        assert(sized@.take(i + 1).last() == sized@[i as int]);
        let d = &sized[i];
        let price = d.candidate.market_price;
        if d.size_fraction > 0 && price > 0 {
            let b: i128 = bankroll as i128;
            let f: i128 = d.size_fraction as i128;
            assert(-0x4000_0000_0000_0000_0000_0000_0000_0000 <= b * f <= 0x4000_0000_0000_0000_0000_0000_0000_0000) by (nonlinear_arith)
                requires
                    -0x8000_0000_0000_0000 <= b <= 0x8000_0000_0000_0000,
                    -0x8000_0000_0000_0000 <= f <= 0x8000_0000_0000_0000,
            ;
            let num: i128 = b * f;
            let pr: i128 = price as i128;
            assert(-0x4000_0000_0000_0000_0000_0000_0000_0000 <= num / pr <= 0x4000_0000_0000_0000_0000_0000_0000_0000) by (nonlinear_arith)
                requires
                    -0x4000_0000_0000_0000_0000_0000_0000_0000 <= num <= 0x4000_0000_0000_0000_0000_0000_0000_0000,
                    pr >= 1,
            ;
            let quantity: i128 = num.checked_div_euclid(pr).unwrap();
            if 0 < quantity && quantity <= i64::MAX as i128 {
                let market_id = d.candidate.candidate.market_id.clone();
                let token_id = resolve_token(cache, &market_id, d.side);
                if token_id.is_some() || !snapshot_lists_tokens(cache, &market_id) {
                    let mut id_chars = chars_of(market_id.as_str());
                    id_chars.push('-');
                    let mut stamp_chars = chars_of(stamp.as_str());
                    id_chars.append(&mut stamp_chars);
                    let client_order_id = string_of(&id_chars);
                    proof {
                        reveal_strlit("-");
                        assert(client_order_id@ =~= order_id_of(market_id@, now_micros as int));
                    }
                    let order = Order {
                        client_order_id,
                        market_id,
                        token_id,
                        side: Side::Buy,
                        price,
                        size: quantity as i64,
                    };
                    orders.push(order);
                }
            }
        }
        i = i + 1;
    }
    assert(sized@.take(sized.len() as int) =~= sized@);
    orders
}

} // verus!
