//! Laws that relate several operations of the library.
use vstd::prelude::*;

use crate::dedup::{fifo_push, fingerprint, ExactDuplicateDetector};
use crate::index::{
    docs_with, is_record_of, lexical_score, semantic_score, terms_of, total_terms,
    unique_market_ids, with_record, MarketRecord,
};
use crate::tokenize::{is_normalization, lemma_normalization_unique, kept_words, news_text, split_words, views, TokenizationConfig};
use crate::orders::first_token;
use crate::rank::is_top_k;
use crate::text::eq_ignore_ascii_case_spec;
use crate::types::{MarketToken, RawNews};

verus! {

/// Once a news item has been checked, its fingerprint is remembered, so the
/// same item fed again right after is reported as a duplicate (and yields no
/// order).
pub proof fn lemma_repeat_is_duplicate(d: ExactDuplicateDetector, news: RawNews)
    requires
        d.wf(),
        d.capacity_spec() > 0,
    ensures
        d.after_check(news).contains(fingerprint(news)),
{
    let fp = fingerprint(news);
    if !d.seen().contains(fp) {
        let s = fifo_push(d.seen(), fp, d.capacity_spec());
        let p = d.seen().push(fp);
        if d.seen().len() >= d.capacity_spec() {
            assert(s[s.len() - 1] == p[p.len() - 1]);
        } else {
            assert(s[s.len() - 1] == fp);
        }
    }
}

/// Tokenisation is deterministic: two tokenisations of the same news item
/// under the same options agree on the normalised text and on the tokens.
pub proof fn lemma_tokenization_deterministic(
    raw: RawNews,
    cfg: TokenizationConfig,
    n1: Seq<char>,
    t1: Seq<Seq<char>>,
    n2: Seq<char>,
    t2: Seq<Seq<char>>,
)
    requires
        is_normalization(news_text(raw), n1, cfg.lowercase, cfg.strip_punct),
        t1 == kept_words(split_words(n1), cfg.min_token_len as nat, views(cfg.stop_words@)),
        is_normalization(news_text(raw), n2, cfg.lowercase, cfg.strip_punct),
        t2 == kept_words(split_words(n2), cfg.min_token_len as nat, views(cfg.stop_words@)),
    ensures
        n1 == n2,
        t1 == t2,
{
    lemma_normalization_unique(news_text(raw), n1, n2, cfg.lowercase, cfg.strip_punct);
}

/// The token an order trades is one whose outcome matches the chosen side
/// (ignoring ASCII case), and when the snapshot lists such a token the
/// order does trade one.
pub proof fn lemma_token_matches_outcome(ts: Seq<MarketToken>, target: Seq<char>)
    ensures
        first_token(ts, target) matches Some(id) ==> exists|i: int|
            0 <= i < ts.len() && (#[trigger] ts[i]).token_id@ == id && eq_ignore_ascii_case_spec(
                ts[i].outcome@,
                target,
            ),
        (exists|i: int| 0 <= i < ts.len() && eq_ignore_ascii_case_spec((#[trigger] ts[i]).outcome@, target))
            ==> first_token(ts, target) is Some,
    decreases ts.len(),
{
    if ts.len() > 0 {
        let rest = ts.drop_first();
        lemma_token_matches_outcome(rest, target);
        if !eq_ignore_ascii_case_spec(ts[0].outcome@, target) {
            if let Some(id) = first_token(ts, target) {
                let i = choose|i: int|
                    0 <= i < rest.len() && (#[trigger] rest[i]).token_id@ == id && eq_ignore_ascii_case_spec(
                        rest[i].outcome@,
                        target,
                    );
                assert(ts[i + 1] == rest[i]);
            }
            if exists|i: int| 0 <= i < ts.len() && eq_ignore_ascii_case_spec((#[trigger] ts[i]).outcome@, target) {
                let i = choose|i: int| 0 <= i < ts.len() && eq_ignore_ascii_case_spec((#[trigger] ts[i]).outcome@, target);
                assert(i > 0);
                assert(rest[i - 1] == ts[i]);
            }
        }
    }
}

/// Top-k selection leaves no choice: two selections of the same scores agree.
pub proof fn lemma_top_k_unique(s: Seq<i64>, k: nat, r1: Seq<usize>, r2: Seq<usize>)
    requires
        is_top_k(s, k, r1),
        is_top_k(s, k, r2),
    ensures
        r1 == r2,
{
    lemma_top_k_prefix(s, k, r1, r2, 0);
}

proof fn lemma_top_k_prefix(s: Seq<i64>, k: nat, r1: Seq<usize>, r2: Seq<usize>, j: int)
    requires
        is_top_k(s, k, r1),
        is_top_k(s, k, r2),
        0 <= j,
        j <= r1.len(),
        j <= r2.len(),
        forall|m: int| 0 <= m < j ==> r1[m] == r2[m],
    ensures
        r1 == r2,
    decreases r1.len() + r2.len() - 2 * j,
{
    if j == r1.len() && j == r2.len() {
        assert(r1 =~= r2);
    } else if j == r1.len() {
        let b = r2[j];
        assert(!r1.contains(b)) by {
            if r1.contains(b) {
                let m = choose|m: int| 0 <= m < r1.len() && r1[m] == b;
                assert(r2[m] == b);
            }
        }
        assert(s[b as int] > 0);
    } else if j == r2.len() {
        let a = r1[j];
        assert(!r2.contains(a)) by {
            if r2.contains(a) {
                let m = choose|m: int| 0 <= m < r2.len() && r2[m] == a;
                assert(r1[m] == a);
            }
        }
        assert(s[a as int] > 0);
    } else {
        let a = r1[j];
        let b = r2[j];
        if a != b {
            lemma_first_difference(s, k, r1, r2, j);
            lemma_first_difference(s, k, r2, r1, j);
        }
        lemma_top_k_prefix(s, k, r1, r2, j + 1);
    }
}

/// Where two selections first differ, the first one's pick must come at or
/// before the second's in score, then in position.
proof fn lemma_first_difference(s: Seq<i64>, k: nat, r1: Seq<usize>, r2: Seq<usize>, j: int)
    requires
        is_top_k(s, k, r1),
        is_top_k(s, k, r2),
        0 <= j < r1.len(),
        j < r2.len(),
        forall|m: int| 0 <= m < j ==> r1[m] == r2[m],
        r1[j] != r2[j],
    ensures
        s[r2[j] as int] >= s[r1[j] as int],
        s[r2[j] as int] == s[r1[j] as int] ==> r2[j] < r1[j],
{
    let a = r1[j];
    let b = r2[j];
    if r2.contains(a) {
        let m = choose|m: int| 0 <= m < r2.len() && r2[m] == a;
        if m < j {
            assert(r1[m] == a);
            assert(r1[m] == r1[j]);
        }
        assert(m != j);
        assert(m > j);
        assert(s[r2[j] as int] >= s[r2[m] as int]);
    } else {
        assert(s[a as int] > 0);
        assert(s[r2[j] as int] >= s[a as int]);
    }
}

/// What retrieval reads of a market record.
pub open spec fn record_view(r: MarketRecord) -> (Seq<char>, Seq<char>, Seq<Seq<char>>, Option<i64>) {
    (r.market_id@, r.text@, terms_of(r), r.end_time)
}

/// What retrieval reads of an index.
pub open spec fn index_view(rs: Seq<MarketRecord>) -> Seq<(Seq<char>, Seq<char>, Seq<Seq<char>>, Option<i64>)> {
    rs.map_values(|r: MarketRecord| record_view(r))
}

/// Lexical scores of every record of `rs` for the query `q`.
pub open spec fn lexical_all(rs: Seq<MarketRecord>, q: Seq<Seq<char>>) -> Seq<nat> {
    Seq::new(rs.len(), |i: int| lexical_score(rs, rs[i], q))
}

/// Semantic scores of every record of `rs` for the query `q`.
pub open spec fn semantic_all(rs: Seq<MarketRecord>, q: Seq<Seq<char>>) -> Seq<nat> {
    Seq::new(rs.len(), |i: int| semantic_score(q, terms_of(rs[i])))
}

proof fn lemma_docs_total_congruent(rs: Seq<MarketRecord>, ts: Seq<MarketRecord>, t: Seq<char>)
    requires
        index_view(rs) == index_view(ts),
    ensures
        docs_with(rs, t) == docs_with(ts, t),
        total_terms(rs) == total_terms(ts),
        rs.len() == ts.len(),
    decreases rs.len(),
{
    assert(index_view(rs).len() == rs.len());
    assert(index_view(ts).len() == ts.len());
    if rs.len() > 0 {
        assert(index_view(rs.drop_last()) =~= index_view(rs).drop_last());
        assert(index_view(ts.drop_last()) =~= index_view(ts).drop_last());
        lemma_docs_total_congruent(rs.drop_last(), ts.drop_last(), t);
        assert(record_view(rs.last()) == index_view(rs)[rs.len() - 1]);
        assert(record_view(ts.last()) == index_view(ts)[ts.len() - 1]);
        assert(terms_of(rs.last()).len() == rs.last().terms@.len());
        assert(terms_of(ts.last()).len() == ts.last().terms@.len());
    }
}

proof fn lemma_score_congruent(
    rs: Seq<MarketRecord>,
    ts: Seq<MarketRecord>,
    d: MarketRecord,
    e: MarketRecord,
    q: Seq<Seq<char>>,
)
    requires
        index_view(rs) == index_view(ts),
        record_view(d) == record_view(e),
    ensures
        lexical_score(rs, d, q) == lexical_score(ts, e, q),
    decreases q.len(),
{
    if q.len() > 0 {
        lemma_score_congruent(rs, ts, d, e, q.drop_last());
        lemma_docs_total_congruent(rs, ts, q.last());
        assert(terms_of(d).len() == d.terms@.len());
        assert(terms_of(e).len() == e.terms@.len());
    }
}

/// Indexing a market a second time with the same fields leaves retrieval
/// as a single indexing left it: the same markets with the same texts, terms
/// and end times, hence the same lexical and semantic scores for every query.
pub proof fn lemma_add_market_idempotent(
    rs: Seq<MarketRecord>,
    r1: MarketRecord,
    r2: MarketRecord,
    id: Seq<char>,
    q: Seq<char>,
    d: Seq<char>,
    c: Seq<char>,
    end_time: Option<i64>,
    cfg: TokenizationConfig,
    query: Seq<Seq<char>>,
)
    requires
        unique_market_ids(rs),
        is_record_of(r1, id, q, d, c, end_time, cfg),
        is_record_of(r2, id, q, d, c, end_time, cfg),
    ensures
        index_view(with_record(with_record(rs, r1), r2)) == index_view(with_record(rs, r1)),
        lexical_all(with_record(with_record(rs, r1), r2), query) == lexical_all(with_record(rs, r1), query),
        semantic_all(with_record(with_record(rs, r1), r2), query) == semantic_all(with_record(rs, r1), query),
{
    lemma_normalization_unique(crate::index::indexed_text(q, d, c), r1.text@, r2.text@, cfg.lowercase, cfg.strip_punct);
    assert(record_view(r1) == record_view(r2));
    let s1 = with_record(rs, r1);
    let s2 = with_record(s1, r2);
    // After the first call a record of the market sits at some position.
    let i: int = if exists|k: int| 0 <= k < rs.len() && (#[trigger] rs[k]).market_id@ == id {
        choose|k: int| 0 <= k < rs.len() && (#[trigger] rs[k]).market_id@ == id
    } else {
        rs.len() as int
    };
    assert(0 <= i < s1.len() && s1[i] == r1);
    assert(unique_market_ids(s1)) by {
        assert forall|a: int, b: int|
            0 <= a < s1.len() && 0 <= b < s1.len() && a != b implies (#[trigger] s1[a]).market_id@ != (
            #[trigger] s1[b]).market_id@ by {
            if a != i && b != i {
                assert(s1[a] == rs[a] && s1[b] == rs[b]);
            } else if a == i {
                assert(s1[b] == rs[b]);
            } else {
                assert(s1[a] == rs[a]);
            }
        }
    }
    assert(s1[i].market_id@ == r2.market_id@);
    let j = choose|k: int| 0 <= k < s1.len() && (#[trigger] s1[k]).market_id@ == r2.market_id@;
    assert(j == i);
    assert(s2 == s1.update(i, r2));
    assert(index_view(s2) =~= index_view(s1)) by {
        assert forall|k: int| 0 <= k < s1.len() implies index_view(s2)[k] == index_view(s1)[k] by {
            if k != i {
                assert(s2[k] == s1[k]);
            }
        }
    }
    assert(lexical_all(s2, query) =~= lexical_all(s1, query)) by {
        assert forall|k: int| 0 <= k < s1.len() implies lexical_all(s2, query)[k] == lexical_all(s1, query)[k] by {
            assert(record_view(s2[k]) == index_view(s2)[k]);
            assert(record_view(s1[k]) == index_view(s1)[k]);
            lemma_score_congruent(s2, s1, s2[k], s1[k], query);
        }
    }
    assert(semantic_all(s2, query) =~= semantic_all(s1, query)) by {
        assert forall|k: int| 0 <= k < s1.len() implies semantic_all(s2, query)[k] == semantic_all(s1, query)[k] by {
            assert(record_view(s2[k]) == index_view(s2)[k]);
            assert(record_view(s1[k]) == index_view(s1)[k]);
        }
    }
}

} // verus!
