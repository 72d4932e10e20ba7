use vstd::prelude::*;

use crate::dedup::{hash_chars, text_hash};
use crate::rank::{is_top_k, top_k};
use crate::text::{chars_of, string_of};
use crate::tokenize::{
    default_stop_words, is_normalization, kept_words, lemma_normalization_unique, split_words, tokenize_chars, views,
    TokenizationConfig,
};
use crate::types::{RawCandidate, UNIT};

verus! {

/// Most markets the index holds.
pub const MAX_MARKETS: usize = 1_000_000;

/// Most index terms of one market.
pub const MAX_TERMS: usize = 100_000;

/// Dimensions of the hashed feature vectors.
pub const BUCKETS: u64 = 64;

/// Largest count of one feature-vector component.
pub const BUCKET_CAP: u64 = 255;

/// Why a market could not be indexed.
#[derive(Clone, Copy, Debug, PartialEq, Eq, Structural)]
pub enum IndexError {
    /// The index holds the most markets it can.
    Full,
    /// The market's text has more terms than one market may have.
    TooManyTerms,
}

/// One indexed market.
#[derive(Clone, Debug)]
pub struct MarketRecord {
    pub market_id: String,
    pub question: String,
    pub description: String,
    pub category: String,
    pub end_time: Option<i64>,
    /// Normalised question, description and category.
    pub text: String,
    /// Index terms of `text`.
    pub terms: Vec<String>,
}

/// The text indexed for a market: question, description and category joined by spaces.
pub open spec fn indexed_text(q: Seq<char>, d: Seq<char>, c: Seq<char>) -> Seq<char> {
    q + seq![' '] + d + seq![' '] + c
}

/// `rec` is the record of a market with these fields, tokenised under `cfg`.
pub open spec fn is_record_of(
    rec: MarketRecord,
    id: Seq<char>,
    q: Seq<char>,
    d: Seq<char>,
    c: Seq<char>,
    end_time: Option<i64>,
    cfg: TokenizationConfig,
) -> bool {
    &&& rec.market_id@ == id
    &&& rec.question@ == q
    &&& rec.description@ == d
    &&& rec.category@ == c
    &&& rec.end_time == end_time
    &&& is_normalization(indexed_text(q, d, c), rec.text@, cfg.lowercase, cfg.strip_punct)
    &&& views(rec.terms@) == kept_words(
        split_words(rec.text@),
        cfg.min_token_len as nat,
        views(cfg.stop_words@),
    )
}

pub open spec fn terms_of(r: MarketRecord) -> Seq<Seq<char>> {
    views(r.terms@)
}

/// Occurrences of `t` in `s`.
pub open spec fn count_in(s: Seq<Seq<char>>, t: Seq<char>) -> nat
    decreases s.len(),
{
    if s.len() == 0 {
        0
    } else {
        count_in(s.drop_last(), t) + if s.last() == t {
            1nat
        } else {
            0nat
        }
    }
}

/// Markets whose terms hold `t`.
pub open spec fn docs_with(rs: Seq<MarketRecord>, t: Seq<char>) -> nat
    decreases rs.len(),
{
    if rs.len() == 0 {
        0
    } else {
        docs_with(rs.drop_last(), t) + if count_in(terms_of(rs.last()), t) > 0 {
            1nat
        } else {
            0nat
        }
    }
}

/// Terms of all markets.
pub open spec fn total_terms(rs: Seq<MarketRecord>) -> nat
    decreases rs.len(),
{
    if rs.len() == 0 {
        0
    } else {
        total_terms(rs.drop_last()) + rs.last().terms@.len()
    }
}

/// `floor(log2(x))`, zero below two.
pub open spec fn log2_floor(x: nat) -> nat
    decreases x,
{
    if x < 2 {
        0
    } else {
        1 + log2_floor(x / 2)
    }
}

/// Inverse document frequency of `t` in base two, rounded down, plus one:
/// `1 + floor(log2((N + 1) / (n + 1/2)))` for `N` markets, `n` holding `t`.
pub open spec fn idf(rs: Seq<MarketRecord>, t: Seq<char>) -> nat {
    1 + log2_floor((2 * rs.len() + 2) / (2 * docs_with(rs, t) + 1))
}

/// BM25 term weight in millionths with `k1 = 1.2`, `b = 0.75`:
/// `tf (k1 + 1) / (tf + k1 (1 - b + b dl / avgdl))`, `avgdl = total / n`.
pub open spec fn term_weight(tf: nat, dl: nat, n: nat, total: nat) -> nat {
    if tf == 0 {
        0
    } else {
        (UNIT as nat) * 22 * tf * total / (10 * tf * total + 3 * total + 9 * dl * n)
    }
}

/// Lexical score of market `d` for the query terms `q`.
pub open spec fn lexical_score(rs: Seq<MarketRecord>, d: MarketRecord, q: Seq<Seq<char>>) -> nat
    decreases q.len(),
{
    if q.len() == 0 {
        0
    } else {
        lexical_score(rs, d, q.drop_last()) + idf(rs, q.last()) * term_weight(
            count_in(terms_of(d), q.last()),
            d.terms.len() as nat,
            rs.len() as nat,
            total_terms(rs),
        )
    }
}

pub open spec fn clamp_i64(x: int) -> i64 {
    if x > i64::MAX {
        i64::MAX
    } else {
        x as i64
    }
}

/// Feature-vector component `j` of a term list: the count of terms hashing
/// to bucket `j`, saturating at [`BUCKET_CAP`].
pub open spec fn component(ts: Seq<Seq<char>>, j: u64) -> u64
    decreases ts.len(),
{
    if ts.len() == 0 {
        0
    } else {
        let c = component(ts.drop_last(), j);
        if text_hash(ts.last()) % BUCKETS == j && c < BUCKET_CAP {
            (c + 1) as u64
        } else {
            c
        }
    }
}

/// Dot product of the first `n` components of two term lists' vectors.
pub open spec fn dot_upto(a: Seq<Seq<char>>, b: Seq<Seq<char>>, n: u64) -> nat
    decreases n,
{
    if n == 0 {
        0
    } else {
        dot_upto(a, b, (n - 1) as u64) + component(a, (n - 1) as u64) as nat * component(
            b,
            (n - 1) as u64,
        ) as nat
    }
}

/// Squared cosine similarity of two term lists' vectors, in millionths
/// (it ranks as the cosine does, the vectors being non-negative).
pub open spec fn semantic_score(a: Seq<Seq<char>>, b: Seq<Seq<char>>) -> nat {
    let na = dot_upto(a, a, BUCKETS);
    let nb = dot_upto(b, b, BUCKETS);
    let d = dot_upto(a, b, BUCKETS);
    if na == 0 || nb == 0 {
        0
    } else {
        (UNIT as nat) * d * d / (na * nb)
    }
}

proof fn lemma_log2_le(x: nat)
    ensures
        log2_floor(x) <= x,
    decreases x,
{
    if x >= 2 {
        lemma_log2_le(x / 2);
    }
}

proof fn lemma_weight_bound(tf: nat, dl: nat, n: nat, total: nat)
    requires
        tf <= total,
    ensures
        term_weight(tf, dl, n, total) <= 3 * UNIT,
{
    if tf > 0 {
        let u = UNIT as nat;
        let num = u * 22 * tf * total;
        let den = 10 * tf * total + 3 * total + 9 * dl * n;
        assert(num <= 3 * u * den) by (nonlinear_arith)
            requires
                num == u * 22 * tf * total,
                den == 10 * tf * total + 3 * total + 9 * dl * n,
        ;
        assert(den > 0) by (nonlinear_arith)
            requires
                den == 10 * tf * total + 3 * total + 9 * dl * n,
                tf > 0,
                tf <= total,
        ;
        assert(num / den <= 3 * u) by (nonlinear_arith)
            requires
                num <= 3 * u * den,
                den > 0,
        ;
    }
}

proof fn lemma_count_le(s: Seq<Seq<char>>, t: Seq<char>)
    ensures
        count_in(s, t) <= s.len(),
    decreases s.len(),
{
    if s.len() > 0 {
        lemma_count_le(s.drop_last(), t);
    }
}

proof fn lemma_component_le(ts: Seq<Seq<char>>, j: u64)
    ensures
        component(ts, j) <= BUCKET_CAP,
    decreases ts.len(),
{
    if ts.len() > 0 {
        lemma_component_le(ts.drop_last(), j);
    }
}

proof fn lemma_dot_le(a: Seq<Seq<char>>, b: Seq<Seq<char>>, n: u64)
    ensures
        dot_upto(a, b, n) <= n * 65025,
    decreases n,
{
    if n > 0 {
        lemma_dot_le(a, b, (n - 1) as u64);
        lemma_component_le(a, (n - 1) as u64);
        lemma_component_le(b, (n - 1) as u64);
        let x = component(a, (n - 1) as u64) as nat;
        let y = component(b, (n - 1) as u64) as nat;
        assert(x * y <= 65025) by (nonlinear_arith)
            requires
                x <= 255,
                y <= 255,
        ;
    }
}

/// Occurrences of `t` in a term list.
fn count_term(s: &Vec<String>, t: &String) -> (r: usize)
    ensures
        r == count_in(views(s@), t@),
{
    let ghost sv = views(s@);
    let mut n: usize = 0;
    let mut i: usize = 0;
    while i < s.len()
        invariant
            0 <= i <= s.len(),
            sv == views(s@),
            n == count_in(sv.take(i as int), t@),
            n <= i,
        decreases s.len() - i,
    {
        assert(sv.take(i + 1).drop_last() =~= sv.take(i as int));
        assert(sv.take(i + 1).last() == s@[i as int]@);
        if s[i] == *t {
            n = n + 1;
        }
        i = i + 1;
    }
    assert(sv.take(s.len() as int) =~= sv);
    n
}

fn log2_of(x: u64) -> (r: u64)
    ensures
        r == log2_floor(x as nat),
{
    let mut y = x;
    let mut l: u64 = 0;
    proof {
        lemma_log2_le(x as nat);
    }
    while y >= 2
        invariant
            l + log2_floor(y as nat) == log2_floor(x as nat),
            log2_floor(x as nat) <= x,
        decreases y,
    {
        y = y / 2;
        l = l + 1;
    }
    l
}

/// The hashed feature vector of a term list.
fn feature_vector(ts: &Vec<String>) -> (r: Vec<u64>)
    ensures
        r.len() == BUCKETS,
        forall|j: u64| j < BUCKETS ==> #[trigger] r@[j as int] == component(views(ts@), j),
{
    let ghost tv = views(ts@);
    let mut v: Vec<u64> = Vec::new();
    let mut b: u64 = 0;
    while b < BUCKETS
        invariant
            0 <= b <= BUCKETS,
            v.len() == b,
            forall|j: int| 0 <= j < b ==> v@[j] == 0,
        decreases BUCKETS - b,
    {
        v.push(0);
        b = b + 1;
    }
    let mut t: usize = 0;
    while t < ts.len()
        invariant
            0 <= t <= ts.len(),
            tv == views(ts@),
            v.len() == BUCKETS,
            forall|j: u64| j < BUCKETS ==> #[trigger] v@[j as int] == component(tv.take(t as int), j),
        decreases ts.len() - t,
    {
        assert(tv.take(t + 1).drop_last() =~= tv.take(t as int));
        assert(tv.take(t + 1).last() == ts@[t as int]@);
        let chars = chars_of(ts[t].as_str());
        let h = hash_chars(&chars);
        let j = h % BUCKETS;
        if v[j as usize] < BUCKET_CAP {
            let c = v[j as usize];
            v.set(j as usize, c + 1);
        }
        assert forall|k: u64| k < BUCKETS implies #[trigger] v@[k as int] == component(tv.take(t + 1), k) by {
            lemma_component_le(tv.take(t as int), k);
        }
        t = t + 1;
    }
    assert(tv.take(ts.len() as int) =~= tv);
    v
}

fn dot(a: &Vec<u64>, b: &Vec<u64>, ghost_a: Ghost<Seq<Seq<char>>>, ghost_b: Ghost<Seq<Seq<char>>>) -> (r: u64)
    requires
        a.len() == BUCKETS,
        b.len() == BUCKETS,
        forall|j: u64| j < BUCKETS ==> #[trigger] a@[j as int] == component(ghost_a@, j),
        forall|j: u64| j < BUCKETS ==> #[trigger] b@[j as int] == component(ghost_b@, j),
    ensures
        r == dot_upto(ghost_a@, ghost_b@, BUCKETS),
{
    let mut s: u64 = 0;
    let mut j: u64 = 0;
    while j < BUCKETS
        invariant
            0 <= j <= BUCKETS,
            a.len() == BUCKETS,
            b.len() == BUCKETS,
            forall|k: u64| k < BUCKETS ==> #[trigger] a@[k as int] == component(ghost_a@, k),
            forall|k: u64| k < BUCKETS ==> #[trigger] b@[k as int] == component(ghost_b@, k),
            s == dot_upto(ghost_a@, ghost_b@, j),
        decreases BUCKETS - j,
    {
        proof {
            lemma_dot_le(ghost_a@, ghost_b@, (j + 1) as u64);
            lemma_component_le(ghost_a@, j);
            lemma_component_le(ghost_b@, j);
        }
        let x = a[j as usize];
        let y = b[j as usize];
        assert(x * y <= 65025) by (nonlinear_arith)
            requires
                x <= 255,
                y <= 255,
        ;
        s = s + x * y;
        j = j + 1;
    }
    s
}

/// Dual lexical and semantic retrieval over market metadata.
pub struct MarketIndex {
    records: Vec<MarketRecord>,
    cfg: TokenizationConfig,
}

/// Market ids are unique among `rs`.
pub open spec fn unique_market_ids(rs: Seq<MarketRecord>) -> bool {
    forall|i: int, j: int|
        0 <= i < rs.len() && 0 <= j < rs.len() && i != j ==> (#[trigger] rs[i]).market_id@ != (
        #[trigger] rs[j]).market_id@
}

/// The records after adding `rec`: it replaces the record of the same market
/// in place, or is appended.
pub open spec fn with_record(rs: Seq<MarketRecord>, rec: MarketRecord) -> Seq<MarketRecord> {
    if exists|i: int| 0 <= i < rs.len() && (#[trigger] rs[i]).market_id@ == rec.market_id@ {
        rs.update(
            choose|i: int| 0 <= i < rs.len() && (#[trigger] rs[i]).market_id@ == rec.market_id@,
            rec,
        )
    } else {
        rs.push(rec)
    }
}

/// The market text of these fields has more than [`MAX_TERMS`] terms under `cfg`.
pub open spec fn too_many_terms(q: Seq<char>, d: Seq<char>, c: Seq<char>, cfg: TokenizationConfig) -> bool {
    exists|n: Seq<char>|
        is_normalization(indexed_text(q, d, c), n, cfg.lowercase, cfg.strip_punct) && #[trigger] kept_words(
            split_words(n),
            cfg.min_token_len as nat,
            views(cfg.stop_words@),
        ).len() > MAX_TERMS
}

/// Some record of `rs` is for market `id`.
pub open spec fn indexed(rs: Seq<MarketRecord>, id: Seq<char>) -> bool {
    exists|i: int| 0 <= i < rs.len() && (#[trigger] rs[i]).market_id@ == id
}

/// Adding a record keeps every indexed market indexed and indexes the new one.
pub proof fn lemma_with_record_keeps(rs: Seq<MarketRecord>, rec: MarketRecord, id: Seq<char>)
    ensures
        indexed(rs, id) ==> indexed(with_record(rs, rec), id),
        indexed(with_record(rs, rec), rec.market_id@),
        with_record(rs, rec).len() >= rs.len(),
{
    let w = with_record(rs, rec);
    if exists|i: int| 0 <= i < rs.len() && (#[trigger] rs[i]).market_id@ == rec.market_id@ {
        let j = choose|i: int| 0 <= i < rs.len() && (#[trigger] rs[i]).market_id@ == rec.market_id@;
        assert(w[j] == rec);
        if indexed(rs, id) {
            let k = choose|i: int| 0 <= i < rs.len() && (#[trigger] rs[i]).market_id@ == id;
            if k == j {
                assert(w[j].market_id@ == id);
            } else {
                assert(w[k] == rs[k]);
            }
        }
    } else {
        assert(w[rs.len() as int] == rec);
        if indexed(rs, id) {
            let k = choose|i: int| 0 <= i < rs.len() && (#[trigger] rs[i]).market_id@ == id;
            assert(w[k] == rs[k]);
        }
    }
}

/// `r` is the candidate list of the records at positions `ix` with scores `s`.
pub open spec fn candidates_at(
    r: Seq<RawCandidate>,
    rs: Seq<MarketRecord>,
    s: Seq<i64>,
    ix: Seq<usize>,
) -> bool {
    &&& r.len() == ix.len()
    &&& forall|j: int|
        0 <= j < r.len() ==> {
            let rec = rs[ix[j] as int];
            &&& (#[trigger] r[j]).market_id@ == rec.market_id@
            &&& r[j].score == s[ix[j] as int]
            &&& r[j].text@ == rec.text@
            &&& r[j].end_time == rec.end_time
        }
}

/// `r` is a lexical retrieval result of `idx` for the query terms `q`, top `k`.
pub open spec fn is_lexical_result(idx: MarketIndex, q: Seq<Seq<char>>, k: nat, r: Seq<RawCandidate>) -> bool {
    exists|ix: Seq<usize>|
        is_top_k(idx.lexical_scores(q), k, ix) && candidates_at(r, idx.records_spec(), idx.lexical_scores(q), ix)
}

/// `r` is a semantic retrieval result of `idx` for the text `raw`, top `k`.
pub open spec fn is_semantic_result(idx: MarketIndex, raw: Seq<char>, k: nat, r: Seq<RawCandidate>) -> bool {
    exists|q: Seq<Seq<char>>, n: Seq<char>, ix: Seq<usize>|
        is_normalization(raw, n, idx.config().lowercase, idx.config().strip_punct) && q == kept_words(
            split_words(n),
            idx.config().min_token_len as nat,
            views(idx.config().stop_words@),
        ) && is_top_k(idx.semantic_scores(q), k, ix) && candidates_at(
            r,
            idx.records_spec(),
            idx.semantic_scores(q),
            ix,
        )
}

impl MarketIndex {
    pub closed spec fn records_spec(&self) -> Seq<MarketRecord> {
        self.records@
    }

    pub closed spec fn config(&self) -> TokenizationConfig {
        self.cfg
    }

    pub open spec fn wf(&self) -> bool {
        let rs = self.records_spec();
        &&& unique_market_ids(rs)
        &&& rs.len() <= MAX_MARKETS
        &&& forall|i: int| 0 <= i < rs.len() ==> (#[trigger] rs[i]).terms.len() <= MAX_TERMS
    }

    /// Lexical scores of every market for the query terms, clamped to `i64`.
    pub open spec fn lexical_scores(&self, q: Seq<Seq<char>>) -> Seq<i64> {
        let rs = self.records_spec();
        Seq::new(rs.len(), |i: int| clamp_i64(lexical_score(rs, rs[i], q) as int))
    }

    /// Semantic scores of every market for the query terms, clamped to `i64`.
    pub open spec fn semantic_scores(&self, q: Seq<Seq<char>>) -> Seq<i64> {
        let rs = self.records_spec();
        Seq::new(rs.len(), |i: int| clamp_i64(semantic_score(q, terms_of(rs[i])) as int))
    }

    /// An empty index that tokenises with the default configuration.
    pub fn new() -> (r: MarketIndex)
        ensures
            r.wf(),
            r.records_spec().len() == 0,
            r.config().lowercase && r.config().strip_punct && r.config().min_token_len == 1,
            views(r.config().stop_words@) == default_stop_words(),
    {
        MarketIndex { records: Vec::new(), cfg: TokenizationConfig::default_config() }
    }

    /// Number of indexed markets.
    pub fn len(&self) -> (r: usize)
        ensures
            r == self.records_spec().len(),
    {
        self.records.len()
    }

    /// Indexes a market, replacing the record of the same id in place.
    /// Fails, changing nothing, when a new market would exceed
    /// [`MAX_MARKETS`] or the market's text has more than [`MAX_TERMS`] terms.
    pub fn add_market(
        &mut self,
        id: &str,
        question: &str,
        description: &str,
        category: &str,
        end_time: Option<i64>,
    ) -> (r: Result<(), IndexError>)
        requires
            old(self).wf(),
        ensures
            final(self).wf(),
            final(self).config() == old(self).config(),
            r is Ok ==> exists|rec: MarketRecord|
                is_record_of(rec, id@, question@, description@, category@, end_time, old(self).config())
                    && final(self).records_spec() == with_record(old(self).records_spec(), rec),
            r is Err ==> final(self).records_spec() == old(self).records_spec(),
            (r == Err::<(), IndexError>(IndexError::TooManyTerms)) == too_many_terms(
                question@,
                description@,
                category@,
                old(self).config(),
            ),
            (r == Err::<(), IndexError>(IndexError::Full)) == (!too_many_terms(
                question@,
                description@,
                category@,
                old(self).config(),
            ) && !indexed(old(self).records_spec(), id@) && old(self).records_spec().len()
                >= MAX_MARKETS),
    {
        let mut text = chars_of(question);
        text.push(' ');
        let mut d = chars_of(description);
        text.append(&mut d);
        text.push(' ');
        let mut c = chars_of(category);
        text.append(&mut c);
        assert(text@ =~= indexed_text(question@, description@, category@));
        let (norm, terms) = tokenize_chars(&text, &self.cfg);
        proof {
            let n0 = norm@;
            if too_many_terms(question@, description@, category@, self.cfg) {
                let n = choose|n: Seq<char>|
                    is_normalization(indexed_text(question@, description@, category@), n, self.cfg.lowercase, self.cfg.strip_punct)
                        && #[trigger] kept_words(split_words(n), self.cfg.min_token_len as nat, views(self.cfg.stop_words@)).len() > MAX_TERMS;
                lemma_normalization_unique(indexed_text(question@, description@, category@), n, n0, self.cfg.lowercase, self.cfg.strip_punct);
            }
            assert(views(terms@).len() == terms.len());
        }
        if terms.len() > MAX_TERMS {
            assert(too_many_terms(question@, description@, category@, self.cfg));
            return Err(IndexError::TooManyTerms);
        }
        let rec = MarketRecord {
            market_id: string_of(&chars_of(id)),
            question: string_of(&chars_of(question)),
            description: string_of(&chars_of(description)),
            category: string_of(&chars_of(category)),
            end_time,
            text: string_of(&norm),
            terms,
        };
        let ghost rs0 = self.records@;
        let ghost grec = rec;
        assert(is_record_of(grec, id@, question@, description@, category@, end_time, self.cfg));
        let mut i: usize = 0;
        while i < self.records.len()
            invariant
                0 <= i <= self.records.len(),
                self.records@ == rs0,
                *self == *old(self),
                self.wf(),
                rec.market_id@ == id@,
                rec == grec,
                rec.terms.len() <= MAX_TERMS,
                !too_many_terms(question@, description@, category@, old(self).config()),
                is_record_of(grec, id@, question@, description@, category@, end_time, old(self).config()),
                forall|j: int| 0 <= j < i ==> (#[trigger] self.records@[j]).market_id@ != id@,
            decreases self.records.len() - i,
        {
            if self.records[i].market_id == rec.market_id {
                self.records.set(i, rec);
                proof {
                    assert(rs0[i as int].market_id@ == id@);
                    let k = choose|k: int| 0 <= k < rs0.len() && (#[trigger] rs0[k]).market_id@ == id@;
                    assert(k == i);
                    assert(self.records@ == with_record(rs0, grec));
                    assert(unique_market_ids(self.records@)) by {
                        assert forall|a: int, b: int|
                            0 <= a < self.records@.len() && 0 <= b < self.records@.len() && a != b
                                implies (#[trigger] self.records@[a]).market_id@ != (#[trigger] self.records@[b]).market_id@ by {
                            if a != i && b != i {
                                assert(self.records@[a] == rs0[a]);
                                assert(self.records@[b] == rs0[b]);
                            } else if a == i {
                                assert(self.records@[b] == rs0[b]);
                            } else {
                                assert(self.records@[a] == rs0[a]);
                            }
                        }
                    }
                    assert(forall|j: int| 0 <= j < self.records@.len() ==> (#[trigger] self.records@[j]).terms.len() <= MAX_TERMS) by {
                        assert forall|j: int| 0 <= j < self.records@.len() implies (#[trigger] self.records@[j]).terms.len() <= MAX_TERMS by {
                            if j != i {
                                assert(self.records@[j] == rs0[j]);
                            }
                        }
                    }
                }
                return Ok(());
            }
            i = i + 1;
        }
        if self.records.len() >= MAX_MARKETS {
            assert(!indexed(rs0, id@));
            return Err(IndexError::Full);
        }
        self.records.push(rec);
        proof {
            assert(!exists|k: int| 0 <= k < rs0.len() && (#[trigger] rs0[k]).market_id@ == id@);
            assert(self.records@ == with_record(rs0, grec));
            assert(unique_market_ids(self.records@)) by {
                assert forall|a: int, b: int|
                    0 <= a < self.records@.len() && 0 <= b < self.records@.len() && a != b
                        implies (#[trigger] self.records@[a]).market_id@ != (#[trigger] self.records@[b]).market_id@ by {
                    if a < rs0.len() && b < rs0.len() {
                        assert(self.records@[a] == rs0[a]);
                        assert(self.records@[b] == rs0[b]);
                    } else if a < rs0.len() {
                        assert(self.records@[a] == rs0[a]);
                    } else {
                        assert(self.records@[b] == rs0[b]);
                    }
                }
            }
            assert(forall|j: int| 0 <= j < self.records@.len() ==> (#[trigger] self.records@[j]).terms.len() <= MAX_TERMS) by {
                assert forall|j: int| 0 <= j < self.records@.len() implies (#[trigger] self.records@[j]).terms.len() <= MAX_TERMS by {
                    if j < rs0.len() {
                        assert(self.records@[j] == rs0[j]);
                    }
                }
            }
        }
        Ok(())
    }

    fn total_terms_count(&self) -> (r: u64)
        requires
            self.wf(),
        ensures
            r == total_terms(self.records_spec()),
            r <= MAX_MARKETS * MAX_TERMS,
    {
        let rs = &self.records;
        let mut n: u64 = 0;
        let mut i: usize = 0;
        while i < rs.len()
            invariant
                self.wf(),
                rs@ == self.records_spec(),
                0 <= i <= rs.len(),
                n == total_terms(rs@.take(i as int)),
                n <= i * MAX_TERMS,
            decreases rs.len() - i,
        {
            assert(rs@.take(i + 1).drop_last() =~= rs@.take(i as int));
            assert(rs@[i as int].terms.len() <= MAX_TERMS);
            n = n + rs[i].terms.len() as u64;
            i = i + 1;
        }
        assert(rs@.take(rs.len() as int) =~= rs@);
        n
    }

    fn docs_with_term(&self, t: &String) -> (r: u64)
        requires
            self.wf(),
        ensures
            r == docs_with(self.records_spec(), t@),
            r <= self.records_spec().len(),
    {
        let rs = &self.records;
        let mut n: u64 = 0;
        let mut i: usize = 0;
        while i < rs.len()
            invariant
                self.wf(),
                rs@ == self.records_spec(),
                0 <= i <= rs.len(),
                n == docs_with(rs@.take(i as int), t@),
                n <= i,
            decreases rs.len() - i,
        {
            assert(rs@.take(i + 1).drop_last() =~= rs@.take(i as int));
            if count_term(&rs[i].terms, t) > 0 {
                n = n + 1;
            }
            i = i + 1;
        }
        assert(rs@.take(rs.len() as int) =~= rs@);
        n
    }

    fn lexical_scores_of(&self, q: &Vec<String>) -> (r: Vec<i64>)
        requires
            self.wf(),
        ensures
            r@ == self.lexical_scores(views(q@)),
    {
        let ghost qv = views(q@);
        let ghost rs = self.records_spec();
        let n = self.records.len() as u64;
        let total = self.total_terms_count();
        let mut idfs: Vec<u64> = Vec::new();
        let mut t: usize = 0;
        while t < q.len()
            invariant
                self.wf(),
                rs == self.records_spec(),
                qv == views(q@),
                n == rs.len(),
                0 <= t <= q.len(),
                idfs.len() == t,
                forall|k: int| 0 <= k < t ==> #[trigger] idfs@[k] == idf(rs, qv[k]) && idfs@[k] <= 2 * MAX_MARKETS + 3,
            decreases q.len() - t,
        {
            let dw = self.docs_with_term(&q[t]);
            let ratio = (2 * n + 2) / (2 * dw + 1);
            let l = log2_of(ratio);
            proof {
                lemma_log2_le(ratio as nat);
                assert(ratio <= 2 * n + 2) by (nonlinear_arith)
                    requires
                        ratio == (2 * n + 2) / (2 * dw + 1),
                        dw >= 0,
                ;
            }
            idfs.push(l + 1);
            t = t + 1;
        }
        let mut scores: Vec<i64> = Vec::new();
        let mut i: usize = 0;
        while i < self.records.len()
            invariant
                self.wf(),
                rs == self.records_spec(),
                qv == views(q@),
                n == rs.len(),
                total == total_terms(rs),
                total <= MAX_MARKETS * MAX_TERMS,
                idfs.len() == q.len(),
                forall|k: int| 0 <= k < q.len() ==> #[trigger] idfs@[k] == idf(rs, qv[k]) && idfs@[k] <= 2 * MAX_MARKETS + 3,
                0 <= i <= rs.len(),
                scores.len() == i,
                forall|k: int| 0 <= k < i ==> #[trigger] scores@[k] == clamp_i64(lexical_score(rs, rs[k], qv) as int),
            decreases rs.len() - i,
        {
            let rec = &self.records[i];
            let dl = rec.terms.len() as u64;
            assert(dl <= MAX_TERMS);
            let mut s: u128 = 0;
            let mut t: usize = 0;
            while t < q.len()
                invariant
                    self.wf(),
                    rs == self.records_spec(),
                    qv == views(q@),
                    *rec == rs[i as int],
                    0 <= i < rs.len(),
                    n == rs.len(),
                    total == total_terms(rs),
                    total <= MAX_MARKETS * MAX_TERMS,
                    dl == rec.terms.len(),
                    dl <= MAX_TERMS,
                    idfs.len() == q.len(),
                    forall|k: int| 0 <= k < q.len() ==> #[trigger] idfs@[k] == idf(rs, qv[k]) && idfs@[k] <= 2 * MAX_MARKETS + 3,
                    0 <= t <= q.len(),
                    s == lexical_score(rs, *rec, qv.take(t as int)),
                    s <= t * 0x1_0000_0000_0000,
                decreases q.len() - t,
            {
                assert(qv.take(t + 1).drop_last() =~= qv.take(t as int));
                assert(qv.take(t + 1).last() == q@[t as int]@);
                let tf = count_term(&rec.terms, &q[t]) as u64;
                proof {
                    lemma_count_le(terms_of(*rec), q@[t as int]@);
                    assert(tf <= dl);
                }
                let w: u128 = if tf == 0 {
                    0
                } else {
                    let u = UNIT as u128;
                    assert(total > 0) by {
                        lemma_total_ge(rs, i as int);
                    }
                    assert(u * 22 * (tf as u128) * (total as u128) <= 0x1_0000_0000_0000_0000_0000 && 10 * (tf as u128) * (total as u128) + 3 * (total as u128) + 9 * (dl as u128) * (n as u128) <= 0x1_0000_0000_0000_0000_0000) by (nonlinear_arith)
                        requires
                            u == 1_000_000,
                            tf <= 100_000,
                            dl <= 100_000,
                            n <= 1_000_000,
                            total <= 100_000_000_000,
                    ;
                    let a: u128 = u * 22;
                    assert(a * (tf as u128) <= 0x1_0000_0000_0000_0000 && a * (tf as u128) * (total as u128) <= 0x1_0000_0000_0000_0000_0000) by (nonlinear_arith)
                        requires
                            a == 22_000_000,
                            tf <= 100_000,
                            total <= 100_000_000_000,
                    ;
                    let b: u128 = a * (tf as u128);
                    let num: u128 = b * (total as u128);
                    assert(num == u * 22 * (tf as u128) * (total as u128)) by (nonlinear_arith)
                        requires
                            num == b * (total as u128),
                            b == a * (tf as u128),
                            a == u * 22,
                    ;
                    let den: u128 = 10 * (tf as u128) * (total as u128) + 3 * (total as u128) + 9 * (dl as u128) * (n as u128);
                    num / den
                };
                proof {
                    lemma_total_ge(rs, i as int);
                    lemma_weight_bound(tf as nat, dl as nat, n as nat, total as nat);
                }
                assert(w <= 3 * UNIT);
                let g: u128 = idfs[t] as u128;
                assert(g * w <= 0x1_0000_0000_0000) by (nonlinear_arith)
                    requires
                        g <= 2 * MAX_MARKETS + 3,
                        w <= 3 * UNIT,
                ;
                let x: u128 = g * w;
                s = s + x;
                t = t + 1;
            }
            assert(qv.take(q.len() as int) =~= qv);
            let v: i64 = if s > i64::MAX as u128 {
                i64::MAX
            } else {
                s as i64
            };
            scores.push(v);
            i = i + 1;
        }
        assert(scores@ =~= self.lexical_scores(qv));
        scores
    }

    fn semantic_scores_of(&self, q: &Vec<String>) -> (r: Vec<i64>)
        requires
            self.wf(),
        ensures
            r@ == self.semantic_scores(views(q@)),
    {
        let ghost qv = views(q@);
        let ghost rs = self.records_spec();
        let qvec = feature_vector(q);
        let nq = dot(&qvec, &qvec, Ghost(qv), Ghost(qv));
        let mut scores: Vec<i64> = Vec::new();
        let mut i: usize = 0;
        while i < self.records.len()
            invariant
                rs == self.records_spec(),
                qv == views(q@),
                qvec.len() == BUCKETS,
                forall|j: u64| j < BUCKETS ==> #[trigger] qvec@[j as int] == component(qv, j),
                nq == dot_upto(qv, qv, BUCKETS),
                0 <= i <= rs.len(),
                scores.len() == i,
                forall|k: int| 0 <= k < i ==> #[trigger] scores@[k] == clamp_i64(semantic_score(qv, terms_of(rs[k])) as int),
            decreases rs.len() - i,
        {
            let ghost dv = terms_of(rs[i as int]);
            let dvec = feature_vector(&self.records[i].terms);
            let nd = dot(&dvec, &dvec, Ghost(dv), Ghost(dv));
            let d = dot(&qvec, &dvec, Ghost(qv), Ghost(dv));
            proof {
                lemma_dot_le(qv, qv, BUCKETS);
                lemma_dot_le(dv, dv, BUCKETS);
                lemma_dot_le(qv, dv, BUCKETS);
            }
            let v: i64 = if nq == 0 || nd == 0 {
                0
            } else {
                assert(d as u128 * d as u128 <= 0x10_0000_0000_0000 && nq as u128 * nd as u128 <= 0x10_0000_0000_0000) by (nonlinear_arith)
                    requires
                        d <= 64 * 65025,
                        nq <= 64 * 65025,
                        nd <= 64 * 65025,
                ;
                let dd: u128 = d as u128 * d as u128;
                let num: u128 = UNIT as u128 * dd;
                let den: u128 = nq as u128 * nd as u128;
                assert(den >= 1) by (nonlinear_arith)
                    requires
                        den == nq as u128 * nd as u128,
                        nq >= 1,
                        nd >= 1,
                ;
                let x = num / den;
                assert(num == (UNIT as nat) * (d as nat) * (d as nat)) by (nonlinear_arith)
                    requires
                        num == UNIT as u128 * dd,
                        dd == d as u128 * d as u128,
                ;
                assert(x == semantic_score(qv, dv));
                if x > i64::MAX as u128 {
                    i64::MAX
                } else {
                    x as i64
                }
            };
            scores.push(v);
            i = i + 1;
        }
        assert(scores@ =~= self.semantic_scores(qv));
        scores
    }

    fn candidates_from(&self, scores: &Vec<i64>, ix: &Vec<usize>) -> (r: Vec<RawCandidate>)
        requires
            scores.len() == self.records_spec().len(),
            forall|j: int| 0 <= j < ix.len() ==> (#[trigger] ix@[j]) < scores.len(),
        ensures
            candidates_at(r@, self.records_spec(), scores@, ix@),
    {
        let mut out: Vec<RawCandidate> = Vec::new();
        let mut j: usize = 0;
        while j < ix.len()
            invariant
                scores.len() == self.records_spec().len(),
                forall|k: int| 0 <= k < ix.len() ==> (#[trigger] ix@[k]) < scores.len(),
                0 <= j <= ix.len(),
                out.len() == j,
                forall|k: int|
                    0 <= k < j ==> {
                        let rec = self.records_spec()[ix@[k] as int];
                        &&& (#[trigger] out@[k]).market_id@ == rec.market_id@
                        &&& out@[k].score == scores@[ix@[k] as int]
                        &&& out@[k].text@ == rec.text@
                        &&& out@[k].end_time == rec.end_time
                    },
            decreases ix.len() - j,
        {
            let rec = &self.records[ix[j]];
            out.push(
                RawCandidate {
                    market_id: rec.market_id.clone(),
                    score: scores[ix[j]],
                    text: rec.text.clone(),
                    end_time: rec.end_time,
                },
            );
            j = j + 1;
        }
        out
    }

    /// Lexical retrieval: the `k` markets of highest positive BM25-style
    /// score for the query tokens, best first.
    pub fn search(&self, tokens: &Vec<String>, k: usize) -> (r: Vec<RawCandidate>)
        requires
            self.wf(),
        ensures
            is_lexical_result(*self, views(tokens@), k as nat, r@),
    {
        let scores = self.lexical_scores_of(tokens);
        let ix = top_k(&scores, k);
        let r = self.candidates_from(&scores, &ix);
        assert(is_top_k(scores@, k as nat, ix@) && candidates_at(r@, self.records_spec(), scores@, ix@));
        r
    }

    /// Semantic retrieval: the `k` markets whose hashed term vectors are most
    /// similar (by cosine) to that of the tokens of `raw_text`, best first.
    pub fn search_semantic(&self, raw_text: &str, k: usize) -> (r: Vec<RawCandidate>)
        requires
            self.wf(),
        ensures
            is_semantic_result(*self, raw_text@, k as nat, r@),
    {
        let text = chars_of(raw_text);
        let (norm, q) = tokenize_chars(&text, &self.cfg);
        let scores = self.semantic_scores_of(&q);
        let ix = top_k(&scores, k);
        let r = self.candidates_from(&scores, &ix);
        assert(is_normalization(raw_text@, norm@, self.config().lowercase, self.config().strip_punct)
            && views(q@) == kept_words(
            split_words(norm@),
            self.config().min_token_len as nat,
            views(self.config().stop_words@),
        ) && is_top_k(self.semantic_scores(views(q@)), k as nat, ix@) && candidates_at(
            r@,
            self.records_spec(),
            self.semantic_scores(views(q@)),
            ix@,
        ));
        r
    }
}

proof fn lemma_total_ge(rs: Seq<MarketRecord>, i: int)
    requires
        0 <= i < rs.len(),
    ensures
        total_terms(rs) >= rs[i].terms.len(),
    decreases rs.len(),
{
    if i < rs.len() - 1 {
        lemma_total_ge(rs.drop_last(), i);
    }
}

} // verus!
