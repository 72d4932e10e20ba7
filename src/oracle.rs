use vstd::prelude::*;

use crate::analyst::{parse_sentiment, sentiment_of, Signal};
use crate::text::{chars_of, string_of};
use crate::types::UNIT;

verus! {

/// What `str::trim` leaves of a text.
pub uninterp spec fn trimmed_of(s: Seq<char>) -> Seq<char>;

/// Relies on `str::trim`: the text without leading and trailing whitespace.
#[verifier::external_body]
fn trim_text(s: &str) -> (r: &str)
    ensures
        r@ == trimmed_of(s@),
{
    s.trim()
}

/// `s` without every leading repetition of `p`.
pub open spec fn strip_prefixes(s: Seq<char>, p: Seq<char>) -> Seq<char>
    decreases s.len(),
{
    if p.len() > 0 && s.len() >= p.len() && s.take(p.len() as int) == p {
        strip_prefixes(s.skip(p.len() as int), p)
    } else {
        s
    }
}

/// `s` without every trailing repetition of `p`.
pub open spec fn strip_suffixes(s: Seq<char>, p: Seq<char>) -> Seq<char>
    decreases s.len(),
{
    if p.len() > 0 && s.len() >= p.len() && s.skip(s.len() - p.len()) == p {
        strip_suffixes(s.take(s.len() - p.len()), p)
    } else {
        s
    }
}

/// The JSON payload of an oracle reply: trimmed, with Markdown code fences
/// (an opening fence tagged `json` or bare, and a closing fence) removed.
pub open spec fn oracle_payload(s: Seq<char>) -> Seq<char> {
    strip_suffixes(strip_prefixes(strip_prefixes(trimmed_of(s), "```json"@), "```"@), "```"@)
}

fn starts_with_at(s: &Vec<char>, from: usize, p: &Vec<char>) -> (r: bool)
    requires
        from <= s.len(),
    ensures
        r == (s.len() - from >= p.len() && s@.subrange(from as int, from + p.len()) == p@),
{
    if s.len() - from < p.len() {
        return false;
    }
    let mut k: usize = 0;
    while k < p.len()
        invariant
            from + p.len() <= s.len(),
            0 <= k <= p.len(),
            forall|m: int| 0 <= m < k ==> s@[from + m] == p@[m],
        decreases p.len() - k,
    {
        if s[from + k] != p[k] {
            assert(s@.subrange(from as int, from + p.len())[k as int] != p@[k as int]);
            return false;
        }
        k = k + 1;
    }
    assert(s@.subrange(from as int, from + p.len()) =~= p@);
    true
}

fn ends_with_at(s: &Vec<char>, end: usize, p: &Vec<char>) -> (r: bool)
    requires
        end <= s.len(),
    ensures
        r == (end >= p.len() && s@.subrange(end - p.len(), end as int) == p@),
{
    if end < p.len() {
        return false;
    }
    let start = end - p.len();
    let mut k: usize = 0;
    while k < p.len()
        invariant
            start + p.len() == end,
            end <= s.len(),
            0 <= k <= p.len(),
            forall|m: int| 0 <= m < k ==> s@[start + m] == p@[m],
        decreases p.len() - k,
    {
        if s[start + k] != p[k] {
            assert(s@.subrange(start as int, end as int)[k as int] != p@[k as int]);
            return false;
        }
        k = k + 1;
    }
    assert(s@.subrange(start as int, end as int) =~= p@);
    true
}

fn strip_front(s: &Vec<char>, from: usize, p: &Vec<char>) -> (r: usize)
    requires
        from <= s.len(),
    ensures
        from <= r <= s.len(),
        s@.skip(r as int) == strip_prefixes(s@.skip(from as int), p@),
{
    let mut i = from;
    while p.len() > 0 && starts_with_at(s, i, p)
        invariant
            from <= i <= s.len(),
            strip_prefixes(s@.skip(i as int), p@) == strip_prefixes(s@.skip(from as int), p@),
        decreases s.len() - i,
    {
        assert(s@.skip(i as int).take(p.len() as int) =~= s@.subrange(i as int, i + p.len()));
        assert(s@.skip(i as int).skip(p.len() as int) =~= s@.skip(i + p.len()));
        i = i + p.len();
    }
    proof {
        if p.len() > 0 && s@.skip(i as int).len() >= p@.len() {
            assert(s@.skip(i as int).take(p.len() as int) =~= s@.subrange(i as int, i + p.len()));
        }
    }
    i
}

fn strip_back(s: &Vec<char>, from: usize, end: usize, p: &Vec<char>) -> (r: usize)
    requires
        from <= end <= s.len(),
    ensures
        from <= r <= end,
        s@.subrange(from as int, r as int) == strip_suffixes(s@.subrange(from as int, end as int), p@),
{
    let mut e = end;
    while p.len() > 0 && e - from >= p.len() && ends_with_at(s, e, p)
        invariant
            from <= e <= end,
            end <= s.len(),
            strip_suffixes(s@.subrange(from as int, e as int), p@) == strip_suffixes(
                s@.subrange(from as int, end as int),
                p@,
            ),
        decreases e,
    {
        let ghost t = s@.subrange(from as int, e as int);
        assert(t.skip(t.len() - p.len()) =~= s@.subrange(e - p.len(), e as int));
        assert(t.take(t.len() - p.len()) =~= s@.subrange(from as int, e - p.len()));
        e = e - p.len();
    }
    proof {
        let t = s@.subrange(from as int, e as int);
        if p.len() > 0 && t.len() >= p@.len() {
            assert(t.skip(t.len() - p.len()) =~= s@.subrange(e - p.len(), e as int));
        }
    }
    e
}

/// Extracts the JSON payload of an oracle reply (see [`oracle_payload`]).
pub fn clean_oracle_content(content: &str) -> (r: String)
    ensures
        r@ == oracle_payload(content@),
{
    strip_code_fences(trim_text(content))
}

/// Removes Markdown code fences from trimmed text: leading `json`-tagged
/// fences, then leading bare fences, then trailing fences.
pub fn strip_code_fences(trimmed: &str) -> (r: String)
    ensures
        r@ == strip_suffixes(strip_prefixes(strip_prefixes(trimmed@, "```json"@), "```"@), "```"@),
{
    let t = chars_of(trimmed);
    let fence_json = chars_of("```json");
    let fence = chars_of("```");
    let a = strip_front(&t, 0, &fence_json);
    assert(t@.skip(0) =~= t@);
    let b = strip_front(&t, a, &fence);
    let e = strip_back(&t, b, t.len(), &fence);
    assert(t@.subrange(b as int, t.len() as int) =~= t@.skip(b as int));
    let mut out: Vec<char> = Vec::new();
    let mut i = b;
    while i < e
        invariant
            b <= i <= e,
            e <= t.len(),
            out@ == t@.subrange(b as int, i as int),
        decreases e - i,
    {
        out.push(t[i]);
        assert(out@ =~= t@.subrange(b as int, i + 1));
        i = i + 1;
    }
    string_of(&out)
}

/// The oracle's signal from its sentiment label and its confidence
/// (millionths), the confidence clamped to `[0, 1]`.
pub fn signal_from(sentiment: &str, confidence: i64) -> (r: Signal)
    ensures
        r.sentiment == sentiment_of(sentiment@),
        r.confidence == if confidence < 0 {
            0
        } else if confidence > UNIT {
            UNIT
        } else {
            confidence
        },
{
    let c = if confidence < 0 {
        0
    } else if confidence > UNIT {
        UNIT
    } else {
        confidence
    };
    Signal { sentiment: parse_sentiment(sentiment), confidence: c }
}

} // verus!
