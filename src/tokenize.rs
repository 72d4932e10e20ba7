use vstd::prelude::*;

use crate::text::{ascii_lower, chars_of, lower_code, string_of};
use crate::types::RawNews;

verus! {

/// Options of the tokenizer.
#[derive(Clone, Debug)]
pub struct TokenizationConfig {
    pub lowercase: bool,
    pub strip_punct: bool,
    /// Tokens shorter than this many characters are dropped.
    pub min_token_len: usize,
    pub stop_words: Vec<String>,
}

/// A news item reduced to normalised text and its tokens.
#[derive(Clone, Debug)]
pub struct TokenizedNews {
    pub normalized: String,
    pub tokens: Vec<String>,
}

/// ASCII punctuation: printable ASCII that is neither a letter, a digit nor a space.
pub open spec fn is_ascii_punct(c: char) -> bool {
    ('!' <= c && c <= '/') || (':' <= c && c <= '@') || ('[' <= c && c <= '`') || ('{' <= c
        && c <= '~')
}

/// Characters that separate tokens.
pub open spec fn is_separator(c: char) -> bool {
    c == ' ' || c == '\t' || c == '\n' || c == '\r'
}

/// The code of the normalised form of one character.
pub open spec fn norm_code(c: char, lowercase: bool, strip_punct: bool) -> u32 {
    if strip_punct && is_ascii_punct(c) {
        ' ' as u32
    } else if lowercase {
        lower_code(c)
    } else {
        c as u32
    }
}

/// Splitting state after reading `s`: the finished words and the word in progress.
pub open spec fn split_state(s: Seq<char>) -> (Seq<Seq<char>>, Seq<char>)
    decreases s.len(),
{
    if s.len() == 0 {
        (Seq::empty(), Seq::empty())
    } else {
        let (words, cur) = split_state(s.drop_last());
        let c = s.last();
        if is_separator(c) {
            if cur.len() > 0 {
                (words.push(cur), Seq::empty())
            } else {
                (words, cur)
            }
        } else {
            (words, cur.push(c))
        }
    }
}

/// The maximal runs of non-separator characters of `s`, in order.
pub open spec fn split_words(s: Seq<char>) -> Seq<Seq<char>> {
    let (words, cur) = split_state(s);
    if cur.len() > 0 {
        words.push(cur)
    } else {
        words
    }
}

/// A word survives filtering when it is long enough and not a stop word.
pub open spec fn keeps_word(w: Seq<char>, min_len: nat, stop: Seq<Seq<char>>) -> bool {
    w.len() >= min_len && !stop.contains(w)
}

/// The words of `ws` that survive filtering, in order.
pub open spec fn kept_words(ws: Seq<Seq<char>>, min_len: nat, stop: Seq<Seq<char>>) -> Seq<
    Seq<char>,
>
    decreases ws.len(),
{
    if ws.len() == 0 {
        Seq::empty()
    } else {
        let rest = kept_words(ws.drop_last(), min_len, stop);
        if keeps_word(ws.last(), min_len, stop) {
            rest.push(ws.last())
        } else {
            rest
        }
    }
}

/// The views of a sequence of strings.
pub open spec fn views(v: Seq<String>) -> Seq<Seq<char>> {
    v.map_values(|s: String| s@)
}

/// The text that is tokenised: title and description joined by one space.
pub open spec fn news_text(news: RawNews) -> Seq<char> {
    news.title@ + seq![' '] + news.description@
}

/// `n` is the character-wise normalisation of `t`.
pub open spec fn is_normalization(t: Seq<char>, n: Seq<char>, lowercase: bool, strip_punct: bool) -> bool {
    &&& n.len() == t.len()
    &&& forall|i: int|
        0 <= i < t.len() ==> (#[trigger] n[i]) as u32 == norm_code(t[i], lowercase, strip_punct)
}

/// The default stop words.
pub open spec fn default_stop_words() -> Seq<Seq<char>> {
    seq![
        "a"@,
        "an"@,
        "the"@,
        "of"@,
        "to"@,
        "in"@,
        "on"@,
        "for"@,
        "and"@,
        "or"@,
        "is"@,
        "are"@,
        "be"@,
        "by"@,
        "at"@,
        "with"@,
        "will"@,
    ]
}

fn push_word(v: &mut Vec<String>, w: &str)
    ensures
        views(final(v)@) == views(old(v)@).push(w@),
{
    broadcast use vstd::string::group_string_axioms;

    let x = w.to_string();
    let ghost before = v@;
    v.push(x);
    assert(views(v@) =~= views(before).push(w@));
}

impl TokenizationConfig {
    /// Lower-casing and punctuation stripping on, tokens of any length, a
    /// short list of English stop words (see [`default_stop_words`]).
    pub fn default_config() -> (r: TokenizationConfig)
        ensures
            r.lowercase,
            r.strip_punct,
            r.min_token_len == 1,
            views(r.stop_words@) == default_stop_words(),
    {
        let mut stop_words: Vec<String> = Vec::new();
        push_word(&mut stop_words, "a");
        push_word(&mut stop_words, "an");
        push_word(&mut stop_words, "the");
        push_word(&mut stop_words, "of");
        push_word(&mut stop_words, "to");
        push_word(&mut stop_words, "in");
        push_word(&mut stop_words, "on");
        push_word(&mut stop_words, "for");
        push_word(&mut stop_words, "and");
        push_word(&mut stop_words, "or");
        push_word(&mut stop_words, "is");
        push_word(&mut stop_words, "are");
        push_word(&mut stop_words, "be");
        push_word(&mut stop_words, "by");
        push_word(&mut stop_words, "at");
        push_word(&mut stop_words, "with");
        push_word(&mut stop_words, "will");
        assert(views(stop_words@) =~= default_stop_words());
        TokenizationConfig { lowercase: true, strip_punct: true, min_token_len: 1, stop_words }
    }
}

proof fn lemma_char_code_injective(a: char, b: char)
    requires
        a as u32 == b as u32,
    ensures
        a == b,
{
}

/// Normalisation is a function of the text and the options.
pub proof fn lemma_normalization_unique(t: Seq<char>, a: Seq<char>, b: Seq<char>, lowercase: bool, strip_punct: bool)
    requires
        is_normalization(t, a, lowercase, strip_punct),
        is_normalization(t, b, lowercase, strip_punct),
    ensures
        a == b,
{
    assert forall|i: int| 0 <= i < a.len() implies a[i] == b[i] by {
        assert(a[i] as u32 == norm_code(t[i], lowercase, strip_punct));
        assert(b[i] as u32 == norm_code(t[i], lowercase, strip_punct));
        lemma_char_code_injective(a[i], b[i]);
    }
    assert(a =~= b);
}

/// Normalises a text character by character.
pub fn normalize_chars(t: &Vec<char>, lowercase: bool, strip_punct: bool) -> (r: Vec<char>)
    ensures
        is_normalization(t@, r@, lowercase, strip_punct),
{
    let mut r: Vec<char> = Vec::new();
    let mut i: usize = 0;
    while i < t.len()
        invariant
            0 <= i <= t.len(),
            r.len() == i,
            forall|j: int|
                0 <= j < i ==> (#[trigger] r@[j]) as u32 == norm_code(t@[j], lowercase, strip_punct),
        decreases t.len() - i,
    {
        let c = t[i];
        let punct = ('!' <= c && c <= '/') || (':' <= c && c <= '@') || ('[' <= c && c <= '`') || (
        '{' <= c && c <= '~');
        let d = if strip_punct && punct {
            ' '
        } else if lowercase {
            ascii_lower(c)
        } else {
            c
        };
        r.push(d);
        i = i + 1;
    }
    r
}

/// Splits a text into its maximal runs of non-separator characters.
pub fn split_into_words(s: &Vec<char>) -> (r: Vec<Vec<char>>)
    ensures
        r@.map_values(|w: Vec<char>| w@) == split_words(s@),
{
    let mut words: Vec<Vec<char>> = Vec::new();
    let mut cur: Vec<char> = Vec::new();
    let mut i: usize = 0;
    while i < s.len()
        invariant
            0 <= i <= s.len(),
            (words@.map_values(|w: Vec<char>| w@), cur@) == split_state(s@.take(i as int)),
        decreases s.len() - i,
    {
        let c = s[i];
        assert(s@.take(i + 1).drop_last() =~= s@.take(i as int));
        assert(s@.take(i + 1).last() == c);
        if c == ' ' || c == '\t' || c == '\n' || c == '\r' {
            if cur.len() > 0 {
                let w = cur;
                words.push(w);
                cur = Vec::new();
                assert(words@.map_values(|w: Vec<char>| w@) =~= split_state(s@.take(i as int)).0.push(
                    w@,
                ));
            }
        } else {
            cur.push(c);
        }
        i = i + 1;
    }
    assert(s@.take(s.len() as int) =~= s@);
    if cur.len() > 0 {
        let w = cur;
        words.push(w);
        assert(words@.map_values(|w: Vec<char>| w@) =~= split_state(s@).0.push(w@));
    }
    words
}

/// Whether `w` is one of the stop words.
fn is_stop_word(w: &String, stop: &Vec<String>) -> (r: bool)
    ensures
        r == views(stop@).contains(w@),
{
    let mut i: usize = 0;
    while i < stop.len()
        invariant
            0 <= i <= stop.len(),
            forall|j: int| 0 <= j < i ==> stop@[j]@ != w@,
        decreases stop.len() - i,
    {
        if *w == stop[i] {
            assert(views(stop@)[i as int] == w@);
            return true;
        }
        i = i + 1;
    }
    assert(!views(stop@).contains(w@)) by {
        if views(stop@).contains(w@) {
            let j = choose|j: int| 0 <= j < views(stop@).len() && views(stop@)[j] == w@;
            assert(stop@[j]@ == w@);
        }
    }
    false
}

/// Normalises a text and splits it into its kept tokens (see [`TokenizedNews::from_raw`]).
pub fn tokenize_chars(text: &Vec<char>, cfg: &TokenizationConfig) -> (r: (Vec<char>, Vec<String>))
    ensures
        is_normalization(text@, r.0@, cfg.lowercase, cfg.strip_punct),
        views(r.1@) == kept_words(
            split_words(r.0@),
            cfg.min_token_len as nat,
            views(cfg.stop_words@),
        ),
{
    let norm = normalize_chars(text, cfg.lowercase, cfg.strip_punct);
    let words = split_into_words(&norm);
    let ghost wv = words@.map_values(|w: Vec<char>| w@);
    let mut tokens: Vec<String> = Vec::new();
    let mut i: usize = 0;
    while i < words.len()
        invariant
            0 <= i <= words.len(),
            wv == words@.map_values(|w: Vec<char>| w@),
            views(tokens@) == kept_words(
                wv.take(i as int),
                cfg.min_token_len as nat,
                views(cfg.stop_words@),
            ),
        decreases words.len() - i,
    {
        assert(wv.take(i + 1).drop_last() =~= wv.take(i as int));
        assert(wv.take(i + 1).last() == words@[i as int]@);
        let w = string_of(&words[i]);
        if words[i].len() >= cfg.min_token_len && !is_stop_word(&w, &cfg.stop_words) {
            tokens.push(w);
            assert(views(tokens@) =~= kept_words(
                wv.take(i as int),
                cfg.min_token_len as nat,
                views(cfg.stop_words@),
            ).push(w@));
        }
        i = i + 1;
    }
    assert(wv.take(words.len() as int) =~= wv);
    (norm, tokens)
}

impl TokenizedNews {
    /// Tokenises a news item: title and description joined by one space are
    /// normalised character by character (ASCII punctuation becomes a space,
    /// letters are lower-cased, as configured), split at whitespace, and the
    /// words that are too short or are stop words are dropped. Tokens keep
    /// their order in the text.
    pub fn from_raw(raw: &RawNews, cfg: &TokenizationConfig) -> (r: TokenizedNews)
        ensures
            is_normalization(news_text(*raw), r.normalized@, cfg.lowercase, cfg.strip_punct),
            views(r.tokens@) == kept_words(
                split_words(r.normalized@),
                cfg.min_token_len as nat,
                views(cfg.stop_words@),
            ),
    {
        let mut text = chars_of(raw.title.as_str());
        text.push(' ');
        let mut rest = chars_of(raw.description.as_str());
        text.append(&mut rest);
        assert(text@ =~= news_text(*raw));
        let (norm, tokens) = tokenize_chars(&text, cfg);
        TokenizedNews { normalized: string_of(&norm), tokens }
    }
}

} // verus!
