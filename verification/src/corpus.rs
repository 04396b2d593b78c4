//! Vocabulary construction and corpus encoding.
//!
//! A text is normalized and split into tokens; stop words are discarded;
//! each remaining token is assigned an integer id in order of first
//! occurrence, and the token stream becomes a sequence of those ids.

use vstd::prelude::*;
use crate::text::clean_text;
use crate::text::clean_text_spec;
use crate::text::split_whitespace_tokens;
use crate::text::tokens_of;
use crate::text::views_of;

verus! {

/// The stop-word list that the stop-word crate ships for a language code.
pub uninterp spec fn stop_words_for(language: Seq<char>) -> Seq<Seq<char>>;

/// Relies on `stop_words::get` for English (`"en"`): returns the crate's
/// fixed English stop-word list, a function of the language code alone.
#[verifier::external_body]
fn english_stop_words() -> (r: Vec<String>)
    ensures
        views_of(r@) == stop_words_for("en"@),
{
    stop_words::get(stop_words::Language::English).iter().map(|w| w.to_string()).collect()
}

/// One encoding step: the token `t` is dropped if it is a stop word,
/// appended under its existing id if it is already in the vocabulary,
/// and otherwise given the next sequential id.
pub open spec fn encode_step(
    state: (Seq<Seq<char>>, Seq<int>),
    t: Seq<char>,
    stops: Seq<Seq<char>>,
) -> (Seq<Seq<char>>, Seq<int>) {
    if stops.contains(t) {
        state
    } else if state.0.contains(t) {
        (state.0, state.1.push(state.0.index_of_first(t).unwrap()))
    } else {
        (state.0.push(t), state.1.push(state.0.len() as int))
    }
}

/// The vocabulary and encoded corpus built from a token stream, starting
/// from an empty vocabulary.
pub open spec fn encode_tokens(tokens: Seq<Seq<char>>, stops: Seq<Seq<char>>) -> (
    Seq<Seq<char>>,
    Seq<int>,
)
    decreases tokens.len(),
{
    if tokens.len() == 0 {
        (Seq::<Seq<char>>::empty(), Seq::<int>::empty())
    } else {
        encode_step(encode_tokens(tokens.drop_last(), stops), tokens.last(), stops)
    }
}

/// The vocabulary and encoded corpus of a raw text: the text normalized,
/// split into tokens, and encoded with English stop words removed.
pub open spec fn corpus_model(text: Seq<char>) -> (Seq<Seq<char>>, Seq<int>) {
    encode_tokens(tokens_of(clean_text_spec(text)), stop_words_for("en"@))
}

/// A deduplicated vocabulary together with the integer-encoded corpus.
pub struct CorpusValues {
    /// The vocabulary: the word at position `i` has id `i`.
    pub words: Vec<String>,
    /// The encoded corpus: one id per retained token, in order.
    pub vec: Vec<usize>,
}

impl CorpusValues {
    /// The vocabulary as a sequence of character sequences.
    pub open spec fn vocab(&self) -> Seq<Seq<char>> {
        views_of(self.words@)
    }

    /// The encoded corpus as a sequence of mathematical integers.
    pub open spec fn ids(&self) -> Seq<int> {
        self.vec@.map_values(|x: usize| x as int)
    }

    /// An empty vocabulary and an empty corpus.
    pub fn new() -> (r: Self)
        ensures
            r.vocab() == Seq::<Seq<char>>::empty(),
            r.ids() == Seq::<int>::empty(),
    {
        let r = Self { words: Vec::new(), vec: Vec::new() };
        proof {
            assert(r.vocab() =~= Seq::<Seq<char>>::empty());
            assert(r.ids() =~= Seq::<int>::empty());
        }
        r
    }

    /// Extends the vocabulary and corpus with the tokens of an already
    /// normalized text, skipping English stop words and assigning each
    /// new word the next sequential id.
    pub fn populate(self, clean_corpus: &str) -> (r: Self)
        requires
            self.vocab() == Seq::<Seq<char>>::empty(),
            self.ids() == Seq::<int>::empty(),
        ensures
            r.vocab() == encode_tokens(tokens_of(clean_corpus@), stop_words_for("en"@)).0,
            r.ids() == encode_tokens(tokens_of(clean_corpus@), stop_words_for("en"@)).1,
    {
        let stops = english_stop_words();
        let tokens = split_whitespace_tokens(clean_corpus);
        let mut words = self.words;
        let mut vec = self.vec;
        let ghost stops_v = views_of(stops@);
        let ghost toks_v = views_of(tokens@);
        proof {
            assert(words@.len() == 0 && vec@.len() == 0) by {
                assert(views_of(words@).len() == words@.len());
                assert(vec@.map_values(|x: usize| x as int).len() == vec@.len());
            }
            assert(toks_v.take(0) =~= Seq::<Seq<char>>::empty());
            assert(encode_tokens(toks_v.take(0), stops_v) == (
                Seq::<Seq<char>>::empty(),
                Seq::<int>::empty(),
            ));
            assert(views_of(words@) =~= Seq::<Seq<char>>::empty());
            assert(vec@.map_values(|x: usize| x as int) =~= Seq::<int>::empty());
        }
        let mut j: usize = 0;
        while j < tokens.len()
            invariant
                j <= tokens@.len(),
                toks_v == views_of(tokens@),
                stops_v == views_of(stops@),
                views_of(words@) == encode_tokens(toks_v.take(j as int), stops_v).0,
                vec@.map_values(|x: usize| x as int) == encode_tokens(
                    toks_v.take(j as int),
                    stops_v,
                ).1,
            decreases tokens@.len() - j,
        {
            let ghost state = encode_tokens(toks_v.take(j as int), stops_v);
            proof {
                assert(toks_v.take(j + 1).drop_last() =~= toks_v.take(j as int));
                assert(toks_v.take(j + 1).last() == toks_v[j as int]);
                assert(tokens@[j as int]@ == toks_v[j as int]);
            }
            let t = &tokens[j];
            if !contains_string(&stops, t) {
                match find_first(&words, t) {
                    Some(idx) => {
                        proof {
                            lemma_first_index_agrees(views_of(words@), t@, idx as int);
                            lemma_ids_push(vec@, idx);
                        }
                        vec.push(idx);
                    },
                    None => {
                        proof {
                            lemma_ids_push(vec@, words.len());
                            lemma_vocab_push(words@, *t);
                        }
                        vec.push(words.len());
                        words.push(t.clone());
                    },
                }
            }
            j += 1;
        }
        proof {
            assert(toks_v.take(tokens@.len() as int) =~= toks_v);
        }
        Self { words, vec }
    }
}

/// Whether a word occurs in a list of words.
fn contains_string(list: &Vec<String>, w: &String) -> (r: bool)
    ensures
        r == views_of(list@).contains(w@),
{
    let mut k: usize = 0;
    while k < list.len()
        invariant
            k <= list@.len(),
            forall|m: int| 0 <= m < k ==> views_of(list@)[m] != w@,
        decreases list@.len() - k,
    {
        if list[k].eq(w) {
            proof {
                assert(views_of(list@)[k as int] == w@);
            }
            return true;
        }
        k += 1;
    }
    false
}

/// The position of the first occurrence of a word in a list, if any.
fn find_first(list: &Vec<String>, w: &String) -> (r: Option<usize>)
    ensures
        match r {
            Some(i) => i < list@.len() && views_of(list@)[i as int] == w@ && (forall|m: int|
                0 <= m < i ==> views_of(list@)[m] != w@),
            None => !views_of(list@).contains(w@),
        },
{
    let mut k: usize = 0;
    while k < list.len()
        invariant
            k <= list@.len(),
            forall|m: int| 0 <= m < k ==> views_of(list@)[m] != w@,
        decreases list@.len() - k,
    {
        if list[k].eq(w) {
            proof {
                assert(views_of(list@)[k as int] == w@);
            }
            return Some(k);
        }
        k += 1;
    }
    None
}

/// A position that holds the word and is preceded by no occurrence of it
/// is the word's first index.
proof fn lemma_first_index_agrees(v: Seq<Seq<char>>, t: Seq<char>, i: int)
    requires
        0 <= i < v.len(),
        v[i] == t,
        forall|m: int| 0 <= m < i ==> v[m] != t,
    ensures
        v.index_of_first(t) == Some(i),
{
    assert(v.contains(t));
    v.index_of_first_ensures(t);
    let j = v.index_of_first(t).unwrap();
    if j < i {
        assert(v[j] != t);
    }
    if i < j {
        assert(v[i] != t);
    }
}

proof fn lemma_ids_push(vs: Seq<usize>, x: usize)
    ensures
        vs.push(x).map_values(|y: usize| y as int) == vs.map_values(|y: usize| y as int).push(
            x as int,
        ),
{
    assert(vs.push(x).map_values(|y: usize| y as int) =~= vs.map_values(
        |y: usize| y as int,
    ).push(x as int));
}

proof fn lemma_vocab_push(ws: Seq<String>, t: String)
    ensures
        views_of(ws.push(t)) == views_of(ws).push(t@),
{
    assert(views_of(ws.push(t)) =~= views_of(ws).push(t@));
}

/// Turns a raw text into a vocabulary and an integer-encoded corpus.
/// The text is ASCII-lowercased, stripped of ASCII punctuation, and split
/// on whitespace; stop words are discarded; every other token is encoded
/// by its id, assigned in order of first occurrence starting at 0.
pub fn parse_corpus(corpus: String) -> (r: CorpusValues)
    ensures
        r.vocab() == corpus_model(corpus@).0,
        r.ids() == corpus_model(corpus@).1,
        r.vocab().no_duplicates(),
        forall|k: int| 0 <= k < r.ids().len() ==> 0 <= #[trigger] r.ids()[k] < r.vocab().len(),
{
    let cleaned = clean_text(corpus.as_str());
    let r = CorpusValues::new().populate(cleaned.as_str());
    proof {
        lemma_encode_tokens_wf(tokens_of(clean_text_spec(corpus@)), stop_words_for("en"@));
    }
    r
}

/// The vocabulary built by encoding has no duplicate words, and every id
/// in the encoded corpus names a vocabulary entry.
pub proof fn lemma_encode_tokens_wf(tokens: Seq<Seq<char>>, stops: Seq<Seq<char>>)
    ensures
        encode_tokens(tokens, stops).0.no_duplicates(),
        forall|k: int| 0 <= k < encode_tokens(tokens, stops).1.len() ==> 0 <= #[trigger] encode_tokens(
            tokens,
            stops,
        ).1[k] < encode_tokens(tokens, stops).0.len(),
    decreases tokens.len(),
{
    if tokens.len() == 0 {
    } else {
        lemma_encode_tokens_wf(tokens.drop_last(), stops);
        let prev = encode_tokens(tokens.drop_last(), stops);
        let t = tokens.last();
        if !stops.contains(t) && prev.0.contains(t) {
            prev.0.index_of_first_ensures(t);
        }
    }
}

/// Law: empty input yields an empty vocabulary and an empty corpus.
pub proof fn lemma_empty_text_empty_corpus()
    ensures
        corpus_model(Seq::<char>::empty()).0 == Seq::<Seq<char>>::empty(),
        corpus_model(Seq::<char>::empty()).1 == Seq::<int>::empty(),
{
    reveal(Seq::filter);
    assert(Seq::<char>::empty().map_values(|c: char| crate::text::ascii_lower_char(c))
        =~= Seq::<char>::empty());
    assert(clean_text_spec(Seq::<char>::empty()) =~= Seq::<char>::empty());
    assert(tokens_of(Seq::<char>::empty()) =~= Seq::<Seq<char>>::empty());
}

/// Law: the tokenizer is deterministic. Two corpora whose vocabulary and
/// encoding both equal the model of the same raw text are identical in
/// vocabulary and encoding; running the tokenizer twice on one text
/// therefore yields the same result both times.
pub proof fn lemma_tokenizer_deterministic(a: CorpusValues, b: CorpusValues, text: Seq<char>)
    requires
        a.vocab() == corpus_model(text).0,
        a.ids() == corpus_model(text).1,
        b.vocab() == corpus_model(text).0,
        b.ids() == corpus_model(text).1,
    ensures
        a.vocab() == b.vocab(),
        a.ids() == b.ids(),
{
}

} // verus!
