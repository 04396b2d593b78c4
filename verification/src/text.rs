//! Text normalization and whitespace splitting.
//!
//! Raw text is lowercased (ASCII), stripped of ASCII punctuation, and
//! split on Unicode whitespace into tokens. Lowercasing and punctuation
//! stripping are carried out by trusted helpers; the splitting itself is
//! verified against a recursive specification.

use vstd::prelude::*;
use vstd::string::StrSliceExecFns;
use vstd::string::StringExecFns;

verus! {

/// ASCII punctuation, the character class the punctuation stripper removes:
/// `!`..`/`, `:`..`@`, `[`..=backquote, and `{`..`~`.
pub open spec fn is_ascii_punct(c: char) -> bool {
    ||| '!' <= c <= '/'
    ||| ':' <= c <= '@'
    ||| '[' <= c <= '`'
    ||| '{' <= c <= '~'
}

/// ASCII uppercase letters mapped to their lowercase counterpart;
/// every other character is unchanged.
pub open spec fn ascii_lower_char(c: char) -> char {
    if 'A' <= c <= 'Z' {
        (c as u8 + 32) as char
    } else {
        c
    }
}

/// The normalized form of a text: ASCII-lowercased, then with all ASCII
/// punctuation characters removed.
pub open spec fn clean_text_spec(s: Seq<char>) -> Seq<char> {
    s.map_values(|c: char| ascii_lower_char(c)).filter(|c: char| !is_ascii_punct(c))
}

/// Whether a character has the Unicode `White_Space` property.
pub uninterp spec fn is_unicode_whitespace(c: char) -> bool;

/// Relies on `char::is_whitespace`: true exactly for characters with the
/// Unicode `White_Space` property, a fixed function of the character alone.
#[verifier::external_body]
fn is_whitespace_char(c: char) -> (r: bool)
    ensures
        r == is_unicode_whitespace(c),
{
    c.is_whitespace()
}

/// Relies on `str::to_ascii_lowercase`: maps each ASCII uppercase letter
/// to its lowercase counterpart and leaves every other character as it is.
#[verifier::external_body]
fn ascii_lowercase(s: &str) -> (r: String)
    ensures
        r@ == s@.map_values(|c: char| ascii_lower_char(c)),
{
    s.to_ascii_lowercase()
}

/// Relies on `regex::Regex::new` with the fixed pattern `[[:punct:]]`
/// (the ASCII punctuation class, which is always a valid pattern, so the
/// construction cannot fail) and on `regex::Regex::replace_all` with an
/// empty replacement: the result is the input with every ASCII
/// punctuation character removed and nothing else changed.
#[verifier::external_body]
fn strip_punctuation(s: &str) -> (r: String)
    ensures
        r@ == s@.filter(|c: char| !is_ascii_punct(c)),
{
    let re = regex::Regex::new(r"[[:punct:]]").unwrap();
    re.replace_all(s, "").into_owned()
}

/// Normalizes a text: ASCII-lowercases it, then removes ASCII punctuation.
pub fn clean_text(s: &str) -> (r: String)
    ensures
        r@ == clean_text_spec(s@),
{
    let lowered = ascii_lowercase(s);
    strip_punctuation(lowered.as_str())
}

/// One step of whitespace splitting: `cur` is the token read so far,
/// `acc` the finished tokens; the remaining text `s` is consumed from
/// the front.
pub open spec fn split_ws_rec(s: Seq<char>, cur: Seq<char>, acc: Seq<Seq<char>>) -> Seq<
    Seq<char>,
>
    decreases s.len(),
{
    if s.len() == 0 {
        if cur.len() == 0 {
            acc
        } else {
            acc.push(cur)
        }
    } else if is_unicode_whitespace(s[0]) {
        if cur.len() == 0 {
            split_ws_rec(s.drop_first(), cur, acc)
        } else {
            split_ws_rec(s.drop_first(), Seq::empty(), acc.push(cur))
        }
    } else {
        split_ws_rec(s.drop_first(), cur.push(s[0]), acc)
    }
}

/// The whitespace-separated tokens of a text: the maximal runs of
/// non-whitespace characters, in their original order.
pub open spec fn tokens_of(s: Seq<char>) -> Seq<Seq<char>> {
    split_ws_rec(s, Seq::empty(), Seq::empty())
}

/// The character sequences of a sequence of strings.
pub open spec fn views_of(ts: Seq<String>) -> Seq<Seq<char>> {
    ts.map_values(|t: String| t@)
}

proof fn lemma_views_of_push(ts: Seq<String>, t: String)
    ensures
        views_of(ts.push(t)) == views_of(ts).push(t@),
{
    assert(views_of(ts.push(t)) =~= views_of(ts).push(t@));
}

/// Splits a text on Unicode whitespace into its tokens.
pub fn split_whitespace_tokens(s: &str) -> (tokens: Vec<String>)
    ensures
        views_of(tokens@) == tokens_of(s@),
{
    let n = s.unicode_len();
    let mut tokens: Vec<String> = Vec::new();
    let mut i: usize = 0;
    let mut start: usize = 0;
    let mut in_token: bool = false;
    proof {
        assert(s@.subrange(0, n as int) =~= s@);
        assert(views_of(tokens@) =~= Seq::<Seq<char>>::empty());
    }
    while i < n
        invariant
            n == s@.len(),
            i <= n,
            in_token ==> start < i,
            tokens_of(s@) == split_ws_rec(
                s@.subrange(i as int, n as int),
                if in_token {
                    s@.subrange(start as int, i as int)
                } else {
                    Seq::<char>::empty()
                },
                views_of(tokens@),
            ),
        decreases n - i,
    {
        let ghost rem = s@.subrange(i as int, n as int);
        let ghost cur: Seq<char> = if in_token {
            s@.subrange(start as int, i as int)
        } else {
            Seq::<char>::empty()
        };
        proof {
            assert(rem[0] == s@[i as int]);
            assert(rem.drop_first() =~= s@.subrange(i as int + 1, n as int));
        }
        let c = s.get_char(i);
        if is_whitespace_char(c) {
            if in_token {
                let t = String::from_str(s.substring_char(start, i));
                proof {
                    lemma_views_of_push(tokens@, t);
                }
                tokens.push(t);
                in_token = false;
            }
        } else {
            if !in_token {
                start = i;
                in_token = true;
            }
            proof {
                assert(cur.push(s@[i as int]) =~= s@.subrange(start as int, i as int + 1));
            }
        }
        i += 1;
    }
    proof {
        assert(s@.subrange(n as int, n as int) =~= Seq::<char>::empty());
    }
    if in_token {
        let t = String::from_str(s.substring_char(start, n));
        proof {
            lemma_views_of_push(tokens@, t);
        }
        tokens.push(t);
    }
    tokens
}

} // verus!
