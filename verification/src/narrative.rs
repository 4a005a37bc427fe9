//! Narrative reduction utilities with Sumerian phoneme embedding.

pub mod journey;

use vstd::prelude::*;
use vstd::string::StringExecFns;

verus! {

/// The words of a text: its maximal runs of characters that are not
/// whitespace, in order. Whitespace is what Unicode gives the property
/// `White_Space`.
pub uninterp spec fn whitespace_words(text: Seq<char>) -> Seq<Seq<char>>;

/// The lowercase form of a text, as Unicode defines it.
pub uninterp spec fn lowercase_of(text: Seq<char>) -> Seq<char>;

/// The texts of a sequence of strings.
pub open spec fn strings_model(strings: Seq<String>) -> Seq<Seq<char>> {
    strings.map_values(|s: String| s@)
}

/// The texts of a sequence of string slices.
pub open spec fn slices_model(slices: Seq<&str>) -> Seq<Seq<char>> {
    slices.map_values(|s: &str| s@)
}

/// Calls `str::split_whitespace` and collects the words it yields.
///
/// The contract gives the words a name and claims that they depend on the text
/// alone.
#[verifier::external_body]
fn split_words(text: &str) -> (words: Vec<&str>)
    ensures
        slices_model(words@) == whitespace_words(text@),
{
    text.split_whitespace().collect()
}

/// Calls `str::to_lowercase`.
///
/// The contract gives the lowercase form a name and claims that it depends on
/// the text alone.
#[verifier::external_body]
fn lowercase(text: &str) -> (lowered: String)
    ensures
        lowered@ == lowercase_of(text@),
{
    text.to_lowercase()
}

/// Words joined by single spaces.
pub open spec fn joined(words: Seq<Seq<char>>) -> Seq<char>
    decreases words.len(),
{
    if words.len() == 0 {
        Seq::empty()
    } else if words.len() == 1 {
        words[0]
    } else {
        joined(words.drop_last()) + seq![' '] + words.last()
    }
}

/// The progressive reductions of a sequence of words: all words joined, then
/// all but the last, and so on down to the first word alone.
pub open spec fn reductions_of(words: Seq<Seq<char>>) -> Seq<Seq<char>> {
    Seq::new(words.len(), |k: int| joined(words.take(words.len() - k)))
}

/// The phoneme that a character stands for, if it stands for one.
pub open spec fn phoneme_of(c: char) -> Option<Seq<char>> {
    if c == 'a' {
        Some(seq!['a'])
    } else if c == 'e' {
        Some(seq!['e'])
    } else if c == 'i' {
        Some(seq!['i'])
    } else if c == 'u' {
        Some(seq!['u'])
    } else if c == 'b' {
        Some(seq!['b', 'a'])
    } else if c == 'd' {
        Some(seq!['d', 'a'])
    } else if c == 'g' {
        Some(seq!['g', 'a'])
    } else if c == 'k' {
        Some(seq!['k', 'a'])
    } else if c == 'l' {
        Some(seq!['l', 'a'])
    } else if c == 'm' {
        Some(seq!['m', 'a'])
    } else if c == 'n' {
        Some(seq!['n', 'a'])
    } else if c == 'p' {
        Some(seq!['p', 'a'])
    } else if c == 'r' {
        Some(seq!['r', 'a'])
    } else if c == 's' {
        Some(seq!['s', 'a'])
    } else if c == 't' {
        Some(seq!['t', 'a'])
    } else {
        None
    }
}

/// The phonemes of the characters of a text, in order; characters that stand
/// for no phoneme are passed over.
pub open spec fn phonemes_in(text: Seq<char>) -> Seq<Seq<char>>
    decreases text.len(),
{
    if text.len() == 0 {
        Seq::empty()
    } else {
        match phoneme_of(text.last()) {
            Some(p) => phonemes_in(text.drop_last()).push(p),
            None => phonemes_in(text.drop_last()),
        }
    }
}

/// Generates the progressive reductions of a sequence of words by removing one
/// word at a time from the end.
pub fn reduce_words(words: &Vec<&str>) -> (steps: Vec<String>)
    ensures
        strings_model(steps@) == reductions_of(slices_model(words@)),
{
    let n = words.len();
    let ghost model = slices_model(words@);
    let mut prefixes: Vec<String> = Vec::new();
    let mut current = String::new();
    let mut m: usize = 0;
    while m < n
        invariant
            m <= n,
            n == words.len(),
            model == slices_model(words@),
            prefixes.len() == m,
            current@ == joined(model.take(m as int)),
            forall|t: int| 0 <= t < m ==> (#[trigger] prefixes[t])@ == joined(model.take(t + 1)),
        decreases n - m,
    {
        proof {
            reveal_strlit(" ");
            assert(model.take(m + 1).drop_last() =~= model.take(m as int));
            assert(model.take(m + 1).last() == words[m as int]@);
            assert(" "@ =~= seq![' ']);
        }
        if m > 0 {
            current.append(" ");
            current.append(words[m]);
        } else {
            current.append(words[m]);
            assert(current@ =~= words[m as int]@);
            assert(model.take(1)[0] == words[m as int]@);
        }
        prefixes.push(current.clone());
        m = m + 1;
    }
    let mut steps: Vec<String> = Vec::new();
    let mut k: usize = 0;
    while k < n
        invariant
            k <= n,
            n == words.len(),
            model == slices_model(words@),
            prefixes.len() == n,
            forall|t: int| 0 <= t < n ==> (#[trigger] prefixes[t])@ == joined(model.take(t + 1)),
            steps.len() == k,
            forall|t: int| 0 <= t < k ==> (#[trigger] steps[t])@ == joined(model.take(n - t)),
        decreases n - k,
    {
        steps.push(prefixes[n - 1 - k].clone());
        k = k + 1;
    }
    assert(strings_model(steps@) =~= reductions_of(model));
    steps
}

/// Generate progressive reductions of the input text by
/// removing one word at a time from the end.
pub fn reduction_steps(text: &str) -> (steps: Vec<String>)
    ensures
        strings_model(steps@) == reductions_of(whitespace_words(text@)),
{
    let words = split_words(text);
    reduce_words(&words)
}

/// The phoneme that a character stands for, if it stands for one.
pub fn phoneme_map(c: char) -> (phoneme: Option<&'static str>)
    ensures
        match phoneme {
            Some(p) => phoneme_of(c) == Some(p@),
            None => phoneme_of(c) is None,
        },
{
    proof {
        reveal_strlit("a");
        reveal_strlit("e");
        reveal_strlit("i");
        reveal_strlit("u");
        reveal_strlit("ba");
        reveal_strlit("da");
        reveal_strlit("ga");
        reveal_strlit("ka");
        reveal_strlit("la");
        reveal_strlit("ma");
        reveal_strlit("na");
        reveal_strlit("pa");
        reveal_strlit("ra");
        reveal_strlit("sa");
        reveal_strlit("ta");
    }
    let phoneme = if c == 'a' {
        Some("a")
    } else if c == 'e' {
        Some("e")
    } else if c == 'i' {
        Some("i")
    } else if c == 'u' {
        Some("u")
    } else if c == 'b' {
        Some("ba")
    } else if c == 'd' {
        Some("da")
    } else if c == 'g' {
        Some("ga")
    } else if c == 'k' {
        Some("ka")
    } else if c == 'l' {
        Some("la")
    } else if c == 'm' {
        Some("ma")
    } else if c == 'n' {
        Some("na")
    } else if c == 'p' {
        Some("pa")
    } else if c == 'r' {
        Some("ra")
    } else if c == 's' {
        Some("sa")
    } else if c == 't' {
        Some("ta")
    } else {
        None
    };
    proof {
        match phoneme {
            Some(p) => {
                assert(phoneme_of(c) is Some);
                assert(p@ =~= phoneme_of(c)->0);
            },
            None => {},
        }
    }
    phoneme
}

/// Embeds the phonemes of the characters of a text that is already in
/// lowercase.
pub fn embed_phonemes(lowered: &str) -> (phonemes: Vec<&'static str>)
    ensures
        slices_model(phonemes@) == phonemes_in(lowered@),
{
    let mut out: Vec<&'static str> = Vec::new();
    let chars = lowered.chars();
    for c in it: chars
        invariant
            it.seq() == lowered@,
            slices_model(out@) == phonemes_in(lowered@.take(it.index() as int)),
    {
        proof {
            let i = it.index() as int;
            assert(lowered@.take(i + 1).drop_last() =~= lowered@.take(i));
            assert(lowered@.take(i + 1).last() == c);
        }
        let ghost before = out@;
        match phoneme_map(c) {
            Some(p) => {
                out.push(p);
                assert(slices_model(out@) =~= slices_model(before).push(p@));
            },
            None => {},
        }
    }
    assert(lowered@.take(lowered@.len() as int) =~= lowered@);
    out
}

/// Embed Sumerian phonemes for characters in the text.
pub fn embed_sumerian_phonemes(text: &str) -> (phonemes: Vec<&'static str>)
    ensures
        slices_model(phonemes@) == phonemes_in(lowercase_of(text@)),
{
    let lowered = lowercase(text);
    embed_phonemes(lowered.as_str())
}

/// Evaluate a narrative by capturing its reduction steps and
/// embedding Sumerian phonemes.
pub fn evaluate(text: &str) -> (outcome: (Vec<String>, Vec<&'static str>))
    ensures
        strings_model(outcome.0@) == reductions_of(whitespace_words(text@)),
        slices_model(outcome.1@) == phonemes_in(lowercase_of(text@)),
{
    let steps = reduction_steps(text);
    let phonemes = embed_sumerian_phonemes(text);
    (steps, phonemes)
}

} // verus!
