//! Fuzzy matching.

use vstd::prelude::*;

use nucleo_matcher::pattern::{AtomKind, CaseMatching, Normalization, Pattern};
use nucleo_matcher::{Config, Matcher, Utf32Str};

verus! {

/// Longest word of a pattern, in letters: a letter scores at most 26 and the first
/// one 10 more, and a word's score has 16 bits.
pub const MAX_WORD: usize = 2520;

/// Most letters of a pattern: the scores of its words add up in 32 bits.
pub const MAX_PATTERN: usize = 100_000_000;

/// Longest text, in letters: its length has 32 bits.
pub const MAX_TEXT: usize = 4_294_967_295;

/// What `nucleo_matcher::chars::to_lower_case` folds a character to.
pub uninterp spec fn nucleo_fold(c: char) -> char;

/// What `nucleo_matcher::chars::normalize` makes of a character.
pub uninterp spec fn nucleo_normal(c: char) -> char;

/// What `char::is_lowercase` says of a character.
pub uninterp spec fn lower_case(c: char) -> bool;

/// The words that `nucleo_matcher` takes a pattern apart into, each as the letters
/// that it looks for.
pub uninterp spec fn nucleo_words(pattern: Seq<char>) -> Seq<Seq<char>>;

/// The letters that `nucleo_matcher` sees in a text.
pub uninterp spec fn nucleo_letters(text: Seq<char>) -> Seq<char>;

/// `nucleo_matcher::chars::to_lower_case`: simple case folding, a function of the
/// character.
pub assume_specification[ nucleo_matcher::chars::to_lower_case ](c: char) -> (r: char)
    ensures
        r == nucleo_fold(c),
;

/// `nucleo_matcher::chars::normalize`: the plain Latin letter for an accented one, a
/// function of the character.
pub assume_specification[ nucleo_matcher::chars::normalize ](c: char) -> (r: char)
    ensures
        r == nucleo_normal(c),
;

/// `char::is_lowercase`: whether a character is a small letter, a function of the
/// character.
pub assume_specification[ char::is_lowercase ](c: char) -> (b: bool)
    ensures
        b == lower_case(c),
;

pub open spec fn word_views(words: Seq<Vec<char>>) -> Seq<Seq<char>> {
    words.map_values(|w: Vec<char>| w@)
}

/// Calls `nucleo_matcher::pattern::Pattern::new` for a fuzzy pattern without regard
/// to case, and `Atom::needle_text` on each of its atoms. The words are a function of
/// the pattern; an empty pattern has none.
#[verifier::external_body]
fn pattern_words(pattern: &str) -> (words: Vec<Vec<char>>)
    ensures
        word_views(words@) == nucleo_words(pattern@),
        pattern@.len() == 0 ==> words@.len() == 0,
{
    let pattern = Pattern::new(
        pattern,
        CaseMatching::Ignore,
        Normalization::Smart,
        AtomKind::Fuzzy,
    );
    pattern.atoms.iter().map(|a| a.needle_text().chars().collect()).collect()
}

/// Calls `nucleo_matcher::Utf32Str::new`, which takes one character of each cluster.
/// The letters are a function of the text.
#[verifier::external_body]
fn text_letters(text: &str) -> (letters: Vec<char>)
    ensures
        letters@ == nucleo_letters(text@),
{
    let mut buf = Vec::new();
    Utf32Str::new(text, &mut buf).chars().collect()
}

/// Some letter of the word is accented: the text's accents count too then, and small
/// letters of the text are not folded in every place.
pub open spec fn accented(word: Seq<char>) -> bool {
    exists|i: int| 0 <= i < word.len() && nucleo_normal(#[trigger] word[i]) != word[i]
}

/// A letter of the text as it stands in the matcher's table: a small letter that
/// folding would change, such as a final sigma, is left alone.
pub open spec fn shown(c: char) -> char {
    if lower_case(c) {
        c
    } else {
        nucleo_fold(c)
    }
}

/// The letters of the word come one after the other in the table of the text.
pub open spec fn runs_through(word: Seq<char>, text: Seq<char>) -> bool
    decreases text.len(),
{
    if word.len() == 0 {
        true
    } else if text.len() == 0 {
        false
    } else if shown(text[0]) == word[0] {
        runs_through(word.skip(1), text.skip(1))
    } else {
        runs_through(word, text.skip(1))
    }
}

/// The folded text has the word's first letter at `i`, and not before.
pub open spec fn starts_at(word: Seq<char>, text: Seq<char>, i: int) -> bool {
    &&& 0 <= i < text.len()
    &&& nucleo_fold(text[i]) == word[0]
    &&& forall|j: int| 0 <= j < i ==> nucleo_fold(#[trigger] text[j]) != word[0]
}

/// An accented word starts at a letter that its table leaves unfolded, and runs
/// through the table after it: the matcher takes the start for a match and finds
/// none there. A text that is too long for a table is judged in the same way.
pub open spec fn misfolds(word: Seq<char>, text: Seq<char>) -> bool {
    &&& 2 <= word.len() < text.len()
    &&& accented(word)
    &&& exists|i: int| #[trigger]
        starts_at(word, text, i) && shown(text[i]) != word[0] && runs_through(word, text.skip(i))
}

/// The matcher can score the text against the word.
pub open spec fn word_fits(word: Seq<char>, text: Seq<char>) -> bool {
    word.len() <= MAX_WORD && text.len() <= MAX_TEXT && !misfolds(word, text)
}

/// The number of letters of the words.
pub open spec fn letter_count(words: Seq<Seq<char>>) -> nat
    decreases words.len(),
{
    if words.len() == 0 {
        0
    } else {
        letter_count(words.drop_last()) + words.last().len()
    }
}

/// The matcher can score the text against every word of the pattern, and add the
/// scores up.
pub open spec fn scorable(needle: Seq<char>, haystack: Seq<char>) -> bool {
    let words = nucleo_words(needle);
    &&& letter_count(words) <= MAX_PATTERN
    &&& forall|i: int|
        0 <= i < words.len() ==> word_fits(#[trigger] words[i], nucleo_letters(haystack))
}

/// What `nucleo_matcher` scores `haystack` against the words of `needle`, or
/// `None` where they do not all match.
pub uninterp spec fn nucleo_score(needle: Seq<char>, haystack: Seq<char>) -> Option<u32>;

/// Calls `nucleo_matcher::pattern::Pattern::score` for the fuzzy pattern made of
/// the words of `needle`, without regard to case, with the default matcher. The
/// score is a function of the two texts. A pattern without words scores every
/// text zero.
#[verifier::external_body]
fn pattern_score(needle: &str, haystack: &str) -> (score: Option<u32>)
    requires
        scorable(needle@, haystack@),
    ensures
        score == nucleo_score(needle@, haystack@),
        needle@.len() == 0 ==> score == Some(0u32),
{
    let mut matcher = Matcher::new(Config::DEFAULT);
    let pattern = Pattern::new(
        needle,
        CaseMatching::Ignore,
        Normalization::Smart,
        AtomKind::Fuzzy,
    );
    let mut buf = Vec::new();
    pattern.score(Utf32Str::new(haystack, &mut buf), &mut matcher)
}

fn has_accented(word: &Vec<char>) -> (yes: bool)
    ensures
        yes == accented(word@),
{
    let mut i: usize = 0;
    while i < word.len()
        invariant
            i <= word@.len(),
            forall|j: int| 0 <= j < i ==> nucleo_normal(#[trigger] word@[j]) == word@[j],
        decreases word@.len() - i,
    {
        let c: char = word[i];
        if nucleo_matcher::chars::normalize(c) != c {
            assert(nucleo_normal(word@[i as int]) != word@[i as int]);
            return true;
        }
        i += 1;
    }
    false
}

fn table_letter(c: char) -> (r: char)
    ensures
        r == shown(c),
{
    if c.is_lowercase() {
        c
    } else {
        nucleo_matcher::chars::to_lower_case(c)
    }
}

fn does_run_through(word: &Vec<char>, text: &Vec<char>, from: usize) -> (yes: bool)
    requires
        from <= text@.len(),
    ensures
        yes == runs_through(word@, text@.skip(from as int)),
{
    let mut k: usize = 0;
    let mut i: usize = from;
    assert(word@.skip(0) =~= word@);
    while k < word.len() && i < text.len()
        invariant
            k <= word@.len(),
            from <= i <= text@.len(),
            runs_through(word@, text@.skip(from as int)) == runs_through(
                word@.skip(k as int),
                text@.skip(i as int),
            ),
        decreases text@.len() - i,
    {
        assert(text@.skip(i as int).skip(1) =~= text@.skip(i + 1));
        assert(word@.skip(k as int).skip(1) =~= word@.skip(k + 1));
        if table_letter(text[i]) == word[k] {
            k += 1;
        }
        i += 1;
    }
    k == word.len()
}

/// Where the folded text first has the letter.
fn start_of(c: char, text: &Vec<char>) -> (start: Option<usize>)
    ensures
        match start {
            Some(i) => i < text@.len() && nucleo_fold(text@[i as int]) == c && forall|j: int|
                0 <= j < i ==> nucleo_fold(#[trigger] text@[j]) != c,
            None => forall|j: int| 0 <= j < text@.len() ==> nucleo_fold(#[trigger] text@[j]) != c,
        },
{
    let mut i: usize = 0;
    while i < text.len()
        invariant
            i <= text@.len(),
            forall|j: int| 0 <= j < i ==> nucleo_fold(#[trigger] text@[j]) != c,
        decreases text@.len() - i,
    {
        if nucleo_matcher::chars::to_lower_case(text[i]) == c {
            return Some(i);
        }
        i += 1;
    }
    None
}

fn does_misfold(word: &Vec<char>, text: &Vec<char>) -> (yes: bool)
    ensures
        yes == misfolds(word@, text@),
{
    if word.len() < 2 || word.len() >= text.len() || !has_accented(word) {
        return false;
    }
    match start_of(word[0], text) {
        Some(i) => {
            assert(starts_at(word@, text@, i as int));
            assert forall|j: int| #[trigger] starts_at(word@, text@, j) implies j == i by {
                if j < i {
                    assert(nucleo_fold(text@[j]) != word@[0]);
                }
            }
            table_letter(text[i]) != word[0] && does_run_through(word, text, i)
        },
        None => false,
    }
}

fn can_score(words: &Vec<Vec<char>>, text: &Vec<char>) -> (yes: bool)
    ensures
        yes == (letter_count(word_views(words@)) <= MAX_PATTERN && forall|i: int|
            0 <= i < words@.len() ==> word_fits(#[trigger] word_views(words@)[i], text@)),
{
    let ghost all = word_views(words@);
    let mut count: usize = 0;
    let mut i: usize = 0;
    assert(all.take(0) =~= Seq::empty());
    while i < words.len()
        invariant
            i <= words@.len(),
            all == word_views(words@),
            count == letter_count(all.take(i as int)),
            count <= MAX_PATTERN,
            forall|j: int| 0 <= j < i ==> word_fits(#[trigger] all[j], text@),
        decreases words@.len() - i,
    {
        assert(all.take(i + 1).drop_last() =~= all.take(i as int));
        assert(all[i as int] == words@[i as int]@);
        if words[i].len() > MAX_WORD || text.len() > MAX_TEXT || does_misfold(&words[i], text) {
            assert(!word_fits(all[i as int], text@));
            return false;
        }
        count += words[i].len();
        proof {
            lemma_letter_count(all, i + 1);
        }
        if count > MAX_PATTERN {
            return false;
        }
        i += 1;
    }
    assert(all.take(i as int) =~= all);
    true
}

proof fn lemma_letter_count(words: Seq<Seq<char>>, n: int)
    requires
        0 <= n <= words.len(),
    ensures
        letter_count(words.take(n)) <= letter_count(words),
    decreases words.len() - n,
{
    if n == words.len() {
        assert(words.take(n) =~= words);
    } else {
        lemma_letter_count(words, n + 1);
        assert(words.take(n + 1).drop_last() =~= words.take(n));
    }
}

/// The score of `haystack`, where the matcher can score it.
pub open spec fn score_of(needle: Seq<char>, haystack: Seq<char>) -> Option<u32> {
    if scorable(needle, haystack) {
        nucleo_score(needle, haystack)
    } else {
        None
    }
}

/// Score `haystack` against `needle`. A text that the matcher cannot score does not
/// match.
pub fn fuzzy_score(needle: &str, haystack: &str) -> (score: Option<u32>)
    ensures
        score == score_of(needle@, haystack@),
        needle@.len() == 0 ==> score == Some(0u32),
{
    let words = pattern_words(needle);
    let text = text_letters(haystack);
    if can_score(&words, &text) {
        pattern_score(needle, haystack)
    } else {
        assert(needle@.len() == 0 ==> word_views(words@) =~= Seq::empty());
        None
    }
}

/// Matches texts against a typed pattern.
pub struct FuzzyMatcher {}

impl FuzzyMatcher {
    pub fn new() -> Self {
        FuzzyMatcher {  }
    }

    pub fn fuzzy_matches(&self, pattern: &str, text: &str) -> (hit: bool)
        ensures
            hit == (score_of(pattern@, text@) is Some),
            pattern@.len() == 0 ==> hit,
    {
        fuzzy_score(pattern, text).is_some()
    }
}

} // verus!
