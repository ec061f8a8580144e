//! What the keys of a text input do to its text and cursor.

use vstd::prelude::*;

use super::input::{
    edited_cursor, edited_text, request_of, word_after, word_end, word_end_before, word_start,
    InputRequest,
};
use super::key::{KeyCode, KeyEvent};
use crate::tag::alphanumeric;

verus! {

/// A letter or a digit stands at `i`.
pub open spec fn in_word(s: Seq<char>, i: int) -> bool {
    0 <= i < s.len() && alphanumeric(s[i])
}

/// The positions from `from` on and below `to` are all in words, or none of them is.
pub open spec fn all_words(s: Seq<char>, from: int, to: int, word: bool) -> bool {
    forall|i: int| from <= i < to ==> #[trigger] in_word(s, i) == word
}

proof fn lemma_word_start(s: Seq<char>, at: int)
    requires
        0 <= at <= s.len(),
    ensures
        0 <= word_start(s, at) <= at,
        all_words(s, word_start(s, at), at, true),
        !in_word(s, word_start(s, at) - 1),
    decreases at,
{
    if at > 0 && alphanumeric(s[at - 1]) {
        lemma_word_start(s, at - 1);
    }
}

proof fn lemma_word_end_before(s: Seq<char>, at: int)
    requires
        0 <= at <= s.len(),
    ensures
        0 <= word_end_before(s, at) <= at,
        all_words(s, word_end_before(s, at), at, false),
        word_end_before(s, at) > 0 ==> in_word(s, word_end_before(s, at) - 1),
    decreases at,
{
    if at > 0 && !alphanumeric(s[at - 1]) {
        lemma_word_end_before(s, at - 1);
    }
}

proof fn lemma_word_end(s: Seq<char>, at: int)
    requires
        0 <= at <= s.len(),
    ensures
        at <= word_end(s, at) <= s.len(),
        all_words(s, at, word_end(s, at), true),
        !in_word(s, word_end(s, at)),
    decreases s.len() - at,
{
    if at < s.len() && alphanumeric(s[at]) {
        lemma_word_end(s, at + 1);
    }
}

proof fn lemma_word_after(s: Seq<char>, at: int)
    requires
        0 <= at <= s.len(),
    ensures
        at <= word_after(s, at) <= s.len(),
        all_words(s, at, word_after(s, at), false),
        word_after(s, at) < s.len() ==> in_word(s, word_after(s, at)),
    decreases s.len() - at,
{
    if at < s.len() && !alphanumeric(s[at]) {
        lemma_word_after(s, at + 1);
    }
}

/// A step back by a word goes to the start of the last word that has a letter before the
/// cursor: what lies between that word and the cursor is in no word. Without such a word
/// it goes to the start. The text stays.
pub proof fn a_word_back_starts_the_word(s: Seq<char>, at: int)
    requires
        0 <= at <= s.len(),
    ensures
        ({
            let to = edited_cursor(s, at, InputRequest::GoToPrevWord);
            &&& 0 <= to <= at
            &&& !in_word(s, to - 1)
            &&& exists|end: int|
                to <= end <= at && (#[trigger] all_words(s, to, end, true)) && all_words(
                    s,
                    end,
                    at,
                    false,
                ) && (end == to ==> to == 0)
        }),
        edited_text(s, at, InputRequest::GoToPrevWord) == s,
{
    let end = word_end_before(s, at);
    lemma_word_end_before(s, at);
    lemma_word_start(s, end);
    if end > 0 {
        assert(in_word(s, end - 1));
    }
    assert(all_words(s, word_start(s, end), end, true));
}

/// A step forwards by a word goes past the word at the cursor, if it is in one, to the
/// start of the next word, or to the end. The text stays.
pub proof fn a_word_ahead_starts_the_next(s: Seq<char>, at: int)
    requires
        0 <= at <= s.len(),
    ensures
        ({
            let to = edited_cursor(s, at, InputRequest::GoToNextWord);
            &&& at <= to <= s.len()
            &&& to < s.len() ==> in_word(s, to)
            &&& exists|end: int|
                at <= end <= to && (#[trigger] all_words(s, at, end, true)) && all_words(
                    s,
                    end,
                    to,
                    false,
                ) && (end == to ==> to == s.len())
        }),
        edited_text(s, at, InputRequest::GoToNextWord) == s,
{
    let end = word_end(s, at);
    lemma_word_end(s, at);
    lemma_word_after(s, end);
    assert(all_words(s, at, end, true));
}

/// The text and the cursor after a key, where it means something.
pub open spec fn after_key(s: Seq<char>, at: int, key: KeyEvent) -> Option<(Seq<char>, int)> {
    match request_of(key) {
        Some(req) => Some((edited_text(s, at, req), edited_cursor(s, at, req))),
        None => None,
    }
}

/// A character is typed before the cursor, backspace takes the one before it, delete the
/// one after it, and everything else stays in its order.
pub proof fn a_key_edits_at_the_cursor(s: Seq<char>, at: int, key: KeyEvent)
    requires
        0 <= at <= s.len(),
    ensures
        key.code matches KeyCode::Char(c) ==> after_key(s, at, key) == Some(
            ((s.take(at) + seq![c]) + s.skip(at), at + 1),
        ),
        key.code is Backspace ==> after_key(s, at, key) == Some(
            if at == 0 {
                (s, 0int)
            } else {
                (s.take(at - 1) + s.skip(at), at - 1)
            },
        ),
        key.code is Delete ==> after_key(s, at, key) == Some(
            if at == s.len() {
                (s, at)
            } else {
                (s.take(at) + s.skip(at + 1), at)
            },
        ),
{
    if let KeyCode::Char(c) = key.code {
        assert(s.insert(at, c) =~= (s.take(at) + seq![c]) + s.skip(at));
    }
    if at > 0 {
        assert(s.remove(at - 1) =~= s.take(at - 1) + s.skip(at));
    }
    if at < s.len() {
        assert(s.remove(at) =~= s.take(at) + s.skip(at + 1));
    }
}

/// The arrows step by one character, with Control by a word, within the text; Home and End
/// go to its ends. None of them changes the text, and other keys mean nothing.
pub proof fn a_key_moves_the_cursor(s: Seq<char>, at: int, key: KeyEvent)
    requires
        0 <= at <= s.len(),
    ensures
        key.code is Left && !key.modifiers.control ==> after_key(s, at, key) == Some(
            (s, if at == 0 { 0int } else { at - 1 }),
        ),
        key.code is Right && !key.modifiers.control ==> after_key(s, at, key) == Some(
            (s, if at == s.len() { at } else { at + 1 }),
        ),
        key.code is Left && key.modifiers.control ==> request_of(key) == Some(
            InputRequest::GoToPrevWord,
        ),
        key.code is Right && key.modifiers.control ==> request_of(key) == Some(
            InputRequest::GoToNextWord,
        ),
        key.code is Home ==> after_key(s, at, key) == Some((s, 0int)),
        key.code is End ==> after_key(s, at, key) == Some((s, s.len() as int)),
        key.code is Enter || key.code is Esc || key.code is Up || key.code is Down || key.code
            is Tab || key.code is BackTab ==> after_key(s, at, key) is None,
{
}

} // verus!
