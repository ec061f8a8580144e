//! What the keys do in the tag editor and in the note editor.

use vstd::prelude::*;
use vstd::seq_lib::*;

use super::key::{KeyCode, KeyEvent};
use super::note_editor::{after_last_space, line_end, note_action, Note, NoteEditorAction};
use super::tag_editor::{
    in_rank_order, line_after, row_after, scored, tag_action, TagEditorAction, TagLine,
};
use crate::fuzzy::score_of;
use crate::tag::canonical;
use crate::text::{is_white, lex_le, texts, tokens};
use crate::text_laws::{runs_reach_to_the_blanks, tokens_are_the_runs_without_blanks};

verus! {

/// The characters from `from` on and below `to` are all blank, or none of them is.
pub open spec fn all_blank(s: Seq<char>, from: int, to: int, blank: bool) -> bool {
    forall|i: int| from <= i < to ==> is_white(#[trigger] s[i]) == blank
}

/// `at` is the start of the token that reaches to the cursor, or of the last one before
/// it, or of the line.
pub open spec fn starts_the_token(line: TagLine, at: int) -> bool {
    &&& 0 <= at <= line.cursor
    &&& at == 0 || is_white(line.input[at - 1])
    &&& exists|end: int|
        at <= end <= line.cursor && (#[trigger] all_blank(line.input, at, end, false))
            && all_blank(line.input, end, line.cursor, true) && (end == at ==> at == 0)
}

/// The cursor touches no token.
pub open spec fn between_tokens(line: TagLine) -> bool {
    &&& line.cursor == 0 || is_white(line.input[line.cursor - 1])
    &&& line.cursor == line.input.len() || is_white(line.input[line.cursor])
}

proof fn lemma_token_start(line: TagLine)
    requires
        line.valid(),
    ensures
        starts_the_token(line, line.word_before()),
{
    let s = line.input;
    runs_reach_to_the_blanks(s, line.cursor);
    let end = crate::text::skip_white_back(s, line.cursor);
    runs_reach_to_the_blanks(s, end);
    let at = line.word_before();
    if end > 0 {
        assert(!is_white(s[end - 1]));
    }
    assert(all_blank(s, at, end, false));
}

/// A character goes in at the cursor. A blank goes in as one space, and only where it ends
/// or parts a token.
pub proof fn typing_a_tag(line: TagLine, key: KeyEvent, c: char, highlighted: Option<Seq<char>>)
    requires
        line.valid(),
        key.code == KeyCode::Char(c),
        !(key.modifiers.control && c == 'w'),
    ensures
        ({
            let next = line_after(line, key, highlighted);
            let put = |x: char| TagLine {
                input: (line.input.take(line.cursor) + seq![x]) + line.input.skip(line.cursor),
                cursor: line.cursor + 1,
            };
            next == if !is_white(c) {
                put(c)
            } else if between_tokens(line) {
                line
            } else {
                put(' ')
            }
        }),
{
    runs_reach_to_the_blanks(line.input, line.cursor);
}

/// Control with W takes away what lies between the start of the last token and the cursor,
/// and nothing else; Control with an arrow goes to that start, or past the token at the
/// cursor to the start of the next.
pub proof fn stepping_by_a_tag(line: TagLine, highlighted: Option<Seq<char>>, key: KeyEvent)
    requires
        line.valid(),
        key.modifiers.control,
    ensures
        ({
            let next = line_after(line, key, highlighted);
            &&& key.code == KeyCode::Char('w') ==> starts_the_token(line, next.cursor)
                && next.input == line.input.take(next.cursor) + line.input.skip(line.cursor)
            &&& key.code is Left ==> starts_the_token(line, next.cursor) && next.input
                == line.input
            &&& key.code is Right ==> {
                &&& next.input == line.input
                &&& line.cursor <= next.cursor <= line.input.len()
                &&& next.cursor < line.input.len() ==> !is_white(line.input[next.cursor])
                &&& exists|end: int|
                    line.cursor <= end <= next.cursor && (#[trigger] all_blank(
                        line.input,
                        line.cursor,
                        end,
                        false,
                    )) && all_blank(line.input, end, next.cursor, true) && (end == next.cursor
                        ==> end == line.input.len())
            }
        }),
{
    lemma_token_start(line);
    runs_reach_to_the_blanks(line.input, line.cursor);
    let end = crate::text::run_end(line.input, line.cursor);
    runs_reach_to_the_blanks(line.input, end);
    assert(all_blank(line.input, line.cursor, end, false));
    if end < line.input.len() {
        assert(is_white(line.input[end]));
    }
}

/// The other keys step by one character and delete one, as far as there is one; Home and
/// End go to the ends.
pub proof fn editing_a_tag(line: TagLine, key: KeyEvent, highlighted: Option<Seq<char>>)
    requires
        line.valid(),
    ensures
        ({
            let next = line_after(line, key, highlighted);
            let (s, at) = (line.input, line.cursor);
            &&& key.code is Left && !key.modifiers.control ==> next == (TagLine {
                input: s,
                cursor: if at == 0 { 0 } else { at - 1 },
            })
            &&& key.code is Right && !key.modifiers.control ==> next == (TagLine {
                input: s,
                cursor: if at == s.len() { at } else { at + 1 },
            })
            &&& key.code is Home ==> next == (TagLine { input: s, cursor: 0 })
            &&& key.code is End ==> next == (TagLine { input: s, cursor: s.len() as int })
            &&& key.code is Backspace && at > 0 ==> next == (TagLine {
                input: s.take(at - 1) + s.skip(at),
                cursor: at - 1,
            })
            &&& key.code is Delete && at < s.len() ==> next == (TagLine {
                input: s.take(at) + s.skip(at + 1),
                cursor: at,
            })
            &&& key.code is Backspace && at == 0 || key.code is Delete && at == s.len()
                || key.code is Up || key.code is Down ==> next == line
        }),
{
    let (s, at) = (line.input, line.cursor);
    if at > 0 {
        assert(s.remove(at - 1) =~= s.take(at - 1) + s.skip(at));
    }
    if at < s.len() {
        assert(s.remove(at) =~= s.take(at) + s.skip(at + 1));
    }
}

/// Taking a suggestion puts it in the place of the token at the cursor. One space follows
/// it, with the cursor behind, and then what followed the token.
pub proof fn a_suggestion_replaces_the_token(line: TagLine, key: KeyEvent, name: Seq<char>)
    requires
        line.valid(),
        key.code == KeyCode::Tab,
    ensures
        ({
            let next = line_after(line, key, Some(name));
            exists|a: int, b: int|
                {
                    &&& 0 <= a <= line.cursor <= b <= line.input.len()
                    &&& #[trigger] all_blank(line.input, a, b, false)
                    &&& a == 0 || is_white(line.input[a - 1])
                    &&& b == line.input.len() || is_white(line.input[b])
                    &&& next.cursor == a + name.len() + 1
                    &&& next.input.take(next.cursor) == line.input.take(a) + name + seq![' ']
                    &&& next.input.skip(next.cursor) == if b < line.input.len() && line.input[b]
                        == ' ' {
                        line.input.skip(b + 1)
                    } else {
                        line.input.skip(b)
                    }
                }
        }),
        line_after(line, key, None) == line,
{
    let s = line.input;
    runs_reach_to_the_blanks(s, line.cursor);
    let a = crate::text::run_start(s, line.cursor);
    let b = crate::text::run_end(s, line.cursor);
    let next = line_after(line, key, Some(name));
    assert(all_blank(s, a, b, false));
    assert(next.input.take(next.cursor) =~= s.take(a) + name + seq![' ']);
    if b < s.len() && s[b] == ' ' {
        assert(next.input.skip(next.cursor) =~= s.skip(b + 1));
    } else {
        assert(next.input.skip(next.cursor) =~= s.skip(b));
    }
}

proof fn lemma_scored(candidates: Seq<Seq<char>>, needle: Seq<char>, p: (u32, Seq<char>))
    ensures
        scored(candidates, needle).contains(p) <==> candidates.contains(p.1) && score_of(
            needle,
            p.1,
        ) == Some(p.0),
    decreases candidates.len(),
{
    if candidates.len() > 0 {
        let rest = candidates.drop_last();
        let before = scored(rest, needle);
        let all = scored(candidates, needle);
        lemma_scored(rest, needle, p);
        if rest.contains(p.1) {
            let k = choose|k: int| 0 <= k < rest.len() && rest[k] == p.1;
            assert(candidates[k] == p.1);
        }
        if candidates.contains(p.1) && p.1 != candidates.last() {
            let k = choose|k: int| 0 <= k < candidates.len() && candidates[k] == p.1;
            assert(rest[k] == p.1);
        }
        assert(candidates.contains(candidates.last()));
        if score_of(needle, candidates.last()) is Some {
            if before.contains(p) {
                let k = choose|k: int| 0 <= k < before.len() && before[k] == p;
                assert(all[k] == p);
            }
            if all.contains(p) && !before.contains(p) {
                let k = choose|k: int| 0 <= k < all.len() && all[k] == p;
                if k < before.len() {
                    assert(before[k] == p);
                }
            }
            assert(all.contains(all.last()));
        }
    }
}

/// Another token of the line than the one at the cursor spells the tag.
pub open spec fn spelled_elsewhere(line: TagLine, tag: Seq<char>) -> bool {
    exists|k: int|
        {
            let r = #[trigger] tokens(line.input)[k];
            &&& 0 <= k < tokens(line.input).len()
            &&& line.cursor < r.0 || r.1 < line.cursor
            &&& canonical(line.input.subrange(r.0, r.1)) == tag
        }
}

/// While a tag is typed, the known tags with a score for it are offered, other than those
/// that the line spells elsewhere: the better scores come first, and equal ones by name.
pub proof fn better_tags_are_offered_first(
    line: TagLine,
    known: Seq<Seq<char>>,
    shown: Seq<Seq<char>>,
    i: int,
    j: int,
)
    requires
        line.offers(known, shown),
        canonical(line.token()).len() > 0,
        0 <= i < j < shown.len(),
    ensures
        ({
            let needle = canonical(line.token());
            let (x, y) = (score_of(needle, shown[i]), score_of(needle, shown[j]));
            &&& x is Some && y is Some
            &&& x->0 > y->0 || x->0 == y->0 && lex_le(shown[i], shown[j])
        }),
{
    let needle = canonical(line.token());
    let candidates = line.candidates(known);
    let all = scored(candidates, needle);
    let order = choose|order: Seq<(u32, Seq<char>)>|
        {
            &&& #[trigger] in_rank_order(order)
            &&& order.to_multiset() == scored(candidates, needle).to_multiset()
            &&& shown == order.map_values(|p: (u32, Seq<char>)| p.1)
        };
    to_multiset_contains(order, order[i]);
    to_multiset_contains(all, order[i]);
    to_multiset_contains(order, order[j]);
    to_multiset_contains(all, order[j]);
    lemma_scored(candidates, needle, order[i]);
    lemma_scored(candidates, needle, order[j]);
}

/// A known tag that the line does not spell elsewhere is offered where nothing is typed at
/// the cursor, or where it has a score for what is typed. One that it spells elsewhere is
/// not offered.
pub proof fn every_fitting_tag_is_offered(
    line: TagLine,
    known: Seq<Seq<char>>,
    shown: Seq<Seq<char>>,
    tag: Seq<char>,
)
    requires
        line.valid(),
        line.offers(known, shown),
    ensures
        shown.contains(tag) <==> known.contains(tag) && !spelled_elsewhere(line, tag) && (
        canonical(line.token()).len() == 0 || score_of(canonical(line.token()), tag) is Some),
{
    let needle = canonical(line.token());
    let candidates = line.candidates(known);
    let others = line.others();
    let keep = |name: Seq<char>| !others.contains(name);
    lemma_others(line, tag);
    if known.contains(tag) && keep(tag) {
        let k = choose|k: int| 0 <= k < known.len() && known[k] == tag;
        known.lemma_filter_contains(keep, k);
    }
    if candidates.contains(tag) {
        let k = choose|k: int| 0 <= k < candidates.len() && candidates[k] == tag;
        known.lemma_filter_pred(keep, k);
        known.lemma_filter_contains_rev(keep, tag);
    }
    if needle.len() > 0 {
        let all = scored(candidates, needle);
        let order = choose|order: Seq<(u32, Seq<char>)>|
            {
                &&& #[trigger] in_rank_order(order)
                &&& order.to_multiset() == scored(candidates, needle).to_multiset()
                &&& shown == order.map_values(|p: (u32, Seq<char>)| p.1)
            };
        if shown.contains(tag) {
            let k = choose|k: int| 0 <= k < shown.len() && shown[k] == tag;
            to_multiset_contains(order, order[k]);
            to_multiset_contains(all, order[k]);
            lemma_scored(candidates, needle, order[k]);
        }
        if candidates.contains(tag) && score_of(needle, tag) is Some {
            let p = (score_of(needle, tag)->0, tag);
            lemma_scored(candidates, needle, p);
            to_multiset_contains(all, p);
            to_multiset_contains(order, p);
            let k = choose|k: int| 0 <= k < order.len() && order[k] == p;
            assert(shown[k] == tag);
        }
    }
}

proof fn lemma_others(line: TagLine, tag: Seq<char>)
    requires
        line.valid(),
    ensures
        line.others().contains(tag) == spelled_elsewhere(line, tag),
{
    let s = line.input;
    let start = crate::text::run_start(s, line.cursor);
    let elsewhere = |r: (int, int)| r.0 != start;
    let t = tokens(s);
    let rest = t.filter(elsewhere);
    tokens_are_the_runs_without_blanks(s);
    runs_reach_to_the_blanks(s, line.cursor);
    assert forall|k: int| 0 <= k < t.len() implies elsewhere(#[trigger] t[k]) == (line.cursor < t[k].0
        || t[k].1 < line.cursor) by {
        let r = t[k];
        if r.0 <= line.cursor <= r.1 {
            if start < r.0 {
                assert(is_white(s[r.0 - 1]));
            }
            if start > r.0 {
                assert(!is_white(s[start - 1]));
            }
        }
    }
    lemma_texts(s, rest);
    if spelled_elsewhere(line, tag) {
        let k = choose|k: int|
            {
                let r = #[trigger] tokens(line.input)[k];
                &&& 0 <= k < tokens(line.input).len()
                &&& line.cursor < r.0 || r.1 < line.cursor
                &&& canonical(line.input.subrange(r.0, r.1)) == tag
            };
        assert(elsewhere(t[k]));
        t.lemma_filter_contains(elsewhere, k);
        let m = choose|m: int| 0 <= m < rest.len() && rest[m] == t[k];
        assert(line.others()[m] == tag);
    }
    if line.others().contains(tag) {
        let m = choose|m: int| 0 <= m < line.others().len() && line.others()[m] == tag;
        t.lemma_filter_pred(elsewhere, m);
        t.lemma_filter_contains_rev(elsewhere, rest[m]);
        let k = choose|k: int| 0 <= k < t.len() && t[k] == rest[m];
        assert(elsewhere(t[k]));
        assert(canonical(s.subrange(t[k].0, t[k].1)) == tag);
    }
}

proof fn lemma_texts(s: Seq<char>, ranges: Seq<(int, int)>)
    ensures
        texts(s, ranges).len() == ranges.len(),
        forall|k: int|
            0 <= k < ranges.len() ==> #[trigger] texts(s, ranges)[k] == s.subrange(
                ranges[k].0,
                ranges[k].1,
            ),
{
}

/// Where nothing is typed at the cursor, what is offered stands in the order of the known
/// tags.
pub proof fn untyped_offers_keep_the_order(
    line: TagLine,
    known: Seq<Seq<char>>,
    shown: Seq<Seq<char>>,
)
    requires
        line.offers(known, shown),
        canonical(line.token()).len() == 0,
        tokens(line.input).len() == 0,
    ensures
        shown == known,
{
    let others = line.others();
    let keep = |name: Seq<char>| !others.contains(name);
    let start = crate::text::run_start(line.input, line.cursor);
    let none = tokens(line.input).filter(|r: (int, int)| r.0 != start);
    tokens(line.input).lemma_filter_len(|r: (int, int)| r.0 != start);
    lemma_texts(line.input, none);
    assert(others.len() == 0);
    lemma_all_kept(known, keep);
}

proof fn lemma_all_kept<T>(items: Seq<T>, keep: spec_fn(T) -> bool)
    requires
        forall|i: int| 0 <= i < items.len() ==> keep(#[trigger] items[i]),
    ensures
        items.filter(keep) == items,
    decreases items.len(),
{
    reveal(Seq::filter);
    if items.len() > 0 {
        let rest = items.drop_last();
        assert forall|i: int| 0 <= i < rest.len() implies keep(#[trigger] rest[i]) by {
            assert(rest[i] == items[i]);
        }
        lemma_all_kept(rest, keep);
        assert(keep(items[items.len() - 1]));
        assert(items.filter(keep) =~= items);
    }
}

/// The arrows go through the suggestions by one row, and round at either end. Enter and
/// Control with S save the tags, Escape leaves them, and no other key does either.
pub proof fn keys_on_the_suggestions(row: int, len: int, key: KeyEvent)
    requires
        0 <= row < len,
    ensures
        row_after(row, len, KeyCode::Down) == (if row == len - 1 { 0 } else { row + 1 }),
        row_after(row, len, KeyCode::Up) == (if row == 0 { len - 1 } else { row - 1 }),
        key.code != KeyCode::Down && key.code != KeyCode::Up ==> row_after(row, len, key.code)
            == row,
        tag_action(key) == TagEditorAction::Save <==> key.code == KeyCode::Enter || (
        key.modifiers.control && key.code == KeyCode::Char('s')),
        tag_action(key) == TagEditorAction::Cancel <==> key.code == KeyCode::Esc,
        note_action(key) == NoteEditorAction::Save <==> key.modifiers.control && key.code
            == KeyCode::Char('s'),
        note_action(key) == NoteEditorAction::Cancel <==> key.code == KeyCode::Esc,
{
}

/// Up and down go by one line, to the same column or to the end of a shorter line; from
/// the first line up goes to its start, and from the last one down to its end. Home and
/// End go to the ends of the line. None of them changes the text.
pub proof fn moving_between_the_lines(note: Note, code: KeyCode)
    requires
        note.valid(),
        code == KeyCode::Up || code == KeyCode::Down || code == KeyCode::Home || code
            == KeyCode::End,
    ensures
        ({
            let next = note.after_key(code);
            let last = note.lines.len() - 1;
            &&& next.lines == note.lines
            &&& next.valid()
            &&& code == KeyCode::Up && note.row > 0 ==> next.row == note.row - 1
            &&& code == KeyCode::Down && note.row < last ==> next.row == note.row + 1
            &&& next.row != note.row ==> next.col == note.col || next.col < note.col && next.col
                == note.lines[next.row].len()
            &&& code == KeyCode::Up && note.row == 0 || code == KeyCode::Home ==> next.row
                == note.row && next.col == 0
            &&& code == KeyCode::Down && note.row == last || code == KeyCode::End ==> next.row
                == note.row && next.col == note.lines[note.row].len()
        }),
{
}

proof fn lemma_last_space(chars: Seq<char>, start: int, limit: int, hard: int)
    requires
        0 <= start <= limit <= chars.len(),
    ensures
        ({
            let end = after_last_space(chars, start, limit, hard);
            ||| start < end <= limit && chars[end - 1] == ' ' && (forall|i: int|
                end <= i < limit ==> #[trigger] chars[i] != ' ')
            ||| end == hard && (forall|i: int| start <= i < limit ==> #[trigger] chars[i] != ' ')
        }),
    decreases limit - start,
{
    if limit > start && chars[limit - 1] != ' ' {
        lemma_last_space(chars, start, limit - 1, hard);
    }
}

/// A line of the note that is too wide breaks after the last space that fits, and in the
/// middle of a word only where there is no space. One that fits is not broken.
pub proof fn a_wide_line_breaks_after_a_space(chars: Seq<char>, start: int, width: int)
    requires
        0 <= start <= chars.len(),
        width > 0,
    ensures
        ({
            let end = line_end(chars, start, width);
            &&& chars.len() - start <= width ==> end == chars.len()
            &&& chars.len() - start > width ==> {
                &&& start < end <= start + width
                &&& forall|i: int| end <= i < start + width ==> #[trigger] chars[i] != ' '
                &&& end < start + width ==> chars[end - 1] == ' '
            }
        }),
{
    if chars.len() - start > width {
        lemma_last_space(chars, start, start + width, start + width);
    }
}

} // verus!
