//! What a key does to the text of the search bar.

use vstd::prelude::*;

use super::input::InputRequest;
use super::search_bar::{
    after_input, coloured, completion, cut_out, fts_start, is_active, is_anchored, moved,
    relevant_fault, segment_end, spanned, AutocompleteState, ColonAnswer, KeyResult, PartColour,
};
use crate::find::lemma_first_index;
use crate::search::{CursorContext, QueryPart, Span};
use crate::text::{is_white, run_start, trimmed_end, trimmed_start};
use crate::text_laws::runs_reach_to_the_blanks;

verus! {

/// The deletion takes a slash off the regex: Backspace behind one, or Delete before
/// one.
pub open spec fn takes_a_slash(span: Span, cursor: int, req: InputRequest) -> bool {
    match req {
        InputRequest::DeletePrevChar => span.start < cursor && (cursor == span.start + 1 || cursor
            == span.end),
        InputRequest::DeleteNextChar => cursor < span.end && (cursor == span.start || cursor + 1
            == span.end),
        _ => false,
    }
}

/// The deletion takes a character of the regex, a slash or another.
pub open spec fn takes_of(part: QueryPart, cursor: int, req: InputRequest) -> bool {
    match part {
        QueryPart::Regex { span, .. } => match req {
            InputRequest::DeletePrevChar => span.start < cursor <= span.end,
            InputRequest::DeleteNextChar => span.start <= cursor < span.end,
            _ => false,
        },
        _ => false,
    }
}

/// Deleting a slash of a regex deletes the regex and nothing else: the text before it
/// begins the result, and the text behind it, but for one space at its start, ends it.
/// Between them there is nothing, or one space where two words would meet. The cursor
/// goes where the regex was.
pub proof fn deleting_a_slash_deletes_the_regex_alone(
    s: Seq<char>,
    cursor: int,
    parts: Seq<QueryPart>,
    context: CursorContext,
    req: InputRequest,
    answer: Option<ColonAnswer>,
    i: int,
    span: Span,
)
    requires
        0 <= i < parts.len(),
        parts[i] matches QueryPart::Regex { span: place, .. } && place == span,
        span.start <= span.end <= s.len(),
        takes_a_slash(span, cursor, req),
        takes_of(parts[i], cursor, req),
        forall|j: int| 0 <= j < i ==> !takes_of(#[trigger] parts[j], cursor, req),
    ensures
        ({
            let (text, at, result) = after_input(s, cursor, parts, context, req, answer);
            let before = s.take(span.start as int);
            let behind = s.skip(span.end as int);
            let after = if behind.len() > 0 && behind[0] == ' ' {
                behind.skip(1)
            } else {
                behind
            };
            let between = text.len() - before.len() - after.len();
            &&& before.is_prefix_of(text)
            &&& after.is_suffix_of(text)
            &&& between == 0 || between == 1
            &&& between == 1 <==> before.len() > 0 && after.len() > 0 && before.last() != ' '
            &&& between == 1 ==> text[before.len() as int] == ' '
            &&& at == span.start
            &&& result == KeyResult::Handled
        }),
{
    reveal(super::search_bar::special);
    let backwards = req == InputRequest::DeletePrevChar;
    let p = |p: QueryPart| super::search_bar::deletes_in(p, cursor, backwards);
    assert forall|q: QueryPart| #[trigger] p(q) == takes_of(q, cursor, req) by {}
    lemma_first_index(parts, p);
    assert(p(parts[i]));
    assert forall|j: int| 0 <= j < i implies !p(#[trigger] parts[j]) by {}
    crate::find::lemma_first_index_some(parts, p, i);
    let (text, at, result) = after_input(s, cursor, parts, context, req, answer);
    assert(text == cut_out(s, span));
    let before = s.take(span.start as int);
    let behind = s.skip(span.end as int);
    let after = if behind.len() > 0 && behind[0] == ' ' {
        behind.skip(1)
    } else {
        behind
    };
    assert(behind.len() > 0 ==> behind.skip(1) =~= behind.drop_first());
    assert(before =~= text.take(before.len() as int));
    assert(after =~= text.skip(text.len() - after.len()));
}

/// A deletion that takes no slash of a regex takes one character: the one before the
/// cursor, or the one behind it.
pub proof fn other_deletions_take_one_character(
    s: Seq<char>,
    cursor: int,
    parts: Seq<QueryPart>,
    context: CursorContext,
    answer: Option<ColonAnswer>,
    req: InputRequest,
)
    requires
        0 <= cursor <= s.len(),
        req == InputRequest::DeletePrevChar || req == InputRequest::DeleteNextChar,
        forall|j: int|
            0 <= j < parts.len() && takes_of(#[trigger] parts[j], cursor, req) ==> !takes_a_slash(
                parts[j]->Regex_span,
                cursor,
                req,
            ),
    ensures
        ({
            let (text, at, _) = after_input(s, cursor, parts, context, req, answer);
            if req == InputRequest::DeletePrevChar {
                if cursor == 0 {
                    text == s && at == 0
                } else {
                    text == s.take(cursor - 1) + s.skip(cursor) && at == cursor - 1
                }
            } else {
                if cursor == s.len() {
                    text == s && at == cursor
                } else {
                    text == s.take(cursor) + s.skip(cursor + 1) && at == cursor
                }
            }
        }),
{
    reveal(super::search_bar::special);
    let backwards = req == InputRequest::DeletePrevChar;
    let p = |p: QueryPart| super::search_bar::deletes_in(p, cursor, backwards);
    assert forall|q: QueryPart| #[trigger] p(q) == takes_of(q, cursor, req) by {}
    lemma_first_index(parts, p);
    if backwards && cursor > 0 {
        assert(s.remove(cursor - 1) =~= s.take(cursor - 1) + s.skip(cursor));
    }
    if !backwards && cursor < s.len() {
        assert(s.remove(cursor) =~= s.take(cursor) + s.skip(cursor + 1));
    }
}

/// Every character but `:`, `/` and `~` is put in at the cursor, which goes behind
/// it.
pub proof fn ordinary_characters_are_put_in(
    s: Seq<char>,
    cursor: int,
    parts: Seq<QueryPart>,
    context: CursorContext,
    answer: Option<ColonAnswer>,
    c: char,
)
    requires
        0 <= cursor <= s.len(),
        c != ':' && c != '/' && c != '~',
    ensures
        after_input(s, cursor, parts, context, InputRequest::InsertChar(c), answer) == (
            s.take(cursor) + seq![c] + s.skip(cursor),
            cursor + 1,
            KeyResult::Handled,
        ),
{
    reveal(super::search_bar::special);
    assert(s.insert(cursor, c) =~= s.take(cursor) + seq![c] + s.skip(cursor));
}

/// A tilde at the start of a word goes over to fuzzy search and leaves the text; in a
/// word it is put in.
pub proof fn a_tilde_before_a_word_goes_over_to_fuzzy_search(
    s: Seq<char>,
    cursor: int,
    parts: Seq<QueryPart>,
    context: CursorContext,
    answer: Option<ColonAnswer>,
)
    requires
        0 <= cursor <= s.len(),
    ensures
        ({
            let r = after_input(s, cursor, parts, context, InputRequest::InsertChar('~'), answer);
            if cursor == 0 || is_white(s[cursor - 1]) {
                r == (s, cursor, KeyResult::TransitionToFuzzy)
            } else {
                r == (
                    s.take(cursor) + seq!['~'] + s.skip(cursor),
                    cursor + 1,
                    KeyResult::Handled,
                )
            }
        }),
{
    reveal(super::search_bar::special);
    assert(s.insert(cursor, '~') =~= s.take(cursor) + seq!['~'] + s.skip(cursor));
}

/// A slash among plain words opens a regex: two slashes with the cursor between them.
/// Where the query has a regex elsewhere, or the cursor is in a filter, it is put in
/// as it is.
pub proof fn a_slash_opens_a_regex(
    s: Seq<char>,
    cursor: int,
    parts: Seq<QueryPart>,
    context: CursorContext,
    answer: Option<ColonAnswer>,
)
    requires
        0 <= cursor <= s.len(),
        forall|j: int|
            0 <= j < parts.len() && #[trigger] parts[j] is Regex ==> !(parts[j]->Regex_span.start
                <= cursor < parts[j]->Regex_span.end),
    ensures
        ({
            let (text, at, _) = after_input(
                s,
                cursor,
                parts,
                context,
                InputRequest::InsertChar('/'),
                answer,
            );
            let plain = context is Fts || context is Whitespace;
            let has_regex = exists|j: int| 0 <= j < parts.len() && #[trigger] parts[j] is Regex;
            let slashes = if plain && !has_regex {
                seq!['/', '/']
            } else {
                seq!['/']
            };
            text == s.take(cursor) + slashes + s.skip(cursor) && at == cursor + 1
        }),
{
    reveal(super::search_bar::special);
    let p = |p: QueryPart| super::search_bar::is_regex(p);
    let q = |p: QueryPart|
        super::search_bar::is_regex(p) && p.place().start <= cursor && cursor < p.place().end;
    lemma_first_index(parts, p);
    lemma_first_index(parts, q);
    assert(s.insert(cursor, '/') =~= s.take(cursor) + seq!['/'] + s.skip(cursor));
    if exists|j: int| 0 <= j < parts.len() && #[trigger] parts[j] is Regex {
        let j = choose|j: int| 0 <= j < parts.len() && #[trigger] parts[j] is Regex;
        assert(p(parts[j]));
    }
    assert forall|j: int| 0 <= j < parts.len() implies !q(#[trigger] parts[j]) by {}
}

/// The characters of a text that are no blanks.
pub open spec fn inked(s: Seq<char>) -> Seq<char> {
    s.filter(|c: char| !is_white(c))
}

proof fn lemma_inked_sum(a: Seq<char>, b: Seq<char>)
    ensures
        inked(a + b) == inked(a) + inked(b),
    decreases b.len(),
{
    reveal(Seq::filter);
    if b.len() == 0 {
        assert(a + b =~= a);
        assert(inked(b) =~= Seq::empty());
        assert(inked(a) + inked(b) =~= inked(a));
    } else {
        lemma_inked_sum(a, b.drop_last());
        assert((a + b).drop_last() =~= a + b.drop_last());
        assert((a + b).last() == b.last());
        if is_white(b.last()) {
        } else {
            assert(inked(a) + inked(b.drop_last()).push(b.last()) =~= (inked(a) + inked(
                b.drop_last(),
            )).push(b.last()));
        }
    }
}

proof fn lemma_blank(a: Seq<char>)
    requires
        forall|i: int| 0 <= i < a.len() ==> is_white(#[trigger] a[i]),
    ensures
        inked(a) == Seq::<char>::empty(),
    decreases a.len(),
{
    reveal(Seq::filter);
    if a.len() > 0 {
        assert forall|i: int| 0 <= i < a.drop_last().len() implies is_white(
            #[trigger] a.drop_last()[i],
        ) by {
            assert(a.drop_last()[i] == a[i]);
        }
        lemma_blank(a.drop_last());
        assert(is_white(a[a.len() - 1]));
    }
}

proof fn lemma_inked_trimmed(s: Seq<char>)
    ensures
        inked(trimmed_end(s)) == inked(s),
        inked(trimmed_start(s)) == inked(s),
    decreases s.len(),
{
    reveal(Seq::filter);
    if s.len() > 0 {
        if is_white(s.last()) {
            lemma_inked_trimmed(s.drop_last());
        }
        if is_white(s[0]) {
            lemma_inked_trimmed(s.drop_first());
            assert(s =~= seq![s[0]] + s.drop_first());
            lemma_inked_sum(seq![s[0]], s.drop_first());
            lemma_blank(seq![s[0]]);
            assert(Seq::<char>::empty() + inked(s.drop_first()) =~= inked(s.drop_first()));
        }
    }
}

/// A colon behind a word that names a filter takes the word out of the text, and
/// nothing else that is no blank. Where the query has the filter, no more happens but
/// that the cursor goes to the end of its value.
pub proof fn a_colon_jumps_to_the_filter(
    s: Seq<char>,
    cursor: int,
    parts: Seq<QueryPart>,
    context: CursorContext,
    answer: ColonAnswer,
    word: int,
    i: int,
    k: int,
)
    requires
        0 <= word < cursor <= s.len(),
        context is Fts || context is Whitespace,
        forall|j: int| word <= j < cursor ==> !is_white(#[trigger] s[j]),
        word == 0 || is_white(s[word - 1]),
        0 <= i < parts.len(),
        parts[i] matches QueryPart::Filter { name, .. } && name@ == answer.canonical@,
        0 <= k < answer.cleaned.parts@.len(),
        answer.cleaned.parts@[k] matches QueryPart::Filter { name, .. } && name@
            == answer.canonical@,
        forall|j: int|
            0 <= j < k && (#[trigger] answer.cleaned.parts@[j]) is Filter
                ==> answer.cleaned.parts@[j]->Filter_name@ != answer.canonical@,
    ensures
        ({
            let (text, at, result) = after_input(
                s,
                cursor,
                parts,
                context,
                InputRequest::InsertChar(':'),
                Some(answer),
            );
            let end = answer.cleaned.parts@[k]->Filter_value_span.end;
            &&& inked(text) == inked(s.take(word)) + inked(s.skip(cursor))
            &&& at == if end <= text.len() {
                end as int
            } else {
                text.len() as int
            }
            &&& result == KeyResult::Handled
        }),
{
    reveal(super::search_bar::special);
    lemma_word(s, word, cursor);
    lemma_wordless(s, word, cursor);
    let p = |p: QueryPart| super::search_bar::is_filter(p, answer.canonical@);
    lemma_first_index(parts, p);
    assert(p(parts[i]));
    assert(p(answer.cleaned.parts@[k]));
    assert forall|j: int| 0 <= j < k implies !p(#[trigger] answer.cleaned.parts@[j]) by {}
    crate::find::lemma_first_index_some(answer.cleaned.parts@, p, k);
}

proof fn lemma_word(s: Seq<char>, word: int, cursor: int)
    requires
        0 <= word < cursor <= s.len(),
        forall|j: int| word <= j < cursor ==> !is_white(#[trigger] s[j]),
        word == 0 || is_white(s[word - 1]),
    ensures
        run_start(s, cursor) == word,
{
    runs_reach_to_the_blanks(s, cursor);
    let a = run_start(s, cursor);
    if a < word {
        assert(!is_white(s[word - 1]));
    }
    if a > word {
        assert(is_white(s[a - 1]));
    }
}

proof fn lemma_wordless(s: Seq<char>, word: int, cursor: int)
    requires
        0 <= word < cursor <= s.len(),
        run_start(s, cursor) == word,
    ensures
        inked(super::search_bar::wordless(s, cursor)) == inked(s.take(word)) + inked(
            s.skip(cursor),
        ),
{
    let (a, b) = (trimmed_end(s.take(word)), trimmed_start(s.skip(cursor)));
    lemma_inked_trimmed(s.take(word));
    lemma_inked_trimmed(s.skip(cursor));
    lemma_blank(seq![' ']);
    lemma_inked_sum(a, b);
    lemma_inked_sum(a, seq![' ']);
    lemma_inked_sum(a + seq![' '], b);
    assert(inked(a) + Seq::<char>::empty() =~= inked(a));
    if a.len() == 0 {
        assert(a + b =~= b);
    }
    if b.len() == 0 {
        assert(a + b =~= a);
    }
}

/// A colon behind a word that names a filter which the query has not puts the filter's
/// name with a colon in, before the plain words, and takes the word out. The cursor
/// goes behind that colon, and nothing else that is no blank changes.
pub proof fn a_colon_makes_the_filter(
    s: Seq<char>,
    cursor: int,
    parts: Seq<QueryPart>,
    context: CursorContext,
    answer: ColonAnswer,
    word: int,
)
    requires
        0 <= word < cursor <= s.len(),
        context is Fts || context is Whitespace,
        forall|j: int| word <= j < cursor ==> !is_white(#[trigger] s[j]),
        word == 0 || is_white(s[word - 1]),
        forall|j: int|
            0 <= j < parts.len() && (#[trigger] parts[j]) is Filter ==> parts[j]->Filter_name@
                != answer.canonical@,
    ensures
        ({
            let (text, at, result) = after_input(
                s,
                cursor,
                parts,
                context,
                InputRequest::InsertChar(':'),
                Some(answer),
            );
            let filter = answer.canonical@.push(':');
            exists|p: int|
                {
                    &&& 0 <= p <= text.len() - filter.len()
                    &&& #[trigger] text.subrange(p, p + filter.len()) == filter
                    &&& at == p + filter.len()
                    &&& p == 0 || text[p - 1] == ' '
                    &&& at == text.len() || text[at] == ' '
                    &&& inked(text.take(p)) + inked(text.skip(at)) == inked(s.take(word)) + inked(
                        s.skip(cursor),
                    )
                    &&& (forall|j: int|
                        0 <= j < answer.cleaned.parts@.len() ==> !(
                        #[trigger] answer.cleaned.parts@[j] is Fts)) ==> at == text.len()
                }
        }),
{
    reveal(super::search_bar::special);
    lemma_word(s, word, cursor);
    lemma_wordless(s, word, cursor);
    let canonical = answer.canonical@;
    let parsed = answer.cleaned.parts@;
    let p = |p: QueryPart| super::search_bar::is_filter(p, canonical);
    let fts = |p: QueryPart| p is Fts;
    lemma_first_index(parts, p);
    lemma_first_index(parsed, fts);
    let cleaned = super::search_bar::wordless(s, cursor);
    let placed = super::search_bar::filter_placed(cleaned, canonical, fts_start(parsed));
    assert(after_input(
        s,
        cursor,
        parts,
        context,
        InputRequest::InsertChar(':'),
        Some(answer),
    ) == (placed.0, placed.1, KeyResult::Handled));
    let q = lemma_placed(cleaned, canonical, fts_start(parsed));
    let filter = canonical.push(':');
    assert(placed.0.subrange(q, q + filter.len()) == filter);
    if forall|j: int|
        0 <= j < answer.cleaned.parts@.len() ==> !(#[trigger] answer.cleaned.parts@[j] is Fts) {
        assert(fts_start(parsed) is None);
    }
    let (text, at, result) = after_input(
        s,
        cursor,
        parts,
        context,
        InputRequest::InsertChar(':'),
        Some(answer),
    );
    assert(0 <= q <= text.len() - filter.len());
    assert(text.subrange(q, q + filter.len()) == filter);
    assert(at == q + filter.len());
    assert(inked(text.take(q)) + inked(text.skip(at)) == inked(s.take(word)) + inked(
        s.skip(cursor),
    ));
}

proof fn lemma_placed(cleaned: Seq<char>, canonical: Seq<char>, fts: Option<int>) -> (q: int)
    requires
        fts matches Some(pos) ==> pos >= 0,
    ensures
        ({
            let (text, at) = super::search_bar::filter_placed(cleaned, canonical, fts);
            let filter = canonical.push(':');
            &&& 0 <= q <= text.len() - filter.len()
            &&& text.subrange(q, q + filter.len()) == filter
            &&& at == q + filter.len()
            &&& q == 0 || text[q - 1] == ' '
            &&& at == text.len() || text[at] == ' '
            &&& inked(text.take(q)) + inked(text.skip(at)) == inked(cleaned)
            &&& fts is None ==> at == text.len()
        }),
{
    let (text, at) = super::search_bar::filter_placed(cleaned, canonical, fts);
    let filter = canonical.push(':');
    lemma_blank(seq![' ']);
    lemma_blank(Seq::empty());
    match fts {
        Some(pos) => {
            let n = super::search_bar::at_most(pos, cleaned.len() as int);
            let prefix = trimmed_end(cleaned.take(n));
            let suffix = trimmed_start(cleaned.skip(n));
            lemma_inked_trimmed(cleaned.take(n));
            lemma_inked_trimmed(cleaned.skip(n));
            lemma_inked_sum(cleaned.take(n), cleaned.skip(n));
            assert(cleaned.take(n) + cleaned.skip(n) =~= cleaned);
            lemma_inked_sum(seq![' '], suffix);
            assert(Seq::<char>::empty() + inked(suffix) =~= inked(suffix));
            if prefix.len() == 0 {
                assert(prefix =~= Seq::empty());
                assert(text.subrange(0, filter.len() as int) =~= filter);
                assert(text.skip(at) =~= seq![' '] + suffix);
                assert(text.take(0) =~= Seq::empty());
                0
            } else {
                let q = prefix.len() as int + 1;
                assert(text.subrange(q, q + filter.len()) =~= filter);
                assert(text.skip(at) =~= seq![' '] + suffix);
                assert(text.take(q) =~= prefix + seq![' ']);
                lemma_inked_sum(prefix, seq![' ']);
                assert(inked(prefix) + Seq::<char>::empty() =~= inked(prefix));
                q
            }
        },
        None => {
            if cleaned.len() == 0 {
                assert(cleaned =~= Seq::empty());
                assert(text.subrange(0, filter.len() as int) =~= filter);
                assert(text.take(0) =~= Seq::empty());
                assert(text.skip(at) =~= Seq::empty());
                assert(inked(cleaned) + inked(cleaned) =~= inked(cleaned));
                0
            } else {
                let q = cleaned.len() as int + 1;
                assert(text.subrange(q, q + filter.len()) =~= filter);
                assert(text.take(q) =~= cleaned + seq![' ']);
                assert(text.skip(at) =~= Seq::empty());
                lemma_inked_sum(cleaned, seq![' ']);
                assert(inked(cleaned) + Seq::<char>::empty() =~= inked(cleaned));
                q
            }
        },
    }
}

/// A colon elsewhere, or behind a word that names no filter, is put in.
pub proof fn other_colons_are_put_in(
    s: Seq<char>,
    cursor: int,
    parts: Seq<QueryPart>,
    context: CursorContext,
    answer: Option<ColonAnswer>,
)
    requires
        0 <= cursor <= s.len(),
        answer is None || context is Filter || context is Regex || cursor == 0 || is_white(
            s[cursor - 1],
        ),
    ensures
        after_input(s, cursor, parts, context, InputRequest::InsertChar(':'), answer) == (
            s.take(cursor) + seq![':'] + s.skip(cursor),
            cursor + 1,
            KeyResult::Handled,
        ),
{
    reveal(super::search_bar::special);
    runs_reach_to_the_blanks(s, cursor);
    assert(s.insert(cursor, ':') =~= s.take(cursor) + seq![':'] + s.skip(cursor));
    if cursor > 0 && is_white(s[cursor - 1]) {
        if run_start(s, cursor) < cursor {
            assert(!is_white(s[cursor - 1]));
        }
    }
}

/// A chosen completion replaces the segment of the filter's value that begins at the
/// popup's anchor, up to the next bar or the value's end. The text around it stays, and
/// the cursor goes behind the completion.
pub proof fn a_completion_replaces_one_segment(
    s: Seq<char>,
    parts: Seq<QueryPart>,
    popup: AutocompleteState,
    i: int,
    end: int,
)
    requires
        0 <= i < parts.len(),
        popup.selected < popup.suggestions@.len(),
        parts[i] is Filter,
        ({
            let (anchor, span) = (popup.anchor_offset as int, parts[i]->Filter_value_span);
            let value = parts[i]->Filter_value@;
            &&& parts[i]->Filter_name@ == popup.filter_name@
            &&& span.start <= anchor <= span.end <= s.len()
            &&& value == s.subrange(span.start as int, span.end as int)
            &&& forall|j: int|
                0 <= j < i && (#[trigger] parts[j]) is Filter && parts[j]->Filter_name@
                    == popup.filter_name@ ==> !(parts[j]->Filter_value_span.start <= anchor
                    <= parts[j]->Filter_value_span.end)
            &&& anchor <= end <= span.end
            &&& forall|j: int| anchor <= j < end ==> #[trigger] s[j] != '|'
            &&& end == span.end || s[end] == '|'
        }),
    ensures
        ({
            let chosen = popup.suggestions@[popup.selected as int]@;
            let anchor = popup.anchor_offset as int;
            completion(s, parts, Some(popup)) == Some(
                (s.take(anchor) + chosen + s.skip(end), (anchor + chosen.len()) as int),
            )
        }),
{
    reveal(super::search_bar::completion);
    let anchor = popup.anchor_offset as int;
    let p = |p: QueryPart| is_anchored(p, popup.filter_name@, anchor);
    assert(p(parts[i]));
    assert forall|j: int| 0 <= j < i implies !p(#[trigger] parts[j]) by {}
    crate::find::lemma_first_index_some(parts, p, i);
    let span = parts[i]->Filter_value_span;
    let value = parts[i]->Filter_value@;
    assert forall|j: int| anchor - span.start <= j < end - span.start implies #[trigger] value[j]
        != '|' by {
        assert(value[j] == s[span.start + j]);
    }
    if end < span.end {
        assert(value[end - span.start] == s[end]);
    }
    lemma_segment(value, anchor - span.start, end - span.start);
    let chosen = popup.suggestions@[popup.selected as int]@;
}

proof fn lemma_segment(value: Seq<char>, at: int, end: int)
    requires
        0 <= at <= end <= value.len(),
        forall|j: int| at <= j < end ==> #[trigger] value[j] != '|',
        end == value.len() || value[end] == '|',
    ensures
        segment_end(value, at) == end,
    decreases end - at,
{
    if at < end {
        lemma_segment(value, at + 1, end);
    }
}

/// The highlight of the popup goes one row down or up, and around at the ends; the
/// rest of the popup stays.
pub proof fn the_highlight_moves_by_one_row(
    before: AutocompleteState,
    after: Option<AutocompleteState>,
    forwards: bool,
)
    requires
        before.selected < before.suggestions@.len(),
        moved(Some(before), after, forwards),
    ensures
        after matches Some(now) && {
            let n = before.suggestions@.len();
            &&& now.suggestions == before.suggestions
            &&& now.filter_name == before.filter_name
            &&& now.anchor_offset == before.anchor_offset
            &&& now.selected < n
            &&& forwards ==> (if before.selected + 1 == n {
                now.selected == 0
            } else {
                now.selected == before.selected + 1
            })
            &&& !forwards ==> (if before.selected == 0 {
                now.selected == n - 1
            } else {
                now.selected == before.selected - 1
            })
        },
{
    let n = before.suggestions@.len() as int;
    assert(n == before.suggestions.len());
    let k = before.selected as int;
    assert((k + 1) % n == if k + 1 == n {
        0
    } else {
        k + 1
    }) by (nonlinear_arith)
        requires
            0 <= k < n,
    ;
    assert((k + n - 1) % n == if k == 0 {
        n - 1
    } else {
        k - 1
    }) by (nonlinear_arith)
        requires
            0 <= k < n,
    ;
}

/// The error that is shown is that of a part the cursor touches, the leftmost of
/// these, and else that of the leftmost faulty part; there is none where no part has
/// one.
pub proof fn the_error_at_the_cursor_comes_first(parts: Seq<QueryPart>, cursor: int)
    ensures
        match relevant_fault(parts, cursor) {
            Some(i) => {
                &&& 0 <= i < parts.len()
                &&& parts[i].fault() is Some
                &&& forall|j: int|
                    #![trigger parts[j]]
                    0 <= j < parts.len() && parts[j].fault() is Some && parts[j].place().start
                        <= cursor <= parts[j].place().end ==> i <= j && parts[i].place().start
                        <= cursor <= parts[i].place().end
                &&& !(parts[i].place().start <= cursor <= parts[i].place().end) ==> forall|j: int|
                    0 <= j < i ==> (#[trigger] parts[j]).fault() is None
            },
            None => forall|j: int| 0 <= j < parts.len() ==> (#[trigger] parts[j]).fault() is None,
        },
{
    let p = |p: QueryPart| super::search_bar::faulty_at(p, cursor);
    let q = |p: QueryPart| p.fault() is Some;
    lemma_first_index(parts, p);
    lemma_first_index(parts, q);
    assert forall|j: int|
        #![trigger parts[j]]
        0 <= j < parts.len() && parts[j].fault() is Some && parts[j].place().start <= cursor
            <= parts[j].place().end implies p(parts[j]) by {}
    assert forall|j: int| #![trigger parts[j]] 0 <= j < parts.len() implies q(parts[j]) == (
    parts[j].fault() is Some) by {}
}

/// The pieces drawn one after the other.
pub open spec fn drawn(pieces: Seq<(Seq<char>, PartColour)>) -> Seq<char>
    decreases pieces.len(),
{
    if pieces.len() == 0 {
        Seq::empty()
    } else {
        drawn(pieces.drop_last()) + pieces.last().0
    }
}

/// The parts follow each other without gap from the start of the text to `end`.
pub open spec fn tile(parts: Seq<QueryPart>, end: int) -> bool
    decreases parts.len(),
{
    if parts.len() == 0 {
        end == 0
    } else {
        parts.last().place().start <= parts.last().place().end && parts.last().place().end == end
            && tile(parts.drop_last(), parts.last().place().start as int)
    }
}

proof fn lemma_drawn(
    s: Seq<char>,
    parts: Seq<QueryPart>,
    pieces: Seq<(Seq<char>, PartColour)>,
    end: int,
)
    requires
        tile(parts, end),
        0 <= end <= s.len(),
        pieces.len() == parts.len(),
        forall|i: int| 0 <= i < parts.len() ==> (#[trigger] pieces[i]).0 == spanned(
            s,
            parts[i].place(),
        ),
    ensures
        drawn(pieces) == s.take(end),
    decreases parts.len(),
{
    if parts.len() > 0 {
        let span = parts.last().place();
        let rest = pieces.drop_last();
        assert forall|i: int| 0 <= i < parts.drop_last().len() implies (#[trigger] rest[i]).0
            == spanned(s, parts.drop_last()[i].place()) by {
            assert(rest[i] == pieces[i]);
        }
        lemma_drawn(s, parts.drop_last(), rest, span.start as int);
        assert(pieces[pieces.len() - 1].0 == spanned(s, span));
        assert(spanned(s, span) =~= s.subrange(span.start as int, span.end as int));
        assert(s.take(span.start as int) + s.subrange(span.start as int, span.end as int)
            =~= s.take(end));
    } else {
        assert(s.take(0) =~= Seq::empty());
    }
}

/// The search bar draws the whole text, no character more or less, where the parts
/// follow each other without gap. A part with an error is red, blanks have no colour,
/// and a bar that is not edited is grey otherwise.
pub proof fn the_bar_draws_its_text(
    s: Seq<char>,
    parts: Seq<QueryPart>,
    context: CursorContext,
    cursor: Option<usize>,
    end: int,
)
    requires
        tile(parts, end),
        0 <= end <= s.len(),
    ensures
        drawn(coloured(s, parts, context, cursor)) == s,
        forall|i: int|
            0 <= i < parts.len() ==> {
                let colour = (#[trigger] coloured(s, parts, context, cursor)[i]).1;
                &&& parts[i] is Whitespace ==> colour == PartColour::Reset
                &&& !(parts[i] is Whitespace) ==> {
                    &&& colour == PartColour::Red <==> parts[i].fault() is Some
                    &&& cursor is None && parts[i].fault() is None ==> colour
                        == PartColour::DarkGray
                    &&& colour == PartColour::Yellow ==> parts[i] is Filter
                    &&& colour == PartColour::Magenta ==> parts[i] is Regex
                    &&& colour == PartColour::Cyan ==> parts[i] is Fts
                    &&& colour != PartColour::Reset
                }
            },
        forall|i: int|
            #![trigger coloured(s, parts, context, cursor)[i]]
            0 <= i < parts.len() && context is Fts && cursor is Some && parts[i] is Fts
                ==> coloured(s, parts, context, cursor)[i].1 == PartColour::Cyan,
{
    let all = coloured(s, parts, context, cursor);
    let n = parts.len() as int;
    let pieces = all.take(n);
    assert forall|i: int| 0 <= i < parts.len() implies (#[trigger] pieces[i]).0 == spanned(
        s,
        parts[i].place(),
    ) by {
        assert(pieces[i] == all[i]);
    }
    lemma_drawn(s, parts, pieces, end);
    if end < s.len() {
        assert(all.drop_last() =~= pieces);
        assert(s.take(end) + s.skip(end) =~= s);
    } else {
        assert(all =~= pieces);
        assert(s.take(end) =~= s);
    }
}

/// The part being edited is the first that the cursor touches; among the words of a
/// full-text search it is every one of them. Without a cursor there is none.
pub proof fn the_part_at_the_cursor_is_edited(
    parts: Seq<QueryPart>,
    context: CursorContext,
    cursor: usize,
    i: int,
    j: int,
)
    requires
        0 <= i < parts.len(),
        0 <= j < parts.len(),
        parts[i].place().start <= cursor <= parts[i].place().end,
        forall|k: int|
            0 <= k < i ==> !((#[trigger] parts[k]).place().start <= cursor
                <= parts[k].place().end),
    ensures
        !(context is Fts) ==> (is_active(parts, context, Some(cursor), j) <==> i == j),
        context is Fts ==> (is_active(parts, context, Some(cursor), j) <==> parts[j] is Fts),
        !is_active(parts, context, None, j),
{
    lemma_first_index(
        parts,
        |p: QueryPart| p.place().start <= cursor && cursor <= p.place().end,
    );
}

} // verus!
