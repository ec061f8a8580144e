//! Tag names.

use vstd::prelude::*;
use vstd::string::*;

use crate::text::{char_len, contains, trim, trimmed, views};

verus! {

/// What `str::to_lowercase` makes of a text.
pub uninterp spec fn lowercase(s: Seq<char>) -> Seq<char>;

/// What `char::is_alphanumeric` says of a character.
pub uninterp spec fn alphanumeric(c: char) -> bool;

/// `str::to_lowercase`: the lowercase equivalent of a text, a function of its
/// characters.
pub assume_specification[ str::to_lowercase ](s: &str) -> (r: String)
    ensures
        r@ == lowercase(s@),
;

/// `char::is_alphanumeric`: whether a character is a letter or a digit, a
/// function of the character.
pub assume_specification[ char::is_alphanumeric ](c: char) -> (b: bool)
    ensures
        b == alphanumeric(c),
;

/// `s` without one `#` at its start.
pub open spec fn without_hash(s: Seq<char>) -> Seq<char> {
    if s.len() > 0 && s[0] == '#' {
        s.drop_first()
    } else {
        s
    }
}

/// The canonical spelling of a tag: trimmed, without its `#`, in lower case.
pub open spec fn canonical(s: Seq<char>) -> Seq<char> {
    lowercase(without_hash(trimmed(s)))
}

/// The characters a tag may hold.
pub open spec fn tag_char(c: char) -> bool {
    alphanumeric(c) || c == '-' || c == '_' || c == '/'
}

/// Whether a canonical spelling is a usable tag.
pub open spec fn usable(s: Seq<char>) -> bool {
    s.len() > 0 && forall|i: int| 0 <= i < s.len() ==> tag_char(#[trigger] s[i])
}

pub fn normalise_tag(s: &str) -> (name: String)
    ensures
        name@ == canonical(s@),
{
    let t = trim(s);
    let n: usize = char_len(t);
    if n > 0 && t.get_char(0) == '#' {
        let rest = t.substring_char(1, n);
        assert(rest@ =~= t@.drop_first());
        rest.to_lowercase()
    } else {
        t.to_lowercase()
    }
}

/// The canonical spelling of `s` if it is a usable tag.
pub fn validate_tag(s: &str) -> (name: Option<String>)
    ensures
        match name {
            Some(name) => name@ == canonical(s@) && usable(name@),
            None => !usable(canonical(s@)),
        },
{
    let name = normalise_tag(s);
    let n: usize = char_len(&name);
    if n == 0 {
        return None;
    }
    let mut i: usize = 0;
    while i < n
        invariant
            i <= n,
            n == name@.len(),
            name@ == canonical(s@),
            forall|j: int| 0 <= j < i ==> tag_char(#[trigger] name@[j]),
        decreases n - i,
    {
        let c = name.as_str().get_char(i);
        if !(c.is_alphanumeric() || c == '-' || c == '_' || c == '/') {
            assert(!tag_char(name@[i as int]));
            return None;
        }
        i += 1;
    }
    Some(name)
}

/// The tags spelled by `words`: the usable ones, each once, in their order.
pub open spec fn tag_set(words: Seq<Seq<char>>) -> Seq<Seq<char>>
    decreases words.len(),
{
    if words.len() == 0 {
        Seq::empty()
    } else {
        let before = tag_set(words.drop_last());
        let tag = canonical(words.last());
        if usable(tag) && !before.contains(tag) {
            before.push(tag)
        } else {
            before
        }
    }
}

/// The tags spelled by `words`: the usable ones, each once, in their order.
pub fn tag_names(words: &Vec<String>) -> (names: Vec<String>)
    ensures
        views(names@) == tag_set(views(words@)),
{
    let ghost all = views(words@);
    let mut names: Vec<String> = Vec::new();
    let mut i: usize = 0;
    assert(all.take(0) =~= Seq::empty());
    assert(views(names@) =~= tag_set(all.take(0)));
    while i < words.len()
        invariant
            i <= words@.len(),
            all == views(words@),
            views(names@) == tag_set(all.take(i as int)),
        decreases words@.len() - i,
    {
        assert(all.take(i + 1).drop_last() =~= all.take(i as int));
        assert(all.take(i + 1).last() == words@[i as int]@);
        if let Some(name) = validate_tag(&words[i]) {
            if !contains(&names, &name) {
                let ghost before = names@;
                names.push(name);
                assert(views(names@) =~= views(before).push(name@));
            }
        }
        i += 1;
    }
    assert(all.take(i as int) =~= all);
    names
}

/// The tags are each there once.
pub proof fn lemma_tag_set_once(words: Seq<Seq<char>>)
    ensures
        tag_set(words).no_duplicates(),
    decreases words.len(),
{
    if words.len() > 0 {
        lemma_tag_set_once(words.drop_last());
        let before = tag_set(words.drop_last());
        let tag = canonical(words.last());
        if usable(tag) && !before.contains(tag) {
            assert forall|i: int, j: int|
                0 <= i < tag_set(words).len() && 0 <= j < tag_set(words).len() && i
                    != j implies tag_set(words)[i] != tag_set(words)[j] by {
                if i < before.len() {
                    assert(before.contains(before[i]));
                }
                if j < before.len() {
                    assert(before.contains(before[j]));
                }
            }
        }
    }
}

} // verus!
