//! Text as sequences of characters.
//!
//! A string is seen through its view, the sequence of its characters. The
//! functions here cut, join and compare strings by character, never by byte.

use vstd::prelude::*;
use vstd::string::*;

use crate::find::{first_index, lemma_first_index_none, lemma_first_index_some};

verus! {

/// `String::push` appends one character.
pub assume_specification[ String::push ](s: &mut String, c: char)
    ensures
        final(s)@ == old(s)@.push(c),
;

/// The Unicode property White_Space.
pub open spec fn is_white(c: char) -> bool {
    let n = c as u32;
    ||| 0x9 <= n <= 0xd
    ||| n == 0x20
    ||| n == 0x85
    ||| n == 0xa0
    ||| n == 0x1680
    ||| 0x2000 <= n <= 0x200a
    ||| n == 0x2028
    ||| n == 0x2029
    ||| n == 0x202f
    ||| n == 0x205f
    ||| n == 0x3000
}

/// The characters of each string.
pub open spec fn views(strings: Seq<String>) -> Seq<Seq<char>> {
    strings.map_values(|s: String| s@)
}

/// `s` without the whitespace at its start.
pub open spec fn trimmed_start(s: Seq<char>) -> Seq<char>
    decreases s.len(),
{
    if s.len() > 0 && is_white(s[0]) {
        trimmed_start(s.drop_first())
    } else {
        s
    }
}

/// `s` without the whitespace at its end.
pub open spec fn trimmed_end(s: Seq<char>) -> Seq<char>
    decreases s.len(),
{
    if s.len() > 0 && is_white(s.last()) {
        trimmed_end(s.drop_last())
    } else {
        s
    }
}

/// `s` without the whitespace at either end.
pub open spec fn trimmed(s: Seq<char>) -> Seq<char> {
    trimmed_end(trimmed_start(s))
}

/// `s` without the leading run of `c`.
pub open spec fn stripped_start(s: Seq<char>, c: char) -> Seq<char>
    decreases s.len(),
{
    if s.len() > 0 && s[0] == c {
        stripped_start(s.drop_first(), c)
    } else {
        s
    }
}

/// `s` without the trailing run of `c`.
pub open spec fn stripped_end(s: Seq<char>, c: char) -> Seq<char>
    decreases s.len(),
{
    if s.len() > 0 && s.last() == c {
        stripped_end(s.drop_last(), c)
    } else {
        s
    }
}

/// The parts joined with `sep` between neighbours.
pub open spec fn joined(parts: Seq<Seq<char>>, sep: Seq<char>) -> Seq<char>
    decreases parts.len(),
{
    if parts.len() == 0 {
        Seq::empty()
    } else if parts.len() == 1 {
        parts[0]
    } else {
        joined(parts.drop_last(), sep) + sep + parts.last()
    }
}

/// The pieces of `s` between the occurrences of `c`; one piece where `c` does
/// not occur.
pub open spec fn pieces(s: Seq<char>, c: char) -> Seq<Seq<char>>
    decreases s.len(),
{
    if s.len() == 0 {
        seq![Seq::empty()]
    } else if s.last() == c {
        pieces(s.drop_last(), c).push(Seq::empty())
    } else {
        let front = pieces(s.drop_last(), c);
        front.update(front.len() - 1, front.last().push(s.last()))
    }
}

/// The decimal digit of `n < 10`.
pub open spec fn digit(n: nat) -> char {
    (48 + n) as u8 as char
}

/// `n` in decimal notation.
pub open spec fn decimal(n: nat) -> Seq<char>
    decreases n,
{
    if n < 10 {
        seq![digit(n)]
    } else {
        decimal(n / 10).push(digit(n % 10))
    }
}

pub fn is_whitespace(c: char) -> (b: bool)
    ensures
        b == is_white(c),
{
    let n: u32 = c as u32;
    (0x9 <= n && n <= 0xd) || n == 0x20 || n == 0x85 || n == 0xa0 || n == 0x1680 || (0x2000 <= n
        && n <= 0x200a) || n == 0x2028 || n == 0x2029 || n == 0x202f || n == 0x205f || n == 0x3000
}

/// Number of characters.
pub fn char_len(s: &str) -> (n: usize)
    ensures
        n == s@.len(),
{
    s.unicode_len()
}

pub fn to_chars(s: &str) -> (chars: Vec<char>)
    ensures
        chars@ == s@,
{
    let mut chars: Vec<char> = Vec::new();
    for c in it: s.chars()
        invariant
            it.seq() == s@,
            chars@ == s@.take(it.index()),
    {
        chars.push(c);
    }
    chars
}

pub fn from_chars(chars: &Vec<char>, start: usize, end: usize) -> (s: String)
    requires
        start <= end <= chars@.len(),
    ensures
        s@ == chars@.subrange(start as int, end as int),
{
    let mut s = String::new();
    let mut i: usize = start;
    while i < end
        invariant
            start <= i <= end <= chars@.len(),
            s@ == chars@.subrange(start as int, i as int),
        decreases end - i,
    {
        s.push(chars[i]);
        i += 1;
    }
    s
}

pub fn same(a: &str, b: &str) -> (eq: bool)
    ensures
        eq == (a@ == b@),
{
    a.to_owned() == b.to_owned()
}

pub fn concat(a: &str, b: &str) -> (s: String)
    ensures
        s@ == a@ + b@,
{
    let mut s = a.to_owned();
    s.append(b);
    s
}

/// Whether `needle` is one of `strings`.
pub fn contains(strings: &Vec<String>, needle: &str) -> (found: bool)
    ensures
        found == views(strings@).contains(needle@),
{
    let mut i: usize = 0;
    while i < strings.len()
        invariant
            i <= strings@.len(),
            forall|j: int| 0 <= j < i ==> strings@[j]@ != needle@,
        decreases strings@.len() - i,
    {
        if same(&strings[i], needle) {
            assert(views(strings@)[i as int] == needle@);
            return true;
        }
        i += 1;
    }
    assert(!views(strings@).contains(needle@));
    false
}

pub fn trim_start(s: &str) -> (r: &str)
    ensures
        r@ == trimmed_start(s@),
{
    let n: usize = char_len(s);
    let mut i: usize = 0;
    assert(s@.skip(0) =~= s@);
    while i < n && is_whitespace(s.get_char(i))
        invariant
            i <= n,
            n == s@.len(),
            trimmed_start(s@) == trimmed_start(s@.skip(i as int)),
        decreases n - i,
    {
        assert(s@.skip(i as int).drop_first() =~= s@.skip(i + 1));
        i += 1;
    }
    assert(s@.subrange(i as int, n as int) =~= s@.skip(i as int));
    s.substring_char(i, n)
}

pub fn trim_end(s: &str) -> (r: &str)
    ensures
        r@ == trimmed_end(s@),
{
    let n: usize = char_len(s);
    let mut i: usize = n;
    assert(s@.take(n as int) =~= s@);
    while i > 0 && is_whitespace(s.get_char(i - 1))
        invariant
            i <= n,
            n == s@.len(),
            trimmed_end(s@) == trimmed_end(s@.take(i as int)),
        decreases i,
    {
        assert(s@.take(i as int).drop_last() =~= s@.take(i - 1));
        i -= 1;
    }
    assert(s@.subrange(0, i as int) =~= s@.take(i as int));
    s.substring_char(0, i)
}

pub fn trim(s: &str) -> (r: &str)
    ensures
        r@ == trimmed(s@),
{
    trim_end(trim_start(s))
}

pub fn strip_start(s: &str, c: char) -> (r: &str)
    ensures
        r@ == stripped_start(s@, c),
{
    let n: usize = char_len(s);
    let mut i: usize = 0;
    assert(s@.skip(0) =~= s@);
    while i < n && s.get_char(i) == c
        invariant
            i <= n,
            n == s@.len(),
            stripped_start(s@, c) == stripped_start(s@.skip(i as int), c),
        decreases n - i,
    {
        assert(s@.skip(i as int).drop_first() =~= s@.skip(i + 1));
        i += 1;
    }
    assert(s@.subrange(i as int, n as int) =~= s@.skip(i as int));
    s.substring_char(i, n)
}

pub fn strip_end(s: &str, c: char) -> (r: &str)
    ensures
        r@ == stripped_end(s@, c),
{
    let n: usize = char_len(s);
    let mut i: usize = n;
    assert(s@.take(n as int) =~= s@);
    while i > 0 && s.get_char(i - 1) == c
        invariant
            i <= n,
            n == s@.len(),
            stripped_end(s@, c) == stripped_end(s@.take(i as int), c),
        decreases i,
    {
        assert(s@.take(i as int).drop_last() =~= s@.take(i - 1));
        i -= 1;
    }
    assert(s@.subrange(0, i as int) =~= s@.take(i as int));
    s.substring_char(0, i)
}

/// `s` with `c` inserted before the character at `at`.
pub fn insert_char(s: &str, at: usize, c: char) -> (r: String)
    requires
        at <= s@.len(),
    ensures
        r@ == s@.insert(at as int, c),
{
    let n: usize = char_len(s);
    let mut r = s.substring_char(0, at).to_owned();
    r.push(c);
    r.append(s.substring_char(at, n));
    assert(r@ =~= s@.insert(at as int, c));
    r
}

/// `s` with the characters from `start` to `end` replaced by `with`.
pub fn replace_range(s: &str, start: usize, end: usize, with: &str) -> (r: String)
    requires
        start <= end <= s@.len(),
    ensures
        r@ == s@.take(start as int) + with@ + s@.skip(end as int),
{
    let n: usize = char_len(s);
    let mut r = s.substring_char(0, start).to_owned();
    r.append(with);
    r.append(s.substring_char(end, n));
    assert(s@.subrange(0, start as int) =~= s@.take(start as int));
    assert(s@.subrange(end as int, n as int) =~= s@.skip(end as int));
    r
}

/// `s` without the character at `at`.
pub fn remove_char(s: &str, at: usize) -> (r: String)
    requires
        at < s@.len(),
    ensures
        r@ == s@.remove(at as int),
{
    let n: usize = char_len(s);
    assert(at + 1 <= n);
    let r = replace_range(s, at, at + 1, "");
    proof {
        reveal_strlit("");
    }
    assert(r@ =~= s@.remove(at as int));
    r
}

pub fn join(parts: &[String], sep: &str) -> (s: String)
    ensures
        s@ == joined(views(parts@), sep@),
{
    let mut s = String::new();
    let mut i: usize = 0;
    assert(views(parts@).take(0) =~= Seq::empty());
    while i < parts.len()
        invariant
            i <= parts@.len(),
            s@ == joined(views(parts@).take(i as int), sep@),
        decreases parts@.len() - i,
    {
        proof {
            let next = views(parts@).take(i + 1);
            assert(next.drop_last() =~= views(parts@).take(i as int));
            assert(next.last() == parts@[i as int]@);
        }
        if i > 0 {
            s.append(sep);
        }
        s.append(&parts[i]);
        proof {
            if i == 0 {
                assert(s@ =~= parts@[0]@);
            }
        }
        i += 1;
    }
    assert(views(parts@).take(i as int) =~= views(parts@));
    s
}

/// The pieces of `s` between the occurrences of `c`.
pub fn split(s: &str, c: char) -> (parts: Vec<String>)
    ensures
        views(parts@) == pieces(s@, c),
        parts@.len() > 0,
{
    let chars = to_chars(s);
    let mut parts: Vec<String> = Vec::new();
    let mut current = String::new();
    let mut i: usize = 0;
    assert(s@.take(0) =~= Seq::empty());
    assert(views(parts@).push(current@) =~= pieces(s@.take(0), c));
    while i < chars.len()
        invariant
            i <= chars@.len(),
            chars@ == s@,
            views(parts@).push(current@) == pieces(s@.take(i as int), c),
        decreases chars@.len() - i,
    {
        let ghost before = views(parts@).push(current@);
        let ghost next = s@.take(i + 1);
        assert(next.drop_last() =~= s@.take(i as int));
        assert(next.last() == s@[i as int]);
        if chars[i] == c {
            parts.push(current);
            current = String::new();
            assert(views(parts@) =~= before);
            assert(views(parts@).push(current@) =~= pieces(next, c));
        } else {
            current.push(chars[i]);
            assert(views(parts@).push(current@) =~= before.update(
                before.len() - 1,
                before.last().push(s@[i as int]),
            ));
        }
        i += 1;
    }
    assert(s@.take(i as int) =~= s@);
    let ghost before = views(parts@).push(current@);
    parts.push(current);
    assert(views(parts@) =~= before);
    parts
}

/// `n` in decimal notation.
pub fn decimal_string(n: usize) -> (s: String)
    ensures
        s@ == decimal(n as nat),
{
    digits(n as u64)
}

/// `n` in decimal notation, with a sign before a negative number.
pub open spec fn decimal_int(n: int) -> Seq<char> {
    if n < 0 {
        "-"@ + decimal((-n) as nat)
    } else {
        decimal(n as nat)
    }
}

fn digits(n: u64) -> (s: String)
    ensures
        s@ == decimal(n as nat),
    decreases n,
{
    let mut s = if n < 10 {
        String::new()
    } else {
        digits(n / 10)
    };
    let d: u8 = (n % 10) as u8;
    s.push((48 + d) as char);
    assert(s@ =~= decimal(n as nat));
    s
}

/// `n` in decimal notation, with a sign before a negative number.
pub fn int_string(n: i64) -> (s: String)
    ensures
        s@ == decimal_int(n as int),
{
    if n < 0 {
        let mut s = "-".to_owned();
        s.append(&digits((-(n + 1)) as u64 + 1));
        s
    } else {
        digits(n as u64)
    }
}

/// The character `c`.
pub open spec fn just(c: char) -> spec_fn(char) -> bool {
    |x: char| x == c
}

/// What stands before and behind the first `c`.
pub open spec fn parted(s: Seq<char>, c: char) -> Option<(Seq<char>, Seq<char>)> {
    match first_index(s, just(c)) {
        Some(i) => Some((s.take(i), s.skip(i + 1))),
        None => None,
    }
}

/// Split at the first `c`.
pub fn split_once(s: &str, c: char) -> (parts: Option<(&str, &str)>)
    ensures
        match parts {
            Some(p) => parted(s@, c) == Some((p.0@, p.1@)),
            None => parted(s@, c) is None,
        },
{
    let n: usize = char_len(s);
    let ghost hit = just(c);
    let mut i: usize = 0;
    while i < n
        invariant
            i <= n,
            n == s@.len(),
            hit == just(c),
            forall|j: int| 0 <= j < i ==> !hit(#[trigger] s@[j]),
        decreases n - i,
    {
        if s.get_char(i) == c {
            proof {
                lemma_first_index_some(s@, hit, i as int);
            }
            let before = s.substring_char(0, i);
            let behind = s.substring_char(i + 1, n);
            assert(before@ =~= s@.take(i as int));
            assert(behind@ =~= s@.skip(i + 1));
            return Some((before, behind));
        }
        i += 1;
    }
    proof {
        lemma_first_index_none(s@, hit);
    }
    None
}

/// Whether the character occurs.
pub fn has_char(s: &str, c: char) -> (yes: bool)
    ensures
        yes == (parted(s@, c) is Some),
{
    split_once(s, c).is_some()
}

proof fn lemma_pieces_not_empty(s: Seq<char>, c: char)
    ensures
        pieces(s, c).len() > 0,
    decreases s.len(),
{
    if s.len() > 0 {
        lemma_pieces_not_empty(s.drop_last(), c);
    }
}

/// Joining the pieces of a text with the separator gives the text back.
pub proof fn joining_the_pieces_restores_the_text(s: Seq<char>, c: char)
    ensures
        joined(pieces(s, c), seq![c]) == s,
    decreases s.len(),
{
    if s.len() == 0 {
    } else {
        let init = s.drop_last();
        let front = pieces(init, c);
        joining_the_pieces_restores_the_text(init, c);
        lemma_pieces_not_empty(init, c);
        if s.last() == c {
            assert(pieces(s, c).drop_last() =~= front);
            assert(joined(pieces(s, c), seq![c]) =~= s);
        } else {
            let all = pieces(s, c);
            assert(all.drop_last() =~= front.drop_last());
            assert(all.last() == front.last().push(s.last()));
            assert(joined(all, seq![c]) =~= joined(front, seq![c]).push(s.last()));
            assert(s =~= init.push(s.last()));
        }
    }
}

/// No piece holds the separator.
pub proof fn pieces_hold_no_separator(s: Seq<char>, c: char, i: int)
    requires
        0 <= i < pieces(s, c).len(),
    ensures
        !pieces(s, c)[i].contains(c),
    decreases s.len(),
{
    if s.len() > 0 {
        let front = pieces(s.drop_last(), c);
        lemma_pieces_not_empty(s.drop_last(), c);
        if s.last() == c {
            if i < front.len() {
                pieces_hold_no_separator(s.drop_last(), c, i);
            }
        } else {
            pieces_hold_no_separator(s.drop_last(), c, i);
            if i == front.len() - 1 {
                let grown = front.last().push(s.last());
                assert forall|j: int| 0 <= j < grown.len() implies grown[j] != c by {
                    if j < front.last().len() {
                        assert(front.last().contains(front.last()[j]));
                    }
                }
            }
        }
    }
}

/// First position from `at` on that holds no whitespace, or the end.
pub open spec fn skip_white(s: Seq<char>, at: int) -> int
    decreases s.len() - at,
{
    if at < s.len() && is_white(s[at]) {
        skip_white(s, at + 1)
    } else {
        at
    }
}

/// First position from `at` on that holds whitespace, or the end.
pub open spec fn run_end(s: Seq<char>, at: int) -> int
    decreases s.len() - at,
{
    if at < s.len() && !is_white(s[at]) {
        run_end(s, at + 1)
    } else {
        at
    }
}

/// Start of the run without whitespace that ends before `at`.
pub open spec fn run_start(s: Seq<char>, at: int) -> int
    decreases at,
{
    if at > 0 && !is_white(s[at - 1]) {
        run_start(s, at - 1)
    } else {
        at
    }
}

/// End of the whitespace-free text that precedes the whitespace before `at`.
pub open spec fn skip_white_back(s: Seq<char>, at: int) -> int
    decreases at,
{
    if at > 0 && is_white(s[at - 1]) {
        skip_white_back(s, at - 1)
    } else {
        at
    }
}

/// The whitespace-separated tokens of `s` from `at` on, as ranges.
pub open spec fn tokens_from(s: Seq<char>, at: int) -> Seq<(int, int)>
    decreases s.len() - at,
    via tokens_from_decreases
{
    let start = skip_white(s, at);
    if 0 <= at && start < s.len() {
        seq![(start, run_end(s, start))] + tokens_from(s, run_end(s, start))
    } else {
        Seq::empty()
    }
}

#[via_fn]
proof fn tokens_from_decreases(s: Seq<char>, at: int) {
    lemma_skip_white(s, at);
    lemma_run_end(s, skip_white(s, at));
}

/// The whitespace-separated tokens of `s`, as ranges.
pub open spec fn tokens(s: Seq<char>) -> Seq<(int, int)> {
    tokens_from(s, 0)
}

/// The text of each range.
pub open spec fn texts(s: Seq<char>, ranges: Seq<(int, int)>) -> Seq<Seq<char>> {
    ranges.map_values(|r: (int, int)| s.subrange(r.0, r.1))
}

pub proof fn lemma_skip_white(s: Seq<char>, at: int)
    ensures
        at <= skip_white(s, at),
        at <= s.len() ==> skip_white(s, at) <= s.len(),
        skip_white(s, at) < s.len() ==> !is_white(s[skip_white(s, at)]),
    decreases s.len() - at,
{
    if at < s.len() && is_white(s[at]) {
        lemma_skip_white(s, at + 1);
    }
}

pub proof fn lemma_run_end(s: Seq<char>, at: int)
    ensures
        at <= run_end(s, at),
        at <= s.len() ==> run_end(s, at) <= s.len(),
        at < s.len() && !is_white(s[at]) ==> at < run_end(s, at),
    decreases s.len() - at,
{
    if at < s.len() && !is_white(s[at]) {
        lemma_run_end(s, at + 1);
    }
}

pub fn find_non_white(chars: &Vec<char>, at: usize) -> (i: usize)
    requires
        at <= chars@.len(),
    ensures
        i == skip_white(chars@, at as int),
        at <= i <= chars@.len(),
{
    let mut i: usize = at;
    while i < chars.len() && is_whitespace(chars[i])
        invariant
            at <= i <= chars@.len(),
            skip_white(chars@, at as int) == skip_white(chars@, i as int),
        decreases chars@.len() - i,
    {
        i += 1;
    }
    i
}

pub fn find_white(chars: &Vec<char>, at: usize) -> (i: usize)
    requires
        at <= chars@.len(),
    ensures
        i == run_end(chars@, at as int),
        at <= i <= chars@.len(),
{
    let mut i: usize = at;
    while i < chars.len() && !is_whitespace(chars[i])
        invariant
            at <= i <= chars@.len(),
            run_end(chars@, at as int) == run_end(chars@, i as int),
        decreases chars@.len() - i,
    {
        i += 1;
    }
    i
}

pub fn find_run_start(chars: &Vec<char>, at: usize) -> (i: usize)
    requires
        at <= chars@.len(),
    ensures
        i == run_start(chars@, at as int),
        i <= at,
{
    let mut i: usize = at;
    while i > 0 && !is_whitespace(chars[i - 1])
        invariant
            i <= at <= chars@.len(),
            run_start(chars@, at as int) == run_start(chars@, i as int),
        decreases i,
    {
        i -= 1;
    }
    i
}

pub fn find_white_start(chars: &Vec<char>, at: usize) -> (i: usize)
    requires
        at <= chars@.len(),
    ensures
        i == skip_white_back(chars@, at as int),
        i <= at,
{
    let mut i: usize = at;
    while i > 0 && is_whitespace(chars[i - 1])
        invariant
            i <= at <= chars@.len(),
            skip_white_back(chars@, at as int) == skip_white_back(chars@, i as int),
        decreases i,
    {
        i -= 1;
    }
    i
}

/// The ranges as mathematical integers.
pub open spec fn int_ranges(ranges: Seq<(usize, usize)>) -> Seq<(int, int)> {
    ranges.map_values(|r: (usize, usize)| (r.0 as int, r.1 as int))
}

/// Ranges that lie within a text of `len` characters.
pub open spec fn within(ranges: Seq<(usize, usize)>, len: int) -> bool {
    forall|i: int| 0 <= i < ranges.len() ==> (#[trigger] ranges[i]).0 < ranges[i].1 <= len
}

/// The whitespace-separated tokens, as ranges.
pub fn token_ranges(chars: &Vec<char>) -> (ranges: Vec<(usize, usize)>)
    ensures
        int_ranges(ranges@) == tokens(chars@),
        within(ranges@, chars@.len() as int),
{
    let mut ranges: Vec<(usize, usize)> = Vec::new();
    let mut at: usize = 0;
    let mut start: usize = find_non_white(chars, 0);
    assert(int_ranges(ranges@) + tokens_from(chars@, 0) =~= tokens(chars@));
    while start < chars.len()
        invariant
            at <= start <= chars@.len(),
            start == skip_white(chars@, at as int),
            int_ranges(ranges@) + tokens_from(chars@, at as int) == tokens(chars@),
            within(ranges@, chars@.len() as int),
        decreases chars@.len() - start,
    {
        let end: usize = find_white(chars, start);
        proof {
            lemma_skip_white(chars@, at as int);
            lemma_run_end(chars@, start as int);
            let before = int_ranges(ranges@);
            let rest = tokens_from(chars@, end as int);
            assert(before.push((start as int, end as int)) + rest =~= before + (seq![
                (start as int, end as int),
            ] + rest));
        }
        let ghost before = int_ranges(ranges@);
        ranges.push((start, end));
        assert(int_ranges(ranges@) =~= before.push((start as int, end as int)));
        at = end;
        start = find_non_white(chars, at);
    }
    assert(int_ranges(ranges@) + tokens_from(chars@, at as int) =~= int_ranges(ranges@));
    ranges
}

/// Lexicographic order by character.
pub open spec fn lex_le(a: Seq<char>, b: Seq<char>) -> bool
    decreases a.len(),
{
    if a.len() == 0 {
        true
    } else if b.len() == 0 {
        false
    } else if a[0] != b[0] {
        a[0] < b[0]
    } else {
        lex_le(a.drop_first(), b.drop_first())
    }
}

pub proof fn lemma_lex_total(a: Seq<char>, b: Seq<char>)
    ensures
        lex_le(a, b) || lex_le(b, a),
        lex_le(a, b) && lex_le(b, a) ==> a == b,
    decreases a.len(),
{
    if a.len() > 0 && b.len() > 0 {
        if a[0] == b[0] {
            lemma_lex_total(a.drop_first(), b.drop_first());
            if lex_le(a, b) && lex_le(b, a) {
                assert(a =~= seq![a[0]] + a.drop_first());
                assert(b =~= seq![b[0]] + b.drop_first());
            }
        }
    } else if a.len() == 0 && b.len() == 0 {
        assert(a =~= b);
    }
}

pub proof fn lemma_lex_transitive(a: Seq<char>, b: Seq<char>, c: Seq<char>)
    requires
        lex_le(a, b),
        lex_le(b, c),
    ensures
        lex_le(a, c),
    decreases a.len(),
{
    if a.len() > 0 && b.len() > 0 && c.len() > 0 && a[0] == b[0] && b[0] == c[0] {
        lemma_lex_transitive(a.drop_first(), b.drop_first(), c.drop_first());
    }
}

pub fn lex_leq(a: &str, b: &str) -> (le: bool)
    ensures
        le == lex_le(a@, b@),
{
    let m: usize = char_len(a);
    let n: usize = char_len(b);
    let mut i: usize = 0;
    assert(a@.skip(0) =~= a@);
    assert(b@.skip(0) =~= b@);
    while i < m && i < n
        invariant
            i <= m,
            i <= n,
            m == a@.len(),
            n == b@.len(),
            lex_le(a@, b@) == lex_le(a@.skip(i as int), b@.skip(i as int)),
        decreases m - i,
    {
        let x = a.get_char(i);
        let y = b.get_char(i);
        if x != y {
            return x < y;
        }
        assert(a@.skip(i as int).drop_first() =~= a@.skip(i + 1));
        assert(b@.skip(i as int).drop_first() =~= b@.skip(i + 1));
        i += 1;
    }
    i == m
}

} // verus!
