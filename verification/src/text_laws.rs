//! What the operations on text come to, character by character.

use vstd::prelude::*;

use crate::find::lemma_first_index;
use crate::tag::{canonical, tag_set, usable};
use crate::text::{
    decimal, decimal_int, is_white, just, lex_le, parted, run_end, run_start, skip_white,
    skip_white_back, stripped_end, stripped_start, tokens, tokens_from, trimmed, trimmed_end,
    trimmed_start,
};

verus! {

/// Blanks are the characters that Unicode calls white space, and no others.
pub proof fn blanks_are_white_space(c: char)
    ensures
        is_white(c) <==> seq![
            '\t',
            '\n',
            '\u{b}',
            '\u{c}',
            '\r',
            ' ',
            '\u{85}',
            '\u{a0}',
            '\u{1680}',
            '\u{2000}',
            '\u{2001}',
            '\u{2002}',
            '\u{2003}',
            '\u{2004}',
            '\u{2005}',
            '\u{2006}',
            '\u{2007}',
            '\u{2008}',
            '\u{2009}',
            '\u{200a}',
            '\u{2028}',
            '\u{2029}',
            '\u{202f}',
            '\u{205f}',
            '\u{3000}',
        ].contains(c),
{
    let all = seq![
        '\t',
        '\n',
        '\u{b}',
        '\u{c}',
        '\r',
        ' ',
        '\u{85}',
        '\u{a0}',
        '\u{1680}',
        '\u{2000}',
        '\u{2001}',
        '\u{2002}',
        '\u{2003}',
        '\u{2004}',
        '\u{2005}',
        '\u{2006}',
        '\u{2007}',
        '\u{2008}',
        '\u{2009}',
        '\u{200a}',
        '\u{2028}',
        '\u{2029}',
        '\u{202f}',
        '\u{205f}',
        '\u{3000}',
    ];
    if is_white(c) {
        let n = c as u32;
        let i: int = if n <= 0xd {
            n - 9
        } else if n == 0x20 {
            5
        } else if n == 0x85 {
            6
        } else if n == 0xa0 {
            7
        } else if n == 0x1680 {
            8
        } else if n <= 0x200a {
            n - 0x2000 + 9
        } else if n == 0x2028 {
            20
        } else if n == 0x2029 {
            21
        } else if n == 0x202f {
            22
        } else if n == 0x205f {
            23
        } else {
            24
        };
        assert(all[i] as u32 == n);
        assert(all[i] == c);
    }
    if all.contains(c) {
        let i = choose|i: int| 0 <= i < all.len() && all[i] == c;
        assert(is_white(all[i]));
    }
}

proof fn lemma_trimmed_start(s: Seq<char>) -> (a: int)
    ensures
        0 <= a <= s.len(),
        trimmed_start(s) == s.skip(a),
        forall|i: int| 0 <= i < a ==> is_white(#[trigger] s[i]),
        a < s.len() ==> !is_white(s[a]),
    decreases s.len(),
{
    if s.len() > 0 && is_white(s[0]) {
        let b = lemma_trimmed_start(s.drop_first());
        assert(s.drop_first().skip(b) =~= s.skip(b + 1));
        assert forall|i: int| 0 <= i < b + 1 implies is_white(#[trigger] s[i]) by {
            if i > 0 {
                assert(s.drop_first()[i - 1] == s[i]);
            }
        }
        b + 1
    } else {
        assert(s.skip(0) =~= s);
        0
    }
}

proof fn lemma_trimmed_end(s: Seq<char>) -> (b: int)
    ensures
        0 <= b <= s.len(),
        trimmed_end(s) == s.take(b),
        forall|i: int| b <= i < s.len() ==> is_white(#[trigger] s[i]),
        b > 0 ==> !is_white(s[b - 1]),
    decreases s.len(),
{
    if s.len() > 0 && is_white(s.last()) {
        let b = lemma_trimmed_end(s.drop_last());
        assert(s.drop_last().take(b) =~= s.take(b));
        assert forall|i: int| b <= i < s.len() implies is_white(#[trigger] s[i]) by {
            if i < s.len() - 1 {
                assert(s.drop_last()[i] == s[i]);
            }
        }
        b
    } else {
        assert(s.take(s.len() as int) =~= s);
        s.len() as int
    }
}

/// Trimming a text takes the blanks off both ends, all of them and nothing else.
pub proof fn trimming_takes_the_blanks_around(s: Seq<char>)
    ensures
        exists|a: int, b: int|
            {
                &&& 0 <= a <= b <= s.len()
                &&& trimmed(s) == #[trigger] s.subrange(a, b)
                &&& forall|i: int| 0 <= i < a || b <= i < s.len() ==> is_white(#[trigger] s[i])
                &&& a < b ==> !is_white(s[a]) && !is_white(s[b - 1])
            },
{
    let a = lemma_trimmed_start(s);
    let t = s.skip(a);
    let e = lemma_trimmed_end(t);
    let b = a + e;
    assert(t.take(e) =~= s.subrange(a, b));
    assert forall|i: int| 0 <= i < a || b <= i < s.len() implies is_white(#[trigger] s[i]) by {
        if b <= i {
            assert(t[i - a] == s[i]);
        }
    }
    if a < b {
        assert(t[e - 1] == s[b - 1]);
    }
    assert(trimmed(s) == s.subrange(a, b));
}

/// Trimming the end of a text takes the blanks off its end, all of them and nothing
/// else.
pub proof fn trimming_the_end_takes_the_blanks_there(s: Seq<char>)
    ensures
        exists|b: int|
            {
                &&& 0 <= b <= s.len()
                &&& trimmed_end(s) == #[trigger] s.take(b)
                &&& forall|i: int| b <= i < s.len() ==> is_white(#[trigger] s[i])
                &&& b > 0 ==> !is_white(s[b - 1])
            },
{
    let b = lemma_trimmed_end(s);
    assert(trimmed_end(s) == s.take(b));
}

/// Nothing is left of a text by trimming exactly if it is blank.
pub proof fn a_blank_text_trims_to_nothing(s: Seq<char>)
    ensures
        trimmed(s).len() == 0 <==> forall|i: int| 0 <= i < s.len() ==> is_white(#[trigger] s[i]),
        trimmed_end(s).len() == 0 <==> forall|i: int|
            0 <= i < s.len() ==> is_white(#[trigger] s[i]),
{
    let a = lemma_trimmed_start(s);
    let t = s.skip(a);
    let e = lemma_trimmed_end(t);
    let b = lemma_trimmed_end(s);
    if trimmed(s).len() == 0 {
        assert(e == 0);
        assert forall|i: int| 0 <= i < s.len() implies is_white(#[trigger] s[i]) by {
            if i >= a {
                assert(t[i - a] == s[i]);
            }
        }
    }
    if forall|i: int| 0 <= i < s.len() ==> is_white(#[trigger] s[i]) {
        if a < s.len() {
            assert(is_white(s[a]));
        }
        if b > 0 {
            assert(is_white(s[b - 1]));
        }
    }
}

/// Stripping a character off the ends takes every one there and no other.
pub proof fn stripping_takes_the_character_around(s: Seq<char>, c: char)
    ensures
        exists|a: int|
            {
                &&& 0 <= a <= s.len()
                &&& stripped_start(s, c) == #[trigger] s.skip(a)
                &&& forall|i: int| 0 <= i < a ==> #[trigger] s[i] == c
                &&& a < s.len() ==> s[a] != c
            },
        exists|b: int|
            {
                &&& 0 <= b <= s.len()
                &&& stripped_end(s, c) == #[trigger] s.take(b)
                &&& forall|i: int| b <= i < s.len() ==> #[trigger] s[i] == c
                &&& b > 0 ==> s[b - 1] != c
            },
{
    let a = lemma_stripped_start(s, c);
    let b = lemma_stripped_end(s, c);
    assert(stripped_start(s, c) == s.skip(a));
    assert(stripped_end(s, c) == s.take(b));
}

proof fn lemma_stripped_start(s: Seq<char>, c: char) -> (a: int)
    ensures
        0 <= a <= s.len(),
        stripped_start(s, c) == s.skip(a),
        forall|i: int| 0 <= i < a ==> #[trigger] s[i] == c,
        a < s.len() ==> s[a] != c,
    decreases s.len(),
{
    if s.len() > 0 && s[0] == c {
        let b = lemma_stripped_start(s.drop_first(), c);
        assert(s.drop_first().skip(b) =~= s.skip(b + 1));
        assert forall|i: int| 0 <= i < b + 1 implies #[trigger] s[i] == c by {
            if i > 0 {
                assert(s.drop_first()[i - 1] == s[i]);
            }
        }
        b + 1
    } else {
        assert(s.skip(0) =~= s);
        0
    }
}

proof fn lemma_stripped_end(s: Seq<char>, c: char) -> (b: int)
    ensures
        0 <= b <= s.len(),
        stripped_end(s, c) == s.take(b),
        forall|i: int| b <= i < s.len() ==> #[trigger] s[i] == c,
        b > 0 ==> s[b - 1] != c,
    decreases s.len(),
{
    if s.len() > 0 && s.last() == c {
        let b = lemma_stripped_end(s.drop_last(), c);
        assert(s.drop_last().take(b) =~= s.take(b));
        assert forall|i: int| b <= i < s.len() implies #[trigger] s[i] == c by {
            if i < s.len() - 1 {
                assert(s.drop_last()[i] == s[i]);
            }
        }
        b
    } else {
        assert(s.take(s.len() as int) =~= s);
        s.len() as int
    }
}

/// Parting a text at a character gives what stands before the first one and what
/// stands behind it; a text without the character is not parted.
pub proof fn parting_cuts_at_the_first(s: Seq<char>, c: char)
    ensures
        match parted(s, c) {
            Some(p) => s == p.0 + seq![c] + p.1 && !p.0.contains(c),
            None => !s.contains(c),
        },
{
    lemma_first_index(s, just(c));
    match parted(s, c) {
        Some(p) => {
            let i = p.0.len() as int;
            assert(just(c)(s[i]));
            assert(s =~= p.0 + seq![c] + p.1);
            assert forall|k: int| 0 <= k < p.0.len() implies #[trigger] p.0[k] != c by {
                assert(!just(c)(s[k]));
            }
        },
        None => {
            assert forall|k: int| 0 <= k < s.len() implies #[trigger] s[k] != c by {
                assert(!just(c)(s[k]));
            }
        },
    }
}

/// What decimal digits say.
pub open spec fn number_read(s: Seq<char>) -> int
    decreases s.len(),
{
    if s.len() == 0 {
        0
    } else {
        number_read(s.drop_last()) * 10 + (s.last() as int - '0' as int)
    }
}

/// Reading the decimal notation of a number gives the number back. It holds digits
/// only, and starts with a zero only for zero.
pub proof fn decimals_read_back(n: nat)
    ensures
        number_read(decimal(n)) == n,
        decimal(n).len() > 0,
        forall|i: int| 0 <= i < decimal(n).len() ==> '0' <= #[trigger] decimal(n)[i] <= '9',
        n > 0 ==> decimal(n)[0] != '0',
    decreases n,
{
    let s = decimal(n);
    if n >= 10 {
        decimals_read_back(n / 10);
        assert(s.drop_last() =~= decimal(n / 10));
        assert(s.last() as int == 48 + n % 10);
        assert forall|i: int| 0 <= i < s.len() implies '0' <= #[trigger] s[i] <= '9' by {
            if i < s.len() - 1 {
                assert(s[i] == decimal(n / 10)[i]);
            }
        }
        assert(s[0] == decimal(n / 10)[0]);
    } else {
        assert(s.last() as int == 48 + n);
        assert(s.drop_last() =~= Seq::empty());
        assert(number_read(s.drop_last()) == 0);
    }
}

/// A negative number is written with a sign before its digits, any other with its
/// digits alone.
pub proof fn signed_decimals_read_back(n: int)
    ensures
        n >= 0 ==> number_read(decimal_int(n)) == n && decimal_int(n)[0] != '-',
        n < 0 ==> decimal_int(n).len() > 1 && decimal_int(n)[0] == '-' && number_read(
            decimal_int(n).skip(1),
        ) == -n,
{
    reveal_strlit("-");
    if n < 0 {
        decimals_read_back((-n) as nat);
        assert(decimal_int(n).skip(1) =~= decimal((-n) as nat));
    } else {
        decimals_read_back(n as nat);
    }
}

/// Texts are ordered as in a dictionary: by the first character in which they
/// differ, and a text before those that it begins.
pub proof fn texts_are_ordered_by_their_first_difference(a: Seq<char>, b: Seq<char>, k: int)
    requires
        0 <= k <= a.len(),
        k <= b.len(),
        a.take(k) == b.take(k),
        k < a.len() && k < b.len() ==> a[k] != b[k],
    ensures
        lex_le(a, b) <==> (k == a.len() || (k < b.len() && a[k] < b[k])),
    decreases k,
{
    if k > 0 {
        assert(a.take(k)[0] == b.take(k)[0]);
        assert(a.take(k)[0] == a[0] && b.take(k)[0] == b[0]);
        assert(a[0] == b[0]);
        let (x, y) = (a.drop_first(), b.drop_first());
        assert(x.take(k - 1) =~= a.take(k).drop_first());
        assert(y.take(k - 1) =~= b.take(k).drop_first());
        texts_are_ordered_by_their_first_difference(x, y, k - 1);
    }
}

/// The run before a position is free of blanks, and a blank or the start stands
/// before it.
pub proof fn runs_reach_to_the_blanks(s: Seq<char>, at: int)
    requires
        0 <= at <= s.len(),
    ensures
        ({
            let a = run_start(s, at);
            &&& 0 <= a <= at
            &&& forall|i: int| a <= i < at ==> !is_white(#[trigger] s[i])
            &&& a > 0 ==> is_white(s[a - 1])
        }),
        ({
            let b = run_end(s, at);
            &&& at <= b <= s.len()
            &&& forall|i: int| at <= i < b ==> !is_white(#[trigger] s[i])
            &&& b < s.len() ==> is_white(s[b])
        }),
        ({
            let b = skip_white(s, at);
            &&& at <= b <= s.len()
            &&& forall|i: int| at <= i < b ==> is_white(#[trigger] s[i])
            &&& b < s.len() ==> !is_white(s[b])
        }),
        ({
            let a = skip_white_back(s, at);
            &&& 0 <= a <= at
            &&& forall|i: int| a <= i < at ==> is_white(#[trigger] s[i])
            &&& a > 0 ==> !is_white(s[a - 1])
        }),
{
    lemma_back(s, at);
    lemma_forth(s, at);
}

proof fn lemma_back(s: Seq<char>, at: int)
    requires
        0 <= at <= s.len(),
    ensures
        ({
            let a = run_start(s, at);
            &&& 0 <= a <= at
            &&& forall|i: int| a <= i < at ==> !is_white(#[trigger] s[i])
            &&& a > 0 ==> is_white(s[a - 1])
        }),
        ({
            let a = skip_white_back(s, at);
            &&& 0 <= a <= at
            &&& forall|i: int| a <= i < at ==> is_white(#[trigger] s[i])
            &&& a > 0 ==> !is_white(s[a - 1])
        }),
    decreases at,
{
    if at > 0 {
        lemma_back(s, at - 1);
    }
}

proof fn lemma_forth(s: Seq<char>, at: int)
    requires
        0 <= at <= s.len(),
    ensures
        ({
            let b = run_end(s, at);
            &&& at <= b <= s.len()
            &&& forall|i: int| at <= i < b ==> !is_white(#[trigger] s[i])
            &&& b < s.len() ==> is_white(s[b])
        }),
        ({
            let b = skip_white(s, at);
            &&& at <= b <= s.len()
            &&& forall|i: int| at <= i < b ==> is_white(#[trigger] s[i])
            &&& b < s.len() ==> !is_white(s[b])
        }),
    decreases s.len() - at,
{
    if at < s.len() {
        lemma_forth(s, at + 1);
    }
}

/// The tokens of a text are its runs without blanks: each goes from blank to blank,
/// they stand in order, and every character that is no blank is in one.
pub proof fn tokens_are_the_runs_without_blanks(s: Seq<char>)
    ensures
        forall|k: int|
            0 <= k < tokens(s).len() ==> {
                let r = #[trigger] tokens(s)[k];
                &&& 0 <= r.0 < r.1 <= s.len()
                &&& forall|i: int| r.0 <= i < r.1 ==> !is_white(#[trigger] s[i])
                &&& r.0 > 0 ==> is_white(s[r.0 - 1])
                &&& r.1 < s.len() ==> is_white(s[r.1])
            },
        forall|j: int, k: int|
            0 <= j < k < tokens(s).len() ==> (#[trigger] tokens(s)[j]).1 < (
            #[trigger] tokens(s)[k]).0,
        forall|i: int|
            0 <= i < s.len() && !is_white(#[trigger] s[i]) ==> exists|k: int|
                0 <= k < tokens(s).len() && (#[trigger] tokens(s)[k]).0 <= i < tokens(s)[k].1,
{
    lemma_tokens_from(s, 0);
    let t = tokens_from(s, 0);
    assert forall|i: int| 0 <= i < s.len() && !is_white(#[trigger] s[i]) implies exists|k: int|
        0 <= k < tokens(s).len() && (#[trigger] tokens(s)[k]).0 <= i < tokens(s)[k].1 by {
        let k = choose|k: int| 0 <= k < t.len() && (#[trigger] t[k]).0 <= i < t[k].1;
        assert(tokens(s)[k].0 <= i < tokens(s)[k].1);
    }
}

proof fn lemma_tokens_from(s: Seq<char>, at: int)
    requires
        0 <= at <= s.len(),
        at > 0 ==> at == s.len() || is_white(s[at]),
    ensures
        ({
            let t = tokens_from(s, at);
            &&& forall|k: int|
                0 <= k < t.len() ==> {
                    let r = #[trigger] t[k];
                    &&& at <= r.0 < r.1 <= s.len()
                    &&& at > 0 ==> at < r.0
                    &&& forall|i: int| r.0 <= i < r.1 ==> !is_white(#[trigger] s[i])
                    &&& r.0 > 0 ==> is_white(s[r.0 - 1])
                    &&& r.1 < s.len() ==> is_white(s[r.1])
                }
            &&& forall|j: int, k: int|
                0 <= j < k < t.len() ==> (#[trigger] t[j]).1 < (#[trigger] t[k]).0
            &&& forall|i: int|
                at <= i < s.len() && !is_white(#[trigger] s[i]) ==> exists|k: int|
                    0 <= k < t.len() && (#[trigger] t[k]).0 <= i < t[k].1
        }),
    decreases s.len() - at,
{
    let t = tokens_from(s, at);
    let start = skip_white(s, at);
    runs_reach_to_the_blanks(s, at);
    if start < s.len() {
        let end = run_end(s, start);
        runs_reach_to_the_blanks(s, start);
        assert(end > start) by {
            if end == start {
                assert(is_white(s[start]));
            }
        }
        lemma_tokens_from(s, end);
        let rest = tokens_from(s, end);
        assert(t =~= seq![(start, end)] + rest);
        assert forall|k: int| 0 <= k < t.len() implies {
            let r = #[trigger] t[k];
            &&& at <= r.0 < r.1 <= s.len()
            &&& at > 0 ==> at < r.0
            &&& forall|i: int| r.0 <= i < r.1 ==> !is_white(#[trigger] s[i])
            &&& r.0 > 0 ==> is_white(s[r.0 - 1])
            &&& r.1 < s.len() ==> is_white(s[r.1])
        } by {
            if k > 0 {
                assert(t[k] == rest[k - 1]);
            } else {
                assert(t[0] == (start, end));
                if start > at {
                    assert(is_white(s[start - 1]));
                }
            }
        }
        assert forall|j: int, k: int| 0 <= j < k < t.len() implies (#[trigger] t[j]).1 < (
        #[trigger] t[k]).0 by {
            assert(t[k] == rest[k - 1]);
            if j > 0 {
                assert(t[j] == rest[j - 1]);
            } else {
                assert(t[0] == (start, end));
            }
        }
        assert forall|i: int| at <= i < s.len() && !is_white(#[trigger] s[i]) implies exists|
            k: int,
        |
            0 <= k < t.len() && (#[trigger] t[k]).0 <= i < t[k].1 by {
            if i < end {
                assert(i >= start);
                assert(t[0].0 <= i < t[0].1);
            } else {
                let k = choose|k: int|
                    0 <= k < rest.len() && (#[trigger] rest[k]).0 <= i < rest[k].1;
                assert(t[k + 1] == rest[k]);
            }
        }
    } else {
        assert(t =~= Seq::empty());
    }
}

/// A tag is spelled with letters, digits, `-`, `_` and `/`, at least one of them, and
/// every such spelling is a tag.
pub proof fn tags_hold_word_characters(s: Seq<char>)
    ensures
        usable(s) <==> s.len() > 0 && forall|i: int|
            0 <= i < s.len() ==> {
                let c = #[trigger] s[i];
                crate::tag::alphanumeric(c) || seq!['-', '_', '/'].contains(c)
            },
{
    let extra = seq!['-', '_', '/'];
    assert(extra[0] == '-' && extra[1] == '_' && extra[2] == '/');
    assert forall|c: char| #[trigger] extra.contains(c) <==> c == '-' || c == '_' || c == '/' by {
        if c == '-' {
            assert(extra[0] == c);
        }
        if c == '_' {
            assert(extra[1] == c);
        }
        if c == '/' {
            assert(extra[2] == c);
        }
    }
    assert forall|c: char|
        #![trigger crate::tag::tag_char(c)]
        crate::tag::tag_char(c) <==> crate::tag::alphanumeric(c) || extra.contains(c) by {}
    if usable(s) {
        assert forall|i: int| 0 <= i < s.len() implies {
            let c = #[trigger] s[i];
            crate::tag::alphanumeric(c) || extra.contains(c)
        } by {
            assert(crate::tag::tag_char(s[i]));
        }
    } else if s.len() > 0 {
        let i = choose|i: int| 0 <= i < s.len() && !crate::tag::tag_char(#[trigger] s[i]);
        assert(!extra.contains(s[i]));
    }
}

/// The blanks around a tag and one `#` before it do not count, and it is written in
/// lower case.
pub proof fn a_tag_is_spelled_in_lower_case(before: Seq<char>, name: Seq<char>, after: Seq<char>)
    requires
        forall|i: int| 0 <= i < before.len() ==> is_white(#[trigger] before[i]),
        forall|i: int| 0 <= i < after.len() ==> is_white(#[trigger] after[i]),
        name.len() > 0 ==> name[0] != '#' && !is_white(name[0]) && !is_white(name.last()),
    ensures
        canonical(before + name + after) == crate::tag::lowercase(name),
        canonical(before + seq!['#'] + name + after) == crate::tag::lowercase(name),
{
    lemma_trimmed_to(before, name, after);
    let hashed = seq!['#'] + name;
    assert(before + seq!['#'] + name + after =~= before + hashed + after);
    assert(hashed.last() == if name.len() > 0 {
        name.last()
    } else {
        '#'
    });
    lemma_trimmed_to(before, hashed, after);
    assert(hashed.drop_first() =~= name);
}

proof fn lemma_trimmed_to(before: Seq<char>, name: Seq<char>, after: Seq<char>)
    requires
        forall|i: int| 0 <= i < before.len() ==> is_white(#[trigger] before[i]),
        forall|i: int| 0 <= i < after.len() ==> is_white(#[trigger] after[i]),
        name.len() > 0 ==> !is_white(name[0]) && !is_white(name.last()),
    ensures
        trimmed(before + name + after) == name,
{
    let s = before + name + after;
    let a = lemma_trimmed_start(s);
    let t = s.skip(a);
    let e = lemma_trimmed_end(t);
    if name.len() > 0 {
        let n = before.len() as int;
        assert(s[n] == name[0]);
        if a < n {
            assert(s[a] == before[a]);
        }
        assert(a == n) by {
            if a > n {
                assert(is_white(s[n]));
            }
        }
        let m = name.len() as int;
        assert(t[m - 1] == name.last());
        assert(e == m) by {
            if e < m {
                assert(is_white(t[m - 1]));
            }
            if e > m {
                assert(t[e - 1] == after[e - 1 - m]);
            }
        }
        assert(t.take(e) =~= name);
    } else {
        assert forall|i: int| 0 <= i < s.len() implies is_white(#[trigger] s[i]) by {
            if i < before.len() {
                assert(s[i] == before[i]);
            } else {
                assert(s[i] == after[i - before.len()]);
            }
        }
        a_blank_text_trims_to_nothing(s);
        assert(trimmed(s) =~= name);
    }
}

/// The tags stand in the order in which they are first spelled.
pub proof fn tags_keep_their_order(words: Seq<Seq<char>>, i: int, j: int)
    requires
        0 <= i < j < tag_set(words).len(),
    ensures
        exists|a: int|
            #![trigger words[a]]
            0 <= a < words.len() && canonical(words[a]) == tag_set(words)[i] && forall|b: int|
                0 <= b <= a ==> canonical(#[trigger] words[b]) != tag_set(words)[j],
    decreases words.len(),
{
    let rest = words.drop_last();
    let before = tag_set(rest);
    let all = tag_set(words);
    if j < before.len() {
        tags_keep_their_order(rest, i, j);
        let a = choose|a: int|
            #![trigger rest[a]]
            0 <= a < rest.len() && canonical(rest[a]) == before[i] && forall|b: int|
                0 <= b <= a ==> canonical(#[trigger] rest[b]) != before[j];
        assert forall|b: int| 0 <= b <= a implies canonical(#[trigger] words[b]) != all[j] by {
            assert(rest[b] == words[b]);
        }
        assert(canonical(words[a]) == all[i]);
    } else {
        let tag = canonical(words.last());
        assert(before.contains(before[i]));
        crate::tui::tag_editor::tag_set_is_complete(rest, before[i]);
        let a = choose|a: int| 0 <= a < rest.len() && canonical(#[trigger] rest[a]) == before[i];
        crate::tui::tag_editor::tag_set_is_complete(rest, tag);
        assert forall|b: int| 0 <= b <= a implies canonical(#[trigger] words[b]) != all[j] by {
            assert(rest[b] == words[b]);
        }
        assert(canonical(words[a]) == all[i]);
    }
}

} // verus!
