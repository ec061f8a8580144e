//! Metadata: JSON objects as lists of fields.

use vstd::prelude::*;
use vstd::string::*;

use crate::text::same;

verus! {

/// The fields of a JSON object: each key, and its value as compact JSON.
pub type Fields = Vec<(String, String)>;

pub open spec fn field_views(fields: Seq<(String, String)>) -> Seq<(Seq<char>, Seq<char>)> {
    fields.map_values(|f: (String, String)| (f.0@, f.1@))
}

/// The fields that `serde_json` reads in an object; `None` where the text is no
/// object.
pub uninterp spec fn json_fields(text: Seq<char>) -> Option<Seq<(Seq<char>, Seq<char>)>>;

/// What `serde_json` writes for an object with the fields.
pub uninterp spec fn json_object(fields: Seq<(Seq<char>, Seq<char>)>) -> Seq<char>;

/// Whether `serde_json` reads equal values in two texts.
pub uninterp spec fn json_equal(a: Seq<char>, b: Seq<char>) -> bool;

/// The text, as the one value of an object, reads as a value that is written the
/// same way. A value that `serde_json` wrote is such a text, but for a number
/// with a fraction that it reads as its neighbour.
pub open spec fn stands_alone(value: Seq<char>) -> bool {
    json_fields("{\"\":"@ + value + "}"@) == Some(seq![(Seq::<char>::empty(), value)])
}

/// Every value stands alone.
pub open spec fn all_stand(fields: Seq<(Seq<char>, Seq<char>)>) -> bool {
    forall|i: int| 0 <= i < fields.len() ==> stands_alone((#[trigger] fields[i]).1)
}

/// Where no key occurs twice and every value stands alone, reading the text gives the
/// fields, in whatever order.
pub open spec fn reads_back(text: Seq<char>, fields: Seq<(Seq<char>, Seq<char>)>) -> bool {
    keys_differ(fields) && all_stand(fields) ==> (json_fields(text) matches Some(read)
        && keys_differ(read) && same_members(read, fields))
}

/// The same fields, in whatever order.
pub open spec fn same_members(
    a: Seq<(Seq<char>, Seq<char>)>,
    b: Seq<(Seq<char>, Seq<char>)>,
) -> bool {
    forall|f: (Seq<char>, Seq<char>)| #[trigger] a.contains(f) <==> b.contains(f)
}

/// No key occurs twice.
pub open spec fn keys_differ(fields: Seq<(Seq<char>, Seq<char>)>) -> bool {
    forall|i: int, j: int|
        0 <= i < j < fields.len() ==> (#[trigger] fields[i]).0 != (#[trigger] fields[j]).0
}

/// Calls `serde_json::from_str` for a `serde_json::Map` and writes each value
/// with its `Display`, which is compact JSON. The fields are a function of the
/// text; a map holds a key once.
#[verifier::external_body]
fn parse_object(text: &str) -> (fields: Option<Fields>)
    ensures
        match fields {
            Some(f) => json_fields(text@) == Some(field_views(f@)) && keys_differ(
                field_views(f@),
            ),
            None => json_fields(text@) is None,
        },
{
    serde_json::from_str::<serde_json::Map<String, serde_json::Value>>(text).ok().map(
        |m| m.iter().map(|(k, v)| (k.clone(), v.to_string())).collect(),
    )
}

/// Calls `serde_json::to_string` on the `serde_json::Map` of the fields, each value
/// read from its text. The object is a function of the fields. Where no key occurs
/// twice and every value stands alone, reading the object gives the fields back, in
/// an order of its own.
#[verifier::external_body]
fn object_text(fields: &Fields) -> (text: String)
    ensures
        text@ == json_object(field_views(fields@)),
        reads_back(text@, field_views(fields@)),
{
    let map: serde_json::Map<String, serde_json::Value> = fields.iter().map(
        |f| (f.0.clone(), serde_json::from_str(&f.1).unwrap_or_default()),
    ).collect();
    serde_json::to_string(&map).unwrap_or_default()
}

/// Calls `==` on the `serde_json::Value`s that `serde_json::from_str` reads in two
/// texts. The outcome is a function of the texts; one text is equal to itself.
#[verifier::external_body]
fn same_value(a: &str, b: &str) -> (yes: bool)
    ensures
        yes == (a@ == b@ || json_equal(a@, b@)),
{
    let x = serde_json::from_str::<serde_json::Value>(a).ok();
    let y = serde_json::from_str::<serde_json::Value>(b).ok();
    x == y
}

/// The texts hold equal values.
pub open spec fn equal_values(a: Seq<char>, b: Seq<char>) -> bool {
    a == b || json_equal(a, b)
}

/// The same keys in the same order, with equal values.
pub open spec fn alike(
    a: Seq<(Seq<char>, Seq<char>)>,
    b: Seq<(Seq<char>, Seq<char>)>,
) -> bool {
    &&& a.len() == b.len()
    &&& forall|i: int|
        0 <= i < a.len() ==> (#[trigger] a[i]).0 == b[i].0 && equal_values(a[i].1, b[i].1)
}

/// The fields of an object; none where the text is no object.
pub open spec fn fields_of(text: Seq<char>) -> Seq<(Seq<char>, Seq<char>)> {
    match json_fields(text) {
        Some(f) => f,
        None => Seq::empty(),
    }
}

pub fn read_fields(text: &str) -> (fields: Fields)
    ensures
        field_views(fields@) == fields_of(text@),
        keys_differ(field_views(fields@)),
{
    match parse_object(text) {
        Some(fields) => fields,
        None => {
            let none: Fields = Vec::new();
            assert(field_views(none@) =~= Seq::empty());
            none
        },
    }
}

/// The fields as a compact JSON object.
pub fn write_fields(fields: &Fields) -> (text: String)
    ensures
        text@ == json_object(field_views(fields@)),
        reads_back(text@, field_views(fields@)),
{
    object_text(fields)
}

/// Position of the key.
pub open spec fn key_at(fields: Seq<(Seq<char>, Seq<char>)>, key: Seq<char>, i: int) -> bool {
    0 <= i < fields.len() && fields[i].0 == key
}

/// The key occurs.
pub open spec fn has_key(fields: Seq<(Seq<char>, Seq<char>)>, key: Seq<char>) -> bool {
    exists|i: int| #[trigger] key_at(fields, key, i)
}

/// The value of a key that occurs.
pub open spec fn value_of(fields: Seq<(Seq<char>, Seq<char>)>, key: Seq<char>) -> Seq<char> {
    fields[choose|i: int| #[trigger] key_at(fields, key, i)].1
}

/// The fields with one field set.
pub open spec fn with_field(
    fields: Seq<(Seq<char>, Seq<char>)>,
    f: (Seq<char>, Seq<char>),
) -> Seq<(Seq<char>, Seq<char>)> {
    if has_key(fields, f.0) {
        fields.update(choose|i: int| #[trigger] key_at(fields, f.0, i), f)
    } else {
        fields.push(f)
    }
}

/// The stored fields with the incoming ones set, one after the other.
pub open spec fn merged(
    stored: Seq<(Seq<char>, Seq<char>)>,
    incoming: Seq<(Seq<char>, Seq<char>)>,
) -> Seq<(Seq<char>, Seq<char>)>
    decreases incoming.len(),
{
    if incoming.len() == 0 {
        stored
    } else {
        with_field(merged(stored, incoming.drop_last()), incoming.last())
    }
}

proof fn lemma_with_field(
    fields: Seq<(Seq<char>, Seq<char>)>,
    f: (Seq<char>, Seq<char>),
    key: Seq<char>,
)
    requires
        keys_differ(fields),
    ensures
        keys_differ(with_field(fields, f)),
        has_key(with_field(fields, f), key) <==> has_key(fields, key) || key == f.0,
        value_of(with_field(fields, f), f.0) == f.1,
        has_key(fields, key) && key != f.0 ==> value_of(with_field(fields, f), key) == value_of(
            fields,
            key,
        ),
{
    let more = with_field(fields, f);
    if has_key(fields, f.0) {
        let k = choose|i: int| #[trigger] key_at(fields, f.0, i);
        assert(forall|i: int| 0 <= i < fields.len() ==> (#[trigger] more[i]).0 == fields[i].0);
        assert(key_at(more, f.0, k));
        assert forall|i: int| #[trigger] key_at(more, f.0, i) implies i == k by {
            if i < k {
                assert(more[i].0 == fields[i].0);
            } else if i > k {
                assert(more[i].0 == fields[i].0);
            }
        }
    } else {
        assert(key_at(more, f.0, fields.len() as int));
        assert forall|i: int| 0 <= i < fields.len() implies (#[trigger] fields[i]).0 != f.0 by {
            if fields[i].0 == f.0 {
                assert(key_at(fields, f.0, i));
            }
        }
        assert forall|i: int| #[trigger] key_at(more, f.0, i) implies i == fields.len() by {}
    }
    if has_key(fields, key) {
        let i = choose|i: int| #[trigger] key_at(fields, key, i);
        assert(key_at(more, key, i));
        if key != f.0 {
            let j = choose|j: int| #[trigger] key_at(more, key, j);
            assert(fields[j].0 == key);
            assert(i == j);
        }
    }
    if has_key(more, key) && key != f.0 {
        let j = choose|j: int| #[trigger] key_at(more, key, j);
        assert(key_at(fields, key, j));
    }
}

/// Merging keeps every stored key and takes every incoming one; an incoming
/// value wins, a value the newer payload omits is kept.
pub proof fn merging_drops_no_key(
    stored: Seq<(Seq<char>, Seq<char>)>,
    incoming: Seq<(Seq<char>, Seq<char>)>,
    key: Seq<char>,
)
    requires
        keys_differ(stored),
        keys_differ(incoming),
    ensures
        keys_differ(merged(stored, incoming)),
        has_key(merged(stored, incoming), key) <==> has_key(stored, key) || has_key(incoming, key),
        has_key(incoming, key) ==> value_of(merged(stored, incoming), key) == value_of(
            incoming,
            key,
        ),
        has_key(stored, key) && !has_key(incoming, key) ==> value_of(
            merged(stored, incoming),
            key,
        ) == value_of(stored, key),
    decreases incoming.len(),
{
    if incoming.len() > 0 {
        let rest = incoming.drop_last();
        let last = incoming.last();
        merging_drops_no_key(stored, rest, key);
        lemma_with_field(merged(stored, rest), last, key);
        if has_key(rest, key) {
            let i = choose|i: int| #[trigger] key_at(rest, key, i);
            assert(key_at(incoming, key, i));
            let j = choose|j: int| #[trigger] key_at(incoming, key, j);
            assert(incoming[i].0 == incoming[j].0);
            assert(i == j);
            assert(key != last.0);
        }
        if key == last.0 {
            assert(key_at(incoming, key, incoming.len() - 1));
            let j = choose|j: int| #[trigger] key_at(incoming, key, j);
            assert(incoming[incoming.len() - 1].0 == incoming[j].0);
        } else if has_key(incoming, key) {
            let j = choose|j: int| #[trigger] key_at(incoming, key, j);
            assert(key_at(rest, key, j));
        }
    }
}

fn find_key(fields: &Fields, key: &str) -> (pos: Option<usize>)
    ensures
        match pos {
            Some(i) => key_at(field_views(fields@), key@, i as int),
            None => !has_key(field_views(fields@), key@),
        },
{
    let mut i: usize = 0;
    while i < fields.len()
        invariant
            i <= fields@.len(),
            forall|j: int| 0 <= j < i ==> (#[trigger] fields@[j]).0@ != key@,
        decreases fields@.len() - i,
    {
        if same(&fields[i].0, key) {
            assert(field_views(fields@)[i as int].0 == key@);
            return Some(i);
        }
        i += 1;
    }
    assert forall|j: int| !#[trigger] key_at(field_views(fields@), key@, j) by {
        if 0 <= j < fields@.len() {
            assert(fields@[j].0@ != key@);
        }
    }
    None
}

/// Merging fields that are all there already changes nothing.
pub proof fn merging_again_changes_nothing(
    fields: Seq<(Seq<char>, Seq<char>)>,
    incoming: Seq<(Seq<char>, Seq<char>)>,
)
    requires
        keys_differ(fields),
        forall|i: int| 0 <= i < incoming.len() ==> fields.contains(#[trigger] incoming[i]),
    ensures
        merged(fields, incoming) == fields,
    decreases incoming.len(),
{
    if incoming.len() > 0 {
        let before = incoming.drop_last();
        let f = incoming.last();
        assert forall|i: int| 0 <= i < before.len() implies fields.contains(
            #[trigger] before[i],
        ) by {
            assert(before[i] == incoming[i]);
        }
        merging_again_changes_nothing(fields, before);
        assert(fields.contains(incoming[incoming.len() - 1]));
        let k = choose|k: int| 0 <= k < fields.len() && fields[k] == f;
        assert(key_at(fields, f.0, k));
        let i = choose|i: int| #[trigger] key_at(fields, f.0, i);
        assert(i == k) by {
            if i < k {
                assert(fields[i].0 != fields[k].0);
            } else if i > k {
                assert(fields[k].0 != fields[i].0);
            }
        }
        assert(fields.update(i, f) =~= fields);
    }
}

/// Every incoming field is among the merged ones.
pub proof fn merging_takes_every_field(
    stored: Seq<(Seq<char>, Seq<char>)>,
    incoming: Seq<(Seq<char>, Seq<char>)>,
    k: int,
)
    requires
        keys_differ(stored),
        keys_differ(incoming),
        0 <= k < incoming.len(),
    ensures
        merged(stored, incoming).contains(incoming[k]),
{
    let key = incoming[k].0;
    let all = merged(stored, incoming);
    merging_drops_no_key(stored, incoming, key);
    assert(key_at(incoming, key, k));
    let i = choose|i: int| #[trigger] key_at(incoming, key, i);
    assert(i == k) by {
        if i < k {
            assert(incoming[i].0 != incoming[k].0);
        } else if i > k {
            assert(incoming[k].0 != incoming[i].0);
        }
    }
    let j = choose|j: int| #[trigger] key_at(all, key, j);
    assert(has_key(all, key));
    assert(all[j] == incoming[k]);
}

/// Later pulls enrich a transaction's metadata (labels, memo, category hints),
/// so incoming keys win. Keys the newer payload omits are kept rather than
/// dropped: a pull script that narrows what it emits should not silently delete
/// data already imported.
pub fn merge_metadata(stored: &Fields, incoming: &Fields) -> (all: Fields)
    requires
        keys_differ(field_views(stored@)),
        keys_differ(field_views(incoming@)),
    ensures
        field_views(all@) == merged(field_views(stored@), field_views(incoming@)),
        keys_differ(field_views(all@)),
{
    let ghost from = field_views(stored@);
    let ghost news = field_views(incoming@);
    let mut all: Fields = Vec::new();
    let mut i: usize = 0;
    while i < stored.len()
        invariant
            i <= stored@.len(),
            from == field_views(stored@),
            field_views(all@) == from.take(i as int),
        decreases stored@.len() - i,
    {
        let ghost before = all@;
        all.push((stored[i].0.clone(), stored[i].1.clone()));
        assert(field_views(all@) =~= field_views(before).push(from[i as int]));
        assert(from.take(i + 1) =~= from.take(i as int).push(from[i as int]));
        i += 1;
    }
    assert(from.take(i as int) =~= from);
    let mut k: usize = 0;
    assert(news.take(0) =~= Seq::empty());
    while k < incoming.len()
        invariant
            k <= incoming@.len(),
            news == field_views(incoming@),
            keys_differ(from),
            field_views(all@) == merged(from, news.take(k as int)),
            keys_differ(field_views(all@)),
        decreases incoming@.len() - k,
    {
        let ghost before = field_views(all@);
        let ghost f = news[k as int];
        assert(news.take(k + 1).drop_last() =~= news.take(k as int));
        assert(news.take(k + 1).last() == f);
        proof {
            lemma_with_field(before, f, f.0);
        }
        let value = incoming[k].1.clone();
        match find_key(&all, &incoming[k].0) {
            Some(at) => {
                let key = all[at].0.clone();
                all.set(at, (key, value));
                proof {
                    let c = choose|i: int| #[trigger] key_at(before, f.0, i);
                    assert(key_at(before, f.0, at as int));
                    assert(before[c].0 == before[at as int].0);
                    assert(c == at);
                    assert(field_views(all@) =~= before.update(c, f));
                }
            },
            None => {
                all.push((incoming[k].0.clone(), value));
                assert(field_views(all@) =~= before.push(f));
            },
        }
        k += 1;
    }
    assert(news.take(k as int) =~= news);
    all
}

/// Whether two field lists have the same keys and equal values.
pub fn same_fields(a: &Fields, b: &Fields) -> (yes: bool)
    ensures
        yes == alike(field_views(a@), field_views(b@)),
{
    if a.len() != b.len() {
        return false;
    }
    let mut i: usize = 0;
    while i < a.len()
        invariant
            i <= a@.len(),
            a@.len() == b@.len(),
            forall|j: int|
                0 <= j < i ==> (#[trigger] field_views(a@)[j]).0 == field_views(b@)[j].0
                    && equal_values(field_views(a@)[j].1, field_views(b@)[j].1),
        decreases a@.len() - i,
    {
        if !same(&a[i].0, &b[i].0) || !same_value(&a[i].1, &b[i].1) {
            assert(field_views(a@)[i as int] == (a@[i as int].0@, a@[i as int].1@));
            return false;
        }
        i += 1;
    }
    true
}

} // verus!
