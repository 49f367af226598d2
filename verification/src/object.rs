//! Reading and writing JSON objects member by member. A typed object
//! names the members it knows; it is written as those members, in a fixed
//! order, followed by the members it does not know, and read back by
//! looking each known member up and keeping the rest.

use crate::json::{
    first_with_key, items_view, lemma_array_view, members_view, Json, JsonView, Members,
};
use crate::text::{
    decimal_i64, decimal_i64_spec, parse_i64, parse_i64_spec, same_text, texts,
};
use crate::time::{is_timestamp, read_timestamp};
use vstd::prelude::*;

verus! {

/// A member that an object knows by name, with its value if it has one.
pub type Entry = (Seq<char>, Option<JsonView>);

/// The names of the entries, in order.
pub open spec fn keys_of(entries: Seq<Entry>) -> Seq<Seq<char>> {
    entries.map_values(|e: Entry| e.0)
}

/// What an entry writes: its member if it has a value, nothing otherwise.
pub open spec fn written_one(entry: Entry) -> Members {
    match entry.1 {
        Some(value) => seq![(entry.0, value)],
        None => Seq::empty(),
    }
}

/// What the entries write: the members of those with a value, in order.
pub open spec fn written(entries: Seq<Entry>) -> Members
    decreases entries.len(),
{
    if entries.len() == 0 {
        Seq::empty()
    } else {
        written(entries.drop_last()) + written_one(entries.last())
    }
}

/// The members whose key is not among `known`, in order.
pub open spec fn rest_spec(members: Members, known: Seq<Seq<char>>) -> Members
    decreases members.len(),
{
    if members.len() == 0 {
        Seq::empty()
    } else if known.contains(members.last().0) {
        rest_spec(members.drop_last(), known)
    } else {
        rest_spec(members.drop_last(), known).push(members.last())
    }
}

/// Whether no member has a key among `known`.
pub open spec fn foreign(members: Members, known: Seq<Seq<char>>) -> bool {
    forall|i: int| 0 <= i < members.len() ==> !known.contains((#[trigger] members[i]).0)
}

/// The mathematical value of a JSON value that may be missing.
pub open spec fn value_view(value: Option<Json>) -> Option<JsonView> {
    match value {
        Some(v) => Some(v@),
        None => None,
    }
}

/// A member that is missing or `null` counts as not there.
pub open spec fn present_spec(value: Option<JsonView>) -> Option<JsonView> {
    match value {
        Some(JsonView::Null) => None,
        other => other,
    }
}

/// What reading an optional member gives: nothing where the member is not
/// there, the value read where it is there and reads well, and a failure
/// where it is there and does not.
pub open spec fn optional<T>(member: Option<JsonView>, read: Option<T>) -> Option<Option<T>> {
    if present_spec(member) is None {
        Some(None)
    } else {
        match read {
            Some(value) => Some(Some(value)),
            None => None,
        }
    }
}

/// What reading a required member gives: a failure where the member is
/// missing, else what reading its value gives.
pub open spec fn required<T>(member: Option<JsonView>, read: Option<T>) -> Option<T> {
    if member is None {
        None
    } else {
        read
    }
}

/// What stands for a value that is not there: nothing where absent
/// members are left out, `null` otherwise.
pub open spec fn absent(skip: bool) -> Option<JsonView> {
    if skip {
        None
    } else {
        Some(JsonView::Null)
    }
}

/// The text of a JSON string.
pub open spec fn text_spec(value: JsonView) -> Option<Seq<char>> {
    match value {
        JsonView::Text(text) => Some(text),
        _ => None,
    }
}

/// The text of a JSON string that is a timestamp.
pub open spec fn time_spec(value: JsonView) -> Option<Seq<char>> {
    match value {
        JsonView::Text(text) => if is_timestamp(text) {
            Some(text)
        } else {
            None
        },
        _ => None,
    }
}

/// The text of a JSON number.
pub open spec fn number_spec(value: JsonView) -> Option<Seq<char>> {
    match value {
        JsonView::Number(text) => Some(text),
        _ => None,
    }
}

/// The truth value of a JSON boolean.
pub open spec fn bool_spec(value: JsonView) -> Option<bool> {
    match value {
        JsonView::Bool(b) => Some(b),
        _ => None,
    }
}

/// The integer that a JSON number denotes, where it is written as one.
pub open spec fn int_spec(value: JsonView) -> Option<i64> {
    match value {
        JsonView::Number(text) => parse_i64_spec(text),
        _ => None,
    }
}

/// The texts of a list of JSON strings.
pub open spec fn all_texts_spec(items: Seq<JsonView>) -> Option<Seq<Seq<char>>>
    decreases items.len(),
{
    if items.len() == 0 {
        Some(Seq::empty())
    } else {
        match (all_texts_spec(items.drop_last()), text_spec(items.last())) {
            (Some(init), Some(last)) => Some(init.push(last)),
            _ => None,
        }
    }
}

/// The texts of a JSON array of strings.
pub open spec fn texts_spec(value: JsonView) -> Option<Seq<Seq<char>>> {
    match value {
        JsonView::Array(items) => all_texts_spec(items),
        _ => None,
    }
}

/// The JSON strings of a list of texts.
pub open spec fn texts_json(list: Seq<Seq<char>>) -> JsonView {
    JsonView::Array(list.map_values(|t: Seq<char>| JsonView::Text(t)))
}

/// A member that is missing or `null` counts as not there.
pub fn present<'a>(member: Option<&'a Json>) -> (value: Option<&'a Json>)
    ensures
        match value {
            Some(v) => present_spec(
                match member {
                    Some(m) => Some(m@),
                    None => None,
                },
            ) == Some(v@),
            None => present_spec(
                match member {
                    Some(m) => Some(m@),
                    None => None,
                },
            ) is None,
        },
{
    match member {
        Some(Json::Null) => None,
        other => other,
    }
}

/// What stands for a value that is not there: nothing where absent
/// members are left out, `null` otherwise.
pub fn absent_json(skip: bool) -> (value: Option<Json>)
    ensures
        value_view(value) == absent(skip),
{
    if skip {
        None
    } else {
        Some(Json::Null)
    }
}

/// The text of a JSON string.
pub fn text_of(value: &Json) -> (text: Option<String>)
    ensures
        text.deep_view() == text_spec(value@),
{
    match value {
        Json::Text(text) => Some(text.clone()),
        _ => None,
    }
}

/// The text of a JSON string that is a timestamp.
pub fn time_of(value: &Json) -> (text: Option<String>)
    ensures
        text.deep_view() == time_spec(value@),
{
    match value {
        Json::Text(text) => match read_timestamp(text.as_str()) {
            Some(_) => Some(text.clone()),
            None => None,
        },
        _ => None,
    }
}

/// The text of a JSON number.
pub fn number_of(value: &Json) -> (text: Option<String>)
    ensures
        text.deep_view() == number_spec(value@),
{
    match value {
        Json::Number(text) => Some(text.clone()),
        _ => None,
    }
}

/// The truth value of a JSON boolean.
pub fn bool_of(value: &Json) -> (b: Option<bool>)
    ensures
        b == bool_spec(value@),
{
    match value {
        Json::Bool(b) => Some(*b),
        _ => None,
    }
}

/// The integer that a JSON number denotes.
pub fn int_of(value: &Json) -> (n: Option<i64>)
    ensures
        n == int_spec(value@),
{
    match value {
        Json::Number(text) => parse_i64(text.as_str()),
        _ => None,
    }
}

/// The texts of a JSON array of strings.
pub fn texts_of(value: &Json) -> (list: Option<Vec<String>>)
    ensures
        list.deep_view() == texts_spec(value@),
{
    match value {
        Json::Array(items) => {
            proof {
                lemma_array_view(*value);
            }
            let ghost all = items_view(items@);
            let mut list: Vec<String> = Vec::new();
            let mut i: usize = 0;
            assert(all.take(0) =~= Seq::empty());
            assert(list.deep_view() =~= Seq::empty());
            while i < items.len()
                invariant
                    i <= items.len(),
                    all == items_view(items@),
                    value@ == JsonView::Array(all),
                    all_texts_spec(all.take(i as int)) == Some(list.deep_view()),
                decreases items.len() - i,
            {
                let ghost before = list.deep_view();
                assert(all.take(i + 1).drop_last() == all.take(i as int));
                assert(all.take(i + 1).last() == all[i as int]);
                match &items[i] {
                    Json::Text(text) => {
                        list.push(text.clone());
                        assert(list.deep_view() =~= before.push(text@));
                    },
                    _ => {
                        proof {
                            lemma_texts_fail(all, i as int);
                        }
                        return None;
                    },
                }
                i += 1;
            }
            assert(all.take(i as int) == all);
            Some(list)
        },
        _ => None,
    }
}

/// A list with an item that is no string has no texts.
pub proof fn lemma_texts_fail(items: Seq<JsonView>, k: int)
    requires
        0 <= k < items.len(),
        text_spec(items[k]) is None,
    ensures
        all_texts_spec(items) is None,
    decreases items.len(),
{
    if k < items.len() - 1 {
        lemma_texts_fail(items.drop_last(), k);
    }
}

/// The JSON array of the strings.
pub fn texts_to_json(list: &Vec<String>) -> (value: Json)
    ensures
        value@ == texts_json(list.deep_view()),
{
    let mut items: Vec<Json> = Vec::new();
    let mut i: usize = 0;
    while i < list.len()
        invariant
            i <= list.len(),
            items_view(items@) == list.deep_view().take(i as int).map_values(
                |t: Seq<char>| JsonView::Text(t),
            ),
        decreases list.len() - i,
    {
        let ghost before = items_view(items@);
        items.push(Json::Text(list[i].clone()));
        assert(items_view(items@) =~= before.push(JsonView::Text(list@[i as int]@)));
        assert(list.deep_view().take(i + 1) =~= list.deep_view().take(i as int).push(
            list@[i as int]@,
        ));
        i += 1;
    }
    assert(list.deep_view().take(i as int) == list.deep_view());
    let value = Json::Array(items);
    proof {
        lemma_array_view(value);
    }
    value
}

/// The JSON number of the integer.
pub fn int_to_json(n: i64) -> (value: Json)
    ensures
        value@ == JsonView::Number(decimal_i64_spec(n as int)),
{
    Json::Number(decimal_i64(n))
}

/// Reading the strings that were written for a list of texts gives the
/// list back.
pub proof fn lemma_texts_round_trip(list: Seq<Seq<char>>)
    ensures
        texts_spec(texts_json(list)) == Some(list),
{
    lemma_all_texts(list);
}

proof fn lemma_all_texts(list: Seq<Seq<char>>)
    ensures
        all_texts_spec(list.map_values(|t: Seq<char>| JsonView::Text(t))) == Some(list),
    decreases list.len(),
{
    let items = list.map_values(|t: Seq<char>| JsonView::Text(t));
    if list.len() == 0 {
        assert(list =~= Seq::empty());
    } else {
        lemma_all_texts(list.drop_last());
        assert(items.drop_last() =~= list.drop_last().map_values(|t: Seq<char>| JsonView::Text(t)));
        assert(list.drop_last().push(list.last()) =~= list);
    }
}

fn is_known(key: &str, known: &Vec<&str>) -> (found: bool)
    ensures
        found == texts(known@).contains(key@),
{
    let mut i: usize = 0;
    while i < known.len()
        invariant
            i <= known.len(),
            forall|k: int| 0 <= k < i ==> texts(known@)[k] != key@,
        decreases known.len() - i,
    {
        if same_text(known[i], key) {
            assert(texts(known@)[i as int] == key@);
            return true;
        }
        i += 1;
    }
    false
}

/// The members whose key is not among `known`, in order.
pub fn rest(members: &Vec<(String, Json)>, known: &Vec<&str>) -> (out: Vec<(String, Json)>)
    ensures
        members_view(out@) == rest_spec(members_view(members@), texts(known@)),
{
    let ghost all = members_view(members@);
    let mut out: Vec<(String, Json)> = Vec::new();
    let mut i: usize = 0;
    assert(all.take(0) =~= Seq::empty());
    assert(members_view(out@) =~= Seq::empty());
    while i < members.len()
        invariant
            i <= members.len(),
            all == members_view(members@),
            members_view(out@) == rest_spec(all.take(i as int), texts(known@)),
        decreases members.len() - i,
    {
        let ghost before = members_view(out@);
        assert(all.take(i + 1).drop_last() == all.take(i as int));
        assert(all.take(i + 1).last() == all[i as int]);
        if !is_known(members[i].0.as_str(), known) {
            out.push((members[i].0.clone(), members[i].1.clone()));
            assert(members_view(out@) =~= before.push(all[i as int]));
        }
        i += 1;
    }
    assert(all.take(i as int) == all);
    out
}

/// Appends what an entry writes.
pub fn put(members: &mut Vec<(String, Json)>, key: &str, value: Option<Json>)
    ensures
        members_view(final(members)@) == members_view(old(members)@) + written_one(
            (key@, value_view(value)),
        ),
{
    let ghost before = members_view(members@);
    match value {
        Some(v) => {
            let ghost member = (key@, v@);
            members.push((key.to_owned(), v));
            assert(members_view(members@) =~= before + seq![member]);
        },
        None => {
            assert(members_view(members@) =~= before + Seq::<(Seq<char>, JsonView)>::empty());
        },
    }
}

/// Appends what the entry at position `k` of `all` writes, to what the
/// entries before it wrote.
pub(crate) fn put_next(
    members: &mut Vec<(String, Json)>,
    key: &str,
    value: Option<Json>,
    Ghost(all): Ghost<Seq<Entry>>,
    Ghost(k): Ghost<int>,
)
    requires
        0 <= k < all.len(),
        members_view(old(members)@) == written(all.take(k)),
        all[k] == (key@, value_view(value)),
    ensures
        members_view(final(members)@) == written(all.take(k + 1)),
{
    proof {
        assert(all.take(k + 1).drop_last() == all.take(k));
        assert(all.take(k + 1).last() == all[k]);
    }
    put(members, key, value);
}

/// Appends copies of the members.
pub fn put_all(members: &mut Vec<(String, Json)>, more: &Vec<(String, Json)>)
    ensures
        members_view(final(members)@) == members_view(old(members)@) + members_view(more@),
{
    let ghost before = members_view(members@);
    let ghost all = members_view(more@);
    let mut i: usize = 0;
    assert(members_view(members@) =~= before + all.take(0));
    while i < more.len()
        invariant
            i <= more.len(),
            all == members_view(more@),
            members_view(members@) == before + all.take(i as int),
        decreases more.len() - i,
    {
        let ghost so_far = members_view(members@);
        members.push((more[i].0.clone(), more[i].1.clone()));
        assert(members_view(members@) =~= so_far.push(all[i as int]));
        assert(all.take(i + 1) =~= all.take(i as int).push(all[i as int]));
        assert(members_view(members@) =~= before + all.take(i + 1));
        i += 1;
    }
    assert(all.take(i as int) == all);
}

/// Looking a key up in two lists, one after the other, finds what the
/// first list has under it, and else what the second has.
pub proof fn lemma_first_concat(a: Members, b: Members, key: Seq<char>)
    ensures
        first_with_key(a + b, key) == match first_with_key(a, key) {
            Some(value) => Some(value),
            None => first_with_key(b, key),
        },
    decreases a.len(),
{
    if a.len() == 0 {
        assert(a + b == b);
    } else {
        assert((a + b)[0] == a[0]);
        assert((a + b).skip(1) == a.skip(1) + b);
        lemma_first_concat(a.skip(1), b, key);
    }
}

/// A key that no member has is not found.
pub proof fn lemma_first_none(members: Members, key: Seq<char>)
    requires
        forall|i: int| 0 <= i < members.len() ==> (#[trigger] members[i]).0 != key,
    ensures
        first_with_key(members, key) is None,
    decreases members.len(),
{
    if members.len() > 0 {
        let tail = members.skip(1);
        assert forall|i: int| 0 <= i < tail.len() implies (#[trigger] tail[i]).0 != key by {
            assert(tail[i] == members[i + 1]);
        }
        lemma_first_none(tail, key);
    }
}

/// Every member that the entries write has the key of one of them.
pub proof fn lemma_written_keys(entries: Seq<Entry>, j: int)
    requires
        0 <= j < written(entries).len(),
    ensures
        keys_of(entries).contains(written(entries)[j].0),
    decreases entries.len(),
{
    if entries.len() > 0 {
        let init = entries.drop_last();
        if j < written(init).len() {
            lemma_written_keys(init, j);
            let i = choose|i: int|
                0 <= i < keys_of(init).len() && keys_of(init)[i] == written(init)[j].0;
            assert(keys_of(entries)[i] == written(entries)[j].0);
        } else {
            assert(keys_of(entries)[entries.len() - 1] == written(entries)[j].0);
        }
    }
}

/// Where no two entries share a key, looking an entry's key up in what the
/// entries write finds the entry's value, if it has one, and nothing
/// otherwise.
pub proof fn lemma_written_reads(entries: Seq<Entry>, i: int)
    requires
        keys_of(entries).no_duplicates(),
        0 <= i < entries.len(),
    ensures
        first_with_key(written(entries), entries[i].0) == entries[i].1,
    decreases entries.len(),
{
    let init = entries.drop_last();
    let last = entries.last();
    let key = entries[i].0;
    assert(keys_of(init) =~= keys_of(entries).drop_last());
    assert forall|a: int, b: int|
        0 <= a < init.len() && 0 <= b < init.len() && a != b implies keys_of(init)[a] != keys_of(
        init,
    )[b] by {
        assert(keys_of(entries)[a] != keys_of(entries)[b]);
    }
    lemma_first_concat(written(init), written_one(last), key);
    if i < entries.len() - 1 {
        lemma_written_reads(init, i);
        assert(keys_of(entries)[i] != keys_of(entries)[entries.len() - 1]);
        assert(first_with_key(written_one(last), key) is None) by {
            lemma_first_none(written_one(last), key);
        }
    } else {
        assert forall|j: int| 0 <= j < written(init).len() implies (#[trigger] written(init)[j]).0
            != key by {
            lemma_written_keys(init, j);
            let a = choose|a: int|
                0 <= a < keys_of(init).len() && keys_of(init)[a] == written(init)[j].0;
            assert(keys_of(entries)[a] != keys_of(entries)[entries.len() - 1]);
        }
        lemma_first_none(written(init), key);
        if last.1 is Some {
            assert(written_one(last)[0] == (key, last.1->0));
            assert(first_with_key(written_one(last).skip(1), key) is None);
        }
    }
}

/// Where no two entries share a key and no other member has the key of an
/// entry, looking an entry's key up in the object finds the entry's value,
/// if it has one, and nothing otherwise.
pub proof fn lemma_object_reads(entries: Seq<Entry>, extra: Members, i: int)
    requires
        keys_of(entries).no_duplicates(),
        foreign(extra, keys_of(entries)),
        0 <= i < entries.len(),
    ensures
        first_with_key(written(entries) + extra, entries[i].0) == entries[i].1,
{
    lemma_written_reads(entries, i);
    lemma_first_concat(written(entries), extra, entries[i].0);
    assert forall|j: int| 0 <= j < extra.len() implies (#[trigger] extra[j]).0 != entries[i].0 by {
        assert(keys_of(entries)[i] == entries[i].0);
    }
    lemma_first_none(extra, entries[i].0);
}

/// The rest of two lists, one after the other, is the rest of the first
/// followed by the rest of the second.
pub proof fn lemma_rest_concat(a: Members, b: Members, known: Seq<Seq<char>>)
    ensures
        rest_spec(a + b, known) == rest_spec(a, known) + rest_spec(b, known),
    decreases b.len(),
{
    if b.len() == 0 {
        assert(a + b == a);
        assert(rest_spec(a, known) + rest_spec(b, known) == rest_spec(a, known));
    } else {
        assert((a + b).drop_last() == a + b.drop_last());
        assert((a + b).last() == b.last());
        lemma_rest_concat(a, b.drop_last(), known);
        if !known.contains(b.last().0) {
            assert((rest_spec(a, known) + rest_spec(b.drop_last(), known)).push(b.last())
                == rest_spec(a, known) + rest_spec(b.drop_last(), known).push(b.last()));
        }
    }
}

/// Members with keys that are all known leave no rest.
pub proof fn lemma_rest_known(members: Members, known: Seq<Seq<char>>)
    requires
        forall|i: int| 0 <= i < members.len() ==> known.contains((#[trigger] members[i]).0),
    ensures
        rest_spec(members, known) == Seq::<(Seq<char>, JsonView)>::empty(),
    decreases members.len(),
{
    if members.len() > 0 {
        let init = members.drop_last();
        assert forall|i: int| 0 <= i < init.len() implies known.contains(
            (#[trigger] init[i]).0,
        ) by {
            assert(init[i] == members[i]);
        }
        lemma_rest_known(init, known);
        assert(members.last() == members[members.len() - 1]);
    }
}

/// Members with keys that are all unknown are their own rest.
pub proof fn lemma_rest_foreign(members: Members, known: Seq<Seq<char>>)
    requires
        foreign(members, known),
    ensures
        rest_spec(members, known) == members,
    decreases members.len(),
{
    if members.len() > 0 {
        let init = members.drop_last();
        assert forall|i: int| 0 <= i < init.len() implies !known.contains(
            (#[trigger] init[i]).0,
        ) by {
            assert(init[i] == members[i]);
        }
        lemma_rest_foreign(init, known);
        assert(members.last() == members[members.len() - 1]);
        assert(init.push(members.last()) == members);
    } else {
        assert(members == Seq::<(Seq<char>, JsonView)>::empty());
    }
}

/// The rest of any members holds no known key.
pub proof fn lemma_rest_is_foreign(members: Members, known: Seq<Seq<char>>)
    ensures
        foreign(rest_spec(members, known), known),
    decreases members.len(),
{
    if members.len() > 0 {
        lemma_rest_is_foreign(members.drop_last(), known);
        let before = rest_spec(members.drop_last(), known);
        let now = rest_spec(members, known);
        assert forall|i: int| 0 <= i < now.len() implies !known.contains((#[trigger] now[i]).0) by {
            if i < before.len() {
                assert(now[i] == before[i]);
            }
        }
    }
}

/// The rest of an object, beside the keys of its entries, is what it holds
/// beside the entries.
pub proof fn lemma_object_rest(entries: Seq<Entry>, extra: Members)
    requires
        foreign(extra, keys_of(entries)),
    ensures
        rest_spec(written(entries) + extra, keys_of(entries)) == extra,
{
    let known = keys_of(entries);
    lemma_rest_concat(written(entries), extra, known);
    assert forall|j: int| 0 <= j < written(entries).len() implies known.contains(
        (#[trigger] written(entries)[j]).0,
    ) by {
        lemma_written_keys(entries, j);
    }
    lemma_rest_known(written(entries), known);
    lemma_rest_foreign(extra, known);
}

} // verus!
