//! JSON values as plain data. The text is read by `serde_json`; what it
//! yields is carried over into [`Json`], on which the library's rules are
//! stated and proved.

use crate::text::same_text;
use vstd::prelude::*;

verus! {

/// A JSON value. A number is held as text and an object as the list of its
/// members. In a value read from text, the text of a number and the order
/// of the members are those that the reader hands over: the number as
/// `serde_json` prints it, the members as `serde_json` walks them, which
/// need not be the text's own.
#[derive(Debug)]
pub enum Json {
    Null,
    Bool(bool),
    Number(String),
    Text(String),
    Array(Vec<Json>),
    Object(Vec<(String, Json)>),
}

/// A JSON value as a mathematical value.
pub enum JsonView {
    Null,
    Bool(bool),
    Number(Seq<char>),
    Text(Seq<char>),
    Array(Seq<JsonView>),
    Object(Seq<(Seq<char>, JsonView)>),
}

/// The members of a JSON object as mathematical values.
pub type Members = Seq<(Seq<char>, JsonView)>;

/// The mathematical value of a JSON value.
pub open spec fn json_view(value: Json) -> JsonView
    decreases value,
{
    match value {
        Json::Null => JsonView::Null,
        Json::Bool(b) => JsonView::Bool(b),
        Json::Number(n) => JsonView::Number(n@),
        Json::Text(t) => JsonView::Text(t@),
        Json::Array(items) => JsonView::Array(
            Seq::new(
                items@.len(),
                |i: int|
                    if 0 <= i < items@.len() {
                        json_view(items@[i])
                    } else {
                        JsonView::Null
                    },
            ),
        ),
        Json::Object(members) => JsonView::Object(
            Seq::new(
                members@.len(),
                |i: int|
                    if 0 <= i < members@.len() {
                        (members@[i].0@, json_view(members@[i].1))
                    } else {
                        (Seq::empty(), JsonView::Null)
                    },
            ),
        ),
    }
}

impl View for Json {
    type V = JsonView;

    open spec fn view(&self) -> JsonView {
        json_view(*self)
    }
}

/// The views of a list of members.
pub open spec fn members_view(members: Seq<(String, Json)>) -> Members {
    Seq::new(members.len(), |i: int| (members[i].0@, members[i].1@))
}

/// The views of a list of values.
pub open spec fn items_view(items: Seq<Json>) -> Seq<JsonView> {
    Seq::new(items.len(), |i: int| items[i]@)
}

/// The view of an object is the object of its members' views.
pub proof fn lemma_object_view(value: Json)
    requires
        value is Object,
    ensures
        value@ == JsonView::Object(members_view(value->Object_0@)),
{
    assert(value@->Object_0 =~= members_view(value->Object_0@));
}

/// The view of an array is the array of its items' views.
pub proof fn lemma_array_view(value: Json)
    requires
        value is Array,
    ensures
        value@ == JsonView::Array(items_view(value->Array_0@)),
{
    assert(value@->Array_0 =~= items_view(value->Array_0@));
}

/// The value of the first member with the key.
pub open spec fn first_with_key(members: Members, key: Seq<char>) -> Option<JsonView>
    decreases members.len(),
{
    if members.len() == 0 {
        None
    } else if members[0].0 == key {
        Some(members[0].1)
    } else {
        first_with_key(members.skip(1), key)
    }
}

/// The value under the key, where the JSON value is an object that has
/// such a member.
pub open spec fn member_spec(value: JsonView, key: Seq<char>) -> Option<JsonView> {
    match value {
        JsonView::Object(members) => first_with_key(members, key),
        _ => None,
    }
}

/// The value that `serde_json` reads from a text; `None` where it refuses
/// the text.
pub uninterp spec fn json_parse(text: Seq<char>) -> Option<JsonView>;

/// `serde_json::Value`, of which the library sees nothing: it is only
/// carried from the reader to the conversion.
#[verifier::external_type_specification]
#[verifier::external_body]
pub struct ExValue(serde_json::Value);

/// Carries a `serde_json::Value` over into [`Json`], variant by variant;
/// a number by the text that `serde_json` prints for it, an object by its
/// members in the order in which `serde_json` walks them.
#[verifier::external_body]
fn from_value(value: serde_json::Value) -> Json {
    match value {
        serde_json::Value::Null => Json::Null,
        serde_json::Value::Bool(b) => Json::Bool(b),
        serde_json::Value::Number(n) => Json::Number(n.to_string()),
        serde_json::Value::String(s) => Json::Text(s),
        serde_json::Value::Array(items) => Json::Array(items.into_iter().map(from_value).collect()),
        serde_json::Value::Object(members) => Json::Object(
            members.into_iter().map(|(k, v)| (k, from_value(v))).collect(),
        ),
    }
}

/// `serde_json::from_str` at `serde_json::Value`: the value it reads from
/// the text, carried over into [`Json`], or `None` where it returns an
/// error. The result depends on the text alone.
#[verifier::external_body]
pub(crate) fn read_json(text: &str) -> (value: Option<Json>)
    ensures
        match value {
            Some(j) => json_parse(text@) == Some(j@),
            None => json_parse(text@) is None,
        },
{
    serde_json::from_str::<serde_json::Value>(text).ok().map(from_value)
}

impl Json {
    /// Reads a JSON text.
    pub fn parse(text: &str) -> (value: Option<Json>)
        ensures
            match value {
                Some(j) => json_parse(text@) == Some(j@),
                None => json_parse(text@) is None,
            },
    {
        read_json(text)
    }

    /// Whether the value is `null`.
    pub fn is_null(&self) -> (b: bool)
        ensures
            b == (self@ is Null),
    {
        match self {
            Json::Null => true,
            _ => false,
        }
    }

    /// The value of the first member with the key, where this is an object
    /// with such a member.
    pub fn member(&self, key: &str) -> (found: Option<&Json>)
        ensures
            match found {
                Some(v) => member_spec(self@, key@) == Some(v@),
                None => member_spec(self@, key@) is None,
            },
    {
        match self {
            Json::Object(members) => {
                let ghost all = members_view(members@);
                proof {
                    lemma_object_view(*self);
                }
                let mut i: usize = 0;
                assert(all.skip(0) == all);
                while i < members.len()
                    invariant
                        i <= members.len(),
                        all == members_view(members@),
                        self@ == JsonView::Object(all),
                        first_with_key(all, key@) == first_with_key(all.skip(i as int), key@),
                    decreases members.len() - i,
                {
                    let ghost rest = all.skip(i as int);
                    assert(rest[0] == all[i as int]);
                    if same_text(members[i].0.as_str(), key) {
                        assert(first_with_key(rest, key@) == Some(members@[i as int].1@));
                        return Some(&members[i].1);
                    }
                    assert(rest.skip(1) == all.skip(i + 1));
                    i += 1;
                }
                None
            },
            _ => None,
        }
    }

    /// The items, where the value is an array.
    pub fn items(&self) -> (found: Option<&Vec<Json>>)
        ensures
            match found {
                Some(v) => self@ == JsonView::Array(items_view(v@)),
                None => !(self@ is Array),
            },
    {
        match self {
            Json::Array(items) => {
                proof {
                    lemma_array_view(*self);
                }
                Some(items)
            },
            _ => None,
        }
    }
}

impl Clone for Json {
    /// A copy with the same value.
    fn clone(&self) -> (copy: Json)
        ensures
            copy@ == self@,
        decreases self,
    {
        match self {
            Json::Null => Json::Null,
            Json::Bool(b) => Json::Bool(*b),
            Json::Number(n) => Json::Number(n.clone()),
            Json::Text(t) => Json::Text(t.clone()),
            Json::Array(items) => {
                let mut copies: Vec<Json> = Vec::new();
                let mut i: usize = 0;
                while i < items.len()
                    invariant
                        i <= items.len(),
                        self == Json::Array(*items),
                        items_view(copies@) == items_view(items@).take(i as int),
                    decreases items.len() - i,
                {
                    let ghost before = items_view(copies@);
                    assert(decreases_to!(*self => self->Array_0));
                    assert(decreases_to!(*items => items[i as int]));
                    let item = items[i].clone();
                    copies.push(item);
                    assert(items_view(copies@) =~= before.push(items@[i as int]@));
                    assert(items_view(items@).take(i + 1) =~= items_view(items@).take(
                        i as int,
                    ).push(items@[i as int]@));
                    i += 1;
                }
                assert(items_view(items@).take(i as int) == items_view(items@));
                let copy = Json::Array(copies);
                proof {
                    lemma_array_view(copy);
                    lemma_array_view(*self);
                }
                copy
            },
            Json::Object(members) => {
                let mut copies: Vec<(String, Json)> = Vec::new();
                let mut i: usize = 0;
                while i < members.len()
                    invariant
                        i <= members.len(),
                        self == Json::Object(*members),
                        members_view(copies@) == members_view(members@).take(i as int),
                    decreases members.len() - i,
                {
                    let ghost before = members_view(copies@);
                    let key = members[i].0.clone();
                    assert(decreases_to!(*self => self->Object_0));
                    assert(decreases_to!(*members => members[i as int]));
                    let value = members[i].1.clone();
                    copies.push((key, value));
                    assert(members_view(copies@) =~= before.push(members_view(members@)[i as int]));
                    assert(members_view(members@).take(i + 1) =~= members_view(members@).take(
                        i as int,
                    ).push(members_view(members@)[i as int]));
                    i += 1;
                }
                assert(members_view(members@).take(i as int) == members_view(members@));
                let copy = Json::Object(copies);
                proof {
                    lemma_object_view(copy);
                    lemma_object_view(*self);
                }
                copy
            },
        }
    }
}

} // verus!
