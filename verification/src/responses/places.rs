//! Places.

use crate::json::{
    first_with_key, items_view, lemma_array_view, lemma_object_view, members_view, Json, JsonView,
    Members,
};
use crate::object::{
    absent, absent_json, foreign, int_of, int_spec, int_to_json, keys_of, lemma_object_reads,
    lemma_object_rest, lemma_rest_is_foreign, lemma_texts_round_trip, optional, present, put_all,
    put_next, required, rest, rest_spec, text_of, text_spec, texts_json, texts_of, texts_spec,
    texts_to_json, written, Entry,
};
use crate::text::{decimal_i64_spec, lemma_parse_i64_decimal, texts};
use vstd::prelude::*;

verus! {

/// A place that a tweet is tagged with. Members that the type does not name are
/// kept in `extra`, in the order in which the JSON value that was read holds
/// them; for a value read from text that is the order in which the reader hands
/// them over.
#[derive(Debug, Clone, Default)]
pub struct Places {
    pub full_name: String,
    pub id: String,
    pub contained_within: Option<Vec<String>>,
    pub country: Option<String>,
    pub country_code: Option<i64>,
    pub geo: Option<Json>,
    pub name: Option<String>,
    pub place_type: Option<String>,
    pub extra: Vec<(String, Json)>,
}

/// A [`Places`] as mathematical values.
pub struct PlacesView {
    pub full_name: Seq<char>,
    pub id: Seq<char>,
    pub contained_within: Option<Seq<Seq<char>>>,
    pub country: Option<Seq<char>>,
    pub country_code: Option<i64>,
    pub geo: Option<JsonView>,
    pub name: Option<Seq<char>>,
    pub place_type: Option<Seq<char>>,
    pub extra: Members,
}

impl View for Places {
    type V = PlacesView;

    open spec fn view(&self) -> PlacesView {
        PlacesView {
            full_name: self.full_name@,
            id: self.id@,
            contained_within: self.contained_within.deep_view(),
            country: self.country.deep_view(),
            country_code: self.country_code,
            geo: match self.geo {
                Some(value) => Some(value@),
                None => None,
            },
            name: self.name.deep_view(),
            place_type: self.place_type.deep_view(),
            extra: members_view(self.extra@),
        }
    }
}

impl Places {
    /// The keys of the members that the type names, in the order in
    /// which they are written.
    pub open spec fn keys() -> Seq<Seq<char>> {
        seq![
            "full_name"@,
            "id"@,
            "contained_within"@,
            "country"@,
            "country_code"@,
            "geo"@,
            "name"@,
            "place_type"@,
        ]
    }

    /// The members that the type names, each with the JSON value that
    /// stands for it; `null` stands for no value.
    pub open spec fn entries(x: PlacesView) -> Seq<Entry> {
        seq![
            (
                "full_name"@,
                Some(JsonView::Text(x.full_name)),
            ),
            (
                "id"@,
                Some(JsonView::Text(x.id)),
            ),
            (
                "contained_within"@,
                match x.contained_within {
                    Some(list) => Some(texts_json(list)),
                    None => absent(false),
                },
            ),
            (
                "country"@,
                match x.country {
                    Some(text) => Some(JsonView::Text(text)),
                    None => absent(false),
                },
            ),
            (
                "country_code"@,
                match x.country_code {
                    Some(n) => Some(JsonView::Number(decimal_i64_spec(n as int))),
                    None => absent(false),
                },
            ),
            (
                "geo"@,
                match x.geo {
                    Some(value) => Some(value),
                    None => absent(false),
                },
            ),
            (
                "name"@,
                match x.name {
                    Some(text) => Some(JsonView::Text(text)),
                    None => absent(false),
                },
            ),
            (
                "place_type"@,
                match x.place_type {
                    Some(text) => Some(JsonView::Text(text)),
                    None => absent(false),
                },
            ),
        ]
    }

    /// The JSON object that stands for the value: the named members,
    /// then the others as they are.
    pub open spec fn encode_spec(x: PlacesView) -> JsonView {
        JsonView::Object(written(Self::entries(x)) + x.extra)
    }

    /// The value that a JSON value stands for: the JSON value must be an
    /// object, each named member must read well, and every other member
    /// is kept.
    pub open spec fn decode_spec(value: JsonView) -> Option<PlacesView> {
        match value {
            JsonView::Object(members) => {
                let full_name = required(
                    first_with_key(members, "full_name"@),
                    text_spec(first_with_key(members, "full_name"@)->0),
                );
                let id = required(
                    first_with_key(members, "id"@),
                    text_spec(first_with_key(members, "id"@)->0),
                );
                let contained_within = optional(
                    first_with_key(members, "contained_within"@),
                    texts_spec(first_with_key(members, "contained_within"@)->0),
                );
                let country = optional(
                    first_with_key(members, "country"@),
                    text_spec(first_with_key(members, "country"@)->0),
                );
                let country_code = optional(
                    first_with_key(members, "country_code"@),
                    int_spec(first_with_key(members, "country_code"@)->0),
                );
                let geo = optional(
                    first_with_key(members, "geo"@),
                    Some(first_with_key(members, "geo"@)->0),
                );
                let name = optional(
                    first_with_key(members, "name"@),
                    text_spec(first_with_key(members, "name"@)->0),
                );
                let place_type = optional(
                    first_with_key(members, "place_type"@),
                    text_spec(first_with_key(members, "place_type"@)->0),
                );
                if full_name is Some && id is Some && contained_within is Some && country is Some
                    && country_code is Some && geo is Some && name is Some && place_type is Some {
                    Some(
                        PlacesView {
                            full_name: full_name->0,
                            id: id->0,
                            contained_within: contained_within->0,
                            country: country->0,
                            country_code: country_code->0,
                            geo: geo->0,
                            name: name->0,
                            place_type: place_type->0,
                            extra: rest_spec(members, Self::keys()),
                        },
                    )
                } else {
                    None
                }
            },
            _ => None,
        }
    }

    /// Whether the value can be told from what is written for it: no member
    /// kept beside the named ones has the key of a named one, and no member
    /// that is a JSON value of any kind holds `null`.
    pub open spec fn wf(x: PlacesView) -> bool {
        &&& foreign(x.extra, Self::keys())
        &&& x.geo != Some(JsonView::Null)
    }

    /// The views of a list of values.
    pub open spec fn views(items: Seq<Places>) -> Seq<PlacesView> {
        Seq::new(items.len(), |i: int| items[i]@)
    }

    /// The JSON objects that stand for the values.
    pub open spec fn encode_all_spec(list: Seq<PlacesView>) -> Seq<JsonView> {
        list.map_values(|x: PlacesView| Self::encode_spec(x))
    }

    /// The values that the JSON values stand for, where each stands for
    /// one.
    pub open spec fn decode_items_spec(items: Seq<JsonView>) -> Option<Seq<PlacesView>>
        decreases items.len(),
    {
        if items.len() == 0 {
            Some(Seq::empty())
        } else {
            match (Self::decode_items_spec(items.drop_last()), Self::decode_spec(items.last())) {
                (Some(init), Some(last)) => Some(init.push(last)),
                _ => None,
            }
        }
    }

    /// The values that a JSON array stands for.
    pub open spec fn decode_all_spec(value: JsonView) -> Option<Seq<PlacesView>> {
        match value {
            JsonView::Array(items) => Self::decode_items_spec(items),
            _ => None,
        }
    }

    /// Whether each value of the list can be told from what is written
    /// for it.
    pub open spec fn all_wf(list: Seq<PlacesView>) -> bool {
        forall|i: int| 0 <= i < list.len() ==> Self::wf(#[trigger] list[i])
    }
}

impl Places {
    /// The keys of the members that the type names.
    pub fn known() -> (keys: Vec<&'static str>)
        ensures
            texts(keys@) == Self::keys(),
    {
        let mut keys: Vec<&'static str> = Vec::new();
        keys.push("full_name");
        keys.push("id");
        keys.push("contained_within");
        keys.push("country");
        keys.push("country_code");
        keys.push("geo");
        keys.push("name");
        keys.push("place_type");
        assert(texts(keys@) =~= Self::keys());
        keys
    }

    /// Reads the value that a JSON value stands for: each named member is
    /// looked up, a missing member and `null` count as no value, and every
    /// member that is not named is kept in `extra`. `None` where the JSON
    /// value is no object or a named member holds a value of another
    /// kind, or a member that every value has is missing.
    pub fn from_json(source: &Json) -> (out: Option<Self>)
        ensures
            match out {
                Some(x) => Self::decode_spec(source@) == Some(x@),
                None => Self::decode_spec(source@) is None,
            },
    {
        let members = match source {
            Json::Object(members) => members,
            _ => {
                return None;
            },
        };
        proof {
            lemma_object_view(*source);
        }
        let full_name: String = match source.member("full_name") {
            Some(member) => match text_of(member) {
                Some(read) => read,
                None => {
                    return None;
                },
            },
            None => {
                return None;
            },
        };
        let id: String = match source.member("id") {
            Some(member) => match text_of(member) {
                Some(read) => read,
                None => {
                    return None;
                },
            },
            None => {
                return None;
            },
        };
        let contained_within: Option<Vec<String>> = match present(
            source.member("contained_within"),
        ) {
            Some(member) => match texts_of(member) {
                Some(read) => Some(read),
                None => {
                    return None;
                },
            },
            None => None,
        };
        let country: Option<String> = match present(source.member("country")) {
            Some(member) => match text_of(member) {
                Some(read) => Some(read),
                None => {
                    return None;
                },
            },
            None => None,
        };
        let country_code: Option<i64> = match present(source.member("country_code")) {
            Some(member) => match int_of(member) {
                Some(read) => Some(read),
                None => {
                    return None;
                },
            },
            None => None,
        };
        let geo: Option<Json> = match present(source.member("geo")) {
            Some(member) => match Some(member.clone()) {
                Some(read) => Some(read),
                None => {
                    return None;
                },
            },
            None => None,
        };
        let name: Option<String> = match present(source.member("name")) {
            Some(member) => match text_of(member) {
                Some(read) => Some(read),
                None => {
                    return None;
                },
            },
            None => None,
        };
        let place_type: Option<String> = match present(source.member("place_type")) {
            Some(member) => match text_of(member) {
                Some(read) => Some(read),
                None => {
                    return None;
                },
            },
            None => None,
        };
        let known = Self::known();
        let extra = rest(members, &known);
        let out = Places {
            full_name,
            id,
            contained_within,
            country,
            country_code,
            geo,
            name,
            place_type,
            extra,
        };
        assert(Self::decode_spec(source@) == Some(out@));
        Some(out)
    }

    /// Writes the JSON object that stands for the value: the named
    /// members in their order, `null` for a member without a value,
    /// then the members of `extra` as they are.
    pub fn to_json(&self) -> (value: Json)
        ensures
            value@ == Self::encode_spec(self@),
    {
        let mut members: Vec<(String, Json)> = Vec::new();
        let ghost all = Self::entries(self@);
        assert(members_view(members@) =~= written(all.take(0)));
        let full_name = Some(Json::Text((&self.full_name).clone()));
        put_next(&mut members, "full_name", full_name, Ghost(all), Ghost(0));
        let id = Some(Json::Text((&self.id).clone()));
        put_next(&mut members, "id", id, Ghost(all), Ghost(1));
        let contained_within = match &self.contained_within {
            Some(inner) => Some(texts_to_json(inner)),
            None => absent_json(false),
        };
        put_next(&mut members, "contained_within", contained_within, Ghost(all), Ghost(2));
        let country = match &self.country {
            Some(inner) => Some(Json::Text(inner.clone())),
            None => absent_json(false),
        };
        put_next(&mut members, "country", country, Ghost(all), Ghost(3));
        let country_code = match &self.country_code {
            Some(inner) => Some(int_to_json(*inner)),
            None => absent_json(false),
        };
        put_next(&mut members, "country_code", country_code, Ghost(all), Ghost(4));
        let geo = match &self.geo {
            Some(inner) => Some(inner.clone()),
            None => absent_json(false),
        };
        put_next(&mut members, "geo", geo, Ghost(all), Ghost(5));
        let name = match &self.name {
            Some(inner) => Some(Json::Text(inner.clone())),
            None => absent_json(false),
        };
        put_next(&mut members, "name", name, Ghost(all), Ghost(6));
        let place_type = match &self.place_type {
            Some(inner) => Some(Json::Text(inner.clone())),
            None => absent_json(false),
        };
        put_next(&mut members, "place_type", place_type, Ghost(all), Ghost(7));
        assert(all.take(8) == all);
        put_all(&mut members, &self.extra);
        let value = Json::Object(members);
        proof {
            lemma_object_view(value);
        }
        value
    }

    /// Reads the values that a JSON array stands for; `None` where the
    /// JSON value is no array or an item stands for no value.
    pub fn all_from_json(value: &Json) -> (out: Option<Vec<Self>>)
        ensures
            match out {
                Some(list) => Self::decode_all_spec(value@) == Some(Self::views(list@)),
                None => Self::decode_all_spec(value@) is None,
            },
    {
        let items = match value.items() {
            Some(items) => items,
            None => {
                return None;
            },
        };
        let ghost all = items_view(items@);
        let mut list: Vec<Self> = Vec::new();
        let mut i: usize = 0;
        assert(all.take(0) =~= Seq::empty());
        assert(Self::views(list@) =~= Seq::empty());
        while i < items.len()
            invariant
                i <= items.len(),
                all == items_view(items@),
                value@ == JsonView::Array(all),
                Self::decode_items_spec(all.take(i as int)) == Some(Self::views(list@)),
            decreases items.len() - i,
        {
            let ghost before = Self::views(list@);
            assert(all.take(i + 1).drop_last() == all.take(i as int));
            assert(all.take(i + 1).last() == all[i as int]);
            match Self::from_json(&items[i]) {
                Some(item) => {
                    let ghost view = item@;
                    list.push(item);
                    assert(Self::views(list@) =~= before.push(view));
                },
                None => {
                    proof {
                        Self::lemma_items_fail(all, i as int);
                    }
                    return None;
                },
            }
            i += 1;
        }
        assert(all.take(i as int) == all);
        Some(list)
    }

    /// Writes the JSON array that stands for the values.
    pub fn all_to_json(list: &Vec<Self>) -> (value: Json)
        ensures
            value@ == JsonView::Array(Self::encode_all_spec(Self::views(list@))),
    {
        let ghost all = Self::encode_all_spec(Self::views(list@));
        let mut items: Vec<Json> = Vec::new();
        let mut i: usize = 0;
        while i < list.len()
            invariant
                i <= list.len(),
                all == Self::encode_all_spec(Self::views(list@)),
                items_view(items@) == all.take(i as int),
            decreases list.len() - i,
        {
            let ghost before = items_view(items@);
            let item = list[i].to_json();
            let ghost view = item@;
            items.push(item);
            assert(items_view(items@) =~= before.push(view));
            assert(all.take(i + 1) =~= all.take(i as int).push(all[i as int]));
            i += 1;
        }
        assert(all.take(i as int) == all);
        let value = Json::Array(items);
        proof {
            lemma_array_view(value);
        }
        value
    }
}

impl Places {
    /// The entries have the keys of the type, and no key twice.
    pub proof fn lemma_keys(x: PlacesView)
        ensures
            keys_of(Self::entries(x)) == Self::keys(),
            Self::keys().no_duplicates(),
    {
        reveal_strlit("full_name");
        assert("full_name"@.len() == 9);
        reveal_strlit("id");
        assert("id"@.len() == 2);
        reveal_strlit("contained_within");
        assert("contained_within"@.len() == 16);
        reveal_strlit("country");
        assert("country"@.len() == 7);
        reveal_strlit("country_code");
        assert("country_code"@.len() == 12);
        reveal_strlit("geo");
        assert("geo"@.len() == 3);
        reveal_strlit("name");
        assert("name"@.len() == 4);
        reveal_strlit("place_type");
        assert("place_type"@.len() == 10);
        assert(keys_of(Self::entries(x)) =~= Self::keys());
    }

    /// Round trip: reading what was written for a value gives the value
    /// back, the members kept beside the named ones included.
    pub proof fn lemma_round_trip(x: PlacesView)
        requires
            Self::wf(x),
        ensures
            Self::decode_spec(Self::encode_spec(x)) == Some(x),
    {
        Self::lemma_keys(x);
        let entries = Self::entries(x);
        lemma_object_rest(entries, x.extra);
        lemma_object_reads(entries, x.extra, 0);
        lemma_object_reads(entries, x.extra, 1);
        lemma_object_reads(entries, x.extra, 2);
        if x.contained_within is Some {
            lemma_texts_round_trip(x.contained_within->0);
        }
        lemma_object_reads(entries, x.extra, 3);
        lemma_object_reads(entries, x.extra, 4);
        if x.country_code is Some {
            lemma_parse_i64_decimal(x.country_code->0);
        }
        lemma_object_reads(entries, x.extra, 5);
        lemma_object_reads(entries, x.extra, 6);
        lemma_object_reads(entries, x.extra, 7);
        let back = Self::decode_spec(Self::encode_spec(x));
        assert(back is Some);
        assert(back->0.extra == x.extra);
        assert(back->0 == x);
    }

    /// What is read keeps every member that the type does not name, and
    /// what is written for it holds those members again, unchanged and in
    /// their order.
    pub proof fn lemma_extra_kept(members: Members)
        requires
            Self::decode_spec(JsonView::Object(members)) is Some,
        ensures
            ({
                let x = Self::decode_spec(JsonView::Object(members))->0;
                &&& x.extra == rest_spec(members, Self::keys())
                &&& foreign(x.extra, Self::keys())
                &&& Self::encode_spec(x) is Object
                &&& rest_spec(Self::encode_spec(x)->Object_0, Self::keys()) == x.extra
            }),
    {
        let x = Self::decode_spec(JsonView::Object(members))->0;
        Self::lemma_keys(x);
        lemma_rest_is_foreign(members, Self::keys());
        lemma_object_rest(Self::entries(x), x.extra);
    }

    /// A list with an item that stands for no value stands for no list.
    pub proof fn lemma_items_fail(items: Seq<JsonView>, k: int)
        requires
            0 <= k < items.len(),
            Self::decode_spec(items[k]) is None,
        ensures
            Self::decode_items_spec(items) is None,
        decreases items.len(),
    {
        if k < items.len() - 1 {
            Self::lemma_items_fail(items.drop_last(), k);
        }
    }

    /// Round trip of a list: reading what was written for the values
    /// gives the values back.
    pub proof fn lemma_round_trip_all(list: Seq<PlacesView>)
        requires
            Self::all_wf(list),
        ensures
            Self::decode_all_spec(JsonView::Array(Self::encode_all_spec(list))) == Some(list),
        decreases list.len(),
    {
        let items = Self::encode_all_spec(list);
        if list.len() == 0 {
            assert(list =~= Seq::empty());
        } else {
            let init = list.drop_last();
            assert(Self::all_wf(init)) by {
                assert forall|i: int| 0 <= i < init.len() implies Self::wf(#[trigger] init[i]) by {
                    assert(init[i] == list[i]);
                }
            }
            Self::lemma_round_trip_all(init);
            assert(Self::wf(list[list.len() - 1]));
            Self::lemma_round_trip(list.last());
            assert(items.drop_last() =~= Self::encode_all_spec(init));
            assert(init.push(list.last()) =~= list);
        }
    }
}

} // verus!
