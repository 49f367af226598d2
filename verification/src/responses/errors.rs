//! Error entries.

use crate::json::{
    first_with_key, items_view, lemma_array_view, lemma_object_view, members_view, Json, JsonView,
    Members,
};
use crate::object::{
    absent, absent_json, foreign, keys_of, lemma_object_reads, lemma_object_rest,
    lemma_rest_is_foreign, lemma_rest_known, optional, present, put_all, put_next, rest,
    rest_spec, text_of, text_spec, written, Entry,
};
use crate::text::{texts};
use vstd::prelude::*;

verus! {

/// One entry of the error list of a response. Members that the type does not
/// name are kept in `extra`, in the order in which the JSON value that was read
/// holds them; for a value read from text that is the order in which the reader
/// hands them over.
#[derive(Debug, Clone, Default)]
pub struct Errors {
    pub detail: Option<String>,
    pub title: Option<String>,
    pub resource_type: Option<String>,
    pub parameter: Option<String>,
    pub value: Option<Json>,
    pub type_: Option<String>,
    pub extra: Vec<(String, Json)>,
}

/// An [`Errors`] as mathematical values.
pub struct ErrorsView {
    pub detail: Option<Seq<char>>,
    pub title: Option<Seq<char>>,
    pub resource_type: Option<Seq<char>>,
    pub parameter: Option<Seq<char>>,
    pub value: Option<JsonView>,
    pub type_: Option<Seq<char>>,
    pub extra: Members,
}

impl View for Errors {
    type V = ErrorsView;

    open spec fn view(&self) -> ErrorsView {
        ErrorsView {
            detail: self.detail.deep_view(),
            title: self.title.deep_view(),
            resource_type: self.resource_type.deep_view(),
            parameter: self.parameter.deep_view(),
            value: match self.value {
                Some(value) => Some(value@),
                None => None,
            },
            type_: self.type_.deep_view(),
            extra: members_view(self.extra@),
        }
    }
}

impl Errors {
    /// The keys of the members that the type names, in the order in
    /// which they are written.
    pub open spec fn keys() -> Seq<Seq<char>> {
        seq![
            "detail"@,
            "title"@,
            "resource_type"@,
            "parameter"@,
            "value"@,
            "type"@,
        ]
    }

    /// The members that the type names, each with the JSON value that
    /// stands for it, if it has a value.
    pub open spec fn entries(x: ErrorsView) -> Seq<Entry> {
        seq![
            (
                "detail"@,
                match x.detail {
                    Some(text) => Some(JsonView::Text(text)),
                    None => absent(true),
                },
            ),
            (
                "title"@,
                match x.title {
                    Some(text) => Some(JsonView::Text(text)),
                    None => absent(true),
                },
            ),
            (
                "resource_type"@,
                match x.resource_type {
                    Some(text) => Some(JsonView::Text(text)),
                    None => absent(true),
                },
            ),
            (
                "parameter"@,
                match x.parameter {
                    Some(text) => Some(JsonView::Text(text)),
                    None => absent(true),
                },
            ),
            (
                "value"@,
                match x.value {
                    Some(value) => Some(value),
                    None => absent(true),
                },
            ),
            (
                "type"@,
                match x.type_ {
                    Some(text) => Some(JsonView::Text(text)),
                    None => absent(true),
                },
            ),
        ]
    }

    /// The JSON object that stands for the value: the named members,
    /// then the others as they are.
    pub open spec fn encode_spec(x: ErrorsView) -> JsonView {
        JsonView::Object(written(Self::entries(x)) + x.extra)
    }

    /// The value that a JSON value stands for: the JSON value must be an
    /// object, each named member must read well, and every other member
    /// is kept.
    pub open spec fn decode_spec(value: JsonView) -> Option<ErrorsView> {
        match value {
            JsonView::Object(members) => {
                let detail = optional(
                    first_with_key(members, "detail"@),
                    text_spec(first_with_key(members, "detail"@)->0),
                );
                let title = optional(
                    first_with_key(members, "title"@),
                    text_spec(first_with_key(members, "title"@)->0),
                );
                let resource_type = optional(
                    first_with_key(members, "resource_type"@),
                    text_spec(first_with_key(members, "resource_type"@)->0),
                );
                let parameter = optional(
                    first_with_key(members, "parameter"@),
                    text_spec(first_with_key(members, "parameter"@)->0),
                );
                let value = optional(
                    first_with_key(members, "value"@),
                    Some(first_with_key(members, "value"@)->0),
                );
                let type_ = optional(
                    first_with_key(members, "type"@),
                    text_spec(first_with_key(members, "type"@)->0),
                );
                if detail is Some && title is Some && resource_type is Some && parameter is Some
                    && value is Some && type_ is Some {
                    Some(
                        ErrorsView {
                            detail: detail->0,
                            title: title->0,
                            resource_type: resource_type->0,
                            parameter: parameter->0,
                            value: value->0,
                            type_: type_->0,
                            extra: rest_spec(members, Self::keys()),
                        },
                    )
                } else {
                    None
                }
            },
            _ => None,
        }
    }

    /// Whether the value can be told from what is written for it: no member
    /// kept beside the named ones has the key of a named one, and no member
    /// that is a JSON value of any kind holds `null`.
    pub open spec fn wf(x: ErrorsView) -> bool {
        &&& foreign(x.extra, Self::keys())
        &&& x.value != Some(JsonView::Null)
    }

    /// The views of a list of values.
    pub open spec fn views(items: Seq<Errors>) -> Seq<ErrorsView> {
        Seq::new(items.len(), |i: int| items[i]@)
    }

    /// The JSON objects that stand for the values.
    pub open spec fn encode_all_spec(list: Seq<ErrorsView>) -> Seq<JsonView> {
        list.map_values(|x: ErrorsView| Self::encode_spec(x))
    }

    /// The values that the JSON values stand for, where each stands for
    /// one.
    pub open spec fn decode_items_spec(items: Seq<JsonView>) -> Option<Seq<ErrorsView>>
        decreases items.len(),
    {
        if items.len() == 0 {
            Some(Seq::empty())
        } else {
            match (Self::decode_items_spec(items.drop_last()), Self::decode_spec(items.last())) {
                (Some(init), Some(last)) => Some(init.push(last)),
                _ => None,
            }
        }
    }

    /// The values that a JSON array stands for.
    pub open spec fn decode_all_spec(value: JsonView) -> Option<Seq<ErrorsView>> {
        match value {
            JsonView::Array(items) => Self::decode_items_spec(items),
            _ => None,
        }
    }

    /// Whether each value of the list can be told from what is written
    /// for it.
    pub open spec fn all_wf(list: Seq<ErrorsView>) -> bool {
        forall|i: int| 0 <= i < list.len() ==> Self::wf(#[trigger] list[i])
    }
}

impl Errors {
    /// The keys of the members that the type names.
    pub fn known() -> (keys: Vec<&'static str>)
        ensures
            texts(keys@) == Self::keys(),
    {
        let mut keys: Vec<&'static str> = Vec::new();
        keys.push("detail");
        keys.push("title");
        keys.push("resource_type");
        keys.push("parameter");
        keys.push("value");
        keys.push("type");
        assert(texts(keys@) =~= Self::keys());
        keys
    }

    /// Reads the value that a JSON value stands for: each named member is
    /// looked up, a missing member and `null` count as no value, and every
    /// member that is not named is kept in `extra`. `None` where the JSON
    /// value is no object or a named member holds a value of another
    /// kind.
    pub fn from_json(source: &Json) -> (out: Option<Self>)
        ensures
            match out {
                Some(x) => Self::decode_spec(source@) == Some(x@),
                None => Self::decode_spec(source@) is None,
            },
    {
        let members = match source {
            Json::Object(members) => members,
            _ => {
                return None;
            },
        };
        proof {
            lemma_object_view(*source);
        }
        let detail: Option<String> = match present(source.member("detail")) {
            Some(member) => match text_of(member) {
                Some(read) => Some(read),
                None => {
                    return None;
                },
            },
            None => None,
        };
        let title: Option<String> = match present(source.member("title")) {
            Some(member) => match text_of(member) {
                Some(read) => Some(read),
                None => {
                    return None;
                },
            },
            None => None,
        };
        let resource_type: Option<String> = match present(source.member("resource_type")) {
            Some(member) => match text_of(member) {
                Some(read) => Some(read),
                None => {
                    return None;
                },
            },
            None => None,
        };
        let parameter: Option<String> = match present(source.member("parameter")) {
            Some(member) => match text_of(member) {
                Some(read) => Some(read),
                None => {
                    return None;
                },
            },
            None => None,
        };
        let value: Option<Json> = match present(source.member("value")) {
            Some(member) => match Some(member.clone()) {
                Some(read) => Some(read),
                None => {
                    return None;
                },
            },
            None => None,
        };
        let type_: Option<String> = match present(source.member("type")) {
            Some(member) => match text_of(member) {
                Some(read) => Some(read),
                None => {
                    return None;
                },
            },
            None => None,
        };
        let known = Self::known();
        let extra = rest(members, &known);
        let out = Errors {
            detail,
            title,
            resource_type,
            parameter,
            value,
            type_,
            extra,
        };
        assert(Self::decode_spec(source@) == Some(out@));
        Some(out)
    }

    /// Writes the JSON object that stands for the value: the named
    /// members in their order, a member without a value left out,
    /// then the members of `extra` as they are.
    pub fn to_json(&self) -> (value: Json)
        ensures
            value@ == Self::encode_spec(self@),
    {
        let mut members: Vec<(String, Json)> = Vec::new();
        let ghost all = Self::entries(self@);
        assert(members_view(members@) =~= written(all.take(0)));
        let detail = match &self.detail {
            Some(inner) => Some(Json::Text(inner.clone())),
            None => absent_json(true),
        };
        put_next(&mut members, "detail", detail, Ghost(all), Ghost(0));
        let title = match &self.title {
            Some(inner) => Some(Json::Text(inner.clone())),
            None => absent_json(true),
        };
        put_next(&mut members, "title", title, Ghost(all), Ghost(1));
        let resource_type = match &self.resource_type {
            Some(inner) => Some(Json::Text(inner.clone())),
            None => absent_json(true),
        };
        put_next(&mut members, "resource_type", resource_type, Ghost(all), Ghost(2));
        let parameter = match &self.parameter {
            Some(inner) => Some(Json::Text(inner.clone())),
            None => absent_json(true),
        };
        put_next(&mut members, "parameter", parameter, Ghost(all), Ghost(3));
        let value = match &self.value {
            Some(inner) => Some(inner.clone()),
            None => absent_json(true),
        };
        put_next(&mut members, "value", value, Ghost(all), Ghost(4));
        let type_ = match &self.type_ {
            Some(inner) => Some(Json::Text(inner.clone())),
            None => absent_json(true),
        };
        put_next(&mut members, "type", type_, Ghost(all), Ghost(5));
        assert(all.take(6) == all);
        put_all(&mut members, &self.extra);
        let value = Json::Object(members);
        proof {
            lemma_object_view(value);
        }
        value
    }

    /// Reads the values that a JSON array stands for; `None` where the
    /// JSON value is no array or an item stands for no value.
    pub fn all_from_json(value: &Json) -> (out: Option<Vec<Self>>)
        ensures
            match out {
                Some(list) => Self::decode_all_spec(value@) == Some(Self::views(list@)),
                None => Self::decode_all_spec(value@) is None,
            },
    {
        let items = match value.items() {
            Some(items) => items,
            None => {
                return None;
            },
        };
        let ghost all = items_view(items@);
        let mut list: Vec<Self> = Vec::new();
        let mut i: usize = 0;
        assert(all.take(0) =~= Seq::empty());
        assert(Self::views(list@) =~= Seq::empty());
        while i < items.len()
            invariant
                i <= items.len(),
                all == items_view(items@),
                value@ == JsonView::Array(all),
                Self::decode_items_spec(all.take(i as int)) == Some(Self::views(list@)),
            decreases items.len() - i,
        {
            let ghost before = Self::views(list@);
            assert(all.take(i + 1).drop_last() == all.take(i as int));
            assert(all.take(i + 1).last() == all[i as int]);
            match Self::from_json(&items[i]) {
                Some(item) => {
                    let ghost view = item@;
                    list.push(item);
                    assert(Self::views(list@) =~= before.push(view));
                },
                None => {
                    proof {
                        Self::lemma_items_fail(all, i as int);
                    }
                    return None;
                },
            }
            i += 1;
        }
        assert(all.take(i as int) == all);
        Some(list)
    }

    /// Writes the JSON array that stands for the values.
    pub fn all_to_json(list: &Vec<Self>) -> (value: Json)
        ensures
            value@ == JsonView::Array(Self::encode_all_spec(Self::views(list@))),
    {
        let ghost all = Self::encode_all_spec(Self::views(list@));
        let mut items: Vec<Json> = Vec::new();
        let mut i: usize = 0;
        while i < list.len()
            invariant
                i <= list.len(),
                all == Self::encode_all_spec(Self::views(list@)),
                items_view(items@) == all.take(i as int),
            decreases list.len() - i,
        {
            let ghost before = items_view(items@);
            let item = list[i].to_json();
            let ghost view = item@;
            items.push(item);
            assert(items_view(items@) =~= before.push(view));
            assert(all.take(i + 1) =~= all.take(i as int).push(all[i as int]));
            i += 1;
        }
        assert(all.take(i as int) == all);
        let value = Json::Array(items);
        proof {
            lemma_array_view(value);
        }
        value
    }
}

impl Errors {
    /// The entries have the keys of the type, and no key twice.
    pub proof fn lemma_keys(x: ErrorsView)
        ensures
            keys_of(Self::entries(x)) == Self::keys(),
            Self::keys().no_duplicates(),
    {
        reveal_strlit("detail");
        assert("detail"@.len() == 6 && "detail"@[0] == 'd');
        reveal_strlit("title");
        assert("title"@.len() == 5 && "title"@[0] == 't');
        reveal_strlit("resource_type");
        assert("resource_type"@.len() == 13 && "resource_type"@[0] == 'r');
        reveal_strlit("parameter");
        assert("parameter"@.len() == 9 && "parameter"@[0] == 'p');
        reveal_strlit("value");
        assert("value"@.len() == 5 && "value"@[0] == 'v');
        reveal_strlit("type");
        assert("type"@.len() == 4 && "type"@[0] == 't');
        assert(keys_of(Self::entries(x)) =~= Self::keys());
    }

    /// Round trip: reading what was written for a value gives the value
    /// back, the members kept beside the named ones included.
    pub proof fn lemma_round_trip(x: ErrorsView)
        requires
            Self::wf(x),
        ensures
            Self::decode_spec(Self::encode_spec(x)) == Some(x),
    {
        Self::lemma_keys(x);
        let entries = Self::entries(x);
        lemma_object_rest(entries, x.extra);
        lemma_object_reads(entries, x.extra, 0);
        lemma_object_reads(entries, x.extra, 1);
        lemma_object_reads(entries, x.extra, 2);
        lemma_object_reads(entries, x.extra, 3);
        lemma_object_reads(entries, x.extra, 4);
        lemma_object_reads(entries, x.extra, 5);
        let back = Self::decode_spec(Self::encode_spec(x));
        assert(back is Some);
        assert(back->0.extra == x.extra);
        assert(back->0 == x);
    }

    /// What is read keeps every member that the type does not name, and
    /// what is written for it holds those members again, unchanged and in
    /// their order.
    pub proof fn lemma_extra_kept(members: Members)
        requires
            Self::decode_spec(JsonView::Object(members)) is Some,
        ensures
            ({
                let x = Self::decode_spec(JsonView::Object(members))->0;
                &&& x.extra == rest_spec(members, Self::keys())
                &&& foreign(x.extra, Self::keys())
                &&& Self::encode_spec(x) is Object
                &&& rest_spec(Self::encode_spec(x)->Object_0, Self::keys()) == x.extra
            }),
    {
        let x = Self::decode_spec(JsonView::Object(members))->0;
        Self::lemma_keys(x);
        lemma_rest_is_foreign(members, Self::keys());
        lemma_object_rest(Self::entries(x), x.extra);
    }

    /// A list with an item that stands for no value stands for no list.
    pub proof fn lemma_items_fail(items: Seq<JsonView>, k: int)
        requires
            0 <= k < items.len(),
            Self::decode_spec(items[k]) is None,
        ensures
            Self::decode_items_spec(items) is None,
        decreases items.len(),
    {
        if k < items.len() - 1 {
            Self::lemma_items_fail(items.drop_last(), k);
        }
    }

    /// Round trip of a list: reading what was written for the values
    /// gives the values back.
    pub proof fn lemma_round_trip_all(list: Seq<ErrorsView>)
        requires
            Self::all_wf(list),
        ensures
            Self::decode_all_spec(JsonView::Array(Self::encode_all_spec(list))) == Some(list),
        decreases list.len(),
    {
        let items = Self::encode_all_spec(list);
        if list.len() == 0 {
            assert(list =~= Seq::empty());
        } else {
            let init = list.drop_last();
            assert(Self::all_wf(init)) by {
                assert forall|i: int| 0 <= i < init.len() implies Self::wf(#[trigger] init[i]) by {
                    assert(init[i] == list[i]);
                }
            }
            Self::lemma_round_trip_all(init);
            assert(Self::wf(list[list.len() - 1]));
            Self::lemma_round_trip(list.last());
            assert(items.drop_last() =~= Self::encode_all_spec(init));
            assert(init.push(list.last()) =~= list);
        }
    }
}

impl Errors {
    /// Whether the value, and every value in it that can tell, holds no
    /// member that its type does not name.
    pub open spec fn no_extra(&self) -> bool {
        self.extra@.len() == 0
    }

    /// Whether the value, and every value in it that can tell, holds no
    /// member that its type does not name.
    pub fn is_empty_extra(&self) -> (res: bool)
        ensures
            res == self.no_extra(),
    {
        self.extra.len() == 0
    }
}

impl Errors {
    /// [`Self::no_extra`], said of the mathematical value.
    pub open spec fn bare(x: ErrorsView) -> bool {
        x.extra.len() == 0
    }

    /// Whether the JSON value is an object in which every member has a
    /// key that the type names.
    pub open spec fn modelled(value: JsonView) -> bool {
        match value {
            JsonView::Object(members) => {
                &&& forall|i: int|
                    0 <= i < members.len() ==> Self::keys().contains((#[trigger] members[i]).0)
            },
            _ => false,
        }
    }

    /// [`Self::bare`] of each value of a list.
    pub open spec fn all_bare(list: Seq<ErrorsView>) -> bool {
        forall|i: int| 0 <= i < list.len() ==> Self::bare(#[trigger] list[i])
    }

    /// Whether the JSON value is an array of which each item is
    /// [`Self::modelled`].
    pub open spec fn all_modelled(value: JsonView) -> bool {
        match value {
            JsonView::Array(items) => forall|i: int|
                0 <= i < items.len() ==> Self::modelled(#[trigger] items[i]),
            _ => false,
        }
    }

    /// [`Self::no_extra`] holds of a value exactly if [`Self::bare`] holds
    /// of its view.
    pub proof fn lemma_no_extra(&self)
        ensures
            self.no_extra() == Self::bare(self@),
    {
    }

    /// A value read from an object that holds no member beside those
    /// that the types name, at any level looked into, holds no extras.
    pub proof fn lemma_modelled_is_bare(value: JsonView)
        requires
            Self::modelled(value),
            Self::decode_spec(value) is Some,
        ensures
            Self::bare(Self::decode_spec(value)->0),
    {
        let members = value->Object_0;
        lemma_rest_known(members, Self::keys());
    }

    /// Read from an object that holds no member beside those that the
    /// types name, at any level looked into, a value has no extras to
    /// tell of.
    pub proof fn lemma_read_has_no_extra(&self, source: JsonView)
        requires
            Self::modelled(source),
            Self::decode_spec(source) == Some(self@),
        ensures
            self.no_extra(),
    {
        Self::lemma_modelled_is_bare(source);
        self.lemma_no_extra();
    }

    /// The values read from an array of objects that hold no member
    /// beside those that the type names hold no extras.
    pub proof fn lemma_all_modelled(value: JsonView)
        requires
            Self::all_modelled(value),
            Self::decode_all_spec(value) is Some,
        ensures
            Self::all_bare(Self::decode_all_spec(value)->0),
    {
        Self::lemma_items_modelled(value->Array_0);
    }

    proof fn lemma_items_modelled(items: Seq<JsonView>)
        requires
            forall|i: int| 0 <= i < items.len() ==> Self::modelled(#[trigger] items[i]),
            Self::decode_items_spec(items) is Some,
        ensures
            Self::all_bare(Self::decode_items_spec(items)->0),
        decreases items.len(),
    {
        if items.len() > 0 {
            let init = items.drop_last();
            assert forall|i: int| 0 <= i < init.len() implies Self::modelled(
                #[trigger] init[i],
            ) by {
                assert(init[i] == items[i]);
            }
            Self::lemma_items_modelled(init);
            assert(Self::modelled(items[items.len() - 1]));
            Self::lemma_modelled_is_bare(items.last());
            let before = Self::decode_items_spec(init)->0;
            let now = Self::decode_items_spec(items)->0;
            assert forall|i: int| 0 <= i < now.len() implies Self::bare(#[trigger] now[i]) by {
                if i < before.len() {
                    assert(now[i] == before[i]);
                }
            }
        }
    }
}

} // verus!
