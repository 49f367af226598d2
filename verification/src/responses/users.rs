//! Users.

use crate::json::{
    first_with_key, items_view, lemma_array_view, lemma_object_view, members_view, Json, JsonView,
    Members,
};
use crate::object::{
    absent, absent_json, bool_of, bool_spec, foreign, keys_of, lemma_object_reads,
    lemma_object_rest, lemma_rest_is_foreign, lemma_rest_known, optional, present, put_all,
    put_next, required, rest, rest_spec, text_of, text_spec, time_of, time_spec, written, Entry,
};
use crate::responses::withheld::{Withheld, WithheldView};
use crate::text::{texts};
use crate::time::is_timestamp;
use vstd::prelude::*;

verus! {

/// A user. Members that the type does not name are kept in `extra`, in the
/// order in which the JSON value that was read holds them; for a value read
/// from text that is the order in which the reader hands them over.
#[derive(Debug, Clone, Default)]
pub struct Users {
    pub id: String,
    pub name: String,
    pub username: String,
    pub created_at: Option<String>,
    pub description: Option<String>,
    pub entities: Option<Json>,
    pub location: Option<String>,
    pub pinned_tweet_id: Option<String>,
    pub profile_image_url: Option<String>,
    pub protected: Option<bool>,
    pub public_metrics: Option<Json>,
    pub url: Option<String>,
    pub verified: Option<bool>,
    pub withheld: Option<Withheld>,
    pub extra: Vec<(String, Json)>,
}

/// An [`Users`] as mathematical values.
pub struct UsersView {
    pub id: Seq<char>,
    pub name: Seq<char>,
    pub username: Seq<char>,
    pub created_at: Option<Seq<char>>,
    pub description: Option<Seq<char>>,
    pub entities: Option<JsonView>,
    pub location: Option<Seq<char>>,
    pub pinned_tweet_id: Option<Seq<char>>,
    pub profile_image_url: Option<Seq<char>>,
    pub protected: Option<bool>,
    pub public_metrics: Option<JsonView>,
    pub url: Option<Seq<char>>,
    pub verified: Option<bool>,
    pub withheld: Option<WithheldView>,
    pub extra: Members,
}

impl View for Users {
    type V = UsersView;

    open spec fn view(&self) -> UsersView {
        UsersView {
            id: self.id@,
            name: self.name@,
            username: self.username@,
            created_at: self.created_at.deep_view(),
            description: self.description.deep_view(),
            entities: match self.entities {
                Some(value) => Some(value@),
                None => None,
            },
            location: self.location.deep_view(),
            pinned_tweet_id: self.pinned_tweet_id.deep_view(),
            profile_image_url: self.profile_image_url.deep_view(),
            protected: self.protected,
            public_metrics: match self.public_metrics {
                Some(value) => Some(value@),
                None => None,
            },
            url: self.url.deep_view(),
            verified: self.verified,
            withheld: match self.withheld {
                Some(value) => Some(value@),
                None => None,
            },
            extra: members_view(self.extra@),
        }
    }
}

impl Users {
    /// The keys of the members that the type names, in the order in
    /// which they are written.
    pub open spec fn keys() -> Seq<Seq<char>> {
        seq![
            "id"@,
            "name"@,
            "username"@,
            "created_at"@,
            "description"@,
            "entities"@,
            "location"@,
            "pinned_tweet_id"@,
            "profile_image_url"@,
            "protected"@,
            "public_metrics"@,
            "url"@,
            "verified"@,
            "withheld"@,
        ]
    }

    /// The members that the type names, each with the JSON value that
    /// stands for it; `null` stands for no value.
    pub open spec fn entries(x: UsersView) -> Seq<Entry> {
        seq![
            (
                "id"@,
                Some(JsonView::Text(x.id)),
            ),
            (
                "name"@,
                Some(JsonView::Text(x.name)),
            ),
            (
                "username"@,
                Some(JsonView::Text(x.username)),
            ),
            (
                "created_at"@,
                match x.created_at {
                    Some(text) => Some(JsonView::Text(text)),
                    None => absent(false),
                },
            ),
            (
                "description"@,
                match x.description {
                    Some(text) => Some(JsonView::Text(text)),
                    None => absent(false),
                },
            ),
            (
                "entities"@,
                match x.entities {
                    Some(value) => Some(value),
                    None => absent(false),
                },
            ),
            (
                "location"@,
                match x.location {
                    Some(text) => Some(JsonView::Text(text)),
                    None => absent(false),
                },
            ),
            (
                "pinned_tweet_id"@,
                match x.pinned_tweet_id {
                    Some(text) => Some(JsonView::Text(text)),
                    None => absent(false),
                },
            ),
            (
                "profile_image_url"@,
                match x.profile_image_url {
                    Some(text) => Some(JsonView::Text(text)),
                    None => absent(false),
                },
            ),
            (
                "protected"@,
                match x.protected {
                    Some(b) => Some(JsonView::Bool(b)),
                    None => absent(false),
                },
            ),
            (
                "public_metrics"@,
                match x.public_metrics {
                    Some(value) => Some(value),
                    None => absent(false),
                },
            ),
            (
                "url"@,
                match x.url {
                    Some(text) => Some(JsonView::Text(text)),
                    None => absent(false),
                },
            ),
            (
                "verified"@,
                match x.verified {
                    Some(b) => Some(JsonView::Bool(b)),
                    None => absent(false),
                },
            ),
            (
                "withheld"@,
                match x.withheld {
                    Some(value) => Some(Withheld::encode_spec(value)),
                    None => absent(false),
                },
            ),
        ]
    }

    /// The JSON object that stands for the value: the named members,
    /// then the others as they are.
    pub open spec fn encode_spec(x: UsersView) -> JsonView {
        JsonView::Object(written(Self::entries(x)) + x.extra)
    }

    /// The value that a JSON value stands for: the JSON value must be an
    /// object, each named member must read well, and every other member
    /// is kept.
    pub open spec fn decode_spec(value: JsonView) -> Option<UsersView> {
        match value {
            JsonView::Object(members) => {
                let id = required(
                    first_with_key(members, "id"@),
                    text_spec(first_with_key(members, "id"@)->0),
                );
                let name = required(
                    first_with_key(members, "name"@),
                    text_spec(first_with_key(members, "name"@)->0),
                );
                let username = required(
                    first_with_key(members, "username"@),
                    text_spec(first_with_key(members, "username"@)->0),
                );
                let created_at = optional(
                    first_with_key(members, "created_at"@),
                    time_spec(first_with_key(members, "created_at"@)->0),
                );
                let description = optional(
                    first_with_key(members, "description"@),
                    text_spec(first_with_key(members, "description"@)->0),
                );
                let entities = optional(
                    first_with_key(members, "entities"@),
                    Some(first_with_key(members, "entities"@)->0),
                );
                let location = optional(
                    first_with_key(members, "location"@),
                    text_spec(first_with_key(members, "location"@)->0),
                );
                let pinned_tweet_id = optional(
                    first_with_key(members, "pinned_tweet_id"@),
                    text_spec(first_with_key(members, "pinned_tweet_id"@)->0),
                );
                let profile_image_url = optional(
                    first_with_key(members, "profile_image_url"@),
                    text_spec(first_with_key(members, "profile_image_url"@)->0),
                );
                let protected = optional(
                    first_with_key(members, "protected"@),
                    bool_spec(first_with_key(members, "protected"@)->0),
                );
                let public_metrics = optional(
                    first_with_key(members, "public_metrics"@),
                    Some(first_with_key(members, "public_metrics"@)->0),
                );
                let url = optional(
                    first_with_key(members, "url"@),
                    text_spec(first_with_key(members, "url"@)->0),
                );
                let verified = optional(
                    first_with_key(members, "verified"@),
                    bool_spec(first_with_key(members, "verified"@)->0),
                );
                let withheld = optional(
                    first_with_key(members, "withheld"@),
                    Withheld::decode_spec(first_with_key(members, "withheld"@)->0),
                );
                if id is Some && name is Some && username is Some && created_at is Some
                    && description is Some && entities is Some && location is Some
                    && pinned_tweet_id is Some && profile_image_url is Some && protected is Some
                    && public_metrics is Some && url is Some && verified is Some
                    && withheld is Some {
                    Some(
                        UsersView {
                            id: id->0,
                            name: name->0,
                            username: username->0,
                            created_at: created_at->0,
                            description: description->0,
                            entities: entities->0,
                            location: location->0,
                            pinned_tweet_id: pinned_tweet_id->0,
                            profile_image_url: profile_image_url->0,
                            protected: protected->0,
                            public_metrics: public_metrics->0,
                            url: url->0,
                            verified: verified->0,
                            withheld: withheld->0,
                            extra: rest_spec(members, Self::keys()),
                        },
                    )
                } else {
                    None
                }
            },
            _ => None,
        }
    }

    /// Whether the value can be told from what is written for it: no member
    /// kept beside the named ones has the key of a named one, no member that is
    /// a JSON value of any kind holds `null`, a time is a timestamp, and the
    /// same holds of the typed values inside.
    pub open spec fn wf(x: UsersView) -> bool {
        &&& foreign(x.extra, Self::keys())
        &&& x.created_at matches Some(text) ==> is_timestamp(text)
        &&& x.entities != Some(JsonView::Null)
        &&& x.public_metrics != Some(JsonView::Null)
        &&& x.withheld matches Some(value) ==> Withheld::wf(value)
    }

    /// The views of a list of values.
    pub open spec fn views(items: Seq<Users>) -> Seq<UsersView> {
        Seq::new(items.len(), |i: int| items[i]@)
    }

    /// The JSON objects that stand for the values.
    pub open spec fn encode_all_spec(list: Seq<UsersView>) -> Seq<JsonView> {
        list.map_values(|x: UsersView| Self::encode_spec(x))
    }

    /// The values that the JSON values stand for, where each stands for
    /// one.
    pub open spec fn decode_items_spec(items: Seq<JsonView>) -> Option<Seq<UsersView>>
        decreases items.len(),
    {
        if items.len() == 0 {
            Some(Seq::empty())
        } else {
            match (Self::decode_items_spec(items.drop_last()), Self::decode_spec(items.last())) {
                (Some(init), Some(last)) => Some(init.push(last)),
                _ => None,
            }
        }
    }

    /// The values that a JSON array stands for.
    pub open spec fn decode_all_spec(value: JsonView) -> Option<Seq<UsersView>> {
        match value {
            JsonView::Array(items) => Self::decode_items_spec(items),
            _ => None,
        }
    }

    /// Whether each value of the list can be told from what is written
    /// for it.
    pub open spec fn all_wf(list: Seq<UsersView>) -> bool {
        forall|i: int| 0 <= i < list.len() ==> Self::wf(#[trigger] list[i])
    }
}

impl Users {
    /// The keys of the members that the type names.
    pub fn known() -> (keys: Vec<&'static str>)
        ensures
            texts(keys@) == Self::keys(),
    {
        let mut keys: Vec<&'static str> = Vec::new();
        keys.push("id");
        keys.push("name");
        keys.push("username");
        keys.push("created_at");
        keys.push("description");
        keys.push("entities");
        keys.push("location");
        keys.push("pinned_tweet_id");
        keys.push("profile_image_url");
        keys.push("protected");
        keys.push("public_metrics");
        keys.push("url");
        keys.push("verified");
        keys.push("withheld");
        assert(texts(keys@) =~= Self::keys());
        keys
    }

    /// Reads the value that a JSON value stands for: each named member is
    /// looked up, a missing member and `null` count as no value, and every
    /// member that is not named is kept in `extra`. `None` where the JSON
    /// value is no object or a named member holds a value of another
    /// kind, or a member that every value has is missing.
    pub fn from_json(source: &Json) -> (out: Option<Self>)
        ensures
            match out {
                Some(x) => Self::decode_spec(source@) == Some(x@),
                None => Self::decode_spec(source@) is None,
            },
    {
        let members = match source {
            Json::Object(members) => members,
            _ => {
                return None;
            },
        };
        proof {
            lemma_object_view(*source);
        }
        let id: String = match source.member("id") {
            Some(member) => match text_of(member) {
                Some(read) => read,
                None => {
                    return None;
                },
            },
            None => {
                return None;
            },
        };
        let name: String = match source.member("name") {
            Some(member) => match text_of(member) {
                Some(read) => read,
                None => {
                    return None;
                },
            },
            None => {
                return None;
            },
        };
        let username: String = match source.member("username") {
            Some(member) => match text_of(member) {
                Some(read) => read,
                None => {
                    return None;
                },
            },
            None => {
                return None;
            },
        };
        let created_at: Option<String> = match present(source.member("created_at")) {
            Some(member) => match time_of(member) {
                Some(read) => Some(read),
                None => {
                    return None;
                },
            },
            None => None,
        };
        let description: Option<String> = match present(source.member("description")) {
            Some(member) => match text_of(member) {
                Some(read) => Some(read),
                None => {
                    return None;
                },
            },
            None => None,
        };
        let entities: Option<Json> = match present(source.member("entities")) {
            Some(member) => match Some(member.clone()) {
                Some(read) => Some(read),
                None => {
                    return None;
                },
            },
            None => None,
        };
        let location: Option<String> = match present(source.member("location")) {
            Some(member) => match text_of(member) {
                Some(read) => Some(read),
                None => {
                    return None;
                },
            },
            None => None,
        };
        let pinned_tweet_id: Option<String> = match present(source.member("pinned_tweet_id")) {
            Some(member) => match text_of(member) {
                Some(read) => Some(read),
                None => {
                    return None;
                },
            },
            None => None,
        };
        let profile_image_url: Option<String> = match present(source.member("profile_image_url")) {
            Some(member) => match text_of(member) {
                Some(read) => Some(read),
                None => {
                    return None;
                },
            },
            None => None,
        };
        let protected: Option<bool> = match present(source.member("protected")) {
            Some(member) => match bool_of(member) {
                Some(read) => Some(read),
                None => {
                    return None;
                },
            },
            None => None,
        };
        let public_metrics: Option<Json> = match present(source.member("public_metrics")) {
            Some(member) => match Some(member.clone()) {
                Some(read) => Some(read),
                None => {
                    return None;
                },
            },
            None => None,
        };
        let url: Option<String> = match present(source.member("url")) {
            Some(member) => match text_of(member) {
                Some(read) => Some(read),
                None => {
                    return None;
                },
            },
            None => None,
        };
        let verified: Option<bool> = match present(source.member("verified")) {
            Some(member) => match bool_of(member) {
                Some(read) => Some(read),
                None => {
                    return None;
                },
            },
            None => None,
        };
        let withheld: Option<Withheld> = match present(source.member("withheld")) {
            Some(member) => match Withheld::from_json(member) {
                Some(read) => Some(read),
                None => {
                    return None;
                },
            },
            None => None,
        };
        let known = Self::known();
        let extra = rest(members, &known);
        let out = Users {
            id,
            name,
            username,
            created_at,
            description,
            entities,
            location,
            pinned_tweet_id,
            profile_image_url,
            protected,
            public_metrics,
            url,
            verified,
            withheld,
            extra,
        };
        assert(Self::decode_spec(source@) == Some(out@));
        Some(out)
    }

    /// Writes the JSON object that stands for the value: the named
    /// members in their order, `null` for a member without a value,
    /// then the members of `extra` as they are.
    pub fn to_json(&self) -> (value: Json)
        ensures
            value@ == Self::encode_spec(self@),
    {
        let mut members: Vec<(String, Json)> = Vec::new();
        let ghost all = Self::entries(self@);
        assert(members_view(members@) =~= written(all.take(0)));
        let id = Some(Json::Text((&self.id).clone()));
        put_next(&mut members, "id", id, Ghost(all), Ghost(0));
        let name = Some(Json::Text((&self.name).clone()));
        put_next(&mut members, "name", name, Ghost(all), Ghost(1));
        let username = Some(Json::Text((&self.username).clone()));
        put_next(&mut members, "username", username, Ghost(all), Ghost(2));
        let created_at = match &self.created_at {
            Some(inner) => Some(Json::Text(inner.clone())),
            None => absent_json(false),
        };
        put_next(&mut members, "created_at", created_at, Ghost(all), Ghost(3));
        let description = match &self.description {
            Some(inner) => Some(Json::Text(inner.clone())),
            None => absent_json(false),
        };
        put_next(&mut members, "description", description, Ghost(all), Ghost(4));
        let entities = match &self.entities {
            Some(inner) => Some(inner.clone()),
            None => absent_json(false),
        };
        put_next(&mut members, "entities", entities, Ghost(all), Ghost(5));
        let location = match &self.location {
            Some(inner) => Some(Json::Text(inner.clone())),
            None => absent_json(false),
        };
        put_next(&mut members, "location", location, Ghost(all), Ghost(6));
        let pinned_tweet_id = match &self.pinned_tweet_id {
            Some(inner) => Some(Json::Text(inner.clone())),
            None => absent_json(false),
        };
        put_next(&mut members, "pinned_tweet_id", pinned_tweet_id, Ghost(all), Ghost(7));
        let profile_image_url = match &self.profile_image_url {
            Some(inner) => Some(Json::Text(inner.clone())),
            None => absent_json(false),
        };
        put_next(&mut members, "profile_image_url", profile_image_url, Ghost(all), Ghost(8));
        let protected = match &self.protected {
            Some(inner) => Some(Json::Bool(*inner)),
            None => absent_json(false),
        };
        put_next(&mut members, "protected", protected, Ghost(all), Ghost(9));
        let public_metrics = match &self.public_metrics {
            Some(inner) => Some(inner.clone()),
            None => absent_json(false),
        };
        put_next(&mut members, "public_metrics", public_metrics, Ghost(all), Ghost(10));
        let url = match &self.url {
            Some(inner) => Some(Json::Text(inner.clone())),
            None => absent_json(false),
        };
        put_next(&mut members, "url", url, Ghost(all), Ghost(11));
        let verified = match &self.verified {
            Some(inner) => Some(Json::Bool(*inner)),
            None => absent_json(false),
        };
        put_next(&mut members, "verified", verified, Ghost(all), Ghost(12));
        let withheld = match &self.withheld {
            Some(inner) => Some(inner.to_json()),
            None => absent_json(false),
        };
        put_next(&mut members, "withheld", withheld, Ghost(all), Ghost(13));
        assert(all.take(14) == all);
        put_all(&mut members, &self.extra);
        let value = Json::Object(members);
        proof {
            lemma_object_view(value);
        }
        value
    }

    /// Reads the values that a JSON array stands for; `None` where the
    /// JSON value is no array or an item stands for no value.
    pub fn all_from_json(value: &Json) -> (out: Option<Vec<Self>>)
        ensures
            match out {
                Some(list) => Self::decode_all_spec(value@) == Some(Self::views(list@)),
                None => Self::decode_all_spec(value@) is None,
            },
    {
        let items = match value.items() {
            Some(items) => items,
            None => {
                return None;
            },
        };
        let ghost all = items_view(items@);
        let mut list: Vec<Self> = Vec::new();
        let mut i: usize = 0;
        assert(all.take(0) =~= Seq::empty());
        assert(Self::views(list@) =~= Seq::empty());
        while i < items.len()
            invariant
                i <= items.len(),
                all == items_view(items@),
                value@ == JsonView::Array(all),
                Self::decode_items_spec(all.take(i as int)) == Some(Self::views(list@)),
            decreases items.len() - i,
        {
            let ghost before = Self::views(list@);
            assert(all.take(i + 1).drop_last() == all.take(i as int));
            assert(all.take(i + 1).last() == all[i as int]);
            match Self::from_json(&items[i]) {
                Some(item) => {
                    let ghost view = item@;
                    list.push(item);
                    assert(Self::views(list@) =~= before.push(view));
                },
                None => {
                    proof {
                        Self::lemma_items_fail(all, i as int);
                    }
                    return None;
                },
            }
            i += 1;
        }
        assert(all.take(i as int) == all);
        Some(list)
    }

    /// Writes the JSON array that stands for the values.
    pub fn all_to_json(list: &Vec<Self>) -> (value: Json)
        ensures
            value@ == JsonView::Array(Self::encode_all_spec(Self::views(list@))),
    {
        let ghost all = Self::encode_all_spec(Self::views(list@));
        let mut items: Vec<Json> = Vec::new();
        let mut i: usize = 0;
        while i < list.len()
            invariant
                i <= list.len(),
                all == Self::encode_all_spec(Self::views(list@)),
                items_view(items@) == all.take(i as int),
            decreases list.len() - i,
        {
            let ghost before = items_view(items@);
            let item = list[i].to_json();
            let ghost view = item@;
            items.push(item);
            assert(items_view(items@) =~= before.push(view));
            assert(all.take(i + 1) =~= all.take(i as int).push(all[i as int]));
            i += 1;
        }
        assert(all.take(i as int) == all);
        let value = Json::Array(items);
        proof {
            lemma_array_view(value);
        }
        value
    }
}

impl Users {
    /// The entries have the keys of the type, and no key twice.
    pub proof fn lemma_keys(x: UsersView)
        ensures
            keys_of(Self::entries(x)) == Self::keys(),
            Self::keys().no_duplicates(),
    {
        reveal_strlit("id");
        assert("id"@.len() == 2 && "id"@[0] == 'i');
        reveal_strlit("name");
        assert("name"@.len() == 4 && "name"@[0] == 'n');
        reveal_strlit("username");
        assert("username"@.len() == 8 && "username"@[0] == 'u');
        reveal_strlit("created_at");
        assert("created_at"@.len() == 10 && "created_at"@[0] == 'c');
        reveal_strlit("description");
        assert("description"@.len() == 11 && "description"@[0] == 'd');
        reveal_strlit("entities");
        assert("entities"@.len() == 8 && "entities"@[0] == 'e');
        reveal_strlit("location");
        assert("location"@.len() == 8 && "location"@[0] == 'l');
        reveal_strlit("pinned_tweet_id");
        assert("pinned_tweet_id"@.len() == 15 && "pinned_tweet_id"@[0] == 'p');
        reveal_strlit("profile_image_url");
        assert("profile_image_url"@.len() == 17 && "profile_image_url"@[0] == 'p');
        reveal_strlit("protected");
        assert("protected"@.len() == 9 && "protected"@[0] == 'p');
        reveal_strlit("public_metrics");
        assert("public_metrics"@.len() == 14 && "public_metrics"@[0] == 'p');
        reveal_strlit("url");
        assert("url"@.len() == 3 && "url"@[0] == 'u');
        reveal_strlit("verified");
        assert("verified"@.len() == 8 && "verified"@[0] == 'v');
        reveal_strlit("withheld");
        assert("withheld"@.len() == 8 && "withheld"@[0] == 'w');
        assert(keys_of(Self::entries(x)) =~= Self::keys());
    }

    /// Round trip: reading what was written for a value gives the value
    /// back, the members kept beside the named ones included.
    pub proof fn lemma_round_trip(x: UsersView)
        requires
            Self::wf(x),
        ensures
            Self::decode_spec(Self::encode_spec(x)) == Some(x),
    {
        Self::lemma_keys(x);
        let entries = Self::entries(x);
        lemma_object_rest(entries, x.extra);
        lemma_object_reads(entries, x.extra, 0);
        lemma_object_reads(entries, x.extra, 1);
        lemma_object_reads(entries, x.extra, 2);
        lemma_object_reads(entries, x.extra, 3);
        lemma_object_reads(entries, x.extra, 4);
        lemma_object_reads(entries, x.extra, 5);
        lemma_object_reads(entries, x.extra, 6);
        lemma_object_reads(entries, x.extra, 7);
        lemma_object_reads(entries, x.extra, 8);
        lemma_object_reads(entries, x.extra, 9);
        lemma_object_reads(entries, x.extra, 10);
        lemma_object_reads(entries, x.extra, 11);
        lemma_object_reads(entries, x.extra, 12);
        lemma_object_reads(entries, x.extra, 13);
        if x.withheld is Some {
            Withheld::lemma_round_trip(x.withheld->0);
        }
        let back = Self::decode_spec(Self::encode_spec(x));
        assert(back is Some);
        assert(back->0.extra == x.extra);
        assert(back->0 == x);
    }

    /// What is read keeps every member that the type does not name, and
    /// what is written for it holds those members again, unchanged and in
    /// their order.
    pub proof fn lemma_extra_kept(members: Members)
        requires
            Self::decode_spec(JsonView::Object(members)) is Some,
        ensures
            ({
                let x = Self::decode_spec(JsonView::Object(members))->0;
                &&& x.extra == rest_spec(members, Self::keys())
                &&& foreign(x.extra, Self::keys())
                &&& Self::encode_spec(x) is Object
                &&& rest_spec(Self::encode_spec(x)->Object_0, Self::keys()) == x.extra
            }),
    {
        let x = Self::decode_spec(JsonView::Object(members))->0;
        Self::lemma_keys(x);
        lemma_rest_is_foreign(members, Self::keys());
        lemma_object_rest(Self::entries(x), x.extra);
    }

    /// A list with an item that stands for no value stands for no list.
    pub proof fn lemma_items_fail(items: Seq<JsonView>, k: int)
        requires
            0 <= k < items.len(),
            Self::decode_spec(items[k]) is None,
        ensures
            Self::decode_items_spec(items) is None,
        decreases items.len(),
    {
        if k < items.len() - 1 {
            Self::lemma_items_fail(items.drop_last(), k);
        }
    }

    /// Round trip of a list: reading what was written for the values
    /// gives the values back.
    pub proof fn lemma_round_trip_all(list: Seq<UsersView>)
        requires
            Self::all_wf(list),
        ensures
            Self::decode_all_spec(JsonView::Array(Self::encode_all_spec(list))) == Some(list),
        decreases list.len(),
    {
        let items = Self::encode_all_spec(list);
        if list.len() == 0 {
            assert(list =~= Seq::empty());
        } else {
            let init = list.drop_last();
            assert(Self::all_wf(init)) by {
                assert forall|i: int| 0 <= i < init.len() implies Self::wf(#[trigger] init[i]) by {
                    assert(init[i] == list[i]);
                }
            }
            Self::lemma_round_trip_all(init);
            assert(Self::wf(list[list.len() - 1]));
            Self::lemma_round_trip(list.last());
            assert(items.drop_last() =~= Self::encode_all_spec(init));
            assert(init.push(list.last()) =~= list);
        }
    }
}

impl Users {
    /// Whether the value, and every value in it that can tell, holds no
    /// member that its type does not name.
    pub open spec fn no_extra(&self) -> bool {
        self.extra@.len() == 0
    }

    /// Whether the value, and every value in it that can tell, holds no
    /// member that its type does not name.
    pub fn is_empty_extra(&self) -> (res: bool)
        ensures
            res == self.no_extra(),
    {
        self.extra.len() == 0
    }
}

impl Users {
    /// [`Self::no_extra`], said of the mathematical value.
    pub open spec fn bare(x: UsersView) -> bool {
        x.extra.len() == 0
    }

    /// Whether the JSON value is an object in which every member has a
    /// key that the type names.
    pub open spec fn modelled(value: JsonView) -> bool {
        match value {
            JsonView::Object(members) => {
                &&& forall|i: int|
                    0 <= i < members.len() ==> Self::keys().contains((#[trigger] members[i]).0)
            },
            _ => false,
        }
    }

    /// [`Self::bare`] of each value of a list.
    pub open spec fn all_bare(list: Seq<UsersView>) -> bool {
        forall|i: int| 0 <= i < list.len() ==> Self::bare(#[trigger] list[i])
    }

    /// Whether the JSON value is an array of which each item is
    /// [`Self::modelled`].
    pub open spec fn all_modelled(value: JsonView) -> bool {
        match value {
            JsonView::Array(items) => forall|i: int|
                0 <= i < items.len() ==> Self::modelled(#[trigger] items[i]),
            _ => false,
        }
    }

    /// [`Self::no_extra`] holds of a value exactly if [`Self::bare`] holds
    /// of its view.
    pub proof fn lemma_no_extra(&self)
        ensures
            self.no_extra() == Self::bare(self@),
    {
    }

    /// A value read from an object that holds no member beside those
    /// that the types name, at any level looked into, holds no extras.
    pub proof fn lemma_modelled_is_bare(value: JsonView)
        requires
            Self::modelled(value),
            Self::decode_spec(value) is Some,
        ensures
            Self::bare(Self::decode_spec(value)->0),
    {
        let members = value->Object_0;
        lemma_rest_known(members, Self::keys());
    }

    /// Read from an object that holds no member beside those that the
    /// types name, at any level looked into, a value has no extras to
    /// tell of.
    pub proof fn lemma_read_has_no_extra(&self, source: JsonView)
        requires
            Self::modelled(source),
            Self::decode_spec(source) == Some(self@),
        ensures
            self.no_extra(),
    {
        Self::lemma_modelled_is_bare(source);
        self.lemma_no_extra();
    }

    /// The values read from an array of objects that hold no member
    /// beside those that the type names hold no extras.
    pub proof fn lemma_all_modelled(value: JsonView)
        requires
            Self::all_modelled(value),
            Self::decode_all_spec(value) is Some,
        ensures
            Self::all_bare(Self::decode_all_spec(value)->0),
    {
        Self::lemma_items_modelled(value->Array_0);
    }

    proof fn lemma_items_modelled(items: Seq<JsonView>)
        requires
            forall|i: int| 0 <= i < items.len() ==> Self::modelled(#[trigger] items[i]),
            Self::decode_items_spec(items) is Some,
        ensures
            Self::all_bare(Self::decode_items_spec(items)->0),
        decreases items.len(),
    {
        if items.len() > 0 {
            let init = items.drop_last();
            assert forall|i: int| 0 <= i < init.len() implies Self::modelled(
                #[trigger] init[i],
            ) by {
                assert(init[i] == items[i]);
            }
            Self::lemma_items_modelled(init);
            assert(Self::modelled(items[items.len() - 1]));
            Self::lemma_modelled_is_bare(items.last());
            let before = Self::decode_items_spec(init)->0;
            let now = Self::decode_items_spec(items)->0;
            assert forall|i: int| 0 <= i < now.len() implies Self::bare(#[trigger] now[i]) by {
                if i < before.len() {
                    assert(now[i] == before[i]);
                }
            }
        }
    }
}

} // verus!
