//! Tweets.

use crate::json::{
    first_with_key, items_view, lemma_array_view, lemma_object_view, members_view, Json, JsonView,
    Members,
};
use crate::object::{
    absent, absent_json, bool_of, bool_spec, foreign, keys_of, lemma_object_reads,
    lemma_object_rest, lemma_rest_is_foreign, lemma_texts_round_trip, optional, present, put_all,
    put_next, required, rest, rest_spec, text_of, text_spec, texts_json, texts_of, texts_spec,
    texts_to_json, time_of, time_spec, written, Entry,
};
use crate::text::{texts};
use crate::time::is_timestamp;
use vstd::prelude::*;

verus! {

/// A tweet. Members that the type does not name are kept in `extra`, in the
/// order in which the JSON value that was read holds them; for a value read
/// from text that is the order in which the reader hands them over.
#[derive(Debug, Clone, Default)]
pub struct Tweets {
    pub attachments: Option<Json>,
    pub author_id: Option<String>,
    pub context_annotations: Option<Json>,
    pub conversation_id: Option<String>,
    pub created_at: Option<String>,
    pub edit_controls: Option<Json>,
    pub edit_history_tweet_ids: Vec<String>,
    pub entities: Option<Json>,
    pub geo: Option<Json>,
    pub id: String,
    pub in_reply_to_user_id: Option<String>,
    pub lang: Option<String>,
    pub possibly_sensitive: Option<bool>,
    pub public_metrics: Option<Json>,
    pub reply_settings: Option<String>,
    pub referenced_tweets: Option<Json>,
    pub text: String,
    pub extra: Vec<(String, Json)>,
}

/// A [`Tweets`] as mathematical values.
pub struct TweetsView {
    pub attachments: Option<JsonView>,
    pub author_id: Option<Seq<char>>,
    pub context_annotations: Option<JsonView>,
    pub conversation_id: Option<Seq<char>>,
    pub created_at: Option<Seq<char>>,
    pub edit_controls: Option<JsonView>,
    pub edit_history_tweet_ids: Seq<Seq<char>>,
    pub entities: Option<JsonView>,
    pub geo: Option<JsonView>,
    pub id: Seq<char>,
    pub in_reply_to_user_id: Option<Seq<char>>,
    pub lang: Option<Seq<char>>,
    pub possibly_sensitive: Option<bool>,
    pub public_metrics: Option<JsonView>,
    pub reply_settings: Option<Seq<char>>,
    pub referenced_tweets: Option<JsonView>,
    pub text: Seq<char>,
    pub extra: Members,
}

impl View for Tweets {
    type V = TweetsView;

    open spec fn view(&self) -> TweetsView {
        TweetsView {
            attachments: match self.attachments {
                Some(value) => Some(value@),
                None => None,
            },
            author_id: self.author_id.deep_view(),
            context_annotations: match self.context_annotations {
                Some(value) => Some(value@),
                None => None,
            },
            conversation_id: self.conversation_id.deep_view(),
            created_at: self.created_at.deep_view(),
            edit_controls: match self.edit_controls {
                Some(value) => Some(value@),
                None => None,
            },
            edit_history_tweet_ids: self.edit_history_tweet_ids.deep_view(),
            entities: match self.entities {
                Some(value) => Some(value@),
                None => None,
            },
            geo: match self.geo {
                Some(value) => Some(value@),
                None => None,
            },
            id: self.id@,
            in_reply_to_user_id: self.in_reply_to_user_id.deep_view(),
            lang: self.lang.deep_view(),
            possibly_sensitive: self.possibly_sensitive,
            public_metrics: match self.public_metrics {
                Some(value) => Some(value@),
                None => None,
            },
            reply_settings: self.reply_settings.deep_view(),
            referenced_tweets: match self.referenced_tweets {
                Some(value) => Some(value@),
                None => None,
            },
            text: self.text@,
            extra: members_view(self.extra@),
        }
    }
}

impl Tweets {
    /// The keys of the members that the type names, in the order in
    /// which they are written.
    pub open spec fn keys() -> Seq<Seq<char>> {
        seq![
            "attachments"@,
            "author_id"@,
            "context_annotations"@,
            "conversation_id"@,
            "created_at"@,
            "edit_controls"@,
            "edit_history_tweet_ids"@,
            "entities"@,
            "geo"@,
            "id"@,
            "in_reply_to_user_id"@,
            "lang"@,
            "possibly_sensitive"@,
            "public_metrics"@,
            "reply_settings"@,
            "referenced_tweets"@,
            "text"@,
        ]
    }

    /// The members that the type names, each with the JSON value that
    /// stands for it; `null` stands for no value.
    pub open spec fn entries(x: TweetsView) -> Seq<Entry> {
        seq![
            (
                "attachments"@,
                match x.attachments {
                    Some(value) => Some(value),
                    None => absent(false),
                },
            ),
            (
                "author_id"@,
                match x.author_id {
                    Some(text) => Some(JsonView::Text(text)),
                    None => absent(false),
                },
            ),
            (
                "context_annotations"@,
                match x.context_annotations {
                    Some(value) => Some(value),
                    None => absent(false),
                },
            ),
            (
                "conversation_id"@,
                match x.conversation_id {
                    Some(text) => Some(JsonView::Text(text)),
                    None => absent(false),
                },
            ),
            (
                "created_at"@,
                match x.created_at {
                    Some(text) => Some(JsonView::Text(text)),
                    None => absent(false),
                },
            ),
            (
                "edit_controls"@,
                match x.edit_controls {
                    Some(value) => Some(value),
                    None => absent(false),
                },
            ),
            (
                "edit_history_tweet_ids"@,
                Some(texts_json(x.edit_history_tweet_ids)),
            ),
            (
                "entities"@,
                match x.entities {
                    Some(value) => Some(value),
                    None => absent(false),
                },
            ),
            (
                "geo"@,
                match x.geo {
                    Some(value) => Some(value),
                    None => absent(false),
                },
            ),
            (
                "id"@,
                Some(JsonView::Text(x.id)),
            ),
            (
                "in_reply_to_user_id"@,
                match x.in_reply_to_user_id {
                    Some(text) => Some(JsonView::Text(text)),
                    None => absent(false),
                },
            ),
            (
                "lang"@,
                match x.lang {
                    Some(text) => Some(JsonView::Text(text)),
                    None => absent(false),
                },
            ),
            (
                "possibly_sensitive"@,
                match x.possibly_sensitive {
                    Some(b) => Some(JsonView::Bool(b)),
                    None => absent(false),
                },
            ),
            (
                "public_metrics"@,
                match x.public_metrics {
                    Some(value) => Some(value),
                    None => absent(false),
                },
            ),
            (
                "reply_settings"@,
                match x.reply_settings {
                    Some(text) => Some(JsonView::Text(text)),
                    None => absent(false),
                },
            ),
            (
                "referenced_tweets"@,
                match x.referenced_tweets {
                    Some(value) => Some(value),
                    None => absent(false),
                },
            ),
            (
                "text"@,
                Some(JsonView::Text(x.text)),
            ),
        ]
    }

    /// The JSON object that stands for the value: the named members,
    /// then the others as they are.
    pub open spec fn encode_spec(x: TweetsView) -> JsonView {
        JsonView::Object(written(Self::entries(x)) + x.extra)
    }

    /// The value that a JSON value stands for: the JSON value must be an
    /// object, each named member must read well, and every other member
    /// is kept.
    pub open spec fn decode_spec(value: JsonView) -> Option<TweetsView> {
        match value {
            JsonView::Object(members) => {
                let attachments = optional(
                    first_with_key(members, "attachments"@),
                    Some(first_with_key(members, "attachments"@)->0),
                );
                let author_id = optional(
                    first_with_key(members, "author_id"@),
                    text_spec(first_with_key(members, "author_id"@)->0),
                );
                let context_annotations = optional(
                    first_with_key(members, "context_annotations"@),
                    Some(first_with_key(members, "context_annotations"@)->0),
                );
                let conversation_id = optional(
                    first_with_key(members, "conversation_id"@),
                    text_spec(first_with_key(members, "conversation_id"@)->0),
                );
                let created_at = optional(
                    first_with_key(members, "created_at"@),
                    time_spec(first_with_key(members, "created_at"@)->0),
                );
                let edit_controls = optional(
                    first_with_key(members, "edit_controls"@),
                    Some(first_with_key(members, "edit_controls"@)->0),
                );
                let edit_history_tweet_ids = required(
                    first_with_key(members, "edit_history_tweet_ids"@),
                    texts_spec(first_with_key(members, "edit_history_tweet_ids"@)->0),
                );
                let entities = optional(
                    first_with_key(members, "entities"@),
                    Some(first_with_key(members, "entities"@)->0),
                );
                let geo = optional(
                    first_with_key(members, "geo"@),
                    Some(first_with_key(members, "geo"@)->0),
                );
                let id = required(
                    first_with_key(members, "id"@),
                    text_spec(first_with_key(members, "id"@)->0),
                );
                let in_reply_to_user_id = optional(
                    first_with_key(members, "in_reply_to_user_id"@),
                    text_spec(first_with_key(members, "in_reply_to_user_id"@)->0),
                );
                let lang = optional(
                    first_with_key(members, "lang"@),
                    text_spec(first_with_key(members, "lang"@)->0),
                );
                let possibly_sensitive = optional(
                    first_with_key(members, "possibly_sensitive"@),
                    bool_spec(first_with_key(members, "possibly_sensitive"@)->0),
                );
                let public_metrics = optional(
                    first_with_key(members, "public_metrics"@),
                    Some(first_with_key(members, "public_metrics"@)->0),
                );
                let reply_settings = optional(
                    first_with_key(members, "reply_settings"@),
                    text_spec(first_with_key(members, "reply_settings"@)->0),
                );
                let referenced_tweets = optional(
                    first_with_key(members, "referenced_tweets"@),
                    Some(first_with_key(members, "referenced_tweets"@)->0),
                );
                let text = required(
                    first_with_key(members, "text"@),
                    text_spec(first_with_key(members, "text"@)->0),
                );
                if attachments is Some && author_id is Some && context_annotations is Some
                    && conversation_id is Some && created_at is Some && edit_controls is Some
                    && edit_history_tweet_ids is Some && entities is Some && geo is Some
                    && id is Some && in_reply_to_user_id is Some && lang is Some
                    && possibly_sensitive is Some && public_metrics is Some
                    && reply_settings is Some && referenced_tweets is Some && text is Some {
                    Some(
                        TweetsView {
                            attachments: attachments->0,
                            author_id: author_id->0,
                            context_annotations: context_annotations->0,
                            conversation_id: conversation_id->0,
                            created_at: created_at->0,
                            edit_controls: edit_controls->0,
                            edit_history_tweet_ids: edit_history_tweet_ids->0,
                            entities: entities->0,
                            geo: geo->0,
                            id: id->0,
                            in_reply_to_user_id: in_reply_to_user_id->0,
                            lang: lang->0,
                            possibly_sensitive: possibly_sensitive->0,
                            public_metrics: public_metrics->0,
                            reply_settings: reply_settings->0,
                            referenced_tweets: referenced_tweets->0,
                            text: text->0,
                            extra: rest_spec(members, Self::keys()),
                        },
                    )
                } else {
                    None
                }
            },
            _ => None,
        }
    }

    /// Whether the value can be told from what is written for it: no member
    /// kept beside the named ones has the key of a named one, no member that is
    /// a JSON value of any kind holds `null`, and a time is a timestamp.
    pub open spec fn wf(x: TweetsView) -> bool {
        &&& foreign(x.extra, Self::keys())
        &&& x.attachments != Some(JsonView::Null)
        &&& x.context_annotations != Some(JsonView::Null)
        &&& x.created_at matches Some(text) ==> is_timestamp(text)
        &&& x.edit_controls != Some(JsonView::Null)
        &&& x.entities != Some(JsonView::Null)
        &&& x.geo != Some(JsonView::Null)
        &&& x.public_metrics != Some(JsonView::Null)
        &&& x.referenced_tweets != Some(JsonView::Null)
    }

    /// The views of a list of values.
    pub open spec fn views(items: Seq<Tweets>) -> Seq<TweetsView> {
        Seq::new(items.len(), |i: int| items[i]@)
    }

    /// The JSON objects that stand for the values.
    pub open spec fn encode_all_spec(list: Seq<TweetsView>) -> Seq<JsonView> {
        list.map_values(|x: TweetsView| Self::encode_spec(x))
    }

    /// The values that the JSON values stand for, where each stands for
    /// one.
    pub open spec fn decode_items_spec(items: Seq<JsonView>) -> Option<Seq<TweetsView>>
        decreases items.len(),
    {
        if items.len() == 0 {
            Some(Seq::empty())
        } else {
            match (Self::decode_items_spec(items.drop_last()), Self::decode_spec(items.last())) {
                (Some(init), Some(last)) => Some(init.push(last)),
                _ => None,
            }
        }
    }

    /// The values that a JSON array stands for.
    pub open spec fn decode_all_spec(value: JsonView) -> Option<Seq<TweetsView>> {
        match value {
            JsonView::Array(items) => Self::decode_items_spec(items),
            _ => None,
        }
    }

    /// Whether each value of the list can be told from what is written
    /// for it.
    pub open spec fn all_wf(list: Seq<TweetsView>) -> bool {
        forall|i: int| 0 <= i < list.len() ==> Self::wf(#[trigger] list[i])
    }
}

impl Tweets {
    /// The keys of the members that the type names.
    pub fn known() -> (keys: Vec<&'static str>)
        ensures
            texts(keys@) == Self::keys(),
    {
        let mut keys: Vec<&'static str> = Vec::new();
        keys.push("attachments");
        keys.push("author_id");
        keys.push("context_annotations");
        keys.push("conversation_id");
        keys.push("created_at");
        keys.push("edit_controls");
        keys.push("edit_history_tweet_ids");
        keys.push("entities");
        keys.push("geo");
        keys.push("id");
        keys.push("in_reply_to_user_id");
        keys.push("lang");
        keys.push("possibly_sensitive");
        keys.push("public_metrics");
        keys.push("reply_settings");
        keys.push("referenced_tweets");
        keys.push("text");
        assert(texts(keys@) =~= Self::keys());
        keys
    }

    /// Reads the value that a JSON value stands for: each named member is
    /// looked up, a missing member and `null` count as no value, and every
    /// member that is not named is kept in `extra`. `None` where the JSON
    /// value is no object or a named member holds a value of another
    /// kind, or a member that every value has is missing.
    pub fn from_json(source: &Json) -> (out: Option<Self>)
        ensures
            match out {
                Some(x) => Self::decode_spec(source@) == Some(x@),
                None => Self::decode_spec(source@) is None,
            },
    {
        let members = match source {
            Json::Object(members) => members,
            _ => {
                return None;
            },
        };
        proof {
            lemma_object_view(*source);
        }
        let attachments: Option<Json> = match present(source.member("attachments")) {
            Some(member) => match Some(member.clone()) {
                Some(read) => Some(read),
                None => {
                    return None;
                },
            },
            None => None,
        };
        let author_id: Option<String> = match present(source.member("author_id")) {
            Some(member) => match text_of(member) {
                Some(read) => Some(read),
                None => {
                    return None;
                },
            },
            None => None,
        };
        let context_annotations: Option<Json> = match present(
            source.member("context_annotations"),
        ) {
            Some(member) => match Some(member.clone()) {
                Some(read) => Some(read),
                None => {
                    return None;
                },
            },
            None => None,
        };
        let conversation_id: Option<String> = match present(source.member("conversation_id")) {
            Some(member) => match text_of(member) {
                Some(read) => Some(read),
                None => {
                    return None;
                },
            },
            None => None,
        };
        let created_at: Option<String> = match present(source.member("created_at")) {
            Some(member) => match time_of(member) {
                Some(read) => Some(read),
                None => {
                    return None;
                },
            },
            None => None,
        };
        let edit_controls: Option<Json> = match present(source.member("edit_controls")) {
            Some(member) => match Some(member.clone()) {
                Some(read) => Some(read),
                None => {
                    return None;
                },
            },
            None => None,
        };
        let edit_history_tweet_ids: Vec<String> = match source.member("edit_history_tweet_ids") {
            Some(member) => match texts_of(member) {
                Some(read) => read,
                None => {
                    return None;
                },
            },
            None => {
                return None;
            },
        };
        let entities: Option<Json> = match present(source.member("entities")) {
            Some(member) => match Some(member.clone()) {
                Some(read) => Some(read),
                None => {
                    return None;
                },
            },
            None => None,
        };
        let geo: Option<Json> = match present(source.member("geo")) {
            Some(member) => match Some(member.clone()) {
                Some(read) => Some(read),
                None => {
                    return None;
                },
            },
            None => None,
        };
        let id: String = match source.member("id") {
            Some(member) => match text_of(member) {
                Some(read) => read,
                None => {
                    return None;
                },
            },
            None => {
                return None;
            },
        };
        let in_reply_to_user_id: Option<String> = match present(
            source.member("in_reply_to_user_id"),
        ) {
            Some(member) => match text_of(member) {
                Some(read) => Some(read),
                None => {
                    return None;
                },
            },
            None => None,
        };
        let lang: Option<String> = match present(source.member("lang")) {
            Some(member) => match text_of(member) {
                Some(read) => Some(read),
                None => {
                    return None;
                },
            },
            None => None,
        };
        let possibly_sensitive: Option<bool> = match present(source.member("possibly_sensitive")) {
            Some(member) => match bool_of(member) {
                Some(read) => Some(read),
                None => {
                    return None;
                },
            },
            None => None,
        };
        let public_metrics: Option<Json> = match present(source.member("public_metrics")) {
            Some(member) => match Some(member.clone()) {
                Some(read) => Some(read),
                None => {
                    return None;
                },
            },
            None => None,
        };
        let reply_settings: Option<String> = match present(source.member("reply_settings")) {
            Some(member) => match text_of(member) {
                Some(read) => Some(read),
                None => {
                    return None;
                },
            },
            None => None,
        };
        let referenced_tweets: Option<Json> = match present(source.member("referenced_tweets")) {
            Some(member) => match Some(member.clone()) {
                Some(read) => Some(read),
                None => {
                    return None;
                },
            },
            None => None,
        };
        let text: String = match source.member("text") {
            Some(member) => match text_of(member) {
                Some(read) => read,
                None => {
                    return None;
                },
            },
            None => {
                return None;
            },
        };
        let known = Self::known();
        let extra = rest(members, &known);
        let out = Tweets {
            attachments,
            author_id,
            context_annotations,
            conversation_id,
            created_at,
            edit_controls,
            edit_history_tweet_ids,
            entities,
            geo,
            id,
            in_reply_to_user_id,
            lang,
            possibly_sensitive,
            public_metrics,
            reply_settings,
            referenced_tweets,
            text,
            extra,
        };
        assert(Self::decode_spec(source@) == Some(out@));
        Some(out)
    }

    /// Writes the JSON object that stands for the value: the named
    /// members in their order, `null` for a member without a value,
    /// then the members of `extra` as they are.
    pub fn to_json(&self) -> (value: Json)
        ensures
            value@ == Self::encode_spec(self@),
    {
        let mut members: Vec<(String, Json)> = Vec::new();
        let ghost all = Self::entries(self@);
        assert(members_view(members@) =~= written(all.take(0)));
        let attachments = match &self.attachments {
            Some(inner) => Some(inner.clone()),
            None => absent_json(false),
        };
        put_next(&mut members, "attachments", attachments, Ghost(all), Ghost(0));
        let author_id = match &self.author_id {
            Some(inner) => Some(Json::Text(inner.clone())),
            None => absent_json(false),
        };
        put_next(&mut members, "author_id", author_id, Ghost(all), Ghost(1));
        let context_annotations = match &self.context_annotations {
            Some(inner) => Some(inner.clone()),
            None => absent_json(false),
        };
        put_next(&mut members, "context_annotations", context_annotations, Ghost(all), Ghost(2));
        let conversation_id = match &self.conversation_id {
            Some(inner) => Some(Json::Text(inner.clone())),
            None => absent_json(false),
        };
        put_next(&mut members, "conversation_id", conversation_id, Ghost(all), Ghost(3));
        let created_at = match &self.created_at {
            Some(inner) => Some(Json::Text(inner.clone())),
            None => absent_json(false),
        };
        put_next(&mut members, "created_at", created_at, Ghost(all), Ghost(4));
        let edit_controls = match &self.edit_controls {
            Some(inner) => Some(inner.clone()),
            None => absent_json(false),
        };
        put_next(&mut members, "edit_controls", edit_controls, Ghost(all), Ghost(5));
        let edit_history_tweet_ids = Some(texts_to_json((&self.edit_history_tweet_ids)));
        put_next(
            &mut members,
            "edit_history_tweet_ids",
            edit_history_tweet_ids,
            Ghost(all),
            Ghost(6),
        );
        let entities = match &self.entities {
            Some(inner) => Some(inner.clone()),
            None => absent_json(false),
        };
        put_next(&mut members, "entities", entities, Ghost(all), Ghost(7));
        let geo = match &self.geo {
            Some(inner) => Some(inner.clone()),
            None => absent_json(false),
        };
        put_next(&mut members, "geo", geo, Ghost(all), Ghost(8));
        let id = Some(Json::Text((&self.id).clone()));
        put_next(&mut members, "id", id, Ghost(all), Ghost(9));
        let in_reply_to_user_id = match &self.in_reply_to_user_id {
            Some(inner) => Some(Json::Text(inner.clone())),
            None => absent_json(false),
        };
        put_next(&mut members, "in_reply_to_user_id", in_reply_to_user_id, Ghost(all), Ghost(10));
        let lang = match &self.lang {
            Some(inner) => Some(Json::Text(inner.clone())),
            None => absent_json(false),
        };
        put_next(&mut members, "lang", lang, Ghost(all), Ghost(11));
        let possibly_sensitive = match &self.possibly_sensitive {
            Some(inner) => Some(Json::Bool(*inner)),
            None => absent_json(false),
        };
        put_next(&mut members, "possibly_sensitive", possibly_sensitive, Ghost(all), Ghost(12));
        let public_metrics = match &self.public_metrics {
            Some(inner) => Some(inner.clone()),
            None => absent_json(false),
        };
        put_next(&mut members, "public_metrics", public_metrics, Ghost(all), Ghost(13));
        let reply_settings = match &self.reply_settings {
            Some(inner) => Some(Json::Text(inner.clone())),
            None => absent_json(false),
        };
        put_next(&mut members, "reply_settings", reply_settings, Ghost(all), Ghost(14));
        let referenced_tweets = match &self.referenced_tweets {
            Some(inner) => Some(inner.clone()),
            None => absent_json(false),
        };
        put_next(&mut members, "referenced_tweets", referenced_tweets, Ghost(all), Ghost(15));
        let text = Some(Json::Text((&self.text).clone()));
        put_next(&mut members, "text", text, Ghost(all), Ghost(16));
        assert(all.take(17) == all);
        put_all(&mut members, &self.extra);
        let value = Json::Object(members);
        proof {
            lemma_object_view(value);
        }
        value
    }

    /// Reads the values that a JSON array stands for; `None` where the
    /// JSON value is no array or an item stands for no value.
    pub fn all_from_json(value: &Json) -> (out: Option<Vec<Self>>)
        ensures
            match out {
                Some(list) => Self::decode_all_spec(value@) == Some(Self::views(list@)),
                None => Self::decode_all_spec(value@) is None,
            },
    {
        let items = match value.items() {
            Some(items) => items,
            None => {
                return None;
            },
        };
        let ghost all = items_view(items@);
        let mut list: Vec<Self> = Vec::new();
        let mut i: usize = 0;
        assert(all.take(0) =~= Seq::empty());
        assert(Self::views(list@) =~= Seq::empty());
        while i < items.len()
            invariant
                i <= items.len(),
                all == items_view(items@),
                value@ == JsonView::Array(all),
                Self::decode_items_spec(all.take(i as int)) == Some(Self::views(list@)),
            decreases items.len() - i,
        {
            let ghost before = Self::views(list@);
            assert(all.take(i + 1).drop_last() == all.take(i as int));
            assert(all.take(i + 1).last() == all[i as int]);
            match Self::from_json(&items[i]) {
                Some(item) => {
                    let ghost view = item@;
                    list.push(item);
                    assert(Self::views(list@) =~= before.push(view));
                },
                None => {
                    proof {
                        Self::lemma_items_fail(all, i as int);
                    }
                    return None;
                },
            }
            i += 1;
        }
        assert(all.take(i as int) == all);
        Some(list)
    }

    /// Writes the JSON array that stands for the values.
    pub fn all_to_json(list: &Vec<Self>) -> (value: Json)
        ensures
            value@ == JsonView::Array(Self::encode_all_spec(Self::views(list@))),
    {
        let ghost all = Self::encode_all_spec(Self::views(list@));
        let mut items: Vec<Json> = Vec::new();
        let mut i: usize = 0;
        while i < list.len()
            invariant
                i <= list.len(),
                all == Self::encode_all_spec(Self::views(list@)),
                items_view(items@) == all.take(i as int),
            decreases list.len() - i,
        {
            let ghost before = items_view(items@);
            let item = list[i].to_json();
            let ghost view = item@;
            items.push(item);
            assert(items_view(items@) =~= before.push(view));
            assert(all.take(i + 1) =~= all.take(i as int).push(all[i as int]));
            i += 1;
        }
        assert(all.take(i as int) == all);
        let value = Json::Array(items);
        proof {
            lemma_array_view(value);
        }
        value
    }
}

impl Tweets {
    /// The entries have the keys of the type, and no key twice.
    pub proof fn lemma_keys(x: TweetsView)
        ensures
            keys_of(Self::entries(x)) == Self::keys(),
            Self::keys().no_duplicates(),
    {
        reveal_strlit("attachments");
        assert("attachments"@.len() == 11 && "attachments"@[0] == 'a');
        reveal_strlit("author_id");
        assert("author_id"@.len() == 9 && "author_id"@[0] == 'a');
        reveal_strlit("context_annotations");
        assert("context_annotations"@.len() == 19 && "context_annotations"@[0] == 'c');
        reveal_strlit("conversation_id");
        assert("conversation_id"@.len() == 15 && "conversation_id"@[0] == 'c');
        reveal_strlit("created_at");
        assert("created_at"@.len() == 10 && "created_at"@[0] == 'c');
        reveal_strlit("edit_controls");
        assert("edit_controls"@.len() == 13 && "edit_controls"@[0] == 'e');
        reveal_strlit("edit_history_tweet_ids");
        assert("edit_history_tweet_ids"@.len() == 22 && "edit_history_tweet_ids"@[0] == 'e');
        reveal_strlit("entities");
        assert("entities"@.len() == 8 && "entities"@[0] == 'e');
        reveal_strlit("geo");
        assert("geo"@.len() == 3 && "geo"@[0] == 'g');
        reveal_strlit("id");
        assert("id"@.len() == 2 && "id"@[0] == 'i');
        reveal_strlit("in_reply_to_user_id");
        assert("in_reply_to_user_id"@.len() == 19 && "in_reply_to_user_id"@[0] == 'i');
        reveal_strlit("lang");
        assert("lang"@.len() == 4 && "lang"@[0] == 'l');
        reveal_strlit("possibly_sensitive");
        assert("possibly_sensitive"@.len() == 18 && "possibly_sensitive"@[0] == 'p');
        reveal_strlit("public_metrics");
        assert("public_metrics"@.len() == 14 && "public_metrics"@[0] == 'p');
        reveal_strlit("reply_settings");
        assert("reply_settings"@.len() == 14 && "reply_settings"@[0] == 'r');
        reveal_strlit("referenced_tweets");
        assert("referenced_tweets"@.len() == 17 && "referenced_tweets"@[0] == 'r');
        reveal_strlit("text");
        assert("text"@.len() == 4 && "text"@[0] == 't');
        assert(keys_of(Self::entries(x)) =~= Self::keys());
    }

    /// Round trip: reading what was written for a value gives the value
    /// back, the members kept beside the named ones included.
    pub proof fn lemma_round_trip(x: TweetsView)
        requires
            Self::wf(x),
        ensures
            Self::decode_spec(Self::encode_spec(x)) == Some(x),
    {
        Self::lemma_keys(x);
        let entries = Self::entries(x);
        lemma_object_rest(entries, x.extra);
        lemma_object_reads(entries, x.extra, 0);
        lemma_object_reads(entries, x.extra, 1);
        lemma_object_reads(entries, x.extra, 2);
        lemma_object_reads(entries, x.extra, 3);
        lemma_object_reads(entries, x.extra, 4);
        lemma_object_reads(entries, x.extra, 5);
        lemma_object_reads(entries, x.extra, 6);
        lemma_texts_round_trip(x.edit_history_tweet_ids);
        lemma_object_reads(entries, x.extra, 7);
        lemma_object_reads(entries, x.extra, 8);
        lemma_object_reads(entries, x.extra, 9);
        lemma_object_reads(entries, x.extra, 10);
        lemma_object_reads(entries, x.extra, 11);
        lemma_object_reads(entries, x.extra, 12);
        lemma_object_reads(entries, x.extra, 13);
        lemma_object_reads(entries, x.extra, 14);
        lemma_object_reads(entries, x.extra, 15);
        lemma_object_reads(entries, x.extra, 16);
        let back = Self::decode_spec(Self::encode_spec(x));
        assert(back is Some);
        assert(back->0.extra == x.extra);
        assert(back->0 == x);
    }

    /// What is read keeps every member that the type does not name, and
    /// what is written for it holds those members again, unchanged and in
    /// their order.
    pub proof fn lemma_extra_kept(members: Members)
        requires
            Self::decode_spec(JsonView::Object(members)) is Some,
        ensures
            ({
                let x = Self::decode_spec(JsonView::Object(members))->0;
                &&& x.extra == rest_spec(members, Self::keys())
                &&& foreign(x.extra, Self::keys())
                &&& Self::encode_spec(x) is Object
                &&& rest_spec(Self::encode_spec(x)->Object_0, Self::keys()) == x.extra
            }),
    {
        let x = Self::decode_spec(JsonView::Object(members))->0;
        Self::lemma_keys(x);
        lemma_rest_is_foreign(members, Self::keys());
        lemma_object_rest(Self::entries(x), x.extra);
    }

    /// A list with an item that stands for no value stands for no list.
    pub proof fn lemma_items_fail(items: Seq<JsonView>, k: int)
        requires
            0 <= k < items.len(),
            Self::decode_spec(items[k]) is None,
        ensures
            Self::decode_items_spec(items) is None,
        decreases items.len(),
    {
        if k < items.len() - 1 {
            Self::lemma_items_fail(items.drop_last(), k);
        }
    }

    /// Round trip of a list: reading what was written for the values
    /// gives the values back.
    pub proof fn lemma_round_trip_all(list: Seq<TweetsView>)
        requires
            Self::all_wf(list),
        ensures
            Self::decode_all_spec(JsonView::Array(Self::encode_all_spec(list))) == Some(list),
        decreases list.len(),
    {
        let items = Self::encode_all_spec(list);
        if list.len() == 0 {
            assert(list =~= Seq::empty());
        } else {
            let init = list.drop_last();
            assert(Self::all_wf(init)) by {
                assert forall|i: int| 0 <= i < init.len() implies Self::wf(#[trigger] init[i]) by {
                    assert(init[i] == list[i]);
                }
            }
            Self::lemma_round_trip_all(init);
            assert(Self::wf(list[list.len() - 1]));
            Self::lemma_round_trip(list.last());
            assert(items.drop_last() =~= Self::encode_all_spec(init));
            assert(init.push(list.last()) =~= list);
        }
    }
}

} // verus!
