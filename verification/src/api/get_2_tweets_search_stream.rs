//! `GET /2/tweets/search/stream`: the stream of tweets that match the rules.

use crate::api::{bearer_auth, bearer_value, with_authorization};
use crate::fields::{is_name, serialize, serialize_spec, Field};
use crate::request::{
    assemble, assemble_spec, distinct_keys, has_key, lemma_assemble_distinct,
    lemma_assemble_includes, lemma_assemble_omits, lemma_assemble_single, lemma_assemble_sources,
    Method, PreparedRequest, RequestView, Slot,
};
use crate::fields::media_fields::MediaFields;
use crate::fields::place_fields::PlaceFields;
use crate::fields::poll_fields::PollFields;
use crate::fields::tweet_fields::TweetFields;
use crate::fields::user_fields::UserFields;
use crate::text::{decimal, decimal_spec};
use crate::time::{utc_compact_text, UtcTime};
use vstd::prelude::*;

verus! {

/// The URL of the endpoint.
pub const URL: &'static str = "https://api.twitter.com/2/tweets/search/stream";

/// The objects that a request can ask to have expanded.
#[derive(Debug, Clone, Copy, PartialEq, Eq, Hash, Structural)]
pub enum Expansions {
    AttachmentsPollIds,
    AttachmentsMediaKeys,
    AuthorId,
    EditHistoryTweetIds,
    EntitiesMentionsUsername,
    GeoPlaceId,
    InReplyToUserId,
    ReferencedTweetsId,
    ReferencedTweetsIdAuthorId,
}

impl Expansions {
    /// Every member, once, in declaration order.
    pub fn all() -> (result: Vec<Self>)
        ensures
            result@ == <Self as Field>::universe(),
    {
        let mut result = Vec::new();
        result.push(Self::AttachmentsPollIds);
        result.push(Self::AttachmentsMediaKeys);
        result.push(Self::AuthorId);
        result.push(Self::EditHistoryTweetIds);
        result.push(Self::EntitiesMentionsUsername);
        result.push(Self::GeoPlaceId);
        result.push(Self::InReplyToUserId);
        result.push(Self::ReferencedTweetsId);
        result.push(Self::ReferencedTweetsIdAuthorId);
        assert(result@ =~= <Self as Field>::universe());
        result
    }

    /// The member's name as a string of its own.
    pub fn to_string(&self) -> (s: String)
        ensures
            s@ == self.label(),
    {
        self.as_str().to_owned()
    }
}

impl Field for Expansions {
    open spec fn universe() -> Seq<Self> {
        seq![
            Self::AttachmentsPollIds,
            Self::AttachmentsMediaKeys,
            Self::AuthorId,
            Self::EditHistoryTweetIds,
            Self::EntitiesMentionsUsername,
            Self::GeoPlaceId,
            Self::InReplyToUserId,
            Self::ReferencedTweetsId,
            Self::ReferencedTweetsIdAuthorId,
        ]
    }

    open spec fn label(&self) -> Seq<char> {
        match self {
            Self::AttachmentsPollIds => "attachments.poll_ids"@,
            Self::AttachmentsMediaKeys => "attachments.media_keys"@,
            Self::AuthorId => "author_id"@,
            Self::EditHistoryTweetIds => "edit_history_tweet_ids"@,
            Self::EntitiesMentionsUsername => "entities.mentions.username"@,
            Self::GeoPlaceId => "geo.place_id"@,
            Self::InReplyToUserId => "in_reply_to_user_id"@,
            Self::ReferencedTweetsId => "referenced_tweets.id"@,
            Self::ReferencedTweetsIdAuthorId => "referenced_tweets.id.author_id"@,
        }
    }

    open spec fn ordinal(&self) -> int {
        match self {
            Self::AttachmentsPollIds => 0,
            Self::AttachmentsMediaKeys => 1,
            Self::AuthorId => 2,
            Self::EditHistoryTweetIds => 3,
            Self::EntitiesMentionsUsername => 4,
            Self::GeoPlaceId => 5,
            Self::InReplyToUserId => 6,
            Self::ReferencedTweetsId => 7,
            Self::ReferencedTweetsIdAuthorId => 8,
        }
    }

    fn members() -> (v: Vec<Self>) {
        Self::all()
    }

    fn index(&self) -> (i: usize) {
        match self {
            Self::AttachmentsPollIds => 0,
            Self::AttachmentsMediaKeys => 1,
            Self::AuthorId => 2,
            Self::EditHistoryTweetIds => 3,
            Self::EntitiesMentionsUsername => 4,
            Self::GeoPlaceId => 5,
            Self::InReplyToUserId => 6,
            Self::ReferencedTweetsId => 7,
            Self::ReferencedTweetsIdAuthorId => 8,
        }
    }

    fn as_str(&self) -> (s: &'static str) {
        match self {
            Self::AttachmentsPollIds => "attachments.poll_ids",
            Self::AttachmentsMediaKeys => "attachments.media_keys",
            Self::AuthorId => "author_id",
            Self::EditHistoryTweetIds => "edit_history_tweet_ids",
            Self::EntitiesMentionsUsername => "entities.mentions.username",
            Self::GeoPlaceId => "geo.place_id",
            Self::InReplyToUserId => "in_reply_to_user_id",
            Self::ReferencedTweetsId => "referenced_tweets.id",
            Self::ReferencedTweetsIdAuthorId => "referenced_tweets.id.author_id",
        }
    }

    proof fn lemma_member(m: Self) {
    }

    proof fn lemma_position(i: int) {
    }

    proof fn lemma_label_is_name(m: Self) {
        reveal_strlit("attachments.poll_ids");
        assert(is_name("attachments.poll_ids"@));
        reveal_strlit("attachments.media_keys");
        assert(is_name("attachments.media_keys"@));
        reveal_strlit("author_id");
        assert(is_name("author_id"@));
        reveal_strlit("edit_history_tweet_ids");
        assert(is_name("edit_history_tweet_ids"@));
        reveal_strlit("entities.mentions.username");
        assert(is_name("entities.mentions.username"@));
        reveal_strlit("geo.place_id");
        assert(is_name("geo.place_id"@));
        reveal_strlit("in_reply_to_user_id");
        assert(is_name("in_reply_to_user_id"@));
        reveal_strlit("referenced_tweets.id");
        assert(is_name("referenced_tweets.id"@));
        reveal_strlit("referenced_tweets.id.author_id");
        assert(is_name("referenced_tweets.id.author_id"@));
    }

    proof fn lemma_labels_distinct(a: Self, b: Self) {
        reveal_strlit("attachments.poll_ids");
        assert("attachments.poll_ids"@.len() == 20 && "attachments.poll_ids"@[0] == 'a');
        reveal_strlit("attachments.media_keys");
        assert("attachments.media_keys"@.len() == 22 && "attachments.media_keys"@[0] == 'a');
        reveal_strlit("author_id");
        assert("author_id"@.len() == 9 && "author_id"@[0] == 'a');
        reveal_strlit("edit_history_tweet_ids");
        assert("edit_history_tweet_ids"@.len() == 22 && "edit_history_tweet_ids"@[0] == 'e');
        reveal_strlit("entities.mentions.username");
        assert("entities.mentions.username"@.len() == 26
            && "entities.mentions.username"@[0] == 'e');
        reveal_strlit("geo.place_id");
        assert("geo.place_id"@.len() == 12 && "geo.place_id"@[0] == 'g');
        reveal_strlit("in_reply_to_user_id");
        assert("in_reply_to_user_id"@.len() == 19 && "in_reply_to_user_id"@[0] == 'i');
        reveal_strlit("referenced_tweets.id");
        assert("referenced_tweets.id"@.len() == 20 && "referenced_tweets.id"@[0] == 'r');
        reveal_strlit("referenced_tweets.id.author_id");
        assert("referenced_tweets.id.author_id"@.len() == 30
            && "referenced_tweets.id.author_id"@[0] == 'r');
    }
}

/// The request that opens the stream.
#[derive(Debug, Default)]
pub struct Api {
    backfill_minutes: Option<usize>,
    end_time: Option<UtcTime>,
    expansions: Option<Vec<Expansions>>,
    media_fields: Option<Vec<MediaFields>>,
    place_fields: Option<Vec<PlaceFields>>,
    poll_fields: Option<Vec<PollFields>>,
    start_time: Option<UtcTime>,
    tweet_fields: Option<Vec<TweetFields>>,
    user_fields: Option<Vec<UserFields>>,
}

/// An [`Api`] as mathematical values.
pub struct ApiView {
    pub backfill_minutes: Option<usize>,
    pub end_time: Option<UtcTime>,
    pub expansions: Option<Seq<Expansions>>,
    pub media_fields: Option<Seq<MediaFields>>,
    pub place_fields: Option<Seq<PlaceFields>>,
    pub poll_fields: Option<Seq<PollFields>>,
    pub start_time: Option<UtcTime>,
    pub tweet_fields: Option<Seq<TweetFields>>,
    pub user_fields: Option<Seq<UserFields>>,
}

impl View for Api {
    type V = ApiView;

    closed spec fn view(&self) -> ApiView {
        ApiView {
            backfill_minutes: self.backfill_minutes,
            end_time: self.end_time,
            expansions: match self.expansions {
                Some(list) => Some(list@),
                None => None,
            },
            media_fields: match self.media_fields {
                Some(list) => Some(list@),
                None => None,
            },
            place_fields: match self.place_fields {
                Some(list) => Some(list@),
                None => None,
            },
            poll_fields: match self.poll_fields {
                Some(list) => Some(list@),
                None => None,
            },
            start_time: self.start_time,
            tweet_fields: match self.tweet_fields {
                Some(list) => Some(list@),
                None => None,
            },
            user_fields: match self.user_fields {
                Some(list) => Some(list@),
                None => None,
            },
        }
    }
}

/// An [`Api`] with nothing chosen.
pub open spec fn blank() -> ApiView {
    ApiView {
        backfill_minutes: None,
        end_time: None,
        expansions: None,
        media_fields: None,
        place_fields: None,
        poll_fields: None,
        start_time: None,
        tweet_fields: None,
        user_fields: None,
    }
}

/// The query parameters that the endpoint knows, in the order in which
/// they are written, each with the value chosen for it.
pub open spec fn slots_spec(api: ApiView) -> Seq<Slot> {
    seq![
        (
            "backfill_minutes"@,
            match api.backfill_minutes {
                Some(n) => Some(decimal_spec(n as nat)),
                None => None,
            },
        ),
        (
            "end_time"@,
            match api.end_time {
                Some(t) => utc_compact_text(t.seconds() as int),
                None => None,
            },
        ),
        (
            "expansions"@,
            match api.expansions {
                Some(list) => Some(serialize_spec(list)),
                None => None,
            },
        ),
        (
            "media.fields"@,
            match api.media_fields {
                Some(list) => Some(serialize_spec(list)),
                None => None,
            },
        ),
        (
            "place.fields"@,
            match api.place_fields {
                Some(list) => Some(serialize_spec(list)),
                None => None,
            },
        ),
        (
            "poll.fields"@,
            match api.poll_fields {
                Some(list) => Some(serialize_spec(list)),
                None => None,
            },
        ),
        (
            "start_time"@,
            match api.start_time {
                Some(t) => utc_compact_text(t.seconds() as int),
                None => None,
            },
        ),
        (
            "tweet.fields"@,
            match api.tweet_fields {
                Some(list) => Some(serialize_spec(list)),
                None => None,
            },
        ),
        (
            "user.fields"@,
            match api.user_fields {
                Some(list) => Some(serialize_spec(list)),
                None => None,
            },
        ),
    ]
}

/// The request before it is authorised: the verb, the URL with the path
/// parameter filled in, and one query parameter for each value chosen.
pub open spec fn draft_spec(api: ApiView) -> RequestView {
    RequestView {
        method: Method::Get,
        url: URL@,
        query: assemble_spec(slots_spec(api)),
        headers: Seq::empty(),
        body: None,
    }
}

impl Api {
    /// A request with nothing chosen.
    pub fn new() -> (api: Self)
        ensures
            api@ == blank(),
    {
        Self {
            backfill_minutes: None,
            end_time: None,
            expansions: None,
            media_fields: None,
            place_fields: None,
            poll_fields: None,
            start_time: None,
            tweet_fields: None,
            user_fields: None,
        }
    }

    /// Chooses the value of `backfill_minutes`.
    pub fn backfill_minutes(self, value: usize) -> (api: Self)
        ensures
            api@ == (ApiView { backfill_minutes: Some(value), ..self@ }),
    {
        let mut api = self;
        api.backfill_minutes = Some(value);
        api
    }

    /// Chooses the value of `end_time`.
    pub fn end_time(self, value: UtcTime) -> (api: Self)
        ensures
            api@ == (ApiView { end_time: Some(value), ..self@ }),
    {
        let mut api = self;
        api.end_time = Some(value);
        api
    }

    /// Chooses the value of `expansions`.
    pub fn expansions(self, value: Vec<Expansions>) -> (api: Self)
        ensures
            api@ == (ApiView { expansions: Some(value@), ..self@ }),
    {
        let mut api = self;
        api.expansions = Some(value);
        api
    }

    /// Chooses the value of `media.fields`.
    pub fn media_fields(self, value: Vec<MediaFields>) -> (api: Self)
        ensures
            api@ == (ApiView { media_fields: Some(value@), ..self@ }),
    {
        let mut api = self;
        api.media_fields = Some(value);
        api
    }

    /// Chooses the value of `place.fields`.
    pub fn place_fields(self, value: Vec<PlaceFields>) -> (api: Self)
        ensures
            api@ == (ApiView { place_fields: Some(value@), ..self@ }),
    {
        let mut api = self;
        api.place_fields = Some(value);
        api
    }

    /// Chooses the value of `poll.fields`.
    pub fn poll_fields(self, value: Vec<PollFields>) -> (api: Self)
        ensures
            api@ == (ApiView { poll_fields: Some(value@), ..self@ }),
    {
        let mut api = self;
        api.poll_fields = Some(value);
        api
    }

    /// Chooses the value of `start_time`.
    pub fn start_time(self, value: UtcTime) -> (api: Self)
        ensures
            api@ == (ApiView { start_time: Some(value), ..self@ }),
    {
        let mut api = self;
        api.start_time = Some(value);
        api
    }

    /// Chooses the value of `tweet.fields`.
    pub fn tweet_fields(self, value: Vec<TweetFields>) -> (api: Self)
        ensures
            api@ == (ApiView { tweet_fields: Some(value@), ..self@ }),
    {
        let mut api = self;
        api.tweet_fields = Some(value);
        api
    }

    /// Chooses the value of `user.fields`.
    pub fn user_fields(self, value: Vec<UserFields>) -> (api: Self)
        ensures
            api@ == (ApiView { user_fields: Some(value@), ..self@ }),
    {
        let mut api = self;
        api.user_fields = Some(value);
        api
    }

    /// The request before it is authorised.
    pub fn draft(&self) -> (request: PreparedRequest)
        ensures
            request@ == draft_spec(self@),
    {
        let mut slots: Vec<(&'static str, Option<String>)> = Vec::new();
        let backfill_minutes = match self.backfill_minutes {
            Some(n) => Some(decimal(n as u64)),
            None => None,
        };
        slots.push(("backfill_minutes", backfill_minutes));
        let end_time = match &self.end_time {
            Some(t) => Some(t.compact()),
            None => None,
        };
        slots.push(("end_time", end_time));
        let expansions = match &self.expansions {
            Some(list) => Some(serialize(list)),
            None => None,
        };
        slots.push(("expansions", expansions));
        let media_fields = match &self.media_fields {
            Some(list) => Some(serialize(list)),
            None => None,
        };
        slots.push(("media.fields", media_fields));
        let place_fields = match &self.place_fields {
            Some(list) => Some(serialize(list)),
            None => None,
        };
        slots.push(("place.fields", place_fields));
        let poll_fields = match &self.poll_fields {
            Some(list) => Some(serialize(list)),
            None => None,
        };
        slots.push(("poll.fields", poll_fields));
        let start_time = match &self.start_time {
            Some(t) => Some(t.compact()),
            None => None,
        };
        slots.push(("start_time", start_time));
        let tweet_fields = match &self.tweet_fields {
            Some(list) => Some(serialize(list)),
            None => None,
        };
        slots.push(("tweet.fields", tweet_fields));
        let user_fields = match &self.user_fields {
            Some(list) => Some(serialize(list)),
            None => None,
        };
        slots.push(("user.fields", user_fields));
        assert(slots.deep_view() =~= slots_spec(self@));
        let url = URL.to_owned();
        let request = PreparedRequest {
            method: Method::Get,
            url,
            query: assemble(&slots),
            headers: Vec::new(),
            body: None,
        };
        assert(request.headers.deep_view() =~= Seq::empty());
        request
    }

    /// The prepared request, authorised by the bearer token.
    pub fn build(self, bearer_code: &str) -> (request: PreparedRequest)
        ensures
            request@ == with_authorization(
                draft_spec(self@),
                bearer_value(bearer_code@),
            ),
    {
        bearer_auth(self.draft(), bearer_code)
    }
}

/// No two query parameters of the endpoint share a key.
pub proof fn lemma_keys_distinct(api: ApiView)
    ensures
        distinct_keys(slots_spec(api)),
{
    reveal_strlit("backfill_minutes");
    assert("backfill_minutes"@.len() == 16 && "backfill_minutes"@[0] == 'b');
    reveal_strlit("end_time");
    assert("end_time"@.len() == 8 && "end_time"@[0] == 'e');
    reveal_strlit("expansions");
    assert("expansions"@.len() == 10 && "expansions"@[0] == 'e');
    reveal_strlit("media.fields");
    assert("media.fields"@.len() == 12 && "media.fields"@[0] == 'm');
    reveal_strlit("place.fields");
    assert("place.fields"@.len() == 12 && "place.fields"@[0] == 'p');
    reveal_strlit("poll.fields");
    assert("poll.fields"@.len() == 11 && "poll.fields"@[0] == 'p');
    reveal_strlit("start_time");
    assert("start_time"@.len() == 10 && "start_time"@[0] == 's');
    reveal_strlit("tweet.fields");
    assert("tweet.fields"@.len() == 12 && "tweet.fields"@[0] == 't');
    reveal_strlit("user.fields");
    assert("user.fields"@.len() == 11 && "user.fields"@[0] == 'u');
}

/// Of every query parameter that the endpoint knows: where no value
/// was chosen for it, the request holds no parameter with its key; where
/// one was, the request holds the key with that value, and with no
/// other.
pub proof fn lemma_query(api: ApiView, i: int)
    requires
        0 <= i < slots_spec(api).len(),
    ensures
        slots_spec(api)[i].1 is None ==> !has_key(
            draft_spec(api).query,
            slots_spec(api)[i].0,
        ),
        slots_spec(api)[i].1 matches Some(value) ==> draft_spec(api).query.contains(
            (slots_spec(api)[i].0, value),
        ),
        forall|k: int|
            0 <= k < draft_spec(api).query.len() && (#[trigger] draft_spec(api).query[k]).0
                == slots_spec(api)[i].0 ==> slots_spec(api)[i].1 == Some(
                draft_spec(api).query[k].1,
            ),
{
    lemma_keys_distinct(api);
    let slots = slots_spec(api);
    if slots[i].1 is None {
        lemma_assemble_omits(slots, i);
    } else {
        lemma_assemble_includes(slots, i);
    }
    assert forall|k: int|
        0 <= k < draft_spec(api).query.len() && (#[trigger] draft_spec(api).query[k]).0
            == slots[i].0 implies slots[i].1 == Some(draft_spec(api).query[k].1) by {
        lemma_assemble_single(slots, i, k);
    }
}

/// The request holds no query parameter but those that the endpoint
/// knows, and none of them twice.
pub proof fn lemma_query_keys(api: ApiView)
    ensures
        forall|k: int|
            0 <= k < draft_spec(api).query.len() ==> exists|i: int|
                0 <= i < slots_spec(api).len() && (#[trigger] slots_spec(api)[i]).0 == (
                #[trigger] draft_spec(api).query[k]).0,
        forall|a: int, b: int|
            0 <= a < b < draft_spec(api).query.len() ==> (#[trigger] draft_spec(api).query[a]).0
                != (#[trigger] draft_spec(api).query[b]).0,
{
    lemma_keys_distinct(api);
    lemma_assemble_distinct(slots_spec(api));
    let slots = slots_spec(api);
    let query = draft_spec(api).query;
    assert forall|k: int| 0 <= k < query.len() implies exists|i: int|
        0 <= i < slots.len() && (#[trigger] slots[i]).0 == (#[trigger] query[k]).0 by {
        lemma_assemble_sources(slots, k);
        let i = choose|i: int|
            0 <= i < slots.len() && (#[trigger] slots[i]).1 == Some(query[k].1) && slots[i].0
                == query[k].0;
        assert(slots[i].0 == query[k].0);
    }
}

/// Of every selection of fields that the endpoint knows: where one was
/// chosen, the request holds its key with the wire form of the
/// selection, which [`crate::fields::lemma_serialize_general`]
/// describes, and with no
/// other value.
pub proof fn lemma_selections(api: ApiView)
    ensures
        api.expansions matches Some(list) ==> draft_spec(api).query.contains(
            ("expansions"@, serialize_spec(list)),
        ),
        api.expansions matches Some(list) ==> forall|k: int|
            0 <= k < draft_spec(api).query.len() && (#[trigger] draft_spec(api).query[k]).0
                == "expansions"@ ==> draft_spec(api).query[k].1 == serialize_spec(list),
        api.media_fields matches Some(list) ==> draft_spec(api).query.contains(
            ("media.fields"@, serialize_spec(list)),
        ),
        api.media_fields matches Some(list) ==> forall|k: int|
            0 <= k < draft_spec(api).query.len() && (#[trigger] draft_spec(api).query[k]).0
                == "media.fields"@ ==> draft_spec(api).query[k].1 == serialize_spec(list),
        api.place_fields matches Some(list) ==> draft_spec(api).query.contains(
            ("place.fields"@, serialize_spec(list)),
        ),
        api.place_fields matches Some(list) ==> forall|k: int|
            0 <= k < draft_spec(api).query.len() && (#[trigger] draft_spec(api).query[k]).0
                == "place.fields"@ ==> draft_spec(api).query[k].1 == serialize_spec(list),
        api.poll_fields matches Some(list) ==> draft_spec(api).query.contains(
            ("poll.fields"@, serialize_spec(list)),
        ),
        api.poll_fields matches Some(list) ==> forall|k: int|
            0 <= k < draft_spec(api).query.len() && (#[trigger] draft_spec(api).query[k]).0
                == "poll.fields"@ ==> draft_spec(api).query[k].1 == serialize_spec(list),
        api.tweet_fields matches Some(list) ==> draft_spec(api).query.contains(
            ("tweet.fields"@, serialize_spec(list)),
        ),
        api.tweet_fields matches Some(list) ==> forall|k: int|
            0 <= k < draft_spec(api).query.len() && (#[trigger] draft_spec(api).query[k]).0
                == "tweet.fields"@ ==> draft_spec(api).query[k].1 == serialize_spec(list),
        api.user_fields matches Some(list) ==> draft_spec(api).query.contains(
            ("user.fields"@, serialize_spec(list)),
        ),
        api.user_fields matches Some(list) ==> forall|k: int|
            0 <= k < draft_spec(api).query.len() && (#[trigger] draft_spec(api).query[k]).0
                == "user.fields"@ ==> draft_spec(api).query[k].1 == serialize_spec(list),
{
    lemma_query(api, 2);
    lemma_query(api, 3);
    lemma_query(api, 4);
    lemma_query(api, 5);
    lemma_query(api, 7);
    lemma_query(api, 8);
}

} // verus!
