//! `GET /2/users/:id/blocking`: the users that a user blocks.

use crate::api::{
    authorization_value, authorized, bearer_value, classify_spec, interpret, with_authorization,
    Auth, AuthView, HttpResponse,
};
use crate::error::{Error, ErrorView};
use crate::fields::{is_name, serialize, serialize_spec, Field};
use crate::fields::tweet_fields::TweetFields;
use crate::fields::user_fields::UserFields;
use crate::json::{
    first_with_key, json_parse, lemma_object_view, members_view, Json, JsonView, Members,
};
use crate::oauth10a::is_alphanumeric;
use crate::object::{
    absent, absent_json, foreign, keys_of, lemma_object_reads, lemma_object_rest,
    lemma_rest_is_foreign, lemma_rest_known, optional, present, present_spec, put_all, put_next,
    rest, rest_spec, written, Entry,
};
use crate::rate_limit::{rate_limit_spec, RateLimit};
use crate::request::{
    assemble, assemble_spec, distinct_keys, has_key, lemma_assemble_distinct,
    lemma_assemble_includes, lemma_assemble_omits, lemma_assemble_single, lemma_assemble_sources,
    Method, PreparedRequest, RequestView, Slot,
};
use crate::responses::errors::{Errors, ErrorsView};
use crate::responses::includes::{Includes, IncludesView};
use crate::responses::meta::{Meta, MetaView};
use crate::responses::users::{Users, UsersView};
use crate::text::{decimal, decimal_spec, replace_all, replace_spec, texts};
use vstd::prelude::*;

verus! {

/// The URL of the endpoint.
pub const URL: &'static str = "https://api.twitter.com/2/users/:id/blocking";

/// The objects that a request can ask to have expanded.
#[derive(Debug, Clone, Copy, PartialEq, Eq, Hash, Structural)]
pub enum Expansions {
    PinnedTweetId,
}

impl Expansions {
    /// Every member, once, in declaration order.
    pub fn all() -> (result: Vec<Self>)
        ensures
            result@ == <Self as Field>::universe(),
    {
        let mut result = Vec::new();
        result.push(Self::PinnedTweetId);
        assert(result@ =~= <Self as Field>::universe());
        result
    }

    /// The member's name as a string of its own.
    pub fn to_string(&self) -> (s: String)
        ensures
            s@ == self.label(),
    {
        self.as_str().to_owned()
    }
}

impl Field for Expansions {
    open spec fn universe() -> Seq<Self> {
        seq![
            Self::PinnedTweetId,
        ]
    }

    open spec fn label(&self) -> Seq<char> {
        match self {
            Self::PinnedTweetId => "pinned_tweet_id"@,
        }
    }

    open spec fn ordinal(&self) -> int {
        match self {
            Self::PinnedTweetId => 0,
        }
    }

    fn members() -> (v: Vec<Self>) {
        Self::all()
    }

    fn index(&self) -> (i: usize) {
        match self {
            Self::PinnedTweetId => 0,
        }
    }

    fn as_str(&self) -> (s: &'static str) {
        match self {
            Self::PinnedTweetId => "pinned_tweet_id",
        }
    }

    proof fn lemma_member(m: Self) {
    }

    proof fn lemma_position(i: int) {
    }

    proof fn lemma_label_is_name(m: Self) {
        reveal_strlit("pinned_tweet_id");
        assert(is_name("pinned_tweet_id"@));
    }

    proof fn lemma_labels_distinct(a: Self, b: Self) {
        reveal_strlit("pinned_tweet_id");
        assert("pinned_tweet_id"@.len() == 15);
    }
}

impl Default for Expansions {
    fn default() -> (result: Self)
        ensures
            result == Self::PinnedTweetId,
    {
        Self::PinnedTweetId
    }
}

/// The request that lists the users a user blocks.
#[derive(Debug, Clone, Default)]
pub struct Api {
    expansions: Option<Vec<Expansions>>,
    max_results: Option<usize>,
    pagination_token: Option<String>,
    tweet_fields: Option<Vec<TweetFields>>,
    user_fields: Option<Vec<UserFields>>,
    id: String,
}

/// An [`Api`] as mathematical values.
pub struct ApiView {
    pub expansions: Option<Seq<Expansions>>,
    pub max_results: Option<usize>,
    pub pagination_token: Option<Seq<char>>,
    pub tweet_fields: Option<Seq<TweetFields>>,
    pub user_fields: Option<Seq<UserFields>>,
    pub id: Seq<char>,
}

impl View for Api {
    type V = ApiView;

    closed spec fn view(&self) -> ApiView {
        ApiView {
            expansions: match self.expansions {
                Some(list) => Some(list@),
                None => None,
            },
            max_results: self.max_results,
            pagination_token: self.pagination_token.deep_view(),
            tweet_fields: match self.tweet_fields {
                Some(list) => Some(list@),
                None => None,
            },
            user_fields: match self.user_fields {
                Some(list) => Some(list@),
                None => None,
            },
            id: self.id@,
        }
    }
}

/// An [`Api`] with nothing chosen.
pub open spec fn blank(id: Seq<char>) -> ApiView {
    ApiView {
        expansions: None,
        max_results: None,
        pagination_token: None,
        tweet_fields: None,
        user_fields: None,
        id,
    }
}

/// The query parameters that the endpoint knows, in the order in which
/// they are written, each with the value chosen for it.
pub open spec fn slots_spec(api: ApiView) -> Seq<Slot> {
    seq![
        (
            "expansions"@,
            match api.expansions {
                Some(list) => Some(serialize_spec(list)),
                None => None,
            },
        ),
        (
            "max_results"@,
            match api.max_results {
                Some(n) => Some(decimal_spec(n as nat)),
                None => None,
            },
        ),
        (
            "pagination_token"@,
            api.pagination_token,
        ),
        (
            "tweet.fields"@,
            match api.tweet_fields {
                Some(list) => Some(serialize_spec(list)),
                None => None,
            },
        ),
        (
            "user.fields"@,
            match api.user_fields {
                Some(list) => Some(serialize_spec(list)),
                None => None,
            },
        ),
    ]
}

/// The request before it is authorised: the verb, the URL with the path
/// parameter filled in, and one query parameter for each value chosen.
pub open spec fn draft_spec(api: ApiView) -> RequestView {
    RequestView {
        method: Method::Get,
        url: replace_spec(URL@, ":id"@, api.id),
        query: assemble_spec(slots_spec(api)),
        headers: Seq::empty(),
        body: None,
    }
}

impl Api {
    /// A request with nothing chosen.
    pub fn new(id: &str) -> (api: Self)
        ensures
            api@ == blank(id@),
    {
        Self {
            expansions: None,
            max_results: None,
            pagination_token: None,
            tweet_fields: None,
            user_fields: None,
            id: id.to_owned(),
        }
    }

    /// A request that asks for everything a caller may be given of its own data.
    pub fn all(id: &str) -> (api: Self)
        ensures
            api@.id == id@,
            api@.expansions == Some(<Expansions as Field>::universe()),
            api@.max_results == Some(1000usize),
            api@.pagination_token is None,
            api@.tweet_fields == Some(TweetFields::organic_members()),
            api@.user_fields == Some(<UserFields as Field>::universe()),
    {
        Self {
            expansions: Some(Expansions::all()),
            max_results: Some(1000),
            pagination_token: None,
            tweet_fields: Some(TweetFields::organic()),
            user_fields: Some(UserFields::all()),
            id: id.to_owned(),
        }
    }

    /// A request that asks for everything that is public.
    pub fn open(id: &str) -> (api: Self)
        ensures
            api@.id == id@,
            api@.expansions == Some(<Expansions as Field>::universe()),
            api@.max_results == Some(1000usize),
            api@.pagination_token is None,
            api@.tweet_fields == Some(TweetFields::open_members()),
            api@.user_fields == Some(<UserFields as Field>::universe()),
    {
        Self {
            expansions: Some(Expansions::all()),
            max_results: Some(1000),
            pagination_token: None,
            tweet_fields: Some(TweetFields::open()),
            user_fields: Some(UserFields::all()),
            id: id.to_owned(),
        }
    }

    /// Chooses the value of `expansions`.
    pub fn expansions(self, value: Vec<Expansions>) -> (api: Self)
        ensures
            api@ == (ApiView { expansions: Some(value@), ..self@ }),
    {
        let mut api = self;
        api.expansions = Some(value);
        api
    }

    /// Chooses the value of `max_results`.
    pub fn max_results(self, value: usize) -> (api: Self)
        ensures
            api@ == (ApiView { max_results: Some(value), ..self@ }),
    {
        let mut api = self;
        api.max_results = Some(value);
        api
    }

    /// Chooses the value of `pagination_token`.
    pub fn pagination_token(self, value: &str) -> (api: Self)
        ensures
            api@ == (ApiView { pagination_token: Some(value@), ..self@ }),
    {
        let mut api = self;
        api.pagination_token = Some(value.to_owned());
        api
    }

    /// Chooses the value of `tweet.fields`.
    pub fn tweet_fields(self, value: Vec<TweetFields>) -> (api: Self)
        ensures
            api@ == (ApiView { tweet_fields: Some(value@), ..self@ }),
    {
        let mut api = self;
        api.tweet_fields = Some(value);
        api
    }

    /// Chooses the value of `user.fields`.
    pub fn user_fields(self, value: Vec<UserFields>) -> (api: Self)
        ensures
            api@ == (ApiView { user_fields: Some(value@), ..self@ }),
    {
        let mut api = self;
        api.user_fields = Some(value);
        api
    }

    /// The request before it is authorised.
    pub fn draft(&self) -> (request: PreparedRequest)
        ensures
            request@ == draft_spec(self@),
    {
        let mut slots: Vec<(&'static str, Option<String>)> = Vec::new();
        let expansions = match &self.expansions {
            Some(list) => Some(serialize(list)),
            None => None,
        };
        slots.push(("expansions", expansions));
        let max_results = match self.max_results {
            Some(n) => Some(decimal(n as u64)),
            None => None,
        };
        slots.push(("max_results", max_results));
        let pagination_token = match &self.pagination_token {
            Some(text) => Some(text.clone()),
            None => None,
        };
        slots.push(("pagination_token", pagination_token));
        let tweet_fields = match &self.tweet_fields {
            Some(list) => Some(serialize(list)),
            None => None,
        };
        slots.push(("tweet.fields", tweet_fields));
        let user_fields = match &self.user_fields {
            Some(list) => Some(serialize(list)),
            None => None,
        };
        slots.push(("user.fields", user_fields));
        assert(slots.deep_view() =~= slots_spec(self@));
        let url = replace_all(URL, ":id", self.id.as_str());
        let request = PreparedRequest {
            method: Method::Get,
            url,
            query: assemble(&slots),
            headers: Vec::new(),
            body: None,
        };
        assert(request.headers.deep_view() =~= Seq::empty());
        request
    }

    /// The prepared request, authorised as `auth` says. A bearer token
    /// always succeeds; a signature is made with a fresh nonce and the
    /// time of the call.
    pub fn build(self, auth: &Auth) -> (result: Result<PreparedRequest, Error>)
        ensures
            auth@ matches AuthView::Bearer { token } ==> result is Ok && result->Ok_0@
                == with_authorization(draft_spec(self@), bearer_value(token)),
            result is Err ==> result->Err_0@ is Signing,
            result is Ok ==> exists|nonce: Seq<char>, timestamp: u64|
                nonce.len() == 32 && is_alphanumeric(nonce) && #[trigger] authorized(
                    draft_spec(self@),
                    authorization_value(auth@, draft_spec(self@), nonce, timestamp),
                    result,
                ),
    {
        auth.authorize(self.draft())
    }

    /// The prepared request, authorised as `auth` says with the nonce and
    /// the time given. This succeeds for every choice of options.
    pub fn build_with(self, auth: &Auth, nonce: &str, timestamp: u64) -> (result: Result<
        PreparedRequest,
        Error,
    >)
        ensures
            result is Ok,
            authorized(
                draft_spec(self@),
                authorization_value(auth@, draft_spec(self@), nonce@, timestamp),
                result,
            ),
    {
        auth.authorize_with(self.draft(), nonce, timestamp)
    }
}

/// No two query parameters of the endpoint share a key.
pub proof fn lemma_keys_distinct(api: ApiView)
    ensures
        distinct_keys(slots_spec(api)),
{
    reveal_strlit("expansions");
    assert("expansions"@.len() == 10 && "expansions"@[0] == 'e');
    reveal_strlit("max_results");
    assert("max_results"@.len() == 11 && "max_results"@[0] == 'm');
    reveal_strlit("pagination_token");
    assert("pagination_token"@.len() == 16 && "pagination_token"@[0] == 'p');
    reveal_strlit("tweet.fields");
    assert("tweet.fields"@.len() == 12 && "tweet.fields"@[0] == 't');
    reveal_strlit("user.fields");
    assert("user.fields"@.len() == 11 && "user.fields"@[0] == 'u');
}

/// Of every query parameter that the endpoint knows: where no value
/// was chosen for it, the request holds no parameter with its key; where
/// one was, the request holds the key with that value, and with no
/// other.
pub proof fn lemma_query(api: ApiView, i: int)
    requires
        0 <= i < slots_spec(api).len(),
    ensures
        slots_spec(api)[i].1 is None ==> !has_key(
            draft_spec(api).query,
            slots_spec(api)[i].0,
        ),
        slots_spec(api)[i].1 matches Some(value) ==> draft_spec(api).query.contains(
            (slots_spec(api)[i].0, value),
        ),
        forall|k: int|
            0 <= k < draft_spec(api).query.len() && (#[trigger] draft_spec(api).query[k]).0
                == slots_spec(api)[i].0 ==> slots_spec(api)[i].1 == Some(
                draft_spec(api).query[k].1,
            ),
{
    lemma_keys_distinct(api);
    let slots = slots_spec(api);
    if slots[i].1 is None {
        lemma_assemble_omits(slots, i);
    } else {
        lemma_assemble_includes(slots, i);
    }
    assert forall|k: int|
        0 <= k < draft_spec(api).query.len() && (#[trigger] draft_spec(api).query[k]).0
            == slots[i].0 implies slots[i].1 == Some(draft_spec(api).query[k].1) by {
        lemma_assemble_single(slots, i, k);
    }
}

/// The request holds no query parameter but those that the endpoint
/// knows, and none of them twice.
pub proof fn lemma_query_keys(api: ApiView)
    ensures
        forall|k: int|
            0 <= k < draft_spec(api).query.len() ==> exists|i: int|
                0 <= i < slots_spec(api).len() && (#[trigger] slots_spec(api)[i]).0 == (
                #[trigger] draft_spec(api).query[k]).0,
        forall|a: int, b: int|
            0 <= a < b < draft_spec(api).query.len() ==> (#[trigger] draft_spec(api).query[a]).0
                != (#[trigger] draft_spec(api).query[b]).0,
{
    lemma_keys_distinct(api);
    lemma_assemble_distinct(slots_spec(api));
    let slots = slots_spec(api);
    let query = draft_spec(api).query;
    assert forall|k: int| 0 <= k < query.len() implies exists|i: int|
        0 <= i < slots.len() && (#[trigger] slots[i]).0 == (#[trigger] query[k]).0 by {
        lemma_assemble_sources(slots, k);
        let i = choose|i: int|
            0 <= i < slots.len() && (#[trigger] slots[i]).1 == Some(query[k].1) && slots[i].0
                == query[k].0;
        assert(slots[i].0 == query[k].0);
    }
}

/// Of every selection of fields that the endpoint knows: where one was
/// chosen, the request holds its key with the wire form of the
/// selection, which [`crate::fields::lemma_serialize_general`]
/// describes, and with no
/// other value.
pub proof fn lemma_selections(api: ApiView)
    ensures
        api.expansions matches Some(list) ==> draft_spec(api).query.contains(
            ("expansions"@, serialize_spec(list)),
        ),
        api.expansions matches Some(list) ==> forall|k: int|
            0 <= k < draft_spec(api).query.len() && (#[trigger] draft_spec(api).query[k]).0
                == "expansions"@ ==> draft_spec(api).query[k].1 == serialize_spec(list),
        api.tweet_fields matches Some(list) ==> draft_spec(api).query.contains(
            ("tweet.fields"@, serialize_spec(list)),
        ),
        api.tweet_fields matches Some(list) ==> forall|k: int|
            0 <= k < draft_spec(api).query.len() && (#[trigger] draft_spec(api).query[k]).0
                == "tweet.fields"@ ==> draft_spec(api).query[k].1 == serialize_spec(list),
        api.user_fields matches Some(list) ==> draft_spec(api).query.contains(
            ("user.fields"@, serialize_spec(list)),
        ),
        api.user_fields matches Some(list) ==> forall|k: int|
            0 <= k < draft_spec(api).query.len() && (#[trigger] draft_spec(api).query[k]).0
                == "user.fields"@ ==> draft_spec(api).query[k].1 == serialize_spec(list),
{
    lemma_query(api, 0);
    lemma_query(api, 3);
    lemma_query(api, 4);
}

/// The body of the endpoint's answer. Members that the type does not name are
/// kept in `extra`, in the order in which the JSON value that was read holds
/// them; for a value read from text that is the order in which the reader hands
/// them over.
#[derive(Debug, Clone, Default)]
pub struct Response {
    pub data: Option<Vec<Users>>,
    pub errors: Option<Vec<Errors>>,
    pub includes: Option<Includes>,
    pub meta: Option<Meta>,
    pub extra: Vec<(String, Json)>,
}

/// A [`Response`] as mathematical values.
pub struct ResponseView {
    pub data: Option<Seq<UsersView>>,
    pub errors: Option<Seq<ErrorsView>>,
    pub includes: Option<IncludesView>,
    pub meta: Option<MetaView>,
    pub extra: Members,
}

impl View for Response {
    type V = ResponseView;

    open spec fn view(&self) -> ResponseView {
        ResponseView {
            data: match self.data {
                Some(list) => Some(Users::views(list@)),
                None => None,
            },
            errors: match self.errors {
                Some(list) => Some(Errors::views(list@)),
                None => None,
            },
            includes: match self.includes {
                Some(value) => Some(value@),
                None => None,
            },
            meta: match self.meta {
                Some(value) => Some(value@),
                None => None,
            },
            extra: members_view(self.extra@),
        }
    }
}

impl Response {
    /// The keys of the members that the type names, in the order in
    /// which they are written.
    pub open spec fn keys() -> Seq<Seq<char>> {
        seq![
            "data"@,
            "errors"@,
            "includes"@,
            "meta"@,
        ]
    }

    /// The members that the type names, each with the JSON value that
    /// stands for it; `null` stands for no value.
    pub open spec fn entries(x: ResponseView) -> Seq<Entry> {
        seq![
            (
                "data"@,
                match x.data {
                    Some(list) => Some(JsonView::Array(Users::encode_all_spec(list))),
                    None => absent(false),
                },
            ),
            (
                "errors"@,
                match x.errors {
                    Some(list) => Some(JsonView::Array(Errors::encode_all_spec(list))),
                    None => absent(false),
                },
            ),
            (
                "includes"@,
                match x.includes {
                    Some(value) => Some(Includes::encode_spec(value)),
                    None => absent(false),
                },
            ),
            (
                "meta"@,
                match x.meta {
                    Some(value) => Some(Meta::encode_spec(value)),
                    None => absent(false),
                },
            ),
        ]
    }

    /// The JSON object that stands for the value: the named members,
    /// then the others as they are.
    pub open spec fn encode_spec(x: ResponseView) -> JsonView {
        JsonView::Object(written(Self::entries(x)) + x.extra)
    }

    /// The value that a JSON value stands for: the JSON value must be an
    /// object, each named member must read well, and every other member
    /// is kept.
    pub open spec fn decode_spec(value: JsonView) -> Option<ResponseView> {
        match value {
            JsonView::Object(members) => {
                let data = optional(
                    first_with_key(members, "data"@),
                    Users::decode_all_spec(first_with_key(members, "data"@)->0),
                );
                let errors = optional(
                    first_with_key(members, "errors"@),
                    Errors::decode_all_spec(first_with_key(members, "errors"@)->0),
                );
                let includes = optional(
                    first_with_key(members, "includes"@),
                    Includes::decode_spec(first_with_key(members, "includes"@)->0),
                );
                let meta = optional(
                    first_with_key(members, "meta"@),
                    Meta::decode_spec(first_with_key(members, "meta"@)->0),
                );
                if data is Some && errors is Some && includes is Some && meta is Some {
                    Some(
                        ResponseView {
                            data: data->0,
                            errors: errors->0,
                            includes: includes->0,
                            meta: meta->0,
                            extra: rest_spec(members, Self::keys()),
                        },
                    )
                } else {
                    None
                }
            },
            _ => None,
        }
    }

    /// Whether the value can be told from what is written for it: no member
    /// kept beside the named ones has the key of a named one, and the same
    /// holds of the typed values inside.
    pub open spec fn wf(x: ResponseView) -> bool {
        &&& foreign(x.extra, Self::keys())
        &&& x.data matches Some(list) ==> Users::all_wf(list)
        &&& x.errors matches Some(list) ==> Errors::all_wf(list)
        &&& x.includes matches Some(value) ==> Includes::wf(value)
        &&& x.meta matches Some(value) ==> Meta::wf(value)
    }
}

impl Response {
    /// The keys of the members that the type names.
    pub fn known() -> (keys: Vec<&'static str>)
        ensures
            texts(keys@) == Self::keys(),
    {
        let mut keys: Vec<&'static str> = Vec::new();
        keys.push("data");
        keys.push("errors");
        keys.push("includes");
        keys.push("meta");
        assert(texts(keys@) =~= Self::keys());
        keys
    }

    /// Reads the value that a JSON value stands for: each named member is
    /// looked up, a missing member and `null` count as no value, and every
    /// member that is not named is kept in `extra`. `None` where the JSON
    /// value is no object or a named member holds a value of another
    /// kind.
    pub fn from_json(source: &Json) -> (out: Option<Self>)
        ensures
            match out {
                Some(x) => Self::decode_spec(source@) == Some(x@),
                None => Self::decode_spec(source@) is None,
            },
    {
        let members = match source {
            Json::Object(members) => members,
            _ => {
                return None;
            },
        };
        proof {
            lemma_object_view(*source);
        }
        let data: Option<Vec<Users>> = match present(source.member("data")) {
            Some(member) => match Users::all_from_json(member) {
                Some(read) => Some(read),
                None => {
                    return None;
                },
            },
            None => None,
        };
        let errors: Option<Vec<Errors>> = match present(source.member("errors")) {
            Some(member) => match Errors::all_from_json(member) {
                Some(read) => Some(read),
                None => {
                    return None;
                },
            },
            None => None,
        };
        let includes: Option<Includes> = match present(source.member("includes")) {
            Some(member) => match Includes::from_json(member) {
                Some(read) => Some(read),
                None => {
                    return None;
                },
            },
            None => None,
        };
        let meta: Option<Meta> = match present(source.member("meta")) {
            Some(member) => match Meta::from_json(member) {
                Some(read) => Some(read),
                None => {
                    return None;
                },
            },
            None => None,
        };
        let known = Self::known();
        let extra = rest(members, &known);
        let out = Response {
            data,
            errors,
            includes,
            meta,
            extra,
        };
        assert(Self::decode_spec(source@) == Some(out@));
        Some(out)
    }

    /// Writes the JSON object that stands for the value: the named
    /// members in their order, `null` for a member without a value,
    /// then the members of `extra` as they are.
    pub fn to_json(&self) -> (value: Json)
        ensures
            value@ == Self::encode_spec(self@),
    {
        let mut members: Vec<(String, Json)> = Vec::new();
        let ghost all = Self::entries(self@);
        assert(members_view(members@) =~= written(all.take(0)));
        let data = match &self.data {
            Some(inner) => Some(Users::all_to_json(inner)),
            None => absent_json(false),
        };
        put_next(&mut members, "data", data, Ghost(all), Ghost(0));
        let errors = match &self.errors {
            Some(inner) => Some(Errors::all_to_json(inner)),
            None => absent_json(false),
        };
        put_next(&mut members, "errors", errors, Ghost(all), Ghost(1));
        let includes = match &self.includes {
            Some(inner) => Some(inner.to_json()),
            None => absent_json(false),
        };
        put_next(&mut members, "includes", includes, Ghost(all), Ghost(2));
        let meta = match &self.meta {
            Some(inner) => Some(inner.to_json()),
            None => absent_json(false),
        };
        put_next(&mut members, "meta", meta, Ghost(all), Ghost(3));
        assert(all.take(4) == all);
        put_all(&mut members, &self.extra);
        let value = Json::Object(members);
        proof {
            lemma_object_view(value);
        }
        value
    }
}

impl Response {
    /// The entries have the keys of the type, and no key twice.
    pub proof fn lemma_keys(x: ResponseView)
        ensures
            keys_of(Self::entries(x)) == Self::keys(),
            Self::keys().no_duplicates(),
    {
        reveal_strlit("data");
        assert("data"@.len() == 4 && "data"@[0] == 'd');
        reveal_strlit("errors");
        assert("errors"@.len() == 6 && "errors"@[0] == 'e');
        reveal_strlit("includes");
        assert("includes"@.len() == 8 && "includes"@[0] == 'i');
        reveal_strlit("meta");
        assert("meta"@.len() == 4 && "meta"@[0] == 'm');
        assert(keys_of(Self::entries(x)) =~= Self::keys());
    }

    /// Round trip: reading what was written for a value gives the value
    /// back, the members kept beside the named ones included.
    pub proof fn lemma_round_trip(x: ResponseView)
        requires
            Self::wf(x),
        ensures
            Self::decode_spec(Self::encode_spec(x)) == Some(x),
    {
        Self::lemma_keys(x);
        let entries = Self::entries(x);
        lemma_object_rest(entries, x.extra);
        lemma_object_reads(entries, x.extra, 0);
        if x.data is Some {
            Users::lemma_round_trip_all(x.data->0);
        }
        lemma_object_reads(entries, x.extra, 1);
        if x.errors is Some {
            Errors::lemma_round_trip_all(x.errors->0);
        }
        lemma_object_reads(entries, x.extra, 2);
        if x.includes is Some {
            Includes::lemma_round_trip(x.includes->0);
        }
        lemma_object_reads(entries, x.extra, 3);
        if x.meta is Some {
            Meta::lemma_round_trip(x.meta->0);
        }
        let back = Self::decode_spec(Self::encode_spec(x));
        assert(back is Some);
        assert(back->0.extra == x.extra);
        assert(back->0 == x);
    }

    /// What is read keeps every member that the type does not name, and
    /// what is written for it holds those members again, unchanged and in
    /// their order.
    pub proof fn lemma_extra_kept(members: Members)
        requires
            Self::decode_spec(JsonView::Object(members)) is Some,
        ensures
            ({
                let x = Self::decode_spec(JsonView::Object(members))->0;
                &&& x.extra == rest_spec(members, Self::keys())
                &&& foreign(x.extra, Self::keys())
                &&& Self::encode_spec(x) is Object
                &&& rest_spec(Self::encode_spec(x)->Object_0, Self::keys()) == x.extra
            }),
    {
        let x = Self::decode_spec(JsonView::Object(members))->0;
        Self::lemma_keys(x);
        lemma_rest_is_foreign(members, Self::keys());
        lemma_object_rest(Self::entries(x), x.extra);
    }
}

impl Response {
    /// Whether the value, and every value in it that can tell, holds no
    /// member that its type does not name.
    pub open spec fn no_extra(&self) -> bool {
        &&& self.extra@.len() == 0
        &&& self.data matches Some(items) ==> forall|i: int|
            0 <= i < items@.len() ==> (#[trigger] items@[i]).no_extra()
        &&& self.errors matches Some(items) ==> forall|i: int|
            0 <= i < items@.len() ==> (#[trigger] items@[i]).no_extra()
        &&& self.includes matches Some(item) ==> item.no_extra()
        &&& self.meta matches Some(item) ==> item.no_extra()
    }

    /// Whether the value, and every value in it that can tell, holds no
    /// member that its type does not name.
    pub fn is_empty_extra(&self) -> (res: bool)
        ensures
            res == self.no_extra(),
    {
        if self.extra.len() != 0 {
            return false;
        }
        if let Some(items) = &self.data {
            let mut i: usize = 0;
            while i < items.len()
                invariant
                    i <= items.len(),
                    self.data == Some(*items),
                    forall|k: int| 0 <= k < i ==> (#[trigger] items@[k]).no_extra(),
                decreases items.len() - i,
            {
                if !items[i].is_empty_extra() {
                    assert(!items@[i as int].no_extra());
                    assert(self.data->0@[i as int] == items@[i as int]);
                    return false;
                }
                i += 1;
            }
        }
        if let Some(items) = &self.errors {
            let mut i: usize = 0;
            while i < items.len()
                invariant
                    i <= items.len(),
                    self.errors == Some(*items),
                    forall|k: int| 0 <= k < i ==> (#[trigger] items@[k]).no_extra(),
                decreases items.len() - i,
            {
                if !items[i].is_empty_extra() {
                    assert(!items@[i as int].no_extra());
                    assert(self.errors->0@[i as int] == items@[i as int]);
                    return false;
                }
                i += 1;
            }
        }
        if let Some(item) = &self.includes {
            if !item.is_empty_extra() {
                return false;
            }
        }
        if let Some(item) = &self.meta {
            if !item.is_empty_extra() {
                return false;
            }
        }
        true
    }
}

impl Response {
    /// [`Self::no_extra`], said of the mathematical value.
    pub open spec fn bare(x: ResponseView) -> bool {
        &&& x.extra.len() == 0
        &&& x.data matches Some(list) ==> Users::all_bare(list)
        &&& x.errors matches Some(list) ==> Errors::all_bare(list)
        &&& x.includes matches Some(value) ==> Includes::bare(value)
        &&& x.meta matches Some(value) ==> Meta::bare(value)
    }

    /// Whether the JSON value is an object in which every member has a
    /// key that the type names, and the same holds of the typed
    /// values inside that [`Self::no_extra`] looks into.
    pub open spec fn modelled(value: JsonView) -> bool {
        match value {
            JsonView::Object(members) => {
                &&& forall|i: int|
                    0 <= i < members.len() ==> Self::keys().contains((#[trigger] members[i]).0)
                &&& present_spec(first_with_key(members, "data"@)) matches Some(inner)
                    ==> Users::all_modelled(inner)
                &&& present_spec(first_with_key(members, "errors"@)) matches Some(inner)
                    ==> Errors::all_modelled(inner)
                &&& present_spec(first_with_key(members, "includes"@)) matches Some(inner)
                    ==> Includes::modelled(inner)
                &&& present_spec(first_with_key(members, "meta"@)) matches Some(inner)
                    ==> Meta::modelled(inner)
            },
            _ => false,
        }
    }

    /// [`Self::no_extra`] holds of a value exactly if [`Self::bare`] holds
    /// of its view.
    pub proof fn lemma_no_extra(&self)
        ensures
            self.no_extra() == Self::bare(self@),
    {
        if let Some(items) = self.data {
            let list = Users::views(items@);
            assert forall|i: int| 0 <= i < items@.len() implies (
            #[trigger] items@[i]).no_extra() == Users::bare(list[i]) by {
                items@[i].lemma_no_extra();
            }
            if Users::all_bare(list) {
                assert forall|i: int| 0 <= i < items@.len() implies (
                #[trigger] items@[i]).no_extra() by {
                    assert(Users::bare(list[i]));
                }
            } else {
                let i = choose|i: int|
                    0 <= i < list.len() && !Users::bare(#[trigger] list[i]);
                assert(!items@[i].no_extra());
            }
        }
        if let Some(items) = self.errors {
            let list = Errors::views(items@);
            assert forall|i: int| 0 <= i < items@.len() implies (
            #[trigger] items@[i]).no_extra() == Errors::bare(list[i]) by {
                items@[i].lemma_no_extra();
            }
            if Errors::all_bare(list) {
                assert forall|i: int| 0 <= i < items@.len() implies (
                #[trigger] items@[i]).no_extra() by {
                    assert(Errors::bare(list[i]));
                }
            } else {
                let i = choose|i: int|
                    0 <= i < list.len() && !Errors::bare(#[trigger] list[i]);
                assert(!items@[i].no_extra());
            }
        }
        if let Some(item) = self.includes {
            item.lemma_no_extra();
        }
        if let Some(item) = self.meta {
            item.lemma_no_extra();
        }
    }

    /// A value read from an object that holds no member beside those
    /// that the types name, at any level looked into, holds no extras.
    pub proof fn lemma_modelled_is_bare(value: JsonView)
        requires
            Self::modelled(value),
            Self::decode_spec(value) is Some,
        ensures
            Self::bare(Self::decode_spec(value)->0),
    {
        let members = value->Object_0;
        lemma_rest_known(members, Self::keys());
        if present_spec(first_with_key(members, "data"@)) is Some {
            Users::lemma_all_modelled(first_with_key(members, "data"@)->0);
        }
        if present_spec(first_with_key(members, "errors"@)) is Some {
            Errors::lemma_all_modelled(first_with_key(members, "errors"@)->0);
        }
        if present_spec(first_with_key(members, "includes"@)) is Some {
            Includes::lemma_modelled_is_bare(first_with_key(members, "includes"@)->0);
        }
        if present_spec(first_with_key(members, "meta"@)) is Some {
            Meta::lemma_modelled_is_bare(first_with_key(members, "meta"@)->0);
        }
    }

    /// Read from an object that holds no member beside those that the
    /// types name, at any level looked into, a value has no extras to
    /// tell of.
    pub proof fn lemma_read_has_no_extra(&self, source: JsonView)
        requires
            Self::modelled(source),
            Self::decode_spec(source) == Some(self@),
        ensures
            self.no_extra(),
    {
        Self::lemma_modelled_is_bare(source);
        self.lemma_no_extra();
    }
}

/// What an answer comes to once its body is read as a [`Response`].
pub type Received = Result<(Response, Option<RateLimit>), Error>;

/// The mathematical value of a [`Received`].
pub open spec fn received_view(result: Received) -> Result<
    (ResponseView, Option<RateLimit>),
    ErrorView,
> {
    match result {
        Ok((body, quota)) => Ok((body@, quota)),
        Err(error) => Err(error@),
    }
}

/// What an answer comes to: a failure as [`classify_spec`] says; else the
/// value that the body stands for, with the quota; and a decode error that
/// keeps the text where the body is JSON that stands for no [`Response`].
pub open spec fn receive_spec(
    status: u16,
    raw: Seq<char>,
    decoded: Option<JsonView>,
    quota: Option<RateLimit>,
) -> Result<(ResponseView, Option<RateLimit>), ErrorView> {
    match classify_spec(status, raw, decoded, quota) {
        Ok((body, quota)) => match Response::decode_spec(body) {
            Some(value) => Ok((value, quota)),
            None => Err(ErrorView::Decode(raw)),
        },
        Err(error) => Err(error),
    }
}

impl Response {
    /// Reads the answer to the request: the quota from the headers, the
    /// body as JSON, and the JSON as a [`Response`].
    pub fn receive(response: HttpResponse) -> (result: Received)
        ensures
            received_view(result) == receive_spec(
                response.status,
                response.body@,
                json_parse(response.body@),
                rate_limit_spec(response.headers.deep_view()),
            ),
    {
        let raw = response.body.clone();
        match interpret(response) {
            Ok((json, quota)) => match Response::from_json(&json) {
                Some(value) => Ok((value, quota)),
                None => Err(Error::Decode(raw)),
            },
            Err(error) => Err(error),
        }
    }
}

} // verus!
