//! What every endpoint shares: the authorisation of a prepared request and
//! the reading of a response. The endpoints themselves are the modules
//! below, one for each operation of the API.

use crate::error::{Error, ErrorView};
use crate::json::{items_view, json_parse, member_spec, Json, JsonView};
use crate::oauth10a::{
    authorization_spec, fresh_nonce, is_alphanumeric, unix_time, Credentials, CredentialsView,
};
use crate::rate_limit::{rate_limit_spec, RateLimit};
use crate::request::{PreparedRequest, RequestView};
use vstd::prelude::*;
use vstd::string::StringExecFns;

pub mod delete_2_lists_id;
pub mod get_2_tweets_search_recent;
pub mod get_2_tweets_search_stream;
pub mod get_2_users_id_blocking;

verus! {

/// The two ways in which a request is authorised: by a bearer token, or by
/// a signature made with the consumer's and the user's secrets.
#[derive(Debug)]
pub enum Auth {
    Bearer { token: String },
    Signed { credentials: Credentials },
}

/// An [`Auth`] as a mathematical value.
pub enum AuthView {
    Bearer { token: Seq<char> },
    Signed { credentials: CredentialsView },
}

impl View for Auth {
    type V = AuthView;

    open spec fn view(&self) -> AuthView {
        match self {
            Auth::Bearer { token } => AuthView::Bearer { token: token@ },
            Auth::Signed { credentials } => AuthView::Signed { credentials: credentials@ },
        }
    }
}

/// The value of the `Authorization` header for a bearer token.
pub open spec fn bearer_value(token: Seq<char>) -> Seq<char> {
    "Bearer "@ + token
}

/// The request with one more header, `Authorization`, at the end.
pub open spec fn with_authorization(request: RequestView, value: Seq<char>) -> RequestView {
    RequestView { headers: request.headers.push(("Authorization"@, value)), ..request }
}

/// The value of the `Authorization` header that an authorisation gives a
/// request, for a nonce and a time; `None` where a signature is asked for
/// and none can be made. A bearer token looks at neither the request nor
/// the nonce nor the time.
pub open spec fn authorization_value(
    auth: AuthView,
    request: RequestView,
    nonce: Seq<char>,
    timestamp: u64,
) -> Option<Seq<char>> {
    match auth {
        AuthView::Bearer { token } => Some(bearer_value(token)),
        AuthView::Signed { credentials } => authorization_spec(
            credentials,
            nonce,
            timestamp,
            request.method,
            request.url,
            request.query,
        ),
    }
}

/// What authorising a request comes to, given the header's value: the
/// request with the header, or a signing error where there is no value.
pub open spec fn authorized(
    request: RequestView,
    value: Option<Seq<char>>,
    result: Result<PreparedRequest, Error>,
) -> bool {
    match value {
        Some(v) => result is Ok && result->Ok_0@ == with_authorization(request, v),
        None => result is Err && result->Err_0@ is Signing,
    }
}

/// Adds the `Authorization` header with the value to the request.
pub fn set_authorization(request: PreparedRequest, value: String) -> (out: PreparedRequest)
    ensures
        out@ == with_authorization(request@, value@),
{
    let mut out = request;
    let ghost before = out.headers.deep_view();
    out.headers.push(("Authorization".to_owned(), value));
    assert(out.headers.deep_view() =~= before.push(("Authorization"@, value@)));
    out
}

/// Authorises a request with a bearer token.
pub fn bearer_auth(request: PreparedRequest, token: &str) -> (out: PreparedRequest)
    ensures
        out@ == with_authorization(request@, bearer_value(token@)),
{
    let mut value = String::new();
    value.append("Bearer ");
    value.append(token);
    set_authorization(request, value)
}

impl Auth {
    /// Authorisation by a bearer token.
    pub fn bearer(token: &str) -> (auth: Auth)
        ensures
            auth@ == (AuthView::Bearer { token: token@ }),
    {
        Auth::Bearer { token: token.to_owned() }
    }

    /// Authorisation by a signature.
    pub fn signed(
        consumer_key: &str,
        consumer_secret: &str,
        token: &str,
        token_secret: &str,
    ) -> (auth: Auth)
        ensures
            auth@ == (AuthView::Signed {
                credentials: CredentialsView {
                    consumer_key: consumer_key@,
                    consumer_secret: consumer_secret@,
                    token: token@,
                    token_secret: token_secret@,
                },
            }),
    {
        Auth::Signed {
            credentials: Credentials::new(consumer_key, consumer_secret, token, token_secret),
        }
    }

    /// Authorises a request, with the nonce and the time given: the request
    /// comes back with its `Authorization` header, everything else as it
    /// was. This succeeds for every request, nonce and time.
    pub fn authorize_with(&self, request: PreparedRequest, nonce: &str, timestamp: u64) -> (result:
        Result<PreparedRequest, Error>)
        ensures
            result is Ok,
            authorized(
                request@,
                authorization_value(self@, request@, nonce@, timestamp),
                result,
            ),
    {
        match self {
            Auth::Bearer { token } => Ok(bearer_auth(request, token.as_str())),
            Auth::Signed { credentials } => {
                let value = credentials.authorization(
                    nonce,
                    timestamp,
                    request.method,
                    request.url.as_str(),
                    &request.query,
                );
                match value {
                    Some(v) => Ok(set_authorization(request, v)),
                    None => Err(Error::Signing("no signature could be made".to_owned())),
                }
            },
        }
    }

    /// Authorises a request. A signature is made with a fresh nonce of
    /// thirty-two letters and digits and with the time of the call.
    pub fn authorize(&self, request: PreparedRequest) -> (result: Result<PreparedRequest, Error>)
        ensures
            self@ matches AuthView::Bearer { token } ==> result is Ok && result->Ok_0@
                == with_authorization(request@, bearer_value(token)),
            result is Err ==> result->Err_0@ is Signing,
            result is Ok ==> exists|nonce: Seq<char>, timestamp: u64|
                nonce.len() == 32 && is_alphanumeric(nonce) && #[trigger] authorized(
                    request@,
                    authorization_value(self@, request@, nonce, timestamp),
                    result,
                ),
    {
        match self {
            Auth::Bearer { token } => {
                let out = bearer_auth(request, token.as_str());
                let result = Ok(out);
                proof {
                    let nonce = Seq::new(32, |i: int| 'A');
                    assert(authorized(
                        request@,
                        authorization_value(self@, request@, nonce, 0),
                        result,
                    ));
                }
                result
            },
            Auth::Signed { .. } => {
                match (fresh_nonce(), unix_time()) {
                    (Some(nonce), Some(timestamp)) => {
                        let result = self.authorize_with(request, nonce.as_str(), timestamp);
                        proof {
                            assert(authorized(
                                request@,
                                authorization_value(self@, request@, nonce@, timestamp),
                                result,
                            ));
                        }
                        result
                    },
                    (None, _) => Err(Error::Signing("no random source".to_owned())),
                    (_, None) => Err(Error::Signing("the clock is before the epoch".to_owned())),
                }
            },
        }
    }
}

/// A response as the transport hands it over: the status, the headers in
/// the order in which they came, and the body as text.
#[derive(Debug)]
pub struct HttpResponse {
    pub status: u16,
    pub headers: Vec<(String, String)>,
    pub body: String,
}

/// What a call ends in: the decoded body with the quota that the headers
/// reported, or the failure.
pub type TwitterResult = Result<(Json, Option<RateLimit>), Error>;

/// A [`TwitterResult`] as a mathematical value.
pub type ResultView = Result<(JsonView, Option<RateLimit>), ErrorView>;

/// The mathematical value of a [`TwitterResult`].
pub open spec fn result_view(result: TwitterResult) -> ResultView {
    match result {
        Ok((body, quota)) => Ok((body@, quota)),
        Err(error) => Err(error@),
    }
}

/// Whether the status says that the request failed: 400 to 599.
pub open spec fn is_failure(status: u16) -> bool {
    400 <= status && status <= 599
}

/// Whether the body is an object with a member `data` that is not `null`.
pub open spec fn has_data(body: JsonView) -> bool {
    match member_spec(body, "data"@) {
        Some(value) => !(value is Null),
        None => false,
    }
}

/// The entries of the member `errors`, where the body is an object with
/// such a member and the member is an array; no entries otherwise.
pub open spec fn error_entries(body: JsonView) -> Seq<JsonView> {
    match member_spec(body, "errors"@) {
        Some(JsonView::Array(entries)) => entries,
        _ => Seq::empty(),
    }
}

/// What a response comes to, given what reading its body as JSON gave:
/// a body that is no JSON is a decode error that keeps the text; a failure
/// status on a body with error entries and no data is an API error with
/// the status and the entries; everything else is the decoded body, error
/// entries beside data included.
pub open spec fn classify_spec(
    status: u16,
    raw: Seq<char>,
    decoded: Option<JsonView>,
    quota: Option<RateLimit>,
) -> ResultView {
    match decoded {
        None => Err(ErrorView::Decode(raw)),
        Some(body) => if is_failure(status) && !has_data(body) && error_entries(body).len() > 0 {
            Err(ErrorView::Api { status, errors: error_entries(body), rate_limit: quota })
        } else {
            Ok((body, quota))
        },
    }
}

fn copy_entries(body: &Json) -> (entries: Vec<Json>)
    ensures
        items_view(entries@) == error_entries(body@),
{
    let mut entries: Vec<Json> = Vec::new();
    let found = match body.member("errors") {
        Some(value) => value.items(),
        None => None,
    };
    match found {
        Some(items) => {
            let ghost all = items_view(items@);
            assert(error_entries(body@) == all);
            let mut i: usize = 0;
            while i < items.len()
                invariant
                    i <= items.len(),
                    all == items_view(items@),
                    items_view(entries@) == all.take(i as int),
                decreases items.len() - i,
            {
                let ghost before = items_view(entries@);
                entries.push(items[i].clone());
                assert(items_view(entries@) =~= before.push(all[i as int]));
                assert(all.take(i + 1) =~= all.take(i as int).push(all[i as int]));
                i += 1;
            }
            assert(all.take(i as int) == all);
        },
        None => {
            assert(items_view(entries@) =~= Seq::empty());
        },
    }
    entries
}

/// Decides what a response comes to, given what reading its body as JSON
/// gave.
pub fn classify(
    status: u16,
    body: String,
    decoded: Option<Json>,
    rate_limit: Option<RateLimit>,
) -> (result: TwitterResult)
    ensures
        result_view(result) == classify_spec(
            status,
            body@,
            match decoded {
                Some(json) => Some(json@),
                None => None,
            },
            rate_limit,
        ),
{
    match decoded {
        None => Err(Error::Decode(body)),
        Some(json) => {
            let failed = 400 <= status && status <= 599;
            let with_data = match json.member("data") {
                Some(value) => !value.is_null(),
                None => false,
            };
            if failed && !with_data {
                let errors = copy_entries(&json);
                if errors.len() > 0 {
                    return Err(Error::Api { status, errors, rate_limit });
                }
            }
            Ok((json, rate_limit))
        },
    }
}

/// Reads a response: the quota from its headers, then its body as JSON,
/// then what the two and the status come to.
pub fn interpret(response: HttpResponse) -> (result: TwitterResult)
    ensures
        result_view(result) == classify_spec(
            response.status,
            response.body@,
            json_parse(response.body@),
            rate_limit_spec(response.headers.deep_view()),
        ),
{
    let rate_limit = RateLimit::from_headers(&response.headers);
    let decoded = Json::parse(response.body.as_str());
    classify(response.status, response.body, decoded, rate_limit)
}

} // verus!
