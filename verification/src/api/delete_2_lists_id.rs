//! `DELETE /2/lists/:id`: deletes a list.

use crate::api::{bearer_auth, bearer_value, with_authorization};
use crate::request::{Method, PreparedRequest, RequestView};
use crate::text::{replace_all, replace_spec};
use vstd::prelude::*;

verus! {

/// The URL of the endpoint, with `:id` where the list's id goes.
pub const URL: &'static str = "https://api.twitter.com/2/lists/:id";

/// The request that deletes a list.
#[derive(Debug, Clone, Default)]
pub struct Api {
    bearer_code: String,
    id: String,
}

/// An [`Api`] as mathematical values.
pub struct ApiView {
    pub bearer_code: Seq<char>,
    pub id: Seq<char>,
}

impl View for Api {
    type V = ApiView;

    closed spec fn view(&self) -> ApiView {
        ApiView { bearer_code: self.bearer_code@, id: self.id@ }
    }
}

/// The request that an [`Api`] builds: the verb `DELETE`, the URL with the
/// id in place of `:id`, no parameters, the bearer token as authorisation.
pub open spec fn request_spec(api: ApiView) -> RequestView {
    with_authorization(
        RequestView {
            method: Method::Delete,
            url: replace_spec(URL@, ":id"@, api.id),
            query: Seq::empty(),
            headers: Seq::empty(),
            body: None,
        },
        bearer_value(api.bearer_code),
    )
}

impl Api {
    /// The request that deletes the list with the id.
    pub fn new(bearer_code: &str, id: &str) -> (api: Self)
        ensures
            api@ == (ApiView { bearer_code: bearer_code@, id: id@ }),
    {
        Self { bearer_code: bearer_code.to_owned(), id: id.to_owned() }
    }

    /// The prepared request.
    pub fn build(self) -> (request: PreparedRequest)
        ensures
            request@ == request_spec(self@),
    {
        let draft = PreparedRequest {
            method: Method::Delete,
            url: replace_all(URL, ":id", self.id.as_str()),
            query: Vec::new(),
            headers: Vec::new(),
            body: None,
        };
        assert(draft.query.deep_view() =~= Seq::empty());
        assert(draft.headers.deep_view() =~= Seq::empty());
        bearer_auth(draft, self.bearer_code.as_str())
    }
}

} // verus!
