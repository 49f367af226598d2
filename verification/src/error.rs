//! What can go wrong between building a request and holding its answer.

use crate::json::{items_view, Json, JsonView};
use crate::rate_limit::RateLimit;
use vstd::prelude::*;

verus! {

/// The failures a call can end in. A caller tells them apart to decide
/// whether to try again and what to report.
#[derive(Debug)]
pub enum Error {
    /// The request was not sent or no response came back; the text names
    /// the cause.
    Transport(String),
    /// The body was no JSON; it is kept as it came.
    Decode(String),
    /// The API answered a failure status with error entries and no data;
    /// the quota is the one that the answer's headers reported.
    Api { status: u16, errors: Vec<Json>, rate_limit: Option<RateLimit> },
    /// No signature could be made for the request.
    Signing(String),
}

/// An [`Error`] as a mathematical value.
pub enum ErrorView {
    Transport(Seq<char>),
    Decode(Seq<char>),
    Api { status: u16, errors: Seq<JsonView>, rate_limit: Option<RateLimit> },
    Signing(Seq<char>),
}

impl View for Error {
    type V = ErrorView;

    open spec fn view(&self) -> ErrorView {
        match self {
            Error::Transport(cause) => ErrorView::Transport(cause@),
            Error::Decode(body) => ErrorView::Decode(body@),
            Error::Api { status, errors, rate_limit } => ErrorView::Api {
                status: *status,
                errors: items_view(errors@),
                rate_limit: *rate_limit,
            },
            Error::Signing(cause) => ErrorView::Signing(cause@),
        }
    }
}

impl Error {
    /// The failure to send a request or to receive its answer.
    pub fn transport(cause: &str) -> (error: Error)
        ensures
            error@ == ErrorView::Transport(cause@),
    {
        Error::Transport(cause.to_owned())
    }

    /// The HTTP status that came with an API failure.
    pub fn status(&self) -> (code: Option<u16>)
        ensures
            code == match self@ {
                ErrorView::Api { status, .. } => Some(status),
                _ => None,
            },
    {
        match self {
            Error::Api { status, .. } => Some(*status),
            _ => None,
        }
    }

    /// A short name of the kind of failure.
    pub fn to_string(&self) -> (s: String)
        ensures
            s@ == match self@ {
                ErrorView::Transport(_) => "transport error"@,
                ErrorView::Decode(_) => "decode error"@,
                ErrorView::Api { .. } => "api error"@,
                ErrorView::Signing(_) => "signing error"@,
            },
    {
        match self {
            Error::Transport(_) => "transport error".to_owned(),
            Error::Decode(_) => "decode error".to_owned(),
            Error::Api { .. } => "api error".to_owned(),
            Error::Signing(_) => "signing error".to_owned(),
        }
    }
}

} // verus!
