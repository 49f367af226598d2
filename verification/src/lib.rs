//! A typed client binding for the Twitter API v2: request builders, request
//! signing and response handling, with the rules of each stated as
//! contracts and proved.
//!
//! A call goes through the library in three steps. An endpoint of [`api`]
//! turns the options chosen into a [`request::PreparedRequest`], authorised
//! by a bearer token or by a signature of [`oauth10a`]. Sending is left to
//! the caller. What comes back is handed to [`api::interpret`], which reads
//! the quota of [`rate_limit`] from the headers and the body as [`json`],
//! and tells a result from the failures of [`error`]. The types of
//! [`responses`] read the JSON member by member, as [`object`] describes,
//! and keep what they do not know. [`retry`] decides whether a failed call
//! is made again, and after how long.

pub mod api;
pub mod error;
pub mod fields;
pub mod json;
pub mod oauth10a;
pub mod object;
pub mod rate_limit;
pub mod request;
pub mod responses;
pub mod retry;
pub mod text;
pub mod time;
