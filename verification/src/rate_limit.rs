//! The quota that a response reports in its headers.

use crate::request::Param;
use crate::text::{chars_of, parse_u64, parse_u64_spec};
use vstd::prelude::*;

verus! {

/// How many calls the current window allows, how many of them are left, and
/// when the window ends, in seconds since the epoch.
#[derive(Debug, Clone, Copy, PartialEq, Eq, Structural)]
pub struct RateLimit {
    pub limit: u64,
    pub remaining: u64,
    pub reset: u64,
}

/// The lower-case form of an ASCII letter; any other character unchanged.
pub open spec fn lower(c: char) -> char {
    if 'A' <= c && c <= 'Z' {
        ((c as u8) + 32) as char
    } else {
        c
    }
}

/// Whether two header names are the same but for the case of ASCII
/// letters.
pub open spec fn same_name(a: Seq<char>, b: Seq<char>) -> bool {
    a.len() == b.len() && forall|i: int| 0 <= i < a.len() ==> lower(#[trigger] a[i]) == lower(b[i])
}

/// The value of the first header with the name.
pub open spec fn header_spec(headers: Seq<Param>, name: Seq<char>) -> Option<Seq<char>>
    decreases headers.len(),
{
    if headers.len() == 0 {
        None
    } else if same_name(headers[0].0, name) {
        Some(headers[0].1)
    } else {
        header_spec(headers.skip(1), name)
    }
}

/// The number that the header with the name holds.
pub open spec fn header_number(headers: Seq<Param>, name: Seq<char>) -> Option<u64> {
    match header_spec(headers, name) {
        Some(value) => parse_u64_spec(value),
        None => None,
    }
}

/// The quota that a list of headers reports: all three numbers, or
/// nothing.
pub open spec fn rate_limit_spec(headers: Seq<Param>) -> Option<RateLimit> {
    match (
        header_number(headers, "x-rate-limit-limit"@),
        header_number(headers, "x-rate-limit-remaining"@),
        header_number(headers, "x-rate-limit-reset"@),
    ) {
        (Some(limit), Some(remaining), Some(reset)) => Some(RateLimit { limit, remaining, reset }),
        _ => None,
    }
}

fn lower_of(c: char) -> (l: char)
    ensures
        l == lower(c),
{
    if c >= 'A' && c <= 'Z' {
        ((c as u8) + 32) as char
    } else {
        c
    }
}

fn names_match(a: &str, b: &str) -> (same: bool)
    ensures
        same == same_name(a@, b@),
{
    let x = chars_of(a);
    let y = chars_of(b);
    if x.len() != y.len() {
        return false;
    }
    let mut i: usize = 0;
    while i < x.len()
        invariant
            i <= x.len(),
            x.len() == y.len(),
            x@ == a@,
            y@ == b@,
            forall|k: int| 0 <= k < i ==> lower(#[trigger] x@[k]) == lower(y@[k]),
        decreases x.len() - i,
    {
        if lower_of(x[i]) != lower_of(y[i]) {
            return false;
        }
        i += 1;
    }
    true
}

/// The value of the first header with the name, the case of letters
/// aside.
pub fn header<'a>(headers: &'a Vec<(String, String)>, name: &str) -> (value: Option<&'a String>)
    ensures
        value.deep_view() == header_spec(headers.deep_view(), name@),
{
    let ghost all = headers.deep_view();
    let mut i: usize = 0;
    assert(all.skip(0) == all);
    while i < headers.len()
        invariant
            i <= headers.len(),
            all == headers.deep_view(),
            header_spec(all, name@) == header_spec(all.skip(i as int), name@),
        decreases headers.len() - i,
    {
        let ghost rest = all.skip(i as int);
        assert(rest[0] == all[i as int]);
        if names_match(headers[i].0.as_str(), name) {
            return Some(&headers[i].1);
        }
        assert(rest.skip(1) == all.skip(i + 1));
        i += 1;
    }
    None
}

fn number_of(headers: &Vec<(String, String)>, name: &str) -> (n: Option<u64>)
    ensures
        n == header_number(headers.deep_view(), name@),
{
    match header(headers, name) {
        Some(value) => parse_u64(value.as_str()),
        None => None,
    }
}

impl RateLimit {
    /// Reads the quota from the headers of a response. A header that is
    /// missing or holds no number leaves no quota at all.
    pub fn from_headers(headers: &Vec<(String, String)>) -> (quota: Option<RateLimit>)
        ensures
            quota == rate_limit_spec(headers.deep_view()),
    {
        let limit = number_of(headers, "x-rate-limit-limit");
        let remaining = number_of(headers, "x-rate-limit-remaining");
        let reset = number_of(headers, "x-rate-limit-reset");
        match (limit, remaining, reset) {
            (Some(limit), Some(remaining), Some(reset)) => Some(
                RateLimit { limit, remaining, reset },
            ),
            _ => None,
        }
    }
}

} // verus!
