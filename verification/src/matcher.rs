//! Exact-match routing: a matcher holds a method and a url and accepts
//! precisely the requests that carry both, byte for byte. No wildcards
//! and no normalization.

use vstd::prelude::*;
use vstd::string::*;

use crate::request::Request;
use crate::request::RequestMethod;
use crate::text::str_eq;

verus! {

/// Accepts requests whose method and url equal its own exactly.
pub struct RequestMatcher {
    pub method: RequestMethod,
    pub url: String,
}

/// Accumulates a method and a url before the matcher is built.
pub struct RequestMatcherBuilder {
    pub method: RequestMethod,
    pub url: String,
}

/// Whether a matcher with `method` and `url` accepts a request: the
/// request's method and url both equal them exactly (case-sensitive,
/// no trimming).
pub open spec fn spec_matches(method: RequestMethod, url: Seq<char>, request: &Request) -> bool {
    method == request.method && url == request.url@
}

impl RequestMatcher {
    fn new(builder: RequestMatcherBuilder) -> (r: RequestMatcher)
        ensures
            r.method == builder.method,
            r.url@ == builder.url@,
    {
        RequestMatcher { method: builder.method, url: builder.url }
    }

    /// A builder for a `POST` matcher.
    pub fn post() -> (r: RequestMatcherBuilder)
        ensures
            r.method == RequestMethod::POST,
            r.url@ == ""@,
    {
        RequestMatcherBuilder::new(RequestMethod::POST)
    }

    /// A builder for a `GET` matcher.
    pub fn get() -> (r: RequestMatcherBuilder)
        ensures
            r.method == RequestMethod::GET,
            r.url@ == ""@,
    {
        RequestMatcherBuilder::new(RequestMethod::GET)
    }

    /// A builder for a `DELETE` matcher.
    pub fn delete() -> (r: RequestMatcherBuilder)
        ensures
            r.method == RequestMethod::DELETE,
            r.url@ == ""@,
    {
        RequestMatcherBuilder::new(RequestMethod::DELETE)
    }

    /// A builder for a `PUT` matcher.
    pub fn put() -> (r: RequestMatcherBuilder)
        ensures
            r.method == RequestMethod::PUT,
            r.url@ == ""@,
    {
        RequestMatcherBuilder::new(RequestMethod::PUT)
    }

    /// True iff the request's method and url equal this matcher's.
    pub fn matches(&self, request: &Request) -> (r: bool)
        ensures
            r == spec_matches(self.method, self.url@, request),
    {
        self.method == request.method && str_eq(self.url.as_str(), request.url.as_str())
    }
}

/// For every matcher and request, the matcher accepts the request iff
/// the request's method equals the matcher's and its url equals the
/// matcher's exactly.
pub proof fn lemma_matches_exact(m: &RequestMatcher, request: &Request)
    ensures
        spec_matches(m.method, m.url@, request) <==> (request.method == m.method && request.url@
            == m.url@),
{
}

impl RequestMatcherBuilder {
    fn new(method: RequestMethod) -> (r: RequestMatcherBuilder)
        ensures
            r.method == method,
            r.url@ == ""@,
    {
        RequestMatcherBuilder { method, url: String::from_str("") }
    }

    /// Sets the url to match.
    pub fn url(self, url: &str) -> (r: Self)
        ensures
            r.method == self.method,
            r.url@ == url@,
    {
        RequestMatcherBuilder { url: String::from_str(url), ..self }
    }

    /// Builds the matcher.
    pub fn build(self) -> (r: RequestMatcher)
        ensures
            r.method == self.method,
            r.url@ == self.url@,
    {
        RequestMatcher::new(self)
    }
}

} // verus!
