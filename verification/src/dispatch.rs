//! The per-connection decision: parse the request text, scan the route
//! table in registration order, and either name the first matching
//! handler or produce the error response itself — a 500 naming the
//! parse failure, or a 404 with a fixed body when no route matches.

use vstd::prelude::*;
use vstd::string::*;

use crate::matcher::RequestMatcher;
use crate::request::ParseError;
use crate::request::Request;
use crate::request::RequestMethod;
use crate::request::spec_parse_request;
use crate::response::Response;

verus! {

/// Index of the first matcher accepting `(method, url)`, if any:
/// first-match-wins, later matches are ignored.
pub open spec fn spec_find_route(
    ms: Seq<RequestMatcher>,
    method: RequestMethod,
    url: Seq<char>,
) -> Option<int>
    decreases ms.len(),
{
    if ms.len() == 0 {
        None
    } else if ms[0].method == method && ms[0].url@ == url {
        Some(0int)
    } else {
        match spec_find_route(ms.drop_first(), method, url) {
            Some(i) => Some(i + 1),
            None => None,
        }
    }
}

/// `spec_find_route` returns the least index of a matching matcher, or
/// `None` when no matcher accepts.
pub proof fn lemma_spec_find_route(ms: Seq<RequestMatcher>, method: RequestMethod, url: Seq<char>)
    ensures
        match spec_find_route(ms, method, url) {
            Some(i) => 0 <= i < ms.len() && ms[i].method == method && ms[i].url@ == url && (forall|
                j: int,
            |
                0 <= j < i ==> !(ms[j].method == method && ms[j].url@ == url)),
            None => forall|j: int|
                0 <= j < ms.len() ==> !(ms[j].method == method && ms[j].url@ == url),
        },
    decreases ms.len(),
{
    if ms.len() > 0 && !(ms[0].method == method && ms[0].url@ == url) {
        lemma_spec_find_route(ms.drop_first(), method, url);
        match spec_find_route(ms.drop_first(), method, url) {
            Some(i) => {
                assert(ms[i + 1] == ms.drop_first()[i]);
                assert forall|j: int| 0 <= j < i + 1 implies !((#[trigger] ms[j]).method == method
                    && ms[j].url@ == url) by {
                    if j > 0 {
                        assert(ms[j] == ms.drop_first()[j - 1]);
                    }
                }
            },
            None => {
                assert forall|j: int| 0 <= j < ms.len() implies !((#[trigger] ms[j]).method
                    == method && ms[j].url@ == url) by {
                    if j > 0 {
                        assert(ms[j] == ms.drop_first()[j - 1]);
                    }
                }
            },
        }
    }
}

/// Scans the route table in registration order and returns the index
/// of the first matcher accepting the request.
pub fn find_route(matchers: &Vec<RequestMatcher>, request: &Request) -> (r: Option<usize>)
    ensures
        match r {
            Some(i) => spec_find_route(matchers@, request.method, request.url@) == Some(i as int),
            None => spec_find_route(matchers@, request.method, request.url@) is None,
        },
{
    let n = matchers.len();
    let mut i: usize = 0;
    while i < n
        invariant
            n == matchers@.len(),
            i <= n,
            forall|j: int|
                0 <= j < i ==> !((#[trigger] matchers@[j]).method == request.method
                    && matchers@[j].url@ == request.url@),
        decreases n - i,
    {
        if matchers[i].matches(request) {
            proof {
                lemma_spec_find_route(matchers@, request.method, request.url@);
            }
            return Some(i);
        }
        i = i + 1;
    }
    proof {
        lemma_spec_find_route(matchers@, request.method, request.url@);
    }
    None
}

/// The fixed 404 response for a request no route matches.
pub fn not_found_response() -> (r: Response)
    ensures
        r.code == 404,
        r.body@ == "Requested page has not been found"@,
        r.headers.deep_view() =~= Seq::<(Seq<char>, Seq<char>)>::empty(),
{
    Response::builder().code(404).body("Requested page has not been found").build()
}

/// The 500 response naming a parse failure.
pub fn server_error_response(error: &ParseError) -> (r: Response)
    ensures
        r.code == 500,
        r.body@ == "Something went wrong: "@ + error@,
        r.headers.deep_view() =~= Seq::<(Seq<char>, Seq<char>)>::empty(),
{
    let body = String::from_str("Something went wrong: ").concat(error.message());
    Response::builder().code(500).body(body.as_str()).build()
}

/// What a worker does with one connection's request text: hand the
/// parsed request to the handler at a route index, or answer with a
/// response of its own.
pub enum Dispatch {
    /// The request parsed and the matcher at this index accepted it
    /// first; its handler is owed the request.
    Handle(usize, Request),
    /// No handler runs: the response is a 500 naming the parse failure
    /// or the fixed 404.
    Respond(Response),
}

/// What `route_request` promises of its outcome.
pub open spec fn dispatch_post(ms: Seq<RequestMatcher>, s: Seq<char>, d: Dispatch) -> bool {
    match spec_parse_request(s) {
        Err(msg) => match d {
            Dispatch::Respond(resp) => resp.code == 500 && resp.body@ == "Something went wrong: "@
                + msg && resp.headers.deep_view() == Seq::<(Seq<char>, Seq<char>)>::empty(),
            _ => false,
        },
        Ok((m, url, qp)) => match spec_find_route(ms, m, url) {
            Some(i) => match d {
                Dispatch::Handle(idx, req) => idx as int == i && req.method == m && req.url@ == url
                    && req.query_params@ == qp && req.headers@ == Seq::<
                    (Seq<char>, Seq<Seq<char>>),
                >::empty(),
                _ => false,
            },
            None => match d {
                Dispatch::Respond(resp) => resp.code == 404 && resp.body@
                    == "Requested page has not been found"@ && resp.headers.deep_view() == Seq::<
                    (Seq<char>, Seq<char>),
                >::empty(),
                _ => false,
            },
        },
    }
}

/// Parses the request text and routes it: the first matching route's
/// index is named together with the parsed request; a parse failure
/// yields the 500 response naming it, an unmatched request the 404.
pub fn route_request(matchers: &Vec<RequestMatcher>, request_str: &str) -> (d: Dispatch)
    ensures
        dispatch_post(matchers@, request_str@, d),
{
    match Request::parse(request_str) {
        Err(e) => Dispatch::Respond(server_error_response(&e)),
        Ok(request) => match find_route(matchers, &request) {
            Some(i) => Dispatch::Handle(i, request),
            None => Dispatch::Respond(not_found_response()),
        },
    }
}

} // verus!
