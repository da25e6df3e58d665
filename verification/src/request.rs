//! The request model: method, url, header multimap and query-parameter
//! multimap, together with the parser that reads a request line of the
//! shape `METHOD PATH` out of raw request text.
//!
//! The path is split at its first `&` into the url and the query
//! string; further `&` characters separate the query pairs. A pair is
//! split at its first `=` into a name and a `,`-separated list of
//! values; repeated names accumulate their values in encounter order.

use vstd::prelude::*;
use vstd::string::*;

use crate::multimap::MultiMap;
use crate::multimap::mm_lookup;
use crate::multimap::mm_add_value;
use crate::multimap::mm_add_values;
use crate::text::find_ch;
use crate::text::find_char;
use crate::text::find_crlf;
use crate::text::find_crlf_str;
use crate::text::split_on;
use crate::text::split_str;
use crate::text::str_eq;
use crate::text::lemma_find_ch;
use crate::text::lemma_find_crlf;
use crate::text::lemma_split_on_len;

verus! {

/// The four request methods the dispatcher supports.
#[derive(Debug, PartialEq, Eq, Structural, Clone, Copy)]
pub enum RequestMethod {
    GET,
    POST,
    PUT,
    DELETE,
}

/// A failure to parse request text; carries a descriptive message.
#[derive(Debug)]
pub struct ParseError {
    pub message: String,
}

impl View for ParseError {
    type V = Seq<char>;

    open spec fn view(&self) -> Seq<char> {
        self.message@
    }
}

impl ParseError {
    /// The descriptive message.
    pub fn message(&self) -> (r: &str)
        ensures
            r@ == self@,
    {
        self.message.as_str()
    }
}

/// Wraps a message into a parse error.
pub fn parser_error(error_message: String) -> (r: ParseError)
    ensures
        r@ == error_message@,
{
    ParseError { message: error_message }
}

/// The method named by `s`, under case-sensitive exact match.
pub open spec fn spec_parse_method(s: Seq<char>) -> Option<RequestMethod> {
    if s == "GET"@ {
        Some(RequestMethod::GET)
    } else if s == "POST"@ {
        Some(RequestMethod::POST)
    } else if s == "PUT"@ {
        Some(RequestMethod::PUT)
    } else if s == "DELETE"@ {
        Some(RequestMethod::DELETE)
    } else {
        None
    }
}

impl RequestMethod {
    /// Parses a method token; any token but the four exact method names
    /// yields `None`.
    pub fn parse(method: &str) -> (r: Option<RequestMethod>)
        ensures
            r == spec_parse_method(method@),
    {
        if str_eq(method, "GET") {
            Some(RequestMethod::GET)
        } else if str_eq(method, "POST") {
            Some(RequestMethod::POST)
        } else if str_eq(method, "PUT") {
            Some(RequestMethod::PUT)
        } else if str_eq(method, "DELETE") {
            Some(RequestMethod::DELETE)
        } else {
            None
        }
    }
}

/// The request line: the text before the first `"\r\n"`, or all of `s`
/// when no line terminator occurs.
pub open spec fn request_line_of(s: Seq<char>) -> Seq<char> {
    match find_crlf(s) {
        Some(i) => s.take(i),
        None => s,
    }
}

/// The message reported for a malformed request line.
pub open spec fn msg_invalid_request_line(line: Seq<char>) -> Seq<char> {
    "Invalid request line: "@ + line
}

/// The message reported for a query pair without `=`.
pub open spec fn msg_invalid_query_param(seg: Seq<char>) -> Seq<char> {
    "Invalid query param: "@ + seg
}

/// Splits the request line on spaces into a method token and a path.
/// A line without a space, or with an unknown method token, is
/// malformed.
pub open spec fn spec_parse_request_line(line: Seq<char>) -> Result<
    (RequestMethod, Seq<char>),
    Seq<char>,
> {
    match find_ch(line, ' ') {
        None => Err(msg_invalid_request_line(line)),
        Some(i) => match spec_parse_method(line.take(i)) {
            None => Err(msg_invalid_request_line(line)),
            Some(m) => {
                let rest = line.skip(i + 1);
                match find_ch(rest, ' ') {
                    Some(j) => Ok((m, rest.take(j))),
                    None => Ok((m, rest)),
                }
            },
        },
    }
}

/// Splits one `name=v1,v2,...` query pair.
pub open spec fn spec_parse_query_param(seg: Seq<char>) -> Result<
    (Seq<char>, Seq<Seq<char>>),
    Seq<char>,
> {
    match find_ch(seg, '=') {
        None => Err(msg_invalid_query_param(seg)),
        Some(i) => Ok((seg.take(i), split_on(seg.skip(i + 1), ','))),
    }
}

/// Folds query pairs into the multimap `acc`, in order; the first
/// malformed pair stops the fold with its error.
pub open spec fn spec_parse_segments(
    segs: Seq<Seq<char>>,
    acc: Seq<(Seq<char>, Seq<Seq<char>>)>,
) -> Result<Seq<(Seq<char>, Seq<Seq<char>>)>, Seq<char>>
    decreases segs.len(),
{
    if segs.len() == 0 {
        Ok(acc)
    } else {
        match spec_parse_query_param(segs[0]) {
            Err(e) => Err(e),
            Ok((name, values)) => spec_parse_segments(
                segs.drop_first(),
                mm_add_values(acc, name, values),
            ),
        }
    }
}

/// Parses a whole query string of `&`-separated pairs.
pub open spec fn spec_parse_query_params(q: Seq<char>) -> Result<
    Seq<(Seq<char>, Seq<Seq<char>>)>,
    Seq<char>,
> {
    spec_parse_segments(split_on(q, '&'), Seq::empty())
}

/// Splits the path at its first `&` into the url and an optional query
/// string; an empty or missing query string yields no parameters.
pub open spec fn spec_parse_path(path: Seq<char>) -> Result<
    (Seq<char>, Seq<(Seq<char>, Seq<Seq<char>>)>),
    Seq<char>,
> {
    match find_ch(path, '&') {
        None => Ok((path, Seq::empty())),
        Some(i) => {
            let url = path.take(i);
            let q = path.skip(i + 1);
            if q.len() == 0 {
                Ok((url, Seq::empty()))
            } else {
                match spec_parse_query_params(q) {
                    Ok(qp) => Ok((url, qp)),
                    Err(e) => Err(e),
                }
            }
        },
    }
}

/// The whole parse: request line, then method and path, then url and
/// query parameters.
pub open spec fn spec_parse_request(s: Seq<char>) -> Result<
    (RequestMethod, Seq<char>, Seq<(Seq<char>, Seq<Seq<char>>)>),
    Seq<char>,
> {
    match spec_parse_request_line(request_line_of(s)) {
        Err(e) => Err(e),
        Ok((m, path)) => match spec_parse_path(path) {
            Err(e) => Err(e),
            Ok((url, qp)) => Ok((m, url, qp)),
        },
    }
}

/// A request line without a space, or whose method token is not one of
/// the four exact method names, never parses: the whole parse fails
/// with the malformed-request-line message.
pub proof fn lemma_parse_rejects_bad_request_line(s: Seq<char>)
    requires
        match find_ch(request_line_of(s), ' ') {
            None => true,
            Some(i) => spec_parse_method(request_line_of(s).take(i)) is None,
        },
    ensures
        spec_parse_request(s) == Err::<
            (RequestMethod, Seq<char>, Seq<(Seq<char>, Seq<Seq<char>>)>),
            Seq<char>,
        >(msg_invalid_request_line(request_line_of(s))),
{
}

/// An immutable request: method, url, header multimap and
/// query-parameter multimap.
#[derive(Debug)]
pub struct Request {
    pub url: String,
    pub method: RequestMethod,
    pub headers: MultiMap,
    pub query_params: MultiMap,
}

/// Accumulates the attributes of a request before it is built.
pub struct RequestBuilder {
    pub url: String,
    pub method: RequestMethod,
    pub headers: MultiMap,
    pub query_params: MultiMap,
}

impl Request {
    fn new(builder: RequestBuilder) -> (r: Request)
        ensures
            r.url@ == builder.url@,
            r.method == builder.method,
            r.headers@ == builder.headers@,
            r.query_params@ == builder.query_params@,
    {
        Request {
            url: builder.url,
            method: builder.method,
            headers: builder.headers,
            query_params: builder.query_params,
        }
    }

    /// Parses request text: the request line is read, the rest of the
    /// text is ignored, and the headers of the result are empty.
    pub fn parse(request_str: &str) -> (r: Result<Request, ParseError>)
        ensures
            match r {
                Ok(req) => spec_parse_request(request_str@) == Ok::<
                    (RequestMethod, Seq<char>, Seq<(Seq<char>, Seq<Seq<char>>)>),
                    Seq<char>,
                >((req.method, req.url@, req.query_params@)) && req.headers@ =~= Seq::<
                    (Seq<char>, Seq<Seq<char>>),
                >::empty(),
                Err(e) => spec_parse_request(request_str@) == Err::<
                    (RequestMethod, Seq<char>, Seq<(Seq<char>, Seq<Seq<char>>)>),
                    Seq<char>,
                >(e@),
            },
    {
        let line = match find_crlf_str(request_str) {
            Some(i) => {
                proof {
                    lemma_find_crlf(request_str@);
                }
                request_str.substring_char(0, i)
            },
            None => request_str,
        };
        proof {
            assert(line@ =~= request_line_of(request_str@));
        }
        let (method, path) = match parse_request_line(line) {
            Ok(p) => p,
            Err(e) => {
                return Err(e);
            },
        };
        let (url, query_params) = match parse_path(path.as_str()) {
            Ok(p) => p,
            Err(e) => {
                return Err(e);
            },
        };
        Ok(Request { url, method, headers: MultiMap::new(), query_params })
    }

    /// A builder whose request, unless changed, is a `GET` of the empty
    /// url with no headers and no query parameters.
    pub fn builder() -> (r: RequestBuilder)
        ensures
            r.url@ == ""@,
            r.method == RequestMethod::GET,
            r.headers@ =~= Seq::<(Seq<char>, Seq<Seq<char>>)>::empty(),
            r.query_params@ =~= Seq::<(Seq<char>, Seq<Seq<char>>)>::empty(),
    {
        RequestBuilder {
            url: String::from_str(""),
            method: RequestMethod::GET,
            headers: MultiMap::new(),
            query_params: MultiMap::new(),
        }
    }

    /// The values of the header `header_name`, or `None` when it was
    /// never added.
    pub fn get_header<'a>(&'a self, header_name: &str) -> (r: Option<&'a Vec<String>>)
        ensures
            match r {
                Some(v) => mm_lookup(self.headers@, header_name@) == Some(v.deep_view()),
                None => mm_lookup(self.headers@, header_name@) is None,
            },
    {
        self.headers.get(header_name)
    }

    /// The values of the query parameter `query_param_name`, or `None`
    /// when it was never added.
    pub fn get_query_param<'a>(&'a self, query_param_name: &str) -> (r: Option<&'a Vec<String>>)
        ensures
            match r {
                Some(v) => mm_lookup(self.query_params@, query_param_name@) == Some(v.deep_view()),
                None => mm_lookup(self.query_params@, query_param_name@) is None,
            },
    {
        self.query_params.get(query_param_name)
    }
}

/// Parses the request line into a method and a path. The method token
/// is the text before the first space; the path is the token after it.
pub fn parse_request_line(request_line: &str) -> (r: Result<(RequestMethod, String), ParseError>)
    ensures
        match r {
            Ok(p) => spec_parse_request_line(request_line@) == Ok::<
                (RequestMethod, Seq<char>),
                Seq<char>,
            >((p.0, p.1@)),
            Err(e) => spec_parse_request_line(request_line@) == Err::<
                (RequestMethod, Seq<char>),
                Seq<char>,
            >(e@),
        },
{
    match find_char(request_line, ' ') {
        None => Err(
            parser_error(String::from_str("Invalid request line: ").concat(request_line)),
        ),
        Some(i) => {
            proof {
                lemma_find_ch(request_line@, ' ');
            }
            let method_str = request_line.substring_char(0, i);
            proof {
                assert(method_str@ =~= request_line@.take(i as int));
            }
            match RequestMethod::parse(method_str) {
                None => Err(
                    parser_error(String::from_str("Invalid request line: ").concat(request_line)),
                ),
                Some(method) => {
                    let n = request_line.unicode_len();
                    let rest = request_line.substring_char(i + 1, n);
                    proof {
                        assert(rest@ =~= request_line@.skip(i + 1));
                    }
                    let path = match find_char(rest, ' ') {
                        Some(j) => {
                            proof {
                                lemma_find_ch(rest@, ' ');
                            }
                            let p = rest.substring_char(0, j);
                            proof {
                                assert(p@ =~= rest@.take(j as int));
                            }
                            p
                        },
                        None => rest,
                    };
                    Ok((method, String::from_str(path)))
                },
            }
        },
    }
}

/// Splits the path into the url and its parsed query parameters.
pub fn parse_path(path: &str) -> (r: Result<(String, MultiMap), ParseError>)
    ensures
        match r {
            Ok(p) => spec_parse_path(path@) == Ok::<
                (Seq<char>, Seq<(Seq<char>, Seq<Seq<char>>)>),
                Seq<char>,
            >((p.0@, p.1@)),
            Err(e) => spec_parse_path(path@) == Err::<
                (Seq<char>, Seq<(Seq<char>, Seq<Seq<char>>)>),
                Seq<char>,
            >(e@),
        },
{
    match find_char(path, '&') {
        None => Ok((String::from_str(path), MultiMap::new())),
        Some(i) => {
            proof {
                lemma_find_ch(path@, '&');
            }
            let url = path.substring_char(0, i);
            let n = path.unicode_len();
            let q = path.substring_char(i + 1, n);
            proof {
                assert(url@ =~= path@.take(i as int));
                assert(q@ =~= path@.skip(i + 1));
            }
            if q.unicode_len() == 0 {
                Ok((String::from_str(url), MultiMap::new()))
            } else {
                match parse_query_params(q) {
                    Ok(query_params) => Ok((String::from_str(url), query_params)),
                    Err(e) => Err(e),
                }
            }
        },
    }
}

/// Parses a query string of `&`-separated pairs into a multimap;
/// repeated names accumulate their values in encounter order.
pub fn parse_query_params(query_str: &str) -> (r: Result<MultiMap, ParseError>)
    ensures
        match r {
            Ok(qp) => spec_parse_query_params(query_str@) == Ok::<
                Seq<(Seq<char>, Seq<Seq<char>>)>,
                Seq<char>,
            >(qp@),
            Err(e) => spec_parse_query_params(query_str@) == Err::<
                Seq<(Seq<char>, Seq<Seq<char>>)>,
                Seq<char>,
            >(e@),
        },
{
    let query_params = split_str(query_str, '&');
    let ghost segs = split_on(query_str@, '&');
    let n = query_params.len();
    let mut result = MultiMap::new();
    let mut idx: usize = 0;
    proof {
        assert(segs.skip(0) =~= segs);
    }
    while idx < n
        invariant
            n == query_params.len(),
            idx <= n,
            segs == split_on(query_str@, '&'),
            query_params.deep_view() == segs,
            spec_parse_query_params(query_str@) == spec_parse_segments(
                segs.skip(idx as int),
                result@,
            ),
        decreases n - idx,
    {
        let ghost rest = segs.skip(idx as int);
        proof {
            assert(rest[0] == segs[idx as int]);
            assert(query_params@[idx as int]@ == segs[idx as int]);
        }
        match parse_query_param(query_params[idx].as_str()) {
            Err(e) => {
                return Err(e);
            },
            Ok((param_name, param_values)) => {
                proof {
                    assert(rest.drop_first() =~= segs.skip(idx + 1));
                }
                result.add_all(param_name.as_str(), param_values);
            },
        }
        idx = idx + 1;
    }
    proof {
        assert(segs.skip(n as int) =~= Seq::<Seq<char>>::empty());
    }
    Ok(result)
}

/// Splits one query pair at its first `=` into a name and its list of
/// values; a pair without `=` is malformed.
pub fn parse_query_param(query_param: &str) -> (r: Result<(String, Vec<String>), ParseError>)
    ensures
        match r {
            Ok(p) => spec_parse_query_param(query_param@) == Ok::<
                (Seq<char>, Seq<Seq<char>>),
                Seq<char>,
            >((p.0@, p.1.deep_view())),
            Err(e) => spec_parse_query_param(query_param@) == Err::<
                (Seq<char>, Seq<Seq<char>>),
                Seq<char>,
            >(e@),
        },
{
    match find_char(query_param, '=') {
        None => Err(parser_error(String::from_str("Invalid query param: ").concat(query_param))),
        Some(i) => {
            proof {
                lemma_find_ch(query_param@, '=');
            }
            let param_name = query_param.substring_char(0, i);
            let n = query_param.unicode_len();
            let raw_values = query_param.substring_char(i + 1, n);
            proof {
                assert(param_name@ =~= query_param@.take(i as int));
                assert(raw_values@ =~= query_param@.skip(i + 1));
            }
            match parse_query_param_values(raw_values) {
                Ok(param_values) => Ok((String::from_str(param_name), param_values)),
                Err(e) => Err(e),
            }
        },
    }
}

/// Splits a raw value list on `,`. Splitting always yields at least one
/// value, so the guard against an empty list never fires.
pub fn parse_query_param_values(query_param_values: &str) -> (r: Result<Vec<String>, ParseError>)
    ensures
        match r {
            Ok(values) => values.deep_view() == split_on(query_param_values@, ','),
            Err(_) => false,
        },
{
    let values = split_str(query_param_values, ',');
    if values.len() == 0 {
        proof {
            lemma_split_on_len(query_param_values@, ',');
        }
        Err(
            parser_error(
                String::from_str("Invalid query param value: ").concat(query_param_values),
            ),
        )
    } else {
        Ok(values)
    }
}

impl RequestBuilder {
    /// Sets the method.
    pub fn method(self, method: RequestMethod) -> (r: Self)
        ensures
            r.method == method,
            r.url@ == self.url@,
            r.headers@ == self.headers@,
            r.query_params@ == self.query_params@,
    {
        RequestBuilder { method, ..self }
    }

    /// Sets the url.
    pub fn url(self, url: &str) -> (r: Self)
        ensures
            r.url@ == url@,
            r.method == self.method,
            r.headers@ == self.headers@,
            r.query_params@ == self.query_params@,
    {
        RequestBuilder { url: String::from_str(url), ..self }
    }

    /// Appends `header_value` to the values of `header_name`,
    /// preserving the values of every other header.
    pub fn add_header(self, header_name: &str, header_value: &str) -> (r: Self)
        ensures
            r.headers@ =~= mm_add_value(self.headers@, header_name@, header_value@),
            r.url@ == self.url@,
            r.method == self.method,
            r.query_params@ == self.query_params@,
    {
        let mut headers = self.headers;
        headers.add(header_name, String::from_str(header_value));
        RequestBuilder { headers, ..self }
    }

    /// Appends `query_param_value` to the values of `query_param_name`,
    /// preserving the values of every other query parameter.
    pub fn add_query_param(self, query_param_name: &str, query_param_value: &str) -> (r: Self)
        ensures
            r.query_params@ =~= mm_add_value(
                self.query_params@,
                query_param_name@,
                query_param_value@,
            ),
            r.url@ == self.url@,
            r.method == self.method,
            r.headers@ == self.headers@,
    {
        let mut query_params = self.query_params;
        query_params.add(query_param_name, String::from_str(query_param_value));
        RequestBuilder { query_params, ..self }
    }

    /// Builds the request.
    pub fn build(self) -> (r: Request)
        ensures
            r.url@ == self.url@,
            r.method == self.method,
            r.headers@ == self.headers@,
            r.query_params@ == self.query_params@,
    {
        Request::new(self)
    }
}

} // verus!
