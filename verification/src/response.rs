//! The response model: status code, header map and body, and its
//! serialization to the literal wire text
//! `HTTP/1.1 {code}\r\n{header-lines}\r\n{body}`.
//!
//! Response headers keep unique names: writing a name again overwrites
//! its value in place (last write wins), unlike the request side's
//! multimap. Headers are rendered in insertion order.

use vstd::prelude::*;
use vstd::string::*;

use crate::text::str_eq;

verus! {

/// The value under the first entry named `k`, if any.
pub open spec fn rm_lookup(m: Seq<(Seq<char>, Seq<char>)>, k: Seq<char>) -> Option<Seq<char>>
    decreases m.len(),
{
    if m.len() == 0 {
        None
    } else if m[0].0 == k {
        Some(m[0].1)
    } else {
        rm_lookup(m.drop_first(), k)
    }
}

/// Overwrites in place the value of the first entry named `k`, or adds
/// a new entry `(k, v)` at the end when `k` is absent.
pub open spec fn rm_insert(m: Seq<(Seq<char>, Seq<char>)>, k: Seq<char>, v: Seq<char>) -> Seq<
    (Seq<char>, Seq<char>),
>
    decreases m.len(),
{
    if m.len() == 0 {
        seq![(k, v)]
    } else if m[0].0 == k {
        seq![(m[0].0, v)] + m.drop_first()
    } else {
        seq![m[0]] + rm_insert(m.drop_first(), k, v)
    }
}

/// When the first entry named `k` stands at index `i`, `rm_insert`
/// overwrites exactly that entry's value.
pub proof fn lemma_rm_insert_found(m: Seq<(Seq<char>, Seq<char>)>, k: Seq<char>, v: Seq<char>, i: int)
    requires
        0 <= i < m.len(),
        m[i].0 == k,
        forall|j: int| 0 <= j < i ==> m[j].0 != k,
    ensures
        rm_insert(m, k, v) =~= m.update(i, (m[i].0, v)),
    decreases m.len(),
{
    if i > 0 {
        lemma_rm_insert_found(m.drop_first(), k, v, i - 1);
    }
}

/// When no entry is named `k`, `rm_insert` adds `(k, v)` at the end.
pub proof fn lemma_rm_insert_absent(m: Seq<(Seq<char>, Seq<char>)>, k: Seq<char>, v: Seq<char>)
    requires
        forall|j: int| 0 <= j < m.len() ==> m[j].0 != k,
    ensures
        rm_insert(m, k, v) =~= m.push((k, v)),
    decreases m.len(),
{
    if m.len() > 0 {
        lemma_rm_insert_absent(m.drop_first(), k, v);
    }
}

/// Last write wins: after `rm_insert`, the name holds exactly the new
/// value, and every other name holds what it held before.
pub proof fn lemma_rm_insert_lookup(
    m: Seq<(Seq<char>, Seq<char>)>,
    k: Seq<char>,
    v: Seq<char>,
    k2: Seq<char>,
)
    ensures
        rm_lookup(rm_insert(m, k, v), k) == Some(v),
        k2 != k ==> rm_lookup(rm_insert(m, k, v), k2) == rm_lookup(m, k2),
    decreases m.len(),
{
    let r = rm_insert(m, k, v);
    if m.len() == 0 {
        assert(r[0] == (k, v));
        assert(r.drop_first() =~= Seq::<(Seq<char>, Seq<char>)>::empty());
        if k2 != k {
            assert(rm_lookup(r, k2) == rm_lookup(r.drop_first(), k2));
        }
    } else if m[0].0 == k {
        assert(r[0] == (m[0].0, v));
        assert(r.drop_first() =~= m.drop_first());
        if k2 != k {
            assert(rm_lookup(r, k2) == rm_lookup(r.drop_first(), k2));
            assert(rm_lookup(m, k2) == rm_lookup(m.drop_first(), k2));
        }
    } else {
        lemma_rm_insert_lookup(m.drop_first(), k, v, k2);
        assert(r[0] == m[0]);
        assert(r.drop_first() =~= rm_insert(m.drop_first(), k, v));
        assert(rm_lookup(r, k) == rm_lookup(r.drop_first(), k));
        if k2 != k {
            if m[0].0 == k2 {
                assert(rm_lookup(r, k2) == Some(r[0].1));
                assert(rm_lookup(m, k2) == Some(m[0].1));
            } else {
                assert(rm_lookup(r, k2) == rm_lookup(r.drop_first(), k2));
                assert(rm_lookup(m, k2) == rm_lookup(m.drop_first(), k2));
            }
        }
    }
}

/// The character for the decimal digit `d`.
pub open spec fn digit_char(d: nat) -> char {
    if d == 0 {
        '0'
    } else if d == 1 {
        '1'
    } else if d == 2 {
        '2'
    } else if d == 3 {
        '3'
    } else if d == 4 {
        '4'
    } else if d == 5 {
        '5'
    } else if d == 6 {
        '6'
    } else if d == 7 {
        '7'
    } else if d == 8 {
        '8'
    } else {
        '9'
    }
}

/// The decimal rendering of `n`, most significant digit first, with no
/// leading zero except for `n == 0` itself.
pub open spec fn dec_str(n: nat) -> Seq<char>
    decreases n,
{
    if n < 10 {
        seq![digit_char(n)]
    } else {
        dec_str(n / 10) + seq![digit_char(n % 10)]
    }
}

/// The string holding the one digit `d`.
fn digit_to_string(d: u16) -> (r: String)
    requires
        d < 10,
    ensures
        r@ == seq![digit_char(d as nat)],
{
    let r = match d {
        0 => String::from_str("0"),
        1 => String::from_str("1"),
        2 => String::from_str("2"),
        3 => String::from_str("3"),
        4 => String::from_str("4"),
        5 => String::from_str("5"),
        6 => String::from_str("6"),
        7 => String::from_str("7"),
        8 => String::from_str("8"),
        _ => String::from_str("9"),
    };
    proof {
        reveal_strlit("0");
        reveal_strlit("1");
        reveal_strlit("2");
        reveal_strlit("3");
        reveal_strlit("4");
        reveal_strlit("5");
        reveal_strlit("6");
        reveal_strlit("7");
        reveal_strlit("8");
        reveal_strlit("9");
        assert(r@ =~= seq![digit_char(d as nat)]);
    }
    r
}

/// Renders `n` in decimal.
pub fn u16_to_dec(n: u16) -> (r: String)
    ensures
        r@ == dec_str(n as nat),
    decreases n,
{
    if n < 10 {
        digit_to_string(n)
    } else {
        let high = u16_to_dec(n / 10);
        let low = digit_to_string(n % 10);
        high.concat(low.as_str())
    }
}

/// Each header rendered as `{name}: {value}\r\n`, in order.
pub open spec fn render_header_lines(hs: Seq<(Seq<char>, Seq<char>)>) -> Seq<char>
    decreases hs.len(),
{
    if hs.len() == 0 {
        Seq::empty()
    } else {
        hs[0].0 + ": "@ + hs[0].1 + "\r\n"@ + render_header_lines(hs.drop_first())
    }
}

/// Rendering one more header appends its line at the end.
pub proof fn lemma_render_header_lines_push(
    hs: Seq<(Seq<char>, Seq<char>)>,
    name: Seq<char>,
    value: Seq<char>,
)
    ensures
        render_header_lines(hs.push((name, value))) =~= render_header_lines(hs) + (name + ": "@
            + value + "\r\n"@),
    decreases hs.len(),
{
    let e = (name, value);
    let line = name + ": "@ + value + "\r\n"@;
    if hs.len() == 0 {
        assert(hs.push(e)[0] == e);
        assert(hs.push(e).drop_first() =~= Seq::<(Seq<char>, Seq<char>)>::empty());
        assert(render_header_lines(hs.push(e)) == line + render_header_lines(
            Seq::<(Seq<char>, Seq<char>)>::empty(),
        ));
        assert(render_header_lines(hs.push(e)) =~= render_header_lines(hs) + line);
    } else {
        lemma_render_header_lines_push(hs.drop_first(), name, value);
        assert(hs.push(e)[0] == hs[0]);
        assert(hs.push(e).drop_first() =~= hs.drop_first().push(e));
        assert(render_header_lines(hs.push(e)) == hs[0].0 + ": "@ + hs[0].1 + "\r\n"@
            + render_header_lines(hs.drop_first().push(e)));
        assert(render_header_lines(hs) == hs[0].0 + ": "@ + hs[0].1 + "\r\n"@
            + render_header_lines(hs.drop_first()));
        assert(render_header_lines(hs.push(e)) =~= render_header_lines(hs) + line);
    }
}

/// The full wire text of a response.
pub open spec fn spec_http_string(
    code: nat,
    headers: Seq<(Seq<char>, Seq<char>)>,
    body: Seq<char>,
) -> Seq<char> {
    "HTTP/1.1 "@ + dec_str(code) + "\r\n"@ + render_header_lines(headers) + "\r\n"@ + body
}

/// An immutable response: status code, header map and body.
pub struct Response {
    pub code: u16,
    pub body: String,
    pub headers: Vec<(String, String)>,
}

/// Accumulates the attributes of a response before it is built.
pub struct ResponseBuilder {
    pub code: u16,
    pub body: String,
    pub headers: Vec<(String, String)>,
}

impl Response {
    /// A builder whose response, unless changed, has code 0, an empty
    /// body and no headers.
    pub fn builder() -> (r: ResponseBuilder)
        ensures
            r.code == 0,
            r.body@ == ""@,
            r.headers.deep_view() =~= Seq::<(Seq<char>, Seq<char>)>::empty(),
    {
        ResponseBuilder { code: 0, body: String::from_str(""), headers: Vec::new() }
    }

    fn new(builder: ResponseBuilder) -> (r: Response)
        ensures
            r.code == builder.code,
            r.body@ == builder.body@,
            r.headers.deep_view() == builder.headers.deep_view(),
    {
        Response { code: builder.code, body: builder.body, headers: builder.headers }
    }

    /// The status code.
    pub fn code(&self) -> (r: u16)
        ensures
            r == self.code,
    {
        self.code
    }

    /// The body.
    pub fn body(&self) -> (r: &str)
        ensures
            r@ == self.body@,
    {
        self.body.as_str()
    }

    /// Serializes the response to its wire text, one header line per
    /// entry in insertion order.
    pub fn to_http_string(&self) -> (r: String)
        ensures
            r@ == spec_http_string(self.code as nat, self.headers.deep_view(), self.body@),
    {
        let ghost hs = self.headers.deep_view();
        let mut out = String::from_str("HTTP/1.1 ");
        let code_str = u16_to_dec(self.code);
        out.append(code_str.as_str());
        out.append("\r\n");
        let ghost status_part = "HTTP/1.1 "@ + dec_str(self.code as nat) + "\r\n"@;
        proof {
            assert(out@ =~= status_part);
            assert(hs.take(0) =~= Seq::<(Seq<char>, Seq<char>)>::empty());
        }
        let n = self.headers.len();
        let mut i: usize = 0;
        while i < n
            invariant
                n == self.headers.len(),
                i <= n,
                hs == self.headers.deep_view(),
                hs.len() == n,
                out@ == status_part + render_header_lines(hs.take(i as int)),
            decreases n - i,
        {
            out.append(self.headers[i].0.as_str());
            out.append(": ");
            out.append(self.headers[i].1.as_str());
            out.append("\r\n");
            proof {
                lemma_render_header_lines_push(hs.take(i as int), hs[i as int].0, hs[i as int].1);
                assert(hs.take(i as int).push(hs[i as int]) =~= hs.take(i + 1));
                assert(out@ =~= status_part + render_header_lines(hs.take(i + 1)));
            }
            i = i + 1;
        }
        out.append("\r\n");
        out.append(self.body.as_str());
        proof {
            assert(hs.take(n as int) =~= hs);
            assert(out@ =~= spec_http_string(self.code as nat, hs, self.body@));
        }
        out
    }
}

impl ResponseBuilder {
    /// Sets the status code.
    pub fn code(self, code: u16) -> (r: ResponseBuilder)
        ensures
            r.code == code,
            r.body@ == self.body@,
            r.headers.deep_view() == self.headers.deep_view(),
    {
        ResponseBuilder { code, ..self }
    }

    /// Sets the body.
    pub fn body(self, body: &str) -> (r: ResponseBuilder)
        ensures
            r.code == self.code,
            r.body@ == body@,
            r.headers.deep_view() == self.headers.deep_view(),
    {
        ResponseBuilder { body: String::from_str(body), ..self }
    }

    /// Sets the header `header_name` to `header_value`, overwriting any
    /// earlier value under that name (last write wins).
    #[verifier::loop_isolation(false)]
    pub fn add_header(self, header_name: &str, header_value: &str) -> (r: ResponseBuilder)
        ensures
            r.code == self.code,
            r.body@ == self.body@,
            r.headers.deep_view() =~= rm_insert(
                self.headers.deep_view(),
                header_name@,
                header_value@,
            ),
    {
        let ghost m0 = self.headers.deep_view();
        let mut headers = self.headers;
        let n = headers.len();
        let mut i: usize = 0;
        while i < n
            invariant
                n == headers.len(),
                m0 == headers.deep_view(),
                m0.len() == n,
                i <= n,
                forall|j: int| 0 <= j < i ==> m0[j].0 != header_name@,
            decreases n - i,
        {
            if str_eq(headers[i].0.as_str(), header_name) {
                proof {
                    lemma_rm_insert_found(m0, header_name@, header_value@, i as int);
                }
                let ghost entries0 = headers@;
                let entry = headers.remove(i);
                let ghost entry0 = entry;
                let new_entry = (entry.0, String::from_str(header_value));
                let ghost entry1 = new_entry;
                headers.insert(i, new_entry);
                proof {
                    assert(headers@ =~= entries0.update(i as int, entry1));
                    assert(m0[i as int] == (entry0.0@, entry0.1@));
                    assert forall|j: int| 0 <= j < headers.deep_view().len() implies headers.deep_view()[j]
                        == m0.update(i as int, (m0[i as int].0, header_value@))[j] by {
                        if j != i {
                            assert(headers@[j] == entries0[j]);
                        }
                    }
                    assert(headers.deep_view() =~= m0.update(
                        i as int,
                        (m0[i as int].0, header_value@),
                    ));
                }
                return ResponseBuilder { headers, ..self };
            }
            i = i + 1;
        }
        proof {
            lemma_rm_insert_absent(m0, header_name@, header_value@);
        }
        headers.push((String::from_str(header_name), String::from_str(header_value)));
        proof {
            assert(headers.deep_view() =~= m0.push((header_name@, header_value@)));
        }
        ResponseBuilder { headers, ..self }
    }

    /// Builds the response.
    pub fn build(self) -> (r: Response)
        ensures
            r.code == self.code,
            r.body@ == self.body@,
            r.headers.deep_view() == self.headers.deep_view(),
    {
        Response::new(self)
    }
}

} // verus!
