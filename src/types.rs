//! HTTP methods, status codes, headers and query parameters.

use vstd::prelude::*;
use crate::error::{RustletteError, kind_tag, ErrorKind};
use crate::multimap::MultiMap;
use crate::text::{lowercase, header_key, uppercase, upper_of, same, url_decode, url_decoded,
    chars_of, text_of, texts_view};

verus! {

/// The request methods this core routes on.
#[derive(Clone, Copy, Debug, PartialEq, Eq, Hash, Structural)]
pub enum HTTPMethod {
    GET,
    POST,
    PUT,
    DELETE,
    PATCH,
    HEAD,
    OPTIONS,
    TRACE,
    CONNECT,
}

/// The canonical name of a method.
pub open spec fn method_name(m: HTTPMethod) -> Seq<char> {
    match m {
        HTTPMethod::GET => "GET"@,
        HTTPMethod::POST => "POST"@,
        HTTPMethod::PUT => "PUT"@,
        HTTPMethod::DELETE => "DELETE"@,
        HTTPMethod::PATCH => "PATCH"@,
        HTTPMethod::HEAD => "HEAD"@,
        HTTPMethod::OPTIONS => "OPTIONS"@,
        HTTPMethod::TRACE => "TRACE"@,
        HTTPMethod::CONNECT => "CONNECT"@,
    }
}

/// The method whose canonical name is exactly `s`.
pub open spec fn method_of_name(s: Seq<char>) -> Option<HTTPMethod> {
    if s == "GET"@ { Some(HTTPMethod::GET) }
    else if s == "POST"@ { Some(HTTPMethod::POST) }
    else if s == "PUT"@ { Some(HTTPMethod::PUT) }
    else if s == "DELETE"@ { Some(HTTPMethod::DELETE) }
    else if s == "PATCH"@ { Some(HTTPMethod::PATCH) }
    else if s == "HEAD"@ { Some(HTTPMethod::HEAD) }
    else if s == "OPTIONS"@ { Some(HTTPMethod::OPTIONS) }
    else if s == "TRACE"@ { Some(HTTPMethod::TRACE) }
    else if s == "CONNECT"@ { Some(HTTPMethod::CONNECT) }
    else { None }
}

/// The method that a text names, case aside.
pub open spec fn parsed_method(s: Seq<char>) -> Option<HTTPMethod> {
    method_of_name(upper_of(s))
}

impl HTTPMethod {
    /// Reads a method name in any case; an unknown name is a request error.
    pub fn parse(s: &str) -> (r: Result<HTTPMethod, RustletteError>)
        ensures
            match parsed_method(s@) {
                Some(m) => r == Ok::<HTTPMethod, RustletteError>(m),
                None => r is Err && r->Err_0.error_type@ == kind_tag(ErrorKind::Request)
                    && r->Err_0.status_code == Some(400u16),
            },
    {
        let up = uppercase(s);
        let u = up.as_str();
        if same(u, "GET") { Ok(HTTPMethod::GET) }
        else if same(u, "POST") { Ok(HTTPMethod::POST) }
        else if same(u, "PUT") { Ok(HTTPMethod::PUT) }
        else if same(u, "DELETE") { Ok(HTTPMethod::DELETE) }
        else if same(u, "PATCH") { Ok(HTTPMethod::PATCH) }
        else if same(u, "HEAD") { Ok(HTTPMethod::HEAD) }
        else if same(u, "OPTIONS") { Ok(HTTPMethod::OPTIONS) }
        else if same(u, "TRACE") { Ok(HTTPMethod::TRACE) }
        else if same(u, "CONNECT") { Ok(HTTPMethod::CONNECT) }
        else {
            let mut msg = String::from_str("Unsupported HTTP method: ");
            msg.append(s);
            Err(RustletteError::request_error(msg.as_str()))
        }
    }

    /// Same as `parse`.
    pub fn new(method: &str) -> (r: Result<HTTPMethod, RustletteError>)
        ensures
            match parsed_method(method@) {
                Some(m) => r == Ok::<HTTPMethod, RustletteError>(m),
                None => r is Err && r->Err_0.error_type@ == kind_tag(ErrorKind::Request),
            },
    {
        Self::parse(method)
    }

    /// The canonical name of the method.
    pub fn as_str(&self) -> (r: &'static str)
        ensures
            r@ == method_name(*self),
    {
        match self {
            HTTPMethod::GET => "GET",
            HTTPMethod::POST => "POST",
            HTTPMethod::PUT => "PUT",
            HTTPMethod::DELETE => "DELETE",
            HTTPMethod::PATCH => "PATCH",
            HTTPMethod::HEAD => "HEAD",
            HTTPMethod::OPTIONS => "OPTIONS",
            HTTPMethod::TRACE => "TRACE",
            HTTPMethod::CONNECT => "CONNECT",
        }
    }

    /// The canonical name of the method, as an owned text.
    pub fn to_string(&self) -> (r: String)
        ensures
            r@ == method_name(*self),
    {
        String::from_str(self.as_str())
    }

    /// GET, HEAD, OPTIONS and TRACE change nothing on the server.
    pub fn is_safe(&self) -> (r: bool)
        ensures
            r == (*self == HTTPMethod::GET || *self == HTTPMethod::HEAD
                || *self == HTTPMethod::OPTIONS || *self == HTTPMethod::TRACE),
    {
        match self {
            HTTPMethod::GET | HTTPMethod::HEAD | HTTPMethod::OPTIONS | HTTPMethod::TRACE => true,
            _ => false,
        }
    }

    /// Methods whose repetition has the effect of one call.
    pub fn is_idempotent(&self) -> (r: bool)
        ensures
            r == !(*self == HTTPMethod::POST || *self == HTTPMethod::PATCH
                || *self == HTTPMethod::CONNECT),
    {
        match self {
            HTTPMethod::POST | HTTPMethod::PATCH | HTTPMethod::CONNECT => false,
            _ => true,
        }
    }

    /// POST, PUT and PATCH carry a body.
    pub fn has_body(&self) -> (r: bool)
        ensures
            r == (*self == HTTPMethod::POST || *self == HTTPMethod::PUT
                || *self == HTTPMethod::PATCH),
    {
        match self {
            HTTPMethod::POST | HTTPMethod::PUT | HTTPMethod::PATCH => true,
            _ => false,
        }
    }
}

/// An HTTP status code between 100 and 599.
#[derive(Clone, Copy, Debug, PartialEq, Eq, Hash, Structural)]
pub struct StatusCode {
    pub code: u16,
}

/// The reason phrase of a status code.
pub open spec fn phrase_of(code: u16) -> Seq<char> {
    if code == 100 { "Continue"@ }
    else if code == 101 { "Switching Protocols"@ }
    else if code == 200 { "OK"@ }
    else if code == 201 { "Created"@ }
    else if code == 202 { "Accepted"@ }
    else if code == 204 { "No Content"@ }
    else if code == 301 { "Moved Permanently"@ }
    else if code == 302 { "Found"@ }
    else if code == 304 { "Not Modified"@ }
    else if code == 400 { "Bad Request"@ }
    else if code == 401 { "Unauthorized"@ }
    else if code == 403 { "Forbidden"@ }
    else if code == 404 { "Not Found"@ }
    else if code == 405 { "Method Not Allowed"@ }
    else if code == 409 { "Conflict"@ }
    else if code == 422 { "Unprocessable Entity"@ }
    else if code == 500 { "Internal Server Error"@ }
    else if code == 501 { "Not Implemented"@ }
    else if code == 502 { "Bad Gateway"@ }
    else if code == 503 { "Service Unavailable"@ }
    else { "Unknown"@ }
}

impl StatusCode {
    /// A status code; one outside 100..=599 is a validation error.
    pub fn new(code: u16) -> (r: Result<StatusCode, RustletteError>)
        ensures
            100 <= code <= 599 ==> r == Ok::<StatusCode, RustletteError>(StatusCode { code }),
            !(100 <= code <= 599) ==> r is Err && r->Err_0.error_type@ == kind_tag(ErrorKind::Validation),
    {
        if 100 <= code && code <= 599 {
            Ok(StatusCode { code })
        } else {
            Err(RustletteError::validation_error("Invalid status code: must be between 100 and 599"))
        }
    }

    /// The reason phrase.
    pub fn phrase(&self) -> (r: &'static str)
        ensures
            r@ == phrase_of(self.code),
    {
        let c = self.code;
        if c == 100 { "Continue" }
        else if c == 101 { "Switching Protocols" }
        else if c == 200 { "OK" }
        else if c == 201 { "Created" }
        else if c == 202 { "Accepted" }
        else if c == 204 { "No Content" }
        else if c == 301 { "Moved Permanently" }
        else if c == 302 { "Found" }
        else if c == 304 { "Not Modified" }
        else if c == 400 { "Bad Request" }
        else if c == 401 { "Unauthorized" }
        else if c == 403 { "Forbidden" }
        else if c == 404 { "Not Found" }
        else if c == 405 { "Method Not Allowed" }
        else if c == 409 { "Conflict" }
        else if c == 422 { "Unprocessable Entity" }
        else if c == 500 { "Internal Server Error" }
        else if c == 501 { "Not Implemented" }
        else if c == 502 { "Bad Gateway" }
        else if c == 503 { "Service Unavailable" }
        else { "Unknown" }
    }

    /// 1xx.
    pub fn is_informational(&self) -> (r: bool)
        ensures
            r == (100 <= self.code < 200),
    {
        100 <= self.code && self.code < 200
    }

    /// 2xx.
    pub fn is_success(&self) -> (r: bool)
        ensures
            r == (200 <= self.code < 300),
    {
        200 <= self.code && self.code < 300
    }

    /// 3xx.
    pub fn is_redirection(&self) -> (r: bool)
        ensures
            r == (300 <= self.code < 400),
    {
        300 <= self.code && self.code < 400
    }

    /// 4xx.
    pub fn is_client_error(&self) -> (r: bool)
        ensures
            r == (400 <= self.code < 500),
    {
        400 <= self.code && self.code < 500
    }

    /// 5xx.
    pub fn is_server_error(&self) -> (r: bool)
        ensures
            r == (500 <= self.code < 600),
    {
        500 <= self.code && self.code < 600
    }

    /// 4xx or 5xx.
    pub fn is_error(&self) -> (r: bool)
        ensures
            r == (400 <= self.code < 600),
    {
        self.is_client_error() || self.is_server_error()
    }
}

/// Header names and their values; names are kept lower-cased.
#[derive(Clone, Debug)]
pub struct Headers {
    pub map: MultiMap,
}

impl Headers {
    /// Names (lower-cased) to values.
    pub open spec fn view(&self) -> Map<Seq<char>, Seq<Seq<char>>> {
        self.map@
    }

    pub open spec fn wf(&self) -> bool {
        self.map.wf()
    }

    /// No header.
    pub fn new() -> (r: Self)
        ensures
            r.wf(),
            r@ == Map::<Seq<char>, Seq<Seq<char>>>::empty(),
    {
        Headers { map: MultiMap::new() }
    }

    /// The first value of the header `name`, case aside.
    pub fn get(&self, name: &str) -> (r: Option<String>)
        requires
            self.wf(),
        ensures
            match r {
                Some(v) => self@.contains_key(header_key(name@)) && self@[header_key(name@)].len() > 0
                    && v@ == self@[header_key(name@)][0],
                None => !self@.contains_key(header_key(name@)) || self@[header_key(name@)].len() == 0,
            },
    {
        let k = lowercase(name);
        self.map.get(k.as_str())
    }

    /// All values of the header `name`, case aside.
    pub fn get_list(&self, name: &str) -> (r: Vec<String>)
        requires
            self.wf(),
        ensures
            texts_view(r@) == if self@.contains_key(header_key(name@)) { self@[header_key(name@)] } else { Seq::empty() },
    {
        let k = lowercase(name);
        self.map.get_list(k.as_str())
    }

    /// Replaces the header `name` by the single value `value`.
    pub fn set(&mut self, name: &str, value: &str)
        requires
            old(self).wf(),
        ensures
            final(self).wf(),
            final(self)@ == old(self)@.insert(header_key(name@), seq![value@]),
    {
        let k = lowercase(name);
        self.map.set(k.as_str(), value);
    }

    /// Adds `value` to the values of the header `name`.
    pub fn add(&mut self, name: &str, value: &str)
        requires
            old(self).wf(),
        ensures
            final(self).wf(),
            final(self)@ == old(self)@.insert(
                header_key(name@),
                if old(self)@.contains_key(header_key(name@)) {
                    old(self)@[header_key(name@)].push(value@)
                } else {
                    seq![value@]
                },
            ),
    {
        let k = lowercase(name);
        self.map.add(k.as_str(), value);
    }

    /// Takes the header `name` out, giving back its values.
    pub fn remove(&mut self, name: &str) -> (r: Option<Vec<String>>)
        requires
            old(self).wf(),
        ensures
            final(self).wf(),
            final(self)@ == old(self)@.remove(header_key(name@)),
            r is Some <==> old(self)@.contains_key(header_key(name@)),
    {
        let k = lowercase(name);
        self.map.remove(k.as_str())
    }

    /// Whether the header `name` is present.
    pub fn contains(&self, name: &str) -> (r: bool)
        requires
            self.wf(),
        ensures
            r == self@.contains_key(header_key(name@)),
    {
        let k = lowercase(name);
        self.map.contains(k.as_str())
    }

    /// The header names.
    pub fn keys(&self) -> (r: Vec<String>)
        requires
            self.wf(),
        ensures
            forall|i: int| 0 <= i < r@.len() ==> self@.contains_key(#[trigger] r@[i]@),
            forall|k: Seq<char>| self@.contains_key(k) ==> exists|i: int| 0 <= i < r@.len() && r@[i]@ == k,
    {
        self.map.keys()
    }

    /// The number of header names.
    pub fn len(&self) -> (r: usize)
        requires
            self.wf(),
        ensures
            r == self@.dom().len(),
    {
        self.map.len()
    }

    /// Whether there is no header.
    pub fn is_empty(&self) -> (r: bool)
        requires
            self.wf(),
        ensures
            r == (self@.dom().len() == 0),
    {
        self.map.is_empty()
    }

    /// Takes out every header.
    pub fn clear(&mut self)
        ensures
            final(self).wf(),
            final(self)@ == Map::<Seq<char>, Seq<Seq<char>>>::empty(),
    {
        self.map.clear();
    }
}

/// The pieces of `s` between the occurrences of `c`; a text without `c` is one piece.
pub open spec fn pieces(s: Seq<char>, c: char) -> Seq<Seq<char>>
    decreases s.len(),
{
    if s.len() == 0 {
        seq![Seq::empty()]
    } else {
        let p = pieces(s.drop_last(), c);
        if s.last() == c {
            p.push(Seq::empty())
        } else {
            p.update(p.len() - 1, p.last().push(s.last()))
        }
    }
}

/// There is always at least one piece.
pub proof fn lemma_pieces_nonempty(s: Seq<char>, c: char)
    ensures
        pieces(s, c).len() >= 1,
    decreases s.len(),
{
    if s.len() > 0 {
        lemma_pieces_nonempty(s.drop_last(), c);
    }
}

/// The position of the first `c` in `s`.
pub open spec fn first_index(s: Seq<char>, c: char) -> Option<int>
    decreases s.len(),
{
    if s.len() == 0 {
        None
    } else {
        match first_index(s.drop_last(), c) {
            Some(i) => Some(i),
            None => if s.last() == c { Some(s.len() - 1) } else { None },
        }
    }
}

/// Splits `v` at each `c` into its pieces.
pub fn split_chars(v: &Vec<char>, c: char) -> (r: Vec<Vec<char>>)
    ensures
        r@.map_values(|p: Vec<char>| p@) == pieces(v@, c),
{
    let mut done: Vec<Vec<char>> = Vec::new();
    let mut cur: Vec<char> = Vec::new();
    let mut i: usize = 0;
    while i < v.len()
        invariant
            i <= v@.len(),
            done@.map_values(|p: Vec<char>| p@).push(cur@) == pieces(v@.take(i as int), c),
        decreases v@.len() - i,
    {
        let ghost before = done@.map_values(|p: Vec<char>| p@).push(cur@);
        assert(v@.take(i as int + 1).drop_last() =~= v@.take(i as int));
        if v[i] == c {
            let piece = cur;
            done.push(piece);
            cur = Vec::new();
            assert(done@.map_values(|p: Vec<char>| p@).push(cur@) =~= before.push(Seq::empty()));
        } else {
            cur.push(v[i]);
            assert(done@.map_values(|p: Vec<char>| p@).push(cur@)
                =~= before.update(before.len() - 1, before.last().push(v@[i as int])));
        }
        i = i + 1;
    }
    assert(v@.take(v@.len() as int) =~= v@);
    done.push(cur);
    done
}

/// Finds the first `c` in `v`.
pub fn find_char(v: &Vec<char>, c: char) -> (r: Option<usize>)
    ensures
        match r {
            Some(i) => first_index(v@, c) == Some(i as int) && i < v@.len(),
            None => first_index(v@, c) is None,
        },
{
    let mut i: usize = 0;
    while i < v.len()
        invariant
            i <= v@.len(),
            first_index(v@.take(i as int), c) is None,
        decreases v@.len() - i,
    {
        assert(v@.take(i as int + 1).drop_last() =~= v@.take(i as int));
        if v[i] == c {
            proof { lemma_first_index_prefix(v@, i as int + 1, c); }
            return Some(i);
        }
        i = i + 1;
    }
    assert(v@.take(v@.len() as int) =~= v@);
    None
}

/// A first occurrence in a prefix is the first occurrence in the whole.
pub proof fn lemma_first_index_prefix(s: Seq<char>, n: int, c: char)
    requires
        0 <= n <= s.len(),
        first_index(s.take(n), c) is Some,
    ensures
        first_index(s, c) == first_index(s.take(n), c),
    decreases s.len() - n,
{
    if n < s.len() {
        assert(s.take(n + 1).drop_last() =~= s.take(n));
        lemma_first_index_prefix(s, n + 1, c);
    } else {
        assert(s.take(n) =~= s);
    }
}

/// Adds one value under a key of a multimap.
pub open spec fn map_add(m: Map<Seq<char>, Seq<Seq<char>>>, k: Seq<char>, v: Seq<char>)
    -> Map<Seq<char>, Seq<Seq<char>>> {
    m.insert(k, if m.contains_key(k) { m[k].push(v) } else { seq![v] })
}

/// The parameters that the `&`-separated pairs give: `k=v` adds the decoded `v`
/// under the decoded `k`, a bare `k` adds the empty value, an empty pair nothing.
pub open spec fn query_map(ps: Seq<Seq<char>>) -> Map<Seq<char>, Seq<Seq<char>>>
    decreases ps.len(),
{
    if ps.len() == 0 {
        Map::empty()
    } else {
        let m = query_map(ps.drop_last());
        let p = ps.last();
        match first_index(p, '=') {
            Some(i) => map_add(m, url_decoded(p.take(i)), url_decoded(p.skip(i + 1))),
            None => if p.len() == 0 { m } else { map_add(m, url_decoded(p), Seq::empty()) },
        }
    }
}

/// Query parameters: names to their values, in order of occurrence.
#[derive(Clone, Debug)]
pub struct QueryParams {
    pub map: MultiMap,
}

impl QueryParams {
    pub open spec fn view(&self) -> Map<Seq<char>, Seq<Seq<char>>> {
        self.map@
    }

    pub open spec fn wf(&self) -> bool {
        self.map.wf()
    }

    /// No parameter.
    pub fn new() -> (r: Self)
        ensures
            r.wf(),
            r@ == Map::<Seq<char>, Seq<Seq<char>>>::empty(),
    {
        QueryParams { map: MultiMap::new() }
    }

    /// Reads a query string of `&`-separated `name=value` pairs, percent-decoded.
    pub fn from_query_string(query: &str) -> (r: Self)
        ensures
            r.wf(),
            r@ == query_map(pieces(query@, '&')),
    {
        let chars = chars_of(query);
        let ps = split_chars(&chars, '&');
        let ghost pv = ps@.map_values(|p: Vec<char>| p@);
        let mut map = MultiMap::new();
        let mut j: usize = 0;
        while j < ps.len()
            invariant
                j <= ps@.len(),
                pv == ps@.map_values(|p: Vec<char>| p@),
                map.wf(),
                map@ == query_map(pv.take(j as int)),
            decreases ps@.len() - j,
        {
            let p = &ps[j];
            assert(pv.take(j as int + 1).drop_last() =~= pv.take(j as int));
            assert(pv[j as int] == ps@[j as int]@);
            assert(pv.take(j as int + 1).last() == p@);
            let ghost m0 = map@;
            match find_char(p, '=') {
                Some(i) => {
                    let plen: usize = p.len();
                    assert(i < plen);
                    let kt = text_of(p, 0, i);
                    let vt = text_of(p, i + 1, plen);
                    assert(kt@ =~= p@.take(i as int));
                    assert(vt@ =~= p@.skip(i as int + 1));
                    let k = url_decode(kt.as_str());
                    let v = url_decode(vt.as_str());
                    map.add(k.as_str(), v.as_str());
                    assert(map@ == query_map(pv.take(j as int + 1)));
                },
                None => {
                    if p.len() > 0 {
                        let kt = text_of(p, 0, p.len());
                        assert(kt@ =~= p@);
                        let k = url_decode(kt.as_str());
                        map.add(k.as_str(), "");
                        proof { reveal_strlit(""); }
                        assert(""@ =~= Seq::<char>::empty());
                        assert(map@ == query_map(pv.take(j as int + 1)));
                    }
                },
            }
            j = j + 1;
        }
        assert(pv.take(ps@.len() as int) =~= pv);
        QueryParams { map }
    }

    /// The first value of `name`.
    pub fn get(&self, name: &str) -> (r: Option<String>)
        requires
            self.wf(),
        ensures
            match r {
                Some(v) => self@.contains_key(name@) && self@[name@].len() > 0 && v@ == self@[name@][0],
                None => !self@.contains_key(name@) || self@[name@].len() == 0,
            },
    {
        self.map.get(name)
    }

    /// All values of `name`, if it is present.
    pub fn get_list(&self, name: &str) -> (r: Option<Vec<String>>)
        requires
            self.wf(),
        ensures
            match r {
                Some(v) => self@.contains_key(name@) && texts_view(v@) == self@[name@],
                None => !self@.contains_key(name@),
            },
    {
        if self.map.contains(name) {
            Some(self.map.get_list(name))
        } else {
            None
        }
    }

    /// Whether `name` is present.
    pub fn contains(&self, name: &str) -> (r: bool)
        requires
            self.wf(),
        ensures
            r == self@.contains_key(name@),
    {
        self.map.contains(name)
    }

    /// The parameter names.
    pub fn keys(&self) -> (r: Vec<String>)
        requires
            self.wf(),
        ensures
            forall|i: int| 0 <= i < r@.len() ==> self@.contains_key(#[trigger] r@[i]@),
            forall|k: Seq<char>| self@.contains_key(k) ==> exists|i: int| 0 <= i < r@.len() && r@[i]@ == k,
    {
        self.map.keys()
    }

    /// The number of names.
    pub fn len(&self) -> (r: usize)
        requires
            self.wf(),
        ensures
            r == self@.dom().len(),
    {
        self.map.len()
    }

    /// Whether there is no parameter.
    pub fn is_empty(&self) -> (r: bool)
        requires
            self.wf(),
        ensures
            r == (self@.dom().len() == 0),
    {
        self.map.is_empty()
    }
}


impl Headers {
    /// A copy of the headers.
    pub fn clone_headers(&self) -> (r: Self)
        requires
            self.wf(),
        ensures
            r.wf(),
            r@ == self@,
    {
        Headers { map: self.map.clone_map() }
    }
}

impl QueryParams {
    /// A copy of the parameters.
    pub fn clone_params(&self) -> (r: Self)
        requires
            self.wf(),
        ensures
            r.wf(),
            r@ == self@,
    {
        QueryParams { map: self.map.clone_map() }
    }
}

} // verus!
