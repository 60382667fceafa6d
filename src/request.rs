//! The inbound request: method, URL parts, headers, query, path parameters,
//! body and the per-request state bag.

use vstd::prelude::*;
use crate::error::{RustletteError, RustletteResult, kind_tag, ErrorKind};
use crate::multimap::MultiMap;
use crate::json::{parse_json, json_accepts};
use crate::routing::ParamValue;
use crate::text::{same, header_key, text_contains, has_infix, trim_text, trimmed, parse_usize, unsigned_literal,
    chars_of, text_of};
use crate::types::{HTTPMethod, Headers, QueryParams, parsed_method, query_map, pieces, first_index, split_chars,
    find_char};
use crate::middleware::first_value;

verus! {

/// The parts of a URL that this core reads.
#[derive(Clone, Debug)]
pub struct UrlParts {
    pub scheme: String,
    pub host: Option<String>,
    pub port: Option<u16>,
    pub path: String,
    pub query: Option<String>,
}

/// The view of an optional text.
pub open spec fn opt_text(o: Option<String>) -> Option<Seq<char>> {
    match o {
        Some(s) => Some(s@),
        None => None,
    }
}

/// What `url::Url::parse` makes of a text: scheme, host, explicit port, path
/// and query, or `None` where it refuses the text.
pub uninterp spec fn url_parsed(s: Seq<char>)
    -> Option<(Seq<char>, Option<Seq<char>>, Option<u16>, Seq<char>, Option<Seq<char>>)>;

impl UrlParts {
    pub open spec fn view(&self) -> (Seq<char>, Option<Seq<char>>, Option<u16>, Seq<char>, Option<Seq<char>>) {
        (self.scheme@, opt_text(self.host), self.port, self.path@, opt_text(self.query))
    }
}

/// Relies on `url::Url::parse` with `scheme`, `host_str`, `port`, `path` and
/// `query` of its result.
#[verifier::external_body]
fn parse_url(s: &str) -> (r: Option<UrlParts>)
    ensures
        match r {
            Some(u) => url_parsed(s@) == Some(u@),
            None => url_parsed(s@) is None,
        },
{
    let u = url::Url::parse(s).ok()?;
    Some(UrlParts {
        scheme: u.scheme().to_string(),
        host: u.host_str().map(|h| h.to_string()),
        port: u.port(),
        path: u.path().to_string(),
        query: u.query().map(|q| q.to_string()),
    })
}

/// A request, owned by the one dispatch that handles it.
#[derive(Clone, Debug)]
pub struct RustletteRequest {
    pub method: HTTPMethod,
    pub url: String,
    pub parts: UrlParts,
    pub headers: Headers,
    pub query_params: QueryParams,
    pub path_params: Vec<(String, ParamValue)>,
    pub body: Option<Vec<u8>>,
    pub state: MultiMap,
    pub client_info: Option<ClientInfo>,
}

/// The peer of the connection, where the transport knows it.
#[derive(Clone, Debug)]
pub struct ClientInfo {
    pub host: String,
    pub port: u16,
    pub scheme: String,
}

impl RustletteRequest {
    /// Headers, query and state keep their keys unique.
    pub open spec fn wf(&self) -> bool {
        self.headers.wf() && self.query_params.wf() && self.state.wf()
    }

    /// A request; an unknown method or a URL that does not parse is a request error.
    pub fn new(
        method: &str,
        url: String,
        headers: Option<Headers>,
        body: Option<Vec<u8>>,
        path_params: Option<Vec<(String, ParamValue)>>,
    ) -> (r: RustletteResult<Self>)
        requires
            match headers { Some(h) => h.wf(), None => true },
        ensures
            r is Ok <==> parsed_method(method@) is Some && url_parsed(url@) is Some,
            r is Err ==> r->Err_0.error_type@ == kind_tag(ErrorKind::Request),
            r is Ok ==> ({
                let q = r->Ok_0;
                &&& q.wf()
                &&& Some(q.method) == parsed_method(method@)
                &&& q.url@ == url@
                &&& url_parsed(url@) == Some(q.parts@)
                &&& q.query_params@ == query_map(pieces(match q.parts.query { Some(t) => t@, None => Seq::empty() }, '&'))
                &&& match headers { Some(h) => q.headers@ == h@, None => q.headers@ == Map::<Seq<char>, Seq<Seq<char>>>::empty() }
                &&& q.body == body
                &&& match path_params { Some(p) => q.path_params@ == p@, None => q.path_params@.len() == 0 }
                &&& q.state@ == Map::<Seq<char>, Seq<Seq<char>>>::empty()
                &&& q.client_info is None
            }),
    {
        let m = match HTTPMethod::parse(method) {
            Ok(m) => m,
            Err(_) => {
                let mut msg = String::from_str("Invalid HTTP method: ");
                msg.append(method);
                return Err(RustletteError::request_error(msg.as_str()));
            },
        };
        let parts = match parse_url(url.as_str()) {
            Some(p) => p,
            None => {
                let mut msg = String::from_str("Invalid URL: ");
                msg.append(url.as_str());
                return Err(RustletteError::request_error(msg.as_str()));
            },
        };
        let query_params = match &parts.query {
            Some(q) => QueryParams::from_query_string(q.as_str()),
            None => {
                let q = QueryParams::from_query_string("");
                proof { reveal_strlit(""); }
                assert(""@ =~= Seq::<char>::empty());
                q
            },
        };
        let headers = match headers {
            Some(h) => h,
            None => Headers::new(),
        };
        let path_params = match path_params {
            Some(p) => p,
            None => Vec::new(),
        };
        Ok(RustletteRequest {
            method: m,
            url,
            parts,
            headers,
            query_params,
            path_params,
            body,
            state: MultiMap::new(),
            client_info: None,
        })
    }

    /// The URL's path.
    pub fn path(&self) -> (r: String)
        ensures
            r@ == self.parts.path@,
    {
        self.parts.path.clone()
    }

    /// The URL's scheme.
    pub fn scheme(&self) -> (r: String)
        ensures
            r@ == self.parts.scheme@,
    {
        self.parts.scheme.clone()
    }

    /// The URL's host.
    pub fn hostname(&self) -> (r: Option<String>)
        ensures
            opt_text(r) == opt_text(self.parts.host),
    {
        match &self.parts.host {
            Some(h) => Some(h.clone()),
            None => None,
        }
    }

    /// The URL's explicit port.
    pub fn port(&self) -> (r: Option<u16>)
        ensures
            r == self.parts.port,
    {
        self.parts.port
    }

    /// Whether the scheme is `https`.
    pub fn is_secure(&self) -> (r: bool)
        ensures
            r == (self.parts.scheme@ == "https"@),
    {
        same(self.parts.scheme.as_str(), "https")
    }

    /// The first value of a header.
    pub fn header(&self, name: &str) -> (r: Option<String>)
        requires
            self.wf(),
        ensures
            match r {
                Some(v) => self.headers@.contains_key(header_key(name@))
                    && self.headers@[header_key(name@)].len() > 0
                    && v@ == self.headers@[header_key(name@)][0],
                None => !self.headers@.contains_key(header_key(name@))
                    || self.headers@[header_key(name@)].len() == 0,
            },
    {
        self.headers.get(name)
    }

    /// The content type header.
    pub fn content_type(&self) -> (r: Option<String>)
        requires
            self.wf(),
        ensures
            match r {
                Some(v) => self.headers@.contains_key(header_key("content-type"@))
                    && self.headers@[header_key("content-type"@)].len() > 0
                    && v@ == self.headers@[header_key("content-type"@)][0],
                None => !self.headers@.contains_key(header_key("content-type"@))
                    || self.headers@[header_key("content-type"@)].len() == 0,
            },
    {
        self.headers.get("content-type")
    }

    /// Whether the content type names JSON.
    pub fn is_json(&self) -> (r: bool)
        requires
            self.wf(),
        ensures
            r == (self.headers@.contains_key(header_key("content-type"@))
                && self.headers@[header_key("content-type"@)].len() > 0
                && has_infix(self.headers@[header_key("content-type"@)][0], "application/json"@)),
    {
        match self.content_type() {
            Some(ct) => text_contains(ct.as_str(), "application/json"),
            None => false,
        }
    }

    /// Whether the content type names a URL-encoded form.
    pub fn is_form(&self) -> (r: bool)
        requires
            self.wf(),
        ensures
            r == (self.headers@.contains_key(header_key("content-type"@))
                && self.headers@[header_key("content-type"@)].len() > 0
                && has_infix(self.headers@[header_key("content-type"@)][0], "application/x-www-form-urlencoded"@)),
    {
        match self.content_type() {
            Some(ct) => text_contains(ct.as_str(), "application/x-www-form-urlencoded"),
            None => false,
        }
    }

    /// The value stored under `key` in the state bag.
    pub fn state_get(&self, key: &str) -> (r: Option<String>)
        requires
            self.wf(),
        ensures
            match r {
                Some(v) => self.state@.contains_key(key@) && self.state@[key@].len() > 0
                    && v@ == self.state@[key@][0],
                None => !self.state@.contains_key(key@) || self.state@[key@].len() == 0,
            },
    {
        self.state.get(key)
    }

    /// Stores `value` under `key` in the state bag.
    pub fn state_set(&mut self, key: &str, value: &str)
        requires
            old(self).wf(),
        ensures
            final(self).wf(),
            final(self).state@ == old(self).state@.insert(key@, seq![value@]),
            final(self).headers == old(self).headers,
            final(self).parts == old(self).parts,
            final(self).path_params == old(self).path_params,
            final(self).method == old(self).method,
    {
        self.state.set(key, value);
    }

    /// Whether the state bag holds `key`.
    pub fn state_contains(&self, key: &str) -> (r: bool)
        requires
            self.wf(),
        ensures
            r == self.state@.contains_key(key@),
    {
        self.state.contains(key)
    }

    /// Replaces the path parameters.
    pub fn set_path_params(&mut self, params: Vec<(String, ParamValue)>)
        ensures
            final(self).path_params@ == params@,
            final(self).headers == old(self).headers,
            final(self).query_params == old(self).query_params,
            final(self).state == old(self).state,
            final(self).parts == old(self).parts,
            final(self).method == old(self).method,
    {
        self.path_params = params;
    }
}


impl RustletteRequest {
    /// The authorization header.
    pub fn authorization(&self) -> (r: Option<String>)
        requires
            self.wf(),
        ensures
            r is Some <==> self.headers@.contains_key(header_key("authorization"@))
                && self.headers@[header_key("authorization"@)].len() > 0,
            r is Some ==> r->Some_0@ == self.headers@[header_key("authorization"@)][0],
    {
        self.headers.get("authorization")
    }

    /// The user-agent header.
    pub fn user_agent(&self) -> (r: Option<String>)
        requires
            self.wf(),
        ensures
            r is Some <==> self.headers@.contains_key(header_key("user-agent"@))
                && self.headers@[header_key("user-agent"@)].len() > 0,
            r is Some ==> r->Some_0@ == self.headers@[header_key("user-agent"@)][0],
    {
        self.headers.get("user-agent")
    }

    /// The referer header.
    pub fn referrer(&self) -> (r: Option<String>)
        requires
            self.wf(),
        ensures
            r is Some <==> self.headers@.contains_key(header_key("referer"@))
                && self.headers@[header_key("referer"@)].len() > 0,
            r is Some ==> r->Some_0@ == self.headers@[header_key("referer"@)][0],
    {
        self.headers.get("referer")
    }

    /// The body, empty where there is none.
    pub fn body_bytes(&self) -> (r: Vec<u8>)
        ensures
            r@ == match self.body { Some(b) => b@, None => Seq::empty() },
    {
        match &self.body {
            Some(b) => {
                let mut out: Vec<u8> = Vec::new();
                let mut i: usize = 0;
                while i < b.len()
                    invariant
                        i <= b@.len(),
                        out@ == b@.take(i as int),
                    decreases b@.len() - i,
                {
                    out.push(b[i]);
                    i = i + 1;
                    assert(out@ =~= b@.take(i as int));
                }
                assert(b@.take(b@.len() as int) =~= b@);
                out
            },
            None => Vec::new(),
        }
    }

    /// The body read as JSON; a body that is not JSON is a request error.
    pub fn json(&self) -> (r: RustletteResult<serde_json::Value>)
        ensures
            r is Ok <==> json_accepts(match self.body { Some(b) => b@, None => Seq::empty() }),
            r is Err ==> r->Err_0.error_type@ == kind_tag(ErrorKind::Request),
    {
        let b = self.body_bytes();
        match parse_json(&b) {
            Ok(v) => Ok(v),
            Err(e) => Err(RustletteError::from_json_error(&e)),
        }
    }
}


/// The name/value pairs of a `cookie` header: the `;`-separated parts that
/// hold a `=`, each side trimmed.
pub open spec fn cookie_pairs(ps: Seq<Seq<char>>) -> Seq<(Seq<char>, Seq<char>)>
    decreases ps.len(),
{
    if ps.len() == 0 {
        Seq::empty()
    } else {
        let before = cookie_pairs(ps.drop_last());
        let t = trimmed(ps.last());
        match first_index(t, '=') {
            Some(i) => before.push((trimmed(t.take(i)), trimmed(t.skip(i + 1)))),
            None => before,
        }
    }
}

/// The client address: the first of the forwarding headers present, else
/// the connection's peer.
pub open spec fn client_of(h: Map<Seq<char>, Seq<Seq<char>>>, info: Option<ClientInfo>) -> Option<Seq<char>> {
    match first_value(h, "x-forwarded-for"@) {
        Some(v) => Some(v),
        None => match first_value(h, "x-real-ip"@) {
            Some(v) => Some(v),
            None => match first_value(h, "x-client-ip"@) {
                Some(v) => Some(v),
                None => match info {
                    Some(c) => Some(c.host@),
                    None => None,
                },
            },
        },
    }
}

proof fn lemma_fixed_request_names()
    ensures
        header_key("x-forwarded-for"@) == "x-forwarded-for"@,
        header_key("x-real-ip"@) == "x-real-ip"@,
        header_key("x-client-ip"@) == "x-client-ip"@,
        header_key("accept"@) == "accept"@,
        header_key("cookie"@) == "cookie"@,
        header_key("content-length"@) == "content-length"@,
{
    reveal_strlit("x-forwarded-for");
    reveal_strlit("x-real-ip");
    reveal_strlit("x-client-ip");
    reveal_strlit("accept");
    reveal_strlit("cookie");
    reveal_strlit("content-length");
}

impl RustletteRequest {
    /// Records the connection's peer.
    pub fn set_client_info(&mut self, host: String, port: u16, scheme: String)
        ensures
            final(self).client_info is Some,
            final(self).client_info->Some_0.host@ == host@,
            final(self).client_info->Some_0.port == port,
            final(self).client_info->Some_0.scheme@ == scheme@,
            final(self).headers == old(self).headers,
            final(self).state == old(self).state,
            final(self).query_params == old(self).query_params,
    {
        self.client_info = Some(ClientInfo { host, port, scheme });
    }

    /// The client address.
    pub fn client(&self) -> (r: Option<String>)
        requires
            self.wf(),
        ensures
            opt_text(r) == client_of(self.headers@, self.client_info),
    {
        proof { lemma_fixed_request_names(); }
        match self.headers.get("x-forwarded-for") {
            Some(v) => return Some(v),
            None => {},
        }
        match self.headers.get("x-real-ip") {
            Some(v) => return Some(v),
            None => {},
        }
        match self.headers.get("x-client-ip") {
            Some(v) => return Some(v),
            None => {},
        }
        match &self.client_info {
            Some(c) => Some(c.host.clone()),
            None => None,
        }
    }

    /// Whether the accept header names the content type or any type.
    pub fn accepts(&self, content_type: &str) -> (r: bool)
        requires
            self.wf(),
        ensures
            r == match first_value(self.headers@, "accept"@) {
                Some(a) => has_infix(a, content_type@) || has_infix(a, "*/*"@),
                None => false,
            },
    {
        proof { lemma_fixed_request_names(); }
        match self.headers.get("accept") {
            Some(a) => text_contains(a.as_str(), content_type) || text_contains(a.as_str(), "*/*"),
            None => false,
        }
    }

    /// The declared content length, where the header holds a number.
    pub fn content_length(&self) -> (r: Option<usize>)
        requires
            self.wf(),
        ensures
            r == match first_value(self.headers@, "content-length"@) {
                Some(v) => match unsigned_literal(v) {
                    Some(n) => if n <= usize::MAX { Some(n as usize) } else { None },
                    None => None,
                },
                None => None,
            },
    {
        proof { lemma_fixed_request_names(); }
        match self.headers.get("content-length") {
            Some(v) => parse_usize(v.as_str()),
            None => None,
        }
    }

    /// The cookies the request carries, in order.
    pub fn cookies(&self) -> (r: Vec<(String, String)>)
        requires
            self.wf(),
        ensures
            r@.map_values(|p: (String, String)| (p.0@, p.1@)) == match first_value(self.headers@, "cookie"@) {
                Some(c) => cookie_pairs(pieces(c, ';')),
                None => Seq::empty(),
            },
    {
        proof { lemma_fixed_request_names(); }
        let mut out: Vec<(String, String)> = Vec::new();
        match self.headers.get("cookie") {
            Some(c) => {
                let chars = chars_of(c.as_str());
                let ps = split_chars(&chars, ';');
                let ghost pv = ps@.map_values(|p: Vec<char>| p@);
                let mut j: usize = 0;
                while j < ps.len()
                    invariant
                        j <= ps@.len(),
                        pv == ps@.map_values(|p: Vec<char>| p@),
                        out@.map_values(|p: (String, String)| (p.0@, p.1@)) == cookie_pairs(pv.take(j as int)),
                    decreases ps@.len() - j,
                {
                    assert(pv.take(j as int + 1).drop_last() =~= pv.take(j as int));
                    assert(pv[j as int] == ps@[j as int]@);
                    let n = ps[j].len();
                    let raw = text_of(&ps[j], 0, n);
                    assert(raw@ =~= ps@[j as int]@);
                    let t = trim_text(raw.as_str());
                    let tc = chars_of(t.as_str());
                    let ghost before = out@.map_values(|p: (String, String)| (p.0@, p.1@));
                    match find_char(&tc, '=') {
                        Some(i) => {
                            let m: usize = tc.len();
                            assert(i < m);
                            let k = text_of(&tc, 0, i);
                            let v = text_of(&tc, i + 1, m);
                            assert(k@ =~= tc@.take(i as int));
                            assert(v@ =~= tc@.skip(i as int + 1));
                            let kt = trim_text(k.as_str());
                            let vt = trim_text(v.as_str());
                            out.push((kt, vt));
                            assert(out@.map_values(|p: (String, String)| (p.0@, p.1@))
                                =~= before.push((trimmed(tc@.take(i as int)), trimmed(tc@.skip(i as int + 1)))));
                        },
                        None => {},
                    }
                    j = j + 1;
                }
                assert(pv.take(ps@.len() as int) =~= pv);
                out
            },
            None => {
                assert(out@.map_values(|p: (String, String)| (p.0@, p.1@)) =~= Seq::<(Seq<char>, Seq<char>)>::empty());
                out
            },
        }
    }

    /// A copy with the given parts replaced; a new URL brings new query
    /// parameters. An unknown method or a URL that does not parse is a
    /// request error.
    pub fn replace(
        &self,
        method: Option<&str>,
        url: Option<String>,
        headers: Option<Headers>,
        body: Option<Vec<u8>>,
        path_params: Option<Vec<(String, ParamValue)>>,
    ) -> (r: RustletteResult<Self>)
        requires
            self.wf(),
            match headers { Some(h) => h.wf(), None => true },
        ensures
            r is Ok <==> (match method { Some(m) => parsed_method(m@) is Some, None => true })
                && (match url { Some(u) => url_parsed(u@) is Some, None => true }),
            r is Err ==> r->Err_0.error_type@ == kind_tag(ErrorKind::Request),
            r is Ok ==> ({
                let q = r->Ok_0;
                &&& q.wf()
                &&& q.method == match method { Some(m) => parsed_method(m@)->Some_0, None => self.method }
                &&& q.url@ == match url { Some(u) => u@, None => self.url@ }
                &&& q.headers@ == match headers { Some(h) => h@, None => self.headers@ }
                &&& bytes_view(q.body) == bytes_view(match body { Some(b) => Some(b), None => self.body })
                &&& q.path_params@ == match path_params { Some(p) => p@, None => self.path_params@ }
                &&& q.state@ == self.state@
                &&& match url {
                    Some(u) => url_parsed(u@) == Some(q.parts@) && q.query_params@
                        == query_map(pieces(match q.parts.query { Some(t) => t@, None => Seq::empty() }, '&')),
                    None => q.query_params@ == self.query_params@ && q.parts@ == self.parts@,
                }
            }),
    {
        let m = match method {
            Some(name) => match HTTPMethod::parse(name) {
                Ok(m) => m,
                Err(_) => {
                    let mut msg = String::from_str("Invalid HTTP method: ");
                    msg.append(name);
                    return Err(RustletteError::request_error(msg.as_str()));
                },
            },
            None => self.method,
        };
        let (new_url, parts, query_params) = match url {
            Some(u) => {
                let parts = match parse_url(u.as_str()) {
                    Some(p) => p,
                    None => {
                        let mut msg = String::from_str("Invalid URL: ");
                        msg.append(u.as_str());
                        return Err(RustletteError::request_error(msg.as_str()));
                    },
                };
                let q = match &parts.query {
                    Some(t) => QueryParams::from_query_string(t.as_str()),
                    None => {
                        let q = QueryParams::from_query_string("");
                        proof { reveal_strlit(""); }
                        assert(""@ =~= Seq::<char>::empty());
                        q
                    },
                };
                (u, parts, q)
            },
            None => (self.url.clone(), self.parts.clone_parts(), self.query_params.clone_params()),
        };
        let h = match headers {
            Some(h) => h,
            None => self.headers.clone_headers(),
        };
        let b = match body {
            Some(b) => Some(b),
            None => clone_body(&self.body),
        };
        let pp = match path_params {
            Some(p) => p,
            None => clone_params(&self.path_params),
        };
        Ok(RustletteRequest {
            method: m,
            url: new_url,
            parts,
            headers: h,
            query_params,
            path_params: pp,
            body: b,
            state: self.state.clone_map(),
            client_info: match &self.client_info { Some(c) => Some(c.clone_info()), None => None },
        })
    }
}


impl UrlParts {
    /// A copy of the parts.
    pub fn clone_parts(&self) -> (r: Self)
        ensures
            r@ == self@,
    {
        UrlParts {
            scheme: self.scheme.clone(),
            host: match &self.host { Some(h) => Some(h.clone()), None => None },
            port: self.port,
            path: self.path.clone(),
            query: match &self.query { Some(q) => Some(q.clone()), None => None },
        }
    }
}

impl ClientInfo {
    /// A copy of the peer.
    pub fn clone_info(&self) -> (r: Self)
        ensures
            r.host@ == self.host@ && r.port == self.port && r.scheme@ == self.scheme@,
    {
        ClientInfo { host: self.host.clone(), port: self.port, scheme: self.scheme.clone() }
    }
}

/// A copy of a path parameter value.
pub fn clone_value(v: &ParamValue) -> (r: ParamValue)
    ensures
        r == *v,
{
    match v {
        ParamValue::Str(s) => ParamValue::Str(s.clone()),
        ParamValue::Int(n) => ParamValue::Int(*n),
        ParamValue::Float(s) => ParamValue::Float(s.clone()),
    }
}

/// A copy of a list of path parameters.
pub fn clone_params(v: &Vec<(String, ParamValue)>) -> (r: Vec<(String, ParamValue)>)
    ensures
        r@ == v@,
{
    let mut out: Vec<(String, ParamValue)> = Vec::new();
    let mut i: usize = 0;
    while i < v.len()
        invariant
            i <= v@.len(),
            out@ == v@.take(i as int),
        decreases v@.len() - i,
    {
        out.push((v[i].0.clone(), clone_value(&v[i].1)));
        i = i + 1;
        assert(out@ =~= v@.take(i as int));
    }
    assert(v@.take(v@.len() as int) =~= v@);
    out
}

/// A copy of an optional body.
pub fn clone_body(b: &Option<Vec<u8>>) -> (r: Option<Vec<u8>>)
    ensures
        bytes_view(r) == bytes_view(*b),
{
    match b {
        Some(v) => {
            let mut out: Vec<u8> = Vec::new();
            let mut i: usize = 0;
            while i < v.len()
                invariant
                    i <= v@.len(),
                    out@ == v@.take(i as int),
                decreases v@.len() - i,
            {
                out.push(v[i]);
                i = i + 1;
                assert(out@ =~= v@.take(i as int));
            }
            assert(v@.take(v@.len() as int) =~= v@);
            Some(out)
        },
        None => None,
    }
}

/// The view of an optional body.
pub open spec fn bytes_view(b: Option<Vec<u8>>) -> Option<Seq<u8>> {
    match b {
        Some(v) => Some(v@),
        None => None,
    }
}


impl RustletteRequest {
    /// Whether headers, query and state keep their keys unique.
    pub fn is_well_formed(&self) -> (r: bool)
        ensures
            r == self.wf(),
    {
        self.headers.map.check_wf() && self.query_params.map.check_wf() && self.state.check_wf()
    }
}


/// The form fields that the `&`-separated pairs give: each `k=v` sets the
/// decoded `k` to the decoded `v`; a later pair wins; other pairs are skipped.
pub open spec fn form_map(ps: Seq<Seq<char>>) -> Map<Seq<char>, Seq<Seq<char>>>
    decreases ps.len(),
{
    if ps.len() == 0 {
        Map::empty()
    } else {
        let m = form_map(ps.drop_last());
        let p = ps.last();
        match first_index(p, '=') {
            Some(i) => m.insert(crate::text::url_decoded(p.take(i)), seq![crate::text::url_decoded(p.skip(i + 1))]),
            None => m,
        }
    }
}

impl RustletteRequest {
    /// The body as text: empty without a body; a body that is not UTF-8 is a
    /// request error.
    pub fn text(&self) -> (r: RustletteResult<String>)
        ensures
            match self.body {
                Some(b) => match crate::text::utf8_decoded(b@) {
                    Some(t) => r is Ok && r->Ok_0@ == t,
                    None => r is Err && r->Err_0.error_type@ == kind_tag(ErrorKind::Request),
                },
                None => r is Ok && r->Ok_0@.len() == 0,
            },
    {
        match &self.body {
            Some(b) => match crate::text::utf8_text(b) {
                Some(t) => Ok(t),
                None => Err(RustletteError::request_error("Request body contains invalid UTF-8")),
            },
            None => Ok(String::new()),
        }
    }

    /// The body read as a URL-encoded form.
    pub fn form(&self) -> (r: RustletteResult<MultiMap>)
        ensures
            r is Ok ==> r->Ok_0.wf(),
            match self.body {
                Some(b) => match crate::text::utf8_decoded(b@) {
                    Some(t) => r is Ok && r->Ok_0.wf() && r->Ok_0@ == form_map(pieces(t, '&')),
                    None => r is Err && r->Err_0.error_type@ == kind_tag(ErrorKind::Request),
                },
                None => r is Ok && r->Ok_0@ == form_map(pieces(Seq::empty(), '&')),
            },
    {
        let text = self.text()?;
        let chars = chars_of(text.as_str());
        let ps = split_chars(&chars, '&');
        let ghost pv = ps@.map_values(|p: Vec<char>| p@);
        let mut map = MultiMap::new();
        let mut j: usize = 0;
        while j < ps.len()
            invariant
                j <= ps@.len(),
                pv == ps@.map_values(|p: Vec<char>| p@),
                map.wf(),
                map@ == form_map(pv.take(j as int)),
            decreases ps@.len() - j,
        {
            let p = &ps[j];
            assert(pv.take(j as int + 1).drop_last() =~= pv.take(j as int));
            assert(pv[j as int] == ps@[j as int]@);
            match find_char(p, '=') {
                Some(i) => {
                    let plen: usize = p.len();
                    assert(i < plen);
                    let kt = text_of(p, 0, i);
                    let vt = text_of(p, i + 1, plen);
                    assert(kt@ =~= p@.take(i as int));
                    assert(vt@ =~= p@.skip(i as int + 1));
                    let k = crate::text::url_decode(kt.as_str());
                    let v = crate::text::url_decode(vt.as_str());
                    map.set(k.as_str(), v.as_str());
                },
                None => {},
            }
            j = j + 1;
        }
        assert(pv.take(ps@.len() as int) =~= pv);
        Ok(map)
    }
}

} // verus!
