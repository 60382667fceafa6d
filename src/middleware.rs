//! The middleware chain: built-in CORS, security-header and timing
//! middleware, handlers supplied from outside, and the ordered stack.

use vstd::prelude::*;
use crate::error::{RustletteError, RustletteResult, kind_tag, ErrorKind};
use crate::request::RustletteRequest;
use crate::response::RustletteResponse;
use crate::routing::{int_literal, parse_i64};
use crate::text::{ascii_lower, header_key, same, join, joined, texts_view, decimal,
    decimal_text, push_char, chars_of};

verus! {

/// The first value of a header, if any.
pub open spec fn first_value(h: Map<Seq<char>, Seq<Seq<char>>>, k: Seq<char>) -> Option<Seq<char>> {
    if h.contains_key(k) && h[k].len() > 0 { Some(h[k][0]) } else { None }
}

/// Sets a header to a single value.
pub open spec fn put(h: Map<Seq<char>, Seq<Seq<char>>>, k: Seq<char>, v: Seq<char>) -> Map<Seq<char>, Seq<Seq<char>>> {
    h.insert(k, seq![v])
}

proof fn lemma_header_names()
    ensures
        ascii_lower("origin"@),
        ascii_lower("access-control-allow-origin"@), "access-control-allow-origin"@ != "content-length"@,
        ascii_lower("access-control-allow-methods"@), "access-control-allow-methods"@ != "content-length"@,
        ascii_lower("access-control-allow-headers"@), "access-control-allow-headers"@ != "content-length"@,
        ascii_lower("access-control-allow-credentials"@), "access-control-allow-credentials"@ != "content-length"@,
        ascii_lower("access-control-expose-headers"@), "access-control-expose-headers"@ != "content-length"@,
        ascii_lower("access-control-max-age"@), "access-control-max-age"@ != "content-length"@,
        ascii_lower("x-content-type-options"@), "x-content-type-options"@ != "content-length"@,
        ascii_lower("x-frame-options"@), "x-frame-options"@ != "content-length"@,
        ascii_lower("x-xss-protection"@), "x-xss-protection"@ != "content-length"@,
        ascii_lower("strict-transport-security"@), "strict-transport-security"@ != "content-length"@,
        ascii_lower("referrer-policy"@), "referrer-policy"@ != "content-length"@,
        ascii_lower("content-security-policy"@), "content-security-policy"@ != "content-length"@,
{
    reveal_strlit("origin");
    reveal_strlit("content-length");
    reveal_strlit("access-control-allow-origin");
    reveal_strlit("access-control-allow-methods");
    reveal_strlit("access-control-allow-headers");
    reveal_strlit("access-control-allow-credentials");
    reveal_strlit("access-control-expose-headers");
    reveal_strlit("access-control-max-age");
    reveal_strlit("x-content-type-options");
    reveal_strlit("x-frame-options");
    reveal_strlit("x-xss-protection");
    reveal_strlit("strict-transport-security");
    reveal_strlit("referrer-policy");
    reveal_strlit("content-security-policy");
    assert("access-control-allow-origin"@.len() != "content-length"@.len());
    assert("access-control-allow-methods"@.len() != "content-length"@.len());
    assert("access-control-allow-headers"@.len() != "content-length"@.len());
    assert("access-control-allow-credentials"@.len() != "content-length"@.len());
    assert("access-control-expose-headers"@.len() != "content-length"@.len());
    assert("access-control-max-age"@.len() != "content-length"@.len());
    assert("x-content-type-options"@.len() != "content-length"@.len());
    assert("x-frame-options"@.len() != "content-length"@.len());
    assert("x-xss-protection"@.len() != "content-length"@.len());
    assert("strict-transport-security"@.len() != "content-length"@.len());
    assert("referrer-policy"@.len() != "content-length"@.len());
    assert("content-security-policy"@.len() != "content-length"@.len());
}

/// Sets a fixed lower-case header other than the length header.
fn put_header(resp: &mut RustletteResponse, name: &str, value: &str)
    requires
        old(resp).wf(),
        ascii_lower(name@),
        name@ != "content-length"@,
    ensures
        final(resp).wf(),
        final(resp).headers@ == put(old(resp).headers@, name@, value@),
        final(resp).body == old(resp).body,
        final(resp).status_code == old(resp).status_code,
{
    let _ = resp.set_header(name, value);
}

/// Whether a list of texts holds `s`.
pub fn contains_text(v: &Vec<String>, s: &str) -> (r: bool)
    ensures
        r == texts_view(v@).contains(s@),
{
    let mut i: usize = 0;
    while i < v.len()
        invariant
            i <= v@.len(),
            forall|j: int| 0 <= j < i ==> v@[j]@ != s@,
        decreases v@.len() - i,
    {
        if same(v[i].as_str(), s) {
            assert(texts_view(v@)[i as int] == s@);
            return true;
        }
        i = i + 1;
    }
    assert forall|j: int| 0 <= j < texts_view(v@).len() implies texts_view(v@)[j] != s@ by {
        assert(texts_view(v@)[j] == v@[j]@);
    }
    false
}

/// CORS: which origins, methods and headers are allowed, credentials,
/// exposed headers and the preflight cache age.
#[derive(Clone, Debug)]
pub struct CORSMiddleware {
    pub allow_origins: Vec<String>,
    pub allow_methods: Vec<String>,
    pub allow_headers: Vec<String>,
    pub allow_credentials: bool,
    pub expose_headers: Vec<String>,
    pub max_age: Option<u32>,
}

/// Whether the CORS settings allow the origin: listed, or any (`*`) allowed.
pub open spec fn origin_allowed(c: CORSMiddleware, o: Seq<char>) -> bool {
    texts_view(c.allow_origins@).contains("*"@) || texts_view(c.allow_origins@).contains(o)
}

/// The headers after the CORS middleware has seen a response to a request
/// from `origin`.
pub open spec fn cors_headers(c: CORSMiddleware, origin: Option<Seq<char>>, h: Map<Seq<char>, Seq<Seq<char>>>)
    -> Map<Seq<char>, Seq<Seq<char>>> {
    let h1 = match origin {
        Some(o) => if origin_allowed(c, o) { put(h, "access-control-allow-origin"@, o) } else { h },
        None => if texts_view(c.allow_origins@).contains("*"@) { put(h, "access-control-allow-origin"@, "*"@) } else { h },
    };
    let h2 = if c.allow_methods@.len() > 0 {
        put(h1, "access-control-allow-methods"@, joined(texts_view(c.allow_methods@), ", "@))
    } else { h1 };
    let h3 = if c.allow_headers@.len() > 0 {
        put(h2, "access-control-allow-headers"@, joined(texts_view(c.allow_headers@), ", "@))
    } else { h2 };
    let h4 = if c.allow_credentials { put(h3, "access-control-allow-credentials"@, "true"@) } else { h3 };
    let h5 = if c.expose_headers@.len() > 0 {
        put(h4, "access-control-expose-headers"@, joined(texts_view(c.expose_headers@), ", "@))
    } else { h4 };
    match c.max_age {
        Some(m) => put(h5, "access-control-max-age"@, decimal_text(m as nat)),
        None => h5,
    }
}

fn text_list(items: &[&str]) -> (r: Vec<String>)
    ensures
        r@.len() == items@.len(),
        forall|i: int| 0 <= i < items@.len() ==> (#[trigger] r@[i])@ == items@[i]@,
{
    let mut out: Vec<String> = Vec::new();
    let mut i: usize = 0;
    while i < items.len()
        invariant
            i <= items@.len(),
            out@.len() == i,
            forall|j: int| 0 <= j < i ==> (#[trigger] out@[j])@ == items@[j]@,
        decreases items@.len() - i,
    {
        out.push(String::from_str(items[i]));
        i = i + 1;
    }
    out
}

impl CORSMiddleware {
    /// CORS settings as given.
    pub fn new(
        allow_origins: Vec<String>,
        allow_methods: Vec<String>,
        allow_headers: Vec<String>,
        allow_credentials: bool,
        expose_headers: Vec<String>,
        max_age: Option<u32>,
    ) -> (r: Self)
        ensures
            r == (CORSMiddleware { allow_origins, allow_methods, allow_headers, allow_credentials, expose_headers, max_age }),
    {
        CORSMiddleware { allow_origins, allow_methods, allow_headers, allow_credentials, expose_headers, max_age }
    }

    /// Settings with defaults for what is not given: any origin, the methods
    /// GET, POST, PUT, DELETE and OPTIONS, any header, no credentials, nothing
    /// exposed.
    pub fn with_defaults(
        allow_origins: Option<Vec<String>>,
        allow_methods: Option<Vec<String>>,
        allow_headers: Option<Vec<String>>,
        allow_credentials: Option<bool>,
        expose_headers: Option<Vec<String>>,
        max_age: Option<u32>,
    ) -> (r: Self)
        ensures
            texts_view(r.allow_origins@) == match allow_origins { Some(v) => texts_view(v@), None => seq!["*"@] },
            texts_view(r.allow_methods@) == match allow_methods {
                Some(v) => texts_view(v@),
                None => seq!["GET"@, "POST"@, "PUT"@, "DELETE"@, "OPTIONS"@],
            },
            texts_view(r.allow_headers@) == match allow_headers { Some(v) => texts_view(v@), None => seq!["*"@] },
            r.allow_credentials == match allow_credentials { Some(b) => b, None => false },
            texts_view(r.expose_headers@) == match expose_headers { Some(v) => texts_view(v@), None => Seq::empty() },
            r.max_age == max_age,
    {
        let o = match allow_origins { Some(v) => v, None => text_list(&["*"]) };
        let m = match allow_methods {
            Some(v) => v,
            None => text_list(&["GET", "POST", "PUT", "DELETE", "OPTIONS"]),
        };
        let h = match allow_headers { Some(v) => v, None => text_list(&["*"]) };
        let e = match expose_headers { Some(v) => v, None => Vec::new() };
        let c = match allow_credentials { Some(b) => b, None => false };
        let r = CORSMiddleware { allow_origins: o, allow_methods: m, allow_headers: h, allow_credentials: c, expose_headers: e, max_age };
        assert(texts_view(r.allow_origins@) =~= match allow_origins { Some(v) => texts_view(v@), None => seq!["*"@] });
        assert(texts_view(r.allow_methods@) =~= match allow_methods {
            Some(v) => texts_view(v@),
            None => seq!["GET"@, "POST"@, "PUT"@, "DELETE"@, "OPTIONS"@],
        });
        assert(texts_view(r.allow_headers@) =~= match allow_headers { Some(v) => texts_view(v@), None => seq!["*"@] });
        assert(texts_view(r.expose_headers@) =~= match expose_headers { Some(v) => texts_view(v@), None => Seq::empty() });
        r
    }

    /// Any origin, the common methods, any header, a day of preflight cache.
    pub fn permissive() -> (r: Self)
        ensures
            texts_view(r.allow_origins@) == seq!["*"@],
            texts_view(r.allow_methods@) == seq!["GET"@, "POST"@, "PUT"@, "DELETE"@, "OPTIONS"@, "HEAD"@, "PATCH"@],
            texts_view(r.allow_headers@) == seq!["*"@],
            !r.allow_credentials,
            r.expose_headers@.len() == 0,
            r.max_age == Some(86400u32),
    {
        let r = CORSMiddleware {
            allow_origins: text_list(&["*"]),
            allow_methods: text_list(&["GET", "POST", "PUT", "DELETE", "OPTIONS", "HEAD", "PATCH"]),
            allow_headers: text_list(&["*"]),
            allow_credentials: false,
            expose_headers: Vec::new(),
            max_age: Some(86400),
        };
        assert(texts_view(r.allow_origins@) =~= seq!["*"@]);
        assert(texts_view(r.allow_methods@) =~= seq!["GET"@, "POST"@, "PUT"@, "DELETE"@, "OPTIONS"@, "HEAD"@, "PATCH"@]);
        assert(texts_view(r.allow_headers@) =~= seq!["*"@]);
        r
    }

    /// Whether the origin is allowed.
    pub fn is_origin_allowed(&self, origin: &str) -> (r: bool)
        ensures
            r == origin_allowed(*self, origin@),
    {
        contains_text(&self.allow_origins, "*") || contains_text(&self.allow_origins, origin)
    }

    /// Adds the CORS headers to a response.
    pub fn process_response(&self, request: &RustletteRequest, response: &mut RustletteResponse)
        requires
            request.wf(),
            old(response).wf(),
        ensures
            final(response).wf(),
            final(response).headers@ == cors_headers(*self, first_value(request.headers@, "origin"@), old(response).headers@),
            final(response).body == old(response).body,
            final(response).status_code == old(response).status_code,
    {
        proof { lemma_header_names(); }
        match request.headers.get("origin") {
            Some(origin) => {
                if self.is_origin_allowed(origin.as_str()) {
                    put_header(response, "access-control-allow-origin", origin.as_str());
                }
            },
            None => {
                if contains_text(&self.allow_origins, "*") {
                    put_header(response, "access-control-allow-origin", "*");
                }
            },
        }
        if self.allow_methods.len() > 0 {
            let v = join(&self.allow_methods, ", ");
            put_header(response, "access-control-allow-methods", v.as_str());
        }
        if self.allow_headers.len() > 0 {
            let v = join(&self.allow_headers, ", ");
            put_header(response, "access-control-allow-headers", v.as_str());
        }
        if self.allow_credentials {
            put_header(response, "access-control-allow-credentials", "true");
        }
        if self.expose_headers.len() > 0 {
            let v = join(&self.expose_headers, ", ");
            put_header(response, "access-control-expose-headers", v.as_str());
        }
        match self.max_age {
            Some(m) => {
                let v = decimal(m as u64);
                put_header(response, "access-control-max-age", v.as_str());
            },
            None => {},
        }
    }
}

/// Security headers to add to every response.
#[derive(Clone, Debug)]
pub struct SecurityHeadersMiddleware {
    pub content_type_nosniff: bool,
    pub frame_options: Option<String>,
    pub xss_protection: bool,
    pub hsts_max_age: Option<u32>,
    pub hsts_include_subdomains: bool,
    pub referrer_policy: Option<String>,
    pub content_security_policy: Option<String>,
}

/// Whether a URL text starts with `https://`.
pub open spec fn secure_url(u: Seq<char>) -> bool {
    u.len() >= 8 && u.take(8) == "https://"@
}

/// The HSTS header value.
pub open spec fn hsts_text(max_age: u32, subdomains: bool) -> Seq<char> {
    if subdomains {
        "max-age="@ + decimal_text(max_age as nat) + "; includeSubDomains"@
    } else {
        "max-age="@ + decimal_text(max_age as nat)
    }
}

/// The headers after the security-header middleware has seen a response to
/// a request whose URL is secure or not.
pub open spec fn security_headers(c: SecurityHeadersMiddleware, secure: bool, h: Map<Seq<char>, Seq<Seq<char>>>)
    -> Map<Seq<char>, Seq<Seq<char>>> {
    let h1 = if c.content_type_nosniff { put(h, "x-content-type-options"@, "nosniff"@) } else { h };
    let h2 = match c.frame_options { Some(f) => put(h1, "x-frame-options"@, f@), None => h1 };
    let h3 = if c.xss_protection { put(h2, "x-xss-protection"@, "1; mode=block"@) } else { h2 };
    let h4 = match c.hsts_max_age {
        Some(m) => if secure { put(h3, "strict-transport-security"@, hsts_text(m, c.hsts_include_subdomains)) } else { h3 },
        None => h3,
    };
    let h5 = match c.referrer_policy { Some(p) => put(h4, "referrer-policy"@, p@), None => h4 };
    match c.content_security_policy { Some(p) => put(h5, "content-security-policy"@, p@), None => h5 }
}

/// Whether `s` starts with `p`.
pub fn starts_with(s: &str, p: &str) -> (r: bool)
    ensures
        r == (p@.len() <= s@.len() && s@.take(p@.len() as int) == p@),
{
    let sv = chars_of(s);
    let pv = chars_of(p);
    if pv.len() > sv.len() {
        return false;
    }
    let mut i: usize = 0;
    while i < pv.len()
        invariant
            pv@ == p@,
            sv@ == s@,
            pv@.len() <= sv@.len(),
            i <= pv@.len(),
            forall|j: int| 0 <= j < i ==> sv@[j] == pv@[j],
        decreases pv@.len() - i,
    {
        if sv[i] != pv[i] {
            assert(s@.take(p@.len() as int)[i as int] != p@[i as int]);
            return false;
        }
        i = i + 1;
    }
    assert(s@.take(p@.len() as int) =~= p@);
    true
}

impl SecurityHeadersMiddleware {
    /// nosniff, frame options DENY, XSS protection, a year of HSTS with
    /// subdomains, a strict referrer policy, no CSP.
    pub fn new() -> (r: Self)
        ensures
            r.content_type_nosniff,
            r.frame_options is Some && r.frame_options->Some_0@ == "DENY"@,
            r.xss_protection,
            r.hsts_max_age == Some(31536000u32),
            r.hsts_include_subdomains,
            r.referrer_policy is Some && r.referrer_policy->Some_0@ == "strict-origin-when-cross-origin"@,
            r.content_security_policy is None,
    {
        SecurityHeadersMiddleware {
            content_type_nosniff: true,
            frame_options: Some(String::from_str("DENY")),
            xss_protection: true,
            hsts_max_age: Some(31536000),
            hsts_include_subdomains: true,
            referrer_policy: Some(String::from_str("strict-origin-when-cross-origin")),
            content_security_policy: None,
        }
    }

    /// The same settings with a content security policy.
    pub fn with_csp(self, csp: String) -> (r: Self)
        ensures
            r == (SecurityHeadersMiddleware { content_security_policy: Some(csp), ..self }),
    {
        SecurityHeadersMiddleware { content_security_policy: Some(csp), ..self }
    }

    /// The same settings with other frame options.
    pub fn with_frame_options(self, frame_options: String) -> (r: Self)
        ensures
            r == (SecurityHeadersMiddleware { frame_options: Some(frame_options), ..self }),
    {
        SecurityHeadersMiddleware { frame_options: Some(frame_options), ..self }
    }

    /// Adds the security headers to a response; HSTS only for a secure URL.
    pub fn process_response(&self, request: &RustletteRequest, response: &mut RustletteResponse)
        requires
            old(response).wf(),
        ensures
            final(response).wf(),
            final(response).headers@ == security_headers(*self, secure_url(request.url@), old(response).headers@),
            final(response).body == old(response).body,
            final(response).status_code == old(response).status_code,
    {
        proof { lemma_header_names(); }
        if self.content_type_nosniff {
            put_header(response, "x-content-type-options", "nosniff");
        }
        match &self.frame_options {
            Some(f) => put_header(response, "x-frame-options", f.as_str()),
            None => {},
        }
        if self.xss_protection {
            put_header(response, "x-xss-protection", "1; mode=block");
        }
        let secure = starts_with(request.url.as_str(), "https://");
        proof { reveal_strlit("https://"); }
        match self.hsts_max_age {
            Some(m) => {
                if secure {
                    let mut v = String::from_str("max-age=");
                    let d = decimal(m as u64);
                    v.append(d.as_str());
                    if self.hsts_include_subdomains {
                        v.append("; includeSubDomains");
                    }
                    put_header(response, "strict-transport-security", v.as_str());
                }
            },
            None => {},
        }
        match &self.referrer_policy {
            Some(p) => put_header(response, "referrer-policy", p.as_str()),
            None => {},
        }
        match &self.content_security_policy {
            Some(p) => put_header(response, "content-security-policy", p.as_str()),
            None => {},
        }
    }
}


/// The key under which timing keeps the start of a request.
pub open spec fn start_key() -> Seq<char> {
    "request_start_time"@
}

/// `k` zero characters.
pub open spec fn zeros(k: nat) -> Seq<char>
    decreases k,
{
    if k == 0 { Seq::empty() } else { zeros((k - 1) as nat).push('0') }
}

/// A duration in microseconds as seconds with six decimals.
pub open spec fn seconds_text(us: nat) -> Seq<char> {
    let frac = decimal_text(us % 1000000);
    decimal_text(us / 1000000) + seq!['.'] + zeros((6 - frac.len()) as nat) + frac
}

proof fn lemma_decimal_len(n: nat)
    ensures
        decimal_text(n).len() >= 1,
        n < 10 ==> decimal_text(n).len() <= 1,
        n < 100 ==> decimal_text(n).len() <= 2,
        n < 1000 ==> decimal_text(n).len() <= 3,
        n < 10000 ==> decimal_text(n).len() <= 4,
        n < 100000 ==> decimal_text(n).len() <= 5,
        n < 1000000 ==> decimal_text(n).len() <= 6,
    decreases n,
{
    if n >= 10 {
        lemma_decimal_len(n / 10);
    }
}

/// The seconds text of a duration in microseconds.
pub fn seconds(us: u64) -> (r: String)
    ensures
        r@ == seconds_text(us as nat),
{
    let mut s = decimal(us / 1000000);
    push_char(&mut s, '.');
    let frac = decimal(us % 1000000);
    proof { lemma_decimal_len((us % 1000000) as nat); }
    let flen = frac.unicode_len();
    let mut k: usize = 0;
    let ghost base = s@;
    while k + flen < 6
        invariant
            flen == decimal_text((us % 1000000) as nat).len(),
            flen <= 6,
            k + flen <= 6,
            s@ == base + zeros(k as nat),
        decreases 6 - k - flen,
    {
        push_char(&mut s, '0');
        k = k + 1;
        assert(s@ =~= base + zeros(k as nat));
    }
    s.append(frac.as_str());
    assert(s@ =~= seconds_text(us as nat));
    s
}

/// Timing: notes when a request started and writes the elapsed time into a
/// response header.
#[derive(Clone, Debug)]
pub struct TimingMiddleware {
    pub header_name: String,
}

/// The start time that the state bag holds, as a count of microseconds.
pub open spec fn recorded_start(state: Map<Seq<char>, Seq<Seq<char>>>) -> Option<int> {
    match first_value(state, start_key()) {
        Some(t) => int_literal(t),
        None => None,
    }
}

/// The headers after the timing middleware has seen a response at `now`.
pub open spec fn timing_headers(t: TimingMiddleware, state: Map<Seq<char>, Seq<Seq<char>>>,
    h: Map<Seq<char>, Seq<Seq<char>>>, now: u64) -> Map<Seq<char>, Seq<Seq<char>>> {
    match recorded_start(state) {
        Some(start) => if 0 <= start <= i64::MAX && header_key(t.header_name@) != "content-length"@ {
            put(h, header_key(t.header_name@), seconds_text(if start <= now { (now - start) as nat } else { 0 }))
        } else {
            h
        },
        None => h,
    }
}

impl TimingMiddleware {
    /// Timing into `header_name`, `X-Process-Time` by default.
    pub fn new(header_name: Option<String>) -> (r: Self)
        ensures
            r.header_name@ == match header_name { Some(h) => h@, None => "X-Process-Time"@ },
    {
        match header_name {
            Some(h) => TimingMiddleware { header_name: h },
            None => TimingMiddleware { header_name: String::from_str("X-Process-Time") },
        }
    }

    /// Notes `now` (microseconds on a monotonic clock) as the request's start.
    pub fn process_request(&self, request: &mut RustletteRequest, now: u64)
        requires
            old(request).wf(),
        ensures
            final(request).wf(),
            final(request).state@ == old(request).state@.insert(start_key(), seq![decimal_text(now as nat)]),
            final(request).headers == old(request).headers,
            final(request).path_params == old(request).path_params,
            final(request).method == old(request).method,
            final(request).parts == old(request).parts,
    {
        let t = decimal(now);
        request.state_set("request_start_time", t.as_str());
    }

    /// Writes the time elapsed from the noted start to `now` into the header,
    /// where a start was noted (and the header is not the length header).
    pub fn process_response(&self, request: &RustletteRequest, response: &mut RustletteResponse, now: u64)
        requires
            request.wf(),
            old(response).wf(),
        ensures
            final(response).wf(),
            final(response).body == old(response).body,
            final(response).status_code == old(response).status_code,
            final(response).headers@ == timing_headers(*self, request.state@, old(response).headers@, now),
    {
        match request.state_get("request_start_time") {
            Some(t) => {
                match parse_i64(t.as_str()) {
                    Some(start) => {
                        if start >= 0 {
                            let st = start as u64;
                            let elapsed: u64 = if st <= now { now - st } else { 0 };
                            let v = seconds(elapsed);
                            let _ = response.set_header(self.header_name.as_str(), v.as_str());
                        }
                    },
                    None => {},
                }
            },
            None => {},
        }
    }
}

/// A middleware supplied from outside, known here by a handle and a name.
#[derive(Clone, Debug)]
pub struct ExternalMiddleware {
    pub id: u64,
    pub name: String,
}

/// One entry of the middleware stack.
#[derive(Clone, Debug)]
pub enum Middleware {
    Cors(CORSMiddleware),
    SecurityHeaders(SecurityHeadersMiddleware),
    Timing(TimingMiddleware),
    External(ExternalMiddleware),
}

/// The state bag after the request hooks of a stack of built-in middleware,
/// first to last: each timing middleware notes `now`.
pub open spec fn stack_state(ms: Seq<Middleware>, state: Map<Seq<char>, Seq<Seq<char>>>, now: u64)
    -> Map<Seq<char>, Seq<Seq<char>>>
    decreases ms.len(),
{
    if ms.len() == 0 {
        state
    } else {
        let s = stack_state(ms.drop_last(), state, now);
        match ms.last() {
            Middleware::Timing(_) => s.insert(start_key(), seq![decimal_text(now as nat)]),
            _ => s,
        }
    }
}

/// The headers after a built-in middleware has seen a response.
pub open spec fn builtin_headers(m: Middleware, req: RustletteRequest, h: Map<Seq<char>, Seq<Seq<char>>>, now: u64)
    -> Map<Seq<char>, Seq<Seq<char>>> {
    match m {
        Middleware::Cors(c) => cors_headers(c, first_value(req.headers@, "origin"@), h),
        Middleware::SecurityHeaders(c) => security_headers(c, secure_url(req.url@), h),
        Middleware::Timing(t) => timing_headers(t, req.state@, h, now),
        Middleware::External(_) => h,
    }
}

/// The headers after a stack of built-in middleware has seen a response:
/// the last middleware first, the first one last.
pub open spec fn stack_headers(ms: Seq<Middleware>, req: RustletteRequest, h: Map<Seq<char>, Seq<Seq<char>>>, now: u64)
    -> Map<Seq<char>, Seq<Seq<char>>>
    decreases ms.len(),
{
    if ms.len() == 0 {
        h
    } else {
        stack_headers(ms.drop_last(), req, builtin_headers(ms.last(), req, h, now), now)
    }
}

impl Middleware {
    /// Whether the hooks run outside this library.
    pub open spec fn is_external_spec(&self) -> bool {
        self is External
    }

    /// Whether the hooks run outside this library.
    pub fn is_external(&self) -> (r: bool)
        ensures
            r == (self is External),
    {
        match self {
            Middleware::External(_) => true,
            _ => false,
        }
    }

    /// The middleware's name.
    pub fn name(&self) -> (r: String)
        ensures
            r@ == match self {
                Middleware::Cors(_) => "CORSMiddleware"@,
                Middleware::SecurityHeaders(_) => "SecurityHeadersMiddleware"@,
                Middleware::Timing(_) => "TimingMiddleware"@,
                Middleware::External(e) => e.name@,
            },
    {
        match self {
            Middleware::Cors(_) => String::from_str("CORSMiddleware"),
            Middleware::SecurityHeaders(_) => String::from_str("SecurityHeadersMiddleware"),
            Middleware::Timing(_) => String::from_str("TimingMiddleware"),
            Middleware::External(e) => e.name.clone(),
        }
    }

    /// Runs the request hook of a built-in middleware; only timing acts here.
    pub fn process_request(&self, request: &mut RustletteRequest, now: u64)
        requires
            old(request).wf(),
            !(self is External),
        ensures
            final(request).wf(),
            final(request).headers == old(request).headers,
            final(request).path_params == old(request).path_params,
            final(request).method == old(request).method,
            final(request).parts == old(request).parts,
            match self {
                Middleware::Timing(_) => final(request).state@
                    == old(request).state@.insert(start_key(), seq![decimal_text(now as nat)]),
                _ => final(request).state == old(request).state,
            },
    {
        match self {
            Middleware::Timing(t) => t.process_request(request, now),
            _ => {},
        }
    }

    /// Runs the response hook of a built-in middleware.
    pub fn process_response(&self, request: &RustletteRequest, response: &mut RustletteResponse, now: u64)
        requires
            request.wf(),
            old(response).wf(),
            !(self is External),
        ensures
            final(response).wf(),
            final(response).body == old(response).body,
            final(response).status_code == old(response).status_code,
            match self {
                Middleware::Cors(c) => final(response).headers@
                    == cors_headers(*c, first_value(request.headers@, "origin"@), old(response).headers@),
                Middleware::SecurityHeaders(c) => final(response).headers@
                    == security_headers(*c, secure_url(request.url@), old(response).headers@),
                Middleware::Timing(t) => final(response).headers@
                    == timing_headers(*t, request.state@, old(response).headers@, now),
                Middleware::External(_) => true,
            },
            final(response).headers@ == builtin_headers(*self, *request, old(response).headers@, now),
    {
        match self {
            Middleware::Cors(c) => c.process_response(request, response),
            Middleware::SecurityHeaders(c) => c.process_response(request, response),
            Middleware::Timing(t) => t.process_response(request, response, now),
            Middleware::External(_) => {},
        }
    }
}

/// The middleware, in the order in which their request hooks run.
#[derive(Clone, Debug)]
pub struct MiddlewareStack {
    pub middlewares: Vec<Middleware>,
}

impl MiddlewareStack {
    /// An empty stack.
    pub fn new() -> (r: Self)
        ensures
            r.middlewares@.len() == 0,
    {
        MiddlewareStack { middlewares: Vec::new() }
    }

    /// Appends a middleware.
    pub fn add(&mut self, middleware: Middleware)
        ensures
            final(self).middlewares@ == old(self).middlewares@.push(middleware),
    {
        self.middlewares.push(middleware);
    }

    /// Inserts a middleware at `index`; past the end is refused.
    pub fn insert(&mut self, index: usize, middleware: Middleware) -> (r: RustletteResult<()>)
        ensures
            r is Ok <==> index <= old(self).middlewares@.len(),
            r is Ok ==> final(self).middlewares@ == old(self).middlewares@.insert(index as int, middleware),
            r is Err ==> final(self).middlewares@ == old(self).middlewares@
                && r->Err_0.error_type@ == kind_tag(ErrorKind::Middleware),
    {
        if index > self.middlewares.len() {
            return Err(RustletteError::middleware_error("Middleware index out of range"));
        }
        self.middlewares.insert(index, middleware);
        Ok(())
    }

    /// Takes out the middleware at `index`; past the end is refused.
    pub fn remove(&mut self, index: usize) -> (r: RustletteResult<()>)
        ensures
            r is Ok <==> index < old(self).middlewares@.len(),
            r is Ok ==> final(self).middlewares@ == old(self).middlewares@.remove(index as int),
            r is Err ==> final(self).middlewares@ == old(self).middlewares@
                && r->Err_0.error_type@ == kind_tag(ErrorKind::Middleware),
    {
        if index >= self.middlewares.len() {
            return Err(RustletteError::middleware_error("Middleware index out of range"));
        }
        let _ = self.middlewares.remove(index);
        Ok(())
    }

    /// The number of middleware.
    pub fn len(&self) -> (r: usize)
        ensures
            r == self.middlewares@.len(),
    {
        self.middlewares.len()
    }

    /// Whether the stack is empty.
    pub fn is_empty(&self) -> (r: bool)
        ensures
            r == (self.middlewares@.len() == 0),
    {
        self.middlewares.len() == 0
    }

    /// Takes out every middleware.
    pub fn clear(&mut self)
        ensures
            final(self).middlewares@.len() == 0,
    {
        self.middlewares = Vec::new();
    }

    /// Appends a CORS middleware, with defaults for what is not given.
    pub fn add_cors_middleware(
        &mut self,
        allow_origins: Option<Vec<String>>,
        allow_methods: Option<Vec<String>>,
        allow_headers: Option<Vec<String>>,
        allow_credentials: Option<bool>,
        expose_headers: Option<Vec<String>>,
        max_age: Option<u32>,
    )
        ensures
            final(self).middlewares@.len() == old(self).middlewares@.len() + 1,
            final(self).middlewares@.drop_last() == old(self).middlewares@,
            final(self).middlewares@.last() is Cors,
    {
        let c = CORSMiddleware::with_defaults(allow_origins, allow_methods, allow_headers,
            allow_credentials, expose_headers, max_age);
        self.middlewares.push(Middleware::Cors(c));
        assert(self.middlewares@.drop_last() =~= old(self).middlewares@);
    }

    /// Appends the security-header middleware with its defaults.
    pub fn add_security_headers_middleware(&mut self)
        ensures
            final(self).middlewares@.len() == old(self).middlewares@.len() + 1,
            final(self).middlewares@.drop_last() == old(self).middlewares@,
            final(self).middlewares@.last() is SecurityHeaders,
    {
        self.middlewares.push(Middleware::SecurityHeaders(SecurityHeadersMiddleware::new()));
        assert(self.middlewares@.drop_last() =~= old(self).middlewares@);
    }

    /// Appends a timing middleware.
    pub fn add_timing_middleware(&mut self, header_name: Option<String>)
        ensures
            final(self).middlewares@.len() == old(self).middlewares@.len() + 1,
            final(self).middlewares@.drop_last() == old(self).middlewares@,
            final(self).middlewares@.last() is Timing,
    {
        self.middlewares.push(Middleware::Timing(TimingMiddleware::new(header_name)));
        assert(self.middlewares@.drop_last() =~= old(self).middlewares@);
    }

    /// Appends a middleware supplied from outside.
    pub fn add_external_middleware(&mut self, id: u64, name: String)
        ensures
            final(self).middlewares@.len() == old(self).middlewares@.len() + 1,
            final(self).middlewares@.drop_last() == old(self).middlewares@,
            final(self).middlewares@.last() is External,
    {
        self.middlewares.push(Middleware::External(ExternalMiddleware { id, name }));
        assert(self.middlewares@.drop_last() =~= old(self).middlewares@);
    }

    /// Whether every middleware is built in.
    pub open spec fn all_builtin(&self) -> bool {
        forall|i: int| 0 <= i < self.middlewares@.len() ==> !(#[trigger] self.middlewares@[i] is External)
    }

    /// Runs the request hooks of a stack of built-in middleware, first to last.
    pub fn process_request(&self, request: &mut RustletteRequest, now: u64)
        requires
            old(request).wf(),
            self.all_builtin(),
        ensures
            final(request).wf(),
            final(request).headers == old(request).headers,
            final(request).path_params == old(request).path_params,
            final(request).method == old(request).method,
            final(request).parts == old(request).parts,
            final(request).state@ == stack_state(self.middlewares@, old(request).state@, now),
    {
        let mut i: usize = 0;
        while i < self.middlewares.len()
            invariant
                self.all_builtin(),
                i <= self.middlewares@.len(),
                request.wf(),
                request.headers == old(request).headers,
                request.path_params == old(request).path_params,
                request.method == old(request).method,
                request.parts == old(request).parts,
                request.state@ == stack_state(self.middlewares@.take(i as int), old(request).state@, now),
            decreases self.middlewares@.len() - i,
        {
            assert(self.middlewares@.take(i as int + 1).drop_last() =~= self.middlewares@.take(i as int));
            assert(self.middlewares@.take(i as int + 1).last() == self.middlewares@[i as int]);
            self.middlewares[i].process_request(request, now);
            i = i + 1;
        }
        assert(self.middlewares@.take(self.middlewares@.len() as int) =~= self.middlewares@);
    }

    /// Runs the response hooks of a stack of built-in middleware, last to first.
    pub fn process_response(&self, request: &RustletteRequest, response: &mut RustletteResponse, now: u64)
        requires
            request.wf(),
            old(response).wf(),
            self.all_builtin(),
        ensures
            final(response).wf(),
            final(response).body == old(response).body,
            final(response).status_code == old(response).status_code,
            final(response).headers@ == stack_headers(self.middlewares@, *request, old(response).headers@, now),
    {
        let mut i: usize = self.middlewares.len();
        assert(self.middlewares@.take(i as int) =~= self.middlewares@);
        while i > 0
            invariant
                self.all_builtin(),
                i <= self.middlewares@.len(),
                request.wf(),
                response.wf(),
                response.body == old(response).body,
                response.status_code == old(response).status_code,
                stack_headers(self.middlewares@, *request, old(response).headers@, now)
                    == stack_headers(self.middlewares@.take(i as int), *request, response.headers@, now),
            decreases i,
        {
            i = i - 1;
            assert(self.middlewares@.take(i as int + 1).drop_last() =~= self.middlewares@.take(i as int));
            assert(self.middlewares@.take(i as int + 1).last() == self.middlewares@[i as int]);
            self.middlewares[i].process_response(request, response, now);
        }
    }
}


/// What a middleware's exception hook gave: nothing, a response, or a failure.
#[derive(Debug)]
pub enum ExceptionVerdict {
    Pass,
    Respond(RustletteResponse),
    Fail(RustletteError),
}

/// The position of the first middleware, from `i` on, whose reported
/// exception hook decided; built-in middleware never decide.
pub open spec fn first_decisive(ms: Seq<Middleware>, vs: Seq<ExceptionVerdict>, i: int) -> Option<int>
    decreases vs.len() - i,
{
    if i < 0 || i >= vs.len() || i >= ms.len() {
        None
    } else if ms[i] is External && !(vs[i] is Pass) {
        Some(i)
    } else {
        first_decisive(ms, vs, i + 1)
    }
}

proof fn lemma_first_decisive(ms: Seq<Middleware>, vs: Seq<ExceptionVerdict>, i: int)
    ensures
        match first_decisive(ms, vs, i) {
            Some(k) => i <= k < vs.len() && k < ms.len() && ms[k] is External && !(vs[k] is Pass),
            None => true,
        },
    decreases vs.len() - i,
{
    if !(i < 0 || i >= vs.len() || i >= ms.len()) && !(ms[i] is External && !(vs[i] is Pass)) {
        lemma_first_decisive(ms, vs, i + 1);
    }
}

impl MiddlewareStack {
    /// The exception phase: the hooks run first to last, and the first one
    /// that gives a response or fails decides; when none does, the error is
    /// unhandled (`Ok(None)`). `verdicts` holds what the hooks of the
    /// middleware supplied from outside gave, in stack order, as far as they
    /// were run; entries for built-in middleware are not read.
    pub fn process_exception(&self, verdicts: Vec<ExceptionVerdict>) -> (r: RustletteResult<Option<RustletteResponse>>)
        ensures
            match first_decisive(self.middlewares@, verdicts@, 0) {
                Some(k) => match verdicts@[k] {
                    ExceptionVerdict::Respond(x) => r == Ok::<Option<RustletteResponse>, RustletteError>(Some(x)),
                    ExceptionVerdict::Fail(e) => r == Err::<Option<RustletteResponse>, RustletteError>(e),
                    ExceptionVerdict::Pass => false,
                },
                None => r == Ok::<Option<RustletteResponse>, RustletteError>(None),
            },
    {
        let mut verdicts = verdicts;
        let ghost vs = verdicts@;
        let mut i: usize = 0;
        let mut found: Option<usize> = None;
        while i < verdicts.len() && i < self.middlewares.len()
            invariant_except_break
                found is None,
            invariant
                verdicts@ == vs,
                first_decisive(self.middlewares@, vs, 0) == first_decisive(self.middlewares@, vs, i as int),
            ensures
                match found {
                    Some(k) => first_decisive(self.middlewares@, vs, 0) == Some(k as int),
                    None => first_decisive(self.middlewares@, vs, 0) is None,
                },
            decreases vs.len() - i,
        {
            let pass = match &verdicts[i] {
                ExceptionVerdict::Pass => true,
                _ => false,
            };
            if self.middlewares[i].is_external() && !pass {
                found = Some(i);
                break;
            }
            i = i + 1;
        }
        proof { lemma_first_decisive(self.middlewares@, vs, 0); }
        match found {
            Some(k) => {
                let v = verdicts.remove(k);
                match v {
                    ExceptionVerdict::Respond(x) => Ok(Some(x)),
                    ExceptionVerdict::Fail(e) => Err(e),
                    ExceptionVerdict::Pass => Ok(None),
                }
            },
            None => Ok(None),
        }
    }
}

} // verus!
