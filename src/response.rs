//! The outbound response: status, headers, optional body and media type.

use vstd::prelude::*;
use crate::text::{decimal, decimal_text, header_key, ascii_lower, utf8_text, utf8_decoded, extension_of,
    path_extension, lowercase, lower_of, same, push_decimal};
use crate::error::{RustletteError, RustletteResult, kind_tag, ErrorKind};
use crate::types::Headers;
use vstd::utf8::encode_utf8;

verus! {

/// Whether the headers carry the body's length, where there is a body.
pub open spec fn length_header_ok(h: Map<Seq<char>, Seq<Seq<char>>>, body: Option<Vec<u8>>) -> bool {
    match body {
        Some(b) => h.contains_key("content-length"@) && h["content-length"@] == seq![decimal_text(b@.len())],
        None => true,
    }
}

/// A response on its way out.
#[derive(Clone, Debug)]
pub struct RustletteResponse {
    pub status_code: u16,
    pub headers: Headers,
    pub media_type: Option<String>,
    pub body: Option<Vec<u8>>,
    pub background: Option<u64>,
    pub charset: String,
}

proof fn lemma_fixed_names()
    ensures
        ascii_lower("content-length"@),
        ascii_lower("content-type"@),
{
    reveal_strlit("content-length");
    reveal_strlit("content-type");
}

/// Puts the body's length in the headers.
fn set_length(h: &mut Headers, b: &Vec<u8>)
    requires
        old(h).wf(),
    ensures
        final(h).wf(),
        final(h)@ == old(h)@.insert("content-length"@, seq![decimal_text(b@.len())]),
{
    proof { lemma_fixed_names(); }
    let n = decimal(b.len() as u64);
    h.set("content-length", n.as_str());
}

impl RustletteResponse {
    /// Headers keep unique names and carry the body's length.
    pub open spec fn wf(&self) -> bool {
        self.headers.wf() && length_header_ok(self.headers@, self.body)
    }

    /// A response with `content` as its body (UTF-8), status 200 unless given,
    /// the given headers, a content type from `media_type` unless the headers
    /// have one, and the body's length.
    pub fn new(
        content: Option<String>,
        status_code: Option<u16>,
        headers: Option<Headers>,
        media_type: Option<String>,
        background: Option<u64>,
    ) -> (r: Self)
        requires
            match headers { Some(h) => h.wf(), None => true },
        ensures
            r.wf(),
            r.status_code == match status_code { Some(c) => c, None => 200u16 },
            r.body is Some <==> content is Some,
            content is Some ==> r.body->Some_0@ == encode_utf8(content->Some_0@),
            r.media_type == media_type,
            r.background == background,
            ({
                let h0 = match headers { Some(h) => h@, None => Map::<Seq<char>, Seq<Seq<char>>>::empty() };
                let h1 = match media_type {
                    Some(mt) => if h0.contains_key("content-type"@) { h0 } else { h0.insert("content-type"@, seq![mt@]) },
                    None => h0,
                };
                match r.body {
                    Some(b) => r.headers@ == h1.insert("content-length"@, seq![decimal_text(b@.len())]),
                    None => r.headers@ == h1,
                }
            }),
    {
        proof { lemma_fixed_names(); }
        let mut h = match headers {
            Some(h) => h,
            None => Headers::new(),
        };
        match &media_type {
            Some(mt) => {
                if !h.contains("content-type") {
                    h.set("content-type", mt.as_str());
                }
            },
            None => {},
        }
        let body = match content {
            Some(c) => {
                let b = c.as_str().as_bytes_vec();
                set_length(&mut h, &b);
                Some(b)
            },
            None => None,
        };
        let status = match status_code {
            Some(c) => c,
            None => 200,
        };
        RustletteResponse {
            status_code: status,
            headers: h,
            media_type,
            body,
            background,
            charset: String::from_str("utf-8"),
        }
    }

    /// A response with the given bytes as its body.
    pub fn from_raw(body: Vec<u8>, status_code: u16, media_type: Option<String>) -> (r: Self)
        ensures
            r.wf(),
            r.status_code == status_code,
            r.body == Some(body),
            r.media_type == media_type,
    {
        proof { lemma_fixed_names(); }
        let mut h = Headers::new();
        match &media_type {
            Some(mt) => h.set("content-type", mt.as_str()),
            None => {},
        }
        set_length(&mut h, &body);
        RustletteResponse {
            status_code,
            headers: h,
            media_type,
            body: Some(body),
            background: None,
            charset: String::from_str("utf-8"),
        }
    }

    /// Replaces the body and its length header.
    pub fn set_body(&mut self, body: Vec<u8>)
        requires
            old(self).wf(),
        ensures
            final(self).wf(),
            final(self).body == Some(body),
            final(self).headers@ == old(self).headers@.insert("content-length"@, seq![decimal_text(body@.len())]),
            final(self).status_code == old(self).status_code,
    {
        set_length(&mut self.headers, &body);
        self.body = Some(body);
    }

    /// Sets a header, except the length header, which stays in step with the
    /// body; says whether it set it.
    pub fn set_header(&mut self, name: &str, value: &str) -> (r: bool)
        requires
            old(self).wf(),
        ensures
            final(self).wf(),
            r == (header_key(name@) != "content-length"@),
            r ==> final(self).headers@ == old(self).headers@.insert(header_key(name@), seq![value@]),
            !r ==> final(self).headers@ == old(self).headers@,
            final(self).body == old(self).body,
            final(self).status_code == old(self).status_code,
    {
        let k = lowercase(name);
        if same(k.as_str(), "content-length") {
            return false;
        }
        self.headers.set(name, value);
        true
    }

    /// The body as text, where it is UTF-8.
    pub fn text(&self) -> (r: Option<String>)
        ensures
            match self.body {
                Some(b) => match r {
                    Some(t) => utf8_decoded(b@) == Some(t@),
                    None => utf8_decoded(b@) is None,
                },
                None => r is None,
            },
    {
        match &self.body {
            Some(b) => utf8_text(b),
            None => None,
        }
    }
}


/// The decimal notation of a signed number.
pub open spec fn signed_text(n: int) -> Seq<char> {
    if n < 0 { seq!['-'] + decimal_text((-n) as nat) } else { decimal_text(n as nat) }
}

/// An optional `; Key=value` attribute.
pub open spec fn attr(key: Seq<char>, v: Option<Seq<char>>) -> Seq<char> {
    match v {
        Some(t) => "; "@ + key + "="@ + t,
        None => Seq::empty(),
    }
}

/// The `set-cookie` value for a cookie and its attributes.
pub open spec fn cookie_text(
    name: Seq<char>, value: Seq<char>, max_age: Option<i32>, expires: Option<Seq<char>>,
    path: Option<Seq<char>>, domain: Option<Seq<char>>, secure: bool, httponly: bool,
    samesite: Option<Seq<char>>,
) -> Seq<char> {
    name + "="@ + value
        + attr("Max-Age"@, match max_age { Some(m) => Some(signed_text(m as int)), None => None })
        + attr("Expires"@, expires)
        + attr("Path"@, path)
        + attr("Domain"@, domain)
        + (if secure { "; Secure"@ } else { Seq::empty() })
        + (if httponly { "; HttpOnly"@ } else { Seq::empty() })
        + attr("SameSite"@, samesite)
}

/// The `set-cookie` value that deletes a cookie.
pub open spec fn expired_cookie_text(name: Seq<char>, path: Option<Seq<char>>, domain: Option<Seq<char>>) -> Seq<char> {
    name + "=; Max-Age=0; Expires=Thu, 01 Jan 1970 00:00:00 GMT"@ + attr("Path"@, path) + attr("Domain"@, domain)
}

fn push_attr(s: &mut String, key: &str, v: Option<&str>)
    ensures
        final(s)@ == old(s)@ + attr(key@, match v { Some(t) => Some(t@), None => None }),
{
    match v {
        Some(t) => {
            s.append("; ");
            s.append(key);
            s.append("=");
            s.append(t);
            assert(final(s)@ =~= old(s)@ + attr(key@, Some(t@)));
        },
        None => {
            assert(final(s)@ =~= old(s)@ + attr(key@, None));
        },
    }
}

/// The media type for a file name, by its extension, case aside.
pub open spec fn media_type_for(ext: Seq<char>) -> Seq<char> {
    if ext == "html"@ || ext == "htm"@ { "text/html"@ }
    else if ext == "css"@ { "text/css"@ }
    else if ext == "js"@ { "application/javascript"@ }
    else if ext == "json"@ { "application/json"@ }
    else if ext == "xml"@ { "application/xml"@ }
    else if ext == "pdf"@ { "application/pdf"@ }
    else if ext == "png"@ { "image/png"@ }
    else if ext == "jpg"@ || ext == "jpeg"@ { "image/jpeg"@ }
    else if ext == "gif"@ { "image/gif"@ }
    else if ext == "svg"@ { "image/svg+xml"@ }
    else if ext == "ico"@ { "image/x-icon"@ }
    else if ext == "txt"@ { "text/plain"@ }
    else if ext == "csv"@ { "text/csv"@ }
    else if ext == "zip"@ { "application/zip"@ }
    else if ext == "tar"@ { "application/x-tar"@ }
    else if ext == "gz"@ { "application/gzip"@ }
    else if ext == "mp3"@ { "audio/mpeg"@ }
    else if ext == "mp4"@ { "video/mp4"@ }
    else if ext == "avi"@ { "video/x-msvideo"@ }
    else if ext == "mov"@ { "video/quicktime"@ }
    else { "application/octet-stream"@ }
}

/// The media type of a file, guessed from its extension.
pub fn guess_media_type(path: &str) -> (r: String)
    ensures
        r@ == media_type_for(lower_of(path_extension(path@))),
{
    let ext = extension_of(path);
    let low = lowercase(ext.as_str());
    let e = low.as_str();
    let t = if same(e, "html") || same(e, "htm") { "text/html" }
    else if same(e, "css") { "text/css" }
    else if same(e, "js") { "application/javascript" }
    else if same(e, "json") { "application/json" }
    else if same(e, "xml") { "application/xml" }
    else if same(e, "pdf") { "application/pdf" }
    else if same(e, "png") { "image/png" }
    else if same(e, "jpg") || same(e, "jpeg") { "image/jpeg" }
    else if same(e, "gif") { "image/gif" }
    else if same(e, "svg") { "image/svg+xml" }
    else if same(e, "ico") { "image/x-icon" }
    else if same(e, "txt") { "text/plain" }
    else if same(e, "csv") { "text/csv" }
    else if same(e, "zip") { "application/zip" }
    else if same(e, "tar") { "application/x-tar" }
    else if same(e, "gz") { "application/gzip" }
    else if same(e, "mp3") { "audio/mpeg" }
    else if same(e, "mp4") { "video/mp4" }
    else if same(e, "avi") { "video/x-msvideo" }
    else if same(e, "mov") { "video/quicktime" }
    else { "application/octet-stream" };
    String::from_str(t)
}

/// Whether a status code is one a redirect may carry.
pub open spec fn redirect_status(c: u16) -> bool {
    c == 301 || c == 302 || c == 303 || c == 307 || c == 308
}

impl RustletteResponse {
    /// Adds a cookie.
    pub fn set_cookie(
        &mut self,
        name: &str,
        value: &str,
        max_age: Option<i32>,
        expires: Option<&str>,
        path: Option<&str>,
        domain: Option<&str>,
        secure: Option<bool>,
        httponly: Option<bool>,
        samesite: Option<&str>,
    )
        requires
            old(self).wf(),
        ensures
            final(self).wf(),
            final(self).body == old(self).body,
            final(self).status_code == old(self).status_code,
            ({
                let c = cookie_text(name@, value@, max_age,
                    match expires { Some(t) => Some(t@), None => None },
                    match path { Some(t) => Some(t@), None => None },
                    match domain { Some(t) => Some(t@), None => None },
                    match secure { Some(b) => b, None => false },
                    match httponly { Some(b) => b, None => false },
                    match samesite { Some(t) => Some(t@), None => None });
                let h = old(self).headers@;
                final(self).headers@ == h.insert("set-cookie"@,
                    if h.contains_key("set-cookie"@) { h["set-cookie"@].push(c) } else { seq![c] })
            }),
    {
        let mut c = String::from_str(name);
        c.append("=");
        c.append(value);
        match max_age {
            Some(m) => {
                let ghost before = c@;
                c.append("; Max-Age=");
                if m < 0 {
                    crate::text::push_char(&mut c, '-');
                    let a: u64 = (-(m as i64)) as u64;
                    push_decimal(&mut c, a);
                } else {
                    push_decimal(&mut c, m as u64);
                }
                proof {
                    reveal_strlit("; Max-Age=");
                    reveal_strlit("; ");
                    reveal_strlit("Max-Age");
                    reveal_strlit("=");
                    assert("; Max-Age="@ =~= "; "@ + "Max-Age"@ + "="@);
                }
                assert(c@ =~= before + attr("Max-Age"@, Some(signed_text(m as int))));
            },
            None => {},
        }
        push_attr(&mut c, "Expires", expires);
        push_attr(&mut c, "Path", path);
        push_attr(&mut c, "Domain", domain);
        if match secure { Some(b) => b, None => false } {
            c.append("; Secure");
        }
        if match httponly { Some(b) => b, None => false } {
            c.append("; HttpOnly");
        }
        push_attr(&mut c, "SameSite", samesite);
        proof {
            reveal_strlit("set-cookie");
            reveal_strlit("content-length");
            assert(ascii_lower("set-cookie"@));
            assert("set-cookie"@.len() != "content-length"@.len());
        }
        let ghost expected = cookie_text(name@, value@, max_age,
            match expires { Some(t) => Some(t@), None => None },
            match path { Some(t) => Some(t@), None => None },
            match domain { Some(t) => Some(t@), None => None },
            match secure { Some(b) => b, None => false },
            match httponly { Some(b) => b, None => false },
            match samesite { Some(t) => Some(t@), None => None });
        assert(c@ =~= expected);
        self.headers.add("set-cookie", c.as_str());
    }

    /// Adds a cookie that expires at once, deleting it on the client.
    pub fn delete_cookie(&mut self, name: &str, path: Option<&str>, domain: Option<&str>)
        requires
            old(self).wf(),
        ensures
            final(self).wf(),
            final(self).body == old(self).body,
            ({
                let c = expired_cookie_text(name@,
                    match path { Some(t) => Some(t@), None => None },
                    match domain { Some(t) => Some(t@), None => None });
                let h = old(self).headers@;
                final(self).headers@ == h.insert("set-cookie"@,
                    if h.contains_key("set-cookie"@) { h["set-cookie"@].push(c) } else { seq![c] })
            }),
    {
        let mut c = String::from_str(name);
        c.append("=; Max-Age=0; Expires=Thu, 01 Jan 1970 00:00:00 GMT");
        push_attr(&mut c, "Path", path);
        push_attr(&mut c, "Domain", domain);
        proof {
            reveal_strlit("set-cookie");
            reveal_strlit("content-length");
            assert(ascii_lower("set-cookie"@));
            assert("set-cookie"@.len() != "content-length"@.len());
        }
        assert(c@ =~= expired_cookie_text(name@,
            match path { Some(t) => Some(t@), None => None },
            match domain { Some(t) => Some(t@), None => None }));
        self.headers.add("set-cookie", c.as_str());
    }

    /// A redirect to `url` (status 302 unless given); a status that is not a
    /// redirect is a validation error.
    pub fn redirect(url: &str, status_code: Option<u16>, headers: Option<Headers>) -> (r: RustletteResult<Self>)
        requires
            match headers { Some(h) => h.wf(), None => true },
        ensures
            ({
                let c = match status_code { Some(c) => c, None => 302u16 };
                &&& r is Ok <==> redirect_status(c)
                &&& r is Ok ==> r->Ok_0.wf() && r->Ok_0.status_code == c && r->Ok_0.body is None
                    && r->Ok_0.headers@ == (match headers { Some(h) => h@, None => Map::<Seq<char>, Seq<Seq<char>>>::empty() })
                        .insert("location"@, seq![url@])
                &&& r is Err ==> r->Err_0.error_type@ == kind_tag(ErrorKind::Validation)
            }),
    {
        let c: u16 = match status_code { Some(c) => c, None => 302 };
        if !(c == 301 || c == 302 || c == 303 || c == 307 || c == 308) {
            return Err(RustletteError::validation_error("Invalid redirect status code"));
        }
        let mut h = match headers { Some(h) => h, None => Headers::new() };
        proof {
            reveal_strlit("location");
            assert(ascii_lower("location"@));
        }
        h.set("location", url);
        Ok(RustletteResponse {
            status_code: c,
            headers: h,
            media_type: None,
            body: None,
            background: None,
            charset: String::from_str("utf-8"),
        })
    }

    /// A response whose body is JSON text already serialised.
    pub fn json(content: String, status_code: Option<u16>, headers: Option<Headers>) -> (r: Self)
        requires
            match headers { Some(h) => h.wf(), None => true },
        ensures
            r.wf(),
            r.status_code == match status_code { Some(c) => c, None => 200u16 },
            r.body is Some && r.body->Some_0@ == encode_utf8(content@),
            r.media_type is Some && r.media_type->Some_0@ == "application/json"@,
    {
        RustletteResponse::new(Some(content), status_code, headers, Some(String::from_str("application/json")), None)
    }

    /// An HTML response.
    pub fn html(content: String, status_code: Option<u16>, headers: Option<Headers>) -> (r: Self)
        requires
            match headers { Some(h) => h.wf(), None => true },
        ensures
            r.wf(),
            r.status_code == match status_code { Some(c) => c, None => 200u16 },
            r.body is Some && r.body->Some_0@ == encode_utf8(content@),
            r.media_type is Some && r.media_type->Some_0@ == "text/html"@,
    {
        RustletteResponse::new(Some(content), status_code, headers, Some(String::from_str("text/html")), None)
    }

    /// A plain-text response.
    pub fn plain_text(content: String, status_code: Option<u16>, headers: Option<Headers>) -> (r: Self)
        requires
            match headers { Some(h) => h.wf(), None => true },
        ensures
            r.wf(),
            r.status_code == match status_code { Some(c) => c, None => 200u16 },
            r.body is Some && r.body->Some_0@ == encode_utf8(content@),
            r.media_type is Some && r.media_type->Some_0@ == "text/plain"@,
    {
        RustletteResponse::new(Some(content), status_code, headers, Some(String::from_str("text/plain")), None)
    }
}


/// The content type after a charset change: for a text or JSON type, its
/// first `;` part (where it names a charset already) or the whole type,
/// followed by the new charset; other types are left alone.
pub open spec fn with_charset(ct: Seq<char>, cs: Seq<char>) -> Option<Seq<char>> {
    if (ct.len() >= 5 && ct.take(5) == "text/"@) || crate::text::has_infix(ct, "application/json"@) {
        if crate::text::has_infix(ct, "charset="@) {
            Some(crate::types::pieces(ct, ';')[0] + "; charset="@ + cs)
        } else {
            Some(ct + "; charset="@ + cs)
        }
    } else {
        None
    }
}

impl RustletteResponse {
    /// The charset.
    pub fn charset(&self) -> (r: String)
        ensures
            r@ == self.charset@,
    {
        self.charset.clone()
    }

    /// Sets the charset and writes it into a text or JSON content type.
    pub fn set_charset(&mut self, charset: String)
        requires
            old(self).wf(),
        ensures
            final(self).wf(),
            final(self).charset@ == charset@,
            final(self).body == old(self).body,
            final(self).status_code == old(self).status_code,
            final(self).headers@ == match crate::middleware::first_value(old(self).headers@, "content-type"@) {
                Some(ct) => match with_charset(ct, charset@) {
                    Some(n) => old(self).headers@.insert("content-type"@, seq![n]),
                    None => old(self).headers@,
                },
                None => old(self).headers@,
            },
    {
        proof { lemma_fixed_names(); }
        match self.headers.get("content-type") {
            Some(ct) => {
                let c = ct.as_str();
                if crate::middleware::starts_with(c, "text/") || crate::text::text_contains(c, "application/json") {
                    proof {
                        reveal_strlit("text/");
                    }
                    let n = if crate::text::text_contains(c, "charset=") {
                        let chars = crate::text::chars_of(c);
                        let ps = crate::types::split_chars(&chars, ';');
                        proof { crate::types::lemma_pieces_nonempty(c@, ';'); }
                        assert(ps@.map_values(|p: Vec<char>| p@)[0] == ps@[0]@);
                        let first_len = ps[0].len();
                        let mut n = crate::text::text_of(&ps[0], 0, first_len);
                        assert(n@ =~= ps@[0]@);
                        n.append("; charset=");
                        n.append(charset.as_str());
                        n
                    } else {
                        let mut n = ct.clone();
                        n.append("; charset=");
                        n.append(charset.as_str());
                        n
                    };
                    proof {
                        reveal_strlit("content-length");
                        reveal_strlit("content-type");
                        assert("content-type"@.len() != "content-length"@.len());
                    }
                    let _ = self.set_header("content-type", n.as_str());
                }
            },
            None => {},
        }
        self.charset = charset;
    }

    /// The body's length, where there is a body.
    pub fn content_length(&self) -> (r: Option<usize>)
        ensures
            r == match self.body { Some(b) => Some(b@.len() as usize), None => None },
    {
        match &self.body {
            Some(b) => Some(b.len()),
            None => None,
        }
    }
}


impl RustletteResponse {
    /// Whether the headers keep unique names and carry the body's length.
    pub fn is_well_formed(&self) -> (r: bool)
        ensures
            r == self.wf(),
    {
        if !self.headers.map.check_wf() {
            return false;
        }
        proof { lemma_fixed_names(); }
        match &self.body {
            Some(b) => {
                let expected = decimal(b.len() as u64);
                let got = self.headers.get_list("content-length");
                if got.len() != 1 {
                    assert(crate::text::texts_view(got@).len() == got@.len());
                    return false;
                }
                assert(crate::text::texts_view(got@)[0] == got@[0]@);
                let ok = same(got[0].as_str(), expected.as_str());
                proof {
                    if self.headers@.contains_key("content-length"@) {
                        if ok {
                            assert(self.headers@["content-length"@] =~= seq![decimal_text(b@.len())]);
                        }
                    }
                }
                ok
            },
            None => true,
        }
    }
}

} // verus!
