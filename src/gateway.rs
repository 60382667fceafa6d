//! The gateway adapter: turns a connection scope and its message stream into
//! one request, and one response back into a start message and a body
//! message; runs the lifespan sub-protocol.

use vstd::prelude::*;
use vstd::utf8::encode_utf8;
use crate::error::{RustletteError, RustletteResult, kind_tag, ErrorKind};
use crate::request::RustletteRequest;
use crate::response::RustletteResponse;
use crate::text::{same, decimal, decimal_text, lossy_text, utf8_lossy, header_key, push_char};
use crate::types::{Headers, map_add, parsed_method};
use crate::request::url_parsed;

verus! {

/// The kinds of connection scope.
#[derive(Clone, Copy, Debug, PartialEq, Eq, Structural)]
pub enum ScopeKind {
    Http,
    Lifespan,
    WebSocket,
}

/// The scope kind a type name declares.
pub open spec fn scope_kind_of(t: Seq<char>) -> Option<ScopeKind> {
    if t == "http"@ { Some(ScopeKind::Http) }
    else if t == "lifespan"@ { Some(ScopeKind::Lifespan) }
    else if t == "websocket"@ { Some(ScopeKind::WebSocket) }
    else { None }
}

/// Reads a scope type; an unknown one is a request error.
pub fn validate_scope(scope_type: &str) -> (r: RustletteResult<ScopeKind>)
    ensures
        match scope_kind_of(scope_type@) {
            Some(k) => r == Ok::<ScopeKind, RustletteError>(k),
            None => r is Err && r->Err_0.error_type@ == kind_tag(ErrorKind::Request),
        },
{
    if same(scope_type, "http") {
        Ok(ScopeKind::Http)
    } else if same(scope_type, "lifespan") {
        Ok(ScopeKind::Lifespan)
    } else if same(scope_type, "websocket") {
        Ok(ScopeKind::WebSocket)
    } else {
        let mut msg = String::from_str("Unsupported scope type: ");
        msg.append(scope_type);
        Err(RustletteError::request_error(msg.as_str()))
    }
}

/// A connection scope as the gateway describes it.
#[derive(Clone, Debug)]
pub struct ASGIScope {
    pub scope_type: String,
    pub asgi_version: String,
    pub http_version: String,
    pub method: String,
    pub scheme: String,
    pub path: String,
    pub raw_path: Vec<u8>,
    pub query_string: Vec<u8>,
    pub root_path: String,
    pub headers: Vec<(Vec<u8>, Vec<u8>)>,
    pub server: Option<(String, u16)>,
    pub client: Option<(String, u16)>,
}

/// The host part of the URL: the server's host, with its port unless it is
/// the scheme's default; `localhost` when the server is unknown.
pub open spec fn host_text(scheme: Seq<char>, server: Option<(String, u16)>) -> Seq<char> {
    match server {
        Some((h, p)) => {
            let default_port: u16 = if scheme == "https"@ { 443 } else { 80 };
            if p == default_port { h@ } else { h@ + seq![':'] + decimal_text(p as nat) }
        },
        None => "localhost"@,
    }
}

/// The URL of the request a scope describes.
pub open spec fn url_text(s: ASGIScope) -> Seq<char> {
    let base = s.scheme@ + "://"@ + host_text(s.scheme@, s.server) + s.path@;
    if s.query_string@.len() == 0 { base } else { base + seq!['?'] + utf8_lossy(s.query_string@) }
}

/// The headers that raw name/value pairs give: names lower-cased, each
/// value added to those of its name, in order.
pub open spec fn headers_of_pairs(ps: Seq<(Vec<u8>, Vec<u8>)>) -> Map<Seq<char>, Seq<Seq<char>>>
    decreases ps.len(),
{
    if ps.len() == 0 {
        Map::empty()
    } else {
        map_add(headers_of_pairs(ps.drop_last()), header_key(utf8_lossy(ps.last().0@)), utf8_lossy(ps.last().1@))
    }
}

/// Headers from raw name/value pairs.
pub fn headers_from_asgi(headers: &Vec<(Vec<u8>, Vec<u8>)>) -> (r: Headers)
    ensures
        r.wf(),
        r@ == headers_of_pairs(headers@),
{
    let mut h = Headers::new();
    let mut i: usize = 0;
    while i < headers.len()
        invariant
            i <= headers@.len(),
            h.wf(),
            h@ == headers_of_pairs(headers@.take(i as int)),
        decreases headers@.len() - i,
    {
        assert(headers@.take(i as int + 1).drop_last() =~= headers@.take(i as int));
        let name = lossy_text(&headers[i].0);
        let value = lossy_text(&headers[i].1);
        h.add(name.as_str(), value.as_str());
        i = i + 1;
    }
    assert(headers@.take(headers@.len() as int) =~= headers@);
    h
}

/// Whether the pairs hold the encoding of the name `k` with the value `v`.
pub open spec fn has_pair(r: Seq<(Vec<u8>, Vec<u8>)>, k: Seq<char>, v: Seq<char>) -> bool {
    exists|i: int| 0 <= i < r.len() && r[i].0@ == encode_utf8(k) && r[i].1@ == encode_utf8(v)
}

/// Whether a raw pair is the encoding of a header name with one of its values.
pub open spec fn pair_of_headers(h: Map<Seq<char>, Seq<Seq<char>>>, p: (Vec<u8>, Vec<u8>)) -> bool {
    exists|k: Seq<char>, j: int| h.contains_key(k) && 0 <= j < h[k].len()
        && p.0@ == encode_utf8(k) && #[trigger] p.1@ == encode_utf8(h[k][j])
}

/// Whether every value of every header has its pair.
pub open spec fn values_covered(h: Map<Seq<char>, Seq<Seq<char>>>, r: Seq<(Vec<u8>, Vec<u8>)>) -> bool {
    forall|k: Seq<char>, j: int| #[trigger] h.contains_key(k) && 0 <= j < h[k].len() ==> has_pair(r, k, #[trigger] h[k][j])
}

proof fn lemma_has_pair_push(r: Seq<(Vec<u8>, Vec<u8>)>, x: (Vec<u8>, Vec<u8>), k: Seq<char>, v: Seq<char>)
    requires
        has_pair(r, k, v),
    ensures
        has_pair(r.push(x), k, v),
{
    let i = choose|i: int| 0 <= i < r.len() && r[i].0@ == encode_utf8(k) && r[i].1@ == encode_utf8(v);
    assert(r.push(x)[i] == r[i]);
}

/// Header pairs as raw bytes: each name with each of its values.
pub fn headers_to_asgi(headers: &Headers) -> (r: Vec<(Vec<u8>, Vec<u8>)>)
    requires
        headers.wf(),
    ensures
        forall|i: int| 0 <= i < r@.len() ==> pair_of_headers(headers@, #[trigger] r@[i]),
        values_covered(headers@, r@),
{
    let keys = headers.keys();
    let mut out: Vec<(Vec<u8>, Vec<u8>)> = Vec::new();
    let mut i: usize = 0;
    while i < keys.len()
        invariant
            headers.wf(),
            i <= keys@.len(),
            forall|j: int| 0 <= j < keys@.len() ==> headers@.contains_key(#[trigger] keys@[j]@),
            forall|k: Seq<char>| headers@.contains_key(k) ==> exists|j: int| 0 <= j < keys@.len() && keys@[j]@ == k,
            forall|j: int| 0 <= j < out@.len() ==> pair_of_headers(headers@, #[trigger] out@[j]),
            forall|j: int, m: int| 0 <= j < i && 0 <= m < headers@[keys@[j]@].len() ==>
                has_pair(out@, keys@[j]@, #[trigger] headers@[keys@[j]@][m]),
        decreases keys@.len() - i,
    {
        let k = keys[i].as_str();
        let ghost kk = k@;
        proof {
            assert(headers@.contains_key(kk));
        }
        let vals = headers.map.get_list(k);
        assert(crate::text::texts_view(vals@) == headers@[kk]);
        let nb = k.as_bytes_vec();
        let ghost out0 = out@;
        let mut m: usize = 0;
        while m < vals.len()
            invariant
                headers.wf(),
                i < keys@.len(),
                kk == keys@[i as int]@,
                headers@.contains_key(kk),
                crate::text::texts_view(vals@) == headers@[kk],
                nb@ == encode_utf8(kk),
                m <= vals@.len(),
                out0.len() <= out@.len(),
                forall|q: int| 0 <= q < out0.len() ==> out@[q] == out0[q],
                forall|j: int| 0 <= j < out@.len() ==> pair_of_headers(headers@, #[trigger] out@[j]),
                forall|q: int| 0 <= q < m ==> has_pair(out@, kk, #[trigger] headers@[kk][q]),
            decreases vals@.len() - m,
        {
            let vb = vals[m].as_str().as_bytes_vec();
            assert(crate::text::texts_view(vals@)[m as int] == vals@[m as int]@);
            assert(vb@ == encode_utf8(headers@[kk][m as int]));
            let pair = (nb.clone(), vb);
            assert(pair_of_headers(headers@, pair));
            let ghost before = out@;
            out.push(pair);
            proof {
                assert forall|q: int| 0 <= q < m implies has_pair(out@, kk, #[trigger] headers@[kk][q]) by {
                    lemma_has_pair_push(before, pair, kk, headers@[kk][q]);
                }
                assert(out@[out@.len() - 1] == pair);
                assert(has_pair(out@, kk, headers@[kk][m as int]));
            }
            m = m + 1;
        }
        proof {
            assert forall|j: int, q: int| 0 <= j < i + 1 && 0 <= q < headers@[keys@[j]@].len() implies
                has_pair(out@, keys@[j]@, #[trigger] headers@[keys@[j]@][q]) by {
                if j < i {
                    assert(has_pair(out0, keys@[j]@, headers@[keys@[j]@][q]));
                    let w = choose|w: int| 0 <= w < out0.len() && out0[w].0@ == encode_utf8(keys@[j]@)
                        && out0[w].1@ == encode_utf8(headers@[keys@[j]@][q]);
                    assert(out@[w] == out0[w]);
                }
            }
        }
        i = i + 1;
    }
    proof {
        assert forall|k: Seq<char>, j: int| #[trigger] headers@.contains_key(k) && 0 <= j < headers@[k].len() implies
            has_pair(out@, k, #[trigger] headers@[k][j]) by {
            let w = choose|w: int| 0 <= w < keys@.len() && keys@[w]@ == k;
            assert(has_pair(out@, keys@[w]@, headers@[keys@[w]@][j]));
        }
    }
    out
}

impl ASGIScope {
    /// The host part of the URL.
    pub fn build_host(&self) -> (r: String)
        ensures
            r@ == host_text(self.scheme@, self.server),
    {
        match &self.server {
            Some((host, port)) => {
                let default_port: u16 = if same(self.scheme.as_str(), "https") { 443 } else { 80 };
                if *port == default_port {
                    host.clone()
                } else {
                    let mut s = host.clone();
                    push_char(&mut s, ':');
                    let d = decimal(*port as u64);
                    s.append(d.as_str());
                    s
                }
            },
            None => String::from_str("localhost"),
        }
    }

    /// The URL of the request the scope describes.
    pub fn build_url(&self) -> (r: String)
        ensures
            r@ == url_text(*self),
    {
        let mut url = self.scheme.clone();
        url.append("://");
        let host = self.build_host();
        url.append(host.as_str());
        url.append(self.path.as_str());
        if self.query_string.len() > 0 {
            push_char(&mut url, '?');
            let q = lossy_text(&self.query_string);
            url.append(q.as_str());
        }
        url
    }

    /// The request the scope and the assembled body describe; an empty body
    /// is no body.
    pub fn build_request(&self, body: Vec<u8>) -> (r: RustletteResult<RustletteRequest>)
        ensures
            r is Ok <==> parsed_method(self.method@) is Some && url_parsed(url_text(*self)) is Some,
            r is Ok ==> Some(r->Ok_0.method) == parsed_method(self.method@)
                && url_parsed(url_text(*self)) == Some(r->Ok_0.parts@),
            r is Ok ==> r->Ok_0.wf() && r->Ok_0.url@ == url_text(*self)
                && r->Ok_0.headers@ == headers_of_pairs(self.headers@)
                && r->Ok_0.body == (if body@.len() == 0 { None } else { Some(body) }),
            r is Err ==> r->Err_0.error_type@ == kind_tag(ErrorKind::Request),
    {
        let headers = headers_from_asgi(&self.headers);
        let url = self.build_url();
        let b = if body.len() == 0 { None } else { Some(body) };
        RustletteRequest::new(self.method.as_str(), url, Some(headers), b, None)
    }
}

/// The status and header pairs of the response-start message.
pub fn response_start(resp: &RustletteResponse) -> (r: (u16, Vec<(Vec<u8>, Vec<u8>)>))
    requires
        resp.wf(),
    ensures
        r.0 == resp.status_code,
        forall|i: int| 0 <= i < r.1@.len() ==> pair_of_headers(resp.headers@, #[trigger] r.1@[i]),
        values_covered(resp.headers@, r.1@),
{
    (resp.status_code, headers_to_asgi(&resp.headers))
}

/// The bytes of the response-body message: the body, or nothing.
pub fn response_body(resp: &RustletteResponse) -> (r: Vec<u8>)
    ensures
        r@ == match resp.body { Some(b) => b@, None => Seq::empty() },
{
    match &resp.body {
        Some(b) => {
            let mut out: Vec<u8> = Vec::new();
            let mut i: usize = 0;
            while i < b.len()
                invariant
                    i <= b@.len(),
                    out@ == b@.take(i as int),
                decreases b@.len() - i,
            {
                out.push(b[i]);
                i = i + 1;
                assert(out@ =~= b@.take(i as int));
            }
            assert(b@.take(b@.len() as int) =~= b@);
            out
        },
        None => Vec::new(),
    }
}

/// The kinds of message that arrive on a connection.
#[derive(Clone, Debug)]
pub enum ASGIMessage {
    HTTPRequestBody { body: Vec<u8>, more_body: bool },
    HTTPDisconnect,
    LifespanStartup,
    LifespanShutdown,
    Other(String),
}

/// What the session asks the outside to do after a message.
#[derive(Clone, Copy, Debug, PartialEq, Eq, Structural)]
pub enum Outgoing {
    Wait,
    Dispatch,
    AckStartup,
    Close,
    Reject,
}

/// Where a connection session stands.
#[derive(Clone, Copy, Debug, PartialEq, Eq, Structural)]
pub enum SessionState {
    Receiving,
    Lifespan,
    Finished,
}

/// The kinds of incoming message, without their contents.
#[derive(Clone, Copy, Debug, PartialEq, Eq, Structural)]
pub enum MessageKind {
    Body(bool),
    Disconnect,
    Startup,
    Shutdown,
    Other,
}

/// The kind of a message.
pub open spec fn kind_of(m: ASGIMessage) -> MessageKind {
    match m {
        ASGIMessage::HTTPRequestBody { body, more_body } => MessageKind::Body(more_body),
        ASGIMessage::HTTPDisconnect => MessageKind::Disconnect,
        ASGIMessage::LifespanStartup => MessageKind::Startup,
        ASGIMessage::LifespanShutdown => MessageKind::Shutdown,
        ASGIMessage::Other(_) => MessageKind::Other,
    }
}

/// The session's transition. An HTTP session gathers body chunks until the
/// last one, then dispatches; a disconnect ends it with nothing sent. A
/// lifespan session acknowledges each startup and ends on anything else.
pub open spec fn session_next(s: SessionState, m: MessageKind) -> (SessionState, Outgoing) {
    match s {
        SessionState::Receiving => match m {
            MessageKind::Body(more) => if more { (SessionState::Receiving, Outgoing::Wait) } else { (SessionState::Finished, Outgoing::Dispatch) },
            MessageKind::Disconnect => (SessionState::Finished, Outgoing::Close),
            _ => (SessionState::Finished, Outgoing::Reject),
        },
        SessionState::Lifespan => match m {
            MessageKind::Startup => (SessionState::Lifespan, Outgoing::AckStartup),
            _ => (SessionState::Finished, Outgoing::Close),
        },
        SessionState::Finished => (SessionState::Finished, Outgoing::Close),
    }
}

/// The outputs of a session for messages arriving one after another.
pub open spec fn session_trace(s: SessionState, ms: Seq<MessageKind>) -> Seq<Outgoing>
    decreases ms.len(),
{
    if ms.len() == 0 {
        Seq::empty()
    } else {
        let t = session_next(s, ms[0]);
        seq![t.1] + session_trace(t.0, ms.skip(1))
    }
}

proof fn lemma_finished_quiet(ms: Seq<MessageKind>)
    ensures
        forall|i: int| 0 <= i < session_trace(SessionState::Finished, ms).len() ==>
            #[trigger] session_trace(SessionState::Finished, ms)[i] == Outgoing::Close,
    decreases ms.len(),
{
    if ms.len() > 0 {
        lemma_finished_quiet(ms.skip(1));
        assert(session_trace(SessionState::Finished, ms)
            =~= seq![Outgoing::Close] + session_trace(SessionState::Finished, ms.skip(1)));
    }
}

/// An HTTP session whose first message is a disconnect sends no response,
/// and a lifespan session whose first message is not a startup sends no
/// acknowledgment, whatever follows.
pub proof fn lemma_early_end_is_silent(first: MessageKind, rest: Seq<MessageKind>)
    ensures
        first == MessageKind::Disconnect ==>
            !session_trace(SessionState::Receiving, seq![first] + rest).contains(Outgoing::Dispatch),
        first != MessageKind::Startup ==>
            !session_trace(SessionState::Lifespan, seq![first] + rest).contains(Outgoing::AckStartup),
{
    let ms = seq![first] + rest;
    assert(ms.skip(1) =~= rest);
    assert(ms[0] == first);
    lemma_finished_quiet(rest);
    if first == MessageKind::Disconnect {
        let tr = session_trace(SessionState::Receiving, ms);
        assert(tr =~= seq![Outgoing::Close] + session_trace(SessionState::Finished, rest));
        if tr.contains(Outgoing::Dispatch) {
            let k = choose|k: int| 0 <= k < tr.len() && tr[k] == Outgoing::Dispatch;
            if k > 0 {
                assert(session_trace(SessionState::Finished, rest)[k - 1] == Outgoing::Close);
            }
        }
    }
    if first != MessageKind::Startup {
        let tr = session_trace(SessionState::Lifespan, ms);
        assert(tr =~= seq![Outgoing::Close] + session_trace(SessionState::Finished, rest));
        if tr.contains(Outgoing::AckStartup) {
            let k = choose|k: int| 0 <= k < tr.len() && tr[k] == Outgoing::AckStartup;
            if k > 0 {
                assert(session_trace(SessionState::Finished, rest)[k - 1] == Outgoing::Close);
            }
        }
    }
}

/// One connection's session, with the body gathered so far.
#[derive(Clone, Debug)]
pub struct GatewaySession {
    pub state: SessionState,
    pub body: Vec<u8>,
}

impl GatewaySession {
    /// A session for a scope kind; a websocket scope is refused.
    pub fn open(kind: ScopeKind) -> (r: RustletteResult<Self>)
        ensures
            match kind {
                ScopeKind::Http => r is Ok && r->Ok_0.state == SessionState::Receiving && r->Ok_0.body@.len() == 0,
                ScopeKind::Lifespan => r is Ok && r->Ok_0.state == SessionState::Lifespan && r->Ok_0.body@.len() == 0,
                ScopeKind::WebSocket => r is Err && r->Err_0.error_type@ == kind_tag(ErrorKind::Request),
            },
    {
        match kind {
            ScopeKind::Http => Ok(GatewaySession { state: SessionState::Receiving, body: Vec::new() }),
            ScopeKind::Lifespan => Ok(GatewaySession { state: SessionState::Lifespan, body: Vec::new() }),
            ScopeKind::WebSocket => Err(RustletteError::request_error("WebSocket scopes are not supported")),
        }
    }

    /// Takes in one message and says what to do.
    pub fn receive(&mut self, m: ASGIMessage) -> (r: Outgoing)
        ensures
            (final(self).state, r) == session_next(old(self).state, kind_of(m)),
            final(self).body@ == match m {
                ASGIMessage::HTTPRequestBody { body, more_body } => if old(self).state == SessionState::Receiving {
                    old(self).body@ + body@
                } else {
                    old(self).body@
                },
                _ => old(self).body@,
            },
    {
        match self.state {
            SessionState::Receiving => match m {
                ASGIMessage::HTTPRequestBody { body, more_body } => {
                    let mut i: usize = 0;
                    let ghost start = self.body@;
                    while i < body.len()
                        invariant
                            i <= body@.len(),
                            self.body@ == start + body@.take(i as int),
                            self.state == SessionState::Receiving,
                        decreases body@.len() - i,
                    {
                        self.body.push(body[i]);
                        i = i + 1;
                        assert(self.body@ =~= start + body@.take(i as int));
                    }
                    assert(body@.take(body@.len() as int) =~= body@);
                    if more_body {
                        Outgoing::Wait
                    } else {
                        self.state = SessionState::Finished;
                        Outgoing::Dispatch
                    }
                },
                ASGIMessage::HTTPDisconnect => {
                    self.state = SessionState::Finished;
                    Outgoing::Close
                },
                _ => {
                    self.state = SessionState::Finished;
                    Outgoing::Reject
                },
            },
            SessionState::Lifespan => match m {
                ASGIMessage::LifespanStartup => Outgoing::AckStartup,
                _ => {
                    self.state = SessionState::Finished;
                    Outgoing::Close
                },
            },
            SessionState::Finished => Outgoing::Close,
        }
    }
}

/// The kind of an incoming message named by its type; `None` for a type
/// this adapter does not know.
pub open spec fn message_kind_named(t: Seq<char>, more: bool) -> Option<MessageKind> {
    if t == "http.request"@ { Some(MessageKind::Body(more)) }
    else if t == "http.disconnect"@ { Some(MessageKind::Disconnect) }
    else if t == "lifespan.startup"@ { Some(MessageKind::Startup) }
    else if t == "lifespan.shutdown"@ { Some(MessageKind::Shutdown) }
    else { None }
}

/// Builds a message from its type name and fields; an unknown type becomes
/// `Other`.
pub fn parse_message(msg_type: &str, body: Vec<u8>, more_body: bool) -> (r: ASGIMessage)
    ensures
        match message_kind_named(msg_type@, more_body) {
            Some(k) => kind_of(r) == k,
            None => kind_of(r) == MessageKind::Other,
        },
        r is HTTPRequestBody ==> r->HTTPRequestBody_body == body,
{
    if same(msg_type, "http.request") {
        ASGIMessage::HTTPRequestBody { body, more_body }
    } else if same(msg_type, "http.disconnect") {
        ASGIMessage::HTTPDisconnect
    } else if same(msg_type, "lifespan.startup") {
        ASGIMessage::LifespanStartup
    } else if same(msg_type, "lifespan.shutdown") {
        ASGIMessage::LifespanShutdown
    } else {
        ASGIMessage::Other(String::from_str(msg_type))
    }
}

} // verus!
