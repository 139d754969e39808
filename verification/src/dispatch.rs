//! The per-request decisions of the connection core. A request is either a
//! CONNECT, answered at once and then tunnelled, or a direct request,
//! forwarded to its origin server; both pass through the interception
//! handler, which yields the exchange for the observer.

use vstd::prelude::*;
use vstd::string::{StringExecFns, StringSliceAdditionalSpecFns, StrSliceExecFns};
use crate::connection::{has_colon, with_port};
use crate::exchange::{ExchangeView, ProxyAPIResponse};
use crate::framing::{find_header, header_value};
use crate::message::{HttpRequest, HttpRequestView, HttpResponse, HttpResponseView, HttpVersion};
use crate::proxy_handler::{after_request, idle, published, HttpContext, ProxyHandler, RequestResponse};
use crate::text::{decimal, decimal_text, to_chars};
use crate::trusted::{
    host_addr, now_nanos, status_text, target_host, target_port, target_scheme, uri_authority,
    uri_host, uri_port, uri_scheme,
};

verus! {

/// What is to be done with a request.
pub enum ProxyAction {
    /// Write `reply` to the client, hand `exchange` to the observer, then
    /// carry bytes between the client and `addr` in both directions.
    Tunnel { addr: String, reply: Vec<u8>, exchange: ProxyAPIResponse },
    /// Answer the client with `response` and hand `exchange` to the
    /// observer. Nothing is forwarded.
    Respond { response: HttpResponse, exchange: ProxyAPIResponse },
    /// Connect to `addr`, over TLS where `secure` says so, and send
    /// `request` there. What comes back is handed to `complete`.
    Forward { addr: String, secure: bool, request: HttpRequest },
    /// Close the connection. Nothing is forwarded and nothing is published.
    Close,
}

/// The content of a `ProxyAction`.
pub enum ProxyActionView {
    Tunnel { addr: Seq<char>, reply: Seq<u8>, exchange: ExchangeView },
    Respond { response: HttpResponseView, exchange: ExchangeView },
    Forward { addr: Seq<char>, secure: bool, request: HttpRequestView },
    Close,
}

impl View for ProxyAction {
    type V = ProxyActionView;

    open spec fn view(&self) -> ProxyActionView {
        match self {
            ProxyAction::Tunnel { addr, reply, exchange } => ProxyActionView::Tunnel {
                addr: addr@,
                reply: reply@,
                exchange: exchange@,
            },
            ProxyAction::Respond { response, exchange } => ProxyActionView::Respond {
                response: response@,
                exchange: exchange@,
            },
            ProxyAction::Forward { addr, secure, request } => ProxyActionView::Forward {
                addr: addr@,
                secure: *secure,
                request: request@,
            },
            ProxyAction::Close => ProxyActionView::Close,
        }
    }
}

/// What a request target holds, as far as the decisions read it.
pub struct Target {
    pub scheme: Option<String>,
    /// Host and port as the target writes them.
    pub authority: Option<String>,
    pub host: Option<String>,
    pub port: Option<u16>,
}

/// The content of a `Target`.
pub struct TargetView {
    pub scheme: Option<Seq<char>>,
    pub authority: Option<Seq<char>>,
    pub host: Option<Seq<char>>,
    pub port: Option<u16>,
}

/// The content of an optional text.
pub open spec fn text_view(text: Option<String>) -> Option<Seq<char>> {
    match text {
        Some(t) => Some(t@),
        None => None,
    }
}

impl View for Target {
    type V = TargetView;

    open spec fn view(&self) -> TargetView {
        TargetView {
            scheme: text_view(self.scheme),
            authority: text_view(self.authority),
            host: text_view(self.host),
            port: self.port,
        }
    }
}

/// What the target `uri` holds.
pub open spec fn uri_target(uri: Seq<char>) -> TargetView {
    TargetView {
        scheme: uri_scheme(uri),
        authority: uri_authority(uri),
        host: uri_host(uri),
        port: uri_port(uri),
    }
}

/// Reads what a request target holds.
pub fn read_target(uri: &str) -> (target: Target)
    ensures
        target@ == uri_target(uri@),
{
    Target {
        scheme: target_scheme(uri),
        authority: host_addr(uri),
        host: target_host(uri),
        port: target_port(uri),
    }
}

/// The bytes that answer a CONNECT before anything else is sent.
pub open spec fn established() -> Seq<u8> {
    "HTTP/1.1 200 Connection Established\r\n\r\n".spec_bytes()
}

/// The answer to a CONNECT, byte by byte: the status line `HTTP/1.1 200
/// Connection Established`, a line break, and the empty line that ends the
/// head. It holds 39 bytes.
pub proof fn established_bytes()
    ensures
        established() == seq![
            72u8, 84, 84, 80, 47, 49, 46, 49, 32, 50, 48, 48, 32, 67, 111, 110, 110, 101, 99, 116,
            105, 111, 110, 32, 69, 115, 116, 97, 98, 108, 105, 115, 104, 101, 100, 13, 10, 13, 10,
        ],
{
    let line = "HTTP/1.1 200 Connection Established\r\n\r\n";
    reveal_strlit("HTTP/1.1 200 Connection Established\r\n\r\n");
    assert(vstd::string::is_ascii(line)) by {
        assert forall|i: int| 0 <= i < line@.len() implies (line@[i] as nat) < 128 by {}
    }
    vstd::string::is_ascii_spec_bytes(line);
    assert(established() =~= seq![
        72u8, 84, 84, 80, 47, 49, 46, 49, 32, 50, 48, 48, 32, 67, 111, 110, 110, 101, 99, 116,
        105, 111, 110, 32, 69, 115, 116, 97, 98, 108, 105, 115, 104, 101, 100, 13, 10, 13, 10,
    ]);
}

/// The response recorded for a CONNECT that is accepted: status 200 and
/// an empty body.
pub open spec fn connect_accepted() -> HttpResponseView {
    HttpResponseView {
        code: 200,
        status: "200 OK"@,
        version: HttpVersion::Http11,
        headers: Seq::empty(),
        body: Seq::empty(),
    }
}

/// The response to a CONNECT whose target names no authority.
pub open spec fn connect_refused() -> HttpResponseView {
    HttpResponseView {
        code: 400,
        status: "400 Bad Request"@,
        version: HttpVersion::Http11,
        headers: Seq::empty(),
        body: "CONNECT must be to a socket addr".spec_bytes(),
    }
}

/// The response that stands for an origin server that could not be
/// reached: status 502 and the reason as its body.
pub open spec fn bad_gateway(reason: Seq<char>) -> HttpResponseView {
    HttpResponseView {
        code: 502,
        status: "502 Bad Gateway"@,
        version: HttpVersion::Http11,
        headers: Seq::empty(),
        body: vstd::utf8::encode_utf8(reason),
    }
}

/// Where a tunnel leads: the authority of the target, with port 443 where
/// it names none.
pub open spec fn tunnel_addr(authority: Seq<char>, port: Option<u16>) -> Seq<char> {
    match port {
        Some(_) => authority,
        None => authority + ":443"@,
    }
}

/// Where a direct request is sent: the host of the target and its port,
/// with port 80 where it names none.
pub open spec fn upstream_addr(host: Seq<char>, port: Option<u16>) -> Seq<char> {
    match port {
        Some(p) => host + ":"@ + decimal_text(p as nat),
        None => host + ":"@ + decimal_text(80),
    }
}

/// Whether a direct request goes upstream over TLS: it does where the
/// scheme of its target is `https`.
pub open spec fn is_secure(scheme: Option<Seq<char>>) -> bool {
    scheme == Some("https"@)
}

/// Where a direct request goes: the address, and whether TLS is spoken
/// there. A target that names a host decides both. Under a target that
/// names none, the first `Host` header names the address, which is
/// reached without TLS. A request with neither goes nowhere.
pub open spec fn upstream_of(req: HttpRequestView, target: TargetView) -> Option<(Seq<char>, bool)> {
    match target.host {
        Some(host) => Some((upstream_addr(host, target.port), is_secure(target.scheme))),
        None => match header_value(req.headers, "host"@) {
            Some(value) => Some((with_port(value, "80"@), false)),
            None => None,
        },
    }
}

/// What is done with `req`, given what its target holds. The handler sees
/// the request at `seen` and, for a CONNECT, the synthetic answer at
/// `answered`.
pub open spec fn plan(req: HttpRequestView, target: TargetView, seen: i64, answered: i64) ->
    ProxyActionView {
    if req.method == "CONNECT"@ {
        match target.authority {
            Some(a) => ProxyActionView::Tunnel {
                addr: tunnel_addr(a, target.port),
                reply: established(),
                exchange: published(after_request(req, seen), connect_accepted(), answered),
            },
            None => ProxyActionView::Respond {
                response: connect_refused(),
                exchange: published(after_request(req, seen), connect_refused(), answered),
            },
        }
    } else {
        match upstream_of(req, target) {
            Some((addr, secure)) => ProxyActionView::Forward { addr, secure, request: req },
            None => ProxyActionView::Close,
        }
    }
}

/// The handler's state once `plan` is carried out: a forwarded request is
/// pending; a CONNECT is settled; a request that is dropped leaves the
/// handler as it was.
pub open spec fn pending_after(
    before: ExchangeView,
    req: HttpRequestView,
    target: TargetView,
    seen: i64,
) -> ExchangeView {
    if req.method == "CONNECT"@ {
        idle()
    } else if upstream_of(req, target) is Some {
        after_request(req, seen)
    } else {
        before
    }
}

/// Finds where a direct request goes.
fn upstream(req: &HttpRequest, target: Target) -> (to: Option<(String, bool)>)
    ensures
        to is Some <==> upstream_of(req@, target@) is Some,
        to matches Some((addr, secure)) ==> Some((addr@, secure)) == upstream_of(req@, target@),
{
    match target.host {
        Some(h) => {
            let mut addr = h;
            addr.append(":");
            let number = match target.port {
                Some(p) => decimal(p),
                None => decimal(80),
            };
            addr.append(number.as_str());
            let secure = match target.scheme {
                Some(scheme) => scheme == "https".to_owned(),
                None => false,
            };
            Some((addr, secure))
        },
        None => match find_header(&req.headers, "host") {
            Some(i) => {
                let mut addr = req.headers[i].1.clone();
                let chars = to_chars(addr.as_str());
                assert(chars@.subrange(0, chars@.len() as int) =~= chars@);
                if !has_colon(&chars, 0, chars.len()) {
                    addr.append(":");
                    addr.append("80");
                }
                Some((addr, false))
            },
            None => None,
        },
    }
}

/// A response without header lines, under one of the three status codes
/// that the library answers with itself.
fn plain_reply(code: u16, body: Vec<u8>) -> (response: HttpResponse)
    requires
        code == 200 || code == 400 || code == 502,
    ensures
        response@ == (HttpResponseView {
            code,
            status: if code == 200 {
                "200 OK"@
            } else if code == 400 {
                "400 Bad Request"@
            } else {
                "502 Bad Gateway"@
            },
            version: HttpVersion::Http11,
            headers: Seq::empty(),
            body: body@,
        }),
{
    let response = HttpResponse {
        code,
        status: status_text(code),
        version: HttpVersion::Http11,
        headers: Vec::new(),
        body,
    };
    assert(response@.headers =~= Seq::empty());
    response
}

/// Decides what is done with `req` from what its target holds, and lets
/// the handler see it.
pub fn dispatch(
    handler: &mut ProxyHandler,
    ctx: &HttpContext,
    req: HttpRequest,
    target: Target,
    seen: i64,
    answered: i64,
) -> (action: ProxyAction)
    ensures
        action@ == plan(req@, target@, seen, answered),
        final(handler)@ == pending_after(old(handler)@, req@, target@, seen),
{
    let connect = "CONNECT".to_owned();
    if req.method == connect {
        let _ = handler.on_request(ctx, req, seen);
        match target.authority {
            Some(a) => {
                let mut addr = a;
                if target.port.is_none() {
                    addr.append(":443");
                }
                let reply = "HTTP/1.1 200 Connection Established\r\n\r\n".as_bytes_vec();
                let (_, exchange) = handler.on_response(ctx, plain_reply(200, Vec::new()), answered);
                ProxyAction::Tunnel { addr, reply, exchange }
            },
            None => {
                let body = "CONNECT must be to a socket addr".as_bytes_vec();
                let (response, exchange) = handler.on_response(ctx, plain_reply(400, body), answered);
                ProxyAction::Respond { response, exchange }
            },
        }
    } else {
        match upstream(&req, target) {
            Some((addr, secure)) => match handler.on_request(ctx, req, seen) {
                RequestResponse::Request(request) => ProxyAction::Forward { addr, secure, request },
                RequestResponse::Response(answer) => {
                    let (response, exchange) = handler.on_response(ctx, answer, answered);
                    ProxyAction::Respond { response, exchange }
                },
            },
            None => ProxyAction::Close,
        }
    }
}

/// Reads the target of `req`, reads the clock, and decides with
/// `dispatch`.
pub fn proxy(handler: &mut ProxyHandler, ctx: &HttpContext, req: HttpRequest) -> (action:
    ProxyAction)
    ensures
        exists|seen: i64, answered: i64|
            action@ == plan(req@, uri_target(req.uri@), seen, answered) && final(handler)@
                == pending_after(old(handler)@, req@, uri_target(req.uri@), seen),
{
    let target = read_target(req.uri.as_str());
    let seen = now_nanos();
    let answered = now_nanos();
    dispatch(handler, ctx, req, target, seen, answered)
}

/// A request as it is served inside an intercepted tunnel to `addr`. A
/// target that is a bare path is made whole: it is reached at `addr`,
/// over TLS. Any other target stays as it is.
pub open spec fn tunnelled(req: HttpRequestView, addr: Seq<char>) -> HttpRequestView {
    if req.uri.len() > 0 && req.uri[0] == '/' {
        HttpRequestView { uri: "https://"@ + addr + req.uri, ..req }
    } else {
        req
    }
}

/// Makes the target of a request that came through an intercepted tunnel
/// to `addr` whole, so that it is dispatched like any direct request.
pub fn within_tunnel(req: HttpRequest, addr: &str) -> (whole: HttpRequest)
    ensures
        whole@ == tunnelled(req@, addr@),
{
    let HttpRequest { method, uri, version, headers, body } = req;
    if uri.as_str().unicode_len() > 0 && uri.as_str().get_char(0) == '/' {
        let mut target = "https://".to_owned();
        target.append(addr);
        target.append(uri.as_str());
        HttpRequest { method, uri: target, version, headers, body }
    } else {
        HttpRequest { method, uri, version, headers, body }
    }
}

/// What came of forwarding a request.
pub enum Upstream {
    /// The origin server's response, with its body as far as it came.
    Response(HttpResponse),
    /// No response: the origin server could not be reached, for the reason
    /// given.
    Failed(String),
}

/// The response that the client receives for an outcome: the origin
/// server's own, or a 502 that carries the reason of the failure.
pub open spec fn relayed(outcome: Upstream) -> HttpResponseView {
    match outcome {
        Upstream::Response(res) => res@,
        Upstream::Failed(reason) => bad_gateway(reason@),
    }
}

/// Settles a forwarded request at `time`: gives the response to relay to
/// the client and the exchange for the observer.
pub fn complete_at(
    handler: &mut ProxyHandler,
    ctx: &HttpContext,
    outcome: Upstream,
    time: i64,
) -> (out: (HttpResponse, ProxyAPIResponse))
    ensures
        out.0@ == relayed(outcome),
        out.1@ == published(old(handler)@, relayed(outcome), time),
        final(handler)@ == idle(),
{
    let response = match outcome {
        Upstream::Response(res) => res,
        Upstream::Failed(reason) => plain_reply(502, reason.as_str().as_bytes_vec()),
    };
    handler.on_response(ctx, response, time)
}

/// `complete_at` at the time the clock shows.
pub fn complete(handler: &mut ProxyHandler, ctx: &HttpContext, outcome: Upstream) -> (out: (
    HttpResponse,
    ProxyAPIResponse,
))
    ensures
        out.0@ == relayed(outcome),
        exists|time: i64| out.1@ == published(old(handler)@, relayed(outcome), time),
        final(handler)@ == idle(),
{
    let time = now_nanos();
    complete_at(handler, ctx, outcome, time)
}

/// The exchange mirrors the traffic. For a direct request that names
/// where it goes, what is sent upstream is the request as it came, and the
/// exchange published once the outcome is known holds that request, field
/// by field, beside the response that the client is given: the origin
/// server's own, or the 502 that stands for a failure.
pub proof fn exchange_mirrors_traffic(
    before: ExchangeView,
    req: HttpRequestView,
    target: TargetView,
    outcome: Upstream,
    seen: i64,
    answered: i64,
    settled: i64,
)
    requires
        req.method != "CONNECT"@,
        upstream_of(req, target) is Some,
    ensures
        plan(req, target, seen, answered) matches ProxyActionView::Forward { addr, secure, request }
            && Some((addr, secure)) == upstream_of(req, target) && request == req,
        ({
            let pending = pending_after(before, req, target, seen);
            let exchange = published(pending, relayed(outcome), settled);
            &&& exchange.req matches Some(sent)
            &&& sent.method == req.method
            &&& sent.uri == req.uri
            &&& sent.headers == req.headers
            &&& sent.body == req.body
            &&& exchange.res matches Some(received)
            &&& received.status == relayed(outcome).status
            &&& received.headers == relayed(outcome).headers
            &&& received.body == relayed(outcome).body
            &&& outcome matches Upstream::Response(res) ==> relayed(outcome) == res@
            &&& outcome matches Upstream::Failed(reason) ==> received.status == "502 Bad Gateway"@
        }),
{
}

} // verus!
