use proxyapi::dispatch::{
    complete, complete_at, dispatch, proxy, read_target, within_tunnel, ProxyAction, Target,
    Upstream,
};
use proxyapi::message::{HttpRequest, HttpResponse, HttpVersion};
use proxyapi::proxy_handler::{HttpContext, ProxyHandler};

const ESTABLISHED: &[u8] = b"HTTP/1.1 200 Connection Established\r\n\r\n";

fn dispatch_ctx() -> HttpContext {
    HttpContext { client_addr: "127.0.0.1:50000".to_string() }
}

fn dispatch_header(name: &str, value: &str) -> (String, String) {
    (name.to_string(), value.to_string())
}

fn dispatch_request(method: &str, uri: &str) -> HttpRequest {
    HttpRequest {
        method: method.to_string(),
        uri: uri.to_string(),
        version: HttpVersion::Http11,
        headers: vec![dispatch_header("Host", "example.com"), dispatch_header("X-Trace", "1"), dispatch_header("x-trace", "2")],
        body: b"body-bytes".to_vec(),
    }
}

fn dispatch_response(status: &str, body: &[u8]) -> HttpResponse {
    HttpResponse {
        code: status[..3].parse().unwrap(),
        status: status.to_string(),
        version: HttpVersion::Http11,
        headers: vec![dispatch_header("Content-Type", "text/plain")],
        body: body.to_vec(),
    }
}

#[test]
fn connect_to_example_com_443_is_tunnelled() {
    let mut handler = ProxyHandler::new();
    let action = proxy(&mut handler, &dispatch_ctx(), dispatch_request("CONNECT", "example.com:443"));
    match action {
        ProxyAction::Tunnel { addr, reply, exchange } => {
            assert_eq!(addr, "example.com:443");
            assert_eq!(reply, ESTABLISHED.to_vec());
            let (req, res) = exchange.to_parts();
            let req = req.unwrap();
            assert_eq!(req.method(), "CONNECT");
            assert_eq!(req.uri(), "example.com:443");
            assert_eq!(req.version(), "HTTP_11");
            let res = res.unwrap();
            assert_eq!(res.status(), "200 OK");
            assert_eq!(res.version(), "HTTP_11");
            assert!(res.headers().is_empty());
            assert!(res.body().is_empty());
        }
        _ => panic!("a CONNECT with an authority must be tunnelled"),
    }
    assert!(handler.req().is_none());
    assert!(handler.res().is_none());
}

#[test]
fn connect_without_port_is_tunnelled_to_443() {
    let mut handler = ProxyHandler::new();
    match proxy(&mut handler, &dispatch_ctx(), dispatch_request("CONNECT", "example.com")) {
        ProxyAction::Tunnel { addr, .. } => assert_eq!(addr, "example.com:443"),
        _ => panic!("a CONNECT with an authority must be tunnelled"),
    }
}

#[test]
fn connect_reads_the_authority_out_of_a_full_uri() {
    let mut handler = ProxyHandler::new();
    match proxy(&mut handler, &dispatch_ctx(), dispatch_request("CONNECT", "https://example.com:8443/path?q=1")) {
        ProxyAction::Tunnel { addr, .. } => assert_eq!(addr, "example.com:8443"),
        _ => panic!("a CONNECT with an authority must be tunnelled"),
    }
}

#[test]
fn connect_without_authority_is_refused() {
    let mut handler = ProxyHandler::new();
    match proxy(&mut handler, &dispatch_ctx(), dispatch_request("CONNECT", "/only/a/path")) {
        ProxyAction::Respond { response, exchange } => {
            assert_eq!(response.code, 400);
            assert_eq!(response.status, "400 Bad Request");
            assert_eq!(response.version, HttpVersion::Http11);
            assert!(response.headers.is_empty());
            assert_eq!(response.body, b"CONNECT must be to a socket addr".to_vec());
            let (req, res) = exchange.to_parts();
            assert_eq!(req.unwrap().uri(), "/only/a/path");
            let res = res.unwrap();
            assert_eq!(res.status(), "400 Bad Request");
            assert_eq!(res.body(), &b"CONNECT must be to a socket addr".to_vec());
        }
        _ => panic!("a CONNECT without an authority must be refused"),
    }
    assert!(handler.req().is_none());
}

#[test]
fn direct_request_is_forwarded_as_it_came() {
    let mut handler = ProxyHandler::new();
    let sent = dispatch_request("POST", "http://example.com:8080/submit?x=1");
    match proxy(&mut handler, &dispatch_ctx(), sent.clone()) {
        ProxyAction::Forward { addr, secure, request } => {
            assert_eq!(addr, "example.com:8080");
            assert!(!secure);
            assert_eq!(request.method, sent.method);
            assert_eq!(request.uri, sent.uri);
            assert_eq!(request.version, sent.version);
            assert_eq!(request.headers, sent.headers);
            assert_eq!(request.body, sent.body);
        }
        _ => panic!("a direct request with a host must be forwarded"),
    }
    let pending = handler.req().as_ref().unwrap();
    assert_eq!(pending.method(), "POST");
    assert_eq!(pending.uri(), "http://example.com:8080/submit?x=1");
    assert_eq!(pending.headers(), &sent.headers);
    assert_eq!(pending.body(), &sent.body);
    assert!(handler.res().is_none());
}

#[test]
fn direct_request_without_port_goes_to_80() {
    let mut handler = ProxyHandler::new();
    match proxy(&mut handler, &dispatch_ctx(), dispatch_request("GET", "http://example.com/")) {
        ProxyAction::Forward { addr, .. } => assert_eq!(addr, "example.com:80"),
        _ => panic!("a direct request with a host must be forwarded"),
    }
}

fn without_headers(method: &str, uri: &str) -> HttpRequest {
    let mut request = dispatch_request(method, uri);
    request.headers.clear();
    request
}

#[test]
fn direct_request_without_host_is_dropped() {
    let mut handler = ProxyHandler::new();
    assert!(matches!(
        proxy(&mut handler, &dispatch_ctx(), without_headers("GET", "/index.html")),
        ProxyAction::Close
    ));
    assert!(handler.req().is_none());
    assert!(matches!(
        proxy(&mut handler, &dispatch_ctx(), without_headers("GET", "")),
        ProxyAction::Close
    ));
    assert!(matches!(
        proxy(&mut handler, &dispatch_ctx(), without_headers("GET", "http://exa mple.com/")),
        ProxyAction::Close
    ));
}

#[test]
fn a_bare_path_goes_where_the_host_header_says() {
    let mut handler = ProxyHandler::new();
    match proxy(&mut handler, &dispatch_ctx(), dispatch_request("GET", "/index.html")) {
        ProxyAction::Forward { addr, secure, request } => {
            assert_eq!(addr, "example.com:80");
            assert!(!secure);
            assert_eq!(request.uri, "/index.html");
        }
        _ => panic!("a request with a host header must be forwarded"),
    }
    assert_eq!(handler.req().as_ref().unwrap().uri(), "/index.html");
    let mut request = without_headers("GET", "/");
    request.headers = vec![
        dispatch_header("Accept", "x"),
        dispatch_header("hOsT", "first.example:8080"),
        dispatch_header("Host", "second.example"),
    ];
    match proxy(&mut handler, &dispatch_ctx(), request) {
        ProxyAction::Forward { addr, secure, .. } => {
            assert_eq!(addr, "first.example:8080");
            assert!(!secure);
        }
        _ => panic!("a request with a host header must be forwarded"),
    }
}

#[test]
fn the_target_counts_before_the_host_header() {
    let mut handler = ProxyHandler::new();
    let mut request = dispatch_request("GET", "http://target.example:81/");
    request.headers = vec![dispatch_header("Host", "header.example")];
    match proxy(&mut handler, &dispatch_ctx(), request) {
        ProxyAction::Forward { addr, .. } => assert_eq!(addr, "target.example:81"),
        _ => panic!("a direct request with a host must be forwarded"),
    }
}

#[test]
fn a_request_in_a_tunnel_is_made_whole() {
    let inner = within_tunnel(dispatch_request("GET", "/secret?x=1"), "example.com:443");
    assert_eq!(inner.uri, "https://example.com:443/secret?x=1");
    assert_eq!(inner.method, "GET");
    assert_eq!(inner.headers.len(), 3);
    assert_eq!(inner.body, b"body-bytes".to_vec());
    let mut handler = ProxyHandler::new();
    match proxy(&mut handler, &dispatch_ctx(), inner) {
        ProxyAction::Forward { addr, secure, request } => {
            assert_eq!(addr, "example.com:443");
            assert!(secure);
            assert_eq!(request.uri, "https://example.com:443/secret?x=1");
        }
        _ => panic!("a request in a tunnel must be forwarded"),
    }
    let absolute = within_tunnel(dispatch_request("GET", "http://other.example/"), "example.com:443");
    assert_eq!(absolute.uri, "http://other.example/");
    let empty = within_tunnel(dispatch_request("GET", ""), "example.com:443");
    assert_eq!(empty.uri, "");
    let star = within_tunnel(dispatch_request("OPTIONS", "*"), "example.com:443");
    assert_eq!(star.uri, "*");
}

#[test]
fn method_is_compared_exactly() {
    let mut handler = ProxyHandler::new();
    assert!(matches!(
        proxy(&mut handler, &dispatch_ctx(), dispatch_request("connect", "example.com:443")),
        ProxyAction::Forward { .. }
    ));
}

#[test]
fn dispatch_stamps_the_times_it_is_given() {
    let mut handler = ProxyHandler::new();
    let action = dispatch(
        &mut handler,
        &dispatch_ctx(),
        dispatch_request("CONNECT", "example.com:443"),
        Target {
            scheme: None,
            authority: Some("example.com:443".to_string()),
            host: Some("example.com".to_string()),
            port: Some(443),
        },
        11,
        22,
    );
    match action {
        ProxyAction::Tunnel { addr, exchange, .. } => {
            assert_eq!(addr, "example.com:443");
            assert_eq!(exchange.req().as_ref().unwrap().time(), 11);
            assert_eq!(exchange.res().as_ref().unwrap().time(), 22);
        }
        _ => panic!("a CONNECT with an authority must be tunnelled"),
    }
}

#[test]
fn dispatch_writes_the_port_in_decimal() {
    for (port, text) in [(0u16, "h:0"), (7, "h:7"), (80, "h:80"), (8080, "h:8080"), (65535, "h:65535")] {
        let mut handler = ProxyHandler::new();
        let action = dispatch(
            &mut handler,
            &dispatch_ctx(),
            dispatch_request("GET", "http://h/"),
            Target {
                scheme: Some("http".to_string()),
                authority: Some("h".to_string()),
                host: Some("h".to_string()),
                port: Some(port),
            },
            0,
            0,
        );
        match action {
            ProxyAction::Forward { addr, .. } => assert_eq!(addr, text),
            _ => panic!("a direct request with a host must be forwarded"),
        }
    }
}

#[test]
fn exchange_holds_what_was_sent_and_what_was_received() {
    let mut handler = ProxyHandler::new();
    let sent = dispatch_request("PUT", "http://example.com/thing");
    let forwarded = match proxy(&mut handler, &dispatch_ctx(), sent.clone()) {
        ProxyAction::Forward { request, .. } => request,
        _ => panic!("a direct request with a host must be forwarded"),
    };
    let received = dispatch_response("201 Created", b"made");
    let (relayed, exchange) =
        complete_at(&mut handler, &dispatch_ctx(), Upstream::Response(received.clone()), 99);
    assert_eq!(relayed.code, 201);
    assert_eq!(relayed.status, received.status);
    assert_eq!(relayed.headers, received.headers);
    assert_eq!(relayed.body, received.body);
    let (req, res) = exchange.to_parts();
    let req = req.unwrap();
    assert_eq!(req.method(), &forwarded.method);
    assert_eq!(req.uri(), &forwarded.uri);
    assert_eq!(req.headers(), &forwarded.headers);
    assert_eq!(req.body(), &forwarded.body);
    let res = res.unwrap();
    assert_eq!(res.status(), "201 Created");
    assert_eq!(res.version(), "HTTP_11");
    assert_eq!(res.headers(), &received.headers);
    assert_eq!(res.body(), &b"made".to_vec());
    assert_eq!(res.time(), 99);
    assert!(handler.req().is_none());
    assert!(handler.res().is_none());
}

#[test]
fn failed_upstream_gives_a_502_and_an_exchange() {
    let mut handler = ProxyHandler::new();
    let _ = proxy(&mut handler, &dispatch_ctx(), dispatch_request("GET", "http://unreachable.example/"));
    let (relayed, exchange) = complete_at(
        &mut handler,
        &dispatch_ctx(),
        Upstream::Failed("connection refused".to_string()),
        5,
    );
    assert_eq!(relayed.code, 502);
    assert_eq!(relayed.status, "502 Bad Gateway");
    assert_eq!(relayed.version, HttpVersion::Http11);
    assert!(relayed.headers.is_empty());
    assert_eq!(relayed.body, b"connection refused".to_vec());
    let (req, res) = exchange.to_parts();
    assert_eq!(req.unwrap().uri(), "http://unreachable.example/");
    let res = res.unwrap();
    assert_eq!(res.status(), "502 Bad Gateway");
    assert_eq!(res.body(), &b"connection refused".to_vec());
    assert_eq!(res.time(), 5);
}

#[test]
fn failure_reason_beyond_ascii_is_encoded_as_utf8() {
    let mut handler = ProxyHandler::new();
    let (relayed, _) =
        complete_at(&mut handler, &dispatch_ctx(), Upstream::Failed("z\u{e9}ro \u{2713}".to_string()), 0);
    assert_eq!(relayed.body, "z\u{e9}ro \u{2713}".as_bytes().to_vec());
}

#[test]
fn complete_stamps_the_time_of_the_clock() {
    let mut handler = ProxyHandler::new();
    let _ = proxy(&mut handler, &dispatch_ctx(), dispatch_request("GET", "http://example.com/"));
    let seen = handler.req().as_ref().unwrap().time();
    assert!(seen > 1_600_000_000_000_000_000);
    let (_, exchange) = complete(&mut handler, &dispatch_ctx(), Upstream::Response(dispatch_response("200 OK", b"")));
    let answered = exchange.res().as_ref().unwrap().time();
    assert!(answered >= seen);
    assert_eq!(exchange.req().as_ref().unwrap().time(), seen);
}

#[test]
fn the_target_is_read_as_a_uri() {
    let target = read_target("https://user@Example.com:8443/path?q=1");
    assert_eq!(target.scheme, Some("https".to_string()));
    assert_eq!(target.authority, Some("user@Example.com:8443".to_string()));
    assert_eq!(target.host, Some("Example.com".to_string()));
    assert_eq!(target.port, Some(8443));
    let target = read_target("example.com:443");
    assert_eq!(target.scheme, None);
    assert_eq!(target.authority, Some("example.com:443".to_string()));
    assert_eq!(target.host, Some("example.com".to_string()));
    assert_eq!(target.port, Some(443));
    let target = read_target("/index.html");
    assert_eq!(target.scheme, None);
    assert_eq!(target.authority, None);
    assert_eq!(target.host, None);
    assert_eq!(target.port, None);
    let target = read_target("not a uri");
    assert_eq!(target.authority, None);
    assert_eq!(target.host, None);
}

#[test]
fn a_request_to_an_https_target_goes_over_tls() {
    let mut handler = ProxyHandler::new();
    match proxy(&mut handler, &dispatch_ctx(), dispatch_request("GET", "https://example.com/secret")) {
        ProxyAction::Forward { addr, secure, .. } => {
            assert_eq!(addr, "example.com:80");
            assert!(secure);
        }
        _ => panic!("a direct request with a host must be forwarded"),
    }
    match proxy(&mut handler, &dispatch_ctx(), dispatch_request("GET", "HTTPS://example.com:8443/secret")) {
        ProxyAction::Forward { addr, secure, .. } => {
            assert_eq!(addr, "example.com:8443");
            assert!(secure);
        }
        _ => panic!("a direct request with a host must be forwarded"),
    }
    match proxy(&mut handler, &dispatch_ctx(), dispatch_request("GET", "ftp://example.com/file")) {
        ProxyAction::Forward { secure, .. } => assert!(!secure),
        _ => panic!("a direct request with a host must be forwarded"),
    }
}

#[test]
fn odd_targets_are_read_without_failure() {
    let alphabet = ['[', ']', '@', ':', '%', 'a', '1', '/', '?', '#', '.', ' '];
    let mut targets = vec![String::new()];
    for _ in 0..4 {
        let mut longer = Vec::new();
        for target in &targets {
            for c in alphabet {
                let mut next = target.clone();
                next.push(c);
                longer.push(next);
            }
        }
        for target in &longer {
            let read = read_target(target);
            if read.host.is_some() {
                assert!(read.authority.is_some());
            }
            if read.port.is_some() {
                assert!(read.authority.is_some());
            }
            let with_scheme = format!("http://{}", target);
            let _ = read_target(&with_scheme);
        }
        targets = longer;
    }
    let long = "a".repeat(70_000);
    assert_eq!(read_target(&long).authority, None);
    assert_eq!(read_target("example.com:99999").port, None);
    assert_eq!(read_target("b\u{fc}cher.example:80").authority, None);
}
