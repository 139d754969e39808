use proxyapi::framing::{
    find_header, frame_request, frame_response, read_chunked, read_number, read_request_body,
    read_response_body, Body, Framed,
};
use proxyapi::message::{HttpRequest, HttpResponse};

fn line(name: &str, value: &str) -> (String, String) {
    (name.to_string(), value.to_string())
}

fn whole(body: Body) -> (Vec<u8>, usize) {
    match body {
        Body::Whole { payload, used } => (payload, used),
        Body::Partial { .. } => panic!("expected a whole body, got a partial one"),
        Body::Malformed => panic!("expected a whole body, got a malformed one"),
    }
}

fn partial(body: Body) -> Vec<u8> {
    match body {
        Body::Partial { payload } => payload,
        Body::Whole { .. } => panic!("expected a partial body, got a whole one"),
        Body::Malformed => panic!("expected a partial body, got a malformed one"),
    }
}

fn whole_request(out: Framed<HttpRequest>) -> (HttpRequest, usize) {
    match out {
        Framed::Whole { message, used } => (message, used),
        _ => panic!("expected a whole request"),
    }
}

fn whole_response(out: Framed<HttpResponse>) -> (HttpResponse, usize) {
    match out {
        Framed::Whole { message, used } => (message, used),
        _ => panic!("expected a whole response"),
    }
}

#[test]
fn headers_are_found_by_name_in_any_case() {
    let headers = vec![line("Host", "a"), line("content-LENGTH", "5"), line("Content-Length", "6")];
    assert_eq!(find_header(&headers, "content-length"), Some(1));
    assert_eq!(find_header(&headers, "CONTENT-LENGTH"), Some(1));
    assert_eq!(find_header(&headers, "host"), Some(0));
    assert_eq!(find_header(&headers, "hosts"), None);
    assert_eq!(find_header(&headers, ""), None);
    assert_eq!(find_header(&Vec::new(), "host"), None);
}

#[test]
fn numbers_are_read_in_decimal() {
    assert_eq!(read_number("0"), Some(0));
    assert_eq!(read_number("7"), Some(7));
    assert_eq!(read_number("0042"), Some(42));
    assert_eq!(read_number("1000"), Some(1000));
    assert_eq!(read_number(&usize::MAX.to_string()), Some(usize::MAX));
    assert_eq!(read_number(&format!("{}0", usize::MAX)), None);
    assert_eq!(read_number("99999999999999999999999999999999"), None);
    assert_eq!(read_number(""), None);
    assert_eq!(read_number("12a"), None);
    assert_eq!(read_number("-1"), None);
    assert_eq!(read_number("+1"), None);
    assert_eq!(read_number(" 1"), None);
    assert_eq!(read_number("\u{661}"), None);
}

#[test]
fn a_body_of_declared_length_is_whole_once_it_has_come() {
    let headers = vec![line("Content-Length", "5")];
    assert_eq!(whole(read_request_body(&headers, b"hello")), (b"hello".to_vec(), 5));
    assert_eq!(whole(read_request_body(&headers, b"hello world")), (b"hello".to_vec(), 5));
    assert_eq!(partial(read_request_body(&headers, b"hell")), b"hell".to_vec());
    assert_eq!(partial(read_request_body(&headers, b"")), Vec::<u8>::new());
    let none = vec![line("Content-Length", "0")];
    assert_eq!(whole(read_request_body(&none, b"rest")), (Vec::new(), 0));
}

#[test]
fn a_length_that_is_no_number_is_malformed() {
    for bad in ["", "five", "5 ", "-5", "5,5"] {
        let headers = vec![line("Content-Length", bad)];
        assert!(matches!(read_request_body(&headers, b"hello"), Body::Malformed));
        assert!(matches!(read_response_body(&headers, b"hello"), Body::Malformed));
    }
}

#[test]
fn a_length_beyond_the_machine_is_never_reached() {
    let headers = vec![line("Content-Length", "99999999999999999999999999")];
    assert_eq!(partial(read_request_body(&headers, b"hello")), b"hello".to_vec());
}

#[test]
fn a_request_without_length_has_no_body() {
    assert_eq!(whole(read_request_body(&Vec::new(), b"next request")), (Vec::new(), 0));
}

#[test]
fn a_response_without_length_goes_on_until_the_close() {
    assert_eq!(partial(read_response_body(&Vec::new(), b"so far")), b"so far".to_vec());
}

#[test]
fn chunks_are_put_together() {
    let input = b"5\r\nhello\r\n6\r\n world\r\n0\r\n\r\nnext";
    assert_eq!(whole(read_chunked(input)), (b"hello world".to_vec(), input.len() - 4));
    assert_eq!(input.len() - 4, 26);
    assert_eq!(whole(read_chunked(b"0\r\n\r\n")), (Vec::new(), 5));
    assert_eq!(whole(read_chunked(b"A\r\n0123456789\r\n0\r\n\r\n")), (b"0123456789".to_vec(), 20));
    assert_eq!(whole(read_chunked(b"a\r\n0123456789\r\n0\r\n\r\n")), (b"0123456789".to_vec(), 20));
    let long = format!("1f\r\n{}\r\n000\r\n\r\n", "x".repeat(31));
    assert_eq!(whole(read_chunked(long.as_bytes())), ("x".repeat(31).into_bytes(), long.len()));
}

#[test]
fn chunk_extensions_and_trailers_are_passed_over() {
    let input = b"5;name=value\r\nhello\r\n0;last\r\nTrailer: x\r\nOther: y\r\n\r\nnext";
    assert_eq!(whole(read_chunked(input)), (b"hello".to_vec(), input.len() - 4));
}

#[test]
fn chunks_may_hold_line_breaks() {
    let input = b"4\r\n\r\n\r\n\r\n0\r\n\r\n";
    assert_eq!(whole(read_chunked(input)), (b"\r\n\r\n".to_vec(), input.len()));
}

#[test]
fn chunks_that_have_not_all_come_are_partial() {
    assert_eq!(partial(read_chunked(b"")), Vec::<u8>::new());
    assert_eq!(partial(read_chunked(b"5")), Vec::<u8>::new());
    assert_eq!(partial(read_chunked(b"5\r")), Vec::<u8>::new());
    assert_eq!(partial(read_chunked(b"5\r\n")), Vec::<u8>::new());
    assert_eq!(partial(read_chunked(b"5\r\nhel")), b"hel".to_vec());
    assert_eq!(partial(read_chunked(b"5\r\nhello")), b"hello".to_vec());
    assert_eq!(partial(read_chunked(b"5\r\nhello\r")), b"hello".to_vec());
    assert_eq!(partial(read_chunked(b"5\r\nhello\r\n")), b"hello".to_vec());
    assert_eq!(partial(read_chunked(b"5\r\nhello\r\n3\r\nab")), b"helloab".to_vec());
    assert_eq!(partial(read_chunked(b"5\r\nhello\r\n0\r\n")), b"hello".to_vec());
    assert_eq!(partial(read_chunked(b"5\r\nhello\r\n0\r\nTrailer: x\r\n")), b"hello".to_vec());
    assert_eq!(partial(read_chunked(b"ffffffffffffffffffffffff\r\nabc")), b"abc".to_vec());
}

#[test]
fn chunks_of_another_shape_are_malformed() {
    assert!(matches!(read_chunked(b"\r\nhello\r\n"), Body::Malformed));
    assert!(matches!(read_chunked(b"5g\r\nhello\r\n"), Body::Malformed));
    assert!(matches!(read_chunked(b" 5\r\nhello\r\n"), Body::Malformed));
    assert!(matches!(read_chunked(b"-5\r\nhello\r\n"), Body::Malformed));
    assert!(matches!(read_chunked(b";x\r\nhello\r\n"), Body::Malformed));
    assert!(matches!(read_chunked(b"5\r\nhelloXX0\r\n\r\n"), Body::Malformed));
    assert!(matches!(read_chunked(b"5\r\nhello\n\n0\r\n\r\n"), Body::Malformed));
    assert!(matches!(read_chunked(b"5\r\nhello\r\nz\r\n"), Body::Malformed));
}

#[test]
fn a_request_is_whole_with_its_declared_body() {
    let data = b"POST /submit HTTP/1.1\r\nHost: a\r\nContent-Length: 4\r\n\r\nbodyGET /next";
    let (request, used) = whole_request(frame_request(data));
    assert_eq!(request.method, "POST");
    assert_eq!(request.uri, "/submit");
    assert_eq!(request.headers, vec![line("Host", "a"), line("Content-Length", "4")]);
    assert_eq!(request.body, b"body".to_vec());
    assert_eq!(used, data.len() - 9);
    assert_eq!(&data[used..], b"GET /next");
}

#[test]
fn a_request_without_body_is_whole_at_the_empty_line() {
    let data = b"GET / HTTP/1.1\r\nHost: a\r\n\r\n";
    let (request, used) = whole_request(frame_request(data));
    assert_eq!(request.method, "GET");
    assert!(request.body.is_empty());
    assert_eq!(used, data.len());
}

#[test]
fn a_request_in_chunks_is_put_together() {
    let data = b"PUT /x HTTP/1.1\r\nTransfer-Encoding: Chunked\r\nContent-Length: 999\r\n\r\n3\r\nabc\r\n0\r\n\r\n";
    let (request, used) = whole_request(frame_request(data));
    assert_eq!(request.body, b"abc".to_vec());
    assert_eq!(used, data.len());
}

#[test]
fn a_request_that_has_not_all_come_is_partial() {
    assert!(matches!(frame_request(b""), Framed::Partial));
    assert!(matches!(frame_request(b"GET / HTTP/1.1\r\nHost: a\r\n"), Framed::Partial));
    assert!(matches!(frame_request(b"GET / HTTP/1.1\r\nHost: a\r\n\r"), Framed::Partial));
    assert!(matches!(
        frame_request(b"POST / HTTP/1.1\r\nContent-Length: 10\r\n\r\n123456789"),
        Framed::Partial
    ));
    assert!(matches!(
        frame_request(b"POST / HTTP/1.1\r\nTransfer-Encoding: chunked\r\n\r\n3\r\nabc\r\n"),
        Framed::Partial
    ));
}

#[test]
fn a_request_of_another_shape_is_malformed() {
    assert!(matches!(frame_request(b"\r\n\r\n"), Framed::Malformed));
    assert!(matches!(frame_request(b"GET\r\n\r\n"), Framed::Malformed));
    assert!(matches!(frame_request(b"GET / HTTP/1.1\r\nno colon\r\n\r\n"), Framed::Malformed));
    assert!(matches!(
        frame_request(b"POST / HTTP/1.1\r\nContent-Length: x\r\n\r\nbody"),
        Framed::Malformed
    ));
    assert!(matches!(
        frame_request(b"POST / HTTP/1.1\r\nTransfer-Encoding: chunked\r\n\r\nzz\r\n"),
        Framed::Malformed
    ));
    assert!(matches!(frame_request(b"GET /\xff HTTP/1.1\r\n\r\n"), Framed::Malformed));
}

#[test]
fn a_response_is_whole_with_its_declared_body() {
    let data = b"HTTP/1.1 200 OK\r\nContent-Length: 5\r\n\r\nhello";
    for closed in [false, true] {
        let (response, used) = whole_response(frame_response(data, closed));
        assert_eq!(response.code, 200);
        assert_eq!(response.status, "200 OK");
        assert_eq!(response.body, b"hello".to_vec());
        assert_eq!(used, data.len());
    }
}

#[test]
fn a_response_that_breaks_off_ends_with_what_came() {
    let data = b"HTTP/1.1 200 OK\r\nContent-Length: 1000\r\n\r\nonly this";
    assert!(matches!(frame_response(data, false), Framed::Partial));
    match frame_response(data, true) {
        Framed::Ended { message } => {
            assert_eq!(message.code, 200);
            assert_eq!(message.headers, vec![line("Content-Length", "1000")]);
            assert_eq!(message.body, b"only this".to_vec());
        }
        _ => panic!("a response that breaks off ends with what came"),
    }
    let chunks = b"HTTP/1.1 200 OK\r\nTransfer-Encoding: chunked\r\n\r\n5\r\nhello\r\n9\r\nwor";
    match frame_response(chunks, true) {
        Framed::Ended { message } => assert_eq!(message.body, b"hellowor".to_vec()),
        _ => panic!("a response that breaks off ends with what came"),
    }
}

#[test]
fn a_response_without_length_ends_at_the_close() {
    let data = b"HTTP/1.0 200 OK\r\nServer: old\r\n\r\nall of it";
    assert!(matches!(frame_response(data, false), Framed::Partial));
    match frame_response(data, true) {
        Framed::Ended { message } => assert_eq!(message.body, b"all of it".to_vec()),
        _ => panic!("a response without length ends at the close"),
    }
}

#[test]
fn a_response_whose_head_never_came_is_none() {
    assert!(matches!(frame_response(b"", false), Framed::Partial));
    assert!(matches!(frame_response(b"HTTP/1.1 200 OK\r\n", false), Framed::Partial));
    assert!(matches!(frame_response(b"", true), Framed::Malformed));
    assert!(matches!(frame_response(b"HTTP/1.1 200 OK\r\n", true), Framed::Malformed));
    assert!(matches!(frame_response(b"garbage\r\n\r\n", false), Framed::Malformed));
}
