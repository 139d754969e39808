//! The calls this library makes into other crates and into parts of the
//! standard library that have no specification. Each function here is
//! believed, not proved: its body is the call, its contract is what the
//! called code is taken to do.

use vstd::prelude::*;
use vstd::utf8::valid_utf8;
use vstd::string::StringSliceAdditionalSpecFns;

verus! {

/// The scheme that `http::Uri` finds in a request target, as
/// `Uri::scheme_str` writes it; `None` where the target is no URI or has
/// no scheme.
pub uninterp spec fn uri_scheme(target: Seq<char>) -> Option<Seq<char>>;

/// The authority part that `http::Uri` finds in a request target, written
/// as text; `None` where the target is no URI or has no authority.
pub uninterp spec fn uri_authority(target: Seq<char>) -> Option<Seq<char>>;

/// The host that `http::Uri` finds in a request target; `None` where the
/// target is no URI or has no authority.
pub uninterp spec fn uri_host(target: Seq<char>) -> Option<Seq<char>>;

/// The port number that `http::Uri` finds in a request target; `None`
/// where the target is no URI, has no authority, or the authority ends in
/// no number that fits sixteen bits.
pub uninterp spec fn uri_port(target: Seq<char>) -> Option<u16>;

/// The text that `http::StatusCode` prints for a status code: the code, a
/// space and the reason phrase the crate holds for it.
pub uninterp spec fn status_line(code: u16) -> Seq<char>;

/// Parses `uri` with `http::Uri::from_str` and returns what
/// `Uri::scheme_str` gives. The contract claims only that the result is a
/// function of the text.
#[verifier::external_body]
pub(crate) fn target_scheme(uri: &str) -> (scheme: Option<String>)
    ensures
        scheme is Some <==> uri_scheme(uri@) is Some,
        scheme matches Some(s) ==> Some(s@) == uri_scheme(uri@),
{
    match uri.parse::<http::Uri>() {
        Ok(parsed) => parsed.scheme_str().map(|s| s.to_string()),
        Err(_) => None,
    }
}

/// Parses `uri` with `http::Uri::from_str` and returns what
/// `Uri::authority` gives, as the text of `Authority::as_str`. The contract
/// claims only that the result is a function of the text.
#[verifier::external_body]
pub(crate) fn host_addr(uri: &str) -> (authority: Option<String>)
    ensures
        authority is Some <==> uri_authority(uri@) is Some,
        authority matches Some(a) ==> Some(a@) == uri_authority(uri@),
{
    match uri.parse::<http::Uri>() {
        Ok(parsed) => parsed.authority().map(|a| a.as_str().to_string()),
        Err(_) => None,
    }
}

/// Parses `uri` with `http::Uri::from_str` and returns what `Uri::host`
/// gives. The contract claims only that the result is a function of the
/// text.
#[verifier::external_body]
pub(crate) fn target_host(uri: &str) -> (host: Option<String>)
    ensures
        host is Some <==> uri_host(uri@) is Some,
        host matches Some(h) ==> Some(h@) == uri_host(uri@),
{
    match uri.parse::<http::Uri>() {
        Ok(parsed) => parsed.host().map(|h| h.to_string()),
        Err(_) => None,
    }
}

/// Parses `uri` with `http::Uri::from_str` and returns what
/// `Uri::port_u16` gives. The contract claims only that the result is a
/// function of the text.
#[verifier::external_body]
pub(crate) fn target_port(uri: &str) -> (port: Option<u16>)
    ensures
        port == uri_port(uri@),
{
    match uri.parse::<http::Uri>() {
        Ok(parsed) => parsed.port_u16(),
        Err(_) => None,
    }
}

/// Prints a status code as `http::StatusCode` does. `StatusCode::from_u16`
/// takes the codes from 100 to 999, which `requires` asks for. The crate
/// prints the code, a space and its reason phrase; its table gives the
/// phrases `OK`, `Bad Request` and `Bad Gateway` for 200, 400 and 502.
#[verifier::external_body]
pub(crate) fn status_text(code: u16) -> (text: String)
    requires
        100 <= code < 1000,
    ensures
        text@ == status_line(code),
        code == 200 ==> text@ == "200 OK"@,
        code == 400 ==> text@ == "400 Bad Request"@,
        code == 502 ==> text@ == "502 Bad Gateway"@,
{
    match http::StatusCode::from_u16(code) {
        Ok(status) => status.to_string(),
        Err(_) => String::new(),
    }
}

/// Reads the clock through `chrono::Local::now` and returns
/// `timestamp_nanos_opt`: nanoseconds since the Unix epoch, or zero where
/// that number does not fit. Nothing is claimed of the value. `chrono`
/// panics where the system clock stands before 1970.
#[verifier::external_body]
pub(crate) fn now_nanos() -> i64 {
    chrono::Local::now().timestamp_nanos_opt().unwrap_or_default()
}

/// `std::str::from_utf8`: the bytes as text where they are valid UTF-8,
/// and nothing where they are not.
#[verifier::external_body]
pub(crate) fn utf8_text(data: &[u8]) -> (text: Option<&str>)
    ensures
        text is Some <==> valid_utf8(data@),
        text matches Some(s) ==> s.spec_bytes() == data@,
{
    std::str::from_utf8(data).ok()
}

} // verus!
