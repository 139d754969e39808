//! Messages as they travel: a request on its way to the origin server and
//! a response on its way back, with complete bodies.

use vstd::prelude::*;
use crate::exchange::{headers_view, copy_headers, ReqResponse, ResResponse, RequestView, ResponseView};

verus! {

/// The protocol version of a message.
#[derive(Clone, Copy, Debug, PartialEq, Eq, Structural)]
pub enum HttpVersion {
    Http09,
    Http10,
    Http11,
    H2,
    H3,
    /// A version this library has no name for.
    Unknown,
}

/// The name under which a protocol version is recorded.
pub open spec fn version_name(version: HttpVersion) -> Seq<char> {
    match version {
        HttpVersion::Http09 => "HTTP_09"@,
        HttpVersion::Http10 => "HTTP_10"@,
        HttpVersion::Http11 => "HTTP_11"@,
        HttpVersion::H2 => "HTTP_2"@,
        HttpVersion::H3 => "HTTP_3"@,
        HttpVersion::Unknown => "__NonExhaustive"@,
    }
}

/// Gives the name under which a protocol version is recorded.
pub fn get_versions(v: HttpVersion) -> (name: String)
    ensures
        name@ == version_name(v),
{
    match v {
        HttpVersion::Http09 => "HTTP_09".to_owned(),
        HttpVersion::Http10 => "HTTP_10".to_owned(),
        HttpVersion::Http11 => "HTTP_11".to_owned(),
        HttpVersion::H2 => "HTTP_2".to_owned(),
        HttpVersion::H3 => "HTTP_3".to_owned(),
        HttpVersion::Unknown => "__NonExhaustive".to_owned(),
    }
}

/// A request with its body read in full.
pub struct HttpRequest {
    pub method: String,
    pub uri: String,
    pub version: HttpVersion,
    pub headers: Vec<(String, String)>,
    pub body: Vec<u8>,
}

/// The content of a request in transit.
pub struct HttpRequestView {
    pub method: Seq<char>,
    pub uri: Seq<char>,
    pub version: HttpVersion,
    pub headers: Seq<(Seq<char>, Seq<char>)>,
    pub body: Seq<u8>,
}

impl View for HttpRequest {
    type V = HttpRequestView;

    open spec fn view(&self) -> HttpRequestView {
        HttpRequestView {
            method: self.method@,
            uri: self.uri@,
            version: self.version,
            headers: headers_view(self.headers@),
            body: self.body@,
        }
    }
}

impl HttpRequestView {
    /// The record of this request when it is captured at `time`.
    pub open spec fn captured_at(self, time: i64) -> RequestView {
        RequestView {
            method: self.method,
            uri: self.uri,
            version: version_name(self.version),
            headers: self.headers,
            body: self.body,
            time,
        }
    }
}

impl Clone for HttpRequest {
    fn clone(&self) -> (copy: Self)
        ensures
            copy@ == self@,
    {
        HttpRequest {
            method: self.method.clone(),
            uri: self.uri.clone(),
            version: self.version,
            headers: copy_headers(&self.headers),
            body: self.body.clone(),
        }
    }
}

impl HttpRequest {
    /// Records this request as captured at `time`.
    pub fn capture(&self, time: i64) -> (record: ReqResponse)
        ensures
            record@ == self@.captured_at(time),
    {
        ReqResponse::new(
            self.method.clone(),
            self.uri.clone(),
            get_versions(self.version),
            copy_headers(&self.headers),
            self.body.clone(),
            time,
        )
    }
}

/// A response with its body read in full, or as far as it came.
pub struct HttpResponse {
    /// The status code.
    pub code: u16,
    /// The status as text: the code and its reason phrase.
    pub status: String,
    pub version: HttpVersion,
    pub headers: Vec<(String, String)>,
    pub body: Vec<u8>,
}

/// The content of a response in transit.
pub struct HttpResponseView {
    pub code: u16,
    pub status: Seq<char>,
    pub version: HttpVersion,
    pub headers: Seq<(Seq<char>, Seq<char>)>,
    pub body: Seq<u8>,
}

impl View for HttpResponse {
    type V = HttpResponseView;

    open spec fn view(&self) -> HttpResponseView {
        HttpResponseView {
            code: self.code,
            status: self.status@,
            version: self.version,
            headers: headers_view(self.headers@),
            body: self.body@,
        }
    }
}

impl HttpResponseView {
    /// The record of this response when it is captured at `time`.
    pub open spec fn captured_at(self, time: i64) -> ResponseView {
        ResponseView {
            status: self.status,
            version: version_name(self.version),
            headers: self.headers,
            body: self.body,
            time,
        }
    }
}

impl Clone for HttpResponse {
    fn clone(&self) -> (copy: Self)
        ensures
            copy@ == self@,
    {
        HttpResponse {
            code: self.code,
            status: self.status.clone(),
            version: self.version,
            headers: copy_headers(&self.headers),
            body: self.body.clone(),
        }
    }
}

impl HttpResponse {
    /// Records this response as captured at `time`.
    pub fn capture(&self, time: i64) -> (record: ResResponse)
        ensures
            record@ == self@.captured_at(time),
    {
        ResResponse::new(
            self.status.clone(),
            get_versions(self.version),
            copy_headers(&self.headers),
            self.body.clone(),
            time,
        )
    }
}

} // verus!
