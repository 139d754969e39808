//! Records of captured traffic: a request, a response, and the pair of
//! both that is handed to the observer.

use vstd::prelude::*;

verus! {

/// What a list of header lines holds: each name with its value, in the
/// order of capture. A name may occur more than once.
pub open spec fn headers_view(headers: Seq<(String, String)>) -> Seq<(Seq<char>, Seq<char>)> {
    Seq::new(headers.len(), |i: int| (headers[i].0@, headers[i].1@))
}

/// Copies a list of header lines, line by line.
pub fn copy_headers(headers: &Vec<(String, String)>) -> (copy: Vec<(String, String)>)
    ensures
        headers_view(copy@) == headers_view(headers@),
{
    let mut copy: Vec<(String, String)> = Vec::new();
    let mut i: usize = 0;
    while i < headers.len()
        invariant
            i <= headers.len(),
            copy.len() == i,
            forall|j: int|
                0 <= j < i ==> copy[j].0@ == headers[j].0@ && copy[j].1@ == headers[j].1@,
        decreases headers.len() - i,
    {
        copy.push((headers[i].0.clone(), headers[i].1.clone()));
        i += 1;
    }
    assert(headers_view(copy@) =~= headers_view(headers@));
    copy
}

/// The content of a captured request.
pub struct RequestView {
    pub method: Seq<char>,
    pub uri: Seq<char>,
    pub version: Seq<char>,
    pub headers: Seq<(Seq<char>, Seq<char>)>,
    pub body: Seq<u8>,
    pub time: i64,
}

/// A captured request: method, target, protocol version, header lines,
/// body bytes and the time of capture in nanoseconds. Nothing changes it
/// once it is made.
pub struct ReqResponse {
    method: String,
    uri: String,
    version: String,
    headers: Vec<(String, String)>,
    body: Vec<u8>,
    time: i64,
}

impl View for ReqResponse {
    type V = RequestView;

    closed spec fn view(&self) -> RequestView {
        RequestView {
            method: self.method@,
            uri: self.uri@,
            version: self.version@,
            headers: headers_view(self.headers@),
            body: self.body@,
            time: self.time,
        }
    }
}

impl Clone for ReqResponse {
    fn clone(&self) -> (copy: Self)
        ensures
            copy@ == self@,
    {
        ReqResponse {
            method: self.method.clone(),
            uri: self.uri.clone(),
            version: self.version.clone(),
            headers: copy_headers(&self.headers),
            body: self.body.clone(),
            time: self.time,
        }
    }
}

impl ReqResponse {
    pub fn new(
        method: String,
        uri: String,
        version: String,
        headers: Vec<(String, String)>,
        body: Vec<u8>,
        time: i64,
    ) -> (req: Self)
        ensures
            req@ == (RequestView {
                method: method@,
                uri: uri@,
                version: version@,
                headers: headers_view(headers@),
                body: body@,
                time,
            }),
    {
        Self { method, uri, version, headers, body, time }
    }

    pub fn method(&self) -> (method: &String)
        ensures
            method@ == self@.method,
    {
        &self.method
    }

    pub fn uri(&self) -> (uri: &String)
        ensures
            uri@ == self@.uri,
    {
        &self.uri
    }

    pub fn version(&self) -> (version: &String)
        ensures
            version@ == self@.version,
    {
        &self.version
    }

    pub fn headers(&self) -> (headers: &Vec<(String, String)>)
        ensures
            headers_view(headers@) == self@.headers,
    {
        &self.headers
    }

    pub fn body(&self) -> (body: &Vec<u8>)
        ensures
            body@ == self@.body,
    {
        &self.body
    }

    pub fn time(&self) -> (time: i64)
        ensures
            time == self@.time,
    {
        self.time
    }
}

/// The content of a captured response.
pub struct ResponseView {
    pub status: Seq<char>,
    pub version: Seq<char>,
    pub headers: Seq<(Seq<char>, Seq<char>)>,
    pub body: Seq<u8>,
    pub time: i64,
}

/// A captured response: status line text, protocol version, header lines,
/// body bytes and the time of capture in nanoseconds. Nothing changes it
/// once it is made.
pub struct ResResponse {
    status: String,
    version: String,
    headers: Vec<(String, String)>,
    body: Vec<u8>,
    time: i64,
}

impl View for ResResponse {
    type V = ResponseView;

    closed spec fn view(&self) -> ResponseView {
        ResponseView {
            status: self.status@,
            version: self.version@,
            headers: headers_view(self.headers@),
            body: self.body@,
            time: self.time,
        }
    }
}

impl Clone for ResResponse {
    fn clone(&self) -> (copy: Self)
        ensures
            copy@ == self@,
    {
        ResResponse {
            status: self.status.clone(),
            version: self.version.clone(),
            headers: copy_headers(&self.headers),
            body: self.body.clone(),
            time: self.time,
        }
    }
}

impl ResResponse {
    pub fn new(
        status: String,
        version: String,
        headers: Vec<(String, String)>,
        body: Vec<u8>,
        time: i64,
    ) -> (res: Self)
        ensures
            res@ == (ResponseView {
                status: status@,
                version: version@,
                headers: headers_view(headers@),
                body: body@,
                time,
            }),
    {
        Self { status, version, headers, body, time }
    }

    pub fn status(&self) -> (status: &String)
        ensures
            status@ == self@.status,
    {
        &self.status
    }

    pub fn version(&self) -> (version: &String)
        ensures
            version@ == self@.version,
    {
        &self.version
    }

    pub fn headers(&self) -> (headers: &Vec<(String, String)>)
        ensures
            headers_view(headers@) == self@.headers,
    {
        &self.headers
    }

    pub fn body(&self) -> (body: &Vec<u8>)
        ensures
            body@ == self@.body,
    {
        &self.body
    }

    pub fn time(&self) -> (time: i64)
        ensures
            time == self@.time,
    {
        self.time
    }
}

/// The content of an optional captured request.
pub open spec fn request_view(req: Option<ReqResponse>) -> Option<RequestView> {
    match req {
        Some(r) => Some(r@),
        None => None,
    }
}

/// The content of an optional captured response.
pub open spec fn response_view(res: Option<ResResponse>) -> Option<ResponseView> {
    match res {
        Some(r) => Some(r@),
        None => None,
    }
}

/// The content of an exchange.
pub struct ExchangeView {
    pub req: Option<RequestView>,
    pub res: Option<ResponseView>,
}

/// One exchange as the observer receives it: at most one captured request
/// paired with at most one captured response.
pub struct ProxyAPIResponse {
    req: Option<ReqResponse>,
    res: Option<ResResponse>,
}

impl View for ProxyAPIResponse {
    type V = ExchangeView;

    closed spec fn view(&self) -> ExchangeView {
        ExchangeView { req: request_view(self.req), res: response_view(self.res) }
    }
}

impl Clone for ProxyAPIResponse {
    fn clone(&self) -> (copy: Self)
        ensures
            copy@ == self@,
    {
        let req = match &self.req {
            Some(r) => Some(r.clone()),
            None => None,
        };
        let res = match &self.res {
            Some(r) => Some(r.clone()),
            None => None,
        };
        ProxyAPIResponse { req, res }
    }
}

impl ProxyAPIResponse {
    pub fn new(req: Option<ReqResponse>, res: Option<ResResponse>) -> (exchange: Self)
        ensures
            exchange@ == (ExchangeView { req: request_view(req), res: response_view(res) }),
    {
        Self { req, res }
    }

    pub fn req(&self) -> (req: &Option<ReqResponse>)
        ensures
            request_view(*req) == self@.req,
    {
        &self.req
    }

    pub fn res(&self) -> (res: &Option<ResResponse>)
        ensures
            response_view(*res) == self@.res,
    {
        &self.res
    }

    /// Takes the exchange apart into its two halves.
    pub fn to_parts(self) -> (parts: (Option<ReqResponse>, Option<ResResponse>))
        ensures
            request_view(parts.0) == self@.req,
            response_view(parts.1) == self@.res,
    {
        (self.req, self.res)
    }
}

} // verus!
