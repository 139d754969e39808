//! The interception handler: it sees each request before it is forwarded
//! and each response before it is relayed, and pairs the two into the
//! exchange that goes to the observer.

use vstd::prelude::*;
use crate::exchange::{ExchangeView, ProxyAPIResponse, ReqResponse, ResResponse, request_view, response_view};
use crate::message::{HttpRequest, HttpRequestView, HttpResponse, HttpResponseView};
use crate::trusted::now_nanos;

verus! {

/// What the handler is told about the connection a message belongs to.
pub struct HttpContext {
    /// The address of the client, as text.
    pub client_addr: String,
}

/// The handler's answer to a request: forward it, or answer it at once.
pub enum RequestResponse {
    Request(HttpRequest),
    Response(HttpResponse),
}

/// The handler's state with nothing pending.
pub open spec fn idle() -> ExchangeView {
    ExchangeView { req: None, res: None }
}

/// The handler's state after it has seen `req` at `time`: the request is
/// pending, and no response stands beside it.
pub open spec fn after_request(req: HttpRequestView, time: i64) -> ExchangeView {
    ExchangeView { req: Some(req.captured_at(time)), res: None }
}

/// The exchange that a handler in state `pending` publishes when it sees
/// `res` at `time`.
pub open spec fn published(pending: ExchangeView, res: HttpResponseView, time: i64) -> ExchangeView {
    ExchangeView { req: pending.req, res: Some(res.captured_at(time)) }
}

/// The handler of one connection. It holds the request that waits for its
/// response, if there is one.
pub struct ProxyHandler {
    req: Option<ReqResponse>,
    res: Option<ResResponse>,
}

impl View for ProxyHandler {
    type V = ExchangeView;

    closed spec fn view(&self) -> ExchangeView {
        ExchangeView { req: request_view(self.req), res: response_view(self.res) }
    }
}

impl Clone for ProxyHandler {
    fn clone(&self) -> (copy: Self)
        ensures
            copy@ == self@,
    {
        let req = match &self.req {
            Some(r) => Some(r.clone()),
            None => None,
        };
        let res = match &self.res {
            Some(r) => Some(r.clone()),
            None => None,
        };
        ProxyHandler { req, res }
    }
}

impl ProxyHandler {
    pub fn new() -> (handler: Self)
        ensures
            handler@ == idle(),
    {
        Self { req: None, res: None }
    }

    pub fn to_parts(self) -> (parts: (Option<ReqResponse>, Option<ResResponse>))
        ensures
            request_view(parts.0) == self@.req,
            response_view(parts.1) == self@.res,
    {
        (self.req, self.res)
    }

    /// A handler that holds `req` and no response. This one is left as it is.
    pub fn set_req(&mut self, req: ReqResponse) -> (next: Self)
        ensures
            next@ == (ExchangeView { req: Some(req@), res: None }),
            final(self)@ == old(self)@,
    {
        Self { req: Some(req), res: None }
    }

    /// A handler that holds this one's request and `res`. This one is left
    /// as it is.
    pub fn set_res(&mut self, res: ResResponse) -> (next: Self)
        ensures
            next@ == (ExchangeView { req: old(self)@.req, res: Some(res@) }),
            final(self)@ == old(self)@,
    {
        let req = match &self.req {
            Some(r) => Some(r.clone()),
            None => None,
        };
        Self { req, res: Some(res) }
    }

    /// The exchange that this handler holds, as it goes to the observer.
    /// Putting it on the observer's channel is left to the caller.
    pub fn send_output(self) -> (exchange: ProxyAPIResponse)
        ensures
            exchange@ == self@,
    {
        ProxyAPIResponse::new(self.req, self.res)
    }

    pub fn req(&self) -> (req: &Option<ReqResponse>)
        ensures
            request_view(*req) == self@.req,
    {
        &self.req
    }

    pub fn res(&self) -> (res: &Option<ResResponse>)
        ensures
            response_view(*res) == self@.res,
    {
        &self.res
    }

    /// Sees a request at `time`, just before it is forwarded. The request
    /// becomes the pending half of an exchange and is handed back unchanged.
    pub fn on_request(&mut self, ctx: &HttpContext, req: HttpRequest, time: i64) -> (out:
        RequestResponse)
        ensures
            final(self)@ == after_request(req@, time),
            out == RequestResponse::Request(req),
    {
        let record = req.capture(time);
        *self = self.set_req(record);
        RequestResponse::Request(req)
    }

    /// Sees a response at `time`, once it is buffered in full. It is paired
    /// with what was pending into one exchange, which is returned for the
    /// observer beside the unchanged response; nothing stays pending.
    pub fn on_response(&mut self, ctx: &HttpContext, res: HttpResponse, time: i64) -> (out: (
        HttpResponse,
        ProxyAPIResponse,
    ))
        ensures
            out.0 == res,
            out.1@ == published(old(self)@, res@, time),
            final(self)@ == idle(),
    {
        let record = res.capture(time);
        let exchange = self.set_res(record).send_output();
        self.req = None;
        self.res = None;
        (res, exchange)
    }

    /// `on_request` at the time the clock shows.
    pub fn handle_request(&mut self, ctx: &HttpContext, req: HttpRequest) -> (out: RequestResponse)
        ensures
            exists|time: i64| final(self)@ == after_request(req@, time),
            out == RequestResponse::Request(req),
    {
        let time = now_nanos();
        self.on_request(ctx, req, time)
    }

    /// `on_response` at the time the clock shows.
    pub fn handle_response(&mut self, ctx: &HttpContext, res: HttpResponse) -> (out: (
        HttpResponse,
        ProxyAPIResponse,
    ))
        ensures
            out.0 == res,
            exists|time: i64| out.1@ == published(old(self)@, res@, time),
            final(self)@ == idle(),
    {
        let time = now_nanos();
        self.on_response(ctx, res, time)
    }
}

/// What a handler sees, in the order it sees it.
pub enum Seen {
    Request(HttpRequestView, i64),
    Response(HttpResponseView, i64),
}

/// The exchanges that a handler in state `pending` publishes, in order,
/// while it sees `events`.
pub open spec fn exchanges(pending: ExchangeView, events: Seq<Seen>) -> Seq<ExchangeView>
    decreases events.len(),
{
    if events.len() == 0 {
        Seq::empty()
    } else {
        match events[0] {
            Seen::Request(req, time) => exchanges(after_request(req, time), events.drop_first()),
            Seen::Response(res, time) => seq![published(pending, res, time)] + exchanges(
                idle(),
                events.drop_first(),
            ),
        }
    }
}

/// How many of `events` are responses.
pub open spec fn responses(events: Seq<Seen>) -> nat
    decreases events.len(),
{
    if events.len() == 0 {
        0
    } else {
        match events[0] {
            Seen::Request(..) => responses(events.drop_first()),
            Seen::Response(..) => 1 + responses(events.drop_first()),
        }
    }
}

/// One exchange is published for each response and none for anything
/// else: a request alone publishes nothing, however many follow it.
pub proof fn one_exchange_for_each_response(pending: ExchangeView, events: Seq<Seen>)
    ensures
        exchanges(pending, events).len() == responses(events),
        forall|i: int|
            0 <= i < exchanges(pending, events).len() ==> (#[trigger] exchanges(
                pending,
                events,
            )[i]).res is Some,
    decreases events.len(),
{
    if events.len() > 0 {
        match events[0] {
            Seen::Request(req, time) => {
                one_exchange_for_each_response(after_request(req, time), events.drop_first());
            },
            Seen::Response(res, time) => {
                one_exchange_for_each_response(idle(), events.drop_first());
            },
        }
    }
}

/// A request that gets no response is never published: where a second
/// request follows it before any response, the exchange of the response
/// that comes then holds the second request, and no later exchange holds
/// the first.
pub proof fn unanswered_request_is_dropped(
    pending: ExchangeView,
    lost: HttpRequestView,
    lost_at: i64,
    kept: HttpRequestView,
    kept_at: i64,
    later: Seq<Seen>,
)
    ensures
        exchanges(
            pending,
            seq![Seen::Request(lost, lost_at), Seen::Request(kept, kept_at)] + later,
        ) == exchanges(pending, seq![Seen::Request(kept, kept_at)] + later),
{
    let both = seq![Seen::Request(lost, lost_at), Seen::Request(kept, kept_at)] + later;
    let one = seq![Seen::Request(kept, kept_at)] + later;
    assert(both.drop_first() =~= one);
    assert(one.drop_first() =~= later);
    assert(exchanges(pending, both) == exchanges(after_request(lost, lost_at), one));
    assert(exchanges(after_request(lost, lost_at), one) == exchanges(
        after_request(kept, kept_at),
        later,
    ));
    assert(exchanges(pending, one) == exchanges(after_request(kept, kept_at), later));
}

} // verus!
