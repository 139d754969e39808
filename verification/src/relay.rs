//! Reading a response from the origin server. The body is gathered in
//! full before anything is relayed or published; where the connection
//! ends early, what has come so far is the body.

use vstd::prelude::*;
use crate::dispatch::{relayed, Upstream};
use crate::exchange::{headers_view, ExchangeView};
use crate::proxy_handler::published;
use crate::message::{HttpResponse, HttpResponseView, HttpVersion};

verus! {

/// What one read from the origin server gave.
pub enum BodyRead {
    /// These bytes of the body.
    Data(Vec<u8>),
    /// The end of the body.
    End,
    /// A failure: the connection was closed or broke before the end.
    Failed,
}

/// The body after a run of reads, starting from the bytes `so_far`: every
/// chunk up to the first read that is no chunk, in the order they came.
pub open spec fn gathered(so_far: Seq<u8>, reads: Seq<BodyRead>) -> Seq<u8>
    decreases reads.len(),
{
    if reads.len() == 0 {
        so_far
    } else {
        match reads[0] {
            BodyRead::Data(chunk) => gathered(so_far + chunk@, reads.drop_first()),
            _ => so_far,
        }
    }
}

/// A response that is being read: its head, and its body so far.
pub struct Relay {
    response: HttpResponse,
    open: bool,
}

/// The content of a `Relay`.
pub struct RelayView {
    pub response: HttpResponseView,
    /// Whether more of the body may come.
    pub open: bool,
}

impl View for Relay {
    type V = RelayView;

    closed spec fn view(&self) -> RelayView {
        RelayView { response: self.response@, open: self.open }
    }
}

impl RelayView {
    /// The relay after one read. A chunk is added to the body while the
    /// relay is open; anything else closes it, and a closed relay takes
    /// nothing more.
    pub open spec fn after(self, read: BodyRead) -> RelayView {
        if !self.open {
            self
        } else {
            match read {
                BodyRead::Data(chunk) => RelayView {
                    response: HttpResponseView {
                        body: self.response.body + chunk@,
                        ..self.response
                    },
                    open: true,
                },
                _ => RelayView { open: false, ..self },
            }
        }
    }

    /// The relay after a run of reads.
    pub open spec fn after_all(self, reads: Seq<BodyRead>) -> RelayView
        decreases reads.len(),
    {
        if reads.len() == 0 {
            self
        } else {
            self.after(reads[0]).after_all(reads.drop_first())
        }
    }
}

impl Relay {
    /// Begins to read a response with the given head. No byte of the
    /// body has come yet.
    pub fn new(
        code: u16,
        status: String,
        version: HttpVersion,
        headers: Vec<(String, String)>,
    ) -> (relay: Self)
        ensures
            relay@ == (RelayView {
                response: HttpResponseView {
                    code,
                    status: status@,
                    version,
                    headers: headers_view(headers@),
                    body: Seq::empty(),
                },
                open: true,
            }),
    {
        Self {
            response: HttpResponse { code, status, version, headers, body: Vec::new() },
            open: true,
        }
    }

    /// Takes in what a read gave and tells whether to read again. No
    /// read follows the end of the body or a failure.
    pub fn on_read(&mut self, read: BodyRead) -> (again: bool)
        ensures
            final(self)@ == old(self)@.after(read),
            again == final(self)@.open,
    {
        if !self.open {
            return false;
        }
        match read {
            BodyRead::Data(chunk) => {
                let mut chunk = chunk;
                self.response.body.append(&mut chunk);
                true
            },
            _ => {
                self.open = false;
                false
            },
        }
    }

    /// The body as far as it has come.
    pub fn received(&self) -> (body: &Vec<u8>)
        ensures
            body@ == self@.response.body,
    {
        &self.response.body
    }

    /// Ends the reading. The response carries the body as far as it came,
    /// whether it came in full or not.
    pub fn finish(self) -> (outcome: Upstream)
        ensures
            outcome matches Upstream::Response(res) && res@ == self@.response,
    {
        Upstream::Response(self.response)
    }
}

/// A response that breaks off is not lost: after any run of reads, the
/// body holds every chunk that came before the first end or failure, and
/// nothing else of the response has changed.
pub proof fn partial_body_is_kept(relay: RelayView, reads: Seq<BodyRead>)
    requires
        relay.open,
    ensures
        relay.after_all(reads).response == (HttpResponseView {
            body: gathered(relay.response.body, reads),
            ..relay.response
        }),
    decreases reads.len(),
{
    if reads.len() > 0 {
        match reads[0] {
            BodyRead::Data(chunk) => {
                partial_body_is_kept(relay.after(reads[0]), reads.drop_first());
            },
            _ => {
                closed_relay_takes_nothing(relay.after(reads[0]), reads.drop_first());
            },
        }
    }
}

/// Once the body has ended or the connection has failed, no later read
/// changes what is relayed.
pub proof fn closed_relay_takes_nothing(relay: RelayView, reads: Seq<BodyRead>)
    requires
        !relay.open,
    ensures
        relay.after_all(reads) == relay,
    decreases reads.len(),
{
    if reads.len() > 0 {
        closed_relay_takes_nothing(relay.after(reads[0]), reads.drop_first());
    }
}

/// A response that breaks off still reaches the client and the observer:
/// where reading ends after any run of reads, the response that is
/// relayed and the response in the published exchange both carry the body
/// as far as it came.
pub proof fn partial_response_is_relayed_and_published(
    relay: RelayView,
    reads: Seq<BodyRead>,
    read: HttpResponse,
    pending: ExchangeView,
    time: i64,
)
    requires
        relay.open,
        read@ == relay.after_all(reads).response,
    ensures
        relayed(Upstream::Response(read)).body == gathered(relay.response.body, reads),
        published(pending, relayed(Upstream::Response(read)), time).res matches Some(res)
            && res.body == gathered(relay.response.body, reads),
{
    partial_body_is_kept(relay, reads);
}

} // verus!
