//! The core of an intercepting HTTP/HTTPS forward proxy: the records of
//! captured exchanges, the decisions taken for each connection, the
//! certificate cache of the signing authority and the listener's lifecycle.
//! Sockets, TLS and the runtime stay with the caller: every function here
//! takes plain values and says what is to be done next.
//!
//! - `exchange` and `message` hold the records that go to the observer and
//!   the messages in transit.
//! - `proxy_handler` is the interception handler, `dispatch` the decision
//!   for each request, `relay` the reading of a response.
//! - `connection` decides from the first bytes of a connection, `wire`
//!   reads messages out of bytes, `framing` tells where a message ends.
//! - `ca` is the authority's certificate cache.
//! - `proxy` is the listener's lifecycle, `server` the proxy as its host
//!   application holds it, `system_proxy` the system's proxy settings.
//! - `text` holds the text handling the others share.
//! - `trusted` holds every call whose contract is believed without proof.

pub mod ca;
pub mod connection;
pub mod dispatch;
pub mod exchange;
pub mod framing;
pub mod message;
pub mod proxy;
pub mod proxy_handler;
pub mod relay;
pub mod server;
pub mod system_proxy;
pub mod text;
pub mod trusted;
pub mod wire;
