//! The proxy as its host application holds it: the settings it runs
//! under, the lifecycle of its listener and its certificate authority.

use vstd::prelude::*;
use vstd::string::StringExecFns;
use crate::ca::{Certificate, Issue, Ssl, SslView};
use crate::proxy::{Error, Event, Proxy, ProxyState, ProxyView, Step};
use crate::system_proxy::{ProxyConfig, ProxyConfigView};

verus! {

/// A proxy server: its settings, its listener and its authority.
pub struct ProxyServer {
    config: ProxyConfig,
    proxy: Proxy,
    ca: Ssl,
}

/// The content of a `ProxyServer`.
pub struct ProxyServerView {
    pub config: ProxyConfigView,
    pub proxy: ProxyView,
    pub ca: SslView,
}

impl View for ProxyServer {
    type V = ProxyServerView;

    closed spec fn view(&self) -> ProxyServerView {
        ProxyServerView { config: self.config@, proxy: self.proxy@, ca: self.ca@ }
    }
}

impl ProxyServer {
    /// A server that listens where `config` says, host and port joined by
    /// a colon, and signs with `root`. It is not started.
    pub fn new(config: ProxyConfig, root: Certificate) -> (server: Self)
        ensures
            server@ == (ProxyServerView {
                config: config@,
                proxy: ProxyView {
                    addr: config.host@ + ":"@ + config.port@,
                    state: ProxyState::Created,
                    failed_binds: 0,
                    restart: false,
                },
                ca: SslView { root: root@, cache: Map::empty() },
            }),
    {
        let mut addr = config.host.clone();
        addr.append(":");
        addr.append(config.port.as_str());
        Self { config, proxy: Proxy::new(addr), ca: Ssl::new(root) }
    }

    /// The settings the server runs under.
    pub fn config(&self) -> (config: &ProxyConfig)
        ensures
            config@ == self@.config,
    {
        &self.config
    }

    /// Starts the listener, as `Proxy::start` does.
    pub fn start(&mut self) -> (step: Step)
        ensures
            (final(self)@.proxy, step@) == old(self)@.proxy.start(),
            final(self)@.config == old(self)@.config,
            final(self)@.ca == old(self)@.ca,
    {
        self.proxy.start()
    }

    /// Stops the listener, as `Proxy::shutdown` does.
    pub fn stop(&mut self) -> (step: Step)
        ensures
            (final(self)@.proxy, step@) == old(self)@.proxy.shutdown(),
            final(self)@.config == old(self)@.config,
            final(self)@.ca == old(self)@.ca,
    {
        self.proxy.shutdown()
    }

    /// Takes in what the caller reports of the listener, as
    /// `Proxy::on_event` does.
    pub fn on_event(&mut self, event: Event) -> (out: Result<Step, Error>)
        ensures
            final(self)@.proxy == old(self)@.proxy.on_event(event).0,
            final(self)@.config == old(self)@.config,
            final(self)@.ca == old(self)@.ca,
            match out {
                Ok(step) => step@ == old(self)@.proxy.on_event(event).1 && !(event is BindFailed
                    && old(self)@.proxy.gives_up()),
                Err(Error::Bind { reason }) => event == (Event::BindFailed { reason })
                    && old(self)@.proxy.gives_up(),
            },
    {
        self.proxy.on_event(event)
    }

    /// Where the listener stands.
    pub fn state(&self) -> (state: ProxyState)
        ensures
            state == self@.proxy.state,
    {
        self.proxy.state()
    }

    /// Looks for the certificate of a host, as `Ssl::issue_for_host` does.
    pub fn issue_for_host(&self, hostname: &str) -> (found: Issue)
        ensures
            match found {
                Issue::Cached(leaf) => self@.ca.lookup(hostname@) == Some(leaf@),
                Issue::Sign => self@.ca.lookup(hostname@) is None,
            },
    {
        self.ca.issue_for_host(hostname)
    }

    /// Takes in the outcome of signing a leaf certificate, as
    /// `Ssl::signed` does.
    pub fn signed(&mut self, hostname: &str, outcome: Result<Certificate, String>) -> (leaf:
        Result<Certificate, String>)
        ensures
            final(self)@.config == old(self)@.config,
            final(self)@.proxy == old(self)@.proxy,
            match outcome {
                Ok(new) => {
                    &&& final(self)@.ca == old(self)@.ca.take_in(hostname@, new@)
                    &&& leaf matches Ok(kept) && Some(kept@) == final(self)@.ca.lookup(hostname@)
                },
                Err(reason) => final(self)@.ca == old(self)@.ca && leaf == Err::<
                    Certificate,
                    String,
                >(reason),
            },
    {
        self.ca.signed(hostname, outcome)
    }

    /// The root certificate, encoded, for clients to install and trust.
    pub fn export_certificate(&self) -> (cert: Vec<u8>)
        ensures
            cert@ == self@.ca.root.cert,
    {
        self.ca.root_certificate().clone()
    }
}

} // verus!
