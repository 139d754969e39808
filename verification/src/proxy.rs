//! The listener's lifecycle. `Proxy` holds no socket: it keeps the state
//! of the listener and says, for each command and each event, what the
//! caller is to do next.

use vstd::prelude::*;

verus! {

/// How often a failed bind is tried again before `start` gives up.
pub const MAX_BIND_RETRIES: u32 = 3;

/// How long to wait before a bind is tried again, in milliseconds.
pub const BIND_BACKOFF_MILLIS: u64 = 500;

/// How often the port is looked at before a proxy is started.
pub const MAX_PORT_CHECKS: u32 = 3;

/// How long to wait after the port was found in use, in milliseconds.
pub const PORT_CHECK_MILLIS: u64 = 500;

/// What follows a look at the port that a proxy is to listen on.
#[derive(Clone, Copy, Debug, PartialEq, Eq, Structural)]
pub enum PortStep {
    /// The port is free: go on and start the proxy.
    Proceed,
    /// The port is in use: wait `millis` milliseconds and look again.
    CheckAgain { millis: u64 },
    /// The port is still in use after the last look: wait `millis`
    /// milliseconds and do not start the proxy.
    GiveUp { millis: u64 },
}

/// Decides what follows the look number `attempt` at the port, the first
/// look being number 1. A port in use is looked at `MAX_PORT_CHECKS`
/// times in all.
pub fn after_port_check(attempt: u32, available: bool) -> (step: PortStep)
    ensures
        step == if available {
            PortStep::Proceed
        } else if attempt < MAX_PORT_CHECKS {
            PortStep::CheckAgain { millis: PORT_CHECK_MILLIS }
        } else {
            PortStep::GiveUp { millis: PORT_CHECK_MILLIS }
        },
{
    if available {
        PortStep::Proceed
    } else if attempt < MAX_PORT_CHECKS {
        PortStep::CheckAgain { millis: PORT_CHECK_MILLIS }
    } else {
        PortStep::GiveUp { millis: PORT_CHECK_MILLIS }
    }
}

/// Where the listener stands.
#[derive(Clone, Copy, Debug, PartialEq, Eq, Structural)]
pub enum ProxyState {
    /// Made, never started.
    Created,
    /// The address is bound; no connection is accepted yet.
    Bound,
    /// Connections are accepted.
    Accepting,
    /// A shutdown was asked for; the listener has not let go yet.
    ShuttingDown,
    /// The listener has let go of the address.
    Stopped,
}

/// What the caller is to do next.
pub enum Step {
    /// Bind a listener to `addr` and report `Event::Bound` or
    /// `Event::BindFailed`.
    Bind { addr: String },
    /// Wait `millis` milliseconds, then bind a listener to `addr` and
    /// report as for `Bind`.
    Retry { addr: String, millis: u64 },
    /// Accept connections, one task for each, and report
    /// `Event::Serving`. Before each accept ask `is_accepting`.
    Accept,
    /// Stop accepting, release the listener, let the connections in flight
    /// finish, and report `Event::Drained`.
    StopAccepting,
    /// Nothing is to be done.
    Nothing,
}

/// The content of a `Step`.
pub enum StepView {
    Bind { addr: Seq<char> },
    Retry { addr: Seq<char>, millis: u64 },
    Accept,
    StopAccepting,
    Nothing,
}

impl View for Step {
    type V = StepView;

    open spec fn view(&self) -> StepView {
        match self {
            Step::Bind { addr } => StepView::Bind { addr: addr@ },
            Step::Retry { addr, millis } => StepView::Retry { addr: addr@, millis: *millis },
            Step::Accept => StepView::Accept,
            Step::StopAccepting => StepView::StopAccepting,
            Step::Nothing => StepView::Nothing,
        }
    }
}

/// What the caller reports back.
pub enum Event {
    /// The listener is bound.
    Bound,
    /// The bind failed, for the reason given.
    BindFailed { reason: String },
    /// The accept loop runs.
    Serving,
    /// An accept failed; the accept loop has ended.
    AcceptFailed,
    /// The listener is released and accepts nothing more.
    Drained,
}

/// Why `start` failed.
pub enum Error {
    /// The address could not be bound, also after the retries.
    Bind { reason: String },
}

/// The content of a `Proxy`.
pub struct ProxyView {
    pub addr: Seq<char>,
    pub state: ProxyState,
    /// How many binds have failed since the last `start`.
    pub failed_binds: nat,
    /// Whether a `start` waits for a shutdown to end.
    pub restart: bool,
}

impl ProxyView {
    /// Whether a listener holds the address.
    pub open spec fn holds_listener(self) -> bool {
        self.state == ProxyState::Bound || self.state == ProxyState::Accepting || self.state
            == ProxyState::ShuttingDown
    }

    /// The state and the step that `start` gives.
    pub open spec fn start(self) -> (ProxyView, StepView) {
        match self.state {
            ProxyState::Created | ProxyState::Stopped => (
                ProxyView { failed_binds: 0, ..self },
                StepView::Bind { addr: self.addr },
            ),
            ProxyState::Bound | ProxyState::Accepting => (
                ProxyView { state: ProxyState::ShuttingDown, restart: true, ..self },
                StepView::StopAccepting,
            ),
            ProxyState::ShuttingDown => (ProxyView { restart: true, ..self }, StepView::Nothing),
        }
    }

    /// The state and the step that `shutdown` gives.
    pub open spec fn shutdown(self) -> (ProxyView, StepView) {
        match self.state {
            ProxyState::Bound | ProxyState::Accepting => (
                ProxyView { state: ProxyState::ShuttingDown, restart: false, ..self },
                StepView::StopAccepting,
            ),
            ProxyState::ShuttingDown => (ProxyView { restart: false, ..self }, StepView::Nothing),
            ProxyState::Created | ProxyState::Stopped => (self, StepView::Nothing),
        }
    }

    /// Whether a failed bind ends the `start` it belongs to.
    pub open spec fn gives_up(self) -> bool {
        !self.holds_listener() && self.failed_binds >= MAX_BIND_RETRIES
    }

    /// The state and the step that an event gives, where the event does
    /// not end a `start` in failure.
    pub open spec fn on_event(self, event: Event) -> (ProxyView, StepView) {
        match event {
            Event::Bound => if self.holds_listener() {
                (self, StepView::Nothing)
            } else {
                (ProxyView { state: ProxyState::Bound, failed_binds: 0, ..self }, StepView::Accept)
            },
            Event::BindFailed { reason } => if self.holds_listener() {
                (self, StepView::Nothing)
            } else if self.failed_binds >= MAX_BIND_RETRIES {
                (ProxyView { failed_binds: 0, ..self }, StepView::Nothing)
            } else {
                (
                    ProxyView { failed_binds: self.failed_binds + 1, ..self },
                    StepView::Retry { addr: self.addr, millis: BIND_BACKOFF_MILLIS },
                )
            },
            Event::Serving => if self.state == ProxyState::Bound {
                (ProxyView { state: ProxyState::Accepting, ..self }, StepView::Nothing)
            } else {
                (self, StepView::Nothing)
            },
            Event::AcceptFailed => if self.state == ProxyState::Accepting {
                (ProxyView { state: ProxyState::ShuttingDown, ..self }, StepView::StopAccepting)
            } else {
                (self, StepView::Nothing)
            },
            Event::Drained => if self.state == ProxyState::ShuttingDown {
                if self.restart {
                    (
                        ProxyView {
                            state: ProxyState::Stopped,
                            restart: false,
                            failed_binds: 0,
                            ..self
                        },
                        StepView::Bind { addr: self.addr },
                    )
                } else {
                    (ProxyView { state: ProxyState::Stopped, ..self }, StepView::Nothing)
                }
            } else {
                (self, StepView::Nothing)
            },
        }
    }
}

/// The lifecycle of one listener on one address.
pub struct Proxy {
    addr: String,
    state: ProxyState,
    failed_binds: u32,
    restart: bool,
}

impl View for Proxy {
    type V = ProxyView;

    closed spec fn view(&self) -> ProxyView {
        ProxyView {
            addr: self.addr@,
            state: self.state,
            failed_binds: self.failed_binds as nat,
            restart: self.restart,
        }
    }
}

impl Proxy {
    /// A proxy for `addr` that has not been started.
    pub fn new(addr: String) -> (proxy: Self)
        ensures
            proxy@ == (ProxyView {
                addr: addr@,
                state: ProxyState::Created,
                failed_binds: 0,
                restart: false,
            }),
    {
        Self { addr, state: ProxyState::Created, failed_binds: 0, restart: false }
    }

    /// The address this proxy listens on.
    pub fn addr(&self) -> (addr: &String)
        ensures
            addr@ == self@.addr,
    {
        &self.addr
    }

    /// Where the listener stands.
    pub fn state(&self) -> (state: ProxyState)
        ensures
            state == self@.state,
    {
        self.state
    }

    /// Whether the accept loop may take another connection. A shutdown is
    /// seen here, between two accepts.
    pub fn is_accepting(&self) -> (accepting: bool)
        ensures
            accepting == (self@.state == ProxyState::Accepting),
    {
        self.state == ProxyState::Accepting
    }

    /// Whether a listener holds the address.
    pub fn is_running(&self) -> (running: bool)
        ensures
            running == self@.holds_listener(),
    {
        self.state == ProxyState::Bound || self.state == ProxyState::Accepting || self.state
            == ProxyState::ShuttingDown
    }

    /// Starts the listener. Where none holds the address, the address is
    /// to be bound. Where one does, it is shut down first and the address
    /// is bound once it has let go, so that no two listeners ever hold it.
    pub fn start(&mut self) -> (step: Step)
        ensures
            (final(self)@, step@) == old(self)@.start(),
    {
        match self.state {
            ProxyState::Created | ProxyState::Stopped => {
                self.failed_binds = 0;
                Step::Bind { addr: self.addr.clone() }
            },
            ProxyState::Bound | ProxyState::Accepting => {
                self.state = ProxyState::ShuttingDown;
                self.restart = true;
                Step::StopAccepting
            },
            ProxyState::ShuttingDown => {
                self.restart = true;
                Step::Nothing
            },
        }
    }

    /// Asks the listener to stop. Where none holds the address, nothing
    /// happens. A `start` that waited for an earlier shutdown is dropped.
    pub fn shutdown(&mut self) -> (step: Step)
        ensures
            (final(self)@, step@) == old(self)@.shutdown(),
    {
        match self.state {
            ProxyState::Bound | ProxyState::Accepting => {
                self.state = ProxyState::ShuttingDown;
                self.restart = false;
                Step::StopAccepting
            },
            ProxyState::ShuttingDown => {
                self.restart = false;
                Step::Nothing
            },
            ProxyState::Created | ProxyState::Stopped => Step::Nothing,
        }
    }

    /// Takes in what the caller reports and says what follows. The one
    /// failure is a bind that fails after `MAX_BIND_RETRIES` retries: it
    /// ends the `start` it belongs to with the reason of the last attempt.
    pub fn on_event(&mut self, event: Event) -> (out: Result<Step, Error>)
        ensures
            final(self)@ == old(self)@.on_event(event).0,
            match out {
                Ok(step) => step@ == old(self)@.on_event(event).1 && !(event is BindFailed
                    && old(self)@.gives_up()),
                Err(Error::Bind { reason }) => event == (Event::BindFailed { reason })
                    && old(self)@.gives_up(),
            },
    {
        let listening = self.is_running();
        match event {
            Event::Bound => {
                if listening {
                    Ok(Step::Nothing)
                } else {
                    self.state = ProxyState::Bound;
                    self.failed_binds = 0;
                    Ok(Step::Accept)
                }
            },
            Event::BindFailed { reason } => {
                if listening {
                    Ok(Step::Nothing)
                } else if self.failed_binds >= MAX_BIND_RETRIES {
                    self.failed_binds = 0;
                    Err(Error::Bind { reason })
                } else {
                    self.failed_binds = self.failed_binds + 1;
                    Ok(Step::Retry { addr: self.addr.clone(), millis: BIND_BACKOFF_MILLIS })
                }
            },
            Event::Serving => {
                if self.state == ProxyState::Bound {
                    self.state = ProxyState::Accepting;
                }
                Ok(Step::Nothing)
            },
            Event::AcceptFailed => {
                if self.state == ProxyState::Accepting {
                    self.state = ProxyState::ShuttingDown;
                    Ok(Step::StopAccepting)
                } else {
                    Ok(Step::Nothing)
                }
            },
            Event::Drained => {
                if self.state == ProxyState::ShuttingDown {
                    self.state = ProxyState::Stopped;
                    if self.restart {
                        self.restart = false;
                        self.failed_binds = 0;
                        Ok(Step::Bind { addr: self.addr.clone() })
                    } else {
                        Ok(Step::Nothing)
                    }
                } else {
                    Ok(Step::Nothing)
                }
            },
        }
    }
}

/// A listener is bound only where none holds the address: whatever the
/// state and whatever the command or event, a step that asks for a bind
/// comes from a state without a listener or leaves one behind.
pub proof fn at_most_one_listener(proxy: ProxyView, event: Event)
    ensures
        proxy.start().1 is Bind ==> !proxy.holds_listener(),
        proxy.on_event(event).1 is Bind ==> !proxy.on_event(event).0.holds_listener(),
        proxy.on_event(event).1 is Retry ==> !proxy.holds_listener(),
        !(proxy.shutdown().1 is Bind),
        !(proxy.shutdown().1 is Retry),
{
}

/// After a shutdown the address is free again: once a listener that was
/// shut down reports that it has let go, no listener holds the address,
/// and a new `start` asks for a bind of the same address with all its
/// retries before it.
pub proof fn restart_after_shutdown(proxy: ProxyView)
    requires
        proxy.state == ProxyState::Bound || proxy.state == ProxyState::Accepting,
    ensures
        proxy.shutdown().1 == StepView::StopAccepting,
        ({
            let stopped = proxy.shutdown().0.on_event(Event::Drained).0;
            &&& stopped.state == ProxyState::Stopped
            &&& !stopped.holds_listener()
            &&& stopped.start().1 == (StepView::Bind { addr: proxy.addr })
            &&& stopped.start().0.failed_binds == 0
        }),
{
}

/// A shutdown of a proxy that holds no listener changes nothing, and a
/// second shutdown asks for nothing more than the first.
pub proof fn shutdown_is_idempotent(proxy: ProxyView)
    ensures
        !proxy.holds_listener() ==> proxy.shutdown() == (proxy, StepView::Nothing),
        proxy.shutdown().0.shutdown() == (proxy.shutdown().0, StepView::Nothing),
{
}

/// A `start` on a proxy that holds a listener shuts that listener down
/// first and binds once it has let go.
pub proof fn start_while_bound_shuts_down_first(proxy: ProxyView)
    requires
        proxy.state == ProxyState::Bound || proxy.state == ProxyState::Accepting,
    ensures
        proxy.start().1 == StepView::StopAccepting,
        proxy.start().0.on_event(Event::Drained).1 == (StepView::Bind { addr: proxy.addr }),
        proxy.start().0.on_event(Event::Drained).0.state == ProxyState::Stopped,
{
}

/// A bind is tried again `MAX_BIND_RETRIES` times and no more: from a
/// fresh `start`, three failures each ask for a retry, and the fourth
/// ends the `start`.
pub proof fn bind_gives_up_after_retries(proxy: ProxyView, reason: String)
    requires
        !proxy.holds_listener(),
    ensures
        ({
            let failed = Event::BindFailed { reason };
            let first = proxy.start().0;
            let second = first.on_event(failed).0;
            let third = second.on_event(failed).0;
            let fourth = third.on_event(failed).0;
            &&& !first.gives_up() && first.on_event(failed).1 is Retry
            &&& !second.gives_up() && second.on_event(failed).1 is Retry
            &&& !third.gives_up() && third.on_event(failed).1 is Retry
            &&& fourth.gives_up()
        }),
{
}

} // verus!
