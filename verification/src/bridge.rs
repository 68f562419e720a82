//! The local service: how it is started and stopped, and what is done with the
//! connections that come in.

use crate::text::{attempt_view, concat2};
use vstd::prelude::*;

verus! {

/// The address on which the service listens.
pub const CONNECTOR_HOST: &'static str = "127.0.0.1";

/// The port on which the service listens.
pub const CONNECTOR_PORT: u16 = 8765;

/// Where the service can be reached.
pub const CONNECTOR_ENDPOINT: &'static str = "http://127.0.0.1:8765";

/// The service.
pub struct BridgeView {
    pub listening: bool,
    pub externally_managed: bool,
    pub last_error: Seq<char>,
}

/// The service.
#[derive(Debug)]
pub struct BridgeService {
    /// Whether the connector itself listens.
    pub listening: bool,
    /// Whether another process listens in its place.
    pub externally_managed: bool,
    pub last_error: String,
}

impl View for BridgeService {
    type V = BridgeView;

    open spec fn view(&self) -> BridgeView {
        BridgeView {
            listening: self.listening,
            externally_managed: self.externally_managed,
            last_error: self.last_error@,
        }
    }
}

/// The connector never listens where another process does.
pub open spec fn one_listener(bridge: BridgeView) -> bool {
    !(bridge.listening && bridge.externally_managed)
}

/// What has to be done to stop the service.
#[derive(Clone, Copy, Debug, PartialEq, Eq, Structural)]
pub struct StopActions {
    /// Tell the thread that listens to end, wake it up, and wait for it.
    pub end_listener: bool,
    /// Cancel the requests that run.
    pub cancel_requests: bool,
}

/// What came of the attempt to listen.
#[derive(Debug)]
pub enum ListenAttempt {
    /// Something listens on the port already.
    EndpointOpen,
    /// The port could not be had.
    BindFailed(String),
    /// The listener could not be set up.
    SetupFailed(String),
    /// The connector listens.
    Listening,
}

/// The service after an attempt to listen, and what is told of it.
pub open spec fn listened(bridge: BridgeView, attempt: ListenAttempt) -> (BridgeView, Result<
    (),
    Seq<char>,
>) {
    match attempt {
        ListenAttempt::EndpointOpen => (
            BridgeView { externally_managed: true, ..bridge },
            Ok(()),
        ),
        ListenAttempt::BindFailed(error) => (
            bridge,
            Err("Unable to start the connector: "@ + error@),
        ),
        ListenAttempt::SetupFailed(error) => (
            bridge,
            Err("Unable to configure the connector: "@ + error@),
        ),
        ListenAttempt::Listening => (BridgeView { listening: true, ..bridge }, Ok(())),
    }
}

/// The service at rest.
pub open spec fn at_rest() -> BridgeView {
    BridgeView { listening: false, externally_managed: false, last_error: Seq::empty() }
}

/// What has to be done to stop the service, and the service once it is stopped.
pub open spec fn stopped(bridge: BridgeView) -> (BridgeView, StopActions) {
    (
        BridgeView { listening: false, externally_managed: false, last_error: bridge.last_error },
        StopActions {
            end_listener: bridge.listening,
            cancel_requests: !bridge.externally_managed,
        },
    )
}

/// The service once it is known what went wrong when the connector was opened.
pub open spec fn noted(bridge: BridgeView, started: Option<Result<(), Seq<char>>>) -> BridgeView {
    BridgeView {
        last_error: match started {
            Some(Ok(_)) => bridge.last_error,
            Some(Err(error)) => error,
            None => "Codex is not installed."@,
        },
        ..bridge
    }
}

/// Whether the service may be restarted.
pub open spec fn restart_allowed(bridge: BridgeView) -> Result<(), Seq<char>> {
    if bridge.externally_managed {
        Err("Another local bridge owns port 8765. Close it before restarting this connector."@)
    } else {
        Ok(())
    }
}

impl BridgeService {
    /// The service at rest.
    pub fn new() -> (bridge: Self)
        ensures
            bridge@ == at_rest(),
            one_listener(bridge@),
    {
        let last_error = String::new();
        assert(last_error@ =~= Seq::empty());
        BridgeService { listening: false, externally_managed: false, last_error }
    }

    /// Stops the service. Requests are cancelled unless another process
    /// listens.
    pub fn stop(&mut self) -> (actions: StopActions)
        ensures
            actions == (StopActions {
                end_listener: old(self)@.listening,
                cancel_requests: !old(self)@.externally_managed,
            }),
            final(self)@ == (BridgeView {
                listening: false,
                externally_managed: false,
                last_error: old(self)@.last_error,
            }),
            (final(self)@, actions) == stopped(old(self)@),
    {
        let actions = StopActions {
            end_listener: self.listening,
            cancel_requests: !self.externally_managed,
        };
        self.listening = false;
        self.externally_managed = false;
        actions
    }

    /// Makes ready for a new start: the service is stopped, and what went
    /// wrong before is forgotten.
    pub fn prepare_start(&mut self) -> (actions: StopActions)
        ensures
            actions == (StopActions {
                end_listener: old(self)@.listening,
                cancel_requests: !old(self)@.externally_managed,
            }),
            final(self)@ == at_rest(),
            actions == stopped(old(self)@).1,
    {
        let actions = self.stop();
        self.last_error = String::new();
        assert(self.last_error@ =~= Seq::empty());
        actions
    }

    /// Takes note of what came of the attempt to listen, once the service is
    /// ready for a new start. Where something listens already, that is left to
    /// it.
    pub fn start(&mut self, attempt: ListenAttempt) -> (result: Result<(), String>)
        requires
            !old(self)@.listening,
            !old(self)@.externally_managed,
        ensures
            (final(self)@, attempt_view(result)) == listened(old(self)@, attempt),
            one_listener(final(self)@),
    {
        match attempt {
            ListenAttempt::EndpointOpen => {
                self.externally_managed = true;
                Ok(())
            },
            ListenAttempt::BindFailed(error) => Err(
                concat2("Unable to start the connector: ", error.as_str()),
            ),
            ListenAttempt::SetupFailed(error) => Err(
                concat2("Unable to configure the connector: ", error.as_str()),
            ),
            ListenAttempt::Listening => {
                self.listening = true;
                Ok(())
            },
        }
    }

    /// Keeps what went wrong when the connector was opened: that the service
    /// did not start, or that there is no Codex for it.
    pub fn note_startup(&mut self, started: Option<Result<(), String>>)
        ensures
            final(self)@ == (BridgeView {
                last_error: match started {
                    Some(Ok(_)) => old(self)@.last_error,
                    Some(Err(error)) => error@,
                    None => "Codex is not installed."@,
                },
                ..old(self)@
            }),
            final(self)@ == noted(
                old(self)@,
                match started {
                    Some(started) => Some(attempt_view(started)),
                    None => None,
                },
            ),
    {
        match started {
            Some(Ok(_)) => {},
            Some(Err(error)) => {
                self.last_error = error;
            },
            None => {
                self.last_error = "Codex is not installed.".to_string();
            },
        }
    }

    /// Whether the service may be restarted, which it may not where another
    /// process listens.
    pub fn restart_connector(&self) -> (allowed: Result<(), String>)
        ensures
            attempt_view(allowed) == if self@.externally_managed {
                Err(
                    "Another local bridge owns port 8765. Close it before restarting this connector."@,
                )
            } else {
                Ok::<(), Seq<char>>(())
            },
            attempt_view(allowed) == restart_allowed(self@),
    {
        if self.externally_managed {
            Err(
                "Another local bridge owns port 8765. Close it before restarting this connector.".to_string(),
            )
        } else {
            Ok(())
        }
    }
}

/// Whatever comes of a start, the connector never listens where another
/// process does; and a start that fails leaves the service at rest.
pub proof fn start_keeps_one_listener(attempt: ListenAttempt)
    ensures
        one_listener(listened(at_rest(), attempt).0),
        listened(at_rest(), attempt).1 is Err ==> listened(at_rest(), attempt).0 == at_rest(),
{
}

// ---------------------------------------------------------------------------
// Connections
// ---------------------------------------------------------------------------

/// What the listener meets.
#[derive(Clone, Copy, Debug, PartialEq, Eq, Structural)]
pub enum Arrival {
    /// A connection, from this machine or from elsewhere.
    Connection { loopback: bool },
    /// Nobody asks for a connection.
    Nobody,
    /// A connection could not be taken.
    Failed,
}

/// What the listener does next.
#[derive(Clone, Copy, Debug, PartialEq, Eq, Structural)]
pub enum ListenStep {
    /// Serve the connection.
    Serve,
    /// Drop the connection.
    Drop,
    /// Sleep for so many milliseconds.
    Sleep(u64),
    /// End.
    End,
}

/// What the listener does next, once it was or was not told to end.
pub open spec fn next_listen(stopped: bool, arrival: Arrival) -> ListenStep {
    if stopped {
        ListenStep::End
    } else {
        match arrival {
            Arrival::Connection { loopback } => if loopback {
                ListenStep::Serve
            } else {
                ListenStep::Drop
            },
            Arrival::Nobody => ListenStep::Sleep(40),
            Arrival::Failed => ListenStep::Sleep(100),
        }
    }
}

/// What the listener does next with what it meets.
pub fn listen_step(stopped: bool, arrival: Arrival) -> (step: ListenStep)
    ensures
        step == next_listen(stopped, arrival),
{
    if stopped {
        ListenStep::End
    } else {
        match arrival {
            Arrival::Connection { loopback } => if loopback {
                ListenStep::Serve
            } else {
                ListenStep::Drop
            },
            Arrival::Nobody => ListenStep::Sleep(40),
            Arrival::Failed => ListenStep::Sleep(100),
        }
    }
}

/// Only connections from this machine are served.
pub proof fn only_this_machine_is_served(stopped: bool, arrival: Arrival)
    requires
        next_listen(stopped, arrival) == ListenStep::Serve,
    ensures
        arrival == (Arrival::Connection { loopback: true }),
{
}

/// What comes of each attempt to listen, whatever the service was before: it
/// listens itself, it leaves the port to whoever has it, or it tells what went
/// wrong in the words of the machine and stays as it was.
pub proof fn attempts_are_settled(bridge: BridgeView, error: String)
    ensures
        ({
            let (after, told) = listened(bridge, ListenAttempt::Listening);
            &&& after.listening
            &&& after.externally_managed == bridge.externally_managed
            &&& after.last_error == bridge.last_error
            &&& told is Ok
        }),
        ({
            let (after, told) = listened(bridge, ListenAttempt::EndpointOpen);
            &&& after.externally_managed
            &&& after.listening == bridge.listening
            &&& after.last_error == bridge.last_error
            &&& told is Ok
        }),
        listened(bridge, ListenAttempt::BindFailed(error)) == (
            bridge,
            Err::<(), Seq<char>>("Unable to start the connector: "@ + error@),
        ),
        listened(bridge, ListenAttempt::SetupFailed(error)) == (
            bridge,
            Err::<(), Seq<char>>("Unable to configure the connector: "@ + error@),
        ),
        !at_rest().listening && !at_rest().externally_managed,
        at_rest().last_error == Seq::<char>::empty(),
{
}

/// The listener ends once it is told to, whatever it meets, and not before. Until
/// then it serves every connection from this machine, drops every other, and
/// waits a little where there is none and longer where one could not be taken.
pub proof fn listener_goes_on_until_told(arrival: Arrival)
    ensures
        next_listen(true, arrival) == ListenStep::End,
        next_listen(false, arrival) != ListenStep::End,
        next_listen(false, Arrival::Connection { loopback: true }) == ListenStep::Serve,
        next_listen(false, Arrival::Connection { loopback: false }) == ListenStep::Drop,
        next_listen(false, Arrival::Nobody) == ListenStep::Sleep(40),
        next_listen(false, Arrival::Failed) == ListenStep::Sleep(100),
{
}

/// Stopping ends the listener where there is one and cancels the requests unless
/// they are another process's. A service that is stopped is stopped: to stop it
/// once more ends nothing.
pub proof fn stopping_is_settled(bridge: BridgeView)
    ensures
        ({
            let (after, actions) = stopped(bridge);
            &&& actions.end_listener <==> bridge.listening
            &&& actions.cancel_requests <==> !bridge.externally_managed
            &&& !after.listening && !after.externally_managed
            &&& after.last_error == bridge.last_error
            &&& stopped(after).0 == after
            &&& !stopped(after).1.end_listener
        }),
{
}

/// What went wrong at the opening is kept in its own words, whatever they are,
/// and nothing else of the service changes.
pub proof fn startup_is_noted(bridge: BridgeView, error: Seq<char>)
    ensures
        noted(bridge, Some(Ok(()))) == bridge,
        noted(bridge, Some(Err(error))).last_error == error,
        noted(bridge, None).last_error == "Codex is not installed."@,
        noted(bridge, Some(Err(error))).listening == bridge.listening,
        noted(bridge, None).listening == bridge.listening,
        noted(bridge, Some(Err(error))).externally_managed == bridge.externally_managed,
        noted(bridge, None).externally_managed == bridge.externally_managed,
{
}

/// The service may be restarted exactly where no other process listens: after it
/// has found the port open it may not be, and once it is stopped it may be again.
pub proof fn restarts_are_allowed(bridge: BridgeView)
    ensures
        restart_allowed(bridge) is Ok <==> !bridge.externally_managed,
        restart_allowed(listened(bridge, ListenAttempt::EndpointOpen).0) == Err::<(), Seq<char>>(
            "Another local bridge owns port 8765. Close it before restarting this connector."@,
        ),
        restart_allowed(stopped(bridge).0) is Ok,
{
}

} // verus!
