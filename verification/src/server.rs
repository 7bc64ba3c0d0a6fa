//! The server session: binding, the accept loop and the per-connection
//! receive loops, as decisions on what the transport reports.
//!
//! Each accepted connection moves through `Accepted`, `Receiving` and
//! `Closed`. The driver awaits the network and hands every event to the
//! session: an inbound connection attempt to [`ServerHandle::accept`], a
//! datagram or the end of a connection to [`ServerHandle::receive`]. The
//! whole loops over recorded events are [`ServerHandle::accept_connections`]
//! and [`ServerHandle::receive_datagrams`].

use vstd::prelude::*;

use crate::addr::SocketAddress;
use crate::closure::{
    classification, classify, ClosureReason, ClosureReasonView, ConnectionEnd, ConnectionEndView,
};
use crate::codec::decode;
use crate::message::{Message, MessageView};
use crate::quic::{
    bind_server, BindError, ConfigError, Endpoint, EndpointView, Role, SocketError,
    TransportConfig,
};
use crate::wire::{parse_message, DecodeError};

verus! {

/// What a connection's datagram channel yields next.
#[derive(Debug, PartialEq, Eq)]
pub enum DatagramEvent {
    /// The bytes of one inbound datagram.
    Datagram(Vec<u8>),
    /// The connection has ended.
    Closed(ConnectionEnd),
}

/// Mathematical model of a [`DatagramEvent`].
pub enum DatagramEventView {
    Datagram(Seq<u8>),
    Closed(ConnectionEndView),
}

impl View for DatagramEvent {
    type V = DatagramEventView;

    open spec fn view(&self) -> DatagramEventView {
        match *self {
            DatagramEvent::Datagram(bytes) => DatagramEventView::Datagram(bytes@),
            DatagramEvent::Closed(end) => DatagramEventView::Closed(end@),
        }
    }
}

/// What a receive loop does with one event.
#[derive(Debug, PartialEq, Eq)]
pub enum ReceiveStep {
    /// The datagram held this message: it goes to the consumer.
    Deliver(Message),
    /// The datagram held no message: the failure is reported and the loop
    /// goes on with the next datagram.
    Malformed(DecodeError),
    /// The connection has ended: the loop ends with this terminal value.
    Finished(ClosureReason),
}

/// Mathematical model of a [`ReceiveStep`].
pub enum ReceiveStepView {
    Deliver(MessageView),
    Malformed(DecodeError),
    Finished(ClosureReasonView),
}

impl View for ReceiveStep {
    type V = ReceiveStepView;

    open spec fn view(&self) -> ReceiveStepView {
        match *self {
            ReceiveStep::Deliver(m) => ReceiveStepView::Deliver(m@),
            ReceiveStep::Malformed(e) => ReceiveStepView::Malformed(e),
            ReceiveStep::Finished(reason) => ReceiveStepView::Finished(reason@),
        }
    }
}

/// What one event comes to: a datagram is decoded, and the end of the
/// connection is classified.
pub open spec fn receive_step(event: DatagramEventView) -> ReceiveStepView {
    match event {
        DatagramEventView::Datagram(bytes) => match parse_message(bytes) {
            Ok(m) => ReceiveStepView::Deliver(m),
            Err(e) => ReceiveStepView::Malformed(e),
        },
        DatagramEventView::Closed(end) => ReceiveStepView::Finished(classification(end)),
    }
}

/// Decides what a receive loop does with one event.
pub fn receive_datagram(event: &DatagramEvent) -> (step: ReceiveStep)
    ensures
        step@ == receive_step(event@),
{
    match event {
        DatagramEvent::Datagram(bytes) => match decode(bytes.as_slice()) {
            Ok(m) => ReceiveStep::Deliver(m),
            Err(e) => ReceiveStep::Malformed(e),
        },
        DatagramEvent::Closed(end) => ReceiveStep::Finished(classify(end.clone())),
    }
}

/// What a receive loop has done so far.
#[derive(Debug, PartialEq, Eq)]
pub struct ReceiveReport {
    /// The decoded messages, in the order in which their datagrams arrived.
    pub delivered: Vec<Message>,
    /// How many datagrams the loop tried to decode.
    pub attempts: usize,
    /// The terminal value of the connection, once it has ended.
    pub closure: Option<ClosureReason>,
}

/// Mathematical model of a [`ReceiveReport`].
pub struct ReceiveReportView {
    pub delivered: Seq<MessageView>,
    pub attempts: nat,
    pub closure: Option<ClosureReasonView>,
}

impl View for ReceiveReport {
    type V = ReceiveReportView;

    open spec fn view(&self) -> ReceiveReportView {
        ReceiveReportView {
            delivered: Seq::new(self.delivered@.len(), |i: int| self.delivered@[i]@),
            attempts: self.attempts as nat,
            closure: match self.closure {
                Some(reason) => Some(reason@),
                None => None,
            },
        }
    }
}

impl ReceiveReportView {
    /// The report of a loop that has seen nothing yet.
    pub open spec fn start() -> ReceiveReportView {
        ReceiveReportView { delivered: Seq::empty(), attempts: 0, closure: None }
    }

    /// The report after one more event. Once the connection has ended no
    /// event is read any more. Before that, every datagram counts as an
    /// attempt, a decoded one is delivered, and a malformed one changes
    /// nothing else.
    pub open spec fn step(self, event: DatagramEventView) -> ReceiveReportView {
        if self.closure is Some {
            self
        } else {
            match receive_step(event) {
                ReceiveStepView::Deliver(m) => ReceiveReportView {
                    delivered: self.delivered.push(m),
                    attempts: self.attempts + 1,
                    closure: None,
                },
                ReceiveStepView::Malformed(_) => ReceiveReportView {
                    delivered: self.delivered,
                    attempts: self.attempts + 1,
                    closure: None,
                },
                ReceiveStepView::Finished(reason) => ReceiveReportView {
                    delivered: self.delivered,
                    attempts: self.attempts,
                    closure: Some(reason),
                },
            }
        }
    }

    /// Whether the loop ended with an error to report upward. A close by the
    /// peer's application is the normal end.
    pub open spec fn failed(self) -> bool {
        self.closure matches Some(reason) && !(reason is PeerClosedApplication)
    }
}

impl ReceiveReport {
    /// Whether the loop ended with an error to report upward.
    pub fn failed(&self) -> (r: bool)
        ensures
            r == self@.failed(),
    {
        match &self.closure {
            Some(reason) => !reason.is_peer_close(),
            None => false,
        }
    }
}

/// The report of a receive loop over `events`, read in order.
pub open spec fn receive_trace(events: Seq<DatagramEvent>) -> ReceiveReportView
    decreases events.len(),
{
    if events.len() == 0 {
        ReceiveReportView::start()
    } else {
        receive_trace(events.drop_last()).step(events.last()@)
    }
}

/// The state of one accepted connection.
#[derive(Debug, PartialEq, Eq)]
pub enum ConnectionState {
    /// The handshake completed and nothing was received yet.
    Accepted,
    /// At least one datagram was received.
    Receiving,
    /// The connection has ended with this terminal value.
    Closed(ClosureReason),
}

/// Mathematical model of a [`ConnectionState`].
pub enum ConnectionStateView {
    Accepted,
    Receiving,
    Closed(ClosureReasonView),
}

impl View for ConnectionState {
    type V = ConnectionStateView;

    open spec fn view(&self) -> ConnectionStateView {
        match *self {
            ConnectionState::Accepted => ConnectionStateView::Accepted,
            ConnectionState::Receiving => ConnectionStateView::Receiving,
            ConnectionState::Closed(reason) => ConnectionStateView::Closed(reason@),
        }
    }
}

impl ConnectionStateView {
    /// The state after one more event: a closed connection stays as it is,
    /// a datagram makes an open one receiving, and the end of the connection
    /// closes it with the class of the report.
    pub open spec fn step(self, event: DatagramEventView) -> ConnectionStateView {
        match self {
            ConnectionStateView::Closed(_) => self,
            _ => match event {
                DatagramEventView::Datagram(_) => ConnectionStateView::Receiving,
                DatagramEventView::Closed(end) => ConnectionStateView::Closed(classification(end)),
            },
        }
    }
}

/// One entry of the server's connection registry.
#[derive(Debug, PartialEq, Eq)]
pub struct Connection {
    pub remote: SocketAddress,
    pub state: ConnectionState,
}

/// Mathematical model of a [`Connection`].
pub struct ConnectionView {
    pub remote: SocketAddress,
    pub state: ConnectionStateView,
}

impl View for Connection {
    type V = ConnectionView;

    open spec fn view(&self) -> ConnectionView {
        ConnectionView { remote: self.remote, state: self.state@ }
    }
}

/// What the endpoint's accept call yields next.
#[derive(Debug, PartialEq, Eq)]
pub enum AcceptEvent {
    /// An inbound connection completed its handshake.
    Established { remote: SocketAddress },
    /// An inbound connection attempt failed.
    HandshakeFailed(ConnectionEnd),
    /// The endpoint was torn down.
    EndpointClosed,
}

/// Mathematical model of an [`AcceptEvent`].
pub enum AcceptEventView {
    Established { remote: SocketAddress },
    HandshakeFailed(ConnectionEndView),
    EndpointClosed,
}

impl View for AcceptEvent {
    type V = AcceptEventView;

    open spec fn view(&self) -> AcceptEventView {
        match *self {
            AcceptEvent::Established { remote } => AcceptEventView::Established { remote },
            AcceptEvent::HandshakeFailed(end) => AcceptEventView::HandshakeFailed(end@),
            AcceptEvent::EndpointClosed => AcceptEventView::EndpointClosed,
        }
    }
}

/// What the accept loop does with one event.
#[derive(Debug, PartialEq, Eq)]
pub enum AcceptAction {
    /// The connection was registered under this index: its receive loop is
    /// to be started.
    Spawn { connection: usize },
    /// The attempt failed: the failure is reported and the loop goes on.
    Reject(ClosureReason),
    /// The endpoint is gone: the loop ends.
    Stop,
}

/// Mathematical model of an [`AcceptAction`].
pub enum AcceptActionView {
    Spawn { connection: nat },
    Reject(ClosureReasonView),
    Stop,
}

impl View for AcceptAction {
    type V = AcceptActionView;

    open spec fn view(&self) -> AcceptActionView {
        match *self {
            AcceptAction::Spawn { connection } => AcceptActionView::Spawn {
                connection: connection as nat,
            },
            AcceptAction::Reject(reason) => AcceptActionView::Reject(reason@),
            AcceptAction::Stop => AcceptActionView::Stop,
        }
    }
}

/// Mathematical model of a [`ServerHandle`].
pub struct ServerHandleView {
    /// The endpoint the server listens on.
    pub endpoint: EndpointView,
    /// Whether the endpoint still accepts connections.
    pub listening: bool,
    /// The registry: every connection accepted so far, in order.
    pub connections: Seq<ConnectionView>,
}

impl ServerHandleView {
    /// The session after one more event of the accept loop. Only an
    /// established connection adds to the registry, at its end, and nothing
    /// is ever taken from it. Once the endpoint is gone nothing changes.
    pub open spec fn accept(self, event: AcceptEventView) -> ServerHandleView {
        if !self.listening {
            self
        } else {
            match event {
                AcceptEventView::Established { remote } => ServerHandleView {
                    connections: self.connections.push(
                        ConnectionView { remote, state: ConnectionStateView::Accepted },
                    ),
                    ..self
                },
                AcceptEventView::HandshakeFailed(_) => self,
                AcceptEventView::EndpointClosed => ServerHandleView { listening: false, ..self },
            }
        }
    }

    /// The index that the next accepted connection gets.
    pub open spec fn next_index(self) -> nat {
        self.connections.len()
    }

    /// What the accept loop does with `event` in this state.
    pub open spec fn accept_action(self, event: AcceptEventView) -> AcceptActionView {
        if !self.listening {
            AcceptActionView::Stop
        } else {
            match event {
                AcceptEventView::Established { remote } => AcceptActionView::Spawn {
                    connection: self.next_index(),
                },
                AcceptEventView::HandshakeFailed(end) => AcceptActionView::Reject(
                    classification(end),
                ),
                AcceptEventView::EndpointClosed => AcceptActionView::Stop,
            }
        }
    }

    /// The session after the events of an accept loop, read in order.
    pub open spec fn accept_all(self, events: Seq<AcceptEvent>) -> ServerHandleView
        decreases events.len(),
    {
        if events.len() == 0 {
            self
        } else {
            self.accept_all(events.drop_last()).accept(events.last()@)
        }
    }

    /// Whether `actions` is what an accept loop that starts in this state
    /// does with `events`: one action for each event, decided in the state
    /// that the events before it have led to.
    pub open spec fn accept_log(
        self,
        events: Seq<AcceptEvent>,
        actions: Seq<AcceptAction>,
    ) -> bool {
        &&& actions.len() == events.len()
        &&& forall|i: int|
            0 <= i < events.len() ==> (#[trigger] actions[i])@ == self.accept_all(
                events.take(i),
            ).accept_action(events[i]@)
    }

    /// The session after the events of the receive loop of `connection`,
    /// read in order.
    pub open spec fn receive_all(
        self,
        connection: int,
        events: Seq<DatagramEvent>,
    ) -> ServerHandleView
        decreases events.len(),
    {
        if events.len() == 0 {
            self
        } else {
            self.receive_all(connection, events.drop_last()).receive(connection, events.last()@)
        }
    }

    /// Whether `connection` is registered and still open.
    pub open spec fn is_open(self, connection: int) -> bool {
        0 <= connection < self.connections.len() && !(self.connections[connection].state
            is Closed)
    }

    /// The session after one event of the receive loop of `connection`. Only
    /// that connection's entry changes, and only while it is open.
    pub open spec fn receive(self, connection: int, event: DatagramEventView) -> ServerHandleView {
        if self.is_open(connection) {
            ServerHandleView {
                connections: self.connections.update(
                    connection,
                    ConnectionView {
                        remote: self.connections[connection].remote,
                        state: self.connections[connection].state.step(event),
                    },
                ),
                ..self
            }
        } else {
            self
        }
    }
}

/// A bound server endpoint with its connection registry.
#[derive(Debug)]
pub struct ServerHandle {
    endpoint: Endpoint,
    listening: bool,
    connections: Vec<Connection>,
}

impl View for ServerHandle {
    type V = ServerHandleView;

    closed spec fn view(&self) -> ServerHandleView {
        ServerHandleView {
            endpoint: self.endpoint@,
            listening: self.listening,
            connections: Seq::new(self.connections@.len(), |i: int| self.connections@[i]@),
        }
    }
}

/// Where a server listens and the host identity it is known by.
#[derive(Debug, Clone, Copy)]
pub struct ServerBuilder {
    pub server_addr: SocketAddress,
    pub server_name: &'static str,
}

impl ServerBuilder {
    /// A server at `server_addr` that clients authenticate as `server_name`.
    pub fn new(server_addr: SocketAddress, server_name: &'static str) -> (b: ServerBuilder)
        ensures
            b.server_addr == server_addr,
            b.server_name@ == server_name@,
    {
        ServerBuilder { server_addr, server_name }
    }

    /// Concludes the binding of the server endpoint with `config` from what
    /// the socket layer said: the address it bound, or why it bound none. A
    /// bound endpoint gives a listening session with an empty registry; a
    /// failure is fatal and comes back as [`bind_server`] gives it.
    pub fn bind(
        &mut self,
        config: TransportConfig,
        socket: Result<SocketAddress, SocketError>,
    ) -> (r: Result<ServerHandle, BindError>)
        ensures
            *final(self) == *old(self),
            !config@.is_server() ==> r == Err::<ServerHandle, BindError>(
                BindError::Config(ConfigError::Rejected),
            ),
            config@.is_server() ==> match socket {
                Err(e) => r == Err::<ServerHandle, BindError>(BindError::Socket(e)),
                Ok(bound) => r matches Ok(handle) && handle@ == (ServerHandleView {
                    endpoint: EndpointView {
                        role: Role::Server,
                        requested_addr: old(self).server_addr,
                        local_addr: bound,
                        config: config@,
                    },
                    listening: true,
                    connections: Seq::empty(),
                }),
            },
    {
        match bind_server(self.server_addr, config, socket) {
            Err(e) => Err(e),
            Ok(endpoint) => {
                let handle = ServerHandle { endpoint, listening: true, connections: Vec::new() };
                assert(handle@.connections =~= Seq::empty());
                Ok(handle)
            },
        }
    }
}

impl ServerHandle {
    /// The endpoint the server listens on.
    pub fn endpoint(&self) -> (r: &Endpoint)
        ensures
            r@ == self@.endpoint,
    {
        &self.endpoint
    }

    /// Whether the endpoint still accepts connections.
    pub fn is_listening(&self) -> (r: bool)
        ensures
            r == self@.listening,
    {
        self.listening
    }

    /// How many connections were accepted so far.
    pub fn connection_count(&self) -> (r: usize)
        ensures
            r == self@.connections.len(),
    {
        self.connections.len()
    }

    /// The registry entry of `connection`, if it is registered.
    pub fn connection(&self, connection: usize) -> (r: Option<&Connection>)
        ensures
            r is Some <==> connection < self@.connections.len(),
            r matches Some(entry) ==> entry@ == self@.connections[connection as int],
    {
        if connection < self.connections.len() {
            Some(&self.connections[connection])
        } else {
            None
        }
    }

    /// Takes one event of the accept loop: registers an established
    /// connection, passes over a failed attempt, and stops listening when
    /// the endpoint is gone.
    pub fn accept(&mut self, event: &AcceptEvent) -> (action: AcceptAction)
        ensures
            final(self)@ == old(self)@.accept(event@),
            action@ == old(self)@.accept_action(event@),
    {
        if !self.listening {
            return AcceptAction::Stop;
        }
        match event {
            AcceptEvent::Established { remote } => {
                let connection: usize = self.connections.len();
                self.connections.push(
                    Connection { remote: *remote, state: ConnectionState::Accepted },
                );
                assert(self@.connections =~= old(self)@.connections.push(
                    ConnectionView { remote: *remote, state: ConnectionStateView::Accepted },
                ));
                AcceptAction::Spawn { connection }
            },
            AcceptEvent::HandshakeFailed(end) => AcceptAction::Reject(classify(end.clone())),
            AcceptEvent::EndpointClosed => {
                self.listening = false;
                assert(self@.connections =~= old(self)@.connections);
                AcceptAction::Stop
            },
        }
    }

    /// Takes one event of the receive loop of `connection`. An open
    /// connection's entry follows the event, and what the loop does with the
    /// event comes out. An event for a closed or unknown connection is
    /// dropped. No other connection's entry is touched.
    pub fn receive(&mut self, connection: usize, event: &DatagramEvent) -> (r: Option<ReceiveStep>)
        ensures
            final(self)@ == old(self)@.receive(connection as int, event@),
            r is Some <==> old(self)@.is_open(connection as int),
            r matches Some(step) ==> step@ == receive_step(event@),
    {
        if connection >= self.connections.len() {
            return None;
        }
        let closed: bool = match &self.connections[connection].state {
            ConnectionState::Closed(_) => true,
            _ => false,
        };
        if closed {
            return None;
        }
        let step = receive_datagram(event);
        let state = match &step {
            ReceiveStep::Finished(reason) => ConnectionState::Closed(reason.clone()),
            _ => ConnectionState::Receiving,
        };
        let remote = self.connections[connection].remote;
        self.connections.set(connection, Connection { remote, state });
        assert(self@.connections =~= old(self)@.receive(connection as int, event@).connections);
        Some(step)
    }

    /// The accept loop over `events`, read in order: every event is taken as
    /// [`ServerHandle::accept`] takes it, and what the loop did with each
    /// comes out.
    pub fn accept_connections(&mut self, events: &[AcceptEvent]) -> (actions: Vec<AcceptAction>)
        ensures
            final(self)@ == old(self)@.accept_all(events@),
            old(self)@.accept_log(events@, actions@),
    {
        let mut actions: Vec<AcceptAction> = Vec::new();
        let mut i: usize = 0;
        assert(events@.take(0) =~= Seq::empty());
        while i < events.len()
            invariant
                i <= events@.len(),
                self@ == old(self)@.accept_all(events@.take(i as int)),
                actions@.len() == i,
                forall|k: int|
                    0 <= k < i ==> (#[trigger] actions@[k])@ == old(self)@.accept_all(
                        events@.take(k),
                    ).accept_action(events@[k]@),
            decreases events@.len() - i,
        {
            let action = self.accept(&events[i]);
            actions.push(action);
            proof {
                let next = events@.take(i + 1);
                assert(next.drop_last() =~= events@.take(i as int));
                assert(next.last() == events@[i as int]);
            }
            i += 1;
        }
        assert(events@.take(i as int) =~= events@);
        actions
    }

    /// Runs the server over `events`: the accept loop, which registers every
    /// established connection and says for each that its receive loop is to
    /// be started.
    pub fn run(&mut self, events: &[AcceptEvent]) -> (actions: Vec<AcceptAction>)
        ensures
            final(self)@ == old(self)@.accept_all(events@),
            old(self)@.accept_log(events@, actions@),
    {
        self.accept_connections(events)
    }

    /// The receive loop of one connection over `events`, read in order. It
    /// decodes every datagram up to the end of the connection, delivers the
    /// messages, passes over malformed datagrams, and stops at the end of
    /// the connection with its terminal value.
    pub fn receive_datagrams(events: &[DatagramEvent]) -> (report: ReceiveReport)
        ensures
            report@ == receive_trace(events@),
    {
        let mut delivered: Vec<Message> = Vec::new();
        let mut attempts: usize = 0;
        let mut closure: Option<ClosureReason> = None;
        let mut i: usize = 0;
        assert(events@.take(0) =~= Seq::empty());
        assert((ReceiveReport { delivered, attempts, closure })@.delivered =~= Seq::empty());
        while i < events.len() && closure.is_none()
            invariant
                i <= events@.len(),
                attempts <= i,
                (ReceiveReport { delivered, attempts, closure })@ == receive_trace(
                    events@.take(i as int),
                ),
            decreases events@.len() - i,
        {
            let ghost before = (ReceiveReport { delivered, attempts, closure })@;
            match receive_datagram(&events[i]) {
                ReceiveStep::Deliver(m) => {
                    delivered.push(m);
                    attempts += 1;
                },
                ReceiveStep::Malformed(_) => {
                    attempts += 1;
                },
                ReceiveStep::Finished(reason) => {
                    closure = Some(reason);
                },
            }
            proof {
                let next = events@.take(i + 1);
                assert(next.drop_last() =~= events@.take(i as int));
                assert(next.last() == events@[i as int]);
                let after = (ReceiveReport { delivered, attempts, closure })@;
                assert(after.delivered =~= before.step(events@[i as int]@).delivered);
            }
            i += 1;
        }
        proof {
            let seen = events@.take(i as int);
            let rest = events@.skip(i as int);
            assert(seen + rest =~= events@);
            if closure is Some {
                lemma_nothing_is_read_after_the_end(seen, rest);
            } else {
                assert(seen =~= events@);
            }
        }
        ReceiveReport { delivered, attempts, closure }
    }
}

/// Once a connection has ended, its receive loop reads nothing more: events
/// after the end change nothing.
pub proof fn lemma_nothing_is_read_after_the_end(
    seen: Seq<DatagramEvent>,
    later: Seq<DatagramEvent>,
)
    requires
        receive_trace(seen).closure is Some,
    ensures
        receive_trace(seen + later) == receive_trace(seen),
    decreases later.len(),
{
    if later.len() == 0 {
        assert(seen + later =~= seen);
    } else {
        lemma_nothing_is_read_after_the_end(seen, later.drop_last());
        assert((seen + later).drop_last() =~= seen + later.drop_last());
        assert((seen + later).last() == later.last());
    }
}

/// While a connection is open, every datagram is one decode attempt,
/// whatever it holds and in whatever order the datagrams arrive.
pub proof fn lemma_every_datagram_is_attempted(datagrams: Seq<DatagramEvent>)
    requires
        forall|i: int| 0 <= i < datagrams.len() ==> #[trigger] datagrams[i]@ is Datagram,
    ensures
        receive_trace(datagrams).attempts == datagrams.len(),
        receive_trace(datagrams).closure is None,
        receive_trace(datagrams).delivered.len() <= datagrams.len(),
    decreases datagrams.len(),
{
    if datagrams.len() > 0 {
        let front = datagrams.drop_last();
        assert forall|i: int| 0 <= i < front.len() implies #[trigger] front[i]@ is Datagram by {
            assert(front[i] == datagrams[i]);
        }
        lemma_every_datagram_is_attempted(front);
        assert(datagrams.last() == datagrams[datagrams.len() - 1]);
    }
}

/// A receive loop that gets some datagrams and then the peer's application
/// close has tried to decode exactly those datagrams, has delivered what
/// they hold, and ends normally, with the peer's code and reason as its
/// terminal value. Whatever the transport yields afterwards is not read.
pub proof fn lemma_receive_loop_ends_on_peer_close(
    datagrams: Seq<DatagramEvent>,
    close: DatagramEvent,
    later: Seq<DatagramEvent>,
    code: u64,
    reason: Seq<u8>,
)
    requires
        forall|i: int| 0 <= i < datagrams.len() ==> #[trigger] datagrams[i]@ is Datagram,
        close@ == DatagramEventView::Closed(ConnectionEndView::ApplicationClosed { code, reason }),
    ensures
        receive_trace(datagrams.push(close) + later).attempts == datagrams.len(),
        receive_trace(datagrams.push(close) + later).delivered == receive_trace(
            datagrams,
        ).delivered,
        receive_trace(datagrams.push(close) + later).closure == Some(
            ClosureReasonView::PeerClosedApplication { code, reason },
        ),
        !receive_trace(datagrams.push(close) + later).failed(),
{
    lemma_every_datagram_is_attempted(datagrams);
    let seen = datagrams.push(close);
    assert(seen.drop_last() =~= datagrams);
    assert(seen.last() == close);
    lemma_nothing_is_read_after_the_end(seen, later);
}

/// Whether every event of `events` is a datagram.
pub open spec fn only_datagrams(events: Seq<DatagramEvent>) -> bool {
    forall|i: int| 0 <= i < events.len() ==> #[trigger] events[i]@ is Datagram
}

/// What one event adds to the delivered messages while the connection is
/// open: the message of a datagram that holds one, and nothing otherwise.
pub open spec fn yield_of(event: DatagramEventView) -> Seq<MessageView> {
    match receive_step(event) {
        ReceiveStepView::Deliver(m) => seq![m],
        _ => Seq::empty(),
    }
}

/// What a receive loop delivers from one run of datagrams followed by
/// another is what it delivers from the first followed by what it delivers
/// from the second.
pub proof fn lemma_delivery_of_consecutive_runs(
    first: Seq<DatagramEvent>,
    second: Seq<DatagramEvent>,
)
    requires
        only_datagrams(first),
        only_datagrams(second),
    ensures
        only_datagrams(first + second),
        receive_trace(first + second).delivered == receive_trace(first).delivered + receive_trace(
            second,
        ).delivered,
    decreases second.len(),
{
    let both = first + second;
    assert forall|i: int| 0 <= i < both.len() implies #[trigger] both[i]@ is Datagram by {
        if i < first.len() {
            assert(both[i] == first[i]);
        } else {
            assert(both[i] == second[i - first.len()]);
        }
    }
    if second.len() == 0 {
        assert(both =~= first);
        assert(receive_trace(first).delivered + receive_trace(second).delivered
            =~= receive_trace(first).delivered);
    } else {
        let front = second.drop_last();
        assert forall|i: int| 0 <= i < front.len() implies #[trigger] front[i]@ is Datagram by {
            assert(front[i] == second[i]);
        }
        lemma_delivery_of_consecutive_runs(first, front);
        lemma_every_datagram_is_attempted(first + front);
        lemma_every_datagram_is_attempted(front);
        assert(both.drop_last() =~= first + front);
        assert(both.last() == second.last());
        assert(second.last() == second[second.len() - 1]);
        let here = yield_of(second.last()@);
        assert(receive_trace(both).delivered =~= receive_trace(first + front).delivered + here);
        assert(receive_trace(second).delivered =~= receive_trace(front).delivered + here);
        assert(receive_trace(both).delivered =~= receive_trace(first).delivered + receive_trace(
            second,
        ).delivered);
    }
}

/// Taking one datagram out of a run takes out of what is delivered exactly
/// what that datagram adds.
pub proof fn lemma_delivery_without_one_datagram(events: Seq<DatagramEvent>, at: int)
    requires
        only_datagrams(events),
        0 <= at < events.len(),
    ensures
        only_datagrams(events.remove(at)),
        receive_trace(events).delivered.to_multiset() == receive_trace(
            events.remove(at),
        ).delivered.to_multiset().add(yield_of(events[at]@).to_multiset()),
{
    let before = events.take(at);
    let one = seq![events[at]];
    let after = events.skip(at + 1);
    assert(only_datagrams(before));
    assert(only_datagrams(after)) by {
        assert forall|i: int| 0 <= i < after.len() implies #[trigger] after[i]@ is Datagram by {
            assert(after[i] == events[at + 1 + i]);
        }
    }
    assert(only_datagrams(one));
    assert(events =~= before + one + after);
    assert(events.remove(at) =~= before + after);
    lemma_delivery_of_consecutive_runs(before, one);
    lemma_delivery_of_consecutive_runs(before + one, after);
    lemma_delivery_of_consecutive_runs(before, after);
    assert(one.drop_last() =~= Seq::<DatagramEvent>::empty());
    assert(receive_trace(one.drop_last()) == ReceiveReportView::start());
    assert(one.last() == events[at]);
    assert(receive_trace(one).delivered =~= yield_of(events[at]@));
    let b = receive_trace(before).delivered;
    let o = yield_of(events[at]@);
    let a = receive_trace(after).delivered;
    vstd::seq_lib::lemma_multiset_commutative(b + o, a);
    vstd::seq_lib::lemma_multiset_commutative(b, o);
    vstd::seq_lib::lemma_multiset_commutative(b, a);
    assert((b + o + a).to_multiset() =~= (b + a).to_multiset().add(o.to_multiset()));
}

/// The order in which datagrams arrive does not matter to what is delivered:
/// two runs of the same datagrams in different orders deliver the same
/// messages, each as often, and make the same number of attempts.
pub proof fn lemma_delivery_ignores_order(one: Seq<DatagramEvent>, other: Seq<DatagramEvent>)
    requires
        only_datagrams(one),
        only_datagrams(other),
        one.to_multiset() == other.to_multiset(),
    ensures
        receive_trace(one).delivered.to_multiset() == receive_trace(other).delivered.to_multiset(),
        receive_trace(one).attempts == receive_trace(other).attempts,
    decreases one.len(),
{
    one.to_multiset_ensures();
    other.to_multiset_ensures();
    lemma_every_datagram_is_attempted(one);
    lemma_every_datagram_is_attempted(other);
    if one.len() == 0 {
        assert(other.len() == 0);
    } else {
        let last = one.last();
        let at = one.len() - 1;
        assert(one[at] == last);
        assert(one.contains(last));
        assert(one.to_multiset().count(last) > 0);
        assert(other.to_multiset().count(last) > 0);
        assert(other.contains(last));
        let there = choose|j: int| 0 <= j < other.len() && other[j] == last;
        lemma_delivery_without_one_datagram(one, at);
        lemma_delivery_without_one_datagram(other, there);
        assert(one.remove(at).to_multiset() =~= other.remove(there).to_multiset());
        lemma_delivery_ignores_order(one.remove(at), other.remove(there));
    }
}

/// A malformed datagram neither ends a receive loop nor disturbs it: the
/// loop delivers the same messages and ends the same way as if the datagram
/// had never arrived, and has made one more attempt.
pub proof fn lemma_malformed_datagram_is_passed_over(
    before: Seq<DatagramEvent>,
    bad: DatagramEvent,
    after: Seq<DatagramEvent>,
)
    requires
        receive_step(bad@) is Malformed,
        receive_trace(before).closure is None,
    ensures
        receive_trace(before.push(bad) + after).delivered == receive_trace(
            before + after,
        ).delivered,
        receive_trace(before.push(bad) + after).closure == receive_trace(before + after).closure,
        receive_trace(before.push(bad) + after).attempts == receive_trace(before + after).attempts
            + 1,
    decreases after.len(),
{
    let with = before.push(bad) + after;
    let without = before + after;
    if after.len() == 0 {
        assert(with =~= before.push(bad));
        assert(without =~= before);
        assert(with.drop_last() =~= before);
        assert(with.last() == bad);
    } else {
        lemma_malformed_datagram_is_passed_over(before, bad, after.drop_last());
        assert(with.drop_last() =~= before.push(bad) + after.drop_last());
        assert(without.drop_last() =~= before + after.drop_last());
        assert(with.last() == after.last());
        assert(without.last() == after.last());
    }
}

/// Connections progress independently: an event of one connection leaves
/// every other connection's entry as it is, and events of two different
/// connections can be taken in either order.
pub proof fn lemma_connections_are_independent(
    h: ServerHandleView,
    one: int,
    other: int,
    event: DatagramEventView,
    other_event: DatagramEventView,
)
    requires
        one != other,
        0 <= other < h.connections.len(),
    ensures
        h.receive(one, event).connections.len() == h.connections.len(),
        h.receive(one, event).connections[other] == h.connections[other],
        h.receive(one, event).receive(other, other_event) == h.receive(other, other_event).receive(
            one,
            event,
        ),
{
    let left = h.receive(one, event).receive(other, other_event);
    let right = h.receive(other, other_event).receive(one, event);
    assert(left.connections =~= right.connections);
}

/// A connection is closed exactly once: an event for a closed or unknown
/// connection changes nothing, and an open connection that is told of its end
/// is closed with the class of the report.
pub proof fn lemma_closed_connection_is_final(
    h: ServerHandleView,
    connection: int,
    event: DatagramEventView,
    end: ConnectionEndView,
)
    ensures
        !h.is_open(connection) ==> h.receive(connection, event) == h,
        h.is_open(connection) ==> !h.receive(
            connection,
            DatagramEventView::Closed(end),
        ).is_open(connection),
        h.is_open(connection) ==> h.receive(
            connection,
            DatagramEventView::Closed(end),
        ).connections[connection].state == ConnectionStateView::Closed(classification(end)),
{
}

/// The registry follows the receive loop: once the events of a freshly
/// accepted connection have been taken, its entry is closed with the loop's
/// terminal value if the loop has ended, receiving if the loop has tried a
/// datagram, and untouched otherwise.
pub proof fn lemma_registry_follows_receive_loop(
    h: ServerHandleView,
    connection: int,
    events: Seq<DatagramEvent>,
)
    requires
        0 <= connection < h.connections.len(),
        h.connections[connection].state is Accepted,
    ensures
        h.receive_all(connection, events).connections.len() == h.connections.len(),
        h.receive_all(connection, events).connections[connection].state == (match receive_trace(
            events,
        ).closure {
            Some(reason) => ConnectionStateView::Closed(reason),
            None => if receive_trace(events).attempts > 0 {
                ConnectionStateView::Receiving
            } else {
                ConnectionStateView::Accepted
            },
        }),
    decreases events.len(),
{
    if events.len() > 0 {
        lemma_registry_follows_receive_loop(h, connection, events.drop_last());
    }
}

/// Every inbound connection that completes its handshake while the endpoint
/// listens gets a registry entry of its own, open and at the next free
/// index, and its receive loop is started under that index.
pub proof fn lemma_every_established_connection_is_registered(
    h: ServerHandleView,
    events: Seq<AcceptEvent>,
)
    requires
        h.listening,
        forall|i: int| 0 <= i < events.len() ==> #[trigger] events[i]@ is Established,
    ensures
        h.accept_all(events).listening,
        h.accept_all(events).next_index() == h.next_index() + events.len(),
        forall|i: int|
            0 <= i < events.len() ==> h.accept_all(events.take(i)).accept_action(
                #[trigger] events[i]@,
            ) == (AcceptActionView::Spawn { connection: h.next_index() + i as nat }),
        forall|i: int|
            0 <= i < events.len() ==> #[trigger] h.accept_all(events).connections[h.next_index()
                + i] == (ConnectionView {
                remote: events[i]@->remote,
                state: ConnectionStateView::Accepted,
            }),
    decreases events.len(),
{
    if events.len() > 0 {
        let front = events.drop_last();
        assert forall|i: int| 0 <= i < front.len() implies #[trigger] front[i]@ is Established by {
            assert(front[i] == events[i]);
        }
        lemma_every_established_connection_is_registered(h, front);
        assert(events.last() == events[events.len() - 1]);
        let before = h.accept_all(front);
        let after = h.accept_all(events);
        assert forall|i: int| 0 <= i < events.len() implies h.accept_all(
            events.take(i),
        ).accept_action(#[trigger] events[i]@) == (AcceptActionView::Spawn {
            connection: h.next_index() + i as nat,
        }) by {
            if i < front.len() {
                assert(events.take(i) =~= front.take(i));
                assert(front[i] == events[i]);
            } else {
                assert(events.take(i) =~= front);
            }
        }
        assert forall|i: int| 0 <= i < events.len() implies #[trigger] after.connections[h.next_index()
            + i] == (ConnectionView {
            remote: events[i]@->remote,
            state: ConnectionStateView::Accepted,
        }) by {
            if i < front.len() {
                assert(front[i] == events[i]);
                assert(after.connections[h.next_index() + i] == before.connections[h.next_index()
                    + i]);
            }
        }
    } else {
        assert(events.take(0) =~= events);
    }
}

/// The registry is append-only: an accept loop leaves every entry it found
/// in place and unchanged.
pub proof fn lemma_registry_only_grows(h: ServerHandleView, events: Seq<AcceptEvent>)
    ensures
        h.connections.is_prefix_of(h.accept_all(events).connections),
        h.accept_all(events).endpoint == h.endpoint,
    decreases events.len(),
{
    if events.len() > 0 {
        lemma_registry_only_grows(h, events.drop_last());
    }
}

/// Once the endpoint is gone the accept loop accepts nothing more.
pub proof fn lemma_nothing_is_accepted_after_teardown(h: ServerHandleView, events: Seq<AcceptEvent>)
    requires
        !h.listening,
    ensures
        h.accept_all(events) == h,
    decreases events.len(),
{
    if events.len() > 0 {
        lemma_nothing_is_accepted_after_teardown(h, events.drop_last());
    }
}

} // verus!
