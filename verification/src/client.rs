//! The client session: connection establishment, sending, closing and the
//! closure observer, as decisions on what the transport reports.
//!
//! A session moves through `Unbound`, `Bound`, `Connecting`, `Connected` and
//! `Closed`. The driver performs the first three steps on the network and
//! reports how far it came; [`ClientBuilder::connect`] turns that report into
//! a [`ClientHandle`] or a [`ConnectError`]. The handle then decides what may
//! be sent, what a close request does, and when the closure observer runs.

use vstd::prelude::*;
use vstd::slice::*;

use crate::addr::SocketAddress;
use crate::closure::{
    classification, classify, ClosureReason, ClosureReasonView, ConnectionEnd, ConnectionEndView,
};
use crate::codec::{encode, EncodeError};
use crate::message::{Message, MessageView};
use crate::quic::BindError;
use crate::server::ServerBuilder;
use crate::wire::message_bytes;

verus! {

/// The application code that a close request of this side carries.
pub const CLOSE_CODE: u64 = 0;

/// The states of a client session, in the order in which it passes through
/// them.
#[derive(Debug, Clone, Copy, PartialEq, Eq, Structural)]
pub enum ClientState {
    /// No endpoint is bound.
    Unbound,
    /// The endpoint is bound and configured.
    Bound,
    /// A connection attempt is under way.
    Connecting,
    /// The handshake completed.
    Connected,
    /// The connection has ended.
    Closed,
}

/// Why the transport refused to start a connection attempt, before any packet
/// was sent.
#[derive(Debug, Clone, Copy, PartialEq, Eq, Structural)]
pub enum ConnectRefusal {
    /// The endpoint can create no more connections.
    EndpointStopping,
    /// No connection identifier was left.
    CidsExhausted,
    /// The server name was malformed.
    InvalidServerName,
    /// The server address was malformed.
    InvalidRemoteAddress,
    /// The endpoint had no client configuration.
    NoDefaultClientConfig,
    /// The endpoint does not speak the configured protocol version.
    UnsupportedVersion,
}

/// What the driver reports after a connection attempt: how far it came.
#[derive(Debug, PartialEq, Eq)]
pub enum ConnectOutcome {
    /// The client endpoint could not be bound or configured.
    BindFailed(BindError),
    /// The endpoint was bound, and the transport refused the attempt.
    Refused(ConnectRefusal),
    /// The attempt was started, and the handshake did not complete.
    HandshakeFailed(ConnectionEnd),
    /// The handshake completed. `max_datagram_size` is the largest datagram
    /// the connection takes, or `None` where it takes none.
    Established { max_datagram_size: Option<usize> },
}

impl ConnectOutcome {
    /// The state in which the attempt ended: a failure to bind leaves the
    /// session unbound, a refused attempt leaves it bound, a failed handshake
    /// closes it, and a completed one connects it.
    pub open spec fn spec_state(&self) -> ClientState {
        match *self {
            ConnectOutcome::BindFailed(_) => ClientState::Unbound,
            ConnectOutcome::Refused(_) => ClientState::Bound,
            ConnectOutcome::HandshakeFailed(_) => ClientState::Closed,
            ConnectOutcome::Established { .. } => ClientState::Connected,
        }
    }

    /// The state in which the attempt ended.
    #[verifier::when_used_as_spec(spec_state)]
    pub fn state(&self) -> (r: ClientState)
        ensures
            r == self.spec_state(),
    {
        match self {
            ConnectOutcome::BindFailed(_) => ClientState::Unbound,
            ConnectOutcome::Refused(_) => ClientState::Bound,
            ConnectOutcome::HandshakeFailed(_) => ClientState::Closed,
            ConnectOutcome::Established { .. } => ClientState::Connected,
        }
    }
}

/// Why no connection was established. The failure is fatal to the attempt;
/// whether to try again is the caller's policy.
#[derive(Debug, PartialEq, Eq)]
pub enum ConnectError {
    /// The client endpoint could not be bound or configured.
    Bind(BindError),
    /// The transport refused the attempt.
    Refused(ConnectRefusal),
    /// The peer was unreachable, or the handshake or the certificate was
    /// rejected.
    Handshake(ClosureReason),
}

/// Why a message was not handed to the transport.
#[derive(Debug, Clone, Copy, PartialEq, Eq, Structural)]
pub enum SendError {
    /// The message could not be encoded.
    Encode(EncodeError),
    /// The connection is closed.
    ConnectionClosed,
    /// The connection takes no datagrams.
    Unsupported,
    /// The encoded message is larger than the connection's datagram size.
    TooLarge,
}

/// The state of the closure observer of a connection.
#[derive(Debug, Clone, Copy, PartialEq, Eq, Structural)]
pub enum Observer {
    /// No observer was registered.
    Absent,
    /// An observer is registered and has not run yet.
    Armed,
    /// The observer has run.
    Fired,
}

/// A request to the transport to close the connection.
#[derive(Debug, PartialEq, Eq)]
pub struct CloseRequest {
    pub code: u64,
    pub reason: Vec<u8>,
}

/// Where the client binds and whether it observes the closure of its
/// connection.
#[derive(Debug, Clone, Copy, PartialEq, Eq, Structural)]
pub struct ClientBuilder {
    pub client_addr: SocketAddress,
    pub error_handler: bool,
}

/// Mathematical model of a [`ClientHandle`].
pub struct ClientHandleView {
    /// The address of the server the connection leads to.
    pub remote: SocketAddress,
    /// The host identity the server was authenticated as.
    pub server_name: Seq<char>,
    /// `None` while the connection is established, and the terminal value
    /// once it is closed.
    pub closure: Option<ClosureReasonView>,
    /// The largest datagram the connection takes, if it takes any.
    pub datagram_limit: Option<usize>,
    /// The state of the closure observer.
    pub observer: Observer,
}

impl ClientHandleView {
    /// Whether the connection is established and not yet closed.
    pub open spec fn is_connected(self) -> bool {
        self.closure is None
    }

    /// The state of the session: connected until the connection has ended.
    pub open spec fn state(self) -> ClientState {
        if self.is_connected() {
            ClientState::Connected
        } else {
            ClientState::Closed
        }
    }

    /// What sending `m` comes to: the bytes to hand to the transport, or the
    /// reason why nothing is sent.
    pub open spec fn send(self, m: MessageView) -> Result<Seq<u8>, SendError> {
        if !self.is_connected() {
            Err(SendError::ConnectionClosed)
        } else if self.datagram_limit is None {
            Err(SendError::Unsupported)
        } else if message_bytes(m).len() > self.datagram_limit->Some_0 {
            Err(SendError::TooLarge)
        } else {
            Ok(message_bytes(m))
        }
    }

    /// The handle after a close request of this side: an established
    /// connection becomes locally closed, a closed one stays as it is.
    pub open spec fn after_close(self) -> ClientHandleView {
        if self.is_connected() {
            ClientHandleView { closure: Some(ClosureReasonView::LocallyClosed), ..self }
        } else {
            self
        }
    }

    /// The handle after the transport reported the end of the connection:
    /// the first closure stands, and an armed observer has run.
    pub open spec fn after_end(self, end: ConnectionEndView) -> ClientHandleView {
        ClientHandleView {
            remote: self.remote,
            server_name: self.server_name,
            closure: if self.is_connected() {
                Some(classification(end))
            } else {
                self.closure
            },
            datagram_limit: self.datagram_limit,
            observer: if self.observer == Observer::Armed {
                Observer::Fired
            } else {
                self.observer
            },
        }
    }

    /// What the observer is called with when the transport reports the end
    /// of the connection: the class of the report if the observer is armed,
    /// and nothing otherwise.
    pub open spec fn notification(self, end: ConnectionEndView) -> Option<ClosureReasonView> {
        if self.observer == Observer::Armed {
            Some(classification(end))
        } else {
            None
        }
    }
}

/// An established client connection.
#[derive(Debug)]
pub struct ClientHandle {
    remote: SocketAddress,
    server_name: &'static str,
    closure: Option<ClosureReason>,
    datagram_limit: Option<usize>,
    observer: Observer,
}

impl View for ClientHandle {
    type V = ClientHandleView;

    closed spec fn view(&self) -> ClientHandleView {
        ClientHandleView {
            remote: self.remote,
            server_name: self.server_name@,
            closure: match self.closure {
                Some(reason) => Some(reason@),
                None => None,
            },
            datagram_limit: self.datagram_limit,
            observer: self.observer,
        }
    }
}

impl ClientBuilder {
    /// A client that binds `client_addr` and observes nothing.
    pub fn new(client_addr: SocketAddress) -> (b: ClientBuilder)
        ensures
            b == (ClientBuilder { client_addr, error_handler: false }),
    {
        ClientBuilder { client_addr, error_handler: false }
    }

    /// Registers a closure observer. The driver keeps the handler itself and
    /// calls it when [`ClientHandle::connection_closed`] says so.
    pub fn set_error_handler(self) -> (b: ClientBuilder)
        ensures
            b == (ClientBuilder { client_addr: self.client_addr, error_handler: true }),
    {
        ClientBuilder { client_addr: self.client_addr, error_handler: true }
    }

    /// Concludes a connection attempt to `server` from what the driver
    /// reports of it. A handle comes out exactly when the handshake
    /// completed; every other report becomes the error of its step.
    pub fn connect(self, server: &ServerBuilder, outcome: ConnectOutcome) -> (r: Result<
        ClientHandle,
        ConnectError,
    >)
        ensures
            r is Ok <==> outcome.state() == ClientState::Connected,
            match outcome {
                ConnectOutcome::BindFailed(e) => r == Err::<ClientHandle, ConnectError>(
                    ConnectError::Bind(e),
                ),
                ConnectOutcome::Refused(e) => r == Err::<ClientHandle, ConnectError>(
                    ConnectError::Refused(e),
                ),
                ConnectOutcome::HandshakeFailed(end) => r matches Err(
                    ConnectError::Handshake(reason),
                ) && reason@ == classification(end@),
                ConnectOutcome::Established { max_datagram_size } => r matches Ok(handle)
                    && handle@ == (ClientHandleView {
                    remote: server.server_addr,
                    server_name: server.server_name@,
                    closure: None,
                    datagram_limit: max_datagram_size,
                    observer: if self.error_handler {
                        Observer::Armed
                    } else {
                        Observer::Absent
                    },
                }),
            },
    {
        match outcome {
            ConnectOutcome::BindFailed(e) => Err(ConnectError::Bind(e)),
            ConnectOutcome::Refused(e) => Err(ConnectError::Refused(e)),
            ConnectOutcome::HandshakeFailed(end) => Err(ConnectError::Handshake(classify(end))),
            ConnectOutcome::Established { max_datagram_size } => Ok(
                ClientHandle {
                    remote: server.server_addr,
                    server_name: server.server_name,
                    closure: None,
                    datagram_limit: max_datagram_size,
                    observer: if self.error_handler {
                        Observer::Armed
                    } else {
                        Observer::Absent
                    },
                },
            ),
        }
    }
}

impl ClientHandle {
    /// Whether the connection is established and not yet closed.
    pub fn is_connected(&self) -> (r: bool)
        ensures
            r == self@.is_connected(),
    {
        self.closure.is_none()
    }

    /// The state of the session: connected until the connection has ended.
    pub fn state(&self) -> (r: ClientState)
        ensures
            r == self@.state(),
    {
        if self.closure.is_none() {
            ClientState::Connected
        } else {
            ClientState::Closed
        }
    }

    /// The address of the server the connection leads to.
    pub fn remote_address(&self) -> (r: SocketAddress)
        ensures
            r == self@.remote,
    {
        self.remote
    }

    /// The host identity the server was authenticated as.
    pub fn server_name(&self) -> (r: &'static str)
        ensures
            r@ == self@.server_name,
    {
        self.server_name
    }

    /// The terminal value of the connection, once it is closed.
    pub fn closure(&self) -> (r: Option<ClosureReason>)
        ensures
            r is Some <==> self@.closure is Some,
            r matches Some(reason) ==> reason@ == self@.closure->Some_0,
    {
        match &self.closure {
            Some(reason) => Some(reason.clone()),
            None => None,
        }
    }

    /// The largest datagram the connection takes, if it takes any.
    pub fn datagram_limit(&self) -> (r: Option<usize>)
        ensures
            r == self@.datagram_limit,
    {
        self.datagram_limit
    }

    /// The state of the closure observer.
    pub fn observer(&self) -> (r: Observer)
        ensures
            r == self@.observer,
    {
        self.observer
    }

    /// Records the datagram size that the transport currently allows; it
    /// changes with the path.
    pub fn set_datagram_limit(&mut self, limit: Option<usize>)
        ensures
            final(self)@ == (ClientHandleView { datagram_limit: limit, ..old(self)@ }),
    {
        self.datagram_limit = limit;
    }

    /// Encodes `message` for the connection's datagram channel. The bytes
    /// come out exactly when the connection is established and the encoding
    /// fits its datagram size; nothing is promised of delivery or order.
    pub fn send_unreliable_message(&self, message: &Message) -> (r: Result<Vec<u8>, SendError>)
        ensures
            match r {
                Ok(bytes) => self@.send(message@) == Ok::<Seq<u8>, SendError>(bytes@),
                Err(e) => self@.send(message@) == Err::<Seq<u8>, SendError>(e),
            },
    {
        let data = match encode(message) {
            Ok(data) => data,
            Err(e) => { return Err(SendError::Encode(e)); },
        };
        if self.closure.is_some() {
            return Err(SendError::ConnectionClosed);
        }
        match self.datagram_limit {
            None => Err(SendError::Unsupported),
            Some(limit) => if data.len() > limit {
                Err(SendError::TooLarge)
            } else {
                Ok(data)
            },
        }
    }

    /// Closes the connection with [`CLOSE_CODE`] and `reason`. On an
    /// established connection the request for the transport comes out and
    /// the connection is locally closed; on a closed one nothing comes out
    /// and nothing changes.
    pub fn close_connection(&mut self, reason: &[u8]) -> (r: Option<CloseRequest>)
        ensures
            final(self)@ == old(self)@.after_close(),
            r is Some <==> old(self)@.is_connected(),
            r matches Some(request) ==> request.code == CLOSE_CODE && request.reason@ == reason@,
    {
        if self.closure.is_some() {
            None
        } else {
            self.closure = Some(ClosureReason::LocallyClosed);
            Some(CloseRequest { code: CLOSE_CODE, reason: slice_to_vec(reason) })
        }
    }

    /// Takes the transport's report that the connection has ended. The first
    /// closure of a connection stands. What comes out is what the observer
    /// is to be called with: the class of the report the first time an
    /// observer is registered, and nothing ever after.
    pub fn connection_closed(&mut self, end: ConnectionEnd) -> (r: Option<ClosureReason>)
        ensures
            final(self)@ == old(self)@.after_end(end@),
            r is Some <==> old(self)@.notification(end@) is Some,
            r matches Some(reason) ==> old(self)@.notification(end@) == Some(reason@),
    {
        let reason = classify(end);
        let notify: bool = match self.observer {
            Observer::Armed => true,
            _ => false,
        };
        if notify {
            self.observer = Observer::Fired;
        }
        if self.closure.is_none() {
            if notify {
                self.closure = Some(reason.clone());
                Some(reason)
            } else {
                self.closure = Some(reason);
                None
            }
        } else if notify {
            Some(reason)
        } else {
            None
        }
    }
}

/// On an established connection a message is sent exactly when its encoding
/// fits the connection's datagram size, and an oversized one is refused.
pub proof fn lemma_send_follows_datagram_size(h: ClientHandleView, m: MessageView, limit: usize)
    requires
        h.is_connected(),
        h.datagram_limit == Some(limit),
    ensures
        message_bytes(m).len() <= limit ==> h.send(m) == Ok::<Seq<u8>, SendError>(
            message_bytes(m),
        ),
        message_bytes(m).len() > limit ==> h.send(m) == Err::<Seq<u8>, SendError>(
            SendError::TooLarge,
        ),
{
}

/// On an established connection every message whose text, with eighteen
/// bytes for its two integers, is within the datagram size is sent.
pub proof fn lemma_short_messages_are_sent(h: ClientHandleView, m: MessageView, limit: usize)
    requires
        h.is_connected(),
        h.datagram_limit == Some(limit),
        vstd::utf8::encode_utf8(m.content).len() + 18 <= limit,
    ensures
        h.send(m) == Ok::<Seq<u8>, SendError>(message_bytes(m)),
{
    crate::wire::lemma_message_length(m);
}

/// Closing is idempotent: a second close request changes nothing, and a
/// closed connection sends nothing.
pub proof fn lemma_close_is_idempotent(h: ClientHandleView, m: MessageView)
    ensures
        !h.after_close().is_connected(),
        h.after_close().after_close() == h.after_close(),
        h.after_close().send(m) == Err::<Seq<u8>, SendError>(SendError::ConnectionClosed),
{
}

/// A connection is closed exactly once: whatever is requested or reported
/// after the first closure leaves the terminal value as it is.
pub proof fn lemma_first_closure_stands(h: ClientHandleView, end: ConnectionEndView)
    requires
        !h.is_connected(),
    ensures
        h.after_close().closure == h.closure,
        h.after_end(end).closure == h.closure,
{
}

/// The observer runs at most once: after one report of the connection's end,
/// no further report calls it.
pub proof fn lemma_observer_runs_once(
    h: ClientHandleView,
    first: ConnectionEndView,
    second: ConnectionEndView,
)
    ensures
        h.after_end(first).observer != Observer::Armed,
        h.after_end(first).notification(second) is None,
        h.observer == Observer::Armed ==> h.notification(first) == Some(classification(first)),
{
}

} // verus!
