//! Classification of a connection's terminal closure.
//!
//! The transport reports how a connection ended as a [`ConnectionEnd`]. The
//! session layer sorts every such report into one of three classes: the peer's
//! application closed the connection, this side closed it, or the transport
//! failed.

use vstd::prelude::*;
use vstd::slice::*;

verus! {

/// How the transport says a connection ended.
#[derive(Debug, PartialEq, Eq)]
pub enum ConnectionEnd {
    /// The peer implements no supported protocol version.
    VersionMismatch,
    /// The peer violated the protocol, as detected on this side.
    TransportError { code: u64, reason: Vec<u8> },
    /// The peer's transport aborted the connection.
    ConnectionClosed { code: u64, reason: Vec<u8> },
    /// The peer's application closed the connection.
    ApplicationClosed { code: u64, reason: Vec<u8> },
    /// The peer lost its state and reset the connection.
    Reset,
    /// Nothing was heard from the peer for the idle timeout.
    TimedOut,
    /// The application on this side closed the connection.
    LocallyClosed,
    /// No connection identifier was left to create the connection with.
    CidsExhausted,
}

/// Mathematical model of a [`ConnectionEnd`].
pub enum ConnectionEndView {
    VersionMismatch,
    TransportError { code: u64, reason: Seq<u8> },
    ConnectionClosed { code: u64, reason: Seq<u8> },
    ApplicationClosed { code: u64, reason: Seq<u8> },
    Reset,
    TimedOut,
    LocallyClosed,
    CidsExhausted,
}

impl View for ConnectionEnd {
    type V = ConnectionEndView;

    open spec fn view(&self) -> ConnectionEndView {
        match *self {
            ConnectionEnd::VersionMismatch => ConnectionEndView::VersionMismatch,
            ConnectionEnd::TransportError { code, reason } => ConnectionEndView::TransportError {
                code,
                reason: reason@,
            },
            ConnectionEnd::ConnectionClosed {
                code,
                reason,
            } => ConnectionEndView::ConnectionClosed { code, reason: reason@ },
            ConnectionEnd::ApplicationClosed {
                code,
                reason,
            } => ConnectionEndView::ApplicationClosed { code, reason: reason@ },
            ConnectionEnd::Reset => ConnectionEndView::Reset,
            ConnectionEnd::TimedOut => ConnectionEndView::TimedOut,
            ConnectionEnd::LocallyClosed => ConnectionEndView::LocallyClosed,
            ConnectionEnd::CidsExhausted => ConnectionEndView::CidsExhausted,
        }
    }
}

impl Clone for ConnectionEnd {
    fn clone(&self) -> (r: ConnectionEnd)
        ensures
            r@ == self@,
    {
        match self {
            ConnectionEnd::VersionMismatch => ConnectionEnd::VersionMismatch,
            ConnectionEnd::TransportError { code, reason } => ConnectionEnd::TransportError {
                code: *code,
                reason: slice_to_vec(reason.as_slice()),
            },
            ConnectionEnd::ConnectionClosed { code, reason } => ConnectionEnd::ConnectionClosed {
                code: *code,
                reason: slice_to_vec(reason.as_slice()),
            },
            ConnectionEnd::ApplicationClosed {
                code,
                reason,
            } => ConnectionEnd::ApplicationClosed {
                code: *code,
                reason: slice_to_vec(reason.as_slice()),
            },
            ConnectionEnd::Reset => ConnectionEnd::Reset,
            ConnectionEnd::TimedOut => ConnectionEnd::TimedOut,
            ConnectionEnd::LocallyClosed => ConnectionEnd::LocallyClosed,
            ConnectionEnd::CidsExhausted => ConnectionEnd::CidsExhausted,
        }
    }
}

/// The terminal value of a closed connection.
#[derive(Debug, PartialEq, Eq)]
pub enum ClosureReason {
    /// The peer's application closed the connection with this code and
    /// reason. This is the expected end of a session, not an error.
    PeerClosedApplication { code: u64, reason: Vec<u8> },
    /// The application on this side closed the connection.
    LocallyClosed,
    /// The transport failed: a timeout, a reset, a protocol violation or the
    /// like. This is an error.
    TransportFailure { cause: ConnectionEnd },
}

/// Mathematical model of a [`ClosureReason`].
pub enum ClosureReasonView {
    PeerClosedApplication { code: u64, reason: Seq<u8> },
    LocallyClosed,
    TransportFailure { cause: ConnectionEndView },
}

impl View for ClosureReason {
    type V = ClosureReasonView;

    open spec fn view(&self) -> ClosureReasonView {
        match *self {
            ClosureReason::PeerClosedApplication {
                code,
                reason,
            } => ClosureReasonView::PeerClosedApplication { code, reason: reason@ },
            ClosureReason::LocallyClosed => ClosureReasonView::LocallyClosed,
            ClosureReason::TransportFailure { cause } => ClosureReasonView::TransportFailure {
                cause: cause@,
            },
        }
    }
}

impl Clone for ClosureReason {
    fn clone(&self) -> (r: ClosureReason)
        ensures
            r@ == self@,
    {
        match self {
            ClosureReason::PeerClosedApplication {
                code,
                reason,
            } => ClosureReason::PeerClosedApplication {
                code: *code,
                reason: slice_to_vec(reason.as_slice()),
            },
            ClosureReason::LocallyClosed => ClosureReason::LocallyClosed,
            ClosureReason::TransportFailure { cause } => ClosureReason::TransportFailure {
                cause: cause.clone(),
            },
        }
    }
}

/// The class of each report: an application close by the peer and a close on
/// this side are classes of their own, and every other report is a transport
/// failure that keeps the report as its cause.
pub open spec fn classification(end: ConnectionEndView) -> ClosureReasonView {
    match end {
        ConnectionEndView::ApplicationClosed {
            code,
            reason,
        } => ClosureReasonView::PeerClosedApplication { code, reason },
        ConnectionEndView::LocallyClosed => ClosureReasonView::LocallyClosed,
        other => ClosureReasonView::TransportFailure { cause: other },
    }
}

impl ClosureReasonView {
    /// A transport failure never has an application close or a local close as
    /// its cause.
    pub open spec fn wf(self) -> bool {
        match self {
            ClosureReasonView::TransportFailure { cause } => {
                !(cause is ApplicationClosed) && !(cause is LocallyClosed)
            },
            _ => true,
        }
    }

    /// Whether the closure is an error to report upward.
    pub open spec fn is_error(self) -> bool {
        self is TransportFailure
    }
}

/// Classifies how a connection ended.
pub fn classify(end: ConnectionEnd) -> (r: ClosureReason)
    ensures
        r@ == classification(end@),
        r@.wf(),
{
    match end {
        ConnectionEnd::ApplicationClosed {
            code,
            reason,
        } => ClosureReason::PeerClosedApplication { code, reason },
        ConnectionEnd::LocallyClosed => ClosureReason::LocallyClosed,
        other => ClosureReason::TransportFailure { cause: other },
    }
}

impl ClosureReason {
    /// Whether the closure is an error to report upward: true of a transport
    /// failure, false of a close by either application.
    pub fn is_error(&self) -> (r: bool)
        ensures
            r == self@.is_error(),
    {
        match self {
            ClosureReason::TransportFailure { .. } => true,
            _ => false,
        }
    }

    /// Whether the peer's application closed the connection.
    pub fn is_peer_close(&self) -> (r: bool)
        ensures
            r == (self@ is PeerClosedApplication),
    {
        match self {
            ClosureReason::PeerClosedApplication { .. } => true,
            _ => false,
        }
    }
}

} // verus!
