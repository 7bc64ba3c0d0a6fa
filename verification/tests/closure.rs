use quic_messaging::closure::{classify, ClosureReason, ConnectionEnd};

#[test]
fn peer_application_close_keeps_code_and_reason() {
    let end = ConnectionEnd::ApplicationClosed { code: 0, reason: b"done".to_vec() };
    let reason = classify(end);
    assert_eq!(
        reason,
        ClosureReason::PeerClosedApplication { code: 0, reason: b"done".to_vec() }
    );
    assert!(!reason.is_error());
    assert!(reason.is_peer_close());
}

#[test]
fn local_close_is_its_own_class() {
    let reason = classify(ConnectionEnd::LocallyClosed);
    assert_eq!(reason, ClosureReason::LocallyClosed);
    assert!(!reason.is_error());
    assert!(!reason.is_peer_close());
}

#[test]
fn every_other_end_is_a_transport_failure() {
    let ends = vec![
        ConnectionEnd::VersionMismatch,
        ConnectionEnd::TransportError { code: 10, reason: b"bad frame".to_vec() },
        ConnectionEnd::ConnectionClosed { code: 2, reason: b"internal".to_vec() },
        ConnectionEnd::Reset,
        ConnectionEnd::TimedOut,
        ConnectionEnd::CidsExhausted,
    ];
    for end in ends {
        let reason = classify(end.clone());
        assert_eq!(reason, ClosureReason::TransportFailure { cause: end });
        assert!(reason.is_error());
        assert!(!reason.is_peer_close());
    }
}

#[test]
fn clones_are_equal() {
    let end = ConnectionEnd::ApplicationClosed { code: 7, reason: vec![1, 2, 3] };
    assert_eq!(end.clone(), end);
    let reason = classify(end);
    assert_eq!(reason.clone(), reason);
}
