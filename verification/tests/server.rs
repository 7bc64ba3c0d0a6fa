use quic_messaging::addr::SocketAddress;
use quic_messaging::closure::{ClosureReason, ConnectionEnd};
use quic_messaging::codec::encode;
use quic_messaging::message::Message;
use quic_messaging::quic::{
    client_config, server_config_for, BindError, ConfigError, Identity, Role, SocketError,
    TransportConfig,
};
use quic_messaging::server::{
    receive_datagram, AcceptAction, AcceptEvent, Connection, ConnectionState, DatagramEvent,
    ReceiveReport, ReceiveStep, ServerBuilder, ServerHandle,
};
use quic_messaging::wire::DecodeError;

fn config() -> TransportConfig {
    server_config_for(Identity { certificate: vec![1, 2], private_key: vec![3, 4] })
}

fn bound() -> ServerHandle {
    ServerBuilder::new(SocketAddress::localhost(5001), "localhost")
        .bind(config(), Ok(SocketAddress::localhost(5001)))
        .unwrap()
}

fn datagram(id: u64, text: &str) -> DatagramEvent {
    DatagramEvent::Datagram(encode(&Message::new(id, String::from(text))).unwrap())
}

fn peer_close(reason: &[u8]) -> DatagramEvent {
    DatagramEvent::Closed(ConnectionEnd::ApplicationClosed { code: 0, reason: reason.to_vec() })
}

#[test]
fn builder_keeps_address_and_name() {
    let builder = ServerBuilder::new(SocketAddress::localhost(5001), "localhost");
    assert_eq!(builder.server_addr, SocketAddress::localhost(5001));
    assert_eq!(builder.server_name, "localhost");
}

#[test]
fn bind_prepares_an_empty_registry() {
    let handle = bound();
    assert!(handle.is_listening());
    assert_eq!(handle.connection_count(), 0);
    assert_eq!(handle.endpoint().role(), Role::Server);
    assert_eq!(handle.endpoint().requested_addr(), SocketAddress::localhost(5001));
    assert_eq!(handle.endpoint().local_addr(), SocketAddress::localhost(5001));
    assert_eq!(*handle.endpoint().config(), config());
}

#[test]
fn a_server_bound_to_port_zero_listens_on_the_port_the_socket_chose() {
    let handle = ServerBuilder::new(SocketAddress::localhost(0), "localhost")
        .bind(config(), Ok(SocketAddress::localhost(50000)))
        .unwrap();
    assert_eq!(handle.endpoint().requested_addr(), SocketAddress::localhost(0));
    assert_eq!(handle.endpoint().local_addr(), SocketAddress::localhost(50000));
    assert!(handle.is_listening());
}

#[test]
fn bind_failure_is_surfaced() {
    let mut builder = ServerBuilder::new(SocketAddress::localhost(5001), "localhost");
    assert_eq!(
        builder.bind(config(), Err(SocketError::AddressInUse)).unwrap_err(),
        BindError::Socket(SocketError::AddressInUse)
    );
    assert_eq!(
        builder.bind(config(), Err(SocketError::PermissionDenied)).unwrap_err(),
        BindError::Socket(SocketError::PermissionDenied)
    );
    assert_eq!(
        builder
            .bind(client_config().unwrap(), Ok(SocketAddress::localhost(5001)))
            .unwrap_err(),
        BindError::Config(ConfigError::Rejected)
    );
    assert_eq!(builder.server_addr, SocketAddress::localhost(5001));
}

#[test]
fn a_datagram_is_decoded_and_delivered() {
    assert_eq!(
        receive_datagram(&datagram(1, "Hello from client")),
        ReceiveStep::Deliver(Message::new(1, String::from("Hello from client")))
    );
}

#[test]
fn a_malformed_datagram_is_reported() {
    assert_eq!(
        receive_datagram(&DatagramEvent::Datagram(vec![1, 5, b'a'])),
        ReceiveStep::Malformed(DecodeError::UnexpectedEnd)
    );
    assert_eq!(
        receive_datagram(&DatagramEvent::Datagram(vec![255])),
        ReceiveStep::Malformed(DecodeError::InvalidDiscriminant)
    );
    assert_eq!(
        receive_datagram(&DatagramEvent::Datagram(vec![1, 1, 0x80])),
        ReceiveStep::Malformed(DecodeError::InvalidUtf8)
    );
}

#[test]
fn the_end_of_a_connection_is_classified() {
    assert_eq!(
        receive_datagram(&peer_close(b"done")),
        ReceiveStep::Finished(ClosureReason::PeerClosedApplication {
            code: 0,
            reason: b"done".to_vec()
        })
    );
    assert_eq!(
        receive_datagram(&DatagramEvent::Closed(ConnectionEnd::TimedOut)),
        ReceiveStep::Finished(ClosureReason::TransportFailure { cause: ConnectionEnd::TimedOut })
    );
}

#[test]
fn three_messages_in_any_order_then_done() {
    let orders: [[u64; 3]; 6] =
        [[1, 2, 3], [1, 3, 2], [2, 1, 3], [2, 3, 1], [3, 1, 2], [3, 2, 1]];
    for order in orders {
        let mut events: Vec<DatagramEvent> =
            order.iter().map(|id| datagram(*id, "payload")).collect();
        events.push(peer_close(b"done"));
        let report = ServerHandle::receive_datagrams(&events);
        assert_eq!(report.attempts, 3);
        let ids: Vec<u64> = report.delivered.iter().map(|m| m.id).collect();
        assert_eq!(ids, order.to_vec());
        assert_eq!(
            report.closure,
            Some(ClosureReason::PeerClosedApplication { code: 0, reason: b"done".to_vec() })
        );
        assert!(!report.failed());
    }
}

#[test]
fn a_malformed_datagram_does_not_stop_the_loop() {
    let events = vec![
        datagram(1, "one"),
        DatagramEvent::Datagram(vec![254, 1, 2]),
        datagram(2, "two"),
        peer_close(b"done"),
    ];
    let report = ServerHandle::receive_datagrams(&events);
    assert_eq!(report.attempts, 3);
    assert_eq!(
        report.delivered,
        vec![Message::new(1, String::from("one")), Message::new(2, String::from("two"))]
    );
    assert_eq!(
        report.closure,
        Some(ClosureReason::PeerClosedApplication { code: 0, reason: b"done".to_vec() })
    );
}

#[test]
fn nothing_is_read_after_the_end() {
    let events = vec![datagram(1, "one"), peer_close(b"done"), datagram(2, "two")];
    let report = ServerHandle::receive_datagrams(&events);
    assert_eq!(report.attempts, 1);
    assert_eq!(report.delivered, vec![Message::new(1, String::from("one"))]);
}

#[test]
fn a_transport_failure_ends_the_loop_with_an_error() {
    let events = vec![datagram(1, "one"), DatagramEvent::Closed(ConnectionEnd::Reset)];
    let report = ServerHandle::receive_datagrams(&events);
    assert_eq!(report.attempts, 1);
    assert!(report.failed());
    let closure = report.closure.unwrap();
    assert_eq!(closure, ClosureReason::TransportFailure { cause: ConnectionEnd::Reset });
    assert!(closure.is_error());
}

#[test]
fn a_local_close_ends_the_loop_with_an_error() {
    let events = vec![DatagramEvent::Closed(ConnectionEnd::LocallyClosed)];
    let report = ServerHandle::receive_datagrams(&events);
    assert_eq!(report.attempts, 0);
    assert_eq!(report.closure, Some(ClosureReason::LocallyClosed));
    assert!(report.failed());
}

#[test]
fn an_open_connection_has_no_closure_yet() {
    let report = ServerHandle::receive_datagrams(&[datagram(1, "one")]);
    assert_eq!(
        report,
        ReceiveReport {
            delivered: vec![Message::new(1, String::from("one"))],
            attempts: 1,
            closure: None
        }
    );
    assert_eq!(
        ServerHandle::receive_datagrams(&[]),
        ReceiveReport { delivered: vec![], attempts: 0, closure: None }
    );
}

#[test]
fn accept_registers_connections_in_order() {
    let mut handle = bound();
    let first = AcceptEvent::Established { remote: SocketAddress::localhost(5000) };
    let second = AcceptEvent::Established { remote: SocketAddress::localhost(6000) };
    assert_eq!(handle.accept(&first), AcceptAction::Spawn { connection: 0 });
    assert_eq!(handle.accept(&second), AcceptAction::Spawn { connection: 1 });
    assert_eq!(handle.connection_count(), 2);
}

#[test]
fn a_failed_handshake_does_not_stop_the_accept_loop() {
    let mut handle = bound();
    let events = vec![
        AcceptEvent::Established { remote: SocketAddress::localhost(5000) },
        AcceptEvent::HandshakeFailed(ConnectionEnd::TimedOut),
        AcceptEvent::Established { remote: SocketAddress::localhost(6000) },
    ];
    let actions = handle.run(&events);
    assert_eq!(
        actions,
        vec![
            AcceptAction::Spawn { connection: 0 },
            AcceptAction::Reject(ClosureReason::TransportFailure {
                cause: ConnectionEnd::TimedOut
            }),
            AcceptAction::Spawn { connection: 1 },
        ]
    );
    assert!(handle.is_listening());
    assert_eq!(handle.connection_count(), 2);
}

#[test]
fn the_accept_loop_ends_when_the_endpoint_is_torn_down() {
    let mut handle = bound();
    let events = vec![
        AcceptEvent::Established { remote: SocketAddress::localhost(5000) },
        AcceptEvent::EndpointClosed,
        AcceptEvent::Established { remote: SocketAddress::localhost(6000) },
    ];
    let actions = handle.accept_connections(&events);
    assert_eq!(
        actions,
        vec![AcceptAction::Spawn { connection: 0 }, AcceptAction::Stop, AcceptAction::Stop]
    );
    assert!(!handle.is_listening());
    assert_eq!(handle.connection_count(), 1);
}

#[test]
fn closing_one_client_does_not_affect_another() {
    let mut handle = bound();
    for port in [5000u16, 5002, 5004] {
        handle.accept(&AcceptEvent::Established { remote: SocketAddress::localhost(port) });
    }
    assert_eq!(
        handle.receive(0, &datagram(1, "from one")),
        Some(ReceiveStep::Deliver(Message::new(1, String::from("from one"))))
    );
    assert_eq!(
        handle.receive(1, &peer_close(b"two is done")),
        Some(ReceiveStep::Finished(ClosureReason::PeerClosedApplication {
            code: 0,
            reason: b"two is done".to_vec()
        }))
    );
    assert_eq!(
        handle.receive(0, &datagram(2, "still one")),
        Some(ReceiveStep::Deliver(Message::new(2, String::from("still one"))))
    );
    assert_eq!(
        handle.receive(2, &datagram(3, "from three")),
        Some(ReceiveStep::Deliver(Message::new(3, String::from("from three"))))
    );
    assert_eq!(handle.receive(1, &datagram(4, "late")), None);
    assert_eq!(handle.connection_count(), 3);
    assert_eq!(
        handle.connection(0),
        Some(&Connection {
            remote: SocketAddress::localhost(5000),
            state: ConnectionState::Receiving
        })
    );
    assert_eq!(
        handle.connection(1),
        Some(&Connection {
            remote: SocketAddress::localhost(5002),
            state: ConnectionState::Closed(ClosureReason::PeerClosedApplication {
                code: 0,
                reason: b"two is done".to_vec()
            })
        })
    );
    assert_eq!(handle.connection(3), None);
}

#[test]
fn a_connection_passes_through_its_states() {
    let mut handle = bound();
    handle.accept(&AcceptEvent::Established { remote: SocketAddress::localhost(5000) });
    assert_eq!(handle.connection(0).unwrap().state, ConnectionState::Accepted);
    handle.receive(0, &DatagramEvent::Datagram(vec![255]));
    assert_eq!(handle.connection(0).unwrap().state, ConnectionState::Receiving);
    handle.receive(0, &DatagramEvent::Closed(ConnectionEnd::TimedOut));
    assert_eq!(
        handle.connection(0).unwrap().state,
        ConnectionState::Closed(ClosureReason::TransportFailure {
            cause: ConnectionEnd::TimedOut
        })
    );
    handle.receive(0, &peer_close(b"late"));
    assert_eq!(
        handle.connection(0).unwrap().state,
        ConnectionState::Closed(ClosureReason::TransportFailure {
            cause: ConnectionEnd::TimedOut
        })
    );
}

#[test]
fn a_failure_of_one_connection_leaves_the_others_open() {
    let mut handle = bound();
    handle.accept(&AcceptEvent::Established { remote: SocketAddress::localhost(5000) });
    handle.accept(&AcceptEvent::Established { remote: SocketAddress::localhost(5002) });
    assert_eq!(
        handle.receive(0, &DatagramEvent::Closed(ConnectionEnd::Reset)),
        Some(ReceiveStep::Finished(ClosureReason::TransportFailure {
            cause: ConnectionEnd::Reset
        }))
    );
    assert_eq!(
        handle.receive(1, &DatagramEvent::Datagram(vec![255])),
        Some(ReceiveStep::Malformed(DecodeError::InvalidDiscriminant))
    );
    assert_eq!(
        handle.receive(1, &datagram(9, "ok")),
        Some(ReceiveStep::Deliver(Message::new(9, String::from("ok"))))
    );
    assert!(handle.is_listening());
}

#[test]
fn an_event_for_an_unknown_connection_is_dropped() {
    let mut handle = bound();
    assert_eq!(handle.receive(0, &datagram(1, "nobody")), None);
    handle.accept(&AcceptEvent::Established { remote: SocketAddress::localhost(5000) });
    assert_eq!(handle.receive(1, &datagram(1, "nobody")), None);
    assert_eq!(handle.receive(usize::MAX, &datagram(1, "nobody")), None);
}

#[test]
fn the_order_of_arrival_does_not_change_what_is_delivered() {
    let orders: [[u64; 4]; 4] = [[1, 2, 2, 3], [3, 2, 1, 2], [2, 2, 3, 1], [2, 1, 3, 2]];
    let mut seen: Vec<Vec<u64>> = Vec::new();
    for order in orders {
        let mut events: Vec<DatagramEvent> =
            order.iter().map(|id| datagram(*id, "payload")).collect();
        events.insert(2, DatagramEvent::Datagram(vec![255]));
        let report = ServerHandle::receive_datagrams(&events);
        assert_eq!(report.attempts, 5);
        let mut ids: Vec<u64> = report.delivered.iter().map(|m| m.id).collect();
        ids.sort();
        seen.push(ids);
    }
    for ids in seen {
        assert_eq!(ids, vec![1, 2, 2, 3]);
    }
}
