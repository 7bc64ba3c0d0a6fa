use quic_messaging::addr::SocketAddress;
use quic_messaging::client::{ClientBuilder, ConnectOutcome};
use quic_messaging::closure::{ClosureReason, ConnectionEnd};
use quic_messaging::message::Message;
use quic_messaging::quic::{bind_client, server_config};
use quic_messaging::server::{
    AcceptAction, AcceptEvent, DatagramEvent, ReceiveStep, ServerBuilder, ServerHandle,
};

#[test]
fn hello_from_client_then_finished_messaging() {
    let mut server = ServerBuilder::new(SocketAddress::localhost(5001), "localhost");
    let server_addr = SocketAddress::localhost(5001);
    let mut session = server.bind(server_config().unwrap(), Ok(server_addr)).unwrap();
    assert_eq!(session.endpoint().local_addr(), server_addr);

    let client_addr = SocketAddress::localhost(5000);
    let endpoint = bind_client(client_addr, Ok(client_addr)).unwrap();
    let limit = endpoint.config().datagram_send_buffer_size;
    let mut client = ClientBuilder::new(client_addr)
        .connect(&server, ConnectOutcome::Established { max_datagram_size: Some(limit) })
        .unwrap();
    assert_eq!(
        session.accept(&AcceptEvent::Established { remote: client_addr }),
        AcceptAction::Spawn { connection: 0 }
    );

    let sent = Message::new(1, String::from("Hello from client"));
    let wire = client.send_unreliable_message(&sent).unwrap();
    let request = client.close_connection(b"Finished Messaging").unwrap();

    assert_eq!(
        session.receive(0, &DatagramEvent::Datagram(wire.clone())),
        Some(ReceiveStep::Deliver(sent.clone()))
    );
    let end = ConnectionEnd::ApplicationClosed { code: request.code, reason: request.reason };
    assert_eq!(
        session.receive(0, &DatagramEvent::Closed(end.clone())),
        Some(ReceiveStep::Finished(ClosureReason::PeerClosedApplication {
            code: 0,
            reason: b"Finished Messaging".to_vec()
        }))
    );

    let report = ServerHandle::receive_datagrams(&[
        DatagramEvent::Datagram(wire),
        DatagramEvent::Closed(end),
    ]);
    assert_eq!(report.delivered, vec![sent]);
    assert_eq!(report.attempts, 1);
    assert_eq!(
        report.closure,
        Some(ClosureReason::PeerClosedApplication {
            code: 0,
            reason: b"Finished Messaging".to_vec()
        })
    );
}
