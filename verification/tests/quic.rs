use quic_messaging::addr::{IpAddress, SocketAddress};
use quic_messaging::quic::{
    bind_client, bind_server, client_config, generate_cert, identity_from, server_config,
    server_config_for,
    BindError, ConfigError, Identity, Role, Security, SocketError, TransportConfig,
    CERTIFICATE_HOST, DATAGRAM_BUFFER_SIZE,
};

fn contains(haystack: &[u8], needle: &[u8]) -> bool {
    haystack.windows(needle.len()).any(|w| w == needle)
}

#[test]
fn buffer_size_is_64_kib() {
    assert_eq!(DATAGRAM_BUFFER_SIZE, 65536);
}

#[test]
fn client_config_skips_verification_and_matches_the_server() {
    let config = client_config().unwrap();
    assert_eq!(
        config,
        TransportConfig {
            security: Security::ClientSkipVerification,
            alpn: b"example".to_vec(),
            max_concurrent_uni_streams: None,
            datagram_receive_buffer_size: Some(65536),
            datagram_send_buffer_size: 65536,
        }
    );
    assert!(!config.is_server());
}

#[test]
fn server_config_for_an_identity() {
    let identity = Identity { certificate: vec![1, 2, 3], private_key: vec![4, 5] };
    let config = server_config_for(identity);
    assert_eq!(
        config,
        TransportConfig {
            security: Security::Server {
                certificate: vec![1, 2, 3],
                private_key: vec![4, 5],
                client_auth: false,
            },
            alpn: b"example".to_vec(),
            max_concurrent_uni_streams: Some(0),
            datagram_receive_buffer_size: Some(65536),
            datagram_send_buffer_size: 65536,
        }
    );
    assert!(config.is_server());
}

#[test]
fn generated_certificate_names_the_host() {
    assert_eq!(CERTIFICATE_HOST, "localhost");
    let identity = generate_cert().unwrap();
    assert!(!identity.certificate.is_empty());
    assert!(!identity.private_key.is_empty());
    assert_eq!(identity.certificate[0], 0x30);
    assert_eq!(identity.private_key[0], 0x30);
    assert!(contains(&identity.certificate, b"localhost"));
}

#[test]
fn every_call_generates_a_new_key_pair() {
    let first = generate_cert().unwrap();
    let second = generate_cert().unwrap();
    assert_ne!(first.private_key, second.private_key);
    assert_ne!(first.certificate, second.certificate);
}

#[test]
fn server_config_carries_a_fresh_identity() {
    let config = server_config().unwrap();
    assert!(config.is_server());
    assert_eq!(config.alpn, b"example".to_vec());
    assert_eq!(config.max_concurrent_uni_streams, Some(0));
    assert_eq!(config.datagram_receive_buffer_size, Some(65536));
    assert_eq!(config.datagram_send_buffer_size, 65536);
    match config.security {
        Security::Server { certificate, private_key, client_auth } => {
            assert!(!client_auth);
            assert!(contains(&certificate, b"localhost"));
            assert!(!certificate.is_empty());
            assert!(!private_key.is_empty());
        }
        Security::ClientSkipVerification => panic!("a server presents a certificate"),
    }
}

#[test]
fn bind_server_gives_a_server_endpoint() {
    let addr = SocketAddress::localhost(5001);
    let config = server_config_for(Identity { certificate: vec![1], private_key: vec![2] });
    let endpoint = bind_server(addr, config, Ok(addr)).unwrap();
    assert_eq!(endpoint.role(), Role::Server);
    assert_eq!(endpoint.requested_addr(), addr);
    assert_eq!(endpoint.local_addr(), addr);
    assert_eq!(
        *endpoint.config(),
        server_config_for(Identity { certificate: vec![1], private_key: vec![2] })
    );
}

#[test]
fn bind_server_surfaces_the_socket_error() {
    let addr = SocketAddress::localhost(5001);
    for e in [SocketError::AddressInUse, SocketError::PermissionDenied, SocketError::Other] {
        let config = server_config_for(Identity { certificate: vec![1], private_key: vec![2] });
        assert_eq!(bind_server(addr, config, Err(e)), Err(BindError::Socket(e)));
    }
}

#[test]
fn bind_server_refuses_a_client_config() {
    let addr = SocketAddress::localhost(5001);
    let config = client_config().unwrap();
    assert_eq!(
        bind_server(addr, config, Ok(addr)),
        Err(BindError::Config(ConfigError::Rejected))
    );
    let config = client_config().unwrap();
    assert_eq!(
        bind_server(addr, config, Err(SocketError::AddressInUse)),
        Err(BindError::Config(ConfigError::Rejected))
    );
}

#[test]
fn bind_client_installs_the_client_config() {
    let addr = SocketAddress::new(IpAddress::V4(127, 0, 0, 1), 5000);
    let endpoint = bind_client(addr, Ok(addr)).unwrap();
    assert_eq!(endpoint.role(), Role::Client);
    assert_eq!(endpoint.requested_addr(), addr);
    assert_eq!(endpoint.local_addr(), addr);
    assert_eq!(*endpoint.config(), client_config().unwrap());
}

#[test]
fn bind_client_surfaces_the_socket_error() {
    let addr = SocketAddress::localhost(5000);
    assert_eq!(
        bind_client(addr, Err(SocketError::AddressInUse)),
        Err(BindError::Socket(SocketError::AddressInUse))
    );
}

#[test]
fn localhost_is_the_ipv4_loopback() {
    assert_eq!(
        SocketAddress::localhost(5001),
        SocketAddress { ip: IpAddress::V4(127, 0, 0, 1), port: 5001 }
    );
}

#[test]
fn the_generator_s_answer_becomes_the_identity() {
    assert_eq!(
        identity_from(Some((vec![0x30, 1], vec![0x30, 2]))),
        Ok(Identity { certificate: vec![0x30, 1], private_key: vec![0x30, 2] })
    );
    assert_eq!(identity_from(None), Err(ConfigError::Certificate));
}

#[test]
fn an_endpoint_bound_to_port_zero_has_the_port_the_socket_chose() {
    let asked = SocketAddress::localhost(0);
    let bound = SocketAddress::localhost(49152);
    let config = server_config_for(Identity { certificate: vec![1], private_key: vec![2] });
    let server = bind_server(asked, config, Ok(bound)).unwrap();
    assert_eq!(server.requested_addr(), asked);
    assert_eq!(server.local_addr(), bound);
    let client = bind_client(asked, Ok(bound)).unwrap();
    assert_eq!(client.requested_addr(), asked);
    assert_eq!(client.local_addr(), bound);
}
