//! Transport configuration for the two roles.
//!
//! A [`TransportConfig`] says, in plain values, how an endpoint is to be set
//! up: what it presents or accepts during the handshake, which application
//! protocol it negotiates, and how much room it gives to datagrams. The driver
//! turns it into the transport's own configuration when it binds the socket,
//! and reports what the socket layer said; [`bind_server`] and
//! [`bind_client`] turn that report into an [`Endpoint`] or a [`BindError`].

use vstd::prelude::*;

use crate::addr::SocketAddress;

verus! {

/// Size in bytes of the datagram send and receive buffers of both roles.
pub const DATAGRAM_BUFFER_SIZE: usize = 65536;

/// The host identity that the server's certificate is issued for.
pub const CERTIFICATE_HOST: &'static str = "localhost";

/// The application protocol tag that both roles negotiate: the ASCII bytes of
/// `example`.
pub open spec fn alpn_tag() -> Seq<u8> {
    seq![101u8, 120u8, 97u8, 109u8, 112u8, 108u8, 101u8]
}

/// Why no transport configuration could be made.
#[derive(Debug, Clone, Copy, PartialEq, Eq, Structural)]
pub enum ConfigError {
    /// No certificate and key pair could be generated.
    Certificate,
    /// The transport refused the configuration.
    Rejected,
}

/// Why the socket layer could not bind an endpoint.
#[derive(Debug, Clone, Copy, PartialEq, Eq, Structural)]
pub enum SocketError {
    /// The address is already in use.
    AddressInUse,
    /// The process may not bind the address.
    PermissionDenied,
    /// Any other failure of the socket layer.
    Other,
}

/// Why an endpoint could not be bound. Either failure is fatal to the
/// endpoint and is not retried here.
#[derive(Debug, Clone, Copy, PartialEq, Eq, Structural)]
pub enum BindError {
    /// The transport configuration could not be made or was refused.
    Config(ConfigError),
    /// The address was not available.
    Socket(SocketError),
}

/// A certificate and the private key that belongs to it, both in DER.
#[derive(Debug, PartialEq, Eq)]
pub struct Identity {
    pub certificate: Vec<u8>,
    pub private_key: Vec<u8>,
}

/// What an endpoint presents or accepts during the handshake.
#[derive(Debug, PartialEq, Eq)]
pub enum Security {
    /// A server that presents `certificate` and, where `client_auth` is
    /// false, asks its clients for no certificate.
    Server { certificate: Vec<u8>, private_key: Vec<u8>, client_auth: bool },
    /// A client that accepts whatever certificate the server presents. This
    /// is insecure and meant for closed test deployments only.
    ClientSkipVerification,
}

/// Mathematical model of a [`Security`].
pub enum SecurityView {
    Server { certificate: Seq<u8>, private_key: Seq<u8>, client_auth: bool },
    ClientSkipVerification,
}

impl View for Security {
    type V = SecurityView;

    open spec fn view(&self) -> SecurityView {
        match *self {
            Security::Server { certificate, private_key, client_auth } => SecurityView::Server {
                certificate: certificate@,
                private_key: private_key@,
                client_auth,
            },
            Security::ClientSkipVerification => SecurityView::ClientSkipVerification,
        }
    }
}

/// The configuration bundle of one endpoint. It is built once and not changed
/// afterwards.
#[derive(Debug, PartialEq, Eq)]
pub struct TransportConfig {
    /// What the endpoint presents or accepts during the handshake.
    pub security: Security,
    /// The application protocol tag.
    pub alpn: Vec<u8>,
    /// How many unidirectional streams the peer may open at once; `None`
    /// leaves the transport's default.
    pub max_concurrent_uni_streams: Option<u64>,
    /// Room for incoming datagrams in bytes; `None` turns datagrams off.
    pub datagram_receive_buffer_size: Option<usize>,
    /// Room for outgoing datagrams in bytes.
    pub datagram_send_buffer_size: usize,
}

/// Mathematical model of a [`TransportConfig`].
pub struct TransportConfigView {
    pub security: SecurityView,
    pub alpn: Seq<u8>,
    pub max_concurrent_uni_streams: Option<u64>,
    pub datagram_receive_buffer_size: Option<usize>,
    pub datagram_send_buffer_size: usize,
}

impl View for TransportConfig {
    type V = TransportConfigView;

    open spec fn view(&self) -> TransportConfigView {
        TransportConfigView {
            security: self.security@,
            alpn: self.alpn@,
            max_concurrent_uni_streams: self.max_concurrent_uni_streams,
            datagram_receive_buffer_size: self.datagram_receive_buffer_size,
            datagram_send_buffer_size: self.datagram_send_buffer_size,
        }
    }
}

/// The server's configuration for a given certificate and key: no client
/// certificates, the one protocol tag, no unidirectional streams, and equal
/// datagram buffers in both directions.
pub open spec fn server_settings(
    certificate: Seq<u8>,
    private_key: Seq<u8>,
) -> TransportConfigView {
    TransportConfigView {
        security: SecurityView::Server { certificate, private_key, client_auth: false },
        alpn: alpn_tag(),
        max_concurrent_uni_streams: Some(0u64),
        datagram_receive_buffer_size: Some(DATAGRAM_BUFFER_SIZE),
        datagram_send_buffer_size: DATAGRAM_BUFFER_SIZE,
    }
}

/// The client's configuration: any server certificate is accepted, and the
/// protocol tag and datagram buffers match the server's.
pub open spec fn client_settings() -> TransportConfigView {
    TransportConfigView {
        security: SecurityView::ClientSkipVerification,
        alpn: alpn_tag(),
        max_concurrent_uni_streams: None,
        datagram_receive_buffer_size: Some(DATAGRAM_BUFFER_SIZE),
        datagram_send_buffer_size: DATAGRAM_BUFFER_SIZE,
    }
}

/// Calls `rcgen::generate_simple_self_signed` for the single host name `host`
/// and hands out the certificate and the PKCS#8 private key, both in DER. An
/// error of the generator is folded into `None`. The only host it is called
/// for is [`CERTIFICATE_HOST`].
///
/// Every call draws a new key pair from the system's random source, so
/// nothing is claimed of what the bytes hold.
///
/// Trusted: a certificate and a key that come out are not empty. The
/// certificate is the DER of a sequence, and the key is the PKCS#8 document
/// that the generator made.
#[verifier::external_body]
fn self_signed_certificate(host: &str) -> (r: Option<(Vec<u8>, Vec<u8>)>)
    requires
        host@ == CERTIFICATE_HOST@,
    ensures
        r matches Some((certificate, private_key)) ==> certificate@.len() > 0
            && private_key@.len() > 0,
{
    match rcgen::generate_simple_self_signed(vec![host.to_string()]) {
        Ok(issued) => Some((issued.cert.der().to_vec(), issued.signing_key.serialize_der())),
        Err(_) => None,
    }
}

/// The bytes of the protocol tag.
fn alpn_bytes() -> (tag: Vec<u8>)
    ensures
        tag@ == alpn_tag(),
{
    let tag: Vec<u8> = vec![101u8, 120u8, 97u8, 109u8, 112u8, 108u8, 101u8];
    assert(tag@ =~= alpn_tag());
    tag
}

/// Generates a fresh self-signed certificate and key for
/// [`CERTIFICATE_HOST`]. Nothing is cached: every call makes a new pair.
/// Whether a pair can be made is up to the generator; one that comes out is
/// not empty, and the only failure is a configuration error.
pub fn generate_cert() -> (r: Result<Identity, ConfigError>)
    ensures
        r is Err ==> r == Err::<Identity, ConfigError>(ConfigError::Certificate),
        r matches Ok(identity) ==> identity.certificate@.len() > 0
            && identity.private_key@.len() > 0,
{
    identity_from(self_signed_certificate(CERTIFICATE_HOST))
}

/// What becomes of the generator's answer: a certificate and key it handed
/// out are the identity, unchanged, and where it handed out nothing the
/// failure is a configuration error.
pub fn identity_from(generated: Option<(Vec<u8>, Vec<u8>)>) -> (r: Result<Identity, ConfigError>)
    ensures
        match generated {
            Some((certificate, private_key)) => r matches Ok(identity) && identity.certificate@
                == certificate@ && identity.private_key@ == private_key@,
            None => r == Err::<Identity, ConfigError>(ConfigError::Certificate),
        },
{
    match generated {
        Some((certificate, private_key)) => Ok(Identity { certificate, private_key }),
        None => Err(ConfigError::Certificate),
    }
}

/// The server's configuration around a given identity.
pub fn server_config_for(identity: Identity) -> (config: TransportConfig)
    ensures
        config@ == server_settings(identity.certificate@, identity.private_key@),
{
    TransportConfig {
        security: Security::Server {
            certificate: identity.certificate,
            private_key: identity.private_key,
            client_auth: false,
        },
        alpn: alpn_bytes(),
        max_concurrent_uni_streams: Some(0),
        datagram_receive_buffer_size: Some(DATAGRAM_BUFFER_SIZE),
        datagram_send_buffer_size: DATAGRAM_BUFFER_SIZE,
    }
}

/// Builds the server's configuration around a freshly generated identity:
/// the server's settings with a certificate and a key that are not empty.
/// It fails only when no certificate can be generated.
pub fn server_config() -> (r: Result<TransportConfig, ConfigError>)
    ensures
        match r {
            Ok(config) => {
                &&& config@.security is Server
                &&& config@ == server_settings(
                    config@.security->certificate,
                    config@.security->private_key,
                )
                &&& config@.security->certificate.len() > 0
                &&& config@.security->private_key.len() > 0
            },
            Err(e) => e == ConfigError::Certificate,
        },
{
    match generate_cert() {
        Ok(identity) => Ok(server_config_for(identity)),
        Err(e) => Err(e),
    }
}

/// Builds the client's configuration. It never fails.
pub fn client_config() -> (r: Result<TransportConfig, ConfigError>)
    ensures
        r is Ok,
        r->Ok_0@ == client_settings(),
{
    Ok(
        TransportConfig {
            security: Security::ClientSkipVerification,
            alpn: alpn_bytes(),
            max_concurrent_uni_streams: None,
            datagram_receive_buffer_size: Some(DATAGRAM_BUFFER_SIZE),
            datagram_send_buffer_size: DATAGRAM_BUFFER_SIZE,
        },
    )
}

impl TransportConfigView {
    /// Whether the configuration is one of a server.
    pub open spec fn is_server(self) -> bool {
        self.security is Server
    }
}

impl TransportConfig {
    /// Whether the configuration is one of a server.
    pub fn is_server(&self) -> (r: bool)
        ensures
            r == self@.is_server(),
    {
        match &self.security {
            Security::Server { .. } => true,
            Security::ClientSkipVerification => false,
        }
    }
}

/// The role of an endpoint.
#[derive(Debug, Clone, Copy, PartialEq, Eq, Structural)]
pub enum Role {
    Client,
    Server,
}

/// Mathematical model of an [`Endpoint`].
pub struct EndpointView {
    pub role: Role,
    /// The address that was asked for.
    pub requested_addr: SocketAddress,
    /// The address the socket is bound to. Where port 0 was asked for, the
    /// socket layer has chosen the port.
    pub local_addr: SocketAddress,
    pub config: TransportConfigView,
}

/// A bound transport endpoint: its role, the address that was asked for, the
/// address it is bound to, and the configuration it was bound with. The
/// configuration is given when the endpoint is made and is never changed
/// afterwards.
#[derive(Debug, PartialEq, Eq)]
pub struct Endpoint {
    role: Role,
    requested_addr: SocketAddress,
    local_addr: SocketAddress,
    config: TransportConfig,
}

impl View for Endpoint {
    type V = EndpointView;

    closed spec fn view(&self) -> EndpointView {
        EndpointView {
            role: self.role,
            requested_addr: self.requested_addr,
            local_addr: self.local_addr,
            config: self.config@,
        }
    }
}

impl Endpoint {
    /// The role of the endpoint.
    pub fn role(&self) -> (r: Role)
        ensures
            r == self@.role,
    {
        self.role
    }

    /// The address that was asked for.
    pub fn requested_addr(&self) -> (r: SocketAddress)
        ensures
            r == self@.requested_addr,
    {
        self.requested_addr
    }

    /// The address the endpoint is bound to.
    pub fn local_addr(&self) -> (r: SocketAddress)
        ensures
            r == self@.local_addr,
    {
        self.local_addr
    }

    /// The configuration the endpoint was bound with.
    pub fn config(&self) -> (r: &TransportConfig)
        ensures
            r@ == self@.config,
    {
        &self.config
    }
}

/// Concludes the binding of a server endpoint at `addr` with `config` from
/// what the socket layer said: the address it bound, or why it bound none.
/// A configuration that is not a server's is refused before the socket's
/// answer is looked at.
pub fn bind_server(
    addr: SocketAddress,
    config: TransportConfig,
    socket: Result<SocketAddress, SocketError>,
) -> (r: Result<Endpoint, BindError>)
    ensures
        !config@.is_server() ==> r == Err::<Endpoint, BindError>(
            BindError::Config(ConfigError::Rejected),
        ),
        config@.is_server() ==> match socket {
            Err(e) => r == Err::<Endpoint, BindError>(BindError::Socket(e)),
            Ok(bound) => r matches Ok(endpoint) && endpoint@ == (EndpointView {
                role: Role::Server,
                requested_addr: addr,
                local_addr: bound,
                config: config@,
            }),
        },
{
    if !config.is_server() {
        return Err(BindError::Config(ConfigError::Rejected));
    }
    match socket {
        Err(e) => Err(BindError::Socket(e)),
        Ok(bound) => Ok(
            Endpoint { role: Role::Server, requested_addr: addr, local_addr: bound, config },
        ),
    }
}

/// Concludes the binding of a client endpoint at `addr` from what the socket
/// layer said: the address it bound, or why it bound none. A bound endpoint
/// has the client's configuration installed as the one its connection
/// attempts use.
pub fn bind_client(
    addr: SocketAddress,
    socket: Result<SocketAddress, SocketError>,
) -> (r: Result<Endpoint, BindError>)
    ensures
        match socket {
            Err(e) => r == Err::<Endpoint, BindError>(BindError::Socket(e)),
            Ok(bound) => r matches Ok(endpoint) && endpoint@ == (EndpointView {
                role: Role::Client,
                requested_addr: addr,
                local_addr: bound,
                config: client_settings(),
            }),
        },
{
    match socket {
        Err(e) => Err(BindError::Socket(e)),
        Ok(bound) => match client_config() {
            Ok(config) => Ok(
                Endpoint { role: Role::Client, requested_addr: addr, local_addr: bound, config },
            ),
            Err(e) => Err(BindError::Config(e)),
        },
    }
}

} // verus!
