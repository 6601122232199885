//! The types and calls of `rustls` and `quinn` behind the configurations.
//!
//! The outside types are opaque here. What the library says of a value of
//! theirs, it says through a named fact: what the value was made with.
use vstd::prelude::*;
use crate::pem::PrivateKey;
#[allow(unused_imports)]
use crate::fragment::contents;
#[allow(unused_imports)]
use crate::pem::KeyDer;

verus! {

#[verifier::external_type_specification]
#[verifier::external_body]
pub struct ExTlsServerConfig(rustls::ServerConfig);

#[verifier::external_type_specification]
#[verifier::external_body]
pub struct ExTlsClientConfig(rustls::ClientConfig);

#[verifier::external_type_specification]
#[verifier::external_body]
pub struct ExRootCertStore(rustls::RootCertStore);

#[verifier::external_type_specification]
#[verifier::external_body]
pub struct ExServerName<'a>(rustls::pki_types::ServerName<'a>);

#[verifier::external_type_specification]
#[verifier::external_body]
pub struct ExTransportConfig(quinn::TransportConfig);

#[verifier::external_type_specification]
#[verifier::external_body]
pub struct ExQuicServerCrypto(quinn::crypto::rustls::QuicServerConfig);

#[verifier::external_type_specification]
#[verifier::external_body]
pub struct ExQuicClientCrypto(quinn::crypto::rustls::QuicClientConfig);

#[verifier::external_type_specification]
#[verifier::external_body]
pub struct ExQuicServerConfig(quinn::ServerConfig);

#[verifier::external_type_specification]
#[verifier::external_body]
pub struct ExQuicClientConfig(quinn::ClientConfig);

/// What a server configuration was made with.
pub struct ServerFacts {
    /// The application protocols it offers.
    pub alpn: Seq<Seq<u8>>,
    /// The certificate chain it presents.
    pub chain: Seq<Seq<u8>>,
    /// The private key of the first certificate.
    pub key: KeyDer,
    /// Whether it asks clients for a certificate.
    pub asks_client: bool,
    /// Whether its crypto provider has the initial cipher suite of QUIC.
    pub quic_suite: bool,
}

/// The facts of a server configuration.
pub uninterp spec fn server_facts(config: rustls::ServerConfig) -> ServerFacts;

/// A trust anchor: whom a root certificate speaks for, with which key, and for
/// which names.
pub struct Anchor {
    pub subject: Seq<u8>,
    pub public_key: Seq<u8>,
    pub name_constraints: Option<Seq<u8>>,
}

/// What a client configuration was made with.
pub struct ClientFacts {
    /// The application protocols it offers.
    pub alpn: Seq<Seq<u8>>,
    /// The anchors it verifies a server against.
    pub roots: Seq<Anchor>,
    /// Whether it presents a certificate of its own.
    pub presents_cert: bool,
    /// Whether its crypto provider has the initial cipher suite of QUIC.
    pub quic_suite: bool,
}

/// The facts of a client configuration.
pub uninterp spec fn client_facts(config: rustls::ClientConfig) -> ClientFacts;

/// The trust anchors in a store, in the order of their adding.
pub uninterp spec fn root_anchors(store: rustls::RootCertStore) -> Seq<Anchor>;

/// The trust anchor that `rustls::RootCertStore::add` makes of a certificate,
/// if it makes one.
pub uninterp spec fn anchor_of(der: Seq<u8>) -> Option<Anchor>;

/// The server name that a text stands for, if it stands for one: a DNS name or
/// an IP address.
pub uninterp spec fn server_name_of(name: Seq<char>) -> Option<
    rustls::pki_types::ServerName<'static>,
>;

/// The limits of a QUIC transport that the tunnel sets.
pub struct TransportFacts {
    /// Streams that the peer may have open at a time.
    pub bidi_streams: nat,
    /// Bytes of datagrams that wait to be read.
    pub datagram_buffer: Option<nat>,
    /// Milliseconds of silence after which a connection ends.
    pub idle_millis: Option<nat>,
    /// Seconds of silence after which a sign of life is sent.
    pub keep_alive_secs: Option<nat>,
}

/// The limits of a transport that nobody configured.
pub open spec fn default_limits() -> TransportFacts {
    TransportFacts {
        bidi_streams: 100,
        datagram_buffer: Some(1_250_000),
        idle_millis: Some(30_000),
        keep_alive_secs: None,
    }
}

/// The limits of a transport configuration.
pub uninterp spec fn transport_facts(config: quinn::TransportConfig) -> TransportFacts;

/// The TLS configuration within the cryptography of a QUIC server.
pub uninterp spec fn server_crypto(crypto: quinn::crypto::rustls::QuicServerConfig) -> ServerFacts;

/// The TLS configuration within the cryptography of a QUIC client.
pub uninterp spec fn client_crypto(crypto: quinn::crypto::rustls::QuicClientConfig) -> ClientFacts;

/// What a QUIC server was made of.
pub struct QuicServerFacts {
    pub tls: ServerFacts,
    pub transport: TransportFacts,
}

/// The facts of a QUIC server configuration.
pub uninterp spec fn quic_server_facts(config: quinn::ServerConfig) -> QuicServerFacts;

/// What a QUIC client was made of.
pub struct QuicClientFacts {
    pub tls: ClientFacts,
    pub transport: TransportFacts,
}

/// The facts of a QUIC client configuration.
pub uninterp spec fn quic_client_facts(config: quinn::ClientConfig) -> QuicClientFacts;

/// Calls `rustls::ServerConfig::builder`, `with_no_client_auth` and
/// `with_single_cert`. A configuration that comes out presents this chain and
/// this key, asks clients for no certificate, and offers no application protocol
/// yet. Whether one comes out is left unsaid: the crypto provider of the process
/// decides whether it can use the key, and whether the key fits the first
/// certificate. There always is a provider, because `rustls` is built with
/// exactly one.
#[verifier::external_body]
pub(crate) fn single_cert(certs: Vec<Vec<u8>>, key: PrivateKey) -> (config: Result<
    rustls::ServerConfig,
    String,
>)
    ensures
        config matches Ok(made) ==> {
            &&& server_facts(made).alpn == Seq::<Seq<u8>>::empty()
            &&& server_facts(made).chain == contents(certs@)
            &&& server_facts(made).key == key@
            &&& !server_facts(made).asks_client
        },
{
    let key_der = match key {
        PrivateKey::Pkcs1(der) => rustls::pki_types::PrivateKeyDer::Pkcs1(der.into()),
        PrivateKey::Pkcs8(der) => rustls::pki_types::PrivateKeyDer::Pkcs8(der.into()),
        PrivateKey::Sec1(der) => rustls::pki_types::PrivateKeyDer::Sec1(der.into()),
    };
    rustls::ServerConfig::builder()
        .with_no_client_auth()
        .with_single_cert(certs.into_iter().map(|der| der.into()).collect(), key_der)
        .map_err(|error| error.to_string())
}

/// Sets the field `alpn_protocols` of a `rustls::ServerConfig`, and nothing else.
#[verifier::external_body]
pub(crate) fn offer_server_alpn(config: &mut rustls::ServerConfig, protocols: Vec<Vec<u8>>)
    ensures
        server_facts(*final(config)) == (ServerFacts {
            alpn: contents(protocols@),
            ..server_facts(*old(config))
        }),
{
    config.alpn_protocols = protocols;
}

/// Calls `rustls::RootCertStore::empty`: the store holds no root.
#[verifier::external_body]
pub(crate) fn no_roots() -> (store: rustls::RootCertStore)
    ensures
        root_anchors(store) == Seq::<Anchor>::empty(),
{
    rustls::RootCertStore::empty()
}

/// Calls `rustls::RootCertStore::add`: a certificate that makes a trust anchor
/// is added last, another one leaves the store as it was. Which certificates
/// make one, and what it holds, is not described here: it is a function of the
/// certificate.
#[verifier::external_body]
pub(crate) fn add_root(store: &mut rustls::RootCertStore, cert: Vec<u8>) -> (added: bool)
    ensures
        added == (anchor_of(cert@) is Some),
        root_anchors(*final(store)) == match anchor_of(cert@) {
            Some(anchor) => root_anchors(*old(store)).push(anchor),
            None => root_anchors(*old(store)),
        },
{
    store.add(cert.into()).is_ok()
}

/// Calls `rustls::ClientConfig::builder`, `with_root_certificates` and
/// `with_no_client_auth`: the client verifies servers against the roots of the
/// store, presents no certificate of its own, and offers no application protocol
/// yet. It has the crypto provider of the process; there always is one, because
/// `rustls` is built with exactly one.
#[verifier::external_body]
pub(crate) fn client_of_roots(store: rustls::RootCertStore) -> (config: rustls::ClientConfig)
    ensures
        client_facts(config).alpn == Seq::<Seq<u8>>::empty(),
        client_facts(config).roots == root_anchors(store),
        !client_facts(config).presents_cert,
{
    rustls::ClientConfig::builder().with_root_certificates(store).with_no_client_auth()
}

/// Sets the field `alpn_protocols` of a `rustls::ClientConfig`, and nothing else.
#[verifier::external_body]
pub(crate) fn offer_client_alpn(config: &mut rustls::ClientConfig, protocols: Vec<Vec<u8>>)
    ensures
        client_facts(*final(config)) == (ClientFacts {
            alpn: contents(protocols@),
            ..client_facts(*old(config))
        }),
{
    config.alpn_protocols = protocols;
}

/// Calls `rustls::pki_types::ServerName::try_from`. The claim is that the name
/// is a function of the text, and that a text without one is always refused in
/// the same words: the grammar of names is not described here.
#[verifier::external_body]
pub(crate) fn parse_server_name(name: &str) -> (parsed: Result<
    rustls::pki_types::ServerName<'static>,
    String,
>)
    ensures
        match parsed {
            Ok(made) => server_name_of(name@) == Some(made),
            Err(cause) => server_name_of(name@) is None && cause@ == "invalid dns name"@,
        },
{
    let parsed = rustls::pki_types::ServerName::try_from(name.to_string());
    parsed.map_err(|error| error.to_string())
}

/// Calls `quinn::TransportConfig::default`, with the limits that `quinn` sets.
#[verifier::external_body]
pub(crate) fn default_transport() -> (config: quinn::TransportConfig)
    ensures
        transport_facts(config) == default_limits(),
{
    quinn::TransportConfig::default()
}

/// Calls `quinn::TransportConfig::max_concurrent_bidi_streams`, which sets this one limit.
#[verifier::external_body]
pub(crate) fn limit_bidi_streams(config: &mut quinn::TransportConfig, streams: u32)
    ensures
        transport_facts(*final(config)) == (TransportFacts {
            bidi_streams: streams as nat,
            ..transport_facts(*old(config))
        }),
{
    config.max_concurrent_bidi_streams(streams.into());
}

/// Calls `quinn::TransportConfig::datagram_receive_buffer_size`, which sets this one limit.
#[verifier::external_body]
pub(crate) fn limit_datagram_buffer(config: &mut quinn::TransportConfig, bytes: usize)
    ensures
        transport_facts(*final(config)) == (TransportFacts {
            datagram_buffer: Some(bytes as nat),
            ..transport_facts(*old(config))
        }),
{
    config.datagram_receive_buffer_size(Some(bytes));
}

/// Calls `quinn::TransportConfig::max_idle_timeout`, which sets this one limit.
#[verifier::external_body]
pub(crate) fn limit_idle_time(config: &mut quinn::TransportConfig, millis: u32)
    ensures
        transport_facts(*final(config)) == (TransportFacts {
            idle_millis: Some(millis as nat),
            ..transport_facts(*old(config))
        }),
{
    config.max_idle_timeout(Some(quinn::VarInt::from_u32(millis).into()));
}

/// Calls `quinn::TransportConfig::keep_alive_interval`, which sets this one limit.
#[verifier::external_body]
pub(crate) fn keep_alive_every(config: &mut quinn::TransportConfig, secs: u64)
    ensures
        transport_facts(*final(config)) == (TransportFacts {
            keep_alive_secs: Some(secs as nat),
            ..transport_facts(*old(config))
        }),
{
    config.keep_alive_interval(Some(std::time::Duration::from_secs(secs)));
}

/// Calls `quinn::crypto::rustls::QuicServerConfig::try_from`, which keeps the
/// TLS configuration. It fails exactly where the crypto provider of that
/// configuration lacks the initial cipher suite of QUIC, always with the same
/// words.
#[verifier::external_body]
pub(crate) fn quic_server_crypto(tls: rustls::ServerConfig) -> (crypto: Result<
    quinn::crypto::rustls::QuicServerConfig,
    String,
>)
    ensures
        match crypto {
            Ok(made) => server_facts(tls).quic_suite && server_crypto(made) == server_facts(tls),
            Err(cause) => !server_facts(tls).quic_suite && cause@ == "no initial cipher suite found"@,
        },
{
    quinn::crypto::rustls::QuicServerConfig::try_from(tls).map_err(|error| error.to_string())
}

/// Calls `quinn::ServerConfig::with_crypto`: the server has this cryptography
/// and the default transport.
#[verifier::external_body]
pub(crate) fn quic_server(crypto: quinn::crypto::rustls::QuicServerConfig) -> (config:
    quinn::ServerConfig)
    ensures
        quic_server_facts(config) == (QuicServerFacts {
            tls: server_crypto(crypto),
            transport: default_limits(),
        }),
{
    quinn::ServerConfig::with_crypto(std::sync::Arc::new(crypto))
}

/// Calls `quinn::ServerConfig::transport_config`, which replaces the transport.
#[verifier::external_body]
pub(crate) fn use_server_transport(
    config: &mut quinn::ServerConfig,
    transport: quinn::TransportConfig,
)
    ensures
        quic_server_facts(*final(config)) == (QuicServerFacts {
            transport: transport_facts(transport),
            ..quic_server_facts(*old(config))
        }),
{
    config.transport_config(std::sync::Arc::new(transport));
}

/// Calls `quinn::crypto::rustls::QuicClientConfig::try_from`, which keeps the
/// TLS configuration. It fails exactly where the crypto provider of that
/// configuration lacks the initial cipher suite of QUIC, always with the same
/// words.
#[verifier::external_body]
pub(crate) fn quic_client_crypto(tls: rustls::ClientConfig) -> (crypto: Result<
    quinn::crypto::rustls::QuicClientConfig,
    String,
>)
    ensures
        match crypto {
            Ok(made) => client_facts(tls).quic_suite && client_crypto(made) == client_facts(tls),
            Err(cause) => !client_facts(tls).quic_suite && cause@ == "no initial cipher suite found"@,
        },
{
    quinn::crypto::rustls::QuicClientConfig::try_from(tls).map_err(|error| error.to_string())
}

/// Calls `quinn::ClientConfig::new`: the client has this cryptography and the
/// default transport.
#[verifier::external_body]
pub(crate) fn quic_client(crypto: quinn::crypto::rustls::QuicClientConfig) -> (config:
    quinn::ClientConfig)
    ensures
        quic_client_facts(config) == (QuicClientFacts {
            tls: client_crypto(crypto),
            transport: default_limits(),
        }),
{
    quinn::ClientConfig::new(std::sync::Arc::new(crypto))
}

/// Calls `quinn::ClientConfig::transport_config`, which replaces the transport.
#[verifier::external_body]
pub(crate) fn use_client_transport(
    config: &mut quinn::ClientConfig,
    transport: quinn::TransportConfig,
)
    ensures
        quic_client_facts(*final(config)) == (QuicClientFacts {
            transport: transport_facts(transport),
            ..quic_client_facts(*old(config))
        }),
{
    config.transport_config(std::sync::Arc::new(transport));
}

} // verus!
