//! Certificates, keys, and the TLS and QUIC configurations made of them.
use vstd::prelude::*;
use crate::pem::{read_certs, read_section, PemItem, PrivateKey};
use crate::text::join2;
use crate::tls_items::{
    add_root, client_of_roots, default_transport, keep_alive_every, limit_bidi_streams,
    limit_datagram_buffer, limit_idle_time, no_roots, offer_client_alpn, offer_server_alpn,
    parse_server_name, quic_client, quic_client_crypto, quic_server, quic_server_crypto,
    single_cert, use_client_transport, use_server_transport,
};
#[allow(unused_imports)]
use crate::fragment::contents;
#[allow(unused_imports)]
use crate::pem::{
    certificate_list, pem_certs, pem_read_one, section_read, KeyDer, PemSection,
};
#[allow(unused_imports)]
use crate::tls_items::{
    anchor_of, client_facts, quic_client_facts, quic_server_facts, root_anchors, server_facts,
    server_name_of, transport_facts, Anchor, ClientFacts, QuicClientFacts, QuicServerFacts,
    ServerFacts, TransportFacts,
};

verus! {

/// Why TLS or QUIC cannot be set up.
#[derive(Debug)]
pub enum TlsError {
    /// The certificate file could not be opened.
    CertUnopened { path: String, cause: String },
    /// The certificate file holds no certificate.
    NoCertificates { path: String },
    /// The key file could not be opened.
    KeyUnopened { path: String, cause: String },
    /// The key file holds malformed PEM text.
    KeyUnreadable { path: String, cause: String },
    /// The key file holds no private key.
    NoPrivateKey { path: String },
    /// Certificate and key do not make a server.
    BadIdentity { cause: String },
    /// The TLS configuration of a server does not serve for QUIC.
    QuicServer { cause: String },
    /// The TLS configuration of a client does not serve for QUIC.
    QuicClient { cause: String },
    /// The server name is neither a DNS name nor an IP address.
    InvalidServerName { cause: String },
}

/// What a `TlsError` says.
pub enum TlsFault {
    CertUnopened { path: Seq<char>, cause: Seq<char> },
    NoCertificates { path: Seq<char> },
    KeyUnopened { path: Seq<char>, cause: Seq<char> },
    KeyUnreadable { path: Seq<char>, cause: Seq<char> },
    NoPrivateKey { path: Seq<char> },
    BadIdentity { cause: Seq<char> },
    QuicServer { cause: Seq<char> },
    QuicClient { cause: Seq<char> },
    InvalidServerName { cause: Seq<char> },
}

impl View for TlsError {
    type V = TlsFault;

    open spec fn view(&self) -> TlsFault {
        match *self {
            TlsError::CertUnopened { path, cause } => TlsFault::CertUnopened {
                path: path@,
                cause: cause@,
            },
            TlsError::NoCertificates { path } => TlsFault::NoCertificates { path: path@ },
            TlsError::KeyUnopened { path, cause } => TlsFault::KeyUnopened {
                path: path@,
                cause: cause@,
            },
            TlsError::KeyUnreadable { path, cause } => TlsFault::KeyUnreadable {
                path: path@,
                cause: cause@,
            },
            TlsError::NoPrivateKey { path } => TlsFault::NoPrivateKey { path: path@ },
            TlsError::BadIdentity { cause } => TlsFault::BadIdentity { cause: cause@ },
            TlsError::QuicServer { cause } => TlsFault::QuicServer { cause: cause@ },
            TlsError::QuicClient { cause } => TlsFault::QuicClient { cause: cause@ },
            TlsError::InvalidServerName { cause } => TlsFault::InvalidServerName { cause: cause@ },
        }
    }
}

impl TlsFault {
    /// The words for the fault.
    pub open spec fn words(self) -> Seq<char> {
        match self {
            TlsFault::CertUnopened { path, .. } => "failed to open cert file: "@ + path,
            TlsFault::NoCertificates { path } => "no certificates found in "@ + path,
            TlsFault::KeyUnopened { path, .. } => "failed to open key file: "@ + path,
            TlsFault::KeyUnreadable { path, .. } => "failed to read key from "@ + path,
            TlsFault::NoPrivateKey { path } => "no private key found in "@ + path,
            TlsFault::BadIdentity { .. } => "failed to build TLS server config"@,
            TlsFault::QuicServer { cause } => "failed to create QUIC server crypto config: "@
                + cause,
            TlsFault::QuicClient { cause } => "failed to create QUIC client crypto config: "@
                + cause,
            TlsFault::InvalidServerName { .. } => "invalid SNI"@,
        }
    }
}

impl TlsError {
    /// Says what is wrong.
    pub fn message(&self) -> (message: String)
        ensures
            message@ == self@.words(),
    {
        match self {
            TlsError::CertUnopened { path, .. } => join2(
                "failed to open cert file: ",
                path.as_str(),
            ),
            TlsError::NoCertificates { path } => join2("no certificates found in ", path.as_str()),
            TlsError::KeyUnopened { path, .. } => join2("failed to open key file: ", path.as_str()),
            TlsError::KeyUnreadable { path, .. } => join2(
                "failed to read key from ",
                path.as_str(),
            ),
            TlsError::NoPrivateKey { path } => join2("no private key found in ", path.as_str()),
            TlsError::BadIdentity { .. } => "failed to build TLS server config".to_owned(),
            TlsError::QuicServer { cause } => join2(
                "failed to create QUIC server crypto config: ",
                cause.as_str(),
            ),
            TlsError::QuicClient { cause } => join2(
                "failed to create QUIC client crypto config: ",
                cause.as_str(),
            ),
            TlsError::InvalidServerName { .. } => "invalid SNI".to_owned(),
        }
    }
}

/// The certificates among what was found: those that could be read, in order.
pub open spec fn readable(found: Seq<Option<Seq<u8>>>) -> Seq<Seq<u8>> {
    found.filter_map(|cert: Option<Seq<u8>>| cert)
}

/// Keeps the certificates that could be read. There has to be at least one.
pub fn keep_certs(path: &str, found: Vec<Option<Vec<u8>>>) -> (certs: Result<
    Vec<Vec<u8>>,
    TlsError,
>)
    ensures
        ({
            let kept = readable(certificate_list(found@));
            if kept.len() > 0 {
                certs is Ok && contents(certs->Ok_0@) == kept
            } else {
                certs is Err && certs->Err_0@ == (TlsFault::NoCertificates { path: path@ })
            }
        }),
{
    let ghost all = certificate_list(found@);
    let mut certs: Vec<Vec<u8>> = Vec::new();
    let mut i: usize = 0;
    assert(all.take(0) =~= seq![]);
    assert(contents(certs@) =~= readable(all.take(0)));
    while i < found.len()
        invariant
            i <= found@.len(),
            all == certificate_list(found@),
            contents(certs@) == readable(all.take(i as int)),
        decreases found@.len() - i,
    {
        let ghost before = certs@;
        assert(all.take(i + 1).drop_last() =~= all.take(i as int));
        if let Some(der) = &found[i] {
            let mut cert: Vec<u8> = Vec::new();
            cert.extend_from_slice(der.as_slice());
            assert(cert@ =~= der@);
            certs.push(cert);
            assert(contents(certs@) =~= contents(before).push(der@));
            assert(all[i as int] == Some(der@));
        }
        assert(contents(certs@) =~= readable(all.take(i + 1)));
        i = i + 1;
    }
    assert(all.take(i as int) =~= all);
    if certs.len() == 0 {
        Err(TlsError::NoCertificates { path: path.to_owned() })
    } else {
        Ok(certs)
    }
}

/// Takes the certificate chain out of the text of the file at `path`, given
/// what opening the file came to.
pub fn load_certs(path: &str, file: &Result<Vec<u8>, String>) -> (certs: Result<
    Vec<Vec<u8>>,
    TlsError,
>)
    ensures
        match *file {
            Err(cause) => certs is Err && certs->Err_0@ == (TlsFault::CertUnopened {
                path: path@,
                cause: cause@,
            }),
            Ok(pem) => {
                let kept = readable(pem_certs(pem@));
                if kept.len() > 0 {
                    certs is Ok && contents(certs->Ok_0@) == kept
                } else {
                    certs is Err && certs->Err_0@ == (TlsFault::NoCertificates { path: path@ })
                }
            },
        },
{
    match file {
        Err(cause) => Err(
            TlsError::CertUnopened { path: path.to_owned(), cause: cause.clone() },
        ),
        Ok(pem) => keep_certs(path, read_certs(pem.as_slice())),
    }
}

/// What a section means to the search for a key.
#[derive(Debug)]
pub enum KeyStep {
    /// The search is over: this is the key.
    Found(PrivateKey),
    /// The search is over: the text is malformed.
    Malformed(String),
    /// The search is over: there is no key.
    Nothing,
    /// The search goes on after this section.
    Next,
}

/// Judges one section: the first key of any encoding ends the search.
pub fn judge_section(read: Result<Option<PemItem>, String>) -> (step: KeyStep)
    ensures
        match read {
            Ok(Some(PemItem::Key(key))) => step == KeyStep::Found(key),
            Ok(Some(PemItem::Other)) => step == KeyStep::Next,
            Ok(None) => step == KeyStep::Nothing,
            Err(cause) => step == KeyStep::Malformed(cause),
        },
{
    match read {
        Ok(Some(PemItem::Key(key))) => KeyStep::Found(key),
        Ok(Some(PemItem::Other)) => KeyStep::Next,
        Ok(None) => KeyStep::Nothing,
        Err(cause) => KeyStep::Malformed(cause),
    }
}

/// How the search for a private key in a PEM text ends.
pub enum KeySearch {
    Found(KeyDer),
    Malformed(Seq<char>),
    Nothing,
}

/// The first key in the text, or the first error if that comes before it.
pub open spec fn first_key(pem: Seq<u8>) -> KeySearch
    decreases pem.len(),
{
    let (read, rest) = pem_read_one(pem);
    match read {
        Ok(Some(PemSection::Key(key))) => KeySearch::Found(key),
        Ok(Some(PemSection::Other)) => if rest.len() < pem.len() {
            first_key(rest)
        } else {
            KeySearch::Nothing
        },
        Ok(None) => KeySearch::Nothing,
        Err(cause) => KeySearch::Malformed(cause),
    }
}

/// Takes the private key out of the text of the file at `path`, given what
/// opening the file came to.
pub fn load_private_key(path: &str, file: &Result<Vec<u8>, String>) -> (key: Result<
    PrivateKey,
    TlsError,
>)
    ensures
        match *file {
            Err(cause) => key is Err && key->Err_0@ == (TlsFault::KeyUnopened {
                path: path@,
                cause: cause@,
            }),
            Ok(pem) => match first_key(pem@) {
                KeySearch::Found(der) => key is Ok && key->Ok_0@ == der,
                KeySearch::Malformed(cause) => key is Err && key->Err_0@ == (
                TlsFault::KeyUnreadable { path: path@, cause }),
                KeySearch::Nothing => key is Err && key->Err_0@ == (TlsFault::NoPrivateKey {
                    path: path@,
                }),
            },
        },
{
    match file {
        Err(cause) => Err(TlsError::KeyUnopened { path: path.to_owned(), cause: cause.clone() }),
        Ok(pem) => {
            let mut rest: &[u8] = pem.as_slice();
            loop
                invariant
                    first_key(rest@) == first_key(pem@),
                    *file == Ok::<Vec<u8>, String>(*pem),
                decreases rest@.len(),
            {
                let (read, unread) = read_section(rest);
                match judge_section(read) {
                    KeyStep::Found(key) => {
                        return Ok(key);
                    },
                    KeyStep::Malformed(cause) => {
                        return Err(TlsError::KeyUnreadable { path: path.to_owned(), cause });
                    },
                    KeyStep::Nothing => {
                        return Err(TlsError::NoPrivateKey { path: path.to_owned() });
                    },
                    KeyStep::Next => {
                        rest = unread;
                    },
                }
            }
        },
    }
}

/// The application protocol of the tunnel: the bytes of `anyst-01`.
pub open spec fn tunnel_alpn() -> Seq<Seq<u8>> {
    seq![seq![97u8, 110, 121, 115, 116, 45, 48, 49]]
}

/// The application protocols that both sides offer.
pub fn alpn_protocols() -> (protocols: Vec<Vec<u8>>)
    ensures
        contents(protocols@) == tunnel_alpn(),
{
    let protocol: Vec<u8> = vec![97, 110, 121, 115, 116, 45, 48, 49];
    assert(protocol@ =~= tunnel_alpn()[0]);
    let mut protocols: Vec<Vec<u8>> = Vec::new();
    protocols.push(protocol);
    assert(contents(protocols@) =~= tunnel_alpn());
    protocols
}

/// The TLS configuration of a server, given what opening its certificate file
/// and its key file came to. The certificate file is judged first. A certificate
/// and a key that were found may still not go together: the crypto provider
/// says so.
pub fn build_rustls_server_config(
    cert_path: &str,
    key_path: &str,
    cert_file: &Result<Vec<u8>, String>,
    key_file: &Result<Vec<u8>, String>,
) -> (config: Result<rustls::ServerConfig, TlsError>)
    ensures
        match *cert_file {
            Err(cause) => config is Err && config->Err_0@ == (TlsFault::CertUnopened {
                path: cert_path@,
                cause: cause@,
            }),
            Ok(certs_pem) => if readable(pem_certs(certs_pem@)).len() == 0 {
                config is Err && config->Err_0@ == (TlsFault::NoCertificates { path: cert_path@ })
            } else {
                match *key_file {
                    Err(cause) => config is Err && config->Err_0@ == (TlsFault::KeyUnopened {
                        path: key_path@,
                        cause: cause@,
                    }),
                    Ok(key_pem) => match first_key(key_pem@) {
                        KeySearch::Found(key) => match config {
                            Ok(made) => {
                                &&& server_facts(made).alpn == tunnel_alpn()
                                &&& server_facts(made).chain == readable(pem_certs(certs_pem@))
                                &&& server_facts(made).key == key
                                &&& !server_facts(made).asks_client
                            },
                            Err(error) => error is BadIdentity,
                        },
                        KeySearch::Malformed(cause) => config is Err && config->Err_0@ == (
                        TlsFault::KeyUnreadable { path: key_path@, cause }),
                        KeySearch::Nothing => config is Err && config->Err_0@ == (
                        TlsFault::NoPrivateKey { path: key_path@ }),
                    },
                }
            },
        },
{
    let certs = match load_certs(cert_path, cert_file) {
        Ok(certs) => certs,
        Err(error) => {
            return Err(error);
        },
    };
    let key = match load_private_key(key_path, key_file) {
        Ok(key) => key,
        Err(error) => {
            return Err(error);
        },
    };
    finish_server_config(single_cert(certs, key))
}

/// Adds the application protocol to a server configuration that could be made.
pub fn finish_server_config(made: Result<rustls::ServerConfig, String>) -> (config: Result<
    rustls::ServerConfig,
    TlsError,
>)
    ensures
        match made {
            Ok(server) => config is Ok && server_facts(config->Ok_0) == (ServerFacts {
                alpn: tunnel_alpn(),
                ..server_facts(server)
            }),
            Err(cause) => config is Err && config->Err_0@ == (TlsFault::BadIdentity {
                cause: cause@,
            }),
        },
{
    match made {
        Ok(server) => {
            let mut config = server;
            offer_server_alpn(&mut config, alpn_protocols());
            Ok(config)
        },
        Err(cause) => Err(TlsError::BadIdentity { cause }),
    }
}

/// The trust anchors that certificates make, in order.
pub open spec fn anchors(certs: Seq<Seq<u8>>) -> Seq<Anchor> {
    certs.filter_map(|cert: Seq<u8>| anchor_of(cert))
}

/// The store of all certificates that make trust anchors; the others are skipped.
pub fn trusted_roots(certs: Vec<Vec<u8>>) -> (store: rustls::RootCertStore)
    ensures
        root_anchors(store) == anchors(contents(certs@)),
{
    let ghost all = contents(certs@);
    let mut store = no_roots();
    let mut i: usize = 0;
    assert(all.take(0) =~= seq![]);
    while i < certs.len()
        invariant
            i <= certs@.len(),
            all == contents(certs@),
            root_anchors(store) == anchors(all.take(i as int)),
        decreases certs@.len() - i,
    {
        assert(all.take(i + 1).drop_last() =~= all.take(i as int));
        let mut cert: Vec<u8> = Vec::new();
        cert.extend_from_slice(certs[i].as_slice());
        assert(cert@ =~= all[i as int]);
        let _ = add_root(&mut store, cert);
        assert(root_anchors(store) =~= anchors(all.take(i + 1)));
        i = i + 1;
    }
    assert(all.take(i as int) =~= all);
    store
}

/// Where the trust of a client comes from.
#[derive(Debug, Clone, Copy, PartialEq, Eq, Structural)]
pub enum TrustSource {
    /// Every certificate is accepted.
    Nowhere,
    /// The root certificates of the system.
    SystemRoots,
}

/// Which trust a client uses: an insecure one verifies nothing.
pub fn trust_source(insecure: bool) -> (source: TrustSource)
    ensures
        source == (if insecure {
            TrustSource::Nowhere
        } else {
            TrustSource::SystemRoots
        }),
{
    if insecure {
        TrustSource::Nowhere
    } else {
        TrustSource::SystemRoots
    }
}

/// The trust of a client, with what it takes.
pub enum Trust {
    /// A client configuration that verifies servers in its own way.
    Given(rustls::ClientConfig),
    /// The certificates to verify servers against.
    Roots(Vec<Vec<u8>>),
}

/// The TLS configuration of a client. A given one is kept, but for the
/// application protocol; one that is made of roots verifies servers against
/// those of them that make trust anchors, and presents no certificate of its own.
pub fn build_rustls_client_config(trust: Trust) -> (config: rustls::ClientConfig)
    ensures
        client_facts(config).alpn == tunnel_alpn(),
        match trust {
            Trust::Given(base) => client_facts(config) == (ClientFacts {
                alpn: tunnel_alpn(),
                ..client_facts(base)
            }),
            Trust::Roots(certs) => {
                &&& client_facts(config).roots == anchors(contents(certs@))
                &&& !client_facts(config).presents_cert
            },
        },
{
    let mut config = match trust {
        Trust::Given(base) => base,
        Trust::Roots(certs) => client_of_roots(trusted_roots(certs)),
    };
    offer_client_alpn(&mut config, alpn_protocols());
    config
}

/// Streams that a peer may have open at a time.
pub const MAX_BIDI_STREAMS: u32 = 8;

/// Bytes of datagrams that may wait to be read.
pub const DATAGRAM_BUFFER: usize = 65536;

/// Milliseconds of silence after which a connection ends: one hour.
pub const IDLE_TIMEOUT_MILLIS: u32 = 3_600_000;

/// Seconds of silence after which a sign of life is sent, to keep NAT and
/// firewall state alive.
pub const KEEP_ALIVE_SECS: u64 = 15;

/// The limits of a tunnel's QUIC transport.
pub open spec fn tunnel_transport() -> TransportFacts {
    TransportFacts {
        bidi_streams: 8,
        datagram_buffer: Some(65536),
        idle_millis: Some(3_600_000),
        keep_alive_secs: Some(15),
    }
}

/// The transport configuration of both sides.
pub fn build_transport() -> (transport: quinn::TransportConfig)
    ensures
        transport_facts(transport) == tunnel_transport(),
{
    let mut transport = default_transport();
    limit_bidi_streams(&mut transport, MAX_BIDI_STREAMS);
    limit_datagram_buffer(&mut transport, DATAGRAM_BUFFER);
    limit_idle_time(&mut transport, IDLE_TIMEOUT_MILLIS);
    keep_alive_every(&mut transport, KEEP_ALIVE_SECS);
    transport
}

/// The QUIC configuration of a server, on its TLS configuration. It fails exactly
/// where the crypto provider lacks the initial cipher suite of QUIC.
pub fn build_quic_server_config(tls: rustls::ServerConfig) -> (config: Result<
    quinn::ServerConfig,
    TlsError,
>)
    ensures
        match config {
            Ok(made) => server_facts(tls).quic_suite && quic_server_facts(made) == (QuicServerFacts {
                tls: server_facts(tls),
                transport: tunnel_transport(),
            }),
            Err(error) => !server_facts(tls).quic_suite && error@ == (TlsFault::QuicServer {
                cause: "no initial cipher suite found"@,
            }),
        },
{
    match quic_server_crypto(tls) {
        Ok(crypto) => {
            let mut config = quic_server(crypto);
            use_server_transport(&mut config, build_transport());
            Ok(config)
        },
        Err(cause) => Err(TlsError::QuicServer { cause }),
    }
}

/// The QUIC configuration of a client, on its TLS configuration. It fails exactly
/// where the crypto provider lacks the initial cipher suite of QUIC.
pub fn build_quic_client_config(tls: rustls::ClientConfig) -> (config: Result<
    quinn::ClientConfig,
    TlsError,
>)
    ensures
        match config {
            Ok(made) => client_facts(tls).quic_suite && quic_client_facts(made) == (QuicClientFacts {
                tls: client_facts(tls),
                transport: tunnel_transport(),
            }),
            Err(error) => !client_facts(tls).quic_suite && error@ == (TlsFault::QuicClient {
                cause: "no initial cipher suite found"@,
            }),
        },
{
    match quic_client_crypto(tls) {
        Ok(crypto) => {
            let mut config = quic_client(crypto);
            use_client_transport(&mut config, build_transport());
            Ok(config)
        },
        Err(cause) => Err(TlsError::QuicClient { cause }),
    }
}

/// The server name that a client asks for.
pub fn server_name(sni: &str) -> (name: Result<rustls::pki_types::ServerName<'static>, TlsError>)
    ensures
        match server_name_of(sni@) {
            Some(parsed) => name is Ok && name->Ok_0 == parsed,
            None => name is Err && name->Err_0@ == (TlsFault::InvalidServerName {
                cause: "invalid dns name"@,
            }),
        },
{
    match parse_server_name(sni) {
        Ok(name) => Ok(name),
        Err(cause) => Err(TlsError::InvalidServerName { cause }),
    }
}

/// The signature schemes that a client without verification claims to support,
/// by their code points: RSA PKCS#1, ECDSA on the NIST curves, RSA-PSS, Ed25519.
pub open spec fn claimed_schemes() -> Seq<u16> {
    seq![
        0x0401u16, 0x0501, 0x0601, 0x0403, 0x0503, 0x0603, 0x0804, 0x0805, 0x0806, 0x0807,
    ]
}

/// The code points of the signature schemes that a client without verification
/// claims to support.
pub fn supported_verify_schemes() -> (schemes: Vec<u16>)
    ensures
        schemes@ == claimed_schemes(),
{
    let schemes: Vec<u16> = vec![
        0x0401, 0x0501, 0x0601, 0x0403, 0x0503, 0x0603, 0x0804, 0x0805, 0x0806, 0x0807,
    ];
    assert(schemes@ =~= claimed_schemes());
    schemes
}

/// A QUIC server presents the certificate chain and the key of the TLS server
/// that it was made on, and QUIC and TLS, server and client, offer one and the
/// same application protocol.
pub proof fn law_quic_shares_tls(
    tls_server: rustls::ServerConfig,
    quic_server: quinn::ServerConfig,
    tls_client: rustls::ClientConfig,
    quic_client: quinn::ClientConfig,
)
    requires
        server_facts(tls_server).alpn == tunnel_alpn(),
        client_facts(tls_client).alpn == tunnel_alpn(),
        quic_server_facts(quic_server) == (QuicServerFacts {
            tls: server_facts(tls_server),
            transport: tunnel_transport(),
        }),
        quic_client_facts(quic_client) == (QuicClientFacts {
            tls: client_facts(tls_client),
            transport: tunnel_transport(),
        }),
    ensures
        quic_server_facts(quic_server).tls.chain == server_facts(tls_server).chain,
        quic_server_facts(quic_server).tls.key == server_facts(tls_server).key,
        quic_client_facts(quic_client).tls.roots == client_facts(tls_client).roots,
        quic_server_facts(quic_server).tls.alpn == quic_client_facts(quic_client).tls.alpn,
        server_facts(tls_server).alpn == client_facts(tls_client).alpn,
        quic_server_facts(quic_server).transport == quic_client_facts(quic_client).transport,
{
}

/// The certificates that could be read are all kept, each in its place among
/// them, and nothing else is: one that could be read is kept, one that could not
/// is left out, and keeping from one list after another is keeping from each in
/// turn.
pub proof fn law_readable_certificates_are_kept(
    first: Seq<Option<Seq<u8>>>,
    second: Seq<Option<Seq<u8>>>,
    der: Seq<u8>,
)
    ensures
        readable(seq![]).len() == 0,
        readable(seq![Some(der)]) == seq![der],
        readable(seq![None]).len() == 0,
        readable(first + second) == readable(first) + readable(second),
    decreases second.len(),
{
    reveal_with_fuel(Seq::filter_map, 2);
    assert(seq![Some(der)].drop_last() =~= Seq::<Option<Seq<u8>>>::empty());
    assert(seq![None::<Seq<u8>>].drop_last() =~= Seq::<Option<Seq<u8>>>::empty());
    assert(readable(seq![Some(der)]) =~= seq![der]);
    if second.len() == 0 {
        assert(first + second =~= first);
        assert(readable(first) + readable(second) =~= readable(first));
    } else {
        assert((first + second).drop_last() =~= first + second.drop_last());
        law_readable_certificates_are_kept(first, second.drop_last(), der);
        assert(readable(first + second) =~= readable(first) + readable(second));
    }
}

/// A chain that could be read is kept whole and in order: as many certificates
/// as were found, the k-th of them the k-th found.
pub proof fn law_readable_chain_is_kept_whole(found: Seq<Option<Seq<u8>>>)
    requires
        forall|k: int| 0 <= k < found.len() ==> found[k] is Some,
    ensures
        readable(found).len() == found.len(),
        forall|k: int| 0 <= k < found.len() ==> found[k] == Some(#[trigger] readable(found)[k]),
    decreases found.len(),
{
    if found.len() > 0 {
        let front = found.drop_last();
        let last = found.last()->Some_0;
        assert(found.last() == found[found.len() - 1]);
        assert forall|k: int| 0 <= k < front.len() implies front[k] is Some by {
            assert(front[k] == found[k]);
        }
        law_readable_chain_is_kept_whole(front);
        law_readable_certificates_are_kept(front, seq![Some(last)], last);
        assert(found =~= front + seq![Some(last)]);
        assert forall|k: int| 0 <= k < found.len() implies found[k] == Some(
            #[trigger] readable(found)[k],
        ) by {
            if k < front.len() {
                assert(readable(found)[k] == readable(front)[k]);
                assert(front[k] == found[k]);
            }
        }
    }
}

/// The search for a key takes the first section that is one, passes over every
/// other section, ends without a key at the end of the text, and fails where the
/// text does.
pub proof fn law_first_key_is_found(pem: Seq<u8>)
    ensures
        ({
            let (read, rest) = pem_read_one(pem);
            &&& read matches Ok(Some(PemSection::Key(key))) ==> first_key(pem) == KeySearch::Found(
                key,
            )
            &&& read matches Ok(Some(PemSection::Other)) ==> (rest.len() < pem.len() ==> first_key(
                pem,
            ) == first_key(rest))
            &&& read matches Ok(None) ==> first_key(pem) is Nothing
            &&& read matches Err(cause) ==> first_key(pem) == KeySearch::Malformed(cause)
        }),
{
}

/// Every root certificate that makes a trust anchor is trusted, in order, and no
/// other: one that makes none is left out, and trusting one list after another
/// is trusting each in turn.
pub proof fn law_roots_are_trusted(first: Seq<Seq<u8>>, second: Seq<Seq<u8>>, cert: Seq<u8>)
    ensures
        anchors(seq![]).len() == 0,
        anchor_of(cert) matches Some(anchor) ==> anchors(seq![cert]) == seq![anchor],
        anchor_of(cert) is None ==> anchors(seq![cert]).len() == 0,
        anchors(first + second) == anchors(first) + anchors(second),
    decreases second.len(),
{
    reveal_with_fuel(Seq::filter_map, 2);
    assert(seq![cert].drop_last() =~= Seq::<Seq<u8>>::empty());
    if let Some(anchor) = anchor_of(cert) {
        assert(anchors(seq![cert]) =~= seq![anchor]);
    }
    if second.len() == 0 {
        assert(first + second =~= first);
        assert(anchors(first) + anchors(second) =~= anchors(first));
    } else {
        assert((first + second).drop_last() =~= first + second.drop_last());
        law_roots_are_trusted(first, second.drop_last(), cert);
        assert(anchors(first + second) =~= anchors(first) + anchors(second));
    }
}

/// What is said of a fault is the fault and the file it is about, word for word;
/// of QUIC, the cause.
pub proof fn law_tls_faults_in_words(path: Seq<char>, cause: Seq<char>)
    ensures
        (TlsFault::CertUnopened { path, cause }).words() == "failed to open cert file: "@ + path,
        (TlsFault::NoCertificates { path }).words() == "no certificates found in "@ + path,
        (TlsFault::KeyUnopened { path, cause }).words() == "failed to open key file: "@ + path,
        (TlsFault::KeyUnreadable { path, cause }).words() == "failed to read key from "@ + path,
        (TlsFault::NoPrivateKey { path }).words() == "no private key found in "@ + path,
        (TlsFault::BadIdentity { cause }).words() == "failed to build TLS server config"@,
        (TlsFault::QuicServer { cause }).words()
            == "failed to create QUIC server crypto config: "@ + cause,
        (TlsFault::QuicClient { cause }).words()
            == "failed to create QUIC client crypto config: "@ + cause,
        (TlsFault::InvalidServerName { cause }).words() == "invalid SNI"@,
{
}

/// An error says of itself what it holds.
pub proof fn law_tls_errors_say_what_they_hold(path: String, cause: String)
    ensures
        (TlsError::CertUnopened { path, cause })@ == (TlsFault::CertUnopened {
            path: path@,
            cause: cause@,
        }),
        (TlsError::NoCertificates { path })@ == (TlsFault::NoCertificates { path: path@ }),
        (TlsError::KeyUnopened { path, cause })@ == (TlsFault::KeyUnopened {
            path: path@,
            cause: cause@,
        }),
        (TlsError::KeyUnreadable { path, cause })@ == (TlsFault::KeyUnreadable {
            path: path@,
            cause: cause@,
        }),
        (TlsError::NoPrivateKey { path })@ == (TlsFault::NoPrivateKey { path: path@ }),
        (TlsError::BadIdentity { cause })@ == (TlsFault::BadIdentity { cause: cause@ }),
        (TlsError::QuicServer { cause })@ == (TlsFault::QuicServer { cause: cause@ }),
        (TlsError::QuicClient { cause })@ == (TlsFault::QuicClient { cause: cause@ }),
        (TlsError::InvalidServerName { cause })@ == (TlsFault::InvalidServerName {
            cause: cause@,
        }),
{
}

} // verus!
