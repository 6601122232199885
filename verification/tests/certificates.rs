//! Certificates, keys, and the configurations made of them.
use anyst::pem::PrivateKey;
use anyst::tls::{
    alpn_protocols, build_quic_client_config, build_quic_server_config,
    build_rustls_client_config, build_rustls_server_config, build_transport, load_certs,
    load_private_key, server_name, supported_verify_schemes, trust_source, trusted_roots,
    TlsError, Trust, TrustSource,
};
use std::sync::Arc;

/// A certificate for `tunnel.example`, signed with the key below.
const CERT: &str = "MIH9MIGwoAMCAQICAQEwBQYDK2VwMBExDzANBgNVBAMMBnR1bm5lbDAgFw0yMDAxMDEwMDAw\
MDBaGA8yMTIwMDEwMTAwMDAwMFowETEPMA0GA1UEAwwGdHVubmVsMCowBQYDK2VwAyEA6kpsY+KcUgq+9VB7Ey7F+ZVHdq6+\
vnuSQh7qaRRG0iyjKzApMBkGA1UdEQQSMBCCDnR1bm5lbC5leGFtcGxlMAwGA1UdEwEB/wQCMAAwBQYDK2VwA0EAA66gL7sK\
LNUhc5M+xJ8ARFhB/zBudiTfbU7Ne3t1ZX6PRDdgll3/PFdGfQR1R6JuJZyYP2lFh5yZg2JWXOHaBg==";

/// An Ed25519 key: thirty-two bytes, all of them seven.
const SEVENS: &str = "MC4CAQAwBQYDK2VwBCIEIAcHBwcHBwcHBwcHBwcHBwcHBwcHBwcHBwcHBwcHBwcH";

/// Another one, of eights.
const EIGHTS: &str = "MC4CAQAwBQYDK2VwBCIEIAgICAgICAgICAgICAgICAgICAgICAgICAgICAgICAgI";

fn pem(label: &str, body: &str) -> String {
    format!("-----BEGIN {label}-----\n{body}\n-----END {label}-----\n")
}

fn file(text: &str) -> Result<Vec<u8>, String> {
    Ok(text.as_bytes().to_vec())
}

fn absent() -> Result<Vec<u8>, String> {
    Err("no such file".to_string())
}

fn cert_file() -> Result<Vec<u8>, String> {
    file(&pem("CERTIFICATE", CERT))
}

fn key_file() -> Result<Vec<u8>, String> {
    file(&pem("PRIVATE KEY", SEVENS))
}

fn cert_der() -> Vec<u8> {
    load_certs("c", &cert_file()).unwrap().remove(0)
}

fn seed(n: u8) -> Vec<u8> {
    let mut der = vec![
        0x30, 0x2e, 0x02, 0x01, 0x00, 0x30, 0x05, 0x06, 0x03, 0x2b, 0x65, 0x70, 0x04, 0x22, 0x04,
        0x20,
    ];
    der.extend_from_slice(&[n; 32]);
    der
}

#[test]
fn chain_is_loaded_in_order() {
    let text = pem("CERTIFICATE", "AQID") + &pem("PRIVATE KEY", "CQkJ") + &pem("CERTIFICATE", "BAUG");
    assert_eq!(load_certs("c", &file(&text)).unwrap(), vec![vec![1, 2, 3], vec![4, 5, 6]]);
}

#[test]
fn unreadable_certificates_are_skipped() {
    let text = pem("CERTIFICATE", "AQID") + &pem("CERTIFICATE", "!!!!") + &pem("CERTIFICATE", "BAUG");
    assert_eq!(load_certs("c", &file(&text)).unwrap(), vec![vec![1, 2, 3], vec![4, 5, 6]]);
}

#[test]
fn no_certificates() {
    for text in [String::new(), "hello".to_string(), pem("PRIVATE KEY", "AQID")] {
        let error = load_certs("tls/c.pem", &file(&text)).unwrap_err();
        assert!(matches!(error, TlsError::NoCertificates { .. }));
        assert_eq!(error.message(), "no certificates found in tls/c.pem");
    }
}

#[test]
fn certificate_file_that_cannot_be_opened() {
    let error = load_certs("tls/c.pem", &absent()).unwrap_err();
    assert!(matches!(&error, TlsError::CertUnopened { cause, .. } if cause == "no such file"));
    assert_eq!(error.message(), "failed to open cert file: tls/c.pem");
}

#[test]
fn keys_of_every_encoding() {
    let key = |label: &str| load_private_key("k", &file(&pem(label, "AQID"))).unwrap();
    assert!(matches!(key("RSA PRIVATE KEY"), PrivateKey::Pkcs1(der) if der == [1, 2, 3]));
    assert!(matches!(key("PRIVATE KEY"), PrivateKey::Pkcs8(der) if der == [1, 2, 3]));
    assert!(matches!(key("EC PRIVATE KEY"), PrivateKey::Sec1(der) if der == [1, 2, 3]));
}

#[test]
fn first_key_wins() {
    let text = pem("CERTIFICATE", "AQID") + &pem("EC PRIVATE KEY", "BAUG") + &pem("PRIVATE KEY", "AQID");
    let key = load_private_key("k", &file(&text)).unwrap();
    assert!(matches!(key, PrivateKey::Sec1(der) if der == [4, 5, 6]));
}

#[test]
fn error_before_the_key_wins() {
    let text = pem("CERTIFICATE", "!!!!") + &pem("PRIVATE KEY", "AQID");
    let error = load_private_key("tls/k.pem", &file(&text)).unwrap_err();
    assert!(matches!(error, TlsError::KeyUnreadable { .. }));
    assert_eq!(error.message(), "failed to read key from tls/k.pem");
}

#[test]
fn key_before_the_error_wins() {
    let text = pem("PRIVATE KEY", "AQID") + &pem("CERTIFICATE", "!!!!");
    assert!(load_private_key("k", &file(&text)).is_ok());
}

#[test]
fn no_private_key() {
    for text in [String::new(), pem("CERTIFICATE", "AQID"), pem("UNKNOWN", "AQID")] {
        let error = load_private_key("tls/k.pem", &file(&text)).unwrap_err();
        assert!(matches!(error, TlsError::NoPrivateKey { .. }));
        assert_eq!(error.message(), "no private key found in tls/k.pem");
    }
}

#[test]
fn key_file_that_cannot_be_opened() {
    let error = load_private_key("tls/k.pem", &absent()).unwrap_err();
    assert!(matches!(&error, TlsError::KeyUnopened { cause, .. } if cause == "no such file"));
    assert_eq!(error.message(), "failed to open key file: tls/k.pem");
}

#[test]
fn real_key_is_read() {
    let key = load_private_key("k", &key_file()).unwrap();
    assert!(matches!(key, PrivateKey::Pkcs8(der) if der == seed(7)));
}

#[test]
fn protocol_name() {
    assert_eq!(alpn_protocols(), vec![b"anyst-01".to_vec()]);
}

#[test]
fn server_config_offers_the_protocol() {
    let config = build_rustls_server_config("c", "k", &cert_file(), &key_file()).unwrap();
    assert_eq!(config.alpn_protocols, vec![b"anyst-01".to_vec()]);
}

#[test]
fn server_config_judges_the_certificate_first() {
    let error = build_rustls_server_config("c", "k", &absent(), &absent()).unwrap_err();
    assert_eq!(error.message(), "failed to open cert file: c");
    let error = build_rustls_server_config("c", "k", &file(""), &absent()).unwrap_err();
    assert_eq!(error.message(), "no certificates found in c");
    let error = build_rustls_server_config("c", "k", &cert_file(), &absent()).unwrap_err();
    assert_eq!(error.message(), "failed to open key file: k");
    let error = build_rustls_server_config("c", "k", &cert_file(), &file("")).unwrap_err();
    assert_eq!(error.message(), "no private key found in k");
}

#[test]
fn certificate_and_key_have_to_go_together() {
    let other = file(&pem("PRIVATE KEY", EIGHTS));
    let error = build_rustls_server_config("c", "k", &cert_file(), &other).unwrap_err();
    assert!(matches!(error, TlsError::BadIdentity { .. }));
    assert_eq!(error.message(), "failed to build TLS server config");
}

#[test]
fn roots_that_do_not_parse_are_skipped() {
    let store = trusted_roots(vec![vec![1, 2, 3], cert_der(), vec![]]);
    assert_eq!(store.roots.len(), 1);
    assert!(store.roots[0].subject.as_ref().ends_with(b"tunnel"));
    assert_eq!(trusted_roots(vec![]).roots.len(), 0);
}

#[test]
fn insecure_client_trusts_without_roots() {
    assert_eq!(trust_source(true), TrustSource::Nowhere);
    assert_eq!(trust_source(false), TrustSource::SystemRoots);
}

#[test]
fn client_config_offers_the_protocol() {
    let config = build_rustls_client_config(Trust::Roots(vec![cert_der()]));
    assert_eq!(config.alpn_protocols, vec![b"anyst-01".to_vec()]);
    assert!(!config.client_auth_cert_resolver.has_certs());
    let base = rustls::ClientConfig::builder()
        .with_root_certificates(rustls::RootCertStore::empty())
        .with_no_client_auth();
    let config = build_rustls_client_config(Trust::Given(base));
    assert_eq!(config.alpn_protocols, vec![b"anyst-01".to_vec()]);
}

/// Runs the TLS handshake between the two ends in memory.
fn handshake(
    client: rustls::ClientConfig,
    name: &str,
) -> Result<(rustls::ClientConnection, rustls::ServerConnection), rustls::Error> {
    let config = build_rustls_server_config("c", "k", &cert_file(), &key_file()).unwrap();
    let mut server = rustls::ServerConnection::new(Arc::new(config))?;
    let mut client = rustls::ClientConnection::new(Arc::new(client), server_name(name).unwrap())?;
    while client.is_handshaking() || server.is_handshaking() {
        let mut wire: Vec<u8> = Vec::new();
        while client.wants_write() {
            client.write_tls(&mut wire).unwrap();
        }
        let mut rest: &[u8] = &wire;
        while !rest.is_empty() {
            server.read_tls(&mut rest).unwrap();
            server.process_new_packets()?;
        }
        let mut wire: Vec<u8> = Vec::new();
        while server.wants_write() {
            server.write_tls(&mut wire).unwrap();
        }
        let mut rest: &[u8] = &wire;
        while !rest.is_empty() {
            client.read_tls(&mut rest).unwrap();
            client.process_new_packets()?;
        }
    }
    Ok((client, server))
}

#[test]
fn both_ends_agree_on_the_protocol() {
    let config = build_rustls_client_config(Trust::Roots(vec![cert_der()]));
    let (client, server) = handshake(config, "tunnel.example").unwrap();
    assert_eq!(client.alpn_protocol(), Some(&b"anyst-01"[..]));
    assert_eq!(server.alpn_protocol(), Some(&b"anyst-01"[..]));
    assert_eq!(server.server_name(), Some("tunnel.example"));
    let presented: Vec<Vec<u8>> =
        client.peer_certificates().unwrap().iter().map(|cert| cert.to_vec()).collect();
    assert_eq!(presented, vec![cert_der()]);
    assert!(server.peer_certificates().is_none());
}

#[test]
fn server_without_a_known_root_is_not_trusted() {
    let config = build_rustls_client_config(Trust::Roots(vec![]));
    assert!(handshake(config, "tunnel.example").is_err());
    let config = build_rustls_client_config(Trust::Roots(vec![cert_der()]));
    assert!(handshake(config, "other.example").is_err());
}

#[test]
fn transport_limits() {
    let shown = format!("{:?}", build_transport());
    assert!(shown.contains("max_concurrent_bidi_streams: 8,"));
    assert!(shown.contains("datagram_receive_buffer_size: Some(65536)"));
    assert!(shown.contains("max_idle_timeout: Some(3600000)"));
    assert!(shown.contains("keep_alive_interval: Some(15s)"));
}

#[test]
fn quic_server_has_the_tunnel_transport() {
    let tls = build_rustls_server_config("c", "k", &cert_file(), &key_file()).unwrap();
    let config = build_quic_server_config(tls).unwrap();
    assert_eq!(format!("{:?}", config.transport), format!("{:?}", build_transport()));
}

#[test]
fn quic_client_has_the_tunnel_transport() {
    let tls = build_rustls_client_config(Trust::Roots(vec![]));
    let config = build_quic_client_config(tls).unwrap();
    let shown = format!("{:?}", config);
    assert!(shown.contains(&format!("{:?}", build_transport())));
}

#[test]
fn provider_without_the_initial_suite() {
    let mut provider = rustls::crypto::ring::default_provider();
    provider
        .cipher_suites
        .retain(|suite| suite.suite() != rustls::CipherSuite::TLS13_AES_128_GCM_SHA256);
    let provider = Arc::new(provider);
    let client = rustls::ClientConfig::builder_with_provider(provider.clone())
        .with_safe_default_protocol_versions()
        .unwrap()
        .with_root_certificates(rustls::RootCertStore::empty())
        .with_no_client_auth();
    let error = build_quic_client_config(client).unwrap_err();
    assert_eq!(
        error.message(),
        "failed to create QUIC client crypto config: no initial cipher suite found"
    );
    let key = rustls::pki_types::PrivateKeyDer::Pkcs8(seed(7).into());
    let server = rustls::ServerConfig::builder_with_provider(provider)
        .with_safe_default_protocol_versions()
        .unwrap()
        .with_no_client_auth()
        .with_single_cert(vec![cert_der().into()], key)
        .unwrap();
    let error = build_quic_server_config(server).unwrap_err();
    assert_eq!(
        error.message(),
        "failed to create QUIC server crypto config: no initial cipher suite found"
    );
}

#[test]
fn server_names() {
    let name = server_name("tunnel.example").unwrap();
    assert_eq!(name, rustls::pki_types::ServerName::try_from("tunnel.example").unwrap());
    assert!(matches!(
        server_name("192.0.2.1").unwrap(),
        rustls::pki_types::ServerName::IpAddress(_)
    ));
    for bad in ["", "two words", "a..b"] {
        let error = server_name(bad).unwrap_err();
        assert!(matches!(
            &error,
            TlsError::InvalidServerName { cause } if cause == "invalid dns name"
        ));
        assert_eq!(error.message(), "invalid SNI");
    }
}

#[test]
fn claimed_signature_schemes() {
    let schemes: Vec<rustls::SignatureScheme> =
        supported_verify_schemes().into_iter().map(rustls::SignatureScheme::from).collect();
    assert_eq!(
        schemes,
        vec![
            rustls::SignatureScheme::RSA_PKCS1_SHA256,
            rustls::SignatureScheme::RSA_PKCS1_SHA384,
            rustls::SignatureScheme::RSA_PKCS1_SHA512,
            rustls::SignatureScheme::ECDSA_NISTP256_SHA256,
            rustls::SignatureScheme::ECDSA_NISTP384_SHA384,
            rustls::SignatureScheme::ECDSA_NISTP521_SHA512,
            rustls::SignatureScheme::RSA_PSS_SHA256,
            rustls::SignatureScheme::RSA_PSS_SHA384,
            rustls::SignatureScheme::RSA_PSS_SHA512,
            rustls::SignatureScheme::ED25519,
        ]
    );
}
