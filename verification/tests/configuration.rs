//! The configuration and its files.
use anyst::config::{
    default_log_level, load_config, required_files, Config, ConfigSource, FileRole, TunnelConfig,
};
use anyst::session::SocketAddr;

fn tunnel(cert: Option<&str>, key: Option<&str>) -> TunnelConfig {
    TunnelConfig {
        listen: "[::]:1017".to_string(),
        remote: "example.com:443".to_string(),
        sni: "example.com".to_string(),
        insecure: false,
        password: "pw".to_string(),
        cert: cert.map(str::to_string),
        key: key.map(str::to_string),
    }
}

fn config() -> Config {
    Config {
        log_level: default_log_level(),
        tunnels: vec![
            tunnel(None, None),
            tunnel(Some("a.crt"), Some("a.key")),
            tunnel(Some("alone.crt"), None),
            tunnel(Some("b.crt"), Some("b.key")),
        ],
    }
}

fn load(present: &[bool]) -> Result<Config, String> {
    load_config("tunnel.yaml", ConfigSource::Parsed(config()), &present.to_vec())
        .map_err(|error| error.message())
}

#[test]
fn log_level_defaults_to_info() {
    assert_eq!(default_log_level(), "info");
}

#[test]
fn server_has_certificate_and_key() {
    assert!(tunnel(Some("c"), Some("k")).is_server());
    assert!(!tunnel(Some("c"), None).is_server());
    assert!(!tunnel(None, Some("k")).is_server());
    assert!(!tunnel(None, None).is_server());
}

#[test]
fn files_are_looked_for_in_order() {
    let files: Vec<(usize, FileRole, String)> = required_files(&config())
        .into_iter()
        .map(|file| (file.tunnel, file.role, file.path))
        .collect();
    assert_eq!(
        files,
        vec![
            (1, FileRole::Certificate, "a.crt".to_string()),
            (1, FileRole::Key, "a.key".to_string()),
            (3, FileRole::Certificate, "b.crt".to_string()),
            (3, FileRole::Key, "b.key".to_string()),
        ]
    );
}

#[test]
fn config_loads_with_all_its_files() {
    let loaded = load(&[true, true, true, true]).unwrap();
    assert_eq!(loaded.log_level, "info");
    assert_eq!(loaded.tunnels.len(), 4);
    assert_eq!(loaded.tunnels[3].cert.as_deref(), Some("b.crt"));
}

#[test]
fn config_without_servers_needs_no_files() {
    let parsed = Config { log_level: "debug".to_string(), tunnels: vec![tunnel(None, None)] };
    let loaded = load_config("c", ConfigSource::Parsed(parsed), &vec![]).unwrap();
    assert_eq!(loaded.log_level, "debug");
}

#[test]
fn missing_certificate() {
    assert_eq!(
        load(&[true, true, false, false]).unwrap_err(),
        "tunnel[3]: certificate file not found: b.crt"
    );
}

#[test]
fn missing_key() {
    assert_eq!(
        load(&[true, false, false, true]).unwrap_err(),
        "tunnel[1]: key file not found: a.key"
    );
}

#[test]
fn file_that_was_not_looked_for_is_missing() {
    assert_eq!(
        load(&[true, true, true]).unwrap_err(),
        "tunnel[3]: key file not found: b.key"
    );
}

#[test]
fn unreadable_config() {
    let error =
        load_config("x.yaml", ConfigSource::Unreadable("denied".to_string()), &vec![]).unwrap_err();
    assert_eq!(error.message(), "failed to read config file 'x.yaml': denied");
}

#[test]
fn unparsable_config() {
    let error =
        load_config("x.yaml", ConfigSource::Unparsable("bad".to_string()), &vec![]).unwrap_err();
    assert_eq!(error.message(), "failed to parse config: bad");
}

#[test]
fn listen_address() {
    let addr = SocketAddr::V4 { ip: 0x7f000001, port: 1017 };
    assert_eq!(tunnel(None, None).listen_addr(Ok(addr)).unwrap(), addr);
    let error = tunnel(None, None).listen_addr(Err("no port".to_string())).unwrap_err();
    assert_eq!(error.message(), "invalid listen address '[::]:1017': no port");
}
