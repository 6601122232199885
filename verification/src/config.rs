//! The configuration of the tunnels, and what has to hold before they start.
use vstd::prelude::*;
use crate::session::SocketAddr;
use crate::text::{decimal_text, join2, join4};
#[allow(unused_imports)]
use crate::text::decimal;

verus! {

/// The configuration file.
#[derive(Debug, Clone)]
pub struct Config {
    /// How much is logged.
    pub log_level: String,
    /// The tunnels to run.
    pub tunnels: Vec<TunnelConfig>,
}

/// One tunnel.
#[derive(Debug, Clone)]
pub struct TunnelConfig {
    /// Local listen address, such as `[::]:1017` or `0.0.0.0:1017`.
    pub listen: String,
    /// Remote address as `host:port`, resolved at connection time.
    pub remote: String,
    /// The server name for TLS and QUIC.
    pub sni: String,
    /// Skip the verification of the server's certificate.
    pub insecure: bool,
    /// The password of the tunnel.
    pub password: String,
    /// Path of the certificate chain (server mode).
    pub cert: Option<String>,
    /// Path of the private key (server mode).
    pub key: Option<String>,
}

/// The log level of a configuration that names none.
pub fn default_log_level() -> (level: String)
    ensures
        level@ == "info"@,
{
    "info".to_owned()
}

/// Why a configuration cannot be used.
#[derive(Debug)]
pub enum ConfigError {
    /// The file at `path` could not be read.
    Unreadable { path: String, cause: String },
    /// The file does not hold a configuration.
    Unparsable { cause: String },
    /// The certificate file of a server tunnel is not there.
    CertificateMissing { tunnel: usize, path: String },
    /// The key file of a server tunnel is not there.
    KeyMissing { tunnel: usize, path: String },
    /// The listen address is none.
    BadListenAddress { listen: String, cause: String },
}

/// What a `ConfigError` says.
pub enum ConfigFault {
    Unreadable { path: Seq<char>, cause: Seq<char> },
    Unparsable { cause: Seq<char> },
    CertificateMissing { tunnel: nat, path: Seq<char> },
    KeyMissing { tunnel: nat, path: Seq<char> },
    BadListenAddress { listen: Seq<char>, cause: Seq<char> },
}

impl View for ConfigError {
    type V = ConfigFault;

    open spec fn view(&self) -> ConfigFault {
        match *self {
            ConfigError::Unreadable { path, cause } => ConfigFault::Unreadable {
                path: path@,
                cause: cause@,
            },
            ConfigError::Unparsable { cause } => ConfigFault::Unparsable { cause: cause@ },
            ConfigError::CertificateMissing { tunnel, path } => ConfigFault::CertificateMissing {
                tunnel: tunnel as nat,
                path: path@,
            },
            ConfigError::KeyMissing { tunnel, path } => ConfigFault::KeyMissing {
                tunnel: tunnel as nat,
                path: path@,
            },
            ConfigError::BadListenAddress { listen, cause } => ConfigFault::BadListenAddress {
                listen: listen@,
                cause: cause@,
            },
        }
    }
}

impl ConfigFault {
    /// The words for the fault.
    pub open spec fn words(self) -> Seq<char> {
        match self {
            ConfigFault::Unreadable { path, cause } => "failed to read config file '"@ + path
                + "': "@ + cause,
            ConfigFault::Unparsable { cause } => "failed to parse config: "@ + cause,
            ConfigFault::CertificateMissing { tunnel, path } => "tunnel["@ + decimal(tunnel)
                + "]: certificate file not found: "@ + path,
            ConfigFault::KeyMissing { tunnel, path } => "tunnel["@ + decimal(tunnel)
                + "]: key file not found: "@ + path,
            ConfigFault::BadListenAddress { listen, cause } => "invalid listen address '"@ + listen
                + "': "@ + cause,
        }
    }
}

impl ConfigError {
    /// Says what is wrong.
    pub fn message(&self) -> (message: String)
        ensures
            message@ == self@.words(),
    {
        match self {
            ConfigError::Unreadable { path, cause } => join4(
                "failed to read config file '",
                path.as_str(),
                "': ",
                cause.as_str(),
            ),
            ConfigError::Unparsable { cause } => join2("failed to parse config: ", cause.as_str()),
            ConfigError::CertificateMissing { tunnel, path } => join4(
                "tunnel[",
                decimal_text(*tunnel as u64).as_str(),
                "]: certificate file not found: ",
                path.as_str(),
            ),
            ConfigError::KeyMissing { tunnel, path } => join4(
                "tunnel[",
                decimal_text(*tunnel as u64).as_str(),
                "]: key file not found: ",
                path.as_str(),
            ),
            ConfigError::BadListenAddress { listen, cause } => join4(
                "invalid listen address '",
                listen.as_str(),
                "': ",
                cause.as_str(),
            ),
        }
    }
}

impl TunnelConfig {
    /// Whether the tunnel has both a certificate and a key.
    pub open spec fn serves(self) -> bool {
        self.cert is Some && self.key is Some
    }

    /// Whether this tunnel acts as a TLS server: it has a certificate and a key.
    pub fn is_server(&self) -> (server: bool)
        ensures
            server == self.serves(),
    {
        self.cert.is_some() && self.key.is_some()
    }

    /// The listen address, given what reading `self.listen` as a socket
    /// address came to.
    pub fn listen_addr(&self, parsed: Result<SocketAddr, String>) -> (addr: Result<
        SocketAddr,
        ConfigError,
    >)
        ensures
            match parsed {
                Ok(socket) => addr == Ok::<SocketAddr, ConfigError>(socket),
                Err(cause) => addr is Err && addr->Err_0@ == (ConfigFault::BadListenAddress {
                    listen: self.listen@,
                    cause: cause@,
                }),
            },
    {
        match parsed {
            Ok(socket) => Ok(socket),
            Err(cause) => Err(
                ConfigError::BadListenAddress { listen: self.listen.clone(), cause },
            ),
        }
    }
}

/// What a file of a server tunnel is for.
#[derive(Debug, Clone, Copy, PartialEq, Eq, Structural)]
pub enum FileRole {
    Certificate,
    Key,
}

/// A file that has to be there: what it is for, and for which tunnel.
#[derive(Debug)]
pub struct RequiredFile {
    pub tunnel: usize,
    pub role: FileRole,
    pub path: String,
}

/// What a `RequiredFile` names.
pub struct NeededFile {
    pub tunnel: nat,
    pub role: FileRole,
    pub path: Seq<char>,
}

impl View for RequiredFile {
    type V = NeededFile;

    open spec fn view(&self) -> NeededFile {
        NeededFile { tunnel: self.tunnel as nat, role: self.role, path: self.path@ }
    }
}

/// The files that one tunnel needs: none, or its certificate and then its key.
pub open spec fn needed_by(index: nat, tunnel: TunnelConfig) -> Seq<NeededFile> {
    if tunnel.serves() {
        seq![
            NeededFile { tunnel: index, role: FileRole::Certificate, path: tunnel.cert->Some_0@ },
            NeededFile { tunnel: index, role: FileRole::Key, path: tunnel.key->Some_0@ },
        ]
    } else {
        seq![]
    }
}

/// The files that the tunnels need, in the order of the tunnels.
pub open spec fn needed(tunnels: Seq<TunnelConfig>) -> Seq<NeededFile>
    decreases tunnels.len(),
{
    if tunnels.len() == 0 {
        seq![]
    } else {
        needed(tunnels.drop_last()) + needed_by((tunnels.len() - 1) as nat, tunnels.last())
    }
}

/// The views of a sequence of files.
pub open spec fn named(files: Seq<RequiredFile>) -> Seq<NeededFile> {
    files.map_values(|file: RequiredFile| file@)
}

/// Lists the files that have to be there, in the order in which they are looked for.
pub fn required_files(config: &Config) -> (files: Vec<RequiredFile>)
    ensures
        named(files@) == needed(config.tunnels@),
{
    let mut files: Vec<RequiredFile> = Vec::new();
    let mut i: usize = 0;
    assert(config.tunnels@.take(0) =~= seq![]);
    assert(named(files@) =~= seq![]);
    while i < config.tunnels.len()
        invariant
            i <= config.tunnels@.len(),
            named(files@) == needed(config.tunnels@.take(i as int)),
        decreases config.tunnels@.len() - i,
    {
        let tunnel = &config.tunnels[i];
        let ghost before = files@;
        assert(config.tunnels@.take(i + 1).drop_last() =~= config.tunnels@.take(i as int));
        if let Some(cert) = &tunnel.cert {
            if let Some(key) = &tunnel.key {
                files.push(
                    RequiredFile { tunnel: i, role: FileRole::Certificate, path: cert.clone() },
                );
                files.push(RequiredFile { tunnel: i, role: FileRole::Key, path: key.clone() });
            }
        }
        assert(named(files@) =~= named(before) + needed_by(i as nat, *tunnel));
        i = i + 1;
    }
    assert(config.tunnels@.take(i as int) =~= config.tunnels@);
    files
}

/// What reading the configuration file came to.
#[derive(Debug)]
pub enum ConfigSource {
    /// The file could not be read.
    Unreadable(String),
    /// What it holds is no configuration.
    Unparsable(String),
    /// It holds this configuration.
    Parsed(Config),
}

/// Whether the file number `k` was looked for and found.
pub open spec fn is_present(present: Seq<bool>, k: int) -> bool {
    k < present.len() && present[k]
}

/// Whether the file number `k` is the first that was not found.
pub open spec fn is_first_missing(count: nat, present: Seq<bool>, k: int) -> bool {
    &&& 0 <= k < count
    &&& !is_present(present, k)
    &&& forall|j: int| 0 <= j < k ==> is_present(present, j)
}

/// The fault of a configuration whose file is not there.
pub open spec fn missing(file: NeededFile) -> ConfigFault {
    match file.role {
        FileRole::Certificate => ConfigFault::CertificateMissing {
            tunnel: file.tunnel,
            path: file.path,
        },
        FileRole::Key => ConfigFault::KeyMissing { tunnel: file.tunnel, path: file.path },
    }
}

/// Takes the configuration of the file at `path` once it was read and its
/// files were looked for: `present[k]` tells whether the k-th of its required
/// files is there, and one that was not looked for counts as missing. The
/// first missing file is the one that is reported.
pub fn load_config(path: &str, source: ConfigSource, present: &Vec<bool>) -> (config: Result<
    Config,
    ConfigError,
>)
    ensures
        match source {
            ConfigSource::Unreadable(cause) => config is Err && config->Err_0@ == (
            ConfigFault::Unreadable { path: path@, cause: cause@ }),
            ConfigSource::Unparsable(cause) => config is Err && config->Err_0@ == (
            ConfigFault::Unparsable { cause: cause@ }),
            ConfigSource::Parsed(parsed) => {
                let files = needed(parsed.tunnels@);
                &&& config is Ok <==> forall|k: int|
                    0 <= k < files.len() ==> #[trigger] is_present(present@, k)
                &&& config matches Ok(loaded) ==> loaded == parsed
                &&& config matches Err(error) ==> exists|k: int| #[trigger]
                    is_first_missing(files.len(), present@, k) && error@ == missing(files[k])
            },
        },
{
    match source {
        ConfigSource::Unreadable(cause) => Err(
            ConfigError::Unreadable { path: path.to_owned(), cause },
        ),
        ConfigSource::Unparsable(cause) => Err(ConfigError::Unparsable { cause }),
        ConfigSource::Parsed(parsed) => {
            let files = required_files(&parsed);
            let ghost wanted = needed(parsed.tunnels@);
            assert(wanted.len() == files@.len());
            match first_missing(files.len(), present) {
                Some(k) => {
                    let file = &files[k];
                    assert(wanted[k as int] == file@);
                    assert(!is_present(present@, k as int));
                    Err(
                        match file.role {
                            FileRole::Certificate => ConfigError::CertificateMissing {
                                tunnel: file.tunnel,
                                path: file.path.clone(),
                            },
                            FileRole::Key => ConfigError::KeyMissing {
                                tunnel: file.tunnel,
                                path: file.path.clone(),
                            },
                        },
                    )
                },
                None => Ok(parsed),
            }
        },
    }
}

/// The first of `count` files that was not found.
fn first_missing(count: usize, present: &Vec<bool>) -> (missing: Option<usize>)
    ensures
        match missing {
            Some(k) => is_first_missing(count as nat, present@, k as int),
            None => forall|k: int| 0 <= k < count ==> #[trigger] is_present(present@, k),
        },
{
    let mut k: usize = 0;
    while k < count
        invariant
            k <= count,
            forall|j: int| 0 <= j < k ==> #[trigger] is_present(present@, j),
        decreases count - k,
    {
        if k >= present.len() || !present[k] {
            return Some(k);
        }
        k = k + 1;
    }
    None
}

/// A tunnel is a server if it has a certificate and a key, both.
pub proof fn law_server_has_both(tunnel: TunnelConfig)
    ensures
        tunnel.serves() <==> tunnel.cert is Some && tunnel.key is Some,
{
}

/// The files to look for are those of the tunnels, one tunnel after the other:
/// another tunnel at the end adds its certificate and then its key, under its
/// number, if it has both, and nothing otherwise. There are none without
/// tunnels.
pub proof fn law_files_tunnel_by_tunnel(tunnels: Seq<TunnelConfig>, tunnel: TunnelConfig)
    ensures
        needed(Seq::<TunnelConfig>::empty()).len() == 0,
        needed(tunnels.push(tunnel)) == needed(tunnels) + if tunnel.cert is Some
            && tunnel.key is Some {
            seq![
                NeededFile {
                    tunnel: tunnels.len(),
                    role: FileRole::Certificate,
                    path: tunnel.cert->Some_0@,
                },
                NeededFile {
                    tunnel: tunnels.len(),
                    role: FileRole::Key,
                    path: tunnel.key->Some_0@,
                },
            ]
        } else {
            seq![]
        },
{
    assert(tunnels.push(tunnel).drop_last() =~= tunnels);
}

/// What is said of files to look for is said of every one, and of its tunnel,
/// its purpose and its path.
pub proof fn law_named_files_are_the_files(files: Seq<RequiredFile>)
    ensures
        named(files).len() == files.len(),
        forall|i: int|
            0 <= i < files.len() ==> {
                &&& (#[trigger] named(files)[i]).tunnel == files[i].tunnel
                &&& named(files)[i].role == files[i].role
                &&& named(files)[i].path == files[i].path@
            },
{
}

/// A file is reported missing if it was not found, or not looked for, and every
/// one in front of it was found; the report names its tunnel, its purpose and its
/// path. There is at most one such file, and there is one unless all are found.
pub proof fn law_first_missing_is_reported(
    count: nat,
    present: Seq<bool>,
    a: int,
    b: int,
    file: NeededFile,
)
    requires
        a >= 0,
    ensures
        is_present(present, a) <==> a < present.len() && present[a],
        is_first_missing(count, present, a) ==> a < count && !(a < present.len() && present[a]),
        is_first_missing(count, present, a) && 0 <= b < a ==> b < present.len() && present[b],
        is_first_missing(count, present, a) && is_first_missing(count, present, b) ==> a == b,
        (exists|k: int| is_first_missing(count, present, k)) || (forall|k: int|
            0 <= k < count ==> #[trigger] is_present(present, k)),
        file.role == FileRole::Certificate ==> missing(file) == (ConfigFault::CertificateMissing {
            tunnel: file.tunnel,
            path: file.path,
        }),
        file.role == FileRole::Key ==> missing(file) == (ConfigFault::KeyMissing {
            tunnel: file.tunnel,
            path: file.path,
        }),
{
    if is_first_missing(count, present, a) && 0 <= b < a {
        assert(is_present(present, b));
    }
    if is_first_missing(count, present, a) && is_first_missing(count, present, b) {
        if b < a {
            assert(is_present(present, b));
        }
        if a < b {
            assert(is_present(present, a));
        }
    }
    lemma_some_first_missing(count, present);
}

proof fn lemma_some_first_missing(count: nat, present: Seq<bool>)
    ensures
        (exists|k: int| is_first_missing(count, present, k)) || (forall|k: int|
            0 <= k < count ==> #[trigger] is_present(present, k)),
    decreases count,
{
    if count > 0 {
        let fewer = (count - 1) as nat;
        lemma_some_first_missing(fewer, present);
        if exists|k: int| is_first_missing(fewer, present, k) {
            let k = choose|k: int| is_first_missing(fewer, present, k);
            assert(is_first_missing(count, present, k));
        } else if !is_present(present, fewer as int) {
            assert(is_first_missing(count, present, fewer as int));
        }
    }
}

/// What is said of a fault is the fault and all that it names, word for word.
pub proof fn law_config_faults_in_words(tunnel: nat, path: Seq<char>, cause: Seq<char>)
    ensures
        (ConfigFault::Unreadable { path, cause }).words() == "failed to read config file '"@ + path
            + "': "@ + cause,
        (ConfigFault::Unparsable { cause }).words() == "failed to parse config: "@ + cause,
        (ConfigFault::CertificateMissing { tunnel, path }).words() == "tunnel["@ + decimal(tunnel)
            + "]: certificate file not found: "@ + path,
        (ConfigFault::KeyMissing { tunnel, path }).words() == "tunnel["@ + decimal(tunnel)
            + "]: key file not found: "@ + path,
        (ConfigFault::BadListenAddress { listen: path, cause }).words()
            == "invalid listen address '"@ + path + "': "@ + cause,
{
}

/// An error says of itself what it holds.
pub proof fn law_config_errors_say_what_they_hold(tunnel: usize, path: String, cause: String)
    ensures
        (ConfigError::Unreadable { path, cause })@ == (ConfigFault::Unreadable {
            path: path@,
            cause: cause@,
        }),
        (ConfigError::Unparsable { cause })@ == (ConfigFault::Unparsable { cause: cause@ }),
        (ConfigError::CertificateMissing { tunnel, path })@ == (ConfigFault::CertificateMissing {
            tunnel: tunnel as nat,
            path: path@,
        }),
        (ConfigError::KeyMissing { tunnel, path })@ == (ConfigFault::KeyMissing {
            tunnel: tunnel as nat,
            path: path@,
        }),
        (ConfigError::BadListenAddress { listen: path, cause })@ == (
        ConfigFault::BadListenAddress { listen: path@, cause: cause@ }),
{
}

} // verus!
