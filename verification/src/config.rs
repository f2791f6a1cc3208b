//! Runtime configuration, built from command line and environment alone.

use crate::text::{decimal, decimal_text, join3, trim, trimmed};
use std::path::PathBuf;
use vstd::prelude::*;

verus! {

/// The persistence backend that was asked for.
#[derive(Debug, Clone, Copy, PartialEq, Eq, Structural)]
pub enum PersistenceKind {
    /// A database, which several instances may share.
    Db,
    /// The former file backend, kept as another name for the default database.
    File,
}

/// Where shared state is cached. A remote cache always has an address.
pub enum CacheConfig {
    Memory,
    Redis { url: String },
    Libsql { url: String },
    Upstash { url: String },
}

/// Where state is kept. A database always has a data source name.
pub enum PersistenceConfig {
    Db { dsn: String },
}

/// How upstream providers are reached.
pub struct UpstreamConfig {
    /// The proxy for requests to upstream providers. It may carry credentials.
    pub proxy_url: Option<String>,
}

/// An IP address.
#[derive(Debug, Clone, Copy, PartialEq, Eq, Structural)]
pub enum IpAddress {
    V4(u32),
    V6(u128),
}

/// The configuration that a running instance works with.
pub struct RuntimeConfig {
    /// The host to listen on. An IPv6 address stands in brackets.
    pub host: String,
    pub port: u16,
    pub cache: CacheConfig,
    pub persistence: PersistenceConfig,
    pub upstream: UpstreamConfig,
    /// The number of this instance, by which its rows can be told apart.
    pub instance_id: u64,
    /// How many candidates one request may try.
    pub max_attempts: u32,
    /// How many gateway requests may be in flight before further ones are shed.
    pub max_in_flight: usize,
    /// Proxies besides loopback whose forwarding headers are honoured.
    pub trusted_proxies: Vec<IpAddress>,
    /// The release channel that self-update follows: "releases" or "staging".
    pub update_channel: String,
    /// The directory under which self-update stages its downloads.
    pub update_data_dir: PathBuf,
    /// The origins that may make credentialed cross-origin requests.
    pub cors_origins: Vec<String>,
}

/// Why a configuration cannot be built.
#[derive(Debug)]
pub enum ConfigError {
    /// The path of the default database could not be made absolute.
    DefaultDbPath { reason: String },
}

/// The default for [`RuntimeConfig::max_attempts`].
pub const DEFAULT_MAX_ATTEMPTS: u32 = 6;

/// The default for [`RuntimeConfig::max_in_flight`].
pub const DEFAULT_MAX_IN_FLIGHT: usize = 1024;

/// Seconds within which a connection to an upstream has to stand.
pub const UPSTREAM_CONNECT_TIMEOUT_SECS: u64 = 10;

/// Seconds that an upstream may stay silent within a response.
pub const UPSTREAM_READ_TIMEOUT_SECS: u64 = 3600;

/// Seconds that a response which is not streamed may take in all.
pub const UPSTREAM_TOTAL_TIMEOUT_SECS: u64 = 86400;

#[verifier::external_type_specification]
#[verifier::external_body]
pub struct ExPathBuf(std::path::PathBuf);

/// The path that `Path::join` makes of a directory and a file name.
pub uninterp spec fn joined_path(dir: PathBuf, file: Seq<char>) -> PathBuf;

/// The text that `Path::display` shows for a path.
pub uninterp spec fn displayed_path(path: PathBuf) -> Seq<char>;

/// What `std::path::absolute` gives for a path: the absolute path, or the error
/// as it is displayed.
pub type AbsoluteResult = Result<PathBuf, Seq<char>>;

/// Whether `std::path::absolute` can give `outcome` for `path` in some working
/// directory.
pub uninterp spec fn may_resolve(path: PathBuf, outcome: AbsoluteResult) -> bool;

/// `Path::join`: the path of a file in a directory.
#[verifier::external_body]
fn join_path(dir: PathBuf, file: &str) -> (r: PathBuf)
    ensures
        r == joined_path(dir, file@),
{
    dir.join(file)
}

/// `std::path::absolute`: the path taken from the root, which depends on the
/// working directory, or the reason why that is not known.
#[verifier::external_body]
fn absolute_path(path: PathBuf) -> (r: Result<PathBuf, String>)
    ensures
        match r {
            Ok(p) => may_resolve(path, AbsoluteResult::Ok(p)),
            Err(e) => may_resolve(path, AbsoluteResult::Err(e@)),
        },
{
    std::path::absolute(path).map_err(|e| e.to_string())
}

/// `Path::display`: the text that is shown for a path.
#[verifier::external_body]
fn display_path(path: &PathBuf) -> (r: String)
    ensures
        r@ == displayed_path(*path),
{
    path.display().to_string()
}

/// `PathBuf::clone`: the same path.
pub assume_specification[ <PathBuf as Clone>::clone ](path: &PathBuf) -> (r: PathBuf)
    ensures
        r == *path,
;

/// The data source name of the SQLite database in a file.
pub open spec fn sqlite_dsn(path: Seq<char>) -> Seq<char> {
    "sqlite://"@ + path + "?mode=rwc"@
}

/// What building a persistence configuration gives: the data source name, or the
/// reason why there is none.
pub type DsnResult = Result<Seq<char>, Seq<char>>;

/// The view of a persistence configuration, or of why it could not be built.
pub open spec fn dsn_result(r: Result<PersistenceConfig, ConfigError>) -> DsnResult {
    match r {
        Ok(PersistenceConfig::Db { dsn }) => Ok(dsn@),
        Err(ConfigError::DefaultDbPath { reason }) => Err(reason@),
    }
}

/// The view of a data source name that may have been given.
pub open spec fn given_dsn(dsn: Option<String>) -> Option<Seq<char>> {
    match dsn {
        Some(dsn) => Some(dsn@),
        None => None,
    }
}

/// The view of what making a path absolute gave.
pub open spec fn absolute_result(r: Result<PathBuf, String>) -> AbsoluteResult {
    match r {
        Ok(path) => Ok(path),
        Err(reason) => Err(reason@),
    }
}

/// The configuration for what was asked for, where making the default database's
/// path absolute gives `outcome`. The former file backend always means the
/// default database.
pub open spec fn resolved_dsn(
    kind: PersistenceKind,
    dsn: Option<Seq<char>>,
    outcome: AbsoluteResult,
) -> DsnResult {
    match (kind, dsn) {
        (PersistenceKind::Db, Some(given)) => Ok(given),
        _ => match outcome {
            Ok(path) => Ok(sqlite_dsn(displayed_path(path))),
            Err(reason) => Err(reason),
        },
    }
}

/// The data source name of the SQLite database in a file, which is created
/// where it is missing.
pub fn sqlite_dsn_for(path: &str) -> (r: String)
    ensures
        r@ == sqlite_dsn(path@),
{
    join3("sqlite://", path, "?mode=rwc")
}

impl ConfigError {
    /// The message that the error is reported with.
    pub open spec fn message_text(&self) -> Seq<char> {
        match self {
            ConfigError::DefaultDbPath { reason } => "resolve default db path: "@ + reason@,
        }
    }

    /// The message that the error is reported with.
    pub fn message(&self) -> (r: String)
        ensures
            r@ == self.message_text(),
    {
        match self {
            ConfigError::DefaultDbPath { reason } => {
                let mut out = "resolve default db path: ".to_owned();
                out.append(reason.as_str());
                out
            },
        }
    }
}

impl CacheConfig {
    /// A Redis cache where an address is given, the process's own memory where
    /// none is.
    pub fn from_url(redis_url: Option<String>) -> (r: Self)
        ensures
            match redis_url {
                Some(u) => r == (CacheConfig::Redis { url: u }),
                None => r is Memory,
            },
    {
        match redis_url {
            Some(url) => CacheConfig::Redis { url },
            None => CacheConfig::Memory,
        }
    }

    /// How the configuration is shown in logs.
    pub open spec fn shown(&self) -> Seq<char> {
        match self {
            CacheConfig::Memory => "Memory"@,
            CacheConfig::Redis { .. } => "Redis { url: <redacted> }"@,
            CacheConfig::Libsql { .. } => "Libsql { url: <redacted> }"@,
            CacheConfig::Upstash { .. } => "Upstash { url: <redacted> }"@,
        }
    }

    /// The configuration as logs show it, without its address.
    pub fn debug_text(&self) -> (r: String)
        ensures
            r@ == self.shown(),
    {
        match self {
            CacheConfig::Memory => "Memory".to_owned(),
            CacheConfig::Redis { .. } => "Redis { url: <redacted> }".to_owned(),
            CacheConfig::Libsql { .. } => "Libsql { url: <redacted> }".to_owned(),
            CacheConfig::Upstash { .. } => "Upstash { url: <redacted> }".to_owned(),
        }
    }
}

impl PersistenceConfig {
    /// The data source name that was given, or the default database in
    /// `data_dir`. The former file backend always means the default database.
    pub fn from_parts(kind: PersistenceKind, data_dir: PathBuf, dsn: Option<String>) -> (r: Result<
        Self,
        ConfigError,
    >)
        ensures
            kind is Db && dsn is Some ==> r == Ok::<PersistenceConfig, ConfigError>(
                (PersistenceConfig::Db { dsn: dsn->0 }),
            ),
            kind is File || dsn is None ==> exists|outcome: AbsoluteResult| #[trigger]
                may_resolve(joined_path(data_dir, "gproxy.db"@), outcome) && dsn_result(r)
                    == resolved_dsn(kind, given_dsn(dsn), outcome),
    {
        match (kind, dsn) {
            (PersistenceKind::Db, Some(dsn)) => Ok(PersistenceConfig::Db { dsn }),
            (kind, dsn) => {
                let resolved = absolute_path(join_path(data_dir, "gproxy.db"));
                assert(may_resolve(
                    joined_path(data_dir, "gproxy.db"@),
                    absolute_result(resolved),
                ));
                Self::from_resolved(kind, dsn, resolved)
            },
        }
    }

    /// The data source name that was given, or the default database at the path
    /// that has been made absolute, or could not be.
    pub fn from_resolved(
        kind: PersistenceKind,
        dsn: Option<String>,
        resolved: Result<PathBuf, String>,
    ) -> (r: Result<Self, ConfigError>)
        ensures
            dsn_result(r) == resolved_dsn(kind, given_dsn(dsn), absolute_result(resolved)),
    {
        let given = match kind {
            PersistenceKind::Db => dsn,
            PersistenceKind::File => None,
        };
        match given {
            Some(dsn) => Ok(PersistenceConfig::Db { dsn }),
            None => match resolved {
                Ok(path) => Ok(
                    PersistenceConfig::Db { dsn: sqlite_dsn_for(display_path(&path).as_str()) },
                ),
                Err(reason) => Err(ConfigError::DefaultDbPath { reason }),
            },
        }
    }

    /// How the configuration is shown in logs.
    pub open spec fn shown(&self) -> Seq<char> {
        "Db { dsn: <redacted> }"@
    }

    /// The configuration as logs show it, without its data source name.
    pub fn debug_text(&self) -> (r: String)
        ensures
            r@ == self.shown(),
    {
        "Db { dsn: <redacted> }".to_owned()
    }
}

impl UpstreamConfig {
    /// The proxy, without white space around it; a blank one counts as none.
    pub fn from_proxy_url(proxy_url: Option<String>) -> (r: Self)
        ensures
            r.proxy_url is Some <==> proxy_url is Some && trimmed(proxy_url->0@).len() > 0,
            r.proxy_url matches Some(u) ==> u@ == trimmed(proxy_url->0@),
    {
        let proxy_url = match proxy_url {
            Some(url) => {
                let t = trim(url.as_str());
                if t.is_empty() {
                    None
                } else {
                    Some(t.to_owned())
                }
            },
            None => None,
        };
        UpstreamConfig { proxy_url }
    }

    /// How the configuration is shown in logs.
    pub open spec fn shown(&self) -> Seq<char> {
        match self.proxy_url {
            Some(_) => "UpstreamConfig { proxy_url: <redacted> }"@,
            None => "UpstreamConfig { proxy_url: None }"@,
        }
    }

    /// The configuration as logs show it, without the proxy's address.
    pub fn debug_text(&self) -> (r: String)
        ensures
            r@ == self.shown(),
    {
        match self.proxy_url {
            Some(_) => "UpstreamConfig { proxy_url: <redacted> }".to_owned(),
            None => "UpstreamConfig { proxy_url: None }".to_owned(),
        }
    }
}

impl RuntimeConfig {
    /// The address to listen on, as host and port.
    pub open spec fn bind_text(&self) -> Seq<char> {
        self.host@ + ":"@ + decimal(self.port as nat)
    }

    /// The address to listen on, as host and port.
    pub fn bind_addr(&self) -> (r: String)
        ensures
            r@ == self.bind_text(),
    {
        join3(self.host.as_str(), ":", decimal_text(self.port as u64).as_str())
    }

    /// The message for an address to listen on that is none, and why.
    pub fn bind_error(&self, reason: &str) -> (r: String)
        ensures
            r@ == "invalid bind address "@ + self.bind_text() + ": "@ + reason@,
    {
        let mut out = "invalid bind address ".to_owned();
        out.append(self.bind_addr().as_str());
        out.append(": ");
        out.append(reason);
        out
    }
}

impl Clone for CacheConfig {
    fn clone(&self) -> (r: Self)
        ensures
            r == *self,
    {
        match self {
            CacheConfig::Memory => CacheConfig::Memory,
            CacheConfig::Redis { url } => CacheConfig::Redis { url: url.clone() },
            CacheConfig::Libsql { url } => CacheConfig::Libsql { url: url.clone() },
            CacheConfig::Upstash { url } => CacheConfig::Upstash { url: url.clone() },
        }
    }
}

impl Clone for PersistenceConfig {
    fn clone(&self) -> (r: Self)
        ensures
            r == *self,
    {
        match self {
            PersistenceConfig::Db { dsn } => PersistenceConfig::Db { dsn: dsn.clone() },
        }
    }
}

impl Clone for UpstreamConfig {
    fn clone(&self) -> (r: Self)
        ensures
            r == *self,
    {
        UpstreamConfig { proxy_url: self.proxy_url.clone() }
    }
}

impl Clone for RuntimeConfig {
    fn clone(&self) -> (r: Self)
        ensures
            r.host == self.host,
            r.port == self.port,
            r.cache == self.cache,
            r.persistence == self.persistence,
            r.upstream == self.upstream,
            r.instance_id == self.instance_id,
            r.max_attempts == self.max_attempts,
            r.max_in_flight == self.max_in_flight,
            r.trusted_proxies@ == self.trusted_proxies@,
            r.update_channel == self.update_channel,
            r.update_data_dir == self.update_data_dir,
            r.cors_origins@ == self.cors_origins@,
    {
        RuntimeConfig {
            host: self.host.clone(),
            port: self.port,
            cache: self.cache.clone(),
            persistence: self.persistence.clone(),
            upstream: self.upstream.clone(),
            instance_id: self.instance_id,
            max_attempts: self.max_attempts,
            max_in_flight: self.max_in_flight,
            trusted_proxies: self.trusted_proxies.clone(),
            update_channel: self.update_channel.clone(),
            update_data_dir: self.update_data_dir.clone(),
            cors_origins: self.cors_origins.clone(),
        }
    }
}

/// The former file backend, with any data source name, gives what a database
/// without one gives for the same outcome of making the path absolute.
pub proof fn law_file_backend_means_default_database(
    dsn: Option<Seq<char>>,
    outcome: AbsoluteResult,
)
    ensures
        resolved_dsn(PersistenceKind::File, dsn, outcome) == resolved_dsn(
            PersistenceKind::Db,
            None,
            outcome,
        ),
{
}

/// What logs show of a cache, a database or an upstream does not depend on the
/// address that it carries.
pub proof fn law_secrets_are_not_shown(a: String, b: String)
    ensures
        (CacheConfig::Redis { url: a }).shown() == (CacheConfig::Redis { url: b }).shown(),
        (CacheConfig::Libsql { url: a }).shown() == (CacheConfig::Libsql { url: b }).shown(),
        (CacheConfig::Upstash { url: a }).shown() == (CacheConfig::Upstash { url: b }).shown(),
        (PersistenceConfig::Db { dsn: a }).shown() == (PersistenceConfig::Db { dsn: b }).shown(),
        (UpstreamConfig { proxy_url: Some(a) }).shown() == (UpstreamConfig {
            proxy_url: Some(b),
        }).shown(),
{
}

} // verus!
