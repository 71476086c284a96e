//! Configuration of the proxy: built-in values, values from a file, and the
//! command line on top of both.

use crate::addr::{IpAddress, Ipv4Address};
use crate::text::{
    chars_of, len_of_leading, len_without_trailing, lowercase, string_of_range,
    strip_leading, strip_trailing, trimmed,
};
use crate::time::Duration;
use vstd::prelude::*;

verus! {

/// Where the server listens, and the domain it serves.
#[derive(Clone, Debug)]
pub struct ServerConfig {
    /// Address to bind to.
    pub bind_address: IpAddress,
    /// Port to bind to.
    pub port: u16,
    /// Seconds after which an idle TCP connection is closed.
    pub tcp_timeout: u64,
    /// The discovery domain, in lower case and with a dot at its end.
    pub discovery_domain: String,
}

/// The result cache.
#[derive(Clone, Copy, Debug, PartialEq, Eq, Structural)]
pub struct CacheConfig {
    /// Seconds for which a result is kept.
    pub ttl_seconds: u64,
    /// Whether results are cached.
    pub enabled: bool,
}

/// Logging.
#[derive(Clone, Debug)]
pub struct LoggingConfig {
    /// One of `trace`, `debug`, `info`, `warn`, `error`.
    pub level: String,
}

/// Deadlines of lookups on the link.
#[derive(Clone, Copy, Debug, PartialEq, Eq, Structural)]
pub struct MdnsConfig {
    /// Milliseconds a browse for PTR, SRV or TXT may take in all.
    pub service_query_timeout_ms: u64,
    /// Milliseconds to wait for one event of a browse.
    pub service_poll_interval_ms: u64,
    /// Milliseconds the resolution of a host name may take.
    pub hostname_resolution_timeout_ms: u64,
}

/// The configuration of the proxy.
#[derive(Clone, Debug)]
pub struct Config {
    pub server: ServerConfig,
    pub cache: CacheConfig,
    pub logging: LoggingConfig,
    pub mdns: MdnsConfig,
}

/// What the command line gave.
#[derive(Clone, Debug)]
pub struct Args {
    /// Path of the configuration file.
    pub config: Option<String>,
    pub bind_address: Option<IpAddress>,
    pub port: Option<u16>,
    pub cache_ttl: Option<u64>,
    pub no_cache: bool,
    pub log_level: Option<String>,
    pub service_query_timeout: Option<u64>,
    pub hostname_resolution_timeout: Option<u64>,
    pub discovery_domain: Option<String>,
    pub print_example_config: bool,
}

/// How much is logged.
#[derive(Clone, Copy, Debug, PartialEq, Eq, Structural)]
pub enum LogLevel {
    Trace,
    Debug,
    Info,
    Warn,
    Error,
}

/// A domain with its trailing dots taken off, put in lower case, its
/// leading dots taken off, and one dot at its end.
pub open spec fn finished_domain(lowered: Seq<char>) -> Seq<char> {
    strip_leading(lowered, '.') + seq!['.']
}

/// The normal form of a domain: trimmed, without the dots at its end, in
/// lower case, without the dots at its start, and with one dot at its end.
pub open spec fn normalized_domain(domain: Seq<char>) -> Seq<char> {
    finished_domain(lowercase(strip_trailing(trimmed(domain), '.')))
}

/// The level that a lower-case word names.
pub open spec fn level_named(word: Seq<char>) -> Option<LogLevel> {
    if word == "trace"@ {
        Some(LogLevel::Trace)
    } else if word == "debug"@ {
        Some(LogLevel::Debug)
    } else if word == "info"@ {
        Some(LogLevel::Info)
    } else if word == "warn"@ {
        Some(LogLevel::Warn)
    } else if word == "error"@ {
        Some(LogLevel::Error)
    } else {
        None
    }
}

/// The `Some` value, or `fallback`.
pub open spec fn or_else<T>(value: Option<T>, fallback: T) -> T {
    match value {
        Some(v) => v,
        None => fallback,
    }
}

/// The loopback address `127.0.0.1`.
pub fn default_bind_address() -> (addr: IpAddress)
    ensures
        addr == IpAddress::V4(Ipv4Address { bits: 0x7f00_0001 }),
{
    IpAddress::V4(Ipv4Address::new(127, 0, 0, 1))
}

/// The port `5335`.
pub fn default_port() -> (port: u16)
    ensures
        port == 5335,
{
    5335
}

/// Thirty seconds.
pub fn default_tcp_timeout() -> (secs: u64)
    ensures
        secs == 30,
{
    30
}

/// The domain `mdns.home.arpa.`.
pub fn default_discovery_domain() -> (domain: String)
    ensures
        domain@ == "mdns.home.arpa."@,
{
    "mdns.home.arpa.".to_owned()
}

/// Two minutes, in seconds.
pub fn default_cache_ttl() -> (secs: u64)
    ensures
        secs == 120,
{
    120
}

/// Results are cached.
pub fn default_cache_enabled() -> (enabled: bool)
    ensures
        enabled,
{
    true
}

/// The level `info`.
pub fn default_log_level() -> (level: String)
    ensures
        level@ == "info"@,
{
    "info".to_owned()
}

/// Two seconds, in milliseconds.
pub fn default_service_query_timeout() -> (millis: u64)
    ensures
        millis == 2000,
{
    2000
}

/// Half a second, in milliseconds.
pub fn default_service_poll_interval() -> (millis: u64)
    ensures
        millis == 500,
{
    500
}

/// One and a half seconds, in milliseconds.
pub fn default_hostname_resolution_timeout() -> (millis: u64)
    ensures
        millis == 1500,
{
    1500
}

/// The text without the dots at its end.
pub fn without_trailing_dots(text: &str) -> (r: String)
    ensures
        r@ == strip_trailing(text@, '.'),
{
    let v = chars_of(text);
    let n = len_without_trailing(&v, '.');
    let r = string_of_range(&v, 0, n);
    assert(v@.subrange(0, n as int) == v@.take(n as int));
    r
}

/// The text without the dots at its start and with one dot at its end.
pub fn finish_domain(lowered: &str) -> (r: String)
    ensures
        r@ == finished_domain(lowered@),
{
    let v = chars_of(lowered);
    let n = len_of_leading(&v, '.');
    let mut r = string_of_range(&v, n, v.len());
    assert(v@.subrange(n as int, v.len() as int) == v@.skip(n as int));
    r.push('.');
    r
}

/// The normal form of a domain.
pub fn normalize_domain(domain: &str) -> (r: String)
    ensures
        r@ == normalized_domain(domain@),
{
    let bare = without_trailing_dots(domain.trim());
    let lowered = bare.as_str().to_lowercase();
    finish_domain(lowered.as_str())
}

/// The level that a lower-case word names, if it names one.
pub fn level_of_word(word: &str) -> (r: Option<LogLevel>)
    ensures
        r == level_named(word@),
{
    let word = word.to_owned();
    if word == "trace".to_owned() {
        Some(LogLevel::Trace)
    } else if word == "debug".to_owned() {
        Some(LogLevel::Debug)
    } else if word == "info".to_owned() {
        Some(LogLevel::Info)
    } else if word == "warn".to_owned() {
        Some(LogLevel::Warn)
    } else if word == "error".to_owned() {
        Some(LogLevel::Error)
    } else {
        None
    }
}

impl Default for ServerConfig {
    fn default() -> (r: ServerConfig)
        ensures
            r.bind_address == IpAddress::V4(Ipv4Address { bits: 0x7f00_0001 }),
            r.port == 5335,
            r.tcp_timeout == 30,
            r.discovery_domain@ == "mdns.home.arpa."@,
    {
        ServerConfig {
            bind_address: default_bind_address(),
            port: default_port(),
            tcp_timeout: default_tcp_timeout(),
            discovery_domain: default_discovery_domain(),
        }
    }
}

impl Default for CacheConfig {
    fn default() -> (r: CacheConfig)
        ensures
            r == (CacheConfig { ttl_seconds: 120, enabled: true }),
    {
        CacheConfig { ttl_seconds: default_cache_ttl(), enabled: default_cache_enabled() }
    }
}

impl Default for LoggingConfig {
    fn default() -> (r: LoggingConfig)
        ensures
            r.level@ == "info"@,
    {
        LoggingConfig { level: default_log_level() }
    }
}

impl Default for MdnsConfig {
    fn default() -> (r: MdnsConfig)
        ensures
            r == (MdnsConfig {
                service_query_timeout_ms: 2000,
                service_poll_interval_ms: 500,
                hostname_resolution_timeout_ms: 1500,
            }),
    {
        MdnsConfig {
            service_query_timeout_ms: default_service_query_timeout(),
            service_poll_interval_ms: default_service_poll_interval(),
            hostname_resolution_timeout_ms: default_hostname_resolution_timeout(),
        }
    }
}

impl Default for Config {
    fn default() -> (r: Config)
        ensures
            r.server.bind_address == IpAddress::V4(Ipv4Address { bits: 0x7f00_0001 }),
            r.server.port == 5335,
            r.server.tcp_timeout == 30,
            r.server.discovery_domain@ == "mdns.home.arpa."@,
            r.cache == (CacheConfig { ttl_seconds: 120, enabled: true }),
            r.logging.level@ == "info"@,
            r.mdns == (MdnsConfig {
                service_query_timeout_ms: 2000,
                service_poll_interval_ms: 500,
                hostname_resolution_timeout_ms: 1500,
            }),
    {
        Config {
            server: ServerConfig::default(),
            cache: CacheConfig::default(),
            logging: LoggingConfig::default(),
            mdns: MdnsConfig::default(),
        }
    }
}

impl Config {
    /// The configuration in force: the file's where a file was read, the
    /// built-in one where none was, with its discovery domain in normal
    /// form, and on top of it whatever the command line gave.
    pub fn load(args: Args, file: Option<Config>) -> (r: Config)
        ensures
            r.server.bind_address == or_else(
                args.bind_address,
                match file {
                    Some(f) => f.server.bind_address,
                    None => IpAddress::V4(Ipv4Address { bits: 0x7f00_0001 }),
                },
            ),
            r.server.port == or_else(
                args.port,
                match file {
                    Some(f) => f.server.port,
                    None => 5335,
                },
            ),
            r.server.tcp_timeout == match file {
                Some(f) => f.server.tcp_timeout,
                None => 30,
            },
            r.server.discovery_domain@ == normalized_domain(
                match args.discovery_domain {
                    Some(d) => d@,
                    None => match file {
                        Some(f) => f.server.discovery_domain@,
                        None => "mdns.home.arpa."@,
                    },
                },
            ),
            r.cache.ttl_seconds == or_else(
                args.cache_ttl,
                match file {
                    Some(f) => f.cache.ttl_seconds,
                    None => 120,
                },
            ),
            r.cache.enabled == (!args.no_cache && match file {
                Some(f) => f.cache.enabled,
                None => true,
            }),
            r.logging.level@ == match args.log_level {
                Some(l) => l@,
                None => match file {
                    Some(f) => f.logging.level@,
                    None => "info"@,
                },
            },
            r.mdns.service_query_timeout_ms == or_else(
                args.service_query_timeout,
                match file {
                    Some(f) => f.mdns.service_query_timeout_ms,
                    None => 2000,
                },
            ),
            r.mdns.service_poll_interval_ms == match file {
                Some(f) => f.mdns.service_poll_interval_ms,
                None => 500,
            },
            r.mdns.hostname_resolution_timeout_ms == or_else(
                args.hostname_resolution_timeout,
                match file {
                    Some(f) => f.mdns.hostname_resolution_timeout_ms,
                    None => 1500,
                },
            ),
    {
        let mut config = match file {
            Some(f) => f,
            None => Config::default(),
        };
        config.server.discovery_domain = normalize_domain(config.server.discovery_domain.as_str());
        if let Some(bind_address) = args.bind_address {
            config.server.bind_address = bind_address;
        }
        if let Some(port) = args.port {
            config.server.port = port;
        }
        if let Some(cache_ttl) = args.cache_ttl {
            config.cache.ttl_seconds = cache_ttl;
        }
        if args.no_cache {
            config.cache.enabled = false;
        }
        if let Some(log_level) = args.log_level {
            config.logging.level = log_level;
        }
        if let Some(service_query_timeout) = args.service_query_timeout {
            config.mdns.service_query_timeout_ms = service_query_timeout;
        }
        if let Some(hostname_resolution_timeout) = args.hostname_resolution_timeout {
            config.mdns.hostname_resolution_timeout_ms = hostname_resolution_timeout;
        }
        if let Some(discovery_domain) = args.discovery_domain {
            config.server.discovery_domain = normalize_domain(discovery_domain.as_str());
        }
        config
    }

    /// Whether the configured level names a level. Case does not count.
    pub fn has_valid_log_level(&self) -> (r: bool)
        ensures
            r == level_named(lowercase(self.logging.level@)) is Some,
    {
        let lowered = self.logging.level.as_str().to_lowercase();
        level_of_word(lowered.as_str()).is_some()
    }

    /// The configured level; `Info` where the word names none. Case does
    /// not count.
    pub fn parse_log_level(&self) -> (r: LogLevel)
        ensures
            r == or_else(level_named(lowercase(self.logging.level@)), LogLevel::Info),
    {
        let lowered = self.logging.level.as_str().to_lowercase();
        match level_of_word(lowered.as_str()) {
            Some(level) => level,
            None => LogLevel::Info,
        }
    }

    /// The span for which a result is cached.
    pub fn cache_ttl(&self) -> (d: Duration)
        ensures
            d.nanos == self.cache.ttl_seconds * 1_000_000_000,
    {
        Duration::from_secs(self.cache.ttl_seconds)
    }

    /// The span a browse may take in all.
    pub fn service_query_timeout(&self) -> (d: Duration)
        ensures
            d.nanos == self.mdns.service_query_timeout_ms * 1_000_000,
    {
        Duration::from_millis(self.mdns.service_query_timeout_ms)
    }

    /// The span to wait for one event of a browse.
    pub fn service_poll_interval(&self) -> (d: Duration)
        ensures
            d.nanos == self.mdns.service_poll_interval_ms * 1_000_000,
    {
        Duration::from_millis(self.mdns.service_poll_interval_ms)
    }

    /// The span the resolution of a host name may take.
    pub fn hostname_resolution_timeout(&self) -> (d: Duration)
        ensures
            d.nanos == self.mdns.hostname_resolution_timeout_ms * 1_000_000,
    {
        Duration::from_millis(self.mdns.hostname_resolution_timeout_ms)
    }

    /// The discovery domain.
    pub fn discovery_domain(&self) -> (domain: &str)
        ensures
            domain@ == self.server.discovery_domain@,
    {
        self.server.discovery_domain.as_str()
    }
}

} // verus!
