use mdns_dns_proxy::addr::{IpAddress, Ipv4Address};
use mdns_dns_proxy::config::{
    default_bind_address, default_cache_enabled, default_cache_ttl, default_discovery_domain,
    default_hostname_resolution_timeout, default_log_level, default_port,
    default_service_poll_interval, default_service_query_timeout, default_tcp_timeout,
    finish_domain, level_of_word, normalize_domain, without_trailing_dots, Args, CacheConfig,
    Config, LogLevel, LoggingConfig, MdnsConfig, ServerConfig,
};
use mdns_dns_proxy::time::Duration;

fn no_args() -> Args {
    Args {
        config: None,
        bind_address: None,
        port: None,
        cache_ttl: None,
        no_cache: false,
        log_level: None,
        service_query_timeout: None,
        hostname_resolution_timeout: None,
        discovery_domain: None,
        print_example_config: false,
    }
}

#[test]
fn test_default_config() {
    let config = Config::default();
    assert_eq!(config.server.port, default_port());
    assert_eq!(config.cache.ttl_seconds, default_cache_ttl());
    assert_eq!(config.cache.enabled, default_cache_enabled());
    assert_eq!(config.server.discovery_domain, default_discovery_domain());
}

#[test]
fn test_default_server_config() {
    let server = ServerConfig::default();
    assert_eq!(server.bind_address, default_bind_address());
    assert_eq!(server.port, default_port());
    assert_eq!(server.tcp_timeout, default_tcp_timeout());
    assert_eq!(server.discovery_domain, default_discovery_domain());
}

#[test]
fn test_default_cache_config() {
    let cache = CacheConfig::default();
    assert_eq!(cache.ttl_seconds, default_cache_ttl());
    assert!(cache.enabled);
}

#[test]
fn test_default_logging_config() {
    let logging = LoggingConfig::default();
    assert_eq!(logging.level, default_log_level());
}

#[test]
fn test_default_mdns_config() {
    let mdns = MdnsConfig::default();
    assert_eq!(mdns.service_query_timeout_ms, default_service_query_timeout());
    assert_eq!(mdns.service_poll_interval_ms, default_service_poll_interval());
    assert_eq!(mdns.hostname_resolution_timeout_ms, default_hostname_resolution_timeout());
}

#[test]
fn test_parse_log_level_valid() {
    let mut config = Config::default();

    config.logging.level = "trace".to_string();
    assert_eq!(config.parse_log_level(), LogLevel::Trace);

    config.logging.level = "debug".to_string();
    assert_eq!(config.parse_log_level(), LogLevel::Debug);

    config.logging.level = "info".to_string();
    assert_eq!(config.parse_log_level(), LogLevel::Info);

    config.logging.level = "warn".to_string();
    assert_eq!(config.parse_log_level(), LogLevel::Warn);

    config.logging.level = "error".to_string();
    assert_eq!(config.parse_log_level(), LogLevel::Error);
}

#[test]
fn test_parse_log_level_case_insensitive() {
    let mut config = Config::default();

    config.logging.level = "DEBUG".to_string();
    assert_eq!(config.parse_log_level(), LogLevel::Debug);

    config.logging.level = "Info".to_string();
    assert_eq!(config.parse_log_level(), LogLevel::Info);

    config.logging.level = "WARN".to_string();
    assert_eq!(config.parse_log_level(), LogLevel::Warn);
}

#[test]
fn test_parse_log_level_invalid_defaults_to_info() {
    let mut config = Config::default();

    config.logging.level = "invalid".to_string();
    assert_eq!(config.parse_log_level(), LogLevel::Info);
    assert!(!config.has_valid_log_level());

    config.logging.level = "".to_string();
    assert_eq!(config.parse_log_level(), LogLevel::Info);
    assert!(!config.has_valid_log_level());
}

#[test]
fn test_cache_ttl_conversion() {
    let mut config = Config::default();

    config.cache.ttl_seconds = 60;
    assert_eq!(config.cache_ttl(), Duration::from_secs(60));

    config.cache.ttl_seconds = 300;
    assert_eq!(config.cache_ttl(), Duration::from_secs(300));
}

#[test]
fn test_service_query_timeout_conversion() {
    let mut config = Config::default();

    config.mdns.service_query_timeout_ms = 500;
    assert_eq!(config.service_query_timeout(), Duration::from_millis(500));

    config.mdns.service_query_timeout_ms = 3000;
    assert_eq!(config.service_query_timeout(), Duration::from_millis(3000));
}

#[test]
fn test_hostname_resolution_timeout_conversion() {
    let mut config = Config::default();

    config.mdns.hostname_resolution_timeout_ms = 1500;
    assert_eq!(config.hostname_resolution_timeout(), Duration::from_millis(1500));

    config.mdns.hostname_resolution_timeout_ms = 5000;
    assert_eq!(config.hostname_resolution_timeout(), Duration::from_millis(5000));
}

#[test]
fn test_config_clone() {
    let config = Config::default();
    let cloned = config.clone();

    assert_eq!(config.server.port, cloned.server.port);
    assert_eq!(config.cache.ttl_seconds, cloned.cache.ttl_seconds);
}

#[test]
fn test_config_load_with_defaults() {
    let config = Config::load(no_args(), None);
    assert_eq!(config.server.bind_address, IpAddress::V4(Ipv4Address::new(127, 0, 0, 1)));
    assert_eq!(config.server.port, 5335);
    assert_eq!(config.cache.ttl_seconds, 120);
    assert!(config.cache.enabled);
    assert_eq!(config.server.discovery_domain, default_discovery_domain());
}

#[test]
fn test_config_load_with_cli_overrides() {
    let args = Args {
        config: None,
        bind_address: Some(IpAddress::V4(Ipv4Address::new(0, 0, 0, 0))),
        port: Some(5354),
        cache_ttl: Some(300),
        no_cache: true,
        log_level: Some("debug".to_string()),
        service_query_timeout: Some(2000),
        hostname_resolution_timeout: Some(1500),
        discovery_domain: Some("Custom.Domain".to_string()),
        print_example_config: false,
    };

    let config = Config::load(args, None);
    assert_eq!(config.server.bind_address, IpAddress::V4(Ipv4Address::new(0, 0, 0, 0)));
    assert_eq!(config.server.port, 5354);
    assert_eq!(config.cache.ttl_seconds, 300);
    assert!(!config.cache.enabled);
    assert_eq!(config.logging.level, "debug");
    assert_eq!(config.mdns.service_query_timeout_ms, 2000);
    assert_eq!(config.mdns.hostname_resolution_timeout_ms, 1500);
    assert_eq!(config.server.discovery_domain, "custom.domain.");
}

#[test]
fn test_config_load_partial_cli_overrides() {
    let mut args = no_args();
    args.port = Some(5354);
    args.log_level = Some("trace".to_string());

    let config = Config::load(args, None);
    assert_eq!(config.server.port, 5354);
    assert_eq!(config.logging.level, "trace");
    // Other values should be defaults
    assert_eq!(config.cache.ttl_seconds, 120);
    assert!(config.cache.enabled);
}

#[test]
fn test_normalize_domain_lowercase_and_trailing_dot() {
    assert_eq!(normalize_domain("Example.COM"), "example.com.");
    assert_eq!(normalize_domain("example.com."), "example.com.");
    assert_eq!(normalize_domain(".Example.Com"), "example.com.");
}

#[test]
fn normalize_domain_trims_and_strips_runs_of_dots() {
    assert_eq!(normalize_domain("  Mdns.Home.Arpa..  "), "mdns.home.arpa.");
    assert_eq!(normalize_domain("..a.b"), "a.b.");
    assert_eq!(normalize_domain(""), ".");
    assert_eq!(normalize_domain("."), ".");
    assert_eq!(without_trailing_dots("a.b..."), "a.b");
    assert_eq!(without_trailing_dots("..."), "");
    assert_eq!(finish_domain("..x.y"), "x.y.");
    assert_eq!(finish_domain(""), ".");
}

#[test]
fn config_load_file_values_and_flag_precedence() {
    let mut file = Config::default();
    file.server.port = 5355;
    file.server.tcp_timeout = 60;
    file.server.discovery_domain = "Example.COM".to_string();
    file.cache.ttl_seconds = 180;
    file.cache.enabled = false;
    file.mdns.service_query_timeout_ms = 1500;
    file.mdns.service_poll_interval_ms = 250;
    file.mdns.hostname_resolution_timeout_ms = 3000;

    let config = Config::load(no_args(), Some(file.clone()));
    assert_eq!(config.server.port, 5355);
    assert_eq!(config.server.tcp_timeout, 60);
    assert_eq!(config.server.discovery_domain, "example.com.");
    assert_eq!(config.cache.ttl_seconds, 180);
    assert!(!config.cache.enabled);
    assert_eq!(config.mdns.service_query_timeout_ms, 1500);
    assert_eq!(config.mdns.service_poll_interval_ms, 250);
    assert_eq!(config.mdns.hostname_resolution_timeout_ms, 3000);
    assert_eq!(config.discovery_domain(), "example.com.");

    let mut args = no_args();
    args.port = Some(5356);
    args.service_query_timeout = Some(900);
    args.hostname_resolution_timeout = Some(700);
    let config = Config::load(args, Some(file));
    assert_eq!(config.server.port, 5356);
    assert_eq!(config.mdns.service_query_timeout_ms, 900);
    assert_eq!(config.mdns.hostname_resolution_timeout_ms, 700);
    assert_eq!(config.cache.ttl_seconds, 180);
}

#[test]
fn log_level_words() {
    assert_eq!(level_of_word("trace"), Some(LogLevel::Trace));
    assert_eq!(level_of_word("error"), Some(LogLevel::Error));
    assert_eq!(level_of_word("Trace"), None);
    assert_eq!(level_of_word("warning"), None);
    let mut config = Config::default();
    assert!(config.has_valid_log_level());
    config.logging.level = "ERROR".to_string();
    assert!(config.has_valid_log_level());
}

#[test]
fn durations_are_exact() {
    assert_eq!(Duration::from_secs(2).as_nanos(), 2_000_000_000);
    assert_eq!(Duration::from_millis(1500).as_nanos(), 1_500_000_000);
    assert_eq!(Duration::from_millis(1500).as_millis(), 1500);
    assert_eq!(Duration::from_secs(u64::MAX).as_nanos(), u64::MAX as u128 * 1_000_000_000);
    assert_eq!(Duration::from_millis(u64::MAX).as_millis(), u64::MAX as u128);
    assert_eq!(Duration::from_nanos(7), Duration { nanos: 7 });
    assert_eq!(
        Duration::from_secs(5).saturating_sub(Duration::from_secs(2)),
        Duration::from_secs(3)
    );
    assert_eq!(
        Duration::from_secs(2).saturating_sub(Duration::from_secs(5)),
        Duration::from_secs(0)
    );
    let config = Config::default();
    assert_eq!(config.service_poll_interval(), Duration::from_millis(500));
}
