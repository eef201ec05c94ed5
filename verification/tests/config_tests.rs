use requestx::config::{
    get_config, get_http_client_config, get_runtime_config, ConfigSource, HttpClientConfig,
    RequestxConfig,
};
use std::time::Duration;

#[test]
fn test_default_config() {
    let config = RequestxConfig::default();
    assert_eq!(config.client.pool_idle_timeout_secs, 90);
    assert_eq!(config.runtime.max_blocking_threads, 512);
    assert_eq!(config.client.pool_max_idle_per_host, 512);
}

#[test]
fn test_duration_conversions() {
    let http_config = HttpClientConfig::default();
    assert_eq!(http_config.pool_idle_timeout(), Duration::from_secs(90));
    assert_eq!(http_config.http2_keep_alive_interval(), Duration::from_secs(30));
}

#[test]
fn keep_alive_timeout_defaults_to_ten_seconds() {
    let http_config = HttpClientConfig::default();
    assert_eq!(http_config.http2_keep_alive_timeout(), Duration::from_secs(10));
}

#[test]
fn runtime_defaults() {
    let config = RequestxConfig::default();
    assert_eq!(config.runtime.worker_threads, 0);
    assert_eq!(config.runtime.thread_name, "requestx-worker");
    assert_eq!(config.runtime.thread_stack_size, 512 * 1024);
    assert!(!config.client.http2_only);
}

#[test]
fn load_falls_back_to_defaults() {
    for source in [ConfigSource::Missing, ConfigSource::Unreadable, ConfigSource::Invalid] {
        let c = RequestxConfig::load(source);
        assert_eq!(c.client.pool_idle_timeout_secs, 90);
        assert_eq!(c.runtime.max_blocking_threads, 512);
    }
}

#[test]
fn load_uses_parsed_file() {
    let mut custom = RequestxConfig::default();
    custom.client.pool_idle_timeout_secs = 7;
    let c = RequestxConfig::load(ConfigSource::Parsed(custom));
    assert_eq!(c.client.pool_idle_timeout_secs, 7);
}

#[test]
fn global_config_is_initialised_once() {
    let mut cell = None;
    let mut custom = RequestxConfig::default();
    custom.client.pool_idle_timeout_secs = 5;
    let first = get_config(&mut cell, ConfigSource::Parsed(custom));
    assert_eq!(first.client.pool_idle_timeout_secs, 5);
    let second = get_config(&mut cell, ConfigSource::Missing);
    assert_eq!(second.client.pool_idle_timeout_secs, 5);
    let cfg = cell.as_ref().unwrap();
    assert_eq!(get_http_client_config(cfg).pool_idle_timeout_secs, 5);
    assert_eq!(get_runtime_config(cfg).max_blocking_threads, 512);
}
