//! Client and runtime configuration, with the defaults used when no
//! configuration file is present or it cannot be used.
use core::time::Duration;
use vstd::prelude::*;

verus! {

/// The duration of `secs` whole seconds (what `Duration::from_secs` builds).
pub uninterp spec fn duration_of_secs(secs: u64) -> Duration;

/// Trusted: `Duration::from_secs`.  The result is named, not restated.
#[verifier::external_body]
fn duration_from_secs(secs: u64) -> (d: Duration)
    ensures
        d == duration_of_secs(secs),
{
    Duration::from_secs(secs)
}

/// Configuration for HTTP client settings.
#[derive(Debug, Clone)]
pub struct HttpClientConfig {
    pub pool_idle_timeout_secs: u64,
    pub pool_max_idle_per_host: usize,
    pub http2_only: bool,
    pub http2_keep_alive_interval_secs: u64,
    pub http2_keep_alive_timeout_secs: u64,
    pub http2_initial_stream_window_size: u32,
    pub http2_initial_connection_window_size: u32,
}

impl HttpClientConfig {
    /// The built-in client settings.
    pub open spec fn spec_default() -> Self {
        HttpClientConfig {
            pool_idle_timeout_secs: 90,
            pool_max_idle_per_host: 512,
            http2_only: false,
            http2_keep_alive_interval_secs: 30,
            http2_keep_alive_timeout_secs: 10,
            http2_initial_stream_window_size: 65536,
            http2_initial_connection_window_size: 1048576,
        }
    }

    /// Idle timeout of pooled connections.
    pub fn pool_idle_timeout(&self) -> (d: Duration)
        ensures
            d == duration_of_secs(self.pool_idle_timeout_secs),
    {
        duration_from_secs(self.pool_idle_timeout_secs)
    }

    /// Interval between HTTP/2 keep-alive pings.
    pub fn http2_keep_alive_interval(&self) -> (d: Duration)
        ensures
            d == duration_of_secs(self.http2_keep_alive_interval_secs),
    {
        duration_from_secs(self.http2_keep_alive_interval_secs)
    }

    /// Timeout for an HTTP/2 keep-alive ping.
    pub fn http2_keep_alive_timeout(&self) -> (d: Duration)
        ensures
            d == duration_of_secs(self.http2_keep_alive_timeout_secs),
    {
        duration_from_secs(self.http2_keep_alive_timeout_secs)
    }
}

impl Default for HttpClientConfig {
    fn default() -> (r: Self)
        ensures
            r == Self::spec_default(),
    {
        HttpClientConfig {
            pool_idle_timeout_secs: 90,
            pool_max_idle_per_host: 512,
            http2_only: false,
            http2_keep_alive_interval_secs: 30,
            http2_keep_alive_timeout_secs: 10,
            http2_initial_stream_window_size: 65536,
            http2_initial_connection_window_size: 1048576,
        }
    }
}

/// Configuration for the asynchronous runtime.
#[derive(Debug, Clone)]
pub struct RuntimeConfig {
    /// Number of worker threads; 0 means "detect automatically".
    pub worker_threads: usize,
    pub max_blocking_threads: usize,
    pub thread_name: String,
    pub thread_stack_size: usize,
}

impl RuntimeConfig {
    /// Whether `self` holds the built-in runtime settings.
    pub open spec fn is_default(&self) -> bool {
        &&& self.worker_threads == 0
        &&& self.max_blocking_threads == 512
        &&& self.thread_name@ == "requestx-worker"@
        &&& self.thread_stack_size == 512 * 1024
    }
}

impl Default for RuntimeConfig {
    fn default() -> (r: Self)
        ensures
            r.is_default(),
    {
        RuntimeConfig {
            worker_threads: 0,
            max_blocking_threads: 512,
            thread_name: "requestx-worker".to_owned(),
            thread_stack_size: 512 * 1024,
        }
    }
}

/// The whole configuration.
#[derive(Debug, Clone)]
pub struct RequestxConfig {
    pub client: HttpClientConfig,
    pub runtime: RuntimeConfig,
}

impl RequestxConfig {
    /// Whether `self` holds the built-in settings.
    pub open spec fn is_default(&self) -> bool {
        self.client == HttpClientConfig::spec_default() && self.runtime.is_default()
    }
}

impl Default for RequestxConfig {
    fn default() -> (r: Self)
        ensures
            r.is_default(),
    {
        RequestxConfig { client: HttpClientConfig::default(), runtime: RuntimeConfig::default() }
    }
}

/// What became of the attempt to read and parse the configuration file.
#[derive(Debug, Clone)]
pub enum ConfigSource {
    /// No configuration file exists.
    Missing,
    /// The file exists but could not be read.
    Unreadable,
    /// The file was read but does not hold a valid configuration.
    Invalid,
    /// The file held this configuration.
    Parsed(RequestxConfig),
}

impl RequestxConfig {
    /// The configuration chosen for a given outcome of reading the file.
    pub open spec fn spec_load(source: ConfigSource) -> Option<RequestxConfig> {
        match source {
            ConfigSource::Parsed(c) => Some(c),
            _ => None,
        }
    }

    /// Chooses the configuration: the parsed file if there is one, otherwise
    /// the defaults (a missing, unreadable or invalid file falls back to them).
    pub fn load(source: ConfigSource) -> (r: Self)
        ensures
            match Self::spec_load(source) {
                Some(c) => r == c,
                None => r.is_default(),
            },
    {
        match source {
            ConfigSource::Parsed(c) => c,
            _ => Self::default(),
        }
    }
}

/// The process-wide configuration: initialised once, on first use, from the
/// configuration file; every later use sees that same value.
pub fn get_config(cell: &mut Option<RequestxConfig>, source: ConfigSource) -> (r: RequestxConfig)
    ensures
        match *old(cell) {
            Some(c) => r == c && *final(cell) == *old(cell),
            None => {
                &&& *final(cell) == Some(r)
                &&& match RequestxConfig::spec_load(source) {
                    Some(c) => r == c,
                    None => r.is_default(),
                }
            },
        },
{
    match cell {
        Some(c) => clone_config(c),
        None => {
            let c = RequestxConfig::load(source);
            let r = clone_config(&c);
            *cell = Some(c);
            r
        },
    }
}

fn clone_string(s: &String) -> (r: String)
    ensures
        r == *s,
{
    s.clone()
}

fn clone_config(c: &RequestxConfig) -> (r: RequestxConfig)
    ensures
        r == *c,
{
    RequestxConfig {
        client: HttpClientConfig {
            pool_idle_timeout_secs: c.client.pool_idle_timeout_secs,
            pool_max_idle_per_host: c.client.pool_max_idle_per_host,
            http2_only: c.client.http2_only,
            http2_keep_alive_interval_secs: c.client.http2_keep_alive_interval_secs,
            http2_keep_alive_timeout_secs: c.client.http2_keep_alive_timeout_secs,
            http2_initial_stream_window_size: c.client.http2_initial_stream_window_size,
            http2_initial_connection_window_size: c.client.http2_initial_connection_window_size,
        },
        runtime: RuntimeConfig {
            worker_threads: c.runtime.worker_threads,
            max_blocking_threads: c.runtime.max_blocking_threads,
            thread_name: clone_string(&c.runtime.thread_name),
            thread_stack_size: c.runtime.thread_stack_size,
        },
    }
}

/// The HTTP client part of a configuration.
pub fn get_http_client_config(config: &RequestxConfig) -> (r: &HttpClientConfig)
    ensures
        *r == config.client,
{
    &config.client
}

/// The runtime part of a configuration.
pub fn get_runtime_config(config: &RequestxConfig) -> (r: &RuntimeConfig)
    ensures
        *r == config.runtime,
{
    &config.runtime
}

} // verus!
