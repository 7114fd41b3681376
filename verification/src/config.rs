use vstd::prelude::*;
use vstd::utf8::encode_utf8;
use crate::number::{parse_u16, parse_u64, parse_usize, spec_parse_unsigned};

verus! {

broadcast use vstd::string::to_string_from_display_ensures_for_str;

/// Where and how upstream queries are sent.
pub struct ResolveConfig {
    pub dns_addr: String,
    pub dns_timeout: u64,
    pub dns_host: String,
}

/// Where the server listens.
pub struct ServeConfig {
    pub host: String,
    pub port: u16,
}

/// Sizes and periods of the answer cache.
pub struct HandleConfig {
    pub initial_cache_size: usize,
    pub metrics_interval: u64,
    pub cache_cleanup_interval: u64,
}

/// The whole configuration of the server.
pub struct Config {
    pub resolve: ResolveConfig,
    pub serve: ServeConfig,
    pub handle: HandleConfig,
}

impl ResolveConfig {
    /// The built-in upstream: Cloudflare's DNS-over-HTTPS endpoint, 5 s timeout.
    pub open spec fn is_default(&self) -> bool {
        &&& self.dns_addr@ == "1.1.1.1:443"@
        &&& self.dns_timeout == 5
        &&& self.dns_host@ == "cloudflare-dns.com"@
    }
}

impl ServeConfig {
    /// The built-in listening address: 127.0.0.2, port 53.
    pub open spec fn is_default(&self) -> bool {
        &&& self.host@ == "127.0.0.2"@
        &&& self.port == 53
    }
}

impl HandleConfig {
    /// The built-in cache settings: room for 10 000 entries, one-minute periods.
    pub open spec fn is_default(&self) -> bool {
        &&& self.initial_cache_size == 10_000
        &&& self.metrics_interval == 60
        &&& self.cache_cleanup_interval == 60
    }
}

impl Config {
    pub open spec fn is_default(&self) -> bool {
        &&& self.resolve.is_default()
        &&& self.serve.is_default()
        &&& self.handle.is_default()
    }
}

impl Default for ResolveConfig {
    fn default() -> (r: Self)
        ensures
            r.is_default(),
    {
        ResolveConfig {
            dns_addr: "1.1.1.1:443".to_string(),
            dns_timeout: 5,
            dns_host: "cloudflare-dns.com".to_string(),
        }
    }
}

impl Default for ServeConfig {
    fn default() -> (r: Self)
        ensures
            r.is_default(),
    {
        ServeConfig { host: "127.0.0.2".to_string(), port: 53 }
    }
}

impl Default for HandleConfig {
    fn default() -> (r: Self)
        ensures
            r.is_default(),
    {
        HandleConfig { initial_cache_size: 10_000, metrics_interval: 60, cache_cleanup_interval: 60 }
    }
}

impl Config {
    /// The configuration with every section at its built-in value.
    pub fn new() -> (r: Self)
        ensures
            r.is_default(),
    {
        Config {
            resolve: ResolveConfig::default(),
            serve: ServeConfig::default(),
            handle: HandleConfig::default(),
        }
    }
}


/// Settings given as text from one source (the command line, or the
/// environment): each one may be absent.
pub struct Overrides {
    pub host: Option<String>,
    pub port: Option<String>,
    pub dns_addr: Option<String>,
    pub dns_timeout: Option<String>,
    pub dns_host: Option<String>,
    pub initial_cache_size: Option<String>,
    pub metrics_interval: Option<String>,
    pub cache_cleanup_interval: Option<String>,
}

impl Overrides {
    /// No setting given.
    pub fn none() -> (r: Self)
        ensures
            r.host is None,
            r.port is None,
            r.dns_addr is None,
            r.dns_timeout is None,
            r.dns_host is None,
            r.initial_cache_size is None,
            r.metrics_interval is None,
            r.cache_cleanup_interval is None,
    {
        Overrides {
            host: None,
            port: None,
            dns_addr: None,
            dns_timeout: None,
            dns_host: None,
            initial_cache_size: None,
            metrics_interval: None,
            cache_cleanup_interval: None,
        }
    }
}

/// The text that wins for one setting: the first source's if it gave one,
/// else the second's.
pub open spec fn given(first: Option<String>, second: Option<String>) -> Option<Seq<char>> {
    match first {
        Some(s) => Some(s@),
        None => match second {
            Some(s) => Some(s@),
            None => None,
        },
    }
}

/// A text setting after an override: the given text, else the current value.
pub open spec fn text_setting(current: Seq<char>, text: Option<Seq<char>>) -> Seq<char> {
    match text {
        Some(t) => t,
        None => current,
    }
}

/// A number setting after an override: the given text read as a number no
/// greater than `max`; the current value when no text was given or it does
/// not read as such a number.
pub open spec fn number_setting(current: int, text: Option<Seq<char>>, max: int) -> int {
    match text {
        Some(t) => match spec_parse_unsigned(encode_utf8(t), max) {
            Some(v) => v,
            None => current,
        },
        None => current,
    }
}

/// The first of two optional texts that is present.
pub fn first_given(first: &Option<String>, second: &Option<String>) -> (r: Option<String>)
    ensures
        match r {
            Some(s) => given(*first, *second) == Some(s@),
            None => given(*first, *second) is None,
        },
{
    match first {
        Some(s) => Some(s.clone()),
        None => match second {
            Some(s) => Some(s.clone()),
            None => None,
        },
    }
}

fn override_text(current: &mut String, text: Option<String>)
    ensures
        final(current)@ == text_setting(old(current)@, match text { Some(t) => Some(t@), None => None }),
{
    if let Some(t) = text {
        *current = t;
    }
}

impl Config {
    /// Lays settings from two sources over this configuration: for each
    /// setting the command line (`args`) wins over the environment (`env`),
    /// which wins over the value already held. A number that does not read
    /// as one of its type leaves the value already held, even when the other
    /// source has a readable one.
    pub fn apply_overrides(&mut self, args: &Overrides, env: &Overrides)
        ensures
            final(self).serve.host@ == text_setting(old(self).serve.host@, given(args.host, env.host)),
            final(self).serve.port as int == number_setting(
                old(self).serve.port as int,
                given(args.port, env.port),
                u16::MAX as int,
            ),
            final(self).resolve.dns_addr@ == text_setting(
                old(self).resolve.dns_addr@,
                given(args.dns_addr, env.dns_addr),
            ),
            final(self).resolve.dns_timeout as int == number_setting(
                old(self).resolve.dns_timeout as int,
                given(args.dns_timeout, env.dns_timeout),
                u64::MAX as int,
            ),
            final(self).resolve.dns_host@ == text_setting(
                old(self).resolve.dns_host@,
                given(args.dns_host, env.dns_host),
            ),
            final(self).handle.initial_cache_size as int == number_setting(
                old(self).handle.initial_cache_size as int,
                given(args.initial_cache_size, env.initial_cache_size),
                usize::MAX as int,
            ),
            final(self).handle.metrics_interval as int == number_setting(
                old(self).handle.metrics_interval as int,
                given(args.metrics_interval, env.metrics_interval),
                u64::MAX as int,
            ),
            final(self).handle.cache_cleanup_interval as int == number_setting(
                old(self).handle.cache_cleanup_interval as int,
                given(args.cache_cleanup_interval, env.cache_cleanup_interval),
                u64::MAX as int,
            ),
    {
        override_text(&mut self.serve.host, first_given(&args.host, &env.host));
        if let Some(t) = first_given(&args.port, &env.port) {
            if let Some(v) = parse_u16(t.as_str()) {
                self.serve.port = v;
            }
        }
        override_text(&mut self.resolve.dns_addr, first_given(&args.dns_addr, &env.dns_addr));
        if let Some(t) = first_given(&args.dns_timeout, &env.dns_timeout) {
            if let Some(v) = parse_u64(t.as_str()) {
                self.resolve.dns_timeout = v;
            }
        }
        override_text(&mut self.resolve.dns_host, first_given(&args.dns_host, &env.dns_host));
        if let Some(t) = first_given(&args.initial_cache_size, &env.initial_cache_size) {
            if let Some(v) = parse_usize(t.as_str()) {
                self.handle.initial_cache_size = v;
            }
        }
        if let Some(t) = first_given(&args.metrics_interval, &env.metrics_interval) {
            if let Some(v) = parse_u64(t.as_str()) {
                self.handle.metrics_interval = v;
            }
        }
        if let Some(t) = first_given(&args.cache_cleanup_interval, &env.cache_cleanup_interval) {
            if let Some(v) = parse_u64(t.as_str()) {
                self.handle.cache_cleanup_interval = v;
            }
        }
    }
}

} // verus!
