use named::config::first_given;
use named::number::{parse_u16, parse_u64, parse_usize};
use named::{Config, HandleConfig, Overrides, ResolveConfig, ServeConfig};

#[test]
fn defaults_match_the_documented_values() {
    let c = Config::new();
    assert_eq!(c.resolve.dns_addr, "1.1.1.1:443");
    assert_eq!(c.resolve.dns_timeout, 5);
    assert_eq!(c.resolve.dns_host, "cloudflare-dns.com");
    assert_eq!(c.serve.host, "127.0.0.2");
    assert_eq!(c.serve.port, 53);
    assert_eq!(c.handle.initial_cache_size, 10_000);
    assert_eq!(c.handle.metrics_interval, 60);
    assert_eq!(c.handle.cache_cleanup_interval, 60);
}

#[test]
fn section_defaults_agree_with_new() {
    let r = ResolveConfig::default();
    let s = ServeConfig::default();
    let h = HandleConfig::default();
    let c = Config::new();
    assert_eq!(r.dns_addr, c.resolve.dns_addr);
    assert_eq!(r.dns_host, c.resolve.dns_host);
    assert_eq!(s.host, c.serve.host);
    assert_eq!(s.port, c.serve.port);
    assert_eq!(h.initial_cache_size, c.handle.initial_cache_size);
}

fn some(s: &str) -> Option<String> {
    Some(s.to_string())
}

#[test]
fn command_line_wins_over_environment() {
    let mut c = Config::new();
    let mut args = Overrides::none();
    let mut env = Overrides::none();
    args.host = some("0.0.0.0");
    env.host = some("10.0.0.1");
    env.dns_host = some("dns.google");
    args.port = some("5353");
    env.port = some("53535");
    c.apply_overrides(&args, &env);
    assert_eq!(c.serve.host, "0.0.0.0");
    assert_eq!(c.resolve.dns_host, "dns.google");
    assert_eq!(c.serve.port, 5353);
    assert_eq!(c.resolve.dns_addr, "1.1.1.1:443");
}

#[test]
fn unreadable_number_keeps_current_value_even_if_environment_has_one() {
    let mut c = Config::new();
    let mut args = Overrides::none();
    let mut env = Overrides::none();
    args.port = some("not-a-port");
    env.port = some("8053");
    args.dns_timeout = some("70000000000000000000");
    env.metrics_interval = some("-5");
    env.initial_cache_size = some("+250");
    env.cache_cleanup_interval = some("30");
    c.apply_overrides(&args, &env);
    assert_eq!(c.serve.port, 53);
    assert_eq!(c.resolve.dns_timeout, 5);
    assert_eq!(c.handle.metrics_interval, 60);
    assert_eq!(c.handle.initial_cache_size, 250);
    assert_eq!(c.handle.cache_cleanup_interval, 30);
}

#[test]
fn no_overrides_change_nothing() {
    let mut c = Config::new();
    c.apply_overrides(&Overrides::none(), &Overrides::none());
    assert_eq!(c.serve.host, "127.0.0.2");
    assert_eq!(c.serve.port, 53);
    assert_eq!(c.resolve.dns_timeout, 5);
}

#[test]
fn first_given_prefers_the_first_source() {
    assert_eq!(first_given(&some("a"), &some("b")), some("a"));
    assert_eq!(first_given(&None, &some("b")), some("b"));
    assert_eq!(first_given(&None, &None), None);
}

#[test]
fn parses_like_std_for_unsigned_types() {
    for s in ["0", "53", "+53", "0053", "65535", "65536", "", "+", "-1", " 1", "1 ", "1_0", "٣", "+-1"] {
        assert_eq!(parse_u16(s), s.parse::<u16>().ok(), "u16 {:?}", s);
        assert_eq!(parse_u64(s), s.parse::<u64>().ok(), "u64 {:?}", s);
        assert_eq!(parse_usize(s), s.parse::<usize>().ok(), "usize {:?}", s);
    }
    for s in ["18446744073709551615", "18446744073709551616", "99999999999999999999999"] {
        assert_eq!(parse_u64(s), s.parse::<u64>().ok(), "u64 {:?}", s);
        assert_eq!(parse_usize(s), s.parse::<usize>().ok(), "usize {:?}", s);
    }
}

#[test]
fn parse_exact_values() {
    assert_eq!(parse_u16("8053"), Some(8053));
    assert_eq!(parse_u16("65536"), None);
    assert_eq!(parse_u64("18446744073709551615"), Some(u64::MAX));
    assert_eq!(parse_u64("+"), None);
}
