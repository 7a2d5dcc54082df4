use celily::config::network::{ConfigNetworkRule, ConfigQuotaConfig};
use celily::config::ConfigError;
use celily::envmap::EnvMap;
use celily::network::params::{NetworkParams, DNS_PORT, PROXY_PORT};
use celily::network::rule::{NetworkRule, WindowDuration};

fn http_rule(host: &str, path_prefixes: Option<Vec<String>>, max: u64, window: &str) -> ConfigNetworkRule {
    ConfigNetworkRule::Http {
        host: host.into(),
        path_prefixes,
        auth: None,
        headers: EnvMap::new(),
        methods: None,
        quota: Some(ConfigQuotaConfig { max_requests: max, window: window.into() }),
    }
}

fn message(e: &ConfigError) -> String {
    e.message()
}

#[test]
fn mod_deserialize_quota_on_allow_rule() {
    let rules: Vec<NetworkRule> = vec![
        http_rule("api.openai.com", None, 1000, "1h"),
        http_rule("api.github.com", Some(vec!["/repos".into()]), 500, "30m"),
    ]
    .into_iter()
    .map(|r| r.into_library().unwrap())
    .collect();
    assert_eq!(rules.len(), 2);

    if let NetworkRule::Http { host, quota: Some(q), path_prefixes, .. } = &rules[0] {
        assert_eq!(host, "api.openai.com");
        assert!(path_prefixes.is_none());
        assert_eq!(q.max_requests, 1000);
        assert_eq!(q.window, WindowDuration { secs: 3600, nanos: 0 });
    } else {
        panic!("expected Http rule with quota");
    }

    if let NetworkRule::Http { host, quota: Some(q), path_prefixes: Some(prefixes), .. } = &rules[1] {
        assert_eq!(host, "api.github.com");
        assert_eq!(prefixes, &["/repos"]);
        assert_eq!(q.max_requests, 500);
        assert_eq!(q.window, WindowDuration { secs: 1800, nanos: 0 });
    } else {
        panic!("expected Http rule with quota and path_prefixes");
    }
}

#[test]
fn validate_quota_rejects_zero_max_requests() {
    let err = http_rule("api.example.com", None, 0, "1h").into_library().unwrap_err();
    assert!(message(&err).contains("max_requests must be > 0"));
}

#[test]
fn validate_quota_rejects_bad_window() {
    let err = http_rule("api.example.com", None, 100, "1x").into_library().unwrap_err();
    assert!(message(&err).contains("unknown window suffix"));
}

#[test]
fn network_deserialize_quota_on_allow_rule() {
    let lib_rule = http_rule("api.example.com", None, 1000, "1h").into_library().unwrap();
    if let NetworkRule::Http { host, quota: Some(q), .. } = lib_rule {
        assert_eq!(host, "api.example.com");
        assert_eq!(q.max_requests, 1000);
        assert_eq!(q.window, WindowDuration { secs: 3600, nanos: 0 });
    } else {
        panic!("expected Http rule with quota");
    }
}

#[test]
fn deserialize_rejects_zero_max_requests() {
    let err = http_rule("api.example.com", None, 0, "1h").into_library().unwrap_err();
    assert!(message(&err).contains("max_requests must be > 0"));
}

#[test]
fn deserialize_tcp_valid_ip() {
    let rule = ConfigNetworkRule::Tcp { host: "10.0.0.5".into(), ports: vec![22, 8443] };
    if let NetworkRule::Tcp { host, ports } = rule.into_library().unwrap() {
        assert_eq!(host, "10.0.0.5");
        assert_eq!(ports, vec![22, 8443]);
    } else {
        panic!("expected Tcp rule");
    }
}

#[test]
fn deserialize_tcp_valid_ipv6() {
    let rule = ConfigNetworkRule::Tcp { host: "::1".into(), ports: vec![22] };
    if let NetworkRule::Tcp { host, .. } = rule.into_library().unwrap() {
        assert_eq!(host, "::1");
    } else {
        panic!("expected Tcp rule");
    }
}

#[test]
fn quota_window_rules() {
    let e = http_rule("h", None, 1, "500ms").into_library().unwrap_err();
    assert_eq!(message(&e), "window must be at least one second");
    let e = http_rule("h", None, 1, "").into_library().unwrap_err();
    assert!(message(&e).starts_with("invalid window ''"), "{}", message(&e));
    let ok = http_rule("h", None, 1, "1s 500ms").into_library().unwrap();
    if let NetworkRule::Http { quota: Some(q), .. } = ok {
        assert_eq!(q.window, WindowDuration { secs: 1, nanos: 500_000_000 });
        assert_eq!(q.window.as_secs(), 1);
    } else {
        panic!("expected quota");
    }
    let days = http_rule("h", None, 7, "7d").into_library().unwrap();
    if let NetworkRule::Http { quota: Some(q), .. } = days {
        assert_eq!(q.window.secs, 7 * 86400);
    } else {
        panic!("expected quota");
    }
}

fn make_params(dns: bool, allow: Vec<NetworkRule>) -> NetworkParams {
    NetworkParams { allow, dns }
}

#[test]
fn to_create_bridge_params_minimal() {
    let params = make_params(true, vec![]);
    let cbp = params.to_create_bridge_params(false);
    assert!(!cbp.keep);
    assert!(cbp.dns);
    assert_eq!(cbp.proxy_port, PROXY_PORT);
    assert_eq!(cbp.dns_port, DNS_PORT);
    assert!(cbp.allow_tcp.is_empty());
}

#[test]
fn to_create_bridge_params_dns_disabled() {
    let params = make_params(false, vec![]);
    let cbp = params.to_create_bridge_params(true);
    assert!(cbp.keep);
    assert!(!cbp.dns);
}

#[test]
fn to_create_bridge_params_with_tcp_rules() {
    let params = make_params(
        true,
        vec![
            NetworkRule::Tcp { host: "1.2.3.4".into(), ports: vec![443, 8443] },
            NetworkRule::Tcp { host: "5.6.7.8".into(), ports: vec![22] },
        ],
    );
    let cbp = params.to_create_bridge_params(false);
    assert_eq!(cbp.allow_tcp.len(), 2);
    assert_eq!(cbp.allow_tcp[0].host, "1.2.3.4");
    assert_eq!(cbp.allow_tcp[0].ports, vec![443, 8443]);
    assert_eq!(cbp.allow_tcp[1].host, "5.6.7.8");
    assert_eq!(cbp.allow_tcp[1].ports, vec![22]);
}

#[test]
fn to_create_bridge_params_empty_tcp_ports_skipped() {
    let params =
        make_params(true, vec![NetworkRule::Tcp { host: "1.2.3.4".into(), ports: vec![] }]);
    let cbp = params.to_create_bridge_params(false);
    assert!(cbp.allow_tcp.is_empty());
}

#[test]
fn to_create_bridge_params_http_rules_ignored() {
    let params = NetworkParams {
        allow: vec![NetworkRule::Http {
            host: "api.example.com".into(),
            path_prefixes: None,
            auth: None,
            headers: EnvMap::new(),
            methods: None,
            quota: None,
        }],
        dns: true,
    };
    let cbp = params.to_create_bridge_params(false);
    assert!(cbp.allow_tcp.is_empty());
}

#[test]
fn quota_window_with_too_many_digits_is_refused() {
    let w = "18446744073709551615s 500ms 500ms";
    let e = http_rule("h", None, 1, w).into_library().unwrap_err();
    assert_eq!(message(&e), format!("invalid window '{w}'"));
    let e = http_rule("h", None, 1, "100000000000s 5ms").into_library().unwrap_err();
    assert_eq!(message(&e), "invalid window '100000000000s 5ms'");
    let e = http_rule("h", None, 1, "18446744073709551616s").into_library().unwrap_err();
    assert_eq!(message(&e), "invalid window '18446744073709551616s'");
    for (w, secs) in [("99999999999s", 99_999_999_999u64), ("100000000000s", 100_000_000_000), ("000000000001h", 3600)] {
        match http_rule("h", None, 1, w).into_library().unwrap() {
            NetworkRule::Http { quota: Some(q), .. } => assert_eq!(q.window.secs, secs),
            _ => panic!("expected quota"),
        }
    }
}
