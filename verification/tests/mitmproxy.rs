use celily::command::exit_code;
use celily::network::mitmproxy::{keep_log, ProxyStop};
use celily::envmap::EnvMap;
use celily::network::mitmproxy::{
    build_config_json, confdir, log_dir, log_path, mitmdump_args, read_ca_cert, require_provider,
    secrets_to_resolve, socket_path, state_dir, MitmProxyError,
};
use celily::network::rule::{AuthConfig, NetworkRule, QuotaConfig, WindowDuration};
use celily::secrets::SecretError;

fn http(host: &str, auth: Option<&str>) -> NetworkRule {
    NetworkRule::Http {
        host: host.into(),
        path_prefixes: None,
        auth: auth.map(|s| AuthConfig { secret: s.into(), header: "Authorization".into(), prefix: Some("Bearer ".into()) }),
        headers: EnvMap::new(),
        methods: None,
        quota: None,
    }
}

#[test]
fn config_json_minimal() {
    let json = build_config_json(true, &vec![http("API.Example.com", None)], &EnvMap::new());
    assert_eq!(json, r#"{"allow":[{"host":"api.example.com"}],"dns":true}"#);
}

#[test]
fn config_json_full_rule_and_tcp_skipped() {
    let mut headers = EnvMap::new();
    headers.insert("X-B".into(), "2".into());
    headers.insert("X-A".into(), "quote\"d".into());
    let rule = NetworkRule::Http {
        host: "h".into(),
        path_prefixes: Some(vec!["/v1".into(), "/v2".into()]),
        auth: Some(AuthConfig { secret: "tok".into(), header: "Authorization".into(), prefix: Some("Bearer ".into()) }),
        headers,
        methods: Some(vec!["POST".into()]),
        quota: Some(QuotaConfig { max_requests: 10, window: WindowDuration { secs: 3600, nanos: 5 } }),
    };
    let mut secrets = EnvMap::new();
    secrets.insert("tok".into(), "s3cr3t".into());
    let tcp = NetworkRule::Tcp { host: "1.2.3.4".into(), ports: vec![22] };
    let json = build_config_json(false, &vec![tcp, rule], &secrets);
    assert_eq!(
        json,
        [
            r#"{"allow":[{"auth":{"header":"Authorization","value":"Bearer s3cr3t"},"#,
            r#""headers":{"X-A":"quote\"d","X-B":"2"},"host":"h","methods":["POST"],"#,
            r#""path_prefixes":["/v1","/v2"],"quota":{"max_requests":10,"window_seconds":3600}}],"#,
            r#""dns":false}"#,
        ]
        .concat()
    );
    let parsed: serde_json::Value = serde_json::from_str(&json).unwrap();
    assert_eq!(parsed["allow"][0]["auth"]["value"], "Bearer s3cr3t");
}

#[test]
fn empty_path_prefixes_are_left_out() {
    let rule = NetworkRule::Http {
        host: "h".into(),
        path_prefixes: Some(vec![]),
        auth: None,
        headers: EnvMap::new(),
        methods: None,
        quota: None,
    };
    let json = build_config_json(true, &vec![rule], &EnvMap::new());
    assert!(!json.contains("path_prefixes"));
}

#[test]
fn secrets_resolved_once_in_order() {
    let rules = vec![http("a", Some("s2")), http("b", None), http("c", Some("s1")), http("d", Some("s2"))];
    assert_eq!(secrets_to_resolve(&rules), vec!["s2", "s1"]);
    match require_provider(&secrets_to_resolve(&rules), false) {
        Err(e @ SecretError::NoProvider { .. }) => assert_eq!(
            e.message(),
            "auth.secret 's2' requires a secret provider, but none is configured (set secret_provider in your config)"
        ),
        _ => panic!("expected NoProvider"),
    }
    assert!(require_provider(&secrets_to_resolve(&rules), true).is_ok());
    assert!(require_provider(&vec![], false).is_ok());
}

#[test]
fn ca_cert_answers() {
    assert_eq!(read_ca_cert(br#"{"ca_cert":"PEM"}"#).ok().unwrap(), "PEM");
    match read_ca_cert(b"") {
        Err(e) => assert_eq!(e.message(), "mitmdump did not return a CA certificate: empty response from mitmdump"),
        Ok(_) => panic!(),
    }
    match read_ca_cert(br#"{"other":1}"#) {
        Err(e) => assert_eq!(e.message(), "mitmdump did not return a CA certificate: response missing 'ca_cert' field"),
        Ok(_) => panic!(),
    }
    assert!(matches!(read_ca_cert(b"not json"), Err(MitmProxyError::Json(_))));
}

#[test]
fn files_and_arguments() {
    assert_eq!(state_dir(&None, &Some("/home/u".into())), "/home/u/.local/state");
    assert_eq!(state_dir(&Some("/s".into()), &None), "/s");
    assert_eq!(state_dir(&None, &None), "/.local/state");
    assert_eq!(confdir("/run/user/1", "br-1"), "/run/user/1/celily-mitmproxy-br-1");
    assert_eq!(log_dir("/s"), "/s/celily/logs");
    assert_eq!(log_path("/s/celily/logs", "br-1"), "/s/celily/logs/mitmdump_br-1.log");
    assert_eq!(socket_path("/run/user/1", "br-1"), "/run/user/1/celily/mitmproxy-br-1.sock");
    assert_eq!(
        mitmdump_args("10.0.0.1", "/c"),
        vec![
            "--mode",
            "regular@10.0.0.1:34975",
            "--mode",
            "dns@10.0.0.1:34976",
            "--set",
            "confdir=/c",
            "--scripts",
            "/usr/share/celily/celily-mitmproxy.py",
            "--flow-detail",
            "2",
        ]
    );
}

#[test]
fn ca_cert_must_be_a_string() {
    match read_ca_cert(br#"{"ca_cert":1}"#) {
        Err(e) => assert_eq!(e.message(), "mitmdump did not return a CA certificate: response missing 'ca_cert' field"),
        Ok(_) => panic!(),
    }
    match read_ca_cert(br#"{"ca_cert":""}"#) {
        Err(e) => assert_eq!(e.message(), "mitmdump did not return a CA certificate: response missing 'ca_cert' field"),
        Ok(_) => panic!(),
    }
}

#[test]
fn proxy_log_is_removed_only_after_a_clean_stop() {
    assert!(!keep_log(ProxyStop::Exited { success: true, signaled: false }));
    assert!(!keep_log(ProxyStop::Exited { success: false, signaled: true }));
    assert!(keep_log(ProxyStop::Exited { success: false, signaled: false }));
    assert!(keep_log(ProxyStop::AlreadyExited));
    assert!(keep_log(ProxyStop::WaitFailed));
}

#[test]
fn exit_code_of_a_signalled_command_is_one() {
    assert_eq!(exit_code(Some(0)), 0);
    assert_eq!(exit_code(Some(42)), 42);
    assert_eq!(exit_code(None), 1);
}
