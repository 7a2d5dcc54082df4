use celily::backend::acl::{
    build_dnsmasq_config, build_rules_from_params, rule_to_cli_args, Action, Direction,
    NetworkAclRule, Protocol,
};
use celily::backend::{CreateBridgeParams, TcpAllow};

#[test]
fn rule_to_cli_args_minimal() {
    let rule = NetworkAclRule {
        direction: Direction::Egress,
        action: Action::Deny,
        protocol: None,
        source: None,
        destination: None,
        source_port: None,
        destination_port: None,
    };
    assert_eq!(rule_to_cli_args(&rule), vec!["egress", "action=deny"]);
}

#[test]
fn rule_to_cli_args_full() {
    let rule = NetworkAclRule {
        direction: Direction::Egress,
        action: Action::Allow,
        protocol: Some(Protocol::Tcp),
        source: None,
        destination: Some("10.0.0.1".into()),
        source_port: None,
        destination_port: Some("443,8443".into()),
    };
    assert_eq!(
        rule_to_cli_args(&rule),
        vec![
            "egress",
            "action=allow",
            "protocol=tcp",
            "destination=10.0.0.1",
            "destination_port=443,8443",
        ]
    );
}

#[test]
fn dnsmasq_config_only_with_dns_filtering() {
    assert_eq!(build_dnsmasq_config(false, "10.1.2.1", 34976), None);
    assert_eq!(
        build_dnsmasq_config(true, "10.1.2.1", 34976).unwrap(),
        "no-resolv\nno-poll\ncache-size=0\nserver=10.1.2.1#34976\n"
    );
}

#[test]
fn bridge_rules_allow_proxy_and_tcp_destinations() {
    let params = CreateBridgeParams {
        keep: false,
        dns: true,
        proxy_port: 34975,
        dns_port: 34976,
        allow_tcp: vec![TcpAllow { host: "1.2.3.4".into(), ports: vec![443, 8443] }],
    };
    let rules = build_rules_from_params(&params, "10.0.0.1");
    let args: Vec<Vec<String>> = rules.iter().map(rule_to_cli_args).collect();
    assert!(args.iter().any(|a| a.contains(&"destination=1.2.3.4".to_string())
        && a.contains(&"destination_port=443,8443".to_string())));
    assert!(args.iter().any(|a| a.contains(&"destination=10.0.0.1".to_string())
        && a.contains(&"destination_port=34975".to_string())));
    assert!(args.iter().all(|a| a[0] == "egress" || a[0] == "ingress"));
}
