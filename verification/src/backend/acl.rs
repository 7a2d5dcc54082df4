//! LXD network ACL rules and their command-line form.

use vstd::prelude::*;
use crate::backend::CreateBridgeParams;
use crate::strings::{decimal, decimal_chars, owned, push_chars, push_str, string_of, strings_view};

verus! {

/// Direction for a network ACL rule.
#[derive(Debug, Clone, Copy, PartialEq, Eq, Structural)]
pub enum Direction {
    Ingress,
    Egress,
}

/// Action for a network ACL rule.
#[derive(Debug, Clone, Copy, PartialEq, Eq, Structural)]
pub enum Action {
    Allow,
    Deny,
    Reject,
}

/// Network-layer protocol for a network ACL rule.
#[derive(Debug, Clone, Copy, PartialEq, Eq, Structural)]
pub enum Protocol {
    Tcp,
    Udp,
    Icmp,
    Icmp6,
}

pub open spec fn direction_name(d: Direction) -> Seq<char> {
    match d {
        Direction::Ingress => "ingress"@,
        Direction::Egress => "egress"@,
    }
}

pub open spec fn action_name(a: Action) -> Seq<char> {
    match a {
        Action::Allow => "allow"@,
        Action::Deny => "deny"@,
        Action::Reject => "reject"@,
    }
}

pub open spec fn protocol_name(p: Protocol) -> Seq<char> {
    match p {
        Protocol::Tcp => "tcp"@,
        Protocol::Udp => "udp"@,
        Protocol::Icmp => "icmp"@,
        Protocol::Icmp6 => "icmp6"@,
    }
}

impl Direction {
    /// Lowercase name.
    pub fn as_str(self) -> (r: &'static str)
        ensures
            r@ == direction_name(self),
    {
        match self {
            Direction::Ingress => "ingress",
            Direction::Egress => "egress",
        }
    }
}

impl Action {
    /// Lowercase name.
    pub fn as_str(self) -> (r: &'static str)
        ensures
            r@ == action_name(self),
    {
        match self {
            Action::Allow => "allow",
            Action::Deny => "deny",
            Action::Reject => "reject",
        }
    }
}

impl Protocol {
    /// Lowercase name.
    pub fn as_str(self) -> (r: &'static str)
        ensures
            r@ == protocol_name(self),
    {
        match self {
            Protocol::Tcp => "tcp",
            Protocol::Udp => "udp",
            Protocol::Icmp => "icmp",
            Protocol::Icmp6 => "icmp6",
        }
    }
}

/// A single LXD network ACL rule.
///
/// Direction and action are required; all other fields are optional.
/// `None` fields mean "match any" at the LXD level.
#[derive(Debug)]
pub struct NetworkAclRule {
    pub direction: Direction,
    pub action: Action,
    pub protocol: Option<Protocol>,
    pub source: Option<String>,
    pub destination: Option<String>,
    pub source_port: Option<String>,
    pub destination_port: Option<String>,
}

/// `key=value` for a present field, nothing for an absent one.
pub open spec fn kv_arg(key: Seq<char>, v: Option<String>) -> Seq<Seq<char>> {
    match v {
        Some(x) => seq![key + x@],
        None => Seq::empty(),
    }
}

/// The arguments of `lxc network acl rule add` for a rule.
pub open spec fn acl_rule_args(r: NetworkAclRule) -> Seq<Seq<char>> {
    seq![direction_name(r.direction), "action="@ + action_name(r.action)] + match r.protocol {
        Some(p) => seq!["protocol="@ + protocol_name(p)],
        None => Seq::empty(),
    } + kv_arg("source="@, r.source) + kv_arg("destination="@, r.destination) + kv_arg(
        "source_port="@,
        r.source_port,
    ) + kv_arg("destination_port="@, r.destination_port)
}

fn push_kv(args: &mut Vec<String>, key: &str, v: &Option<String>)
    ensures
        strings_view(final(args)@) == strings_view(old(args)@) + kv_arg(key@, *v),
{
    match v {
        Some(x) => {
            let mut t = Vec::new();
            push_str(&mut t, key);
            push_str(&mut t, x.as_str());
            let s = string_of(&t);
            let ghost old_a = args@;
            args.push(s);
            assert(strings_view(args@) =~= strings_view(old_a) + kv_arg(key@, *v));
        },
        None => {
            assert(strings_view(args@) + Seq::<Seq<char>>::empty() =~= strings_view(args@));
        },
    }
}

/// Translate a [`NetworkAclRule`] into CLI arguments for
/// `lxc network acl rule add`.
///
/// The direction is emitted as a positional argument; all other
/// fields are emitted as `key=value` pairs. `None` fields are omitted
/// entirely (LXD treats absent filters as "any").
pub fn rule_to_cli_args(rule: &NetworkAclRule) -> (r: Vec<String>)
    ensures
        strings_view(r@) == acl_rule_args(*rule),
{
    let mut args: Vec<String> = Vec::new();
    args.push(owned(rule.direction.as_str()));
    let mut a = Vec::new();
    push_str(&mut a, "action=");
    push_str(&mut a, rule.action.as_str());
    args.push(string_of(&a));
    let ghost base = strings_view(args@);
    assert(base =~= seq![direction_name(rule.direction), "action="@ + action_name(rule.action)]);
    match rule.protocol {
        Some(p) => {
            let mut t = Vec::new();
            push_str(&mut t, "protocol=");
            push_str(&mut t, p.as_str());
            args.push(string_of(&t));
            assert(strings_view(args@) =~= base + seq!["protocol="@ + protocol_name(p)]);
        },
        None => {
            assert(strings_view(args@) =~= base + Seq::<Seq<char>>::empty());
        },
    }
    push_kv(&mut args, "source=", &rule.source);
    push_kv(&mut args, "destination=", &rule.destination);
    push_kv(&mut args, "source_port=", &rule.source_port);
    push_kv(&mut args, "destination_port=", &rule.destination_port);
    args
}

/// Decimal port numbers joined with commas.
pub open spec fn port_list(ports: Seq<u16>) -> Seq<char>
    decreases ports.len(),
{
    if ports.len() == 0 {
        Seq::empty()
    } else if ports.len() == 1 {
        decimal(ports[0] as nat)
    } else {
        port_list(ports.drop_last()) + seq![','] + decimal(ports.last() as nat)
    }
}

/// `443,8443` for ports 443 and 8443.
pub fn join_ports(ports: &Vec<u16>) -> (r: String)
    ensures
        r@ == port_list(ports@),
{
    let mut v: Vec<char> = Vec::new();
    let mut i: usize = 0;
    while i < ports.len()
        invariant
            i <= ports@.len(),
            v@ == port_list(ports@.take(i as int)),
        decreases ports@.len() - i,
    {
        let ghost t = ports@.take(i + 1);
        assert(t.drop_last() =~= ports@.take(i as int));
        assert(t.last() == ports@[i as int]);
        if i > 0 {
            v.push(',');
        }
        let d = decimal_chars(ports[i] as u64);
        push_chars(&mut v, &d);
        proof {
            if i == 0 {
                assert(ports@.take(0).len() == 0);
                assert(v@ =~= port_list(t));
            }
        }
        i = i + 1;
    }
    assert(ports@.take(ports@.len() as int) =~= ports@);
    string_of(&v)
}

/// `key=value` for a present field, nothing for an absent one (fields as
/// text).
pub open spec fn kv_view_arg(key: Seq<char>, v: Option<Seq<char>>) -> Seq<Seq<char>> {
    match v {
        Some(x) => seq![key + x],
        None => Seq::empty(),
    }
}

/// The arguments of `lxc network acl rule add` for a rule given as plain
/// values.
pub open spec fn view_rule_args(r: AclRuleView) -> Seq<Seq<char>> {
    seq![direction_name(r.direction), "action="@ + action_name(r.action)] + match r.protocol {
        Some(p) => seq!["protocol="@ + protocol_name(p)],
        None => Seq::empty(),
    } + kv_view_arg("source="@, r.source) + kv_view_arg("destination="@, r.destination) + kv_view_arg(
        "source_port="@,
        r.source_port,
    ) + kv_view_arg("destination_port="@, r.destination_port)
}

/// A rule's arguments depend only on its plain values.
pub proof fn lemma_rule_args_view(r: NetworkAclRule)
    ensures
        acl_rule_args(r) == view_rule_args(rule_view(r)),
{
    assert(kv_arg("source="@, r.source) == kv_view_arg("source="@, crate::strings::opt_view(r.source)));
    assert(kv_arg("destination="@, r.destination) == kv_view_arg(
        "destination="@,
        crate::strings::opt_view(r.destination),
    ));
    assert(kv_arg("source_port="@, r.source_port) == kv_view_arg(
        "source_port="@,
        crate::strings::opt_view(r.source_port),
    ));
    assert(kv_arg("destination_port="@, r.destination_port) == kv_view_arg(
        "destination_port="@,
        crate::strings::opt_view(r.destination_port),
    ));
}

/// The view of a rule as plain values.
pub struct AclRuleView {
    pub direction: Direction,
    pub action: Action,
    pub protocol: Option<Protocol>,
    pub source: Option<Seq<char>>,
    pub destination: Option<Seq<char>>,
    pub source_port: Option<Seq<char>>,
    pub destination_port: Option<Seq<char>>,
}

pub open spec fn rule_view(r: NetworkAclRule) -> AclRuleView {
    AclRuleView {
        direction: r.direction,
        action: r.action,
        protocol: r.protocol,
        source: crate::strings::opt_view(r.source),
        destination: crate::strings::opt_view(r.destination),
        source_port: crate::strings::opt_view(r.source_port),
        destination_port: crate::strings::opt_view(r.destination_port),
    }
}

/// An egress allow rule for `protocol` to `destination` on `port`.
pub open spec fn egress_allow(protocol: Protocol, destination: Option<Seq<char>>, port: Seq<char>) -> AclRuleView {
    AclRuleView {
        direction: Direction::Egress,
        action: Action::Allow,
        protocol: Some(protocol),
        source: None,
        destination,
        source_port: None,
        destination_port: Some(port),
    }
}

/// The egress rules for a bridge: TCP to the gateway on the proxy port;
/// DNS over UDP and TCP on port 53 (to the gateway only when DNS filtering
/// is on, to anywhere otherwise); then TCP to each allowed host on its
/// ports.
pub open spec fn bridge_rules(params: CreateBridgeParams, gateway: Seq<char>) -> Seq<AclRuleView> {
    let dns_dest = if params.dns {
        Some(gateway)
    } else {
        None
    };
    seq![
        egress_allow(Protocol::Tcp, Some(gateway), decimal(params.proxy_port as nat)),
        egress_allow(Protocol::Udp, dns_dest, "53"@),
        egress_allow(Protocol::Tcp, dns_dest, "53"@),
    ] + Seq::new(
        params.allow_tcp@.len(),
        |i: int|
            egress_allow(
                Protocol::Tcp,
                Some(params.allow_tcp@[i].host@),
                port_list(params.allow_tcp@[i].ports@),
            ),
    )
}

/// What a bridge's egress rules allow (see [`build_rules_from_params`]):
/// only egress is allowed, to the proxy on the gateway, DNS over UDP and
/// TCP on port 53, and each allowed TCP host on its ports. With DNS
/// filtering on, DNS goes to the gateway only and no rule leaves its
/// destination open; with it off, DNS may go to any server.
pub proof fn law_bridge_rules(params: CreateBridgeParams, gateway: Seq<char>)
    ensures
        ({
            let rs = bridge_rules(params, gateway);
            let dns_dest = if params.dns { Some(gateway) } else { None::<Seq<char>> };
            &&& rs.len() == 3 + params.allow_tcp@.len()
            &&& forall|i: int| 0 <= i < rs.len() ==> (#[trigger] rs[i]).direction == Direction::Egress
                && rs[i].action == Action::Allow && rs[i].source is None && rs[i].source_port is None
            &&& exists|i: int| 0 <= i < rs.len() && (#[trigger] rs[i]).protocol == Some(Protocol::Tcp)
                && rs[i].destination == Some(gateway) && rs[i].destination_port == Some(decimal(params.proxy_port as nat))
            &&& exists|i: int| 0 <= i < rs.len() && (#[trigger] rs[i]).protocol == Some(Protocol::Udp)
                && rs[i].destination == dns_dest && rs[i].destination_port == Some("53"@)
            &&& exists|i: int| 0 <= i < rs.len() && (#[trigger] rs[i]).protocol == Some(Protocol::Tcp)
                && rs[i].destination == dns_dest && rs[i].destination_port == Some("53"@)
            &&& forall|i: int| 0 <= i < rs.len() && (#[trigger] rs[i]).protocol == Some(Protocol::Udp)
                ==> rs[i].destination == dns_dest && rs[i].destination_port == Some("53"@)
            &&& params.dns ==> forall|i: int| 0 <= i < rs.len() ==> (#[trigger] rs[i]).destination is Some
            &&& forall|i: int| 0 <= i < rs.len() ==> {
                ||| #[trigger] rs[i] == egress_allow(Protocol::Tcp, Some(gateway), decimal(params.proxy_port as nat))
                ||| rs[i] == egress_allow(Protocol::Udp, dns_dest, "53"@)
                ||| rs[i] == egress_allow(Protocol::Tcp, dns_dest, "53"@)
                ||| exists|k: int| 0 <= k < params.allow_tcp@.len() && rs[i] == egress_allow(
                    Protocol::Tcp,
                    Some((#[trigger] params.allow_tcp@[k]).host@),
                    port_list(params.allow_tcp@[k].ports@),
                )
            }
            &&& forall|k: int| 0 <= k < params.allow_tcp@.len() ==> exists|i: int| 0 <= i < rs.len()
                && (#[trigger] rs[i]).protocol == Some(Protocol::Tcp)
                && rs[i].destination == Some((#[trigger] params.allow_tcp@[k]).host@)
                && rs[i].destination_port == Some(port_list(params.allow_tcp@[k].ports@))
        }),
{
    let rs = bridge_rules(params, gateway);
    assert(rs[0].protocol == Some(Protocol::Tcp));
    assert(rs[1].protocol == Some(Protocol::Udp));
    assert(rs[2].protocol == Some(Protocol::Tcp));
    assert forall|k: int| 0 <= k < params.allow_tcp@.len() implies exists|i: int| 0 <= i < rs.len()
        && (#[trigger] rs[i]).protocol == Some(Protocol::Tcp)
        && rs[i].destination == Some((#[trigger] params.allow_tcp@[k]).host@)
        && rs[i].destination_port == Some(port_list(params.allow_tcp@[k].ports@)) by {
        assert(rs[3 + k].protocol == Some(Protocol::Tcp));
    }
    assert forall|i: int| 0 <= i < rs.len() implies {
        ||| #[trigger] rs[i] == egress_allow(Protocol::Tcp, Some(gateway), decimal(params.proxy_port as nat))
        ||| rs[i] == egress_allow(Protocol::Udp, if params.dns { Some(gateway) } else { None::<Seq<char>> }, "53"@)
        ||| rs[i] == egress_allow(Protocol::Tcp, if params.dns { Some(gateway) } else { None::<Seq<char>> }, "53"@)
        ||| exists|k: int| 0 <= k < params.allow_tcp@.len() && rs[i] == egress_allow(
            Protocol::Tcp,
            Some((#[trigger] params.allow_tcp@[k]).host@),
            port_list(params.allow_tcp@[k].ports@),
        )
    } by {
        if i >= 3 {
            let k = i - 3;
            assert(rs[i] == egress_allow(Protocol::Tcp, Some(params.allow_tcp@[k].host@), port_list(params.allow_tcp@[k].ports@)));
        }
    }
    assert forall|i: int| 0 <= i < rs.len() && (#[trigger] rs[i]).protocol == Some(Protocol::Udp) implies
        rs[i].destination == (if params.dns { Some(gateway) } else { None::<Seq<char>> })
        && rs[i].destination_port == Some("53"@) by {
        if i >= 3 {
            assert(rs[i].protocol == Some(Protocol::Tcp));
        }
    }
}

/// Build the list of egress ACL rules from high-level bridge parameters.
///
/// Returns:
/// - A TCP allow rule to the gateway on the proxy port (HTTP proxy).
/// - DNS UDP and TCP allow rules (restricted to the gateway when
///   `dns` is `true`, unrestricted otherwise).
/// - One TCP allow rule per entry in `allow_tcp`.
pub fn build_rules_from_params(params: &CreateBridgeParams, gateway_ip: &str) -> (r: Vec<NetworkAclRule>)
    ensures
        r@.len() == bridge_rules(*params, gateway_ip@).len(),
        forall|i: int| 0 <= i < r@.len() ==> rule_view(#[trigger] r@[i]) == bridge_rules(*params, gateway_ip@)[i],
{
    let ghost spec_rules = bridge_rules(*params, gateway_ip@);
    let mut rules: Vec<NetworkAclRule> = Vec::new();
    rules.push(NetworkAclRule {
        direction: Direction::Egress,
        action: Action::Allow,
        protocol: Some(Protocol::Tcp),
        source: None,
        destination: Some(owned(gateway_ip)),
        source_port: None,
        destination_port: Some(crate::strings::u64_string(params.proxy_port as u64)),
    });
    rules.push(NetworkAclRule {
        direction: Direction::Egress,
        action: Action::Allow,
        protocol: Some(Protocol::Udp),
        source: None,
        destination: if params.dns { Some(owned(gateway_ip)) } else { None },
        source_port: None,
        destination_port: Some(owned("53")),
    });
    rules.push(NetworkAclRule {
        direction: Direction::Egress,
        action: Action::Allow,
        protocol: Some(Protocol::Tcp),
        source: None,
        destination: if params.dns { Some(owned(gateway_ip)) } else { None },
        source_port: None,
        destination_port: Some(owned("53")),
    });
    let mut i: usize = 0;
    while i < params.allow_tcp.len()
        invariant
            i <= params.allow_tcp@.len(),
            spec_rules == bridge_rules(*params, gateway_ip@),
            rules@.len() == 3 + i,
            forall|j: int| 0 <= j < rules@.len() ==> rule_view(#[trigger] rules@[j]) == spec_rules[j],
        decreases params.allow_tcp@.len() - i,
    {
        let tcp = &params.allow_tcp[i];
        let ghost old_rules = rules@;
        rules.push(NetworkAclRule {
            direction: Direction::Egress,
            action: Action::Allow,
            protocol: Some(Protocol::Tcp),
            source: None,
            destination: Some(tcp.host.clone()),
            source_port: None,
            destination_port: Some(join_ports(&tcp.ports)),
        });
        assert forall|j: int| 0 <= j < rules@.len() implies rule_view(#[trigger] rules@[j]) == spec_rules[j] by {
            if j < old_rules.len() {
                assert(rules@[j] == old_rules[j]);
            }
        }
        i = i + 1;
    }
    rules
}

/// The dnsmasq configuration that sends every query to the DNS listener
/// on the gateway (no upstream resolvers, no cache).
pub open spec fn dnsmasq_text(gateway_ip: Seq<char>, dns_port: u16) -> Seq<char> {
    "no-resolv\nno-poll\ncache-size=0\nserver="@ + gateway_ip + "#"@ + decimal(dns_port as nat) + "\n"@
}

/// Build the dnsmasq configuration for DNS filtering.
///
/// When `dns` is `true`, returns a dnsmasq config that disables
/// upstream resolvers, disables caching, and forwards all queries
/// to mitmproxy's DNS listener on the gateway. When `dns` is
/// `false`, returns `None` (no DNS filtering).
pub fn build_dnsmasq_config(dns: bool, gateway_ip: &str, dns_port: u16) -> (r: Option<String>)
    ensures
        match r {
            Some(s) => dns && s@ == dnsmasq_text(gateway_ip@, dns_port),
            None => !dns,
        },
{
    if dns {
        let mut v = Vec::new();
        push_str(&mut v, "no-resolv\nno-poll\ncache-size=0\nserver=");
        push_str(&mut v, gateway_ip);
        push_str(&mut v, "#");
        let d = decimal_chars(dns_port as u64);
        push_chars(&mut v, &d);
        push_str(&mut v, "\n");
        Some(string_of(&v))
    } else {
        None
    }
}

} // verus!
