//! Bridge parameters derived from the allow rules.

use vstd::prelude::*;
use crate::backend::{CreateBridgeParams, TcpAllow};
use super::rule::NetworkRule;

verus! {

/// The fixed TCP port mitmdump listens on for HTTP proxying. Each
/// instance gets its own bridge with a unique gateway IP, so there is
/// no cross-instance port contention.
pub const PROXY_PORT: u16 = 34975;

/// The fixed port mitmdump's DNS listener uses. One above the HTTP
/// proxy port -- high enough to avoid privileged-port restrictions.
pub const DNS_PORT: u16 = 34976;

/// Network isolation parameters for an environment.
#[derive(Debug)]
pub struct NetworkParams {
    /// Allowed hosts and paths. Default-deny: anything not matched
    /// by a rule is blocked.
    pub allow: Vec<NetworkRule>,
    /// Enable DNS filtering through the proxy. When true, the bridge
    /// ACL restricts DNS to the gateway only, forcing all DNS traffic
    /// through mitmproxy where the allowlist is enforced.
    pub dns: bool,
}

impl Default for NetworkParams {
    fn default() -> (r: Self)
        ensures
            r.allow@.len() == 0,
            r.dns,
    {
        NetworkParams { allow: Vec::new(), dns: true }
    }
}

/// The TCP destinations among `rules` that have at least one port, in
/// order, as (host, ports).
pub open spec fn tcp_allows(rules: Seq<NetworkRule>) -> Seq<(Seq<char>, Seq<u16>)>
    decreases rules.len(),
{
    if rules.len() == 0 {
        Seq::empty()
    } else {
        tcp_allows(rules.drop_last()) + match rules.last() {
            NetworkRule::Tcp { host, ports } => if ports@.len() > 0 {
                seq![(host@, ports@)]
            } else {
                Seq::empty()
            },
            _ => Seq::empty(),
        }
    }
}

/// The (host, ports) of each bridge allow rule.
pub open spec fn allow_view(a: Seq<TcpAllow>) -> Seq<(Seq<char>, Seq<u16>)> {
    Seq::new(a.len(), |i: int| (a[i].host@, a[i].ports@))
}

fn copy_ports(p: &Vec<u16>) -> (r: Vec<u16>)
    ensures
        r@ == p@,
{
    let mut r = Vec::new();
    let mut i: usize = 0;
    while i < p.len()
        invariant
            i <= p.len(),
            r@ == p@.take(i as int),
        decreases p.len() - i,
    {
        r.push(p[i]);
        assert(p@.take(i as int).push(p@[i as int]) == p@.take(i + 1));
        i = i + 1;
    }
    assert(p@.take(p.len() as int) == p@);
    r
}

impl NetworkParams {
    /// Build a [`CreateBridgeParams`] from these network parameters.
    ///
    /// The `keep` flag controls whether the bridge is preserved
    /// after the instance exits.
    pub fn to_create_bridge_params(&self, keep: bool) -> (r: CreateBridgeParams)
        ensures
            r.keep == keep,
            r.dns == self.dns,
            r.proxy_port == PROXY_PORT,
            r.dns_port == DNS_PORT,
            allow_view(r.allow_tcp@) == tcp_allows(self.allow@),
    {
        let mut allow_tcp: Vec<TcpAllow> = Vec::new();
        let mut i: usize = 0;
        assert(self.allow@.take(0) =~= Seq::<NetworkRule>::empty());
        assert(allow_view(allow_tcp@) =~= Seq::<(Seq<char>, Seq<u16>)>::empty());
        while i < self.allow.len()
            invariant
                i <= self.allow@.len(),
                allow_view(allow_tcp@) == tcp_allows(self.allow@.take(i as int)),
            decreases self.allow@.len() - i,
        {
            let ghost t = self.allow@.take(i + 1);
            assert(t.drop_last() =~= self.allow@.take(i as int));
            assert(t.last() == self.allow@[i as int]);
            match &self.allow[i] {
                NetworkRule::Tcp { host, ports } => {
                    if ports.len() > 0 {
                        let a = TcpAllow { host: host.clone(), ports: copy_ports(ports) };
                        let ghost old_a = allow_tcp@;
                        allow_tcp.push(a);
                        assert(allow_view(allow_tcp@) =~= allow_view(old_a) + seq![(host@, ports@)]);
                    } else {
                        assert(tcp_allows(t) =~= tcp_allows(t.drop_last()));
                    }
                },
                NetworkRule::Http { .. } => {
                    assert(tcp_allows(t) =~= tcp_allows(t.drop_last()));
                },
            }
            i = i + 1;
        }
        assert(self.allow@.take(self.allow@.len() as int) =~= self.allow@);
        CreateBridgeParams { keep, dns: self.dns, proxy_port: PROXY_PORT, dns_port: DNS_PORT, allow_tcp }
    }
}

} // verus!
