//! The per-instance isolation bridge on LXD/Incus: a managed network with
//! an egress ACL that only lets the proxy, DNS and the allowed TCP
//! destinations through.

use vstd::prelude::*;
use crate::backend::CreateBridgeParams;
use crate::backend::acl::{
    NetworkAclRule, acl_rule_args, bridge_rules, build_dnsmasq_config, build_rules_from_params, dnsmasq_text, lemma_rule_args_view, view_rule_args,
};
use crate::backend::lxd::{LxcBackend, gateway_of, gateway_text, project_run, project_start};
use crate::command::{
    CommandError, CommandRunner, Logged, Ran, added_since, lemma_ran_append, lemma_ran_single, lemma_ran_stopped, ran_in_order,
};
use crate::strings::strings_view;

verus! {

/// What keeps an isolation bridge and its ACL (both named after the
/// bridge) alive. Releasing it deletes them, the ACL first, unless they
/// are kept.
#[derive(Debug)]
pub struct LxdBridgeGuard {
    pub name: String,
    pub keep: bool,
    /// Whether the ACL has been created.
    pub has_acl: bool,
}

/// `recs` is releasing the bridge `name`: nothing when kept, else deleting
/// the ACL (when it was created) and then the network, whatever each
/// answers.
pub open spec fn release_run(b: LxcBackend, name: Seq<char>, keep: bool, has_acl: bool, recs: Seq<Ran>) -> bool {
    let delete_net = b.command_prefix() + seq!["network"@, "delete"@, name];
    let delete_acl = b.command_prefix() + seq!["network"@, "acl"@, "delete"@, name];
    if keep {
        recs.len() == 0
    } else if has_acl {
        &&& recs.len() == 2
        &&& recs[0] matches Ran::Run(a, _) && a == delete_acl
        &&& recs[1] matches Ran::Run(a, _) && a == delete_net
    } else {
        recs.len() == 1 && (recs[0] matches Ran::Run(a, _) && a == delete_net)
    }
}

impl LxdBridgeGuard {
    /// Delete the ACL (when created) and the network, unless kept.
    /// Failures are not reported: the bridge is going away either way.
    pub fn release<R: CommandRunner>(self, backend: &LxcBackend, runner: &mut Logged<R>)
        ensures
            final(runner).history() == old(runner).history() + added_since(
                old(runner).history(),
                final(runner).history(),
            ),
            release_run(*backend, self.name@, self.keep, self.has_acl, added_since(old(runner).history(), final(runner).history())),
    {
        let ghost h0 = runner.history();
        if self.keep {
            assert(added_since(h0, runner.history()) =~= Seq::<Ran>::empty());
            assert(runner.history() =~= h0 + Seq::<Ran>::empty());
            return;
        }
        if self.has_acl {
            let _ = runner.run(&backend.delete_acl_command(self.name.as_str()));
        }
        let _ = runner.run(&backend.delete_network_command(self.name.as_str()));
        let ghost added = added_since(h0, runner.history());
        assert(runner.history() =~= h0 + added);
    }
}

/// The commands that finish the bridge `name` once its gateway is known:
/// create the ACL, add its rules, point DNS at the proxy when filtering,
/// reject all other egress, and attach the ACL.
pub open spec fn finish_plan(b: LxcBackend, name: Seq<char>, params: CreateBridgeParams, gateway: Seq<char>) -> Seq<
    Seq<Seq<char>>,
> {
    let rules = bridge_rules(params, gateway);
    seq![b.command_prefix() + seq!["network"@, "acl"@, "create"@, name]] + Seq::new(
        rules.len(),
        |i: int| b.command_prefix() + seq!["network"@, "acl"@, "rule"@, "add"@, name] + view_rule_args(rules[i]),
    ) + (if params.dns {
        seq![b.command_prefix() + seq!["network"@, "set"@, name, "raw.dnsmasq="@ + dnsmasq_text(gateway, params.dns_port)]]
    } else {
        Seq::empty()
    }) + seq![
        b.command_prefix() + seq!["network"@, "set"@, name, "security.acls.default.egress.action=reject"@],
        b.command_prefix() + seq!["network"@, "set"@, name, "security.acls="@ + name],
    ]
}

/// After project setup `rp`, `rest` is opening the bridge `name` and `r`
/// what that gives: create the network, then read its gateway; a failure
/// after the network exists releases it again.
pub open spec fn bridge_after_project(
    b: LxcBackend,
    name: Seq<char>,
    keep: bool,
    rp: Result<(), CommandError>,
    rest: Seq<Ran>,
    r: Result<(LxdBridgeGuard, String), CommandError>,
) -> bool {
    match rp {
        Err(e) => rest.len() == 0 && (r matches Err(x) && x == e),
        Ok(()) => {
            &&& rest.len() >= 1
            &&& match rest[0] {
                Ran::Run(a, created) => {
                    &&& a == b.command_prefix() + seq!["network"@, "create"@, name, "--type"@, "bridge"@]
                    &&& match created {
                        Err(e) => rest.len() == 1 && (r matches Err(x) && x == e),
                        Ok(_) => {
                            &&& rest.len() >= 2
                            &&& match rest[1] {
                                Ran::Stdout(a2, read) => {
                                    &&& a2 == b.command_prefix() + seq!["network"@, "get"@, name, "ipv4.address"@]
                                    &&& match read {
                                        Ok(raw) => rest.len() == 2 && (r matches Ok((g, gw)) && g.name@ == name
                                            && g.keep == keep && !g.has_acl && gw@ == gateway_of(raw@)),
                                        Err(e) => release_run(b, name, keep, false, rest.skip(2)) && (r matches Err(x) && x == e),
                                    }
                                },
                                Ran::Run(..) => false,
                            }
                        },
                    }
                },
                Ran::Stdout(..) => false,
            }
        },
    }
}

/// `recs` is opening the bridge `name`: project setup (see
/// [`project_run`]), then creating the network and reading its gateway.
pub open spec fn open_bridge_run(
    b: LxcBackend,
    name: Seq<char>,
    keep: bool,
    recs: Seq<Ran>,
    r: Result<(LxdBridgeGuard, String), CommandError>,
) -> bool {
    exists|k: int, rp: Result<(), CommandError>|
        0 <= k <= recs.len() && #[trigger] project_run(b, project_start(b), recs.take(k), rp)
            && bridge_after_project(b, name, keep, rp, recs.skip(k), r)
}

impl LxcBackend {
    /// Create the isolation bridge `name` (LXD defaults: subnet, DHCP,
    /// NAT) after making sure the project exists, and read its gateway
    /// address (the text before the `/` of `ipv4.address`). Once the
    /// network exists, a failure deletes it again (unless kept).
    pub fn open_bridge<R: CommandRunner>(&self, runner: &mut Logged<R>, name: &str, keep: bool) -> (r: Result<
        (LxdBridgeGuard, String),
        CommandError,
    >)
        ensures
            r matches Ok((g, _)) ==> g.name@ == name@ && g.keep == keep && !g.has_acl,
            final(runner).history() == old(runner).history() + added_since(
                old(runner).history(),
                final(runner).history(),
            ),
            open_bridge_run(*self, name@, keep, added_since(old(runner).history(), final(runner).history()), r),
    {
        let ghost h0 = runner.history();
        let pr = self.ensure_project(runner);
        let ghost h1 = runner.history();
        let ghost p = added_since(h0, h1);
        let ghost rp = pr;
        match pr {
            Err(e) => {
                proof {
                    assert(h1 =~= h0 + p);
                    assert(p.take(p.len() as int) =~= p);
                    assert(p.skip(p.len() as int) =~= Seq::<Ran>::empty());
                    assert(project_run(*self, project_start(*self), p.take(p.len() as int), rp));
                }
                return Err(e);
            },
            Ok(()) => {},
        }
        let created = runner.run(&self.create_network_command(name));
        let ghost h2 = runner.history();
        match created {
            Err(e) => {
                proof {
                    let added = added_since(h0, h2);
                    assert(h2 =~= h0 + added);
                    assert(added.take(p.len() as int) =~= p);
                    assert(added.skip(p.len() as int)[0] == h2[h1.len() as int]);
                    assert(added.skip(p.len() as int).len() == 1);
                    assert(project_run(*self, project_start(*self), added.take(p.len() as int), rp));
                }
                return Err(e);
            },
            Ok(()) => {},
        }
        let guard = LxdBridgeGuard { name: crate::strings::owned(name), keep, has_acl: false };
        let read = runner.run_stdout(&self.get_network_ipv4_command(name));
        let ghost h3 = runner.history();
        match read {
            Ok(raw) => {
                let gw = gateway_text(raw.as_str());
                proof {
                    let added = added_since(h0, h3);
                    assert(h3 =~= h0 + added);
                    assert(added.take(p.len() as int) =~= p);
                    let rest = added.skip(p.len() as int);
                    assert(rest.len() == 2);
                    assert(rest[0] == h3[h1.len() as int]);
                    assert(rest[1] == h3[h2.len() as int]);
                    assert(project_run(*self, project_start(*self), added.take(p.len() as int), rp));
                }
                Ok((guard, gw))
            },
            Err(e) => {
                guard.release(self, runner);
                proof {
                    let h4 = runner.history();
                    let added = added_since(h0, h4);
                    assert(h4 =~= h0 + added);
                    assert(added.take(p.len() as int) =~= p);
                    let rest = added.skip(p.len() as int);
                    assert(rest[0] == h4[h1.len() as int]);
                    assert(rest[1] == h4[h2.len() as int]);
                    assert(rest.skip(2) =~= added_since(h3, h4));
                    assert(project_run(*self, project_start(*self), added.take(p.len() as int), rp));
                }
                Err(e)
            },
        }
    }

    /// Finish the bridge once its gateway is known (see [`finish_plan`]):
    /// the commands run in order and the first failure stops them. The
    /// guard records the ACL as soon as it exists; on failure the caller
    /// releases it.
    pub fn finish_bridge<R: CommandRunner>(
        &self,
        runner: &mut Logged<R>,
        guard: &mut LxdBridgeGuard,
        params: &CreateBridgeParams,
        gateway: &str,
    ) -> (r: Result<(), CommandError>)
        ensures
            final(guard).name == old(guard).name,
            final(guard).keep == old(guard).keep,
            final(runner).history() == old(runner).history() + added_since(
                old(runner).history(),
                final(runner).history(),
            ),
            ran_in_order(
                finish_plan(*self, old(guard).name@, *params, gateway@),
                added_since(old(runner).history(), final(runner).history()),
                r,
            ),
            final(guard).has_acl == (old(guard).has_acl || added_since(
                old(runner).history(),
                final(runner).history(),
            )[0] matches Ran::Run(_, Ok(_))),
            r is Ok ==> final(guard).has_acl,
    {
        let ghost h0 = runner.history();
        let ghost name = guard.name@;
        let ghost rules_v = bridge_rules(*params, gateway@);
        let ghost p0 = seq![self.command_prefix() + seq!["network"@, "acl"@, "create"@, name]];
        let ghost pr = Seq::new(
            rules_v.len(),
            |i: int| self.command_prefix() + seq!["network"@, "acl"@, "rule"@, "add"@, name] + view_rule_args(rules_v[i]),
        );
        let ghost pd = if params.dns {
            seq![self.command_prefix() + seq!["network"@, "set"@, name, "raw.dnsmasq="@ + dnsmasq_text(gateway@, params.dns_port)]]
        } else {
            Seq::<Seq<Seq<char>>>::empty()
        };
        let ghost pt1 = seq![self.command_prefix() + seq!["network"@, "set"@, name, "security.acls.default.egress.action=reject"@]];
        let ghost pt2 = seq![self.command_prefix() + seq!["network"@, "set"@, name, "security.acls="@ + name]];
        let ghost plan = finish_plan(*self, name, *params, gateway@);
        assert(plan =~= p0 + pr + pd + (pt1 + pt2));

        let rules = build_rules_from_params(params, gateway);
        let created = runner.run(&self.create_acl_command(guard.name.as_str()));
        let ghost h1 = runner.history();
        proof {
            lemma_ran_single(p0[0], created);
            assert(h1 =~= h0 + seq![Ran::Run(p0[0], created)]);
            assert(added_since(h0, h1) =~= seq![Ran::Run(p0[0], created)]);
            assert(seq![p0[0]] =~= p0);
        }
        match created {
            Err(e) => {
                proof {
                    lemma_ran_stopped(p0, added_since(h0, h1), pr + pd + (pt1 + pt2), e);
                    assert(p0 + (pr + pd + (pt1 + pt2)) =~= plan);
                }
                return Err(e);
            },
            Ok(()) => {},
        }
        guard.has_acl = true;

        let added_rules = self.add_rules(runner, guard.name.as_str(), &rules, 0);
        let ghost h2 = runner.history();
        proof {
            assert(rules@.skip(0) =~= rules@);
            assert(rule_cmds(*self, name, rules@) =~= pr) by {
                assert forall|i: int| 0 <= i < pr.len() implies #[trigger] rule_cmds(*self, name, rules@)[i] == pr[i] by {
                    lemma_rule_args_view(rules@[i]);
                }
            }
            assert(h2 =~= h1 + added_since(h1, h2));
            assert(added_since(h0, h2) =~= added_since(h0, h1) + added_since(h1, h2));
        }
        match added_rules {
            Err(e) => {
                proof {
                    lemma_ran_stopped(pr, added_since(h1, h2), pd + (pt1 + pt2), e);
                    lemma_ran_append(p0, added_since(h0, h1), created, pr + (pd + (pt1 + pt2)), added_since(h1, h2), Err::<(), CommandError>(e));
                    assert(pr + pd + (pt1 + pt2) =~= pr + (pd + (pt1 + pt2)));
                    assert(p0 + (pr + (pd + (pt1 + pt2))) =~= plan);
                    assert(h2 =~= h0 + added_since(h0, h2));
                }
                return Err(e);
            },
            Ok(()) => {},
        }
        proof {
            lemma_ran_append(p0, added_since(h0, h1), created, pr, added_since(h1, h2), added_rules);
        }

        let dns_done = match build_dnsmasq_config(params.dns, gateway, params.dns_port) {
            Some(config) => runner.run(&self.set_network_dnsmasq_command(guard.name.as_str(), config.as_str())),
            None => Ok(()),
        };
        let ghost h3 = runner.history();
        proof {
            if params.dns {
                lemma_ran_single(pd[0], dns_done);
                assert(seq![pd[0]] =~= pd);
                assert(added_since(h2, h3) =~= seq![Ran::Run(pd[0], dns_done)]);
            } else {
                assert(added_since(h2, h3) =~= Seq::<Ran>::empty());
                assert(ran_in_order(pd, added_since(h2, h3), dns_done));
            }
            assert(h3 =~= h2 + added_since(h2, h3));
            assert(added_since(h0, h3) =~= added_since(h0, h2) + added_since(h2, h3));
        }
        match dns_done {
            Err(e) => {
                proof {
                    lemma_ran_stopped(pd, added_since(h2, h3), pt1 + pt2, e);
                    lemma_ran_append(p0 + pr, added_since(h0, h2), added_rules, pd + (pt1 + pt2), added_since(h2, h3), Err::<(), CommandError>(e));
                    assert(p0 + pr + (pd + (pt1 + pt2)) =~= plan);
                    assert(h3 =~= h0 + added_since(h0, h3));
                }
                return Err(e);
            },
            Ok(()) => {},
        }
        proof {
            lemma_ran_append(p0 + pr, added_since(h0, h2), added_rules, pd, added_since(h2, h3), dns_done);
        }

        let rejected = runner.run(&self.set_network_egress_reject_command(guard.name.as_str()));
        let ghost h4 = runner.history();
        proof {
            lemma_ran_single(pt1[0], rejected);
            assert(seq![pt1[0]] =~= pt1);
            assert(added_since(h3, h4) =~= seq![Ran::Run(pt1[0], rejected)]);
            assert(h4 =~= h3 + added_since(h3, h4));
            assert(added_since(h0, h4) =~= added_since(h0, h3) + added_since(h3, h4));
        }
        match rejected {
            Err(e) => {
                proof {
                    lemma_ran_stopped(pt1, added_since(h3, h4), pt2, e);
                    lemma_ran_append(p0 + pr + pd, added_since(h0, h3), dns_done, pt1 + pt2, added_since(h3, h4), Err::<(), CommandError>(e));
                    assert(p0 + pr + pd + (pt1 + pt2) =~= plan);
                    assert(h4 =~= h0 + added_since(h0, h4));
                }
                return Err(e);
            },
            Ok(()) => {},
        }

        let attached = runner.run(&self.attach_acl_to_network_command(guard.name.as_str(), guard.name.as_str()));
        let ghost h5 = runner.history();
        proof {
            lemma_ran_single(pt2[0], attached);
            assert(seq![pt2[0]] =~= pt2);
            assert(added_since(h4, h5) =~= seq![Ran::Run(pt2[0], attached)]);
            lemma_ran_append(pt1, added_since(h3, h4), rejected, pt2, added_since(h4, h5), attached);
            assert(h5 =~= h3 + (added_since(h3, h4) + added_since(h4, h5)));
            lemma_ran_append(p0 + pr + pd, added_since(h0, h3), dns_done, pt1 + pt2, added_since(h3, h4) + added_since(h4, h5), attached);
            assert(added_since(h0, h5) =~= added_since(h0, h3) + (added_since(h3, h4) + added_since(h4, h5)));
            assert(p0 + pr + pd + (pt1 + pt2) =~= plan);
            assert(h5 =~= h0 + added_since(h0, h5));
        }
        attached
    }

    /// Add the ACL rules from `rules[i]` on, one command each, stopping at
    /// the first failure.
    fn add_rules<R: CommandRunner>(&self, runner: &mut Logged<R>, acl: &str, rules: &Vec<NetworkAclRule>, i: usize) -> (r:
        Result<(), CommandError>)
        requires
            i <= rules@.len(),
        ensures
            final(runner).history() == old(runner).history() + added_since(
                old(runner).history(),
                final(runner).history(),
            ),
            ran_in_order(
                rule_cmds(*self, acl@, rules@.skip(i as int)),
                added_since(old(runner).history(), final(runner).history()),
                r,
            ),
        decreases rules@.len() - i,
    {
        let ghost h0 = runner.history();
        let ghost cmds = rule_cmds(*self, acl@, rules@.skip(i as int));
        if i == rules.len() {
            proof {
                assert(cmds =~= Seq::<Seq<Seq<char>>>::empty());
                assert(added_since(h0, runner.history()) =~= Seq::<Ran>::empty());
                assert(runner.history() =~= h0 + Seq::<Ran>::empty());
            }
            return Ok(());
        }
        let cmd = self.add_acl_rule_command(acl, &rules[i]);
        let res = runner.run(&cmd);
        let ghost h1 = runner.history();
        proof {
            assert(cmds[0] == strings_view(cmd@));
            assert(cmds.drop_first() =~= rule_cmds(*self, acl@, rules@.skip(i + 1)));
            assert(seq![cmds[0]] + cmds.drop_first() =~= cmds);
            lemma_ran_single(cmds[0], res);
            assert(added_since(h0, h1) =~= seq![Ran::Run(cmds[0], res)]);
            assert(h1 =~= h0 + added_since(h0, h1));
        }
        match res {
            Err(e) => {
                proof {
                    lemma_ran_stopped(seq![cmds[0]], added_since(h0, h1), cmds.drop_first(), e);
                }
                Err(e)
            },
            Ok(()) => {
                let rest = self.add_rules(runner, acl, rules, i + 1);
                proof {
                    let h2 = runner.history();
                    lemma_ran_append(seq![cmds[0]], added_since(h0, h1), res, cmds.drop_first(), added_since(h1, h2), rest);
                    assert(h2 =~= h0 + (added_since(h0, h1) + added_since(h1, h2)));
                    assert(added_since(h0, h2) =~= added_since(h0, h1) + added_since(h1, h2));
                }
                rest
            },
        }
    }
}

/// The commands adding `rules` to the ACL `acl`, in order.
pub open spec fn rule_cmds(b: LxcBackend, acl: Seq<char>, rules: Seq<NetworkAclRule>) -> Seq<Seq<Seq<char>>> {
    Seq::new(
        rules.len(),
        |j: int| b.command_prefix() + seq!["network"@, "acl"@, "rule"@, "add"@, acl] + acl_rule_args(rules[j]),
    )
}

} // verus!
