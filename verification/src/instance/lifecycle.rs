//! Driving an instance through its lifecycle on a backend.
//!
//! The backend operations are work outside the library; these functions
//! decide what to ask for, in which order, and what a failure means.

use vstd::prelude::*;
use vstd::string::StringSliceAdditionalSpecFns;
use crate::backend::{Answer, BackendCall, Device, InstanceBackend, Recorded, answer_error, calls_since};
use crate::distro::DistroKind;
use crate::envmap::EnvMap;
use crate::instance::InstanceError;
use crate::instance::guard::InstanceGuard;
use crate::instance::launch::{LaunchConfig, launch_instance_view, named_devices_view, planned_devices};
use crate::strings::{
    chars_of, decimal, decimal_chars, owned, push_chars, push_str, string_of, strings_view, trim,
    trim_chars,
};

verus! {

/// How many times readiness is probed before giving up (one probe every
/// half second: 30 seconds in all).
pub const READY_PROBES: u32 = 60;

/// The error contexts of creating an instance and attaching its devices.
pub open spec fn create_context(c: Seq<char>) -> bool {
    ||| c == "failed to create instance"@
    ||| c == "failed to add disk device"@
    ||| c == "failed to add extra device"@
    ||| c == "failed to set description"@
}

/// Under which context a failure to add device `i` is reported, when the
/// first `disks` devices are the mounts' disks.
pub open spec fn device_context(i: int, disks: int) -> Seq<char> {
    if i < disks {
        "failed to add disk device"@
    } else {
        "failed to add extra device"@
    }
}

/// The calls that attach the devices of a launch (see
/// [`planned_devices`]), each with its context.
pub open spec fn device_calls(c: LaunchConfig, is_file: Seq<bool>) -> Seq<(BackendCall, Seq<char>)> {
    let plan = planned_devices(c, is_file);
    Seq::new(
        plan.len(),
        |i: int|
            (
                BackendCall::AddDevice { name: c.name@, dev_name: plan[i].0, device: plan[i].1 },
                device_context(i, plan.len() - c.extra_devices@.len()),
            ),
    )
}

/// The calls that create an instance: create it, attach its devices, then
/// set its description when there is one.
pub open spec fn create_calls(c: LaunchConfig, is_file: Seq<bool>) -> Seq<(BackendCall, Seq<char>)> {
    seq![(BackendCall::Create { name: c.name@, config: launch_instance_view(c) }, "failed to create instance"@)]
        + device_calls(c, is_file) + if c.description@.len() > 0 {
        seq![(BackendCall::SetDescription { name: c.name@, desc: c.description@ }, "failed to set description"@)]
    } else {
        Seq::empty()
    }
}

/// What follows a failure at the `n`-th call: once the instance exists
/// (`n >= 2`) and is not kept, it is deleted; otherwise nothing.
pub open spec fn cleanup_after<E>(c: LaunchConfig, n: int, rest: Seq<(BackendCall, Answer<E>)>) -> bool {
    if n >= 2 && !c.keep {
        rest.len() == 1 && rest[0].0 == BackendCall::Delete { name: c.name@ }
    } else {
        rest.len() == 0
    }
}

/// Create the instance, then attach its devices (see
/// [`LaunchConfig::device_plan`]) and, when there is one, its description
/// (see [`create_calls`]); the first failure stops.
///
/// Once the instance exists, any failure releases the guard (deleting the
/// instance unless it is kept) before the error is returned.
pub fn create_instance<IB: InstanceBackend>(
    config: &LaunchConfig,
    backend: &mut Recorded<IB>,
    is_file: &Vec<bool>,
) -> (r: Result<InstanceGuard, InstanceError<IB::Error>>)
    ensures
        match r {
            Ok(g) => g.name@ == config.name@ && g.keep == config.keep,
            Err(InstanceError::Backend { context, .. }) => create_context(context@),
            Err(InstanceError::Timeout { .. }) => false,
        },
        final(backend).calls() == old(backend).calls() + calls_since(old(backend).calls(), final(backend).calls()),
        match r {
            Ok(_) => called_in_order(
                create_calls(*config, is_file@),
                calls_since(old(backend).calls(), final(backend).calls()),
                Ok::<(), InstanceError<IB::Error>>(()),
            ),
            Err(e) => exists|n: int|
                1 <= n <= calls_since(old(backend).calls(), final(backend).calls()).len() && #[trigger] called_in_order(
                    create_calls(*config, is_file@),
                    calls_since(old(backend).calls(), final(backend).calls()).take(n),
                    Err::<(), InstanceError<IB::Error>>(e),
                ) && cleanup_after(
                    *config,
                    n,
                    calls_since(old(backend).calls(), final(backend).calls()).skip(n),
                ),
        },
{
    proof {
        reveal_strlit("failed to create instance");
        reveal_strlit("failed to add disk device");
        reveal_strlit("failed to add extra device");
        reveal_strlit("failed to set description");
    }
    let ghost h0 = backend.calls();
    let ghost plan = create_calls(*config, is_file@);
    let ghost p1 = seq![plan[0]];
    let ghost pd = device_calls(*config, is_file@);
    let ghost pdesc = if config.description@.len() > 0 {
        seq![(BackendCall::SetDescription { name: config.name@, desc: config.description@ }, "failed to set description"@)]
    } else {
        Seq::<(BackendCall, Seq<char>)>::empty()
    };
    assert(plan =~= p1 + pd + pdesc);
    let ic = config.instance_config();
    let created = backend.create(config.name.as_str(), &ic);
    let ghost h1 = backend.calls();
    let ghost a1 = Answer::Done(created);
    let ghost added1 = calls_since(h0, h1);
    proof {
        assert(h1 =~= h0 + seq![(plan[0].0, a1)]);
        assert(added1 =~= seq![(plan[0].0, a1)]);
        assert(seq![(plan[0].0, plan[0].1)] =~= p1);
    }
    match created {
        Ok(()) => {},
        Err(e) => {
            let r = InstanceError::backend("failed to create instance", e);
            proof {
                lemma_called_single(plan[0].0, plan[0].1, a1, Err::<(), InstanceError<IB::Error>>(r));
                lemma_called_stopped(p1, added1, pd + pdesc, Err::<(), InstanceError<IB::Error>>(r));
                assert(p1 + (pd + pdesc) =~= plan);
                assert(added1.take(1) =~= added1);
                assert(added1.skip(1) =~= Seq::<(BackendCall, Answer<IB::Error>)>::empty());
                assert(called_in_order(plan, added1.take(1), Err::<(), InstanceError<IB::Error>>(r)));
            }
            return Err(r);
        },
    }
    proof {
        lemma_called_single(plan[0].0, plan[0].1, a1, Ok::<(), InstanceError<IB::Error>>(()));
    }
    let guard = InstanceGuard::new(config.name.clone(), config.keep);
    let devices = config.device_plan(is_file);
    let disks: usize = if devices.len() >= config.extra_devices.len() {
        devices.len() - config.extra_devices.len()
    } else {
        0
    };
    proof {
        assert(planned_devices(*config, is_file@).len() >= config.extra_devices@.len());
        assert(devices@.len() == planned_devices(*config, is_file@).len());
    }
    let attached = add_devices_from(config, backend, is_file, &devices, disks, 0);
    let ghost h2 = backend.calls();
    let ghost added2 = calls_since(h1, h2);
    proof {
        assert(pd.skip(0) =~= pd);
        assert(h2 =~= h0 + (added1 + added2));
        assert(calls_since(h0, h2) =~= added1 + added2);
    }
    match attached {
        Err(e) => {
            proof {
                lemma_called_stopped(pd, added2, pdesc, Err::<(), InstanceError<IB::Error>>(e));
                lemma_called_append(p1, added1, Ok::<(), InstanceError<IB::Error>>(()), pd + pdesc, added2, Err::<(), InstanceError<IB::Error>>(e));
                assert(p1 + (pd + pdesc) =~= plan);
            }
            let _ = guard.release(backend);
            proof {
                let h3 = backend.calls();
                let all = calls_since(h0, h3);
                let n: int = (added1.len() + added2.len()) as int;
                assert(added2.len() >= 1);
                assert(h3 =~= h0 + all);
                assert(all.take(n) =~= added1 + added2);
                assert(all.skip(n) =~= calls_since(h2, h3));
                assert(called_in_order(plan, all.take(n), Err::<(), InstanceError<IB::Error>>(e)));
            }
            return Err(e);
        },
        Ok(()) => {},
    }
    proof {
        lemma_called_append(p1, added1, Ok::<(), InstanceError<IB::Error>>(()), pd, added2, attached);
    }
    if !config.description.as_str().is_empty() {
        let described = backend.set_description(config.name.as_str(), config.description.as_str());
        let ghost h3 = backend.calls();
        let ghost a3 = Answer::Done(described);
        let ghost added3 = calls_since(h2, h3);
        proof {
            assert(pdesc =~= seq![(pdesc[0].0, pdesc[0].1)]);
            assert(h3 =~= h2 + seq![(pdesc[0].0, a3)]);
            assert(added3 =~= seq![(pdesc[0].0, a3)]);
            assert(h3 =~= h0 + ((added1 + added2) + added3));
            assert(calls_since(h0, h3) =~= (added1 + added2) + added3);
        }
        match described {
            Ok(()) => {
                proof {
                    lemma_called_single(pdesc[0].0, pdesc[0].1, a3, Ok::<(), InstanceError<IB::Error>>(()));
                    lemma_called_append(p1 + pd, added1 + added2, attached, pdesc, added3, Ok::<(), InstanceError<IB::Error>>(()));
                }
            },
            Err(e) => {
                let r = InstanceError::backend("failed to set description", e);
                proof {
                    lemma_called_single(pdesc[0].0, pdesc[0].1, a3, Err::<(), InstanceError<IB::Error>>(r));
                    lemma_called_append(p1 + pd, added1 + added2, attached, pdesc, added3, Err::<(), InstanceError<IB::Error>>(r));
                }
                let _ = guard.release(backend);
                proof {
                    let h4 = backend.calls();
                    let all = calls_since(h0, h4);
                    let n: int = (added1.len() + added2.len() + added3.len()) as int;
                    assert(h4 =~= h0 + all);
                    assert(all.take(n) =~= (added1 + added2) + added3);
                    assert(all.skip(n) =~= calls_since(h3, h4));
                    assert(called_in_order(plan, all.take(n), Err::<(), InstanceError<IB::Error>>(r)));
                }
                return Err(r);
            },
        }
    } else {
        proof {
            assert(pdesc =~= Seq::<(BackendCall, Seq<char>)>::empty());
            assert(called_in_order(pdesc, Seq::<(BackendCall, Answer<IB::Error>)>::empty(), Ok::<(), InstanceError<IB::Error>>(())));
            lemma_called_append(p1 + pd, added1 + added2, attached, pdesc, Seq::empty(), Ok::<(), InstanceError<IB::Error>>(()));
            assert(added1 + added2 + Seq::<(BackendCall, Answer<IB::Error>)>::empty() =~= added1 + added2);
        }
    }
    Ok(guard)
}

/// Attach the devices of `devices` from `i` on, stopping at the first
/// failure.
fn add_devices_from<IB: InstanceBackend>(
    config: &LaunchConfig,
    backend: &mut Recorded<IB>,
    is_file: &Vec<bool>,
    devices: &Vec<(String, Device)>,
    disks: usize,
    i: usize,
) -> (r: Result<(), InstanceError<IB::Error>>)
    requires
        named_devices_view(devices@) == planned_devices(*config, is_file@),
        disks == devices@.len() - config.extra_devices@.len(),
        i <= devices@.len(),
    ensures
        match r {
            Ok(()) => true,
            Err(InstanceError::Backend { context, .. }) => create_context(context@),
            Err(InstanceError::Timeout { .. }) => false,
        },
        final(backend).calls() == old(backend).calls() + calls_since(old(backend).calls(), final(backend).calls()),
        called_in_order(
            device_calls(*config, is_file@).skip(i as int),
            calls_since(old(backend).calls(), final(backend).calls()),
            r,
        ),
    decreases devices@.len() - i,
{
    proof {
        reveal_strlit("failed to add disk device");
        reveal_strlit("failed to add extra device");
    }
    let ghost h0 = backend.calls();
    let ghost plan = device_calls(*config, is_file@).skip(i as int);
    if i == devices.len() {
        proof {
            assert(plan =~= Seq::<(BackendCall, Seq<char>)>::empty());
            assert(calls_since(h0, backend.calls()) =~= Seq::<(BackendCall, Answer<IB::Error>)>::empty());
            assert(backend.calls() =~= h0 + Seq::<(BackendCall, Answer<IB::Error>)>::empty());
        }
        return Ok(());
    }
    let res = backend.add_device(config.name.as_str(), devices[i].0.as_str(), &devices[i].1);
    let ghost h1 = backend.calls();
    let ghost a = Answer::Done(res);
    let context = if i < disks {
        "failed to add disk device"
    } else {
        "failed to add extra device"
    };
    let r1 = match res {
        Ok(()) => Ok(()),
        Err(e) => Err(InstanceError::backend(context, e)),
    };
    proof {
        assert(named_devices_view(devices@)[i as int] == (devices@[i as int].0@, devices@[i as int].1@));
        assert(plan[0].0 == BackendCall::AddDevice {
            name: config.name@,
            dev_name: devices@[i as int].0@,
            device: devices@[i as int].1@,
        });
        assert(plan[0].1 == context@);
        assert(h1 =~= h0 + seq![(plan[0].0, a)]);
        assert(calls_since(h0, h1) =~= seq![(plan[0].0, a)]);
        lemma_called_single(plan[0].0, plan[0].1, a, r1);
        assert(seq![(plan[0].0, plan[0].1)] + plan.drop_first() =~= plan);
        assert(plan.drop_first() =~= device_calls(*config, is_file@).skip(i + 1));
    }
    if r1.is_err() {
        proof {
            lemma_called_stopped(seq![(plan[0].0, plan[0].1)], calls_since(h0, h1), plan.drop_first(), r1);
        }
        return r1;
    }
    let rest = add_devices_from(config, backend, is_file, devices, disks, i + 1);
    proof {
        let h2 = backend.calls();
        lemma_called_append(seq![(plan[0].0, plan[0].1)], calls_since(h0, h1), r1, plan.drop_first(), calls_since(h1, h2), rest);
        assert(h2 =~= h0 + (calls_since(h0, h1) + calls_since(h1, h2)));
        assert(calls_since(h0, h2) =~= calls_since(h0, h1) + calls_since(h1, h2));
    }
    rest
}

/// `recs` is making the calls of `plan` in order, stopping at the first
/// failure, which is reported as a backend error under the context that
/// goes with its call; `r` is `Ok` when every call succeeded.
pub open spec fn called_in_order<E>(
    plan: Seq<(BackendCall, Seq<char>)>,
    recs: Seq<(BackendCall, Answer<E>)>,
    r: Result<(), InstanceError<E>>,
) -> bool
    decreases plan.len(),
{
    if plan.len() == 0 {
        recs.len() == 0 && r is Ok
    } else {
        &&& recs.len() >= 1
        &&& recs[0].0 == plan[0].0
        &&& match answer_error(recs[0].1) {
            None => called_in_order(plan.drop_first(), recs.drop_first(), r),
            Some(e) => recs.len() == 1 && (r matches Err(InstanceError::Backend { context, source })
                && context@ == plan[0].1 && source == e),
        }
    }
}

/// `r` is what one answer gives under `context`: `Ok` when it succeeded,
/// else the backend error under `context`.
pub open spec fn lifted<E>(a: Answer<E>, context: Seq<char>, r: Result<(), InstanceError<E>>) -> bool {
    match answer_error(a) {
        None => r is Ok,
        Some(e) => r matches Err(InstanceError::Backend { context: c, source }) && c@ == context && source == e,
    }
}

/// One call on its own.
proof fn lemma_called_single<E>(call: BackendCall, context: Seq<char>, a: Answer<E>, r: Result<(), InstanceError<E>>)
    requires
        lifted(a, context, r),
    ensures
        called_in_order(seq![(call, context)], seq![(call, a)], r),
{
    assert(seq![(call, context)].drop_first() =~= Seq::<(BackendCall, Seq<char>)>::empty());
    assert(seq![(call, a)].drop_first() =~= Seq::<(BackendCall, Answer<E>)>::empty());
    if answer_error(a) is None {
        assert(called_in_order(
            seq![(call, context)].drop_first(),
            seq![(call, a)].drop_first(),
            r,
        ));
    }
}

/// A run of `p1` that succeeded followed by a run of `p2` is a run of both.
proof fn lemma_called_append<E>(
    p1: Seq<(BackendCall, Seq<char>)>,
    recs1: Seq<(BackendCall, Answer<E>)>,
    r1: Result<(), InstanceError<E>>,
    p2: Seq<(BackendCall, Seq<char>)>,
    recs2: Seq<(BackendCall, Answer<E>)>,
    r: Result<(), InstanceError<E>>,
)
    requires
        called_in_order(p1, recs1, r1),
        r1 is Ok,
        called_in_order(p2, recs2, r),
    ensures
        called_in_order(p1 + p2, recs1 + recs2, r),
    decreases p1.len(),
{
    if p1.len() == 0 {
        assert(p1 + p2 =~= p2);
        assert(recs1 + recs2 =~= recs2);
    } else {
        lemma_called_append(p1.drop_first(), recs1.drop_first(), r1, p2, recs2, r);
        assert((p1 + p2).drop_first() =~= p1.drop_first() + p2);
        assert((recs1 + recs2).drop_first() =~= recs1.drop_first() + recs2);
        assert((p1 + p2)[0] == p1[0]);
        assert((recs1 + recs2)[0] == recs1[0]);
    }
}

/// A run of `p1` that stopped at a failure is also a run of `p1` followed
/// by anything.
proof fn lemma_called_stopped<E>(
    p1: Seq<(BackendCall, Seq<char>)>,
    recs: Seq<(BackendCall, Answer<E>)>,
    p2: Seq<(BackendCall, Seq<char>)>,
    r: Result<(), InstanceError<E>>,
)
    requires
        called_in_order(p1, recs, r),
        r is Err,
    ensures
        called_in_order(p1 + p2, recs, r),
    decreases p1.len(),
{
    if p1.len() > 0 {
        assert((p1 + p2)[0] == p1[0]);
        assert((p1 + p2).drop_first() =~= p1.drop_first() + p2);
        if answer_error(recs[0].1) is None {
            lemma_called_stopped(p1.drop_first(), recs.drop_first(), p2, r);
        }
    }
}

/// The call that connects the instance to its bridge.
pub open spec fn attach_call(config: LaunchConfig) -> BackendCall {
    BackendCall::AttachToBridge {
        name: config.name@,
        bridge: config.bridge_name@,
        ingress: crate::strings::opt_view(config.limits.network_ingress),
        egress: crate::strings::opt_view(config.limits.network_egress),
    }
}

/// Connect the instance to its isolation bridge, with the bandwidth limits.
pub fn attach_to_bridge<IB: InstanceBackend>(config: &LaunchConfig, backend: &mut Recorded<IB>) -> (r: Result<
    (),
    InstanceError<IB::Error>,
>)
    ensures
        r matches Err(InstanceError::Backend { context, .. }) ==> context@
            == "failed to attach instance to bridge"@,
        !(r matches Err(InstanceError::Timeout { .. })),
        final(backend).calls() == old(backend).calls() + calls_since(old(backend).calls(), final(backend).calls()),
        called_in_order(
            seq![(attach_call(*config), "failed to attach instance to bridge"@)],
            calls_since(old(backend).calls(), final(backend).calls()),
            r,
        ),
{
    proof {
        reveal_strlit("failed to attach instance to bridge");
    }
    let ghost h0 = backend.calls();
    let res = backend.attach_to_bridge(
        config.name.as_str(),
        config.bridge_name.as_str(),
        &config.limits.network_ingress,
        &config.limits.network_egress,
    );
    let ghost a = Answer::Done(res);
    let r = match res {
        Ok(()) => Ok(()),
        Err(e) => Err(InstanceError::backend("failed to attach instance to bridge", e)),
    };
    proof {
        assert(backend.calls() =~= h0 + seq![(attach_call(*config), a)]);
        assert(calls_since(h0, backend.calls()) =~= seq![(attach_call(*config), a)]);
        lemma_called_single(attach_call(*config), "failed to attach instance to bridge"@, a, r);
    }
    r
}

/// What releasing the guard of `c` records: the deletion of the instance,
/// unless it is kept.
pub open spec fn release_calls<E>(c: LaunchConfig, recs: Seq<(BackendCall, Answer<E>)>) -> bool {
    if c.keep {
        recs.len() == 0
    } else {
        recs.len() == 1 && recs[0].0 == BackendCall::Delete { name: c.name@ }
    }
}

/// After the network isolation of the created instance was set up
/// (`isolated`) or failed: attach the instance to its bridge and hand the
/// guard back. When the isolation failed (`Err(None)`) or attaching fails
/// (`Err(Some(..))`), the guard is released first: the instance is deleted
/// unless it is kept.
pub fn attach_or_release<IB: InstanceBackend>(
    config: &LaunchConfig,
    backend: &mut Recorded<IB>,
    guard: InstanceGuard,
    isolated: bool,
) -> (r: Result<InstanceGuard, Option<InstanceError<IB::Error>>>)
    requires
        guard.name@ == config.name@,
        guard.keep == config.keep,
    ensures
        final(backend).calls() == old(backend).calls() + calls_since(old(backend).calls(), final(backend).calls()),
        !isolated ==> (r matches Err(None)) && release_calls(*config, calls_since(old(backend).calls(), final(backend).calls())),
        isolated ==> match r {
            Ok(g) => g.name@ == config.name@ && g.keep == config.keep && called_in_order(
                seq![(attach_call(*config), "failed to attach instance to bridge"@)],
                calls_since(old(backend).calls(), final(backend).calls()),
                Ok::<(), InstanceError<IB::Error>>(()),
            ),
            Err(Some(e)) => calls_since(old(backend).calls(), final(backend).calls()).len() >= 1 && called_in_order(
                seq![(attach_call(*config), "failed to attach instance to bridge"@)],
                calls_since(old(backend).calls(), final(backend).calls()).take(1),
                Err::<(), InstanceError<IB::Error>>(e),
            ) && release_calls(*config, calls_since(old(backend).calls(), final(backend).calls()).skip(1)),
            Err(None) => false,
        },
{
    let ghost h0 = backend.calls();
    if !isolated {
        let _ = guard.release(backend);
        proof {
            assert(calls_since(h0, backend.calls()) =~= backend.calls().skip(h0.len() as int));
            assert(backend.calls() =~= h0 + calls_since(h0, backend.calls()));
        }
        return Err(None);
    }
    let res = attach_to_bridge(config, backend);
    let ghost h1 = backend.calls();
    match res {
        Ok(()) => {
            proof {
                reveal_with_fuel(called_in_order, 2);
            }
            Ok(guard)
        },
        Err(e) => {
            let _ = guard.release(backend);
            proof {
                let h2 = backend.calls();
                let all = calls_since(h0, h2);
                let first = calls_since(h0, h1);
                reveal_with_fuel(called_in_order, 2);
                assert(first.len() == 1);
                assert(h2 =~= h0 + all);
                assert(all.take(1) =~= first);
                assert(all.skip(1) =~= calls_since(h1, h2));
                if config.keep {
                    assert(calls_since(h1, h2) =~= Seq::<(BackendCall, Answer<IB::Error>)>::empty());
                } else {
                    assert(calls_since(h1, h2).len() == 1);
                    assert(calls_since(h1, h2)[0] == h2[h1.len() as int]);
                }
                assert(release_calls(*config, all.skip(1)));
                assert(called_in_order(
                    seq![(attach_call(*config), "failed to attach instance to bridge"@)],
                    all.take(1),
                    res,
                ));
            }
            Err(Some(e))
        },
    }
}

/// Boot the instance.
pub fn start_instance<IB: InstanceBackend>(config: &LaunchConfig, backend: &mut Recorded<IB>) -> (r: Result<
    (),
    InstanceError<IB::Error>,
>)
    ensures
        r matches Err(InstanceError::Backend { context, .. }) ==> context@
            == "failed to start instance"@,
        !(r matches Err(InstanceError::Timeout { .. })),
        final(backend).calls() == old(backend).calls() + calls_since(old(backend).calls(), final(backend).calls()),
        called_in_order(
            seq![(BackendCall::Start { name: config.name@ }, "failed to start instance"@)],
            calls_since(old(backend).calls(), final(backend).calls()),
            r,
        ),
{
    proof {
        reveal_strlit("failed to start instance");
    }
    let ghost h0 = backend.calls();
    let res = backend.start(config.name.as_str());
    let ghost a = Answer::Done(res);
    let r = match res {
        Ok(()) => Ok(()),
        Err(e) => Err(InstanceError::backend("failed to start instance", e)),
    };
    proof {
        let call = BackendCall::Start { name: config.name@ };
        assert(backend.calls() =~= h0 + seq![(call, a)]);
        assert(calls_since(h0, backend.calls()) =~= seq![(call, a)]);
        lemma_called_single(call, "failed to start instance"@, a, r);
    }
    r
}

// ---------------------------------------------------------------------------
// Readiness
// ---------------------------------------------------------------------------

/// The readiness probe: `systemctl is-system-running`.
pub fn readiness_command() -> (r: Vec<String>)
    ensures
        strings_view(r@) == seq!["systemctl"@, "is-system-running"@],
{
    let mut r = Vec::new();
    r.push(owned("systemctl"));
    r.push(owned("is-system-running"));
    assert(strings_view(r@) =~= seq!["systemctl"@, "is-system-running"@]);
    r
}

/// What to do after a readiness probe.
#[derive(Debug, PartialEq, Eq, Structural)]
pub enum Probe {
    /// The instance is running.
    Ready,
    /// Wait half a second and probe again; `done` probes have failed.
    Again { done: u32 },
    /// Every probe failed: give up.
    GiveUp,
}

/// A probe's output says the system is running.
pub open spec fn reports_running(output: Option<String>) -> bool {
    output matches Some(o) && trim(o@) == "running"@
}

/// After `done` failed probes, the probe that printed `output` (`None`
/// when it failed to run): ready when the trimmed output is `running`,
/// else probe again until [`READY_PROBES`] have failed.
pub fn after_probe(done: u32, output: &Option<String>) -> (r: Probe)
    requires
        done < READY_PROBES,
    ensures
        reports_running(*output) ==> r == Probe::Ready,
        !reports_running(*output) ==> r == (if done + 1 < READY_PROBES {
            Probe::Again { done: (done + 1) as u32 }
        } else {
            Probe::GiveUp
        }),
{
    let running = match output {
        Some(o) => {
            let v = chars_of(o.as_str());
            let t = trim_chars(&v);
            let w = chars_of("running");
            proof {
                reveal_strlit("running");
            }
            crate::strings::chars_eq(&t, &w)
        },
        None => false,
    };
    if running {
        Probe::Ready
    } else if done + 1 < READY_PROBES {
        Probe::Again { done: done + 1 }
    } else {
        Probe::GiveUp
    }
}

/// Readiness probing ends: every answer either settles it or counts one
/// more failed probe, and the count never passes [`READY_PROBES`].
pub proof fn law_readiness_probing_ends(done: u32, output: Option<String>, r: Probe)
    requires
        done < READY_PROBES,
        !reports_running(output) ==> r == (if done + 1 < READY_PROBES {
            Probe::Again { done: (done + 1) as u32 }
        } else {
            Probe::GiveUp
        }),
        reports_running(output) ==> r == Probe::Ready,
    ensures
        r matches Probe::Again { done: d } ==> done < d < READY_PROBES,
{
}

/// The error when readiness probing gave up.
pub fn timeout_error<E>(config: &LaunchConfig) -> (r: InstanceError<E>)
    ensures
        r matches InstanceError::Timeout { name } && name@ == config.name@,
{
    InstanceError::Timeout { name: config.name.clone() }
}

// ---------------------------------------------------------------------------
// CA certificate
// ---------------------------------------------------------------------------

/// Where the proxy's CA certificate goes inside the instance.
pub open spec fn ca_cert_path_text(distro: DistroKind) -> Seq<char> {
    let dir = match distro {
        DistroKind::Arch => "/etc/ca-certificates/trust-source/anchors"@,
    };
    dir + "/mitmproxy-ca-cert.pem"@
}

/// `<anchors dir>/mitmproxy-ca-cert.pem`.
pub fn ca_cert_path(distro: DistroKind) -> (r: String)
    ensures
        r@ == ca_cert_path_text(distro),
{
    let mut v = Vec::new();
    push_str(&mut v, distro.ca_cert_anchors_dir());
    push_str(&mut v, "/mitmproxy-ca-cert.pem");
    string_of(&v)
}

/// `chown <uid>:<gid> <path>`.
pub fn chown_command(uid: u32, gid: u32, path: &str) -> (r: Vec<String>)
    ensures
        strings_view(r@) == seq![
            "chown"@,
            decimal(uid as nat) + ":"@ + decimal(gid as nat),
            path@,
        ],
{
    let mut owner = decimal_chars(uid as u64);
    push_str(&mut owner, ":");
    let g = decimal_chars(gid as u64);
    push_chars(&mut owner, &g);
    let mut r = Vec::new();
    r.push(owned("chown"));
    r.push(string_of(&owner));
    r.push(owned(path));
    assert(strings_view(r@) =~= seq![
        "chown"@,
        decimal(uid as nat) + ":"@ + decimal(gid as nat),
        path@,
    ]);
    r
}

/// The error contexts of the steps after the instance is ready.
pub open spec fn ready_context(c: Seq<char>) -> bool {
    ||| c == "failed to push CA cert"@
    ||| c == "failed to rebuild trust store"@
    ||| c == "failed to chown mount parents"@
}

/// The command that rebuilds the trust store.
pub open spec fn rebuild_text(distro: DistroKind) -> Seq<char> {
    match distro {
        DistroKind::Arch => "update-ca-trust"@,
    }
}

/// The calls that hand each directory of `parents` to the container user.
pub open spec fn chown_calls(config: LaunchConfig, parents: Seq<Seq<char>>) -> Seq<(BackendCall, Seq<char>)> {
    Seq::new(
        parents.len(),
        |i: int|
            (
                BackendCall::ExecStdout {
                    name: config.name@,
                    cmd: seq![
                        "chown"@,
                        decimal(config.container_uid as nat) + ":"@ + decimal(config.container_gid as nat),
                        parents[i],
                    ],
                },
                "failed to chown mount parents"@,
            ),
    )
}

/// The calls once the instance is ready: push the CA certificate `ca`
/// (mode 0644, owned by root), rebuild the trust store, then hand each
/// directory of `parents` to the container user.
pub open spec fn finish_calls(config: LaunchConfig, ca: Seq<u8>, parents: Seq<Seq<char>>) -> Seq<(BackendCall, Seq<char>)> {
    seq![
        (
            BackendCall::WriteFile {
                name: config.name@,
                content: ca,
                path: ca_cert_path_text(config.distro),
                mode: "0644"@,
                uid: 0,
                gid: 0,
            },
            "failed to push CA cert"@,
        ),
        (
            BackendCall::ExecStdout { name: config.name@, cmd: seq![rebuild_text(config.distro)] },
            "failed to rebuild trust store"@,
        ),
    ] + chown_calls(config, parents)
}

/// Once the instance is ready: push the proxy's CA certificate (mode 0644,
/// owned by root), rebuild the trust store, then hand each directory in
/// `parents` to the container user (see [`finish_calls`]); the first
/// failure stops.
pub fn finish_start<IB: InstanceBackend>(
    config: &LaunchConfig,
    backend: &mut Recorded<IB>,
    ca_cert: &str,
    parents: &Vec<String>,
) -> (r: Result<(), InstanceError<IB::Error>>)
    ensures
        match r {
            Ok(()) => true,
            Err(InstanceError::Backend { context, .. }) => ready_context(context@),
            Err(InstanceError::Timeout { .. }) => false,
        },
        final(backend).calls() == old(backend).calls() + calls_since(old(backend).calls(), final(backend).calls()),
        called_in_order(
            finish_calls(*config, ca_cert.spec_bytes(), strings_view(parents@)),
            calls_since(old(backend).calls(), final(backend).calls()),
            r,
        ),
{
    proof {
        reveal_strlit("failed to push CA cert");
        reveal_strlit("failed to rebuild trust store");
        reveal_strlit("failed to chown mount parents");
        reveal_strlit("0644");
    }
    let ghost h0 = backend.calls();
    let ghost plan = finish_calls(*config, ca_cert.spec_bytes(), strings_view(parents@));
    let ghost p1 = seq![plan[0]];
    let ghost p2 = seq![plan[1]];
    let ghost p3 = chown_calls(*config, strings_view(parents@));
    assert(plan =~= p1 + p2 + p3);

    let path = ca_cert_path(config.distro);
    let pushed = backend.write_file(config.name.as_str(), ca_cert.as_bytes(), path.as_str(), "0644", 0, 0);
    let ghost h1 = backend.calls();
    let ghost a1 = Answer::Done(pushed);
    let r1 = match pushed {
        Ok(()) => Ok(()),
        Err(e) => Err(InstanceError::backend("failed to push CA cert", e)),
    };
    proof {
        assert(h1 =~= h0 + seq![(plan[0].0, a1)]);
        assert(calls_since(h0, h1) =~= seq![(plan[0].0, a1)]);
        lemma_called_single(plan[0].0, plan[0].1, a1, r1);
        assert(seq![(plan[0].0, plan[0].1)] =~= p1);
    }
    if r1.is_err() {
        proof {
            lemma_called_stopped(p1, calls_since(h0, h1), p2 + p3, r1);
            assert(p1 + (p2 + p3) =~= plan);
        }
        return r1;
    }

    let mut rebuild = Vec::new();
    rebuild.push(owned(config.distro.rebuild_trust_store_command()));
    proof {
        assert(strings_view(rebuild@) =~= seq![rebuild_text(config.distro)]);
    }
    let rebuilt = backend.exec_stdout(config.name.as_str(), &rebuild);
    let ghost h2 = backend.calls();
    let ghost a2 = Answer::Output(rebuilt);
    let r2 = match rebuilt {
        Ok(_) => Ok(()),
        Err(e) => Err(InstanceError::backend("failed to rebuild trust store", e)),
    };
    proof {
        assert(h2 =~= h1 + seq![(plan[1].0, a2)]);
        assert(calls_since(h1, h2) =~= seq![(plan[1].0, a2)]);
        lemma_called_single(plan[1].0, plan[1].1, a2, r2);
        assert(seq![(plan[1].0, plan[1].1)] =~= p2);
        assert(h2 =~= h0 + (calls_since(h0, h1) + calls_since(h1, h2)));
        assert(calls_since(h0, h2) =~= calls_since(h0, h1) + calls_since(h1, h2));
    }
    if r2.is_err() {
        proof {
            lemma_called_stopped(p2, calls_since(h1, h2), p3, r2);
            lemma_called_append(p1, calls_since(h0, h1), r1, p2 + p3, calls_since(h1, h2), r2);
            assert(p1 + (p2 + p3) =~= plan);
        }
        return r2;
    }
    proof {
        lemma_called_append(p1, calls_since(h0, h1), r1, p2, calls_since(h1, h2), r2);
    }
    let r3 = chown_from(config, backend, parents, 0);
    proof {
        let h3 = backend.calls();
        assert(strings_view(parents@).skip(0) =~= strings_view(parents@));
        assert(chown_calls(*config, strings_view(parents@).skip(0)) =~= p3);
        lemma_called_append(p1 + p2, calls_since(h0, h2), r2, p3, calls_since(h2, h3), r3);
        assert(h3 =~= h0 + (calls_since(h0, h2) + calls_since(h2, h3)));
        assert(calls_since(h0, h3) =~= calls_since(h0, h2) + calls_since(h2, h3));
    }
    r3
}

/// Hand the directories of `parents` from `i` on to the container user,
/// stopping at the first failure.
fn chown_from<IB: InstanceBackend>(
    config: &LaunchConfig,
    backend: &mut Recorded<IB>,
    parents: &Vec<String>,
    i: usize,
) -> (r: Result<(), InstanceError<IB::Error>>)
    requires
        i <= parents@.len(),
    ensures
        match r {
            Ok(()) => true,
            Err(InstanceError::Backend { context, .. }) => context@ == "failed to chown mount parents"@,
            Err(InstanceError::Timeout { .. }) => false,
        },
        final(backend).calls() == old(backend).calls() + calls_since(old(backend).calls(), final(backend).calls()),
        called_in_order(
            chown_calls(*config, strings_view(parents@).skip(i as int)),
            calls_since(old(backend).calls(), final(backend).calls()),
            r,
        ),
    decreases parents@.len() - i,
{
    proof {
        reveal_strlit("failed to chown mount parents");
    }
    let ghost h0 = backend.calls();
    let ghost plan = chown_calls(*config, strings_view(parents@).skip(i as int));
    if i == parents.len() {
        proof {
            assert(plan =~= Seq::<(BackendCall, Seq<char>)>::empty());
            assert(calls_since(h0, backend.calls()) =~= Seq::<(BackendCall, Answer<IB::Error>)>::empty());
            assert(backend.calls() =~= h0 + Seq::<(BackendCall, Answer<IB::Error>)>::empty());
        }
        return Ok(());
    }
    let cmd = chown_command(config.container_uid, config.container_gid, parents[i].as_str());
    let out = backend.exec_stdout(config.name.as_str(), &cmd);
    let ghost h1 = backend.calls();
    let ghost a = Answer::Output(out);
    let r1 = match out {
        Ok(_) => Ok(()),
        Err(e) => Err(InstanceError::backend("failed to chown mount parents", e)),
    };
    proof {
        assert(plan[0].0 == BackendCall::ExecStdout { name: config.name@, cmd: strings_view(cmd@) });
        assert(h1 =~= h0 + seq![(plan[0].0, a)]);
        assert(calls_since(h0, h1) =~= seq![(plan[0].0, a)]);
        lemma_called_single(plan[0].0, plan[0].1, a, r1);
        assert(seq![(plan[0].0, plan[0].1)] + plan.drop_first() =~= plan);
        assert(plan.drop_first() =~= chown_calls(*config, strings_view(parents@).skip(i + 1)));
    }
    if r1.is_err() {
        proof {
            lemma_called_stopped(seq![(plan[0].0, plan[0].1)], calls_since(h0, h1), plan.drop_first(), r1);
        }
        return r1;
    }
    let rest = chown_from(config, backend, parents, i + 1);
    proof {
        let h2 = backend.calls();
        lemma_called_append(seq![(plan[0].0, plan[0].1)], calls_since(h0, h1), r1, plan.drop_first(), calls_since(h1, h2), rest);
        assert(h2 =~= h0 + (calls_since(h0, h1) + calls_since(h1, h2)));
        assert(calls_since(h0, h2) =~= calls_since(h0, h1) + calls_since(h1, h2));
    }
    rest
}

// ---------------------------------------------------------------------------
// Running
// ---------------------------------------------------------------------------

/// The proxy URL handed to commands: `http://<gateway>:<port>`.
pub fn proxy_url(gateway: &str, port: u16) -> (r: String)
    ensures
        r@ == "http://"@ + gateway@ + ":"@ + decimal(port as nat),
{
    let mut v = Vec::new();
    push_str(&mut v, "http://");
    push_str(&mut v, gateway);
    push_str(&mut v, ":");
    let d = decimal_chars(port as u64);
    push_chars(&mut v, &d);
    string_of(&v)
}

/// The call that runs `command` (see [`exec`]).
pub open spec fn exec_call(
    config: LaunchConfig,
    gateway: Seq<char>,
    port: u16,
    command: Seq<Seq<char>>,
    env: Map<Seq<char>, Seq<char>>,
    cwd: Option<String>,
) -> BackendCall {
    BackendCall::Exec {
        name: config.name@,
        cmd: command,
        env,
        cwd: match cwd {
            Some(d) => d@,
            None => config.container_home@,
        },
        uid: config.exec_uid,
        gid: config.exec_gid,
        home: Some(config.container_home@),
        proxy_url: Some("http://"@ + gateway + ":"@ + decimal(port as nat)),
    }
}

/// What `exec` returns for the backend's answer `a`: the exit code, or the
/// backend error under "failed to run lxc exec".
pub open spec fn exec_answered<E>(a: Answer<E>, r: Result<i32, InstanceError<E>>) -> bool {
    match a {
        Answer::Code(Ok(c)) => r matches Ok(x) && x == c,
        Answer::Code(Err(e)) => r matches Err(InstanceError::Backend { context, source })
            && context@ == "failed to run lxc exec"@ && source == e,
        _ => false,
    }
}

/// Run `command` in the running instance as the exec user, in `cwd` (the
/// container home when `None`), with `HOME` set to the container home and
/// the proxy at `gateway:port`. Returns the exit code.
pub fn exec<IB: InstanceBackend>(
    config: &LaunchConfig,
    backend: &mut Recorded<IB>,
    gateway: &str,
    port: u16,
    command: &Vec<String>,
    env: &EnvMap,
    cwd: &Option<String>,
) -> (r: Result<i32, InstanceError<IB::Error>>)
    ensures
        r matches Err(InstanceError::Backend { context, .. }) ==> context@ == "failed to run lxc exec"@,
        !(r matches Err(InstanceError::Timeout { .. })),
        final(backend).calls().len() == old(backend).calls().len() + 1,
        final(backend).calls().take(old(backend).calls().len() as int) == old(backend).calls(),
        final(backend).calls().last().0 == exec_call(*config, gateway@, port, strings_view(command@), env@, *cwd),
        exec_answered(final(backend).calls().last().1, r),
{
    proof {
        reveal_strlit("failed to run lxc exec");
    }
    let ghost h0 = backend.calls();
    let url = proxy_url(gateway, port);
    let dir = match cwd {
        Some(d) => d.as_str(),
        None => config.container_home.as_str(),
    };
    let home = Some(config.container_home.clone());
    let out = backend.exec(
        config.name.as_str(),
        command,
        env,
        dir,
        config.exec_uid,
        config.exec_gid,
        &home,
        &Some(url),
    );
    proof {
        assert(backend.calls().take(h0.len() as int) =~= h0);
    }
    match out {
        Ok(code) => Ok(code),
        Err(e) => Err(InstanceError::backend("failed to run lxc exec", e)),
    }
}

/// How many of the recorded calls delete an instance.
pub open spec fn deletes<E>(recs: Seq<(BackendCall, Answer<E>)>) -> nat
    decreases recs.len(),
{
    if recs.len() == 0 {
        0
    } else {
        deletes(recs.drop_last()) + if recs.last().0 is Delete {
            1nat
        } else {
            0nat
        }
    }
}

/// The calls recorded by [`called_in_order`] are those of the plan, in
/// order, stopping at the first failure.
proof fn lemma_calls_follow_plan<E>(
    plan: Seq<(BackendCall, Seq<char>)>,
    recs: Seq<(BackendCall, Answer<E>)>,
    r: Result<(), InstanceError<E>>,
)
    requires
        called_in_order(plan, recs, r),
    ensures
        recs.len() <= plan.len(),
        forall|i: int| 0 <= i < recs.len() ==> #[trigger] recs[i].0 == plan[i].0,
    decreases plan.len(),
{
    if plan.len() > 0 && answer_error(recs[0].1) is None {
        lemma_calls_follow_plan(plan.drop_first(), recs.drop_first(), r);
        assert forall|i: int| 0 <= i < recs.len() implies #[trigger] recs[i].0 == plan[i].0 by {
            if i > 0 {
                assert(recs.drop_first()[i - 1] == recs[i]);
            }
        }
    }
}

/// Calls none of which is a deletion delete nothing.
proof fn lemma_no_deletes<E>(recs: Seq<(BackendCall, Answer<E>)>)
    requires
        forall|i: int| 0 <= i < recs.len() ==> !(#[trigger] recs[i].0 is Delete),
    ensures
        deletes(recs) == 0,
    decreases recs.len(),
{
    if recs.len() > 0 {
        assert(!(recs[recs.len() - 1].0 is Delete));
        lemma_no_deletes(recs.drop_last());
    }
}

/// Deletions add up over consecutive records.
proof fn lemma_deletes_append<E>(a: Seq<(BackendCall, Answer<E>)>, b: Seq<(BackendCall, Answer<E>)>)
    ensures
        deletes(a + b) == deletes(a) + deletes(b),
    decreases b.len(),
{
    if b.len() == 0 {
        assert(a + b =~= a);
    } else {
        lemma_deletes_append(a, b.drop_last());
        assert((a + b).drop_last() =~= a + b.drop_last());
        assert((a + b).last() == b.last());
    }
}

/// Creating an instance and attaching its devices deletes nothing.
proof fn lemma_creation_deletes_nothing<E>(
    c: LaunchConfig,
    is_file: Seq<bool>,
    recs: Seq<(BackendCall, Answer<E>)>,
    r: Result<(), InstanceError<E>>,
)
    requires
        called_in_order(create_calls(c, is_file), recs, r),
    ensures
        deletes(recs) == 0,
{
    let plan = create_calls(c, is_file);
    lemma_calls_follow_plan(plan, recs, r);
    assert forall|i: int| 0 <= i < recs.len() implies !(#[trigger] recs[i].0 is Delete) by {
        assert(recs[i].0 == plan[i].0);
        let d = device_calls(c, is_file);
        if 1 <= i < 1 + d.len() {
            assert(plan[i] == d[i - 1]);
        }
    }
    lemma_no_deletes(recs);
}

/// A failed creation cleans up once the instance exists: when the backend
/// failed to create it, nothing is deleted; when a later step of creating
/// it failed, it is deleted exactly once, unless it is kept. `n` is the
/// call that failed, as [`create_instance`] reports it.
pub proof fn law_failed_creation_cleanup<E>(
    c: LaunchConfig,
    is_file: Seq<bool>,
    recs: Seq<(BackendCall, Answer<E>)>,
    n: int,
    e: InstanceError<E>,
)
    requires
        1 <= n <= recs.len(),
        called_in_order(create_calls(c, is_file), recs.take(n), Err::<(), InstanceError<E>>(e)),
        cleanup_after(c, n, recs.skip(n)),
    ensures
        deletes(recs) == if n >= 2 && !c.keep {
            1nat
        } else {
            0nat
        },
        n == 1 ==> deletes(recs) == 0,
{
    lemma_creation_deletes_nothing(c, is_file, recs.take(n), Err::<(), InstanceError<E>>(e));
    lemma_deletes_append(recs.take(n), recs.skip(n));
    assert(recs.take(n) + recs.skip(n) =~= recs);
    let rest = recs.skip(n);
    assert(deletes(Seq::<(BackendCall, Answer<E>)>::empty()) == 0);
    if n >= 2 && !c.keep {
        assert(rest.drop_last() =~= Seq::<(BackendCall, Answer<E>)>::empty());
        assert(deletes(rest) == 1);
    } else {
        assert(rest =~= Seq::<(BackendCall, Answer<E>)>::empty());
    }
}

/// Once the instance exists, a failure in setting up its network isolation
/// or in attaching it to the bridge deletes it exactly once, as the last
/// call, unless it is kept. `created` are the calls that created it (all
/// successful), `attached` the attempt to attach it (none when the
/// isolation failed), `released` what releasing the guard recorded (see
/// [`attach_or_release`]).
pub proof fn law_later_failure_deletes_once<E>(
    c: LaunchConfig,
    is_file: Seq<bool>,
    created: Seq<(BackendCall, Answer<E>)>,
    attached: Seq<(BackendCall, Answer<E>)>,
    attach_result: Result<(), InstanceError<E>>,
    released: Seq<(BackendCall, Answer<E>)>,
)
    requires
        called_in_order(create_calls(c, is_file), created, Ok::<(), InstanceError<E>>(())),
        attached.len() == 0 || called_in_order(
            seq![(attach_call(c), "failed to attach instance to bridge"@)],
            attached,
            attach_result,
        ),
        release_calls(c, released),
    ensures
        deletes(created + attached + released) == if c.keep {
            0nat
        } else {
            1nat
        },
        !c.keep ==> (created + attached + released).last().0 == (BackendCall::Delete { name: c.name@ }),
{
    lemma_creation_deletes_nothing(c, is_file, created, Ok::<(), InstanceError<E>>(()));
    if attached.len() > 0 {
        lemma_calls_follow_plan(seq![(attach_call(c), "failed to attach instance to bridge"@)], attached, attach_result);
        assert(attached[0].0 == attach_call(c));
    }
    assert forall|i: int| 0 <= i < attached.len() implies !(#[trigger] attached[i].0 is Delete) by {
        assert(i == 0);
    }
    lemma_no_deletes(attached);
    lemma_deletes_append(created, attached);
    lemma_deletes_append(created + attached, released);
    assert(deletes(Seq::<(BackendCall, Answer<E>)>::empty()) == 0);
    if c.keep {
        assert(released =~= Seq::<(BackendCall, Answer<E>)>::empty());
    } else {
        assert(released.drop_last() =~= Seq::<(BackendCall, Answer<E>)>::empty());
        assert(deletes(released) == 1);
        assert((created + attached + released).last() == released.last());
    }
}

} // verus!
