//! Turning raw container-engine responses, handed over as plain values,
//! into the library's records, and the arithmetic on engine counters.

use vstd::prelude::*;

use crate::errors::Error;
use crate::model::{ContainerInfo, ExecSession, Stats};
use crate::reconcile::{lemma_lookup_idx, spec_lookup, spec_lookup_idx};
use crate::status::Status;
use crate::strutil::str_eq;

verus! {

/// First value under the given label key, if any.
#[verifier::loop_isolation(false)]
fn lookup_label(labels: &Vec<(String, String)>, key: &str) -> (r: Option<String>)
    ensures
        r.deep_view() == spec_lookup(labels.deep_view(), key@),
{
    proof {
        lemma_lookup_idx(labels.deep_view(), key@);
    }
    let mut j: usize = 0;
    while j < labels.len()
        invariant
            0 <= j <= labels@.len(),
            forall|k: int| 0 <= k < j ==> (#[trigger] labels.deep_view()[k]).0 != key@,
        decreases labels@.len() - j,
    {
        if str_eq(labels[j].0.as_str(), key) {
            proof {
                let dv = labels.deep_view();
                let i = spec_lookup_idx(dv, key@);
                assert(dv[j as int].0 == key@);
                assert(i != -1);
                if i < j {
                    assert(dv[i].0 != key@);
                }
                if i > j as int {
                    assert(dv[j as int].0 != key@);
                }
                assert(i == j as int);
            }
            return Option::Some(labels[j].1.clone());
        }
        j += 1;
    }
    proof {
        let dv = labels.deep_view();
        let i = spec_lookup_idx(dv, key@);
        if i >= 0 {
            assert(dv[i].0 != key@);
        }
    }
    Option::None
}

/// The label carrying a container's worktree path: the join key that maps
/// it onto a workspace.
pub open spec fn spec_folder_label() -> Seq<char> {
    "devcontainer.local_folder"@
}

/// The label carrying a container's owning project.
pub open spec fn spec_project_label() -> Seq<char> {
    "dev.dc.project"@
}

/// Build a [`ContainerInfo`] from the plain parts of one engine listing
/// record. A record without an id, a state or the worktree-path label is
/// malformed: it becomes a `ParseFailure`, which the caller logs and skips
/// while the listing continues.
pub fn container_from_parts(
    id: Option<String>,
    state: Option<Status>,
    labels: Vec<(String, String)>,
    created: Option<i64>,
    host_ports: Vec<u16>,
) -> (r: Result<ContainerInfo, Error>)
    ensures
        match r {
            Result::Ok(c) => {
                &&& id is Some && state is Some
                &&& spec_lookup(labels.deep_view(), spec_folder_label()) is Some
                &&& c.id@ == id->0@
                &&& c.state == state->0
                &&& Option::Some(c.local_folder@) == spec_lookup(
                    labels.deep_view(),
                    spec_folder_label(),
                )
                &&& c.dc_project.deep_view() == spec_lookup(
                    labels.deep_view(),
                    spec_project_label(),
                )
                &&& c.created == created
                &&& c.host_ports@ == host_ports@
            },
            Result::Err(e) => {
                &&& (id is None || state is None || spec_lookup(
                    labels.deep_view(),
                    spec_folder_label(),
                ) is None)
                &&& e matches Error::ParseFailure(_)
            },
        },
{
    let id = match id {
        Option::Some(i) => i,
        Option::None => {
            return Result::Err(Error::ParseFailure(String::from_str("container missing id")));
        },
    };
    let state = match state {
        Option::Some(s) => s,
        Option::None => {
            return Result::Err(Error::ParseFailure(String::from_str("container missing state")));
        },
    };
    let local_folder = match lookup_label(&labels, "devcontainer.local_folder") {
        Option::Some(f) => f,
        Option::None => {
            return Result::Err(
                Error::ParseFailure(String::from_str("container missing worktree label")),
            );
        },
    };
    let dc_project = lookup_label(&labels, "dev.dc.project");
    Result::Ok(ContainerInfo { id, state, local_folder, dc_project, created, host_ports })
}

/// Build an [`ExecSession`] from the plain parts of one exec inspection:
/// a session not reported as running yields nothing; a running session
/// without a plausible process id is malformed; otherwise the command line
/// is the entrypoint followed by the arguments.
#[verifier::loop_isolation(false)]
pub fn exec_session_from_parts(
    running: Option<bool>,
    pid: Option<i64>,
    entrypoint: Option<String>,
    arguments: Vec<String>,
) -> (r: Result<Option<ExecSession>, Error>)
    ensures
        match r {
            Result::Ok(opt) => match opt {
                Option::Some(e) => {
                    &&& running == Option::Some(true)
                    &&& pid is Some && 0 <= pid->0 <= u32::MAX
                    &&& e.pid as int == pid->0 as int
                    &&& e.command.deep_view() == (match entrypoint {
                        Option::Some(ep) => seq![ep@] + arguments.deep_view(),
                        Option::None => arguments.deep_view(),
                    })
                },
                Option::None => running != Option::Some(true),
            },
            Result::Err(e) => {
                &&& running == Option::Some(true)
                &&& (pid is None || !(0 <= pid->0 <= u32::MAX))
                &&& e matches Error::ParseFailure(_)
            },
        },
{
    let is_running = match running {
        Option::Some(b) => b,
        Option::None => false,
    };
    if !is_running {
        return Result::Ok(Option::None);
    }
    let pid_val = match pid {
        Option::Some(p) => p,
        Option::None => {
            return Result::Err(Error::ParseFailure(String::from_str("running exec has no pid")));
        },
    };
    if pid_val < 0 || pid_val > 4294967295i64 {
        return Result::Err(
            Error::ParseFailure(String::from_str("running exec has an implausible pid")),
        );
    }
    let mut command: Vec<String> = Vec::new();
    let ghost edv: Option<Seq<char>> = entrypoint.deep_view();
    match entrypoint {
        Option::Some(ep) => {
            command.push(ep);
            proof {
                assert(command.deep_view() =~= seq![edv->0]);
            }
        },
        Option::None => {},
    }
    let ghost head = command.deep_view();
    let ghost adv = arguments.deep_view();
    let mut args = arguments;
    let ghost mut done: int = 0;
    proof {
        assert(args.deep_view() =~= adv.skip(0));
        assert(command.deep_view() =~= head + adv.take(0));
    }
    while args.len() > 0
        invariant
            0 <= done <= adv.len(),
            args.deep_view() == adv.skip(done),
            command.deep_view() == head + adv.take(done),
        decreases args@.len(),
    {
        let ghost args_before = args@;
        let a = args.remove(0);
        proof {
            assert(a == args_before[0]);
            assert(args_before[0].deep_view() == adv.skip(done)[0]);
            assert(a@ == adv[done]);
            assert forall|k: int| 0 <= k < args@.len() implies args.deep_view()[k] == adv.skip(
                done + 1,
            )[k] by {
                assert(args@[k] == args_before[k + 1]);
                assert(args_before[k + 1].deep_view() == adv.skip(done)[k + 1]);
            }
            assert(args.deep_view() =~= adv.skip(done + 1));
        }
        let ghost av = a@;
        let ghost cdv = command.deep_view();
        command.push(a);
        proof {
            assert(command.deep_view() =~= cdv.push(av));
            assert(adv.take(done + 1).drop_last() =~= adv.take(done));
            assert(adv.take(done + 1).last() == adv[done]);
            assert(command.deep_view() =~= head + adv.take(done + 1));
            done = done + 1;
        }
    }
    proof {
        assert(adv.take(adv.len() as int) =~= adv);
    }
    Result::Ok(Option::Some(ExecSession { pid: pid_val as u32, command }))
}

/// CPU use over a sampling interval, in hundredths of a percent: the
/// container's counter delta over the system's, scaled by the number of
/// online CPUs; zero when the interval is empty or the counters moved
/// backwards, saturating at `u64::MAX`.
pub open spec fn spec_cpu_percent(
    total: u64,
    pre_total: u64,
    system: u64,
    pre_system: u64,
    online_cpus: u32,
) -> u64 {
    let cpu_delta = total as int - pre_total as int;
    let system_delta = system as int - pre_system as int;
    if system_delta > 0 && cpu_delta >= 0 {
        let v = cpu_delta * (online_cpus as int) * 10000 / system_delta;
        if v > u64::MAX {
            u64::MAX
        } else {
            v as u64
        }
    } else {
        0
    }
}

/// Compute the CPU percentage from two time-separated counter readings.
pub fn compute_cpu_percent(
    total: u64,
    pre_total: u64,
    system: u64,
    pre_system: u64,
    online_cpus: u32,
) -> (r: u64)
    ensures
        r == spec_cpu_percent(total, pre_total, system, pre_system, online_cpus),
{
    if system <= pre_system || total < pre_total {
        return 0;
    }
    let cpu_delta: u128 = (total - pre_total) as u128;
    let system_delta: u128 = (system - pre_system) as u128;
    proof {
        assert(cpu_delta * (online_cpus as u128) * 10000 < u128::MAX) by (nonlinear_arith)
            requires
                0 <= cpu_delta <= u64::MAX,
                0 <= online_cpus as u128 <= u32::MAX,
        ;
    }
    let scaled: u128 = cpu_delta * (online_cpus as u128) * 10000;
    let v: u128 = scaled / system_delta;
    proof {
        assert(scaled / system_delta <= scaled) by (nonlinear_arith)
            requires
                system_delta >= 1,
                scaled >= 0,
        ;
    }
    if v > 18446744073709551615u128 {
        18446744073709551615u64
    } else {
        v as u64
    }
}

/// Fold one `(workspace, port)` pair into the groups: append to the
/// workspace's ports, or open a new group at the end.
pub open spec fn spec_add_port(
    gs: Seq<(Seq<char>, Seq<u16>)>,
    kv: (Seq<char>, u16),
) -> Seq<(Seq<char>, Seq<u16>)> {
    let i = spec_lookup_idx(gs, kv.0);
    if 0 <= i < gs.len() {
        gs.update(i, (gs[i].0, gs[i].1.push(kv.1)))
    } else {
        gs.push((kv.0, seq![kv.1]))
    }
}

/// Group `(workspace, port)` pairs by workspace, in first-appearance order.
pub open spec fn spec_group_ports(pairs: Seq<(Seq<char>, u16)>) -> Seq<(Seq<char>, Seq<u16>)>
    decreases pairs.len(),
{
    if pairs.len() == 0 {
        Seq::empty()
    } else {
        spec_add_port(spec_group_ports(pairs.drop_last()), pairs.last())
    }
}

/// Group forwarded-port sidecar listings by their workspace label.
#[verifier::loop_isolation(false)]
pub fn group_forwarded_ports(pairs: Vec<(String, u16)>) -> (r: Vec<(String, Vec<u16>)>)
    ensures
        r.deep_view() == spec_group_ports(pairs.deep_view()),
{
    let ghost pdv = pairs.deep_view();
    let mut groups: Vec<(String, Vec<u16>)> = Vec::new();
    let mut rest = pairs;
    let ghost mut done: int = 0;
    proof {
        assert(rest.deep_view() =~= pdv.skip(0));
        assert(groups.deep_view() =~= spec_group_ports(pdv.take(0)));
    }
    while rest.len() > 0
        invariant
            0 <= done <= pdv.len(),
            rest.deep_view() == pdv.skip(done),
            groups.deep_view() == spec_group_ports(pdv.take(done)),
        decreases rest@.len(),
    {
        let ghost rest_before = rest@;
        let kv = rest.remove(0);
        proof {
            assert(kv == rest_before[0]);
            assert(rest_before[0].deep_view() == pdv.skip(done)[0]);
            assert(kv.deep_view() == pdv[done]);
            assert forall|k: int| 0 <= k < rest@.len() implies rest.deep_view()[k] == pdv.skip(
                done + 1,
            )[k] by {
                assert(rest@[k] == rest_before[k + 1]);
                assert(rest_before[k + 1].deep_view() == pdv.skip(done)[k + 1]);
            }
            assert(rest.deep_view() =~= pdv.skip(done + 1));
            assert(pdv.take(done + 1).drop_last() =~= pdv.take(done));
            assert(pdv.take(done + 1).last() == pdv[done]);
            lemma_lookup_idx(groups.deep_view(), kv.0@);
        }
        let ghost gdv = groups.deep_view();
        let mut j: usize = 0;
        let mut matched = false;
        while j < groups.len()
            invariant
                0 <= j <= gdv.len(),
                !matched,
                groups.deep_view() == gdv,
                forall|k: int| 0 <= k < j ==> (#[trigger] gdv[k]).0 != kv.0@,
            decreases gdv.len() - j,
        {
            if str_eq(groups[j].0.as_str(), kv.0.as_str()) {
                proof {
                    let i = spec_lookup_idx(gdv, kv.0@);
                    assert(gdv[j as int] == groups@[j as int].deep_view());
                    assert(gdv[j as int].0 == kv.0@);
                    assert(i != -1);
                    if i < j {
                        assert(gdv[i].0 != kv.0@);
                    }
                    if i > j as int {
                        assert(gdv[j as int].0 != kv.0@);
                    }
                    assert(i == j as int);
                }
                let ghost before = groups@;
                let mut g = groups.remove(j);
                g.1.push(kv.1);
                proof {
                    assert(g.1@ =~= gdv[j as int].1.push(kv.1));
                    assert(g.deep_view() == (gdv[j as int].0, gdv[j as int].1.push(kv.1)));
                }
                groups.insert(j, g);
                proof {
                    let expected = spec_add_port(gdv, (kv.0@, kv.1));
                    assert forall|k: int| 0 <= k < groups@.len() implies groups.deep_view()[k]
                        == expected[k] by {
                        if k < j {
                            assert(groups@[k] == before[k]);
                        } else if k == j as int {
                            assert(groups@[k] == g);
                        } else {
                            assert(groups@[k] == before.remove(j as int).insert(j as int, g)[k]);
                            assert(groups@[k] == before[k]);
                        }
                    }
                    assert(groups.deep_view() =~= expected);
                    assert(groups.deep_view() =~= spec_group_ports(pdv.take(done + 1)));
                }
                matched = true;
                break ;
            }
            j += 1;
        }
        if !matched {
            proof {
                let i = spec_lookup_idx(gdv, kv.0@);
                if i >= 0 {
                    assert(gdv[i].0 != kv.0@);
                }
                assert(i == -1);
            }
            let ghost kv0 = kv.0@;
            let ghost kv1 = kv.1;
            let mut ports: Vec<u16> = Vec::new();
            ports.push(kv.1);
            proof {
                assert(ports@ =~= seq![kv1]);
            }
            groups.push((kv.0, ports));
            proof {
                assert(groups@[groups@.len() - 1].deep_view() == (kv0, seq![kv1]));
                assert(groups.deep_view() =~= gdv.push((kv0, seq![kv1])));
                assert(groups.deep_view() =~= spec_group_ports(pdv.take(done + 1)));
            }
        }
        proof {
            done = done + 1;
        }
    }
    proof {
        assert(pdv.take(pdv.len() as int) =~= pdv);
    }
    groups
}

/// Whether the sequence is strictly increasing.
pub open spec fn strictly_sorted(s: Seq<u16>) -> bool {
    forall|i: int, j: int| 0 <= i < j < s.len() ==> s[i] < s[j]
}

/// Sort published ports and drop duplicates: the result is strictly
/// increasing and holds exactly the ports of the input.
#[verifier::loop_isolation(false)]
pub fn sort_dedup_ports(ports: &Vec<u16>) -> (r: Vec<u16>)
    ensures
        strictly_sorted(r@),
        forall|p: u16| r@.contains(p) <==> ports@.contains(p),
{
    let mut out: Vec<u16> = Vec::new();
    let mut i: usize = 0;
    while i < ports.len()
        invariant
            0 <= i <= ports@.len(),
            strictly_sorted(out@),
            forall|p: u16| out@.contains(p) <==> ports@.take(i as int).contains(p),
        decreases ports@.len() - i,
    {
        let p = ports[i];
        proof {
            assert(ports@.take(i + 1) =~= ports@.take(i as int).push(p));
            assert forall|q: u16|
                ports@.take(i + 1).contains(q) implies (ports@.take(i as int).contains(q) || q
                == p) by {
                let w = choose|w: int|
                    0 <= w < ports@.take(i + 1).len() && #[trigger] ports@.take(i + 1)[w] == q;
                if w < i {
                    assert(ports@.take(i as int)[w] == q);
                }
            }
            assert forall|q: u16|
                ports@.take(i as int).contains(q) || q == p implies ports@.take(i + 1).contains(
                q,
            ) by {
                if q == p {
                    assert(ports@.take(i + 1)[i as int] == p);
                } else {
                    let w = choose|w: int|
                        0 <= w < ports@.take(i as int).len() && #[trigger] ports@.take(i as int)[w]
                            == q;
                    assert(ports@.take(i + 1)[w] == q);
                }
            }
        }
        // Is the port already there?
        let mut present = false;
        let mut t: usize = 0;
        while t < out.len()
            invariant
                0 <= t <= out@.len(),
                present <==> exists|k: int| 0 <= k < t && out@[k] == p,
            decreases out@.len() - t,
        {
            if out[t] == p {
                present = true;
            }
            t += 1;
        }
        if present {
            proof {
                assert(out@.contains(p));
                assert forall|q: u16| out@.contains(q) implies ports@.take(i + 1).contains(q) by {
                    assert(ports@.take(i as int).contains(q) || q == p);
                }
                assert forall|q: u16| ports@.take(i + 1).contains(q) implies out@.contains(q) by {
                    assert(ports@.take(i as int).contains(q) || q == p);
                }
            }
        } else {
            proof {
                assert(!out@.contains(p)) by {
                    if out@.contains(p) {
                        let w = choose|w: int| 0 <= w < out@.len() && out@[w] == p;
                        assert(exists|k: int| 0 <= k < out@.len() && out@[k] == p);
                    }
                }
            }
            // Find the insertion position: the first entry above `p`.
            let mut j: usize = 0;
            while j < out.len() && out[j] < p
                invariant
                    0 <= j <= out@.len(),
                    forall|k: int| 0 <= k < j ==> out@[k] < p,
                decreases out@.len() - j,
            {
                j += 1;
            }
            proof {
                assert(forall|k: int| 0 <= k < j ==> out@[k] < p);
                assert forall|k: int| j <= k < out@.len() implies out@[k] > p by {
                    assert(out@[j as int] != p);
                    assert(!(out@[j as int] < p));
                    if k > j {
                        assert(out@[j as int] < out@[k]);
                    }
                    assert(out@[k] != p);
                }
            }
            let ghost before = out@;
            out.insert(j, p);
            proof {
                assert(out@ =~= before.insert(j as int, p));
                assert(strictly_sorted(out@)) by {
                    assert(forall|k: int| 0 <= k < j ==> out@[k] == before[k]);
                    assert(out@[j as int] == p);
                    assert(forall|k: int| j < k < out@.len() ==> out@[k] == before[k - 1]);
                }
                assert(forall|q: u16| out@.contains(q) <==> (before.contains(q) || q == p)) by {
                    assert forall|q: u16| before.contains(q) || q == p implies out@.contains(
                        q,
                    ) by {
                        if q == p {
                            assert(out@[j as int] == p);
                        } else {
                            let w = choose|w: int| 0 <= w < before.len() && before[w] == q;
                            if w < j {
                                assert(out@[w] == q);
                            } else {
                                assert(out@[w + 1] == q);
                            }
                        }
                    }
                    assert forall|q: u16| out@.contains(q) implies before.contains(q) || q
                        == p by {
                        let w = choose|w: int| 0 <= w < out@.len() && out@[w] == q;
                        if w < j {
                            assert(before[w] == q);
                        } else if w == j {
                        } else {
                            assert(before[w - 1] == q);
                        }
                    }
                }
                assert forall|q: u16| out@.contains(q) implies ports@.take(i + 1).contains(q) by {
                    assert(before.contains(q) || q == p);
                    assert(ports@.take(i as int).contains(q) || q == p);
                }
                assert forall|q: u16| ports@.take(i + 1).contains(q) implies out@.contains(q) by {
                    assert(ports@.take(i as int).contains(q) || q == p);
                    assert(before.contains(q) || q == p);
                }
            }
        }
        i += 1;
    }
    proof {
        assert(ports@.take(ports@.len() as int) =~= ports@);
    }
    out
}

} // verus!
