//! Port-conflict detection: which configured processes want a port that
//! some already-running process is listening on. The listening snapshot
//! comes from outside; the matching is verified.

use vstd::prelude::*;

use crate::lsof::PortEntry;
use crate::ports;
use crate::ports::is_port_candidate;
use crate::types::ProcessConfig;

verus! {

/// A configured process whose derived port is already taken.
pub struct PortConflict {
    pub port: u16,
    pub pid: u32,
    pub process_name: String,
    pub our_process: String,
}

/// The first listener on port `p` at or after index `i`.
pub open spec fn find_listener_from(ls: Seq<PortEntry>, p: int, i: int) -> Option<int>
    decreases ls.len() - i,
    when 0 <= i <= ls.len()
{
    if i >= ls.len() {
        None
    } else if ls[i].port as int == p {
        Some(i)
    } else {
        find_listener_from(ls, p, i + 1)
    }
}

/// Whether the result records a conflict between the named process and
/// this port.
pub open spec fn reports_conflict(res: Seq<PortConflict>, name: Seq<char>, p: int) -> bool {
    exists|k: int|
        0 <= k < res.len() && (#[trigger] res[k]).our_process@ == name && res[k].port as int == p
}

/// Whether one recorded conflict is justified by the configs and the
/// listening snapshot: its process is configured, wants this port, and
/// the first listener on that port has this pid and name.
pub open spec fn conflict_justified(
    c: PortConflict,
    configs: Seq<ProcessConfig>,
    ls: Seq<PortEntry>,
) -> bool {
    &&& exists|i: int|
        0 <= i < configs.len() && c.our_process@ == (#[trigger] configs[i]).name@
            && is_port_candidate(configs[i], c.port as int)
    &&& (find_listener_from(ls, c.port as int, 0) matches Some(f) && c.pid == ls[f].pid
        && c.process_name@ == ls[f].process_name@)
}

fn find_listener(ls: &Vec<PortEntry>, p: u16) -> (r: Option<usize>)
    ensures
        (match r {
            Some(k) => find_listener_from(ls@, p as int, 0) == Some(k as int) && k < ls@.len()
                && ls@[k as int].port == p,
            None => find_listener_from(ls@, p as int, 0) is None,
        }),
{
    let mut i: usize = 0;
    while i < ls.len()
        invariant
            i <= ls@.len(),
            find_listener_from(ls@, p as int, 0) == find_listener_from(ls@, p as int, i as int),
        decreases ls@.len() - i,
    {
        if ls[i].port == p {
            return Some(i);
        }
        i = i + 1;
    }
    None
}

fn already_reported(res: &Vec<PortConflict>, name: &String, port: u16) -> (r: bool)
    ensures
        r == reports_conflict(res@, name@, port as int),
{
    let mut k: usize = 0;
    while k < res.len()
        invariant
            k <= res@.len(),
            forall|m: int|
                0 <= m < k ==> !((#[trigger] res@[m]).our_process@ == name@ && res@[m].port
                    == port),
        decreases res@.len() - k,
    {
        if res[k].port == port && res[k].our_process.eq(name) {
            return true;
        }
        k = k + 1;
    }
    false
}

/// Detect, for every configured process, the ports it derives that some
/// process in the listening snapshot already holds. Every reported
/// conflict is justified by the snapshot; every derived-and-taken port
/// of every config is reported; and no process/port pair is reported
/// twice.
pub fn detect_conflicts(configs: &Vec<ProcessConfig>, listeners: &Vec<PortEntry>) -> (res: Vec<
    PortConflict,
>)
    ensures
        forall|k: int|
            0 <= k < res@.len() ==> conflict_justified(#[trigger] res@[k], configs@, listeners@),
        forall|i: int, p: int|
            0 <= i < configs@.len() && #[trigger] is_port_candidate(configs@[i], p)
                && find_listener_from(listeners@, p, 0) is Some ==> reports_conflict(
                res@,
                configs@[i].name@,
                p,
            ),
        forall|k1: int, k2: int|
            0 <= k1 < k2 < res@.len() ==> !((#[trigger] res@[k1]).our_process@ == (
            #[trigger] res@[k2]).our_process@ && res@[k1].port == res@[k2].port),
{
    let mut res: Vec<PortConflict> = Vec::new();
    let n = configs.len();
    let mut i: usize = 0;
    while i < n
        invariant
            n == configs@.len(),
            i <= n,
            forall|k: int|
                0 <= k < res@.len() ==> conflict_justified(
                    #[trigger] res@[k],
                    configs@,
                    listeners@,
                ),
            forall|i2: int, p: int|
                0 <= i2 < i && #[trigger] is_port_candidate(configs@[i2], p)
                    && find_listener_from(listeners@, p, 0) is Some ==> reports_conflict(
                    res@,
                    configs@[i2].name@,
                    p,
                ),
            forall|k1: int, k2: int|
                0 <= k1 < k2 < res@.len() ==> !((#[trigger] res@[k1]).our_process@ == (
                #[trigger] res@[k2]).our_process@ && res@[k1].port == res@[k2].port),
        decreases n - i,
    {
        let config = &configs[i];
        let wanted = ports::extract_ports(config);
        let m = wanted.len();
        let mut j: usize = 0;
        while j < m
            invariant
                n == configs@.len(),
                i < n,
                *config == configs@[i as int],
                m == wanted@.len(),
                j <= m,
                forall|y: u16| wanted@.contains(y) <==> is_port_candidate(configs@[i as int], y as int),
                forall|k: int|
                    0 <= k < res@.len() ==> conflict_justified(
                        #[trigger] res@[k],
                        configs@,
                        listeners@,
                    ),
                forall|i2: int, p: int|
                    0 <= i2 < i && #[trigger] is_port_candidate(configs@[i2], p)
                        && find_listener_from(listeners@, p, 0) is Some ==> reports_conflict(
                        res@,
                        configs@[i2].name@,
                        p,
                    ),
                forall|jj: int|
                    0 <= jj < j && find_listener_from(
                        listeners@,
                        #[trigger] wanted@[jj] as int,
                        0,
                    ) is Some ==> reports_conflict(res@, configs@[i as int].name@, wanted@[jj] as int),
                forall|k1: int, k2: int|
                    0 <= k1 < k2 < res@.len() ==> !((#[trigger] res@[k1]).our_process@ == (
                    #[trigger] res@[k2]).our_process@ && res@[k1].port == res@[k2].port),
            decreases m - j,
        {
            let p = wanted[j];
            let ghost res_before = res@;
            match find_listener(listeners, p) {
                Some(f) => {
                    if !already_reported(&res, &config.name, p) {
                        let entry = &listeners[f];
                        res.push(
                            PortConflict {
                                port: p,
                                pid: entry.pid,
                                process_name: entry.process_name.clone(),
                                our_process: config.name.clone(),
                            },
                        );
                        proof {
                            assert(res@[res@.len() - 1].our_process@ == configs@[i as int].name@);
                            assert(forall|k: int|
                                0 <= k < res_before.len() ==> res@[k] == res_before[k]);
                            assert(wanted@[j as int] == p);
                            assert(wanted@.contains(p));
                            assert(is_port_candidate(configs@[i as int], p as int));
                            let last = res@[res@.len() - 1];
                            assert((i as int) < configs@.len() && last.our_process@ == configs@[
                                i as int].name@ && is_port_candidate(
                                configs@[i as int],
                                last.port as int,
                            ));
                            assert(conflict_justified(last, configs@, listeners@));
                        }
                    }
                }
                None => {}
            }
            j = j + 1;
        }
        proof {
            assert forall|p: int|
                is_port_candidate(configs@[i as int], p) && find_listener_from(
                    listeners@,
                    p,
                    0,
                ) is Some implies reports_conflict(res@, configs@[i as int].name@, p) by {
                if 0 <= p <= 65535 {
                    let y = p as u16;
                    assert(is_port_candidate(configs@[i as int], y as int));
                    assert(wanted@.contains(y));
                    let jj = choose|jj: int| 0 <= jj < wanted@.len() && wanted@[jj] == y;
                } else {
                    assert(!is_port_candidate(configs@[i as int], p));
                }
            }
        }
        i = i + 1;
    }
    res
}

} // verus!
