//! One accounting cycle for one user: attribution of each retained process
//! to its highest-priority matching rule, accumulation of the cycle's
//! resource deltas, and the kill orders that follow from exhausted budgets.

use vstd::prelude::*;

use crate::tracker::LuminarProcessTacker;
use crate::tracker::LuminarProcessUtil;
use crate::tracker::LuminarRuleTracker;
use crate::tracker::LuminarUser;
use crate::tracker::LuminarUserTrackerBackup;
use crate::tracker::BackupV;
use crate::tracker::PTackV;
use crate::tracker::RTrackV;
use crate::tracker::UserV;
use crate::tracker::UtilV;
use crate::tracker::ptracks_view;
use crate::tracker::rtracks_view;
use crate::tracker::spec_consumed;
use crate::tracker::utils_view;
use crate::units::sat_add;
use crate::units::sat_add_u128;
use crate::units::sub_floor_zero;
use crate::units::elapsed_since;
use crate::units::widening_mul;

verus! {

/// Why a process is ordered killed.
#[derive(Clone, Copy, PartialEq, Eq, Structural, Debug)]
pub enum KillReason {
    /// No rule of the owning user matched the process.
    OutOfRules,
    /// The rule the process was attributed to has exhausted its time budget.
    RuleConsumed,
}

/// An order to terminate one process, carried out by the telemetry
/// collaborator; a failed kill is logged there and retried on a later cycle
/// as long as the rule stays consumed.
#[derive(Clone, Copy, PartialEq, Eq, Structural, Debug)]
pub struct KillCommand {
    pub uid: u32,
    pub pid: u32,
    pub reason: KillReason,
}

/// This cycle's CPU core-time delta: usage integrated over the interval,
/// in micro-core-seconds.
pub open spec fn delta_cpu_core(p: UtilV, interval: u64) -> int {
    p.cpu_usage * interval
}

/// This cycle's CPU memory-time delta, in MB-milliseconds.
pub open spec fn delta_cpu_memory(p: UtilV, interval: u64) -> int {
    p.cpu_memory * interval
}

/// This cycle's GPU device-time delta, in micro-device-seconds.
pub open spec fn delta_gpu_device(p: UtilV, interval: u64) -> int {
    p.gpu_usage * interval
}

/// This cycle's GPU memory-time delta, in MB-milliseconds.
pub open spec fn delta_gpu_memory(p: UtilV, interval: u64) -> int {
    p.gpu_memory * interval
}

/// The rule tracker a process is attributed to: among the trackers whose
/// rules match the process, the one of highest priority; on equal priority
/// the earlier tracker wins.  `None` when no rule matches.
pub open spec fn spec_best_match(trackers: Seq<RTrackV>, p: UtilV) -> Option<int>
    decreases trackers.len(),
{
    if trackers.len() == 0 {
        None
    } else {
        let last = trackers.len() - 1;
        let rest = spec_best_match(trackers.drop_last(), p);
        if trackers.last().rule.spec_match(p) {
            match rest {
                None => Some(last as int),
                Some(j) => if trackers.last().rule.priority > trackers[j].rule.priority {
                    Some(last as int)
                } else {
                    Some(j)
                },
            }
        } else {
            rest
        }
    }
}

/// The first process tracker of the given process id, if any.
pub open spec fn spec_find_pt(trackers: Seq<PTackV>, pid: u32) -> Option<int>
    decreases trackers.len(),
{
    if trackers.len() == 0 {
        None
    } else {
        match spec_find_pt(trackers.drop_last(), pid) {
            Some(i) => Some(i),
            None => if trackers.last().pid == pid {
                Some(trackers.len() - 1 as int)
            } else {
                None
            },
        }
    }
}

/// A rule tracker with its attributed set cleared, ready for reattribution.
pub open spec fn rt_cleared(t: RTrackV) -> RTrackV {
    RTrackV {
        name: t.name,
        rule: t.rule,
        cpu_core_time: t.cpu_core_time,
        cpu_memory_time: t.cpu_memory_time,
        gpu_device_time: t.gpu_device_time,
        gpu_memory_time: t.gpu_memory_time,
        tracked_pids: Seq::empty(),
    }
}

/// All rule trackers with their attributed sets cleared.
pub open spec fn spec_clear_tracked(ts: Seq<RTrackV>) -> Seq<RTrackV> {
    ts.map_values(|t: RTrackV| rt_cleared(t))
}

/// A rule tracker after one process observation is attributed to it.
pub open spec fn rt_add(t: RTrackV, p: UtilV, interval: u64) -> RTrackV {
    RTrackV {
        name: t.name,
        rule: t.rule,
        cpu_core_time: sat_add(t.cpu_core_time, delta_cpu_core(p, interval)),
        cpu_memory_time: sat_add(t.cpu_memory_time, delta_cpu_memory(p, interval)),
        gpu_device_time: sat_add(t.gpu_device_time, delta_gpu_device(p, interval)),
        gpu_memory_time: sat_add(t.gpu_memory_time, delta_gpu_memory(p, interval)),
        tracked_pids: t.tracked_pids.push(p.pid),
    }
}

/// A process tracker after one more observation of its process.
pub open spec fn pt_update(t: PTackV, p: UtilV, interval: u64, now: i64) -> PTackV {
    PTackV {
        pid: t.pid,
        utility: p,
        start_time: t.start_time,
        running_time: sub_floor_zero(now as int, t.start_time),
        cpu_core_time: sat_add(t.cpu_core_time, delta_cpu_core(p, interval)),
        cpu_memory_time: sat_add(t.cpu_memory_time, delta_cpu_memory(p, interval)),
        gpu_device_time: sat_add(t.gpu_device_time, delta_gpu_device(p, interval)),
        gpu_memory_time: sat_add(t.gpu_memory_time, delta_gpu_memory(p, interval)),
    }
}

/// The process tracker created on a process's first sighting: the start
/// time is now, and the accumulators already carry this cycle's deltas.
pub open spec fn pt_new(p: UtilV, interval: u64, now: i64) -> PTackV {
    PTackV {
        pid: p.pid,
        utility: p,
        start_time: now as int,
        running_time: 0,
        cpu_core_time: delta_cpu_core(p, interval),
        cpu_memory_time: delta_cpu_memory(p, interval),
        gpu_device_time: delta_gpu_device(p, interval),
        gpu_memory_time: delta_gpu_memory(p, interval),
    }
}

/// The process trackers after one observation: the existing tracker of that
/// process id is updated, or a new tracker is appended.
pub open spec fn spec_attribute_pt(
    trackers: Seq<PTackV>,
    p: UtilV,
    interval: u64,
    now: i64,
) -> Seq<PTackV> {
    match spec_find_pt(trackers, p.pid) {
        Some(i) => trackers.update(i, pt_update(trackers[i], p, interval, now)),
        None => trackers.push(pt_new(p, interval, now)),
    }
}

/// A backup after one attributed observation.
pub open spec fn backup_add(b: BackupV, p: UtilV, interval: u64) -> BackupV {
    BackupV {
        uid: b.uid,
        name: b.name,
        cpu_core_time: sat_add(b.cpu_core_time, delta_cpu_core(p, interval)),
        cpu_memory_time: sat_add(b.cpu_memory_time, delta_cpu_memory(p, interval)),
        gpu_device_time: sat_add(b.gpu_device_time, delta_gpu_device(p, interval)),
        gpu_memory_time: sat_add(b.gpu_memory_time, delta_gpu_memory(p, interval)),
    }
}

/// The state one cycle folds over, process by process.
#[verifier::ext_equal]
pub struct CycleState {
    pub process_trackers: Seq<PTackV>,
    pub rule_trackers: Seq<RTrackV>,
    pub backup: BackupV,
    pub kills: Seq<KillCommand>,
}

/// One process observation applied to the cycle state.  A process some rule
/// matches is attributed to the highest-priority matching rule: its own
/// tracker, the rule's tracker and the user's backup each take the cycle's
/// deltas.  A process no rule matches is out of bounds: it is ordered killed
/// when the deployment says so, and is never tracked.
pub open spec fn spec_cycle_step(
    s: CycleState,
    p: UtilV,
    interval: u64,
    now: i64,
    uid: u32,
    kill_on_no_match: bool,
) -> CycleState {
    match spec_best_match(s.rule_trackers, p) {
        Some(i) => CycleState {
            process_trackers: spec_attribute_pt(s.process_trackers, p, interval, now),
            rule_trackers: s.rule_trackers.update(i, rt_add(s.rule_trackers[i], p, interval)),
            backup: backup_add(s.backup, p, interval),
            kills: s.kills,
        },
        None => CycleState {
            process_trackers: s.process_trackers,
            rule_trackers: s.rule_trackers,
            backup: s.backup,
            kills: if kill_on_no_match {
                s.kills.push(KillCommand { uid, pid: p.pid, reason: KillReason::OutOfRules })
            } else {
                s.kills
            },
        },
    }
}

/// The cycle state after a whole snapshot of observations, in order.
pub open spec fn spec_cycle_fold(
    s: CycleState,
    ps: Seq<UtilV>,
    interval: u64,
    now: i64,
    uid: u32,
    kill_on_no_match: bool,
) -> CycleState
    decreases ps.len(),
{
    if ps.len() == 0 {
        s
    } else {
        spec_cycle_step(
            spec_cycle_fold(s, ps.drop_last(), interval, now, uid, kill_on_no_match),
            ps.last(),
            interval,
            now,
            uid,
            kill_on_no_match,
        )
    }
}

/// The kill order issued for one process of a consumed rule.
pub open spec fn spec_consumed_cmd(uid: u32, pid: u32) -> KillCommand {
    KillCommand { uid, pid, reason: KillReason::RuleConsumed }
}

/// Kill orders for every process id of the sequence, in order.
pub open spec fn spec_consumed_cmds(uid: u32, pids: Seq<u32>) -> Seq<KillCommand> {
    pids.map_values(|pid: u32| spec_consumed_cmd(uid, pid))
}

/// The kill orders of the consumption check: for every consumed rule
/// tracker, in order, every process id attributed to it this cycle.
pub open spec fn spec_consumed_kills(ts: Seq<RTrackV>, uid: u32) -> Seq<KillCommand>
    decreases ts.len(),
{
    if ts.len() == 0 {
        Seq::empty()
    } else {
        let rest = spec_consumed_kills(ts.drop_last(), uid);
        if spec_consumed(ts.last()) {
            rest + spec_consumed_cmds(uid, ts.last().tracked_pids)
        } else {
            rest
        }
    }
}

/// What one accounting cycle leaves behind for one user.
#[verifier::ext_equal]
pub struct CycleOut {
    pub user: UserV,
    pub backup: BackupV,
    pub kills: Seq<KillCommand>,
}

/// One whole accounting cycle for one user, over an already-filtered
/// snapshot: clear every tracker's attributed set, attribute and account
/// each observation in order, then order a kill for every process attributed
/// to a rule whose time budget is exhausted.
pub open spec fn spec_user_cycle(
    u: UserV,
    b: BackupV,
    ps: Seq<UtilV>,
    interval: u64,
    now: i64,
    kill_on_no_match: bool,
) -> CycleOut {
    let s0 = CycleState {
        process_trackers: u.process_trackers,
        rule_trackers: spec_clear_tracked(u.rule_trackers),
        backup: b,
        kills: Seq::empty(),
    };
    let s1 = spec_cycle_fold(s0, ps, interval, now, u.uid, kill_on_no_match);
    CycleOut {
        user: UserV {
            luminar: u.luminar,
            uid: u.uid,
            name: u.name,
            process_trackers: s1.process_trackers,
            rule_trackers: s1.rule_trackers,
        },
        backup: s1.backup,
        kills: s1.kills + spec_consumed_kills(s1.rule_trackers, u.uid),
    }
}

/// Law: attribution picks the single highest-priority matching rule.  When
/// no rule matches, none is picked; when one is picked, its rule matches,
/// no matching rule has a higher priority, and every earlier matching rule
/// has a strictly lower priority (on equal priority the earliest tracker
/// wins).
pub proof fn lemma_best_match_char(ts: Seq<RTrackV>, p: UtilV)
    ensures
        match spec_best_match(ts, p) {
            None => forall|j: int| 0 <= j < ts.len() ==> !(#[trigger] ts[j].rule.spec_match(p)),
            Some(i) => {
                &&& 0 <= i < ts.len()
                &&& ts[i].rule.spec_match(p)
                &&& forall|j: int|
                    0 <= j < ts.len() && #[trigger] ts[j].rule.spec_match(p) ==> ts[j].rule.priority
                        <= ts[i].rule.priority
                &&& forall|j: int|
                    0 <= j < i && #[trigger] ts[j].rule.spec_match(p) ==> ts[j].rule.priority
                        < ts[i].rule.priority
            },
        },
    decreases ts.len(),
{
    if ts.len() > 0 {
        lemma_best_match_char(ts.drop_last(), p);
        assert(forall|j: int| 0 <= j < ts.len() - 1 ==> ts.drop_last()[j] == ts[j]);
    }
}

/// The first process tracker of a process id is in range, carries that id,
/// and no earlier tracker carries it; when none is found, no tracker
/// carries it.
pub proof fn lemma_find_pt_char(ts: Seq<PTackV>, pid: u32)
    ensures
        match spec_find_pt(ts, pid) {
            None => forall|j: int| 0 <= j < ts.len() ==> (#[trigger] ts[j].pid) != pid,
            Some(i) => {
                &&& 0 <= i < ts.len()
                &&& ts[i].pid == pid
                &&& forall|j: int| 0 <= j < i ==> (#[trigger] ts[j].pid) != pid
            },
        },
    decreases ts.len(),
{
    if ts.len() > 0 {
        lemma_find_pt_char(ts.drop_last(), pid);
        assert(forall|j: int| 0 <= j < ts.len() - 1 ==> ts.drop_last()[j] == ts[j]);
    }
}

/// The index of the highest-priority rule tracker whose rule matches the
/// process (earliest on ties), or `None` when no rule matches.
pub fn best_match_index(trackers: &Vec<LuminarRuleTracker>, p: &LuminarProcessUtil) -> (r: Option<
    usize,
>)
    ensures
        match r {
            Some(i) => spec_best_match(rtracks_view(trackers@), p@) == Some(i as int),
            None => spec_best_match(rtracks_view(trackers@), p@) is None,
        },
{
    let ghost tv = rtracks_view(trackers@);
    let mut best: Option<usize> = None;
    let mut i: usize = 0;
    while i < trackers.len()
        invariant
            i <= trackers@.len(),
            tv == rtracks_view(trackers@),
            tv.len() == trackers@.len(),
            match best {
                Some(j) => j < i && spec_best_match(tv.take(i as int), p@) == Some(j as int),
                None => spec_best_match(tv.take(i as int), p@) is None,
            },
        decreases trackers@.len() - i,
    {
        proof {
            assert(tv.take(i + 1).drop_last() =~= tv.take(i as int));
            assert(tv.take(i + 1).last() == tv[i as int]);
        }
        if trackers[i].rule.match_process(p) {
            match best {
                None => {
                    best = Some(i);
                },
                Some(j) => {
                    if trackers[i].rule.priority > trackers[j].rule.priority {
                        best = Some(i);
                    }
                },
            }
        }
        i = i + 1;
    }
    proof {
        assert(tv.take(trackers@.len() as int) =~= tv);
    }
    best
}

/// The index of the first process tracker of the given process id, if any.
pub fn find_pt_index(trackers: &Vec<LuminarProcessTacker>, pid: u32) -> (r: Option<usize>)
    ensures
        match r {
            Some(i) => spec_find_pt(ptracks_view(trackers@), pid) == Some(i as int),
            None => spec_find_pt(ptracks_view(trackers@), pid) is None,
        },
{
    let ghost tv = ptracks_view(trackers@);
    let mut r: Option<usize> = None;
    let mut i: usize = 0;
    while i < trackers.len()
        invariant
            i <= trackers@.len(),
            tv == ptracks_view(trackers@),
            tv.len() == trackers@.len(),
            match r {
                Some(j) => j < i && spec_find_pt(tv.take(i as int), pid) == Some(j as int),
                None => spec_find_pt(tv.take(i as int), pid) is None,
            },
        decreases trackers@.len() - i,
    {
        proof {
            assert(tv.take(i + 1).drop_last() =~= tv.take(i as int));
            assert(tv.take(i + 1).last() == tv[i as int]);
        }
        if r.is_none() && trackers[i].pid == pid {
            r = Some(i);
        }
        i = i + 1;
    }
    proof {
        assert(tv.take(trackers@.len() as int) =~= tv);
    }
    r
}

impl LuminarProcessTacker {
    /// One more observation of a process already tracked: record the latest
    /// utility, refresh the running time, and add the cycle's deltas.
    pub fn update_observation(
        &mut self,
        p: LuminarProcessUtil,
        d_cpu: u128,
        d_cmem: u128,
        d_gpu: u128,
        d_gmem: u128,
        now: i64,
    )
        ensures
            final(self).pid == old(self).pid,
            final(self).utility == p,
            final(self).start_time == old(self).start_time,
            final(self).running_time as int == sub_floor_zero(
                now as int,
                old(self).start_time as int,
            ),
            final(self).cpu_core_time as int == sat_add(old(self).cpu_core_time as int, d_cpu as int),
            final(self).cpu_memory_time as int == sat_add(
                old(self).cpu_memory_time as int,
                d_cmem as int,
            ),
            final(self).gpu_device_time as int == sat_add(
                old(self).gpu_device_time as int,
                d_gpu as int,
            ),
            final(self).gpu_memory_time as int == sat_add(
                old(self).gpu_memory_time as int,
                d_gmem as int,
            ),
    {
        self.utility = p;
        self.running_time = elapsed_since(now, self.start_time);
        self.cpu_core_time = sat_add_u128(self.cpu_core_time, d_cpu);
        self.cpu_memory_time = sat_add_u128(self.cpu_memory_time, d_cmem);
        self.gpu_device_time = sat_add_u128(self.gpu_device_time, d_gpu);
        self.gpu_memory_time = sat_add_u128(self.gpu_memory_time, d_gmem);
    }
}

impl LuminarRuleTracker {
    /// Attribute one process observation to this rule for the current cycle:
    /// add the cycle's four deltas and record the process id.
    pub fn add_usage(&mut self, pid: u32, d_cpu: u128, d_cmem: u128, d_gpu: u128, d_gmem: u128)
        ensures
            final(self).name == old(self).name,
            final(self).rule == old(self).rule,
            final(self).cpu_core_time as int == sat_add(old(self).cpu_core_time as int, d_cpu as int),
            final(self).cpu_memory_time as int == sat_add(
                old(self).cpu_memory_time as int,
                d_cmem as int,
            ),
            final(self).gpu_device_time as int == sat_add(
                old(self).gpu_device_time as int,
                d_gpu as int,
            ),
            final(self).gpu_memory_time as int == sat_add(
                old(self).gpu_memory_time as int,
                d_gmem as int,
            ),
            final(self).tracked_pids@ == old(self).tracked_pids@.push(pid),
    {
        self.cpu_core_time = sat_add_u128(self.cpu_core_time, d_cpu);
        self.cpu_memory_time = sat_add_u128(self.cpu_memory_time, d_cmem);
        self.gpu_device_time = sat_add_u128(self.gpu_device_time, d_gpu);
        self.gpu_memory_time = sat_add_u128(self.gpu_memory_time, d_gmem);
        self.tracked_pids.push(pid);
    }

    /// Forget the last cycle's attributed set, so that attributions of
    /// processes that exited do not persist.
    pub fn clear_tracked(&mut self)
        ensures
            final(self)@ == rt_cleared(old(self)@),
    {
        self.tracked_pids.clear();
    }
}

impl LuminarUser {
    /// One whole accounting cycle for this user, over an already-filtered
    /// snapshot of the user's processes: clear every rule tracker's
    /// attributed set, attribute each observation in order to the
    /// highest-priority matching rule (accumulating the cycle's deltas in
    /// the process tracker, the rule tracker and the backup), and return the
    /// kill orders: one per unmatched process when the deployment kills on
    /// no match, then one per process attributed to a consumed rule.
    pub fn apply_cycle(
        &mut self,
        backup: &mut LuminarUserTrackerBackup,
        processes: Vec<LuminarProcessUtil>,
        refresh_interval: u64,
        now: i64,
        kill_on_no_match: bool,
    ) -> (kills: Vec<KillCommand>)
        ensures
            ({
                let out = spec_user_cycle(
                    old(self)@,
                    old(backup)@,
                    utils_view(processes@),
                    refresh_interval,
                    now,
                    kill_on_no_match,
                );
                &&& final(self)@ == out.user
                &&& final(backup)@ == out.backup
                &&& kills@ == out.kills
            }),
    {
        let ghost psv = utils_view(processes@);
        // Clear every rule tracker's attributed set.
        let mut ci: usize = 0;
        while ci < self.rule_trackers.len()
            invariant
                ci <= self.rule_trackers@.len(),
                self.rule_trackers@.len() == old(self).rule_trackers@.len(),
                forall|t: int|
                    0 <= t < ci ==> #[trigger] self.rule_trackers@[t]@ == rt_cleared(
                        old(self).rule_trackers@[t]@,
                    ),
                forall|t: int|
                    ci <= t < self.rule_trackers@.len() ==> #[trigger] self.rule_trackers@[t]
                        == old(self).rule_trackers@[t],
                self.process_trackers == old(self).process_trackers,
                self.luminar == old(self).luminar,
                self.uid == old(self).uid,
                self.name == old(self).name,
            decreases self.rule_trackers@.len() - ci,
        {
            self.rule_trackers[ci].clear_tracked();
            ci = ci + 1;
        }
        let ghost s0 = CycleState {
            process_trackers: old(self)@.process_trackers,
            rule_trackers: spec_clear_tracked(old(self)@.rule_trackers),
            backup: old(backup)@,
            kills: Seq::empty(),
        };
        proof {
            assert(rtracks_view(self.rule_trackers@) =~= s0.rule_trackers);
        }
        // Attribute and account each observation, in order.
        let mut ps = processes;
        let ghost orig = ps@;
        let mut kills: Vec<KillCommand> = Vec::new();
        while ps.len() > 0
            invariant
                ps@.len() <= orig.len(),
                ps@ == orig.skip(orig.len() - ps@.len()),
                psv == utils_view(orig),
                psv.len() == orig.len(),
                self.luminar == old(self).luminar,
                self.uid == old(self).uid,
                self.name == old(self).name,
                ptracks_view(self.process_trackers@) == spec_cycle_fold(
                    s0,
                    psv.take(orig.len() - ps@.len()),
                    refresh_interval,
                    now,
                    old(self).uid,
                    kill_on_no_match,
                ).process_trackers,
                rtracks_view(self.rule_trackers@) == spec_cycle_fold(
                    s0,
                    psv.take(orig.len() - ps@.len()),
                    refresh_interval,
                    now,
                    old(self).uid,
                    kill_on_no_match,
                ).rule_trackers,
                backup@ == spec_cycle_fold(
                    s0,
                    psv.take(orig.len() - ps@.len()),
                    refresh_interval,
                    now,
                    old(self).uid,
                    kill_on_no_match,
                ).backup,
                kills@ == spec_cycle_fold(
                    s0,
                    psv.take(orig.len() - ps@.len()),
                    refresh_interval,
                    now,
                    old(self).uid,
                    kill_on_no_match,
                ).kills,
            decreases ps@.len(),
        {
            let ghost k = orig.len() - ps@.len();
            let ghost pre = spec_cycle_fold(
                s0,
                psv.take(k as int),
                refresh_interval,
                now,
                old(self).uid,
                kill_on_no_match,
            );
            let p = ps.remove(0);
            proof {
                assert(orig.skip(k as int)[0] == orig[k as int]);
                assert(orig.skip(k as int).remove(0) =~= orig.skip(k as int + 1));
                assert(p@ == psv[k as int]);
                assert(psv.take(k as int + 1).drop_last() =~= psv.take(k as int));
                assert(psv.take(k as int + 1).last() == psv[k as int]);
            }
            let best = best_match_index(&self.rule_trackers, &p);
            match best {
                None => {
                    if kill_on_no_match {
                        kills.push(
                            KillCommand {
                                uid: self.uid,
                                pid: p.pid,
                                reason: KillReason::OutOfRules,
                            },
                        );
                    }
                },
                Some(i) => {
                    proof {
                        lemma_best_match_char(pre.rule_trackers, psv[k as int]);
                    }
                    let d_cpu = widening_mul(p.cpu_usage, refresh_interval);
                    let d_cmem = widening_mul(p.cpu_memory, refresh_interval);
                    let d_gpu = widening_mul(p.gpu_usage, refresh_interval);
                    let d_gmem = widening_mul(p.gpu_memory, refresh_interval);
                    self.rule_trackers[i].add_usage(p.pid, d_cpu, d_cmem, d_gpu, d_gmem);
                    backup.add_usage(d_cpu, d_cmem, d_gpu, d_gmem);
                    proof {
                        assert(rtracks_view(self.rule_trackers@) =~= pre.rule_trackers.update(
                            i as int,
                            rt_add(pre.rule_trackers[i as int], psv[k as int], refresh_interval),
                        ));
                        assert(backup@ == backup_add(pre.backup, psv[k as int], refresh_interval));
                    }
                    let pid = p.pid;
                    let fo = find_pt_index(&self.process_trackers, pid);
                    match fo {
                        Some(t) => {
                            proof {
                                lemma_find_pt_char(pre.process_trackers, pid);
                            }
                            self.process_trackers[t].update_observation(
                                p,
                                d_cpu,
                                d_cmem,
                                d_gpu,
                                d_gmem,
                                now,
                            );
                            proof {
                                assert(ptracks_view(self.process_trackers@)
                                    =~= pre.process_trackers.update(
                                    t as int,
                                    pt_update(
                                        pre.process_trackers[t as int],
                                        psv[k as int],
                                        refresh_interval,
                                        now,
                                    ),
                                ));
                            }
                        },
                        None => {
                            self.process_trackers.push(
                                LuminarProcessTacker {
                                    pid,
                                    utility: p,
                                    start_time: now,
                                    running_time: 0,
                                    cpu_core_time: d_cpu,
                                    cpu_memory_time: d_cmem,
                                    gpu_device_time: d_gpu,
                                    gpu_memory_time: d_gmem,
                                },
                            );
                            proof {
                                assert(ptracks_view(self.process_trackers@)
                                    =~= pre.process_trackers.push(
                                    pt_new(psv[k as int], refresh_interval, now),
                                ));
                            }
                        },
                    }
                },
            }
        }
        proof {
            assert(psv.take(orig.len() as int) =~= psv);
        }
        // Order kills for every process attributed to a consumed rule.
        let ghost s1 = spec_cycle_fold(
            s0,
            psv,
            refresh_interval,
            now,
            old(self).uid,
            kill_on_no_match,
        );
        let ghost base = kills@;
        let ghost rtv = rtracks_view(self.rule_trackers@);
        let ghost pts_exec = self.process_trackers@;
        let ghost rts_exec = self.rule_trackers@;
        let mut ti: usize = 0;
        while ti < self.rule_trackers.len()
            invariant
                ti <= self.rule_trackers@.len(),
                self.process_trackers@ == pts_exec,
                self.rule_trackers@ == rts_exec,
                self.luminar == old(self).luminar,
                self.uid == old(self).uid,
                self.name == old(self).name,
                rtv == rtracks_view(rts_exec),
                rtv.len() == rts_exec.len(),
                kills@ == base + spec_consumed_kills(rtv.take(ti as int), old(self).uid),
            decreases self.rule_trackers@.len() - ti,
        {
            proof {
                assert(rtv.take(ti + 1).drop_last() =~= rtv.take(ti as int));
                assert(rtv.take(ti + 1).last() == rtv[ti as int]);
            }
            if self.rule_trackers[ti].is_consumed() {
                let ghost inner_base = kills@;
                let n = self.rule_trackers[ti].tracked_pids.len();
                let mut pj: usize = 0;
                while pj < n
                    invariant
                        ti < rts_exec.len(),
                        pj <= n,
                        self.process_trackers@ == pts_exec,
                        self.rule_trackers@ == rts_exec,
                        self.luminar == old(self).luminar,
                        self.uid == old(self).uid,
                        self.name == old(self).name,
                        rtv == rtracks_view(rts_exec),
                        rtv.len() == rts_exec.len(),
                        n == rtv[ti as int].tracked_pids.len(),
                        kills@ == inner_base + spec_consumed_cmds(
                            old(self).uid,
                            rtv[ti as int].tracked_pids.take(pj as int),
                        ),
                    decreases n - pj,
                {
                    let pid = self.rule_trackers[ti].tracked_pids[pj];
                    let ghost kbefore = kills@;
                    kills.push(
                        KillCommand { uid: self.uid, pid, reason: KillReason::RuleConsumed },
                    );
                    proof {
                        assert(kills@ == kbefore.push(spec_consumed_cmd(old(self).uid, pid)));
                        assert(spec_consumed_cmds(
                            old(self).uid,
                            rtv[ti as int].tracked_pids.take(pj + 1),
                        ) =~= spec_consumed_cmds(
                            old(self).uid,
                            rtv[ti as int].tracked_pids.take(pj as int),
                        ).push(spec_consumed_cmd(old(self).uid, pid)));
                        assert(kills@ =~= inner_base + spec_consumed_cmds(
                            old(self).uid,
                            rtv[ti as int].tracked_pids.take(pj + 1),
                        ));
                    }
                    pj = pj + 1;
                }
                proof {
                    assert(rtv[ti as int].tracked_pids.take(n as int)
                        =~= rtv[ti as int].tracked_pids);
                    assert(kills@ =~= base + spec_consumed_kills(rtv.take(ti + 1), old(self).uid));
                }
            } else {
                proof {
                    assert(kills@ =~= base + spec_consumed_kills(rtv.take(ti + 1), old(self).uid));
                }
            }
            ti = ti + 1;
        }
        proof {
            assert(rtv.take(rts_exec.len() as int) =~= rtv);
            let out = spec_user_cycle(
                old(self)@,
                old(backup)@,
                psv,
                refresh_interval,
                now,
                kill_on_no_match,
            );
            assert(self@ == out.user);
            assert(kills@ == out.kills);
        }
        kills
    }
}

/// The four accumulators of a rule tracker lie in the range of a `u128`
/// (true of the model of every executable tracker).
pub open spec fn rt_in_range(t: RTrackV) -> bool {
    &&& 0 <= t.cpu_core_time <= u128::MAX
    &&& 0 <= t.cpu_memory_time <= u128::MAX
    &&& 0 <= t.gpu_device_time <= u128::MAX
    &&& 0 <= t.gpu_memory_time <= u128::MAX
}

/// The four accumulators of a process tracker lie in the range of a `u128`.
pub open spec fn pt_in_range(t: PTackV) -> bool {
    &&& 0 <= t.cpu_core_time <= u128::MAX
    &&& 0 <= t.cpu_memory_time <= u128::MAX
    &&& 0 <= t.gpu_device_time <= u128::MAX
    &&& 0 <= t.gpu_memory_time <= u128::MAX
}

/// The four accumulators of a backup lie in the range of a `u128`.
pub open spec fn backup_in_range(b: BackupV) -> bool {
    &&& 0 <= b.cpu_core_time <= u128::MAX
    &&& 0 <= b.cpu_memory_time <= u128::MAX
    &&& 0 <= b.gpu_device_time <= u128::MAX
    &&& 0 <= b.gpu_memory_time <= u128::MAX
}

/// No accumulator of the rule tracker decreased.
pub open spec fn rt_monotone(pre: RTrackV, post: RTrackV) -> bool {
    &&& post.cpu_core_time >= pre.cpu_core_time
    &&& post.cpu_memory_time >= pre.cpu_memory_time
    &&& post.gpu_device_time >= pre.gpu_device_time
    &&& post.gpu_memory_time >= pre.gpu_memory_time
}

/// No accumulator of the process tracker decreased.
pub open spec fn pt_monotone(pre: PTackV, post: PTackV) -> bool {
    &&& post.pid == pre.pid
    &&& post.cpu_core_time >= pre.cpu_core_time
    &&& post.cpu_memory_time >= pre.cpu_memory_time
    &&& post.gpu_device_time >= pre.gpu_device_time
    &&& post.gpu_memory_time >= pre.gpu_memory_time
}

/// No accumulator of the backup decreased.
pub open spec fn backup_monotone(pre: BackupV, post: BackupV) -> bool {
    &&& post.cpu_core_time >= pre.cpu_core_time
    &&& post.cpu_memory_time >= pre.cpu_memory_time
    &&& post.gpu_device_time >= pre.gpu_device_time
    &&& post.gpu_memory_time >= pre.gpu_memory_time
}

/// Every accumulator of the cycle state lies in the range of a `u128`.
pub open spec fn state_in_range(s: CycleState) -> bool {
    &&& forall|i: int|
        0 <= i < s.rule_trackers.len() ==> rt_in_range(#[trigger] s.rule_trackers[i])
    &&& forall|i: int|
        0 <= i < s.process_trackers.len() ==> pt_in_range(#[trigger] s.process_trackers[i])
    &&& backup_in_range(s.backup)
}

/// No accumulator of the cycle state decreased, and no tracker disappeared.
pub open spec fn state_monotone(pre: CycleState, post: CycleState) -> bool {
    &&& post.rule_trackers.len() == pre.rule_trackers.len()
    &&& forall|i: int|
        0 <= i < pre.rule_trackers.len() ==> rt_monotone(
            #[trigger] pre.rule_trackers[i],
            post.rule_trackers[i],
        )
    &&& post.process_trackers.len() >= pre.process_trackers.len()
    &&& forall|i: int|
        0 <= i < pre.process_trackers.len() ==> pt_monotone(
            #[trigger] pre.process_trackers[i],
            post.process_trackers[i],
        )
    &&& backup_monotone(pre.backup, post.backup)
}

/// One cycle's deltas are non-negative and fit in a `u128`.
proof fn lemma_deltas_in_range(p: UtilV, interval: u64)
    ensures
        0 <= delta_cpu_core(p, interval) <= u128::MAX,
        0 <= delta_cpu_memory(p, interval) <= u128::MAX,
        0 <= delta_gpu_device(p, interval) <= u128::MAX,
        0 <= delta_gpu_memory(p, interval) <= u128::MAX,
{
    assert(0 <= p.cpu_usage * interval <= u128::MAX && 0 <= p.cpu_memory * interval <= u128::MAX
        && 0 <= p.gpu_usage * interval <= u128::MAX && 0 <= p.gpu_memory * interval <= u128::MAX)
        by (nonlinear_arith)
        requires
            0 <= p.cpu_usage <= u64::MAX,
            0 <= p.cpu_memory <= u64::MAX,
            0 <= p.gpu_usage <= u64::MAX,
            0 <= p.gpu_memory <= u64::MAX,
            0 <= interval <= u64::MAX,
    ;
}

/// One step of the cycle keeps every accumulator in range and never
/// decreases one.
proof fn lemma_cycle_step_monotone(
    s: CycleState,
    p: UtilV,
    interval: u64,
    now: i64,
    uid: u32,
    kill_on_no_match: bool,
)
    requires
        state_in_range(s),
    ensures
        ({
            let post = spec_cycle_step(s, p, interval, now, uid, kill_on_no_match);
            state_in_range(post) && state_monotone(s, post)
        }),
{
    lemma_deltas_in_range(p, interval);
    match spec_best_match(s.rule_trackers, p) {
        Some(i) => {
            lemma_best_match_char(s.rule_trackers, p);
            match spec_find_pt(s.process_trackers, p.pid) {
                Some(t) => {
                    lemma_find_pt_char(s.process_trackers, p.pid);
                },
                None => {
                },
            }
        },
        None => {
        },
    }
}

/// A whole cycle's fold keeps every accumulator in range and never
/// decreases one.
proof fn lemma_cycle_fold_monotone(
    s: CycleState,
    ps: Seq<UtilV>,
    interval: u64,
    now: i64,
    uid: u32,
    kill_on_no_match: bool,
)
    requires
        state_in_range(s),
    ensures
        ({
            let post = spec_cycle_fold(s, ps, interval, now, uid, kill_on_no_match);
            state_in_range(post) && state_monotone(s, post)
        }),
    decreases ps.len(),
{
    if ps.len() > 0 {
        lemma_cycle_fold_monotone(s, ps.drop_last(), interval, now, uid, kill_on_no_match);
        let mid = spec_cycle_fold(s, ps.drop_last(), interval, now, uid, kill_on_no_match);
        lemma_cycle_step_monotone(mid, ps.last(), interval, now, uid, kill_on_no_match);
        let post = spec_cycle_fold(s, ps, interval, now, uid, kill_on_no_match);
        assert forall|i: int| 0 <= i < s.rule_trackers.len() implies rt_monotone(
            #[trigger] s.rule_trackers[i],
            post.rule_trackers[i],
        ) by {
            assert(rt_monotone(s.rule_trackers[i], mid.rule_trackers[i]));
            assert(rt_monotone(mid.rule_trackers[i], post.rule_trackers[i]));
        }
        assert forall|i: int| 0 <= i < s.process_trackers.len() implies pt_monotone(
            #[trigger] s.process_trackers[i],
            post.process_trackers[i],
        ) by {
            assert(pt_monotone(s.process_trackers[i], mid.process_trackers[i]));
            assert(pt_monotone(mid.process_trackers[i], post.process_trackers[i]));
        }
    }
}

/// Law: cumulative accounting is monotone.  Across one accounting cycle no
/// cumulative time or memory-time field of any rule tracker, process tracker
/// or backup decreases, and no tracker disappears.
pub proof fn lemma_cycle_monotonic(
    u: UserV,
    b: BackupV,
    ps: Seq<UtilV>,
    interval: u64,
    now: i64,
    kill_on_no_match: bool,
)
    requires
        forall|i: int| 0 <= i < u.rule_trackers.len() ==> rt_in_range(#[trigger] u.rule_trackers[i]),
        forall|i: int|
            0 <= i < u.process_trackers.len() ==> pt_in_range(#[trigger] u.process_trackers[i]),
        backup_in_range(b),
    ensures
        ({
            let out = spec_user_cycle(u, b, ps, interval, now, kill_on_no_match);
            &&& out.user.rule_trackers.len() == u.rule_trackers.len()
            &&& forall|i: int|
                0 <= i < u.rule_trackers.len() ==> rt_monotone(
                    #[trigger] u.rule_trackers[i],
                    out.user.rule_trackers[i],
                )
            &&& out.user.process_trackers.len() >= u.process_trackers.len()
            &&& forall|i: int|
                0 <= i < u.process_trackers.len() ==> pt_monotone(
                    #[trigger] u.process_trackers[i],
                    out.user.process_trackers[i],
                )
            &&& backup_monotone(b, out.backup)
            &&& forall|i: int|
                0 <= i < out.user.rule_trackers.len() ==> rt_in_range(
                    #[trigger] out.user.rule_trackers[i],
                )
            &&& forall|i: int|
                0 <= i < out.user.process_trackers.len() ==> pt_in_range(
                    #[trigger] out.user.process_trackers[i],
                )
            &&& backup_in_range(out.backup)
        }),
{
    let s0 = CycleState {
        process_trackers: u.process_trackers,
        rule_trackers: spec_clear_tracked(u.rule_trackers),
        backup: b,
        kills: Seq::empty(),
    };
    assert forall|i: int| 0 <= i < s0.rule_trackers.len() implies rt_in_range(
        #[trigger] s0.rule_trackers[i],
    ) by {
        assert(s0.rule_trackers[i] == rt_cleared(u.rule_trackers[i]));
    }
    lemma_cycle_fold_monotone(s0, ps, interval, now, u.uid, kill_on_no_match);
    let post = spec_cycle_fold(s0, ps, interval, now, u.uid, kill_on_no_match);
    assert forall|i: int| 0 <= i < u.rule_trackers.len() implies rt_monotone(
        #[trigger] u.rule_trackers[i],
        post.rule_trackers[i],
    ) by {
        assert(s0.rule_trackers[i] == rt_cleared(u.rule_trackers[i]));
        assert(rt_monotone(s0.rule_trackers[i], post.rule_trackers[i]));
    }
}

/// A cycle accumulates into the backup but never changes whose backup it is.
pub proof fn lemma_cycle_backup_identity(
    s: CycleState,
    ps: Seq<UtilV>,
    interval: u64,
    now: i64,
    uid: u32,
    kill_on_no_match: bool,
)
    ensures
        spec_cycle_fold(s, ps, interval, now, uid, kill_on_no_match).backup.uid == s.backup.uid,
        spec_cycle_fold(s, ps, interval, now, uid, kill_on_no_match).backup.name == s.backup.name,
    decreases ps.len(),
{
    if ps.len() > 0 {
        lemma_cycle_backup_identity(s, ps.drop_last(), interval, now, uid, kill_on_no_match);
    }
}

/// Whether some observation of the sequence carries the process id.
pub open spec fn ps_has_pid(ps: Seq<UtilV>, pid: u32) -> bool {
    exists|k: int| 0 <= k < ps.len() && (#[trigger] ps[k].pid) == pid
}

/// No two observations of the sequence carry the same process id (snapshots
/// come from a per-process table, so ids never repeat within one user).
pub open spec fn unique_pids(ps: Seq<UtilV>) -> bool {
    forall|a: int, b: int|
        0 <= a < b < ps.len() ==> (#[trigger] ps[a].pid) != (#[trigger] ps[b].pid)
}

/// Whether any rule tracker's attributed set carries the process id.
pub open spec fn tracked_somewhere(ts: Seq<RTrackV>, pid: u32) -> bool {
    exists|i: int| 0 <= i < ts.len() && (#[trigger] ts[i].tracked_pids).contains(pid)
}

/// Each process id sits in the attributed set of at most one rule tracker.
pub open spec fn trackers_exclusive(ts: Seq<RTrackV>) -> bool {
    forall|i: int, j: int, pid: u32|
        0 <= i < ts.len() && 0 <= j < ts.len() && (#[trigger] ts[i].tracked_pids.contains(pid))
            && (#[trigger] ts[j].tracked_pids.contains(pid)) ==> i == j
}

/// A whole cycle's fold keeps attribution exclusive, provided the incoming
/// observations carry distinct process ids, none of which is attributed yet.
proof fn lemma_cycle_fold_exclusive(
    s: CycleState,
    ps: Seq<UtilV>,
    interval: u64,
    now: i64,
    uid: u32,
    kill_on_no_match: bool,
)
    requires
        unique_pids(ps),
        trackers_exclusive(s.rule_trackers),
        forall|pid: u32| #[trigger] tracked_somewhere(s.rule_trackers, pid) ==> !ps_has_pid(ps, pid),
    ensures
        ({
            let post = spec_cycle_fold(s, ps, interval, now, uid, kill_on_no_match);
            &&& trackers_exclusive(post.rule_trackers)
            &&& forall|pid: u32| #[trigger]
                tracked_somewhere(post.rule_trackers, pid) ==> tracked_somewhere(
                    s.rule_trackers,
                    pid,
                ) || ps_has_pid(ps, pid)
        }),
    decreases ps.len(),
{
    if ps.len() > 0 {
        let front = ps.drop_last();
        let p = ps.last();
        assert(forall|k: int| 0 <= k < front.len() ==> front[k] == ps[k]);
        assert forall|pid: u32| #[trigger]
            tracked_somewhere(s.rule_trackers, pid) implies !ps_has_pid(front, pid) by {
            assert(!ps_has_pid(ps, pid));
            if ps_has_pid(front, pid) {
                let k = choose|k: int| 0 <= k < front.len() && (#[trigger] front[k].pid) == pid;
                assert(ps[k].pid == pid);
            }
        }
        lemma_cycle_fold_exclusive(s, front, interval, now, uid, kill_on_no_match);
        let mid = spec_cycle_fold(s, front, interval, now, uid, kill_on_no_match);
        let post = spec_cycle_fold(s, ps, interval, now, uid, kill_on_no_match);
        // The last observation's id is fresh: not yet attributed anywhere.
        assert(!tracked_somewhere(mid.rule_trackers, p.pid)) by {
            if tracked_somewhere(mid.rule_trackers, p.pid) {
                if tracked_somewhere(s.rule_trackers, p.pid) {
                    assert(!ps_has_pid(ps, p.pid));
                    assert(ps[ps.len() - 1].pid == p.pid);
                } else {
                    assert(ps_has_pid(front, p.pid));
                    let k = choose|k: int|
                        0 <= k < front.len() && (#[trigger] front[k].pid) == p.pid;
                    assert(ps[k].pid == ps[ps.len() - 1].pid);
                }
            }
        }
        match spec_best_match(mid.rule_trackers, p) {
            Some(i) => {
                lemma_best_match_char(mid.rule_trackers, p);
                let updated = mid.rule_trackers.update(
                    i,
                    rt_add(mid.rule_trackers[i], p, interval),
                );
                assert(post.rule_trackers == updated);
                assert forall|a: int, b: int, pid: u32|
                    0 <= a < updated.len() && 0 <= b < updated.len() && (
                    #[trigger] updated[a].tracked_pids.contains(pid)) && (
                    #[trigger] updated[b].tracked_pids.contains(pid)) implies a == b by {
                    if pid == p.pid {
                        if a != i {
                            assert(updated[a].tracked_pids == mid.rule_trackers[a].tracked_pids);
                            assert(mid.rule_trackers[a].tracked_pids.contains(pid));
                            assert(tracked_somewhere(mid.rule_trackers, pid));
                        }
                        if b != i {
                            assert(updated[b].tracked_pids == mid.rule_trackers[b].tracked_pids);
                            assert(mid.rule_trackers[b].tracked_pids.contains(pid));
                            assert(tracked_somewhere(mid.rule_trackers, pid));
                        }
                    } else {
                        assert(mid.rule_trackers[a].tracked_pids.contains(pid)) by {
                            if a == i {
                                let pushed = mid.rule_trackers[i].tracked_pids.push(p.pid);
                                assert(updated[a].tracked_pids == pushed);
                                let k = choose|k: int|
                                    0 <= k < pushed.len() && pushed[k] == pid;
                                assert(mid.rule_trackers[i].tracked_pids[k] == pid);
                            }
                        }
                        assert(mid.rule_trackers[b].tracked_pids.contains(pid)) by {
                            if b == i {
                                let pushed = mid.rule_trackers[i].tracked_pids.push(p.pid);
                                assert(updated[b].tracked_pids == pushed);
                                let k = choose|k: int|
                                    0 <= k < pushed.len() && pushed[k] == pid;
                                assert(mid.rule_trackers[i].tracked_pids[k] == pid);
                            }
                        }
                    }
                }
                assert forall|pid: u32| #[trigger]
                    tracked_somewhere(post.rule_trackers, pid) implies tracked_somewhere(
                    s.rule_trackers,
                    pid,
                ) || ps_has_pid(ps, pid) by {
                    let j = choose|j: int|
                        0 <= j < updated.len() && (#[trigger] updated[j].tracked_pids).contains(
                            pid,
                        );
                    if j == i {
                        let pushed = mid.rule_trackers[i].tracked_pids.push(p.pid);
                        if pid == p.pid {
                            assert(ps[ps.len() - 1].pid == pid);
                            assert(ps_has_pid(ps, pid));
                        } else {
                            let k = choose|k: int| 0 <= k < pushed.len() && pushed[k] == pid;
                            assert(mid.rule_trackers[i].tracked_pids[k] == pid);
                            assert(mid.rule_trackers[i].tracked_pids.contains(pid));
                            assert(tracked_somewhere(mid.rule_trackers, pid));
                            if ps_has_pid(front, pid) {
                                let k2 = choose|k2: int|
                                    0 <= k2 < front.len() && (#[trigger] front[k2].pid) == pid;
                                assert(ps[k2].pid == pid);
                                assert(ps_has_pid(ps, pid));
                            }
                        }
                    } else {
                        assert(mid.rule_trackers[j].tracked_pids.contains(pid));
                        assert(tracked_somewhere(mid.rule_trackers, pid));
                        if ps_has_pid(front, pid) {
                            let k2 = choose|k2: int|
                                0 <= k2 < front.len() && (#[trigger] front[k2].pid) == pid;
                            assert(ps[k2].pid == pid);
                            assert(ps_has_pid(ps, pid));
                        }
                    }
                }
            },
            None => {
                assert(post.rule_trackers == mid.rule_trackers);
                assert forall|pid: u32| #[trigger]
                    tracked_somewhere(post.rule_trackers, pid) implies tracked_somewhere(
                    s.rule_trackers,
                    pid,
                ) || ps_has_pid(ps, pid) by {
                    if ps_has_pid(front, pid) {
                        let k2 = choose|k2: int|
                            0 <= k2 < front.len() && (#[trigger] front[k2].pid) == pid;
                        assert(ps[k2].pid == pid);
                        assert(ps_has_pid(ps, pid));
                    }
                }
            },
        }
    }
}

/// Law: attribution is exclusive.  When the observations of one cycle carry
/// distinct process ids, each process id ends up in the attributed set of at
/// most one rule tracker: the single highest-priority match.
pub proof fn lemma_attribution_exclusive(
    u: UserV,
    b: BackupV,
    ps: Seq<UtilV>,
    interval: u64,
    now: i64,
    kill_on_no_match: bool,
)
    requires
        unique_pids(ps),
    ensures
        trackers_exclusive(
            spec_user_cycle(u, b, ps, interval, now, kill_on_no_match).user.rule_trackers,
        ),
{
    let s0 = CycleState {
        process_trackers: u.process_trackers,
        rule_trackers: spec_clear_tracked(u.rule_trackers),
        backup: b,
        kills: Seq::empty(),
    };
    assert forall|pid: u32| #[trigger]
        tracked_somewhere(s0.rule_trackers, pid) implies !ps_has_pid(ps, pid) by {
        let i = choose|i: int|
            0 <= i < s0.rule_trackers.len() && (#[trigger] s0.rule_trackers[i].tracked_pids).contains(
                pid,
            );
        assert(s0.rule_trackers[i] == rt_cleared(u.rule_trackers[i]));
        assert(s0.rule_trackers[i].tracked_pids.len() == 0);
    }
    lemma_cycle_fold_exclusive(s0, ps, interval, now, u.uid, kill_on_no_match);
}

} // verus!
