//! The resource manager: one record per OS user account, the logging
//! system, the global filters, and the accounting cycle that drives
//! attribution, accumulation and kill decisions across all users.

use vstd::prelude::*;

use crate::cfg::InfoV;
use crate::cfg::LuminarRule;
use crate::cfg::LuminarRuleFilter;
use crate::cfg::LuminarUserInfo;
use crate::cfg::infos_view;
use crate::cfg::retained_by_all;
use crate::cfg::spec_retained;
use crate::tracker::LuminarRuleTracker;
use crate::tracker::PTackV;
use crate::tracker::RTrackV;
use crate::tracker::ptracks_view;
use crate::tracker::rtracks_view;
use crate::cycle::KillCommand;
use crate::cycle::backup_in_range;
use crate::cycle::backup_monotone;
use crate::cycle::lemma_cycle_monotonic;
use crate::cycle::pt_in_range;
use crate::cycle::pt_monotone;
use crate::cycle::rt_in_range;
use crate::cycle::rt_monotone;
use crate::cycle::spec_user_cycle;
use crate::logging::LuminarLoggingSystem;
use crate::logging::LoggingV;
use crate::logging::backups_view;
use crate::tracker::BackupV;
use crate::tracker::LuminarProcessUtil;
use crate::tracker::LuminarUser;
use crate::tracker::LuminarUserTrackerBackup;
use crate::tracker::UserV;
use crate::tracker::UtilV;
use crate::tracker::spec_reset;
use crate::tracker::utils_view;
use crate::units::MILLIS_PER_DAY;
use crate::units::MICRO_CORE_SECONDS_PER_MINUTE;
use crate::units::MB_MILLIS_PER_MINUTE;
use crate::units::sat_add_i64;
use crate::units::sat_add_time;
use crate::timesrc::end_of_today_ms;
use crate::timesrc::now_ms;

verus! {

/// One user's slice of a telemetry snapshot: the user id and the user's
/// currently running processes.
pub struct LuminarUserSnapshot {
    pub uid: u32,
    pub processes: Vec<LuminarProcessUtil>,
}

/// Mathematical model of one user's snapshot slice.
#[verifier::ext_equal]
pub struct SnapV {
    pub uid: u32,
    pub processes: Seq<UtilV>,
}

impl View for LuminarUserSnapshot {
    type V = SnapV;

    open spec fn view(&self) -> SnapV {
        SnapV { uid: self.uid, processes: utils_view(self.processes@) }
    }
}

/// The models of a sequence of snapshot slices.
pub open spec fn snaps_view(v: Seq<LuminarUserSnapshot>) -> Seq<SnapV> {
    v.map_values(|s: LuminarUserSnapshot| s@)
}

/// The models of a sequence of user records.
pub open spec fn users_view(v: Seq<LuminarUser>) -> Seq<UserV> {
    v.map_values(|u: LuminarUser| u@)
}

/// The observations that every configured filter retains, in order.
pub open spec fn spec_filtered(filters: Seq<LuminarRuleFilter>, ps: Seq<UtilV>) -> Seq<UtilV>
    decreases ps.len(),
{
    if ps.len() == 0 {
        Seq::empty()
    } else {
        let rest = spec_filtered(filters, ps.drop_last());
        if spec_retained(filters, ps.last()) {
            rest.push(ps.last())
        } else {
            rest
        }
    }
}

/// Every snapshot slice reduced to the observations the filters retain.
pub open spec fn spec_filter_snaps(
    filters: Seq<LuminarRuleFilter>,
    snaps: Seq<SnapV>,
) -> Seq<SnapV> {
    snaps.map_values(|s: SnapV| SnapV { uid: s.uid, processes: spec_filtered(filters, s.processes) })
}

/// The observations of one user that every configured filter retains.
pub fn filter_processes(
    filters: &Vec<LuminarRuleFilter>,
    processes: Vec<LuminarProcessUtil>,
) -> (r: Vec<LuminarProcessUtil>)
    ensures
        utils_view(r@) == spec_filtered(filters@, utils_view(processes@)),
{
    let ghost psv = utils_view(processes@);
    let mut ps = processes;
    let ghost orig = ps@;
    let mut out: Vec<LuminarProcessUtil> = Vec::new();
    while ps.len() > 0
        invariant
            ps@.len() <= orig.len(),
            ps@ == orig.skip(orig.len() - ps@.len()),
            psv == utils_view(orig),
            psv.len() == orig.len(),
            utils_view(out@) == spec_filtered(filters@, psv.take(orig.len() - ps@.len())),
        decreases ps@.len(),
    {
        let ghost k = orig.len() - ps@.len();
        let p = ps.remove(0);
        proof {
            assert(orig.skip(k as int)[0] == orig[k as int]);
            assert(orig.skip(k as int).remove(0) =~= orig.skip(k as int + 1));
            assert(p@ == psv[k as int]);
            assert(psv.take(k as int + 1).drop_last() =~= psv.take(k as int));
            assert(psv.take(k as int + 1).last() == psv[k as int]);
        }
        if retained_by_all(filters, &p) {
            out.push(p);
            proof {
                assert(utils_view(out@) =~= spec_filtered(filters@, psv.take(k as int + 1)));
            }
        } else {
            proof {
                assert(utils_view(out@) =~= spec_filtered(filters@, psv.take(k as int + 1)));
            }
        }
    }
    proof {
        assert(psv.take(orig.len() as int) =~= psv);
    }
    out
}

/// The first user record of the given user id, if any.
pub open spec fn spec_find_uid(users: Seq<UserV>, uid: u32) -> Option<int>
    decreases users.len(),
{
    if users.len() == 0 {
        None
    } else {
        match spec_find_uid(users.drop_last(), uid) {
            Some(i) => Some(i),
            None => if users.last().uid == uid {
                Some(users.len() - 1 as int)
            } else {
                None
            },
        }
    }
}

/// The first user record of a user id is in range and carries that id; when
/// none is found, no record carries it.
pub proof fn lemma_find_uid_char(users: Seq<UserV>, uid: u32)
    ensures
        match spec_find_uid(users, uid) {
            None => forall|j: int| 0 <= j < users.len() ==> (#[trigger] users[j].uid) != uid,
            Some(i) => 0 <= i < users.len() && users[i].uid == uid,
        },
    decreases users.len(),
{
    if users.len() > 0 {
        lemma_find_uid_char(users.drop_last(), uid);
        assert(forall|j: int| 0 <= j < users.len() - 1 ==> users.drop_last()[j] == users[j]);
    }
}

/// The index of the first user record of the given user id, if any.
pub fn find_user_index(users: &Vec<LuminarUser>, uid: u32) -> (r: Option<usize>)
    ensures
        match r {
            Some(i) => spec_find_uid(users_view(users@), uid) == Some(i as int),
            None => spec_find_uid(users_view(users@), uid) is None,
        },
{
    let ghost uv = users_view(users@);
    let mut r: Option<usize> = None;
    let mut i: usize = 0;
    while i < users.len()
        invariant
            i <= users@.len(),
            uv == users_view(users@),
            uv.len() == users@.len(),
            match r {
                Some(j) => j < i && spec_find_uid(uv.take(i as int), uid) == Some(j as int),
                None => spec_find_uid(uv.take(i as int), uid) is None,
            },
        decreases users@.len() - i,
    {
        proof {
            assert(uv.take(i + 1).drop_last() =~= uv.take(i as int));
            assert(uv.take(i + 1).last() == uv[i as int]);
        }
        if r.is_none() && users[i].uid == uid {
            r = Some(i);
        }
        i = i + 1;
    }
    proof {
        assert(uv.take(users@.len() as int) =~= uv);
    }
    r
}

/// Orchestrates the accounting: owns every user record, the logging system
/// and the global filters, and runs one cycle at a time against the
/// telemetry snapshots handed in.
pub struct LuminarResManager {
    /// Accounting interval in milliseconds (the time the deltas of one
    /// cycle integrate over).
    pub refresh_interval: u64,
    /// One record per OS user account.
    pub user_process_tracker: Vec<LuminarUser>,
    /// The rotating daily usage ledger.
    pub logging_system: LuminarLoggingSystem,
    /// Filters that exempt trivial processes from management.
    pub rule_filters: Vec<LuminarRuleFilter>,
    /// Whether a process that no rule matches is ordered killed as out of
    /// bounds, or left untouched; deployments differ, so it is a toggle.
    pub kill_on_no_match: bool,
}

/// Mathematical model of the resource manager.
#[verifier::ext_equal]
pub struct ManagerV {
    pub refresh_interval: u64,
    pub users: Seq<UserV>,
    pub logging: LoggingV,
    pub rule_filters: Seq<LuminarRuleFilter>,
    pub kill_on_no_match: bool,
}

impl View for LuminarResManager {
    type V = ManagerV;

    open spec fn view(&self) -> ManagerV {
        ManagerV {
            refresh_interval: self.refresh_interval,
            users: users_view(self.user_process_tracker@),
            logging: self.logging_system@,
            rule_filters: self.rule_filters@,
            kill_on_no_match: self.kill_on_no_match,
        }
    }
}

/// The manager keeps one backup per user record, paired by index.
pub open spec fn spec_manager_wf(m: ManagerV) -> bool {
    &&& m.users.len() == m.logging.user_tracker_backups.len()
    &&& forall|i: int|
        0 <= i < m.users.len() ==> (#[trigger] m.logging.user_tracker_backups[i]).uid
            == m.users[i].uid
}

/// What one cycle leaves behind across all users.
#[verifier::ext_equal]
pub struct MonitorOut {
    pub users: Seq<UserV>,
    pub backups: Seq<BackupV>,
    pub kills: Seq<KillCommand>,
}

/// One snapshot slice applied to the manager's state: the slice of an
/// unknown user id is skipped, an unmanaged user is never enforced against,
/// and a managed user goes through one full accounting cycle.
pub open spec fn spec_monitor_step(
    users: Seq<UserV>,
    backups: Seq<BackupV>,
    s: SnapV,
    interval: u64,
    now: i64,
    kill_on_no_match: bool,
) -> MonitorOut {
    match spec_find_uid(users, s.uid) {
        Some(j) => if users[j].luminar {
            let out = spec_user_cycle(users[j], backups[j], s.processes, interval, now, kill_on_no_match);
            MonitorOut {
                users: users.update(j, out.user),
                backups: backups.update(j, out.backup),
                kills: out.kills,
            }
        } else {
            MonitorOut { users, backups, kills: Seq::empty() }
        },
        None => MonitorOut { users, backups, kills: Seq::empty() },
    }
}

/// A whole snapshot applied to the manager's state, slice by slice, the
/// kill orders concatenated in snapshot order.
pub open spec fn spec_monitor_fold(
    users: Seq<UserV>,
    backups: Seq<BackupV>,
    snaps: Seq<SnapV>,
    interval: u64,
    now: i64,
    kill_on_no_match: bool,
) -> MonitorOut
    decreases snaps.len(),
{
    if snaps.len() == 0 {
        MonitorOut { users, backups, kills: Seq::empty() }
    } else {
        let prev = spec_monitor_fold(users, backups, snaps.drop_last(), interval, now, kill_on_no_match);
        let st = spec_monitor_step(prev.users, prev.backups, snaps.last(), interval, now, kill_on_no_match);
        MonitorOut { users: st.users, backups: st.backups, kills: prev.kills + st.kills }
    }
}

impl LuminarResManager {
    /// Reduce a snapshot to the processes that every configured filter
    /// retains, so that trivial processes are never matched nor killed.
    pub fn global_filter_rules(&self, snapshot: Vec<LuminarUserSnapshot>) -> (r: Vec<
        LuminarUserSnapshot,
    >)
        ensures
            snaps_view(r@) == spec_filter_snaps(self.rule_filters@, snaps_view(snapshot@)),
    {
        let ghost sv = snaps_view(snapshot@);
        let mut snaps = snapshot;
        let ghost orig = snaps@;
        let mut out: Vec<LuminarUserSnapshot> = Vec::new();
        while snaps.len() > 0
            invariant
                snaps@.len() <= orig.len(),
                snaps@ == orig.skip(orig.len() - snaps@.len()),
                sv == snaps_view(orig),
                sv.len() == orig.len(),
                out@.len() == orig.len() - snaps@.len(),
                forall|t: int|
                    0 <= t < out@.len() ==> (#[trigger] out@[t]@).uid == sv[t].uid && out@[t]@.processes
                        == spec_filtered(self.rule_filters@, sv[t].processes),
            decreases snaps@.len(),
        {
            let ghost k = orig.len() - snaps@.len();
            let s = snaps.remove(0);
            proof {
                assert(orig.skip(k as int)[0] == orig[k as int]);
                assert(orig.skip(k as int).remove(0) =~= orig.skip(k as int + 1));
                assert(s@ == sv[k as int]);
            }
            let uid = s.uid;
            let filtered = filter_processes(&self.rule_filters, s.processes);
            out.push(LuminarUserSnapshot { uid, processes: filtered });
        }
        proof {
            assert(snaps_view(out@) =~= spec_filter_snaps(self.rule_filters@, sv));
        }
        out
    }

    /// One accounting cycle over a fresh telemetry snapshot, taken at time
    /// `now`: filter out exempt processes, then, for each managed user with
    /// snapshot data, reattribute and account that user's processes and
    /// collect the kill orders (out-of-bounds processes first, then the
    /// processes of every rule whose budget the cycle found exhausted).
    /// The orders are returned for the telemetry collaborator to carry out.
    pub fn monitor_update(&mut self, snapshot: Vec<LuminarUserSnapshot>, now: i64) -> (kills: Vec<
        KillCommand,
    >)
        requires
            spec_manager_wf(old(self)@),
        ensures
            ({
                let filtered = spec_filter_snaps(old(self).rule_filters@, snaps_view(snapshot@));
                let out = spec_monitor_fold(
                    old(self)@.users,
                    old(self)@.logging.user_tracker_backups,
                    filtered,
                    old(self).refresh_interval,
                    now,
                    old(self).kill_on_no_match,
                );
                &&& final(self)@.users == out.users
                &&& final(self)@.logging.user_tracker_backups == out.backups
                &&& kills@ == out.kills
            }),
            final(self)@.logging.next_log_time == old(self)@.logging.next_log_time,
            final(self)@.logging.log_dir == old(self)@.logging.log_dir,
            final(self).refresh_interval == old(self).refresh_interval,
            final(self).rule_filters == old(self).rule_filters,
            final(self).kill_on_no_match == old(self).kill_on_no_match,
            spec_manager_wf(final(self)@),
    {
        let filtered = self.global_filter_rules(snapshot);
        let ghost fsnaps = snaps_view(filtered@);
        let ghost users0 = users_view(self.user_process_tracker@);
        let ghost backups0 = backups_view(self.logging_system.user_tracker_backups@);
        let interval = self.refresh_interval;
        let kill_on_no_match = self.kill_on_no_match;
        let mut snaps = filtered;
        let ghost orig = snaps@;
        let mut kills: Vec<KillCommand> = Vec::new();
        while snaps.len() > 0
            invariant
                snaps@.len() <= orig.len(),
                snaps@ == orig.skip(orig.len() - snaps@.len()),
                fsnaps == snaps_view(orig),
                fsnaps.len() == orig.len(),
                interval == old(self).refresh_interval,
                kill_on_no_match == old(self).kill_on_no_match,
                self.refresh_interval == old(self).refresh_interval,
                self.rule_filters == old(self).rule_filters,
                self.kill_on_no_match == old(self).kill_on_no_match,
                self.logging_system.next_log_time == old(self).logging_system.next_log_time,
                self.logging_system.log_dir == old(self).logging_system.log_dir,
                spec_manager_wf(self@),
                users_view(self.user_process_tracker@) == spec_monitor_fold(
                    users0,
                    backups0,
                    fsnaps.take(orig.len() - snaps@.len()),
                    interval,
                    now,
                    kill_on_no_match,
                ).users,
                backups_view(self.logging_system.user_tracker_backups@) == spec_monitor_fold(
                    users0,
                    backups0,
                    fsnaps.take(orig.len() - snaps@.len()),
                    interval,
                    now,
                    kill_on_no_match,
                ).backups,
                kills@ == spec_monitor_fold(
                    users0,
                    backups0,
                    fsnaps.take(orig.len() - snaps@.len()),
                    interval,
                    now,
                    kill_on_no_match,
                ).kills,
            decreases snaps@.len(),
        {
            let ghost k = orig.len() - snaps@.len();
            let ghost prev = spec_monitor_fold(
                users0,
                backups0,
                fsnaps.take(k as int),
                interval,
                now,
                kill_on_no_match,
            );
            let s = snaps.remove(0);
            proof {
                assert(orig.skip(k as int)[0] == orig[k as int]);
                assert(orig.skip(k as int).remove(0) =~= orig.skip(k as int + 1));
                assert(s@ == fsnaps[k as int]);
                assert(fsnaps.take(k as int + 1).drop_last() =~= fsnaps.take(k as int));
                assert(fsnaps.take(k as int + 1).last() == fsnaps[k as int]);
            }
            let uid = s.uid;
            let fo = find_user_index(&self.user_process_tracker, uid);
            match fo {
                None => {
                },
                Some(j) => {
                    proof {
                        lemma_find_uid_char(prev.users, uid);
                    }
                    if self.user_process_tracker[j].luminar {
                        let mut fresh_kills = self.user_process_tracker[j].apply_cycle(
                            &mut self.logging_system.user_tracker_backups[j],
                            s.processes,
                            interval,
                            now,
                            kill_on_no_match,
                        );
                        proof {
                            let out = spec_user_cycle(
                                prev.users[j as int],
                                prev.backups[j as int],
                                fsnaps[k as int].processes,
                                interval,
                                now,
                                kill_on_no_match,
                            );
                            crate::cycle::lemma_cycle_backup_identity(
                                crate::cycle::CycleState {
                                    process_trackers: prev.users[j as int].process_trackers,
                                    rule_trackers: crate::cycle::spec_clear_tracked(
                                        prev.users[j as int].rule_trackers,
                                    ),
                                    backup: prev.backups[j as int],
                                    kills: Seq::empty(),
                                },
                                fsnaps[k as int].processes,
                                interval,
                                now,
                                prev.users[j as int].uid,
                                kill_on_no_match,
                            );
                            assert(users_view(self.user_process_tracker@) =~= prev.users.update(
                                j as int,
                                out.user,
                            ));
                            assert(backups_view(self.logging_system.user_tracker_backups@)
                                =~= prev.backups.update(j as int, out.backup));
                        }
                        kills.append(&mut fresh_kills);
                    }
                },
            }
            proof {
                assert(kills@ =~= spec_monitor_fold(
                    users0,
                    backups0,
                    fsnaps.take(k as int + 1),
                    interval,
                    now,
                    kill_on_no_match,
                ).kills);
            }
        }
        proof {
            assert(fsnaps.take(orig.len() as int) =~= fsnaps);
        }
        kills
    }
}

/// One OS user account, as the telemetry collaborator enumerates them at
/// construction time.
pub struct LuminarUserAccount {
    pub uid: u32,
    pub name: String,
}

/// The user records construction starts from: one per account, unmanaged,
/// with no trackers.
pub open spec fn spec_initial_users(accounts: Seq<LuminarUserAccount>) -> Seq<UserV> {
    accounts.map_values(
        |a: LuminarUserAccount|
            (UserV {
                luminar: false,
                uid: a.uid,
                name: a.name,
                process_trackers: Seq::empty(),
                rule_trackers: Seq::empty(),
            }),
    )
}

/// The logging backups construction starts from: one per account, zeroed.
pub open spec fn spec_initial_backups(accounts: Seq<LuminarUserAccount>) -> Seq<BackupV> {
    accounts.map_values(
        |a: LuminarUserAccount|
            (BackupV {
                uid: a.uid,
                name: a.name,
                cpu_core_time: 0,
                cpu_memory_time: 0,
                gpu_device_time: 0,
                gpu_memory_time: 0,
            }),
    )
}

/// The first user record of the given name, if any (a configured user name
/// is resolved against the account list this way).
pub open spec fn spec_find_by_name(users: Seq<UserV>, name: Seq<char>) -> Option<int>
    decreases users.len(),
{
    if users.len() == 0 {
        None
    } else {
        match spec_find_by_name(users.drop_last(), name) {
            Some(i) => Some(i),
            None => if users.last().name@ == name {
                Some(users.len() - 1 as int)
            } else {
                None
            },
        }
    }
}

/// The first user record of a name is in range and carries that name.
pub proof fn lemma_find_by_name_char(users: Seq<UserV>, name: Seq<char>)
    ensures
        match spec_find_by_name(users, name) {
            None => forall|j: int| 0 <= j < users.len() ==> (#[trigger] users[j].name)@ != name,
            Some(i) => 0 <= i < users.len() && users[i].name@ == name,
        },
    decreases users.len(),
{
    if users.len() > 0 {
        lemma_find_by_name_char(users.drop_last(), name);
        assert(forall|j: int| 0 <= j < users.len() - 1 ==> users.drop_last()[j] == users[j]);
    }
}

/// The index of the first user record of the given name, if any.
pub fn find_user_by_name(users: &Vec<LuminarUser>, name: &String) -> (r: Option<usize>)
    ensures
        match r {
            Some(i) => spec_find_by_name(users_view(users@), name@) == Some(i as int),
            None => spec_find_by_name(users_view(users@), name@) is None,
        },
{
    let ghost uv = users_view(users@);
    let mut r: Option<usize> = None;
    let mut i: usize = 0;
    while i < users.len()
        invariant
            i <= users@.len(),
            uv == users_view(users@),
            uv.len() == users@.len(),
            match r {
                Some(j) => j < i && spec_find_by_name(uv.take(i as int), name@) == Some(j as int),
                None => spec_find_by_name(uv.take(i as int), name@) is None,
            },
        decreases users@.len() - i,
    {
        proof {
            assert(uv.take(i + 1).drop_last() =~= uv.take(i as int));
            assert(uv.take(i + 1).last() == uv[i as int]);
        }
        if r.is_none() && users[i].name == *name {
            r = Some(i);
        }
        i = i + 1;
    }
    proof {
        assert(uv.take(users@.len() as int) =~= uv);
    }
    r
}

/// A fresh rule tracker: the rule itself, zeroed accumulators, nothing
/// attributed yet.
pub open spec fn rt_fresh(rule: LuminarRule) -> RTrackV {
    RTrackV {
        name: rule.name,
        rule,
        cpu_core_time: 0,
        cpu_memory_time: 0,
        gpu_device_time: 0,
        gpu_memory_time: 0,
        tracked_pids: Seq::empty(),
    }
}

/// The first rule tracker of the given rule name, if any.
pub open spec fn spec_find_tracker(ts: Seq<RTrackV>, name: Seq<char>) -> Option<int>
    decreases ts.len(),
{
    if ts.len() == 0 {
        None
    } else {
        match spec_find_tracker(ts.drop_last(), name) {
            Some(i) => Some(i),
            None => if ts.last().name@ == name {
                Some(ts.len() - 1 as int)
            } else {
                None
            },
        }
    }
}

/// The first rule tracker of a name is in range and carries that name.
pub proof fn lemma_find_tracker_char(ts: Seq<RTrackV>, name: Seq<char>)
    ensures
        match spec_find_tracker(ts, name) {
            None => forall|j: int| 0 <= j < ts.len() ==> (#[trigger] ts[j].name)@ != name,
            Some(i) => 0 <= i < ts.len() && ts[i].name@ == name,
        },
    decreases ts.len(),
{
    if ts.len() > 0 {
        lemma_find_tracker_char(ts.drop_last(), name);
        assert(forall|j: int| 0 <= j < ts.len() - 1 ==> ts.drop_last()[j] == ts[j]);
    }
}

/// The index of the first rule tracker of the given name, if any.
pub fn find_tracker_by_name(ts: &Vec<LuminarRuleTracker>, name: &String) -> (r: Option<usize>)
    ensures
        match r {
            Some(i) => spec_find_tracker(rtracks_view(ts@), name@) == Some(i as int),
            None => spec_find_tracker(rtracks_view(ts@), name@) is None,
        },
{
    let ghost tv = rtracks_view(ts@);
    let mut r: Option<usize> = None;
    let mut i: usize = 0;
    while i < ts.len()
        invariant
            i <= ts@.len(),
            tv == rtracks_view(ts@),
            tv.len() == ts@.len(),
            match r {
                Some(j) => j < i && spec_find_tracker(tv.take(i as int), name@) == Some(j as int),
                None => spec_find_tracker(tv.take(i as int), name@) is None,
            },
        decreases ts@.len() - i,
    {
        proof {
            assert(tv.take(i + 1).drop_last() =~= tv.take(i as int));
            assert(tv.take(i + 1).last() == tv[i as int]);
        }
        if r.is_none() && ts[i].name == *name {
            r = Some(i);
        }
        i = i + 1;
    }
    proof {
        assert(tv.take(ts@.len() as int) =~= tv);
    }
    r
}

/// One fresh tracker per rule, in order; a later rule of an already-seen
/// name replaces the earlier tracker in place, as a map keyed by name would
/// (last write wins; a strict deployment rejects such a configuration at
/// validation time).
pub open spec fn spec_build_trackers(rules: Seq<LuminarRule>) -> Seq<RTrackV>
    decreases rules.len(),
{
    if rules.len() == 0 {
        Seq::empty()
    } else {
        let prev = spec_build_trackers(rules.drop_last());
        let r = rules.last();
        match spec_find_tracker(prev, r.name@) {
            Some(i) => prev.update(i, rt_fresh(r)),
            None => prev.push(rt_fresh(r)),
        }
    }
}

/// Build the rule trackers of one managed user from the user's own rules
/// followed by the rules common to every managed user.
pub fn build_rule_trackers(rules: Vec<LuminarRule>, common_rules: &Vec<LuminarRule>) -> (r: Vec<
    LuminarRuleTracker,
>)
    ensures
        rtracks_view(r@) == spec_build_trackers(rules@ + common_rules@),
{
    let ghost rules0 = rules@;
    let mut combined = rules;
    let mut ci: usize = 0;
    while ci < common_rules.len()
        invariant
            ci <= common_rules@.len(),
            combined@ == rules0 + common_rules@.take(ci as int),
        decreases common_rules@.len() - ci,
    {
        combined.push(common_rules[ci].duplicate());
        proof {
            assert(rules0 + common_rules@.take(ci as int + 1) =~= (rules0 + common_rules@.take(
                ci as int,
            )).push(common_rules@[ci as int]));
        }
        ci = ci + 1;
    }
    proof {
        assert(common_rules@.take(common_rules@.len() as int) =~= common_rules@);
    }
    let ghost all = combined@;
    let mut out: Vec<LuminarRuleTracker> = Vec::new();
    while combined.len() > 0
        invariant
            combined@.len() <= all.len(),
            combined@ == all.skip(all.len() - combined@.len()),
            rtracks_view(out@) == spec_build_trackers(all.take(all.len() - combined@.len())),
        decreases combined@.len(),
    {
        let ghost k = all.len() - combined@.len();
        let ghost prev = spec_build_trackers(all.take(k as int));
        let r = combined.remove(0);
        proof {
            assert(all.skip(k as int)[0] == all[k as int]);
            assert(all.skip(k as int).remove(0) =~= all.skip(k as int + 1));
            assert(all.take(k as int + 1).drop_last() =~= all.take(k as int));
            assert(all.take(k as int + 1).last() == all[k as int]);
        }
        let fo = find_tracker_by_name(&out, &r.name);
        let name = r.name.clone();
        let tracker = LuminarRuleTracker {
            name,
            rule: r,
            cpu_core_time: 0,
            cpu_memory_time: 0,
            gpu_device_time: 0,
            gpu_memory_time: 0,
            tracked_pids: Vec::new(),
        };
        match fo {
            Some(i) => {
                proof {
                    lemma_find_tracker_char(prev, all[k as int].name@);
                }
                let _ = out.remove(i);
                out.insert(i, tracker);
                proof {
                    assert(rtracks_view(out@) =~= prev.update(
                        i as int,
                        rt_fresh(all[k as int]),
                    ));
                }
            },
            None => {
                out.push(tracker);
                proof {
                    assert(rtracks_view(out@) =~= prev.push(rt_fresh(all[k as int])));
                }
            },
        }
    }
    proof {
        assert(all.take(all.len() as int) =~= all);
    }
    out
}

impl LuminarUser {
    /// Mark this user as managed and give it its rule trackers.
    pub fn enable_management(&mut self, rule_trackers: Vec<LuminarRuleTracker>)
        ensures
            final(self).luminar == true,
            final(self).uid == old(self).uid,
            final(self).name == old(self).name,
            final(self).process_trackers == old(self).process_trackers,
            final(self).rule_trackers == rule_trackers,
    {
        self.luminar = true;
        self.rule_trackers = rule_trackers;
    }
}

/// One configuration entry applied to the user records: resolve the entry's
/// user name; when an account of that name exists, mark the user managed
/// and build its rule trackers from the entry's rules followed by the
/// common rules.  An entry whose name matches no account is skipped.
pub open spec fn spec_apply_info(
    users: Seq<UserV>,
    info: InfoV,
    common: Seq<LuminarRule>,
) -> Seq<UserV> {
    match spec_find_by_name(users, info.name@) {
        None => users,
        Some(j) => users.update(
            j,
            UserV {
                luminar: true,
                uid: users[j].uid,
                name: users[j].name,
                process_trackers: users[j].process_trackers,
                rule_trackers: spec_build_trackers(info.rules + common),
            },
        ),
    }
}

/// All configuration entries applied in order (a later entry of the same
/// user name replaces the earlier entry's trackers entirely).
pub open spec fn spec_apply_infos(
    users: Seq<UserV>,
    infos: Seq<InfoV>,
    common: Seq<LuminarRule>,
) -> Seq<UserV>
    decreases infos.len(),
{
    if infos.len() == 0 {
        users
    } else {
        spec_apply_info(spec_apply_infos(users, infos.drop_last(), common), infos.last(), common)
    }
}

/// Applying configuration entries changes which users are managed and their
/// rule trackers, and nothing else.
pub proof fn lemma_apply_infos_identity(
    users: Seq<UserV>,
    infos: Seq<InfoV>,
    common: Seq<LuminarRule>,
)
    ensures
        ({
            let post = spec_apply_infos(users, infos, common);
            &&& post.len() == users.len()
            &&& forall|i: int|
                0 <= i < users.len() ==> (#[trigger] post[i]).uid == users[i].uid && post[i].name
                    == users[i].name && post[i].process_trackers == users[i].process_trackers
        }),
    decreases infos.len(),
{
    if infos.len() > 0 {
        lemma_apply_infos_identity(users, infos.drop_last(), common);
        let mid = spec_apply_infos(users, infos.drop_last(), common);
        let post = spec_apply_infos(users, infos, common);
        lemma_find_by_name_char(mid, infos.last().name@);
        assert forall|i: int| 0 <= i < users.len() implies (#[trigger] post[i]).uid == users[i].uid
            && post[i].name == users[i].name && post[i].process_trackers
            == users[i].process_trackers by {
            assert(mid[i].uid == users[i].uid && mid[i].name == users[i].name
                && mid[i].process_trackers == users[i].process_trackers);
        }
    }
}

impl LuminarResManager {
    /// Build the manager: one unmanaged user record and one zeroed backup
    /// per OS account, then one pass over the configured users, marking each
    /// matching account managed and building its rule trackers from its own
    /// rules followed by the common rules.  The first log flush is scheduled
    /// for the end of the current local day (or, should the local calendar
    /// have no such instant, one day from now).
    pub fn new(
        working_dir: String,
        accounts: Vec<LuminarUserAccount>,
        users_info: Vec<LuminarUserInfo>,
        rule_filters: Vec<LuminarRuleFilter>,
        common_rules: Vec<LuminarRule>,
        refresh_interval: u64,
        kill_on_no_match: bool,
    ) -> (m: LuminarResManager)
        ensures
            m.refresh_interval == refresh_interval,
            m.kill_on_no_match == kill_on_no_match,
            m.rule_filters == rule_filters,
            m@.logging.log_dir == working_dir,
            m@.logging.user_tracker_backups == spec_initial_backups(accounts@),
            m@.users == spec_apply_infos(
                spec_initial_users(accounts@),
                infos_view(users_info@),
                common_rules@,
            ),
            spec_manager_wf(m@),
    {
        let ghost accounts0 = accounts@;
        let mut accts = accounts;
        let mut users: Vec<LuminarUser> = Vec::new();
        let mut backups: Vec<LuminarUserTrackerBackup> = Vec::new();
        while accts.len() > 0
            invariant
                accts@.len() <= accounts0.len(),
                accts@ == accounts0.skip(accounts0.len() - accts@.len()),
                users@.len() == accounts0.len() - accts@.len(),
                backups@.len() == users@.len(),
                forall|t: int|
                    0 <= t < users@.len() ==> {
                        let u = #[trigger] users@[t];
                        &&& u.luminar == false
                        &&& u.uid == accounts0[t].uid
                        &&& u.name == accounts0[t].name
                        &&& u.process_trackers@.len() == 0
                        &&& u.rule_trackers@.len() == 0
                    },
                forall|t: int|
                    0 <= t < backups@.len() ==> #[trigger] backups@[t]@ == spec_initial_backups(
                        accounts0,
                    )[t],
            decreases accts@.len(),
        {
            let ghost k = accounts0.len() - accts@.len();
            let a = accts.remove(0);
            proof {
                assert(accounts0.skip(k as int)[0] == accounts0[k as int]);
                assert(accounts0.skip(k as int).remove(0) =~= accounts0.skip(k as int + 1));
            }
            let backup_name = a.name.clone();
            backups.push(
                LuminarUserTrackerBackup {
                    uid: a.uid,
                    name: backup_name,
                    cpu_core_time: 0,
                    cpu_memory_time: 0,
                    gpu_device_time: 0,
                    gpu_memory_time: 0,
                },
            );
            users.push(
                LuminarUser {
                    luminar: false,
                    uid: a.uid,
                    name: a.name,
                    process_trackers: Vec::new(),
                    rule_trackers: Vec::new(),
                },
            );
        }
        proof {
            assert forall|t: int| 0 <= t < users@.len() implies #[trigger] users_view(users@)[t]
                == spec_initial_users(accounts0)[t] by {
                assert(ptracks_view(users@[t].process_trackers@) =~= Seq::<PTackV>::empty());
                assert(rtracks_view(users@[t].rule_trackers@) =~= Seq::<RTrackV>::empty());
            }
            assert(users_view(users@) =~= spec_initial_users(accounts0));
            assert(backups_view(backups@) =~= spec_initial_backups(accounts0));
        }
        let ghost init_users = spec_initial_users(accounts0);
        let ghost infos0 = infos_view(users_info@);
        let mut infos = users_info;
        let ghost iorig = infos@;
        while infos.len() > 0
            invariant
                infos@.len() <= iorig.len(),
                infos@ == iorig.skip(iorig.len() - infos@.len()),
                infos0 == infos_view(iorig),
                infos0.len() == iorig.len(),
                backups@.len() == users@.len(),
                backups_view(backups@) == spec_initial_backups(accounts0),
                users_view(users@) == spec_apply_infos(
                    init_users,
                    infos0.take(iorig.len() - infos@.len()),
                    common_rules@,
                ),
            decreases infos@.len(),
        {
            let ghost k = iorig.len() - infos@.len();
            let ghost prev = spec_apply_infos(init_users, infos0.take(k as int), common_rules@);
            let info = infos.remove(0);
            proof {
                assert(iorig.skip(k as int)[0] == iorig[k as int]);
                assert(iorig.skip(k as int).remove(0) =~= iorig.skip(k as int + 1));
                assert(info@ == infos0[k as int]);
                assert(infos0.take(k as int + 1).drop_last() =~= infos0.take(k as int));
                assert(infos0.take(k as int + 1).last() == infos0[k as int]);
            }
            let fo = find_user_by_name(&users, &info.name);
            match fo {
                None => {
                },
                Some(j) => {
                    proof {
                        lemma_find_by_name_char(prev, infos0[k as int].name@);
                    }
                    let trackers = build_rule_trackers(info.rules, &common_rules);
                    users[j].enable_management(trackers);
                    proof {
                        assert(users_view(users@) =~= prev.update(
                            j as int,
                            UserV {
                                luminar: true,
                                uid: prev[j as int].uid,
                                name: prev[j as int].name,
                                process_trackers: prev[j as int].process_trackers,
                                rule_trackers: spec_build_trackers(
                                    infos0[k as int].rules + common_rules@,
                                ),
                            },
                        ));
                    }
                },
            }
        }
        proof {
            assert(infos0.take(iorig.len() as int) =~= infos0);
        }
        let next_log_time = match end_of_today_ms() {
            Some(t) => t,
            None => sat_add_time(now_ms(), MILLIS_PER_DAY),
        };
        let logging_system = LuminarLoggingSystem {
            log_dir: working_dir,
            next_log_time,
            user_tracker_backups: backups,
        };
        let m = LuminarResManager {
            refresh_interval,
            user_process_tracker: users,
            logging_system,
            rule_filters,
            kill_on_no_match,
        };
        proof {
            lemma_apply_infos_identity(init_users, infos0, common_rules@);
        }
        m
    }

    /// The logging check against the current wall-clock time: a no-op until
    /// the flush deadline has passed, and then one flush, handing out the
    /// closing period's per-user totals, resetting every backup, and moving
    /// the deadline one day on.
    pub fn log_update(&mut self) -> (flushed: Option<Vec<LuminarUserTrackerBackup>>)
        ensures
            flushed is None ==> *final(self) == *old(self),
            flushed matches Some(v) ==> {
                &&& backups_view(v@) == old(self)@.logging.user_tracker_backups
                &&& final(self)@.logging.user_tracker_backups == old(
                    self,
                )@.logging.user_tracker_backups.map_values(|b: BackupV| spec_reset(b))
                &&& final(self)@.logging.next_log_time == sat_add_i64(
                    old(self)@.logging.next_log_time,
                    MILLIS_PER_DAY as int,
                )
                &&& final(self)@.logging.log_dir == old(self)@.logging.log_dir
                &&& final(self).user_process_tracker == old(self).user_process_tracker
                &&& final(self).refresh_interval == old(self).refresh_interval
                &&& final(self).rule_filters == old(self).rule_filters
                &&& final(self).kill_on_no_match == old(self).kill_on_no_match
            },
    {
        let now = now_ms();
        self.logging_system.log(now)
    }
}

/// One row of the usage report: one user's logging-period totals, converted
/// to whole minutes.
pub struct LuminarUsageRow {
    pub name: String,
    /// Whole core-minutes of CPU time.
    pub cpu_core_minutes: u128,
    /// Whole MB-minutes of CPU memory residence.
    pub cpu_memory_mb_minutes: u128,
    /// Whole device-minutes of GPU time.
    pub gpu_device_minutes: u128,
    /// Whole MB-minutes of GPU memory residence.
    pub gpu_memory_mb_minutes: u128,
}

impl LuminarResManager {
    /// The current logging period's per-user usage, one row per known user,
    /// in whole minutes (for the display collaborator to print).
    pub fn usage_report(&self) -> (rows: Vec<LuminarUsageRow>)
        ensures
            rows@.len() == self@.logging.user_tracker_backups.len(),
            forall|i: int|
                0 <= i < rows@.len() ==> {
                    let b = self@.logging.user_tracker_backups[i];
                    let row = #[trigger] rows@[i];
                    &&& row.name == b.name
                    &&& row.cpu_core_minutes as int == b.cpu_core_time / (
                    MICRO_CORE_SECONDS_PER_MINUTE as int)
                    &&& row.cpu_memory_mb_minutes as int == b.cpu_memory_time / (
                    MB_MILLIS_PER_MINUTE as int)
                    &&& row.gpu_device_minutes as int == b.gpu_device_time / (
                    MICRO_CORE_SECONDS_PER_MINUTE as int)
                    &&& row.gpu_memory_mb_minutes as int == b.gpu_memory_time / (
                    MB_MILLIS_PER_MINUTE as int)
                },
    {
        let backups = &self.logging_system.user_tracker_backups;
        let mut rows: Vec<LuminarUsageRow> = Vec::new();
        let mut i: usize = 0;
        while i < backups.len()
            invariant
                i <= backups@.len(),
                rows@.len() == i,
                forall|t: int|
                    0 <= t < rows@.len() ==> {
                        let b = backups@[t]@;
                        let row = #[trigger] rows@[t];
                        &&& row.name == b.name
                        &&& row.cpu_core_minutes as int == b.cpu_core_time / (
                        MICRO_CORE_SECONDS_PER_MINUTE as int)
                        &&& row.cpu_memory_mb_minutes as int == b.cpu_memory_time / (
                        MB_MILLIS_PER_MINUTE as int)
                        &&& row.gpu_device_minutes as int == b.gpu_device_time / (
                        MICRO_CORE_SECONDS_PER_MINUTE as int)
                        &&& row.gpu_memory_mb_minutes as int == b.gpu_memory_time / (
                        MB_MILLIS_PER_MINUTE as int)
                    },
            decreases backups@.len() - i,
        {
            let b = &backups[i];
            rows.push(
                LuminarUsageRow {
                    name: b.name.clone(),
                    cpu_core_minutes: b.cpu_core_time / MICRO_CORE_SECONDS_PER_MINUTE,
                    cpu_memory_mb_minutes: b.cpu_memory_time / MB_MILLIS_PER_MINUTE,
                    gpu_device_minutes: b.gpu_device_time / MICRO_CORE_SECONDS_PER_MINUTE,
                    gpu_memory_mb_minutes: b.gpu_memory_time / MB_MILLIS_PER_MINUTE,
                },
            );
            i = i + 1;
        }
        rows
    }
}

/// Every accumulator of the user's trackers lies in the range of a `u128`
/// (true of the model of every executable user record).
pub open spec fn user_in_range(u: UserV) -> bool {
    &&& forall|i: int| 0 <= i < u.rule_trackers.len() ==> rt_in_range(#[trigger] u.rule_trackers[i])
    &&& forall|i: int|
        0 <= i < u.process_trackers.len() ==> pt_in_range(#[trigger] u.process_trackers[i])
}

/// No accumulator of any of the user's trackers decreased, and no tracker
/// disappeared.
pub open spec fn user_monotone(pre: UserV, post: UserV) -> bool {
    &&& post.rule_trackers.len() == pre.rule_trackers.len()
    &&& forall|i: int|
        0 <= i < pre.rule_trackers.len() ==> rt_monotone(
            #[trigger] pre.rule_trackers[i],
            post.rule_trackers[i],
        )
    &&& post.process_trackers.len() >= pre.process_trackers.len()
    &&& forall|i: int|
        0 <= i < pre.process_trackers.len() ==> pt_monotone(
            #[trigger] pre.process_trackers[i],
            post.process_trackers[i],
        )
}

/// `user_monotone` composes across successive cycles.
proof fn lemma_user_monotone_trans(a: UserV, b: UserV, c: UserV)
    requires
        user_monotone(a, b),
        user_monotone(b, c),
    ensures
        user_monotone(a, c),
{
    assert forall|i: int| 0 <= i < a.rule_trackers.len() implies rt_monotone(
        #[trigger] a.rule_trackers[i],
        c.rule_trackers[i],
    ) by {
        assert(rt_monotone(a.rule_trackers[i], b.rule_trackers[i]));
        assert(rt_monotone(b.rule_trackers[i], c.rule_trackers[i]));
    }
    assert forall|i: int| 0 <= i < a.process_trackers.len() implies pt_monotone(
        #[trigger] a.process_trackers[i],
        c.process_trackers[i],
    ) by {
        assert(pt_monotone(a.process_trackers[i], b.process_trackers[i]));
        assert(pt_monotone(b.process_trackers[i], c.process_trackers[i]));
    }
}

/// The whole-cycle monotonicity relation: no user or backup disappeared, no
/// accumulator decreased, and every accumulator is still in range.
pub open spec fn spec_monitor_monotone(
    users: Seq<UserV>,
    backups: Seq<BackupV>,
    out: MonitorOut,
) -> bool {
    &&& out.users.len() == users.len()
    &&& out.backups.len() == backups.len()
    &&& forall|i: int|
        0 <= i < users.len() ==> user_monotone(#[trigger] users[i], out.users[i]) && user_in_range(
            out.users[i],
        )
    &&& forall|i: int|
        0 <= i < backups.len() ==> backup_monotone(#[trigger] backups[i], out.backups[i])
            && backup_in_range(out.backups[i])
}

/// A cycle step that changed nothing keeps the monotonicity relation.
proof fn lemma_monotone_step_unchanged(
    users: Seq<UserV>,
    backups: Seq<BackupV>,
    prev: MonitorOut,
    out: MonitorOut,
)
    requires
        spec_monitor_monotone(users, backups, prev),
        out.users == prev.users,
        out.backups == prev.backups,
    ensures
        spec_monitor_monotone(users, backups, out),
{
}

/// A cycle step that replaced one user's record and backup with monotone,
/// in-range successors keeps the monotonicity relation.
proof fn lemma_monotone_step_update(
    users: Seq<UserV>,
    backups: Seq<BackupV>,
    prev: MonitorOut,
    out: MonitorOut,
    j: int,
    cyc_user: UserV,
    cyc_backup: BackupV,
)
    requires
        users.len() == backups.len(),
        spec_monitor_monotone(users, backups, prev),
        0 <= j < prev.users.len(),
        out.users == prev.users.update(j, cyc_user),
        out.backups == prev.backups.update(j, cyc_backup),
        user_monotone(prev.users[j], cyc_user),
        user_in_range(cyc_user),
        backup_monotone(prev.backups[j], cyc_backup),
        backup_in_range(cyc_backup),
    ensures
        spec_monitor_monotone(users, backups, out),
{
    assert forall|i: int| 0 <= i < users.len() implies user_monotone(
        #[trigger] users[i],
        out.users[i],
    ) && user_in_range(out.users[i]) by {
        assert(user_monotone(users[i], prev.users[i]));
        assert(user_in_range(prev.users[i]));
        if i == j {
            lemma_user_monotone_trans(users[i], prev.users[i], cyc_user);
        }
    }
    assert forall|i: int| 0 <= i < backups.len() implies backup_monotone(
        #[trigger] backups[i],
        out.backups[i],
    ) && backup_in_range(out.backups[i]) by {
        assert(backup_monotone(backups[i], prev.backups[i]));
        assert(backup_in_range(prev.backups[i]));
        if i == j {
            assert(out.backups[i] == cyc_backup);
        }
    }
}

/// Law: cumulative accounting is monotone across whole accounting cycles.
/// Whatever snapshots a cycle brings, no cumulative time or memory-time
/// field of any user's rule trackers, process trackers or backup decreases,
/// and no tracker or user disappears.
pub proof fn lemma_monitor_monotonic(
    users: Seq<UserV>,
    backups: Seq<BackupV>,
    snaps: Seq<SnapV>,
    interval: u64,
    now: i64,
    kill_on_no_match: bool,
)
    requires
        users.len() == backups.len(),
        forall|i: int| 0 <= i < users.len() ==> user_in_range(#[trigger] users[i]),
        forall|i: int| 0 <= i < backups.len() ==> backup_in_range(#[trigger] backups[i]),
    ensures
        spec_monitor_monotone(
            users,
            backups,
            spec_monitor_fold(users, backups, snaps, interval, now, kill_on_no_match),
        ),
    decreases snaps.len(),
{
    let out = spec_monitor_fold(users, backups, snaps, interval, now, kill_on_no_match);
    if snaps.len() == 0 {
        assert forall|i: int| 0 <= i < users.len() implies user_monotone(
            #[trigger] users[i],
            out.users[i],
        ) && user_in_range(out.users[i]) by {
            assert(user_monotone(users[i], users[i]));
        }
        assert forall|i: int| 0 <= i < backups.len() implies backup_monotone(
            #[trigger] backups[i],
            out.backups[i],
        ) && backup_in_range(out.backups[i]) by {
            assert(backup_monotone(backups[i], backups[i]));
        }
    } else {
        lemma_monitor_monotonic(users, backups, snaps.drop_last(), interval, now, kill_on_no_match);
        let prev = spec_monitor_fold(
            users,
            backups,
            snaps.drop_last(),
            interval,
            now,
            kill_on_no_match,
        );
        let s = snaps.last();
        match spec_find_uid(prev.users, s.uid) {
            Some(j) => {
                lemma_find_uid_char(prev.users, s.uid);
                if prev.users[j].luminar {
                    assert(user_monotone(users[j], prev.users[j]));
                    assert(user_in_range(prev.users[j]));
                    assert(backup_monotone(backups[j], prev.backups[j]));
                    assert(backup_in_range(prev.backups[j]));
                    lemma_cycle_monotonic(
                        prev.users[j],
                        prev.backups[j],
                        s.processes,
                        interval,
                        now,
                        kill_on_no_match,
                    );
                    let cyc = spec_user_cycle(
                        prev.users[j],
                        prev.backups[j],
                        s.processes,
                        interval,
                        now,
                        kill_on_no_match,
                    );
                    lemma_monotone_step_update(
                        users,
                        backups,
                        prev,
                        out,
                        j,
                        cyc.user,
                        cyc.backup,
                    );
                } else {
                    lemma_monotone_step_unchanged(users, backups, prev, out);
                }
            },
            None => {
                lemma_monotone_step_unchanged(users, backups, prev, out);
            },
        }
    }
}

} // verus!
