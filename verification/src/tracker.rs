//! Per-process and per-rule accumulators, the per-user record that groups
//! them, and the per-user logging-period backup.

use vstd::prelude::*;

use crate::cfg::LuminarRule;
use crate::units::MICRO_CORE_SECONDS_PER_MINUTE;
use crate::units::sat_add;
use crate::units::sat_add_u128;

verus! {

/// One process observation of one accounting cycle: the instantaneous
/// utilization and memory use of a single process.
pub struct LuminarProcessUtil {
    pub pid: u32,
    /// The process's command line.
    pub commond: Vec<String>,
    /// CPU usage in thousandths of a core.
    pub cpu_usage: u64,
    /// CPU memory in MB.
    pub cpu_memory: u64,
    /// Index of the GPU device the process runs on (0 when none).
    pub device_id: u32,
    /// GPU usage in thousandths of a device.
    pub gpu_usage: u64,
    /// GPU memory in MB.
    pub gpu_memory: u64,
}

/// Mathematical model of a process observation.
#[verifier::ext_equal]
pub struct UtilV {
    pub pid: u32,
    pub commond: Seq<String>,
    pub cpu_usage: u64,
    pub cpu_memory: u64,
    pub device_id: u32,
    pub gpu_usage: u64,
    pub gpu_memory: u64,
}

impl View for LuminarProcessUtil {
    type V = UtilV;

    open spec fn view(&self) -> UtilV {
        UtilV {
            pid: self.pid,
            commond: self.commond@,
            cpu_usage: self.cpu_usage,
            cpu_memory: self.cpu_memory,
            device_id: self.device_id,
            gpu_usage: self.gpu_usage,
            gpu_memory: self.gpu_memory,
        }
    }
}

/// The models of a sequence of process observations.
pub open spec fn utils_view(v: Seq<LuminarProcessUtil>) -> Seq<UtilV> {
    v.map_values(|p: LuminarProcessUtil| p@)
}

/// Cumulative resource use of one process, created on first sighting and
/// updated on every later cycle in which the process is still seen.
pub struct LuminarProcessTacker {
    pub pid: u32,
    /// The most recent observation of the process.
    pub utility: LuminarProcessUtil,
    /// Timestamp in milliseconds of the first sighting.
    pub start_time: i64,
    /// Milliseconds elapsed since the first sighting.
    pub running_time: i64,
    /// Micro-core-seconds of CPU time.
    pub cpu_core_time: u128,
    /// MB-milliseconds of CPU memory residence.
    pub cpu_memory_time: u128,
    /// Micro-device-seconds of GPU time.
    pub gpu_device_time: u128,
    /// MB-milliseconds of GPU memory residence.
    pub gpu_memory_time: u128,
}

/// Mathematical model of a process tracker.
#[verifier::ext_equal]
pub struct PTackV {
    pub pid: u32,
    pub utility: UtilV,
    pub start_time: int,
    pub running_time: int,
    pub cpu_core_time: int,
    pub cpu_memory_time: int,
    pub gpu_device_time: int,
    pub gpu_memory_time: int,
}

impl View for LuminarProcessTacker {
    type V = PTackV;

    open spec fn view(&self) -> PTackV {
        PTackV {
            pid: self.pid,
            utility: self.utility@,
            start_time: self.start_time as int,
            running_time: self.running_time as int,
            cpu_core_time: self.cpu_core_time as int,
            cpu_memory_time: self.cpu_memory_time as int,
            gpu_device_time: self.gpu_device_time as int,
            gpu_memory_time: self.gpu_memory_time as int,
        }
    }
}

/// Cumulative resource use of all processes attributed to one rule, plus the
/// process ids attributed to the rule in the current cycle.
pub struct LuminarRuleTracker {
    /// The name of the rule, as defined in the configuration.
    pub name: String,
    /// The rule itself.
    pub rule: LuminarRule,
    /// Micro-core-seconds of CPU time.
    pub cpu_core_time: u128,
    /// MB-milliseconds of CPU memory residence.
    pub cpu_memory_time: u128,
    /// Micro-device-seconds of GPU time.
    pub gpu_device_time: u128,
    /// MB-milliseconds of GPU memory residence.
    pub gpu_memory_time: u128,
    /// Process ids attributed to this rule in the current cycle; cleared and
    /// rebuilt on every cycle that has snapshot data for the owning user.
    pub tracked_pids: Vec<u32>,
}

/// Mathematical model of a rule tracker.
#[verifier::ext_equal]
pub struct RTrackV {
    pub name: String,
    pub rule: LuminarRule,
    pub cpu_core_time: int,
    pub cpu_memory_time: int,
    pub gpu_device_time: int,
    pub gpu_memory_time: int,
    pub tracked_pids: Seq<u32>,
}

impl View for LuminarRuleTracker {
    type V = RTrackV;

    open spec fn view(&self) -> RTrackV {
        RTrackV {
            name: self.name,
            rule: self.rule,
            cpu_core_time: self.cpu_core_time as int,
            cpu_memory_time: self.cpu_memory_time as int,
            gpu_device_time: self.gpu_device_time as int,
            gpu_memory_time: self.gpu_memory_time as int,
            tracked_pids: self.tracked_pids@,
        }
    }
}

/// A rule tracker is consumed exactly when its integrated CPU core-time,
/// taken in whole minutes, has reached the rule's CPU budget, or likewise
/// for GPU device-time.  Memory-time accumulators play no part here.
pub open spec fn spec_consumed(t: RTrackV) -> bool {
    t.cpu_core_time / MICRO_CORE_SECONDS_PER_MINUTE as int >= t.rule.max_cpu_core_time
        || t.gpu_device_time / MICRO_CORE_SECONDS_PER_MINUTE as int >= t.rule.max_gpu_device_time
}

impl LuminarRuleTracker {
    /// Whether this rule's time budget is exhausted, so that the processes
    /// attributed to it must be terminated.
    pub fn is_consumed(&self) -> (r: bool)
        ensures
            r == spec_consumed(self@),
    {
        self.cpu_core_time / MICRO_CORE_SECONDS_PER_MINUTE >= self.rule.max_cpu_core_time as u128
            || self.gpu_device_time / MICRO_CORE_SECONDS_PER_MINUTE
            >= self.rule.max_gpu_device_time as u128
    }
}

/// Resource use of one user over the current logging period; reset to zero
/// after each flush of the daily ledger.
pub struct LuminarUserTrackerBackup {
    pub uid: u32,
    /// The user's name.
    pub name: String,
    /// Micro-core-seconds of CPU time.
    pub cpu_core_time: u128,
    /// MB-milliseconds of CPU memory residence.
    pub cpu_memory_time: u128,
    /// Micro-device-seconds of GPU time.
    pub gpu_device_time: u128,
    /// MB-milliseconds of GPU memory residence.
    pub gpu_memory_time: u128,
}

/// Mathematical model of a logging-period backup.
#[verifier::ext_equal]
pub struct BackupV {
    pub uid: u32,
    pub name: String,
    pub cpu_core_time: int,
    pub cpu_memory_time: int,
    pub gpu_device_time: int,
    pub gpu_memory_time: int,
}

impl View for LuminarUserTrackerBackup {
    type V = BackupV;

    open spec fn view(&self) -> BackupV {
        BackupV {
            uid: self.uid,
            name: self.name,
            cpu_core_time: self.cpu_core_time as int,
            cpu_memory_time: self.cpu_memory_time as int,
            gpu_device_time: self.gpu_device_time as int,
            gpu_memory_time: self.gpu_memory_time as int,
        }
    }
}

/// The backup with all four accumulators at zero.
pub open spec fn spec_reset(b: BackupV) -> BackupV {
    BackupV {
        uid: b.uid,
        name: b.name,
        cpu_core_time: 0,
        cpu_memory_time: 0,
        gpu_device_time: 0,
        gpu_memory_time: 0,
    }
}

impl LuminarUserTrackerBackup {
    /// Zero the accumulators, keeping the user's identity.
    pub fn reset(&mut self)
        ensures
            final(self)@ == spec_reset(old(self)@),
    {
        self.cpu_core_time = 0;
        self.cpu_memory_time = 0;
        self.gpu_device_time = 0;
        self.gpu_memory_time = 0;
    }

    /// Add one cycle's deltas to the four accumulators, saturating at the
    /// top of the range.
    pub fn add_usage(&mut self, d_cpu: u128, d_cmem: u128, d_gpu: u128, d_gmem: u128)
        ensures
            final(self).uid == old(self).uid,
            final(self).name == old(self).name,
            final(self).cpu_core_time as int == sat_add(old(self).cpu_core_time as int, d_cpu as int),
            final(self).cpu_memory_time as int == sat_add(
                old(self).cpu_memory_time as int,
                d_cmem as int,
            ),
            final(self).gpu_device_time as int == sat_add(
                old(self).gpu_device_time as int,
                d_gpu as int,
            ),
            final(self).gpu_memory_time as int == sat_add(
                old(self).gpu_memory_time as int,
                d_gmem as int,
            ),
    {
        self.cpu_core_time = sat_add_u128(self.cpu_core_time, d_cpu);
        self.cpu_memory_time = sat_add_u128(self.cpu_memory_time, d_cmem);
        self.gpu_device_time = sat_add_u128(self.gpu_device_time, d_gpu);
        self.gpu_memory_time = sat_add_u128(self.gpu_memory_time, d_gmem);
    }
}

/// One user's record: identity, whether the user is managed at all, and the
/// user's process and rule trackers.
pub struct LuminarUser {
    /// True exactly when this user is subject to management.
    pub luminar: bool,
    pub uid: u32,
    pub name: String,
    /// One tracker per process id ever sighted for this user.
    pub process_trackers: Vec<LuminarProcessTacker>,
    /// One tracker per rule of this user, in configuration order.
    pub rule_trackers: Vec<LuminarRuleTracker>,
}

/// Mathematical model of a user record.
#[verifier::ext_equal]
pub struct UserV {
    pub luminar: bool,
    pub uid: u32,
    pub name: String,
    pub process_trackers: Seq<PTackV>,
    pub rule_trackers: Seq<RTrackV>,
}

/// The models of a sequence of process trackers.
pub open spec fn ptracks_view(v: Seq<LuminarProcessTacker>) -> Seq<PTackV> {
    v.map_values(|t: LuminarProcessTacker| t@)
}

/// The models of a sequence of rule trackers.
pub open spec fn rtracks_view(v: Seq<LuminarRuleTracker>) -> Seq<RTrackV> {
    v.map_values(|t: LuminarRuleTracker| t@)
}

impl View for LuminarUser {
    type V = UserV;

    open spec fn view(&self) -> UserV {
        UserV {
            luminar: self.luminar,
            uid: self.uid,
            name: self.name,
            process_trackers: ptracks_view(self.process_trackers@),
            rule_trackers: rtracks_view(self.rule_trackers@),
        }
    }
}

} // verus!
