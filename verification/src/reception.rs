//! Assembly of per-cycle snapshots from raw telemetry readings: merging the
//! GPU devices' per-process readings into one map, joining it with the
//! process table, converting units, and grouping processes by user.
//!
//! The raw readings themselves come from the telemetry collaborator; every
//! computation on them is done here.

use vstd::prelude::*;

use crate::backend::LuminarUserSnapshot;
use crate::backend::SnapV;
use crate::backend::snaps_view;
use crate::tracker::LuminarProcessUtil;
use crate::tracker::UtilV;

verus! {

/// One compute process as one GPU device reports it.
#[derive(Clone, Copy, PartialEq, Eq, Structural, Debug)]
pub struct GpuComputeProcess {
    pub pid: u32,
    /// Used GPU memory in bytes.
    pub used_gpu_memory: u64,
}

/// One utilization sample as one GPU device reports it.
#[derive(Clone, Copy, PartialEq, Eq, Structural, Debug)]
pub struct GpuUtilizationSample {
    pub pid: u32,
    /// Streaming-multiprocessor utilization in percent.
    pub sm_util: u32,
}

/// Everything one GPU device reports for one cycle.
pub struct GpuDeviceSample {
    pub device_idx: u32,
    pub compute_processes: Vec<GpuComputeProcess>,
    pub utilization_samples: Vec<GpuUtilizationSample>,
}

/// Mathematical model of one device's readings.
#[verifier::ext_equal]
pub struct GpuDeviceSampleV {
    pub device_idx: u32,
    pub compute_processes: Seq<GpuComputeProcess>,
    pub utilization_samples: Seq<GpuUtilizationSample>,
}

impl View for GpuDeviceSample {
    type V = GpuDeviceSampleV;

    open spec fn view(&self) -> GpuDeviceSampleV {
        GpuDeviceSampleV {
            device_idx: self.device_idx,
            compute_processes: self.compute_processes@,
            utilization_samples: self.utilization_samples@,
        }
    }
}

/// The models of a sequence of device readings.
pub open spec fn devices_view(v: Seq<GpuDeviceSample>) -> Seq<GpuDeviceSampleV> {
    v.map_values(|d: GpuDeviceSample| d@)
}

/// One process's merged GPU reading: the device it runs on, its
/// streaming-multiprocessor utilization in percent, and its used GPU memory
/// in bytes.
#[derive(Clone, Copy, PartialEq, Eq, Structural, Debug)]
pub struct PidGpuInfo {
    pub pid: u32,
    pub device_id: u32,
    pub sm_util: u32,
    pub gpu_memory: u64,
}

/// The first merged reading of the given process id, if any.
pub open spec fn spec_find_gpu(infos: Seq<PidGpuInfo>, pid: u32) -> Option<int>
    decreases infos.len(),
{
    if infos.len() == 0 {
        None
    } else {
        match spec_find_gpu(infos.drop_last(), pid) {
            Some(i) => Some(i),
            None => if infos.last().pid == pid {
                Some(infos.len() - 1 as int)
            } else {
                None
            },
        }
    }
}

/// The first merged reading of a process id is in range and carries that id.
pub proof fn lemma_find_gpu_char(infos: Seq<PidGpuInfo>, pid: u32)
    ensures
        match spec_find_gpu(infos, pid) {
            None => forall|j: int| 0 <= j < infos.len() ==> (#[trigger] infos[j].pid) != pid,
            Some(i) => 0 <= i < infos.len() && infos[i].pid == pid,
        },
    decreases infos.len(),
{
    if infos.len() > 0 {
        lemma_find_gpu_char(infos.drop_last(), pid);
        assert(forall|j: int| 0 <= j < infos.len() - 1 ==> infos.drop_last()[j] == infos[j]);
    }
}

/// The index of the first merged reading of the given process id, if any.
pub fn find_gpu_index(infos: &Vec<PidGpuInfo>, pid: u32) -> (r: Option<usize>)
    ensures
        match r {
            Some(i) => spec_find_gpu(infos@, pid) == Some(i as int),
            None => spec_find_gpu(infos@, pid) is None,
        },
{
    let mut r: Option<usize> = None;
    let mut i: usize = 0;
    while i < infos.len()
        invariant
            i <= infos@.len(),
            match r {
                Some(j) => j < i && spec_find_gpu(infos@.take(i as int), pid) == Some(j as int),
                None => spec_find_gpu(infos@.take(i as int), pid) is None,
            },
        decreases infos@.len() - i,
    {
        proof {
            assert(infos@.take(i + 1).drop_last() =~= infos@.take(i as int));
            assert(infos@.take(i + 1).last() == infos@[i as int]);
        }
        if r.is_none() && infos[i].pid == pid {
            r = Some(i);
        }
        i = i + 1;
    }
    proof {
        assert(infos@.take(infos@.len() as int) =~= infos@);
    }
    r
}

/// One compute process recorded into the map: a fresh reading of that
/// process id (utilization zero until a sample arrives), replacing any
/// earlier reading of the same id.
pub open spec fn spec_insert_compute(
    infos: Seq<PidGpuInfo>,
    device_idx: u32,
    c: GpuComputeProcess,
) -> Seq<PidGpuInfo> {
    let fresh = PidGpuInfo {
        pid: c.pid,
        device_id: device_idx,
        sm_util: 0,
        gpu_memory: c.used_gpu_memory,
    };
    match spec_find_gpu(infos, c.pid) {
        Some(i) => infos.update(i, fresh),
        None => infos.push(fresh),
    }
}

/// All compute processes of one device recorded, in order.
pub open spec fn spec_fold_computes(
    infos: Seq<PidGpuInfo>,
    device_idx: u32,
    cs: Seq<GpuComputeProcess>,
) -> Seq<PidGpuInfo>
    decreases cs.len(),
{
    if cs.len() == 0 {
        infos
    } else {
        spec_insert_compute(spec_fold_computes(infos, device_idx, cs.drop_last()), device_idx, cs.last())
    }
}

/// One utilization sample applied: the reading of that process id, if one
/// exists, takes the sampled utilization.
pub open spec fn spec_apply_sample(
    infos: Seq<PidGpuInfo>,
    s: GpuUtilizationSample,
) -> Seq<PidGpuInfo> {
    match spec_find_gpu(infos, s.pid) {
        Some(i) => infos.update(
            i,
            PidGpuInfo {
                pid: infos[i].pid,
                device_id: infos[i].device_id,
                sm_util: s.sm_util,
                gpu_memory: infos[i].gpu_memory,
            },
        ),
        None => infos,
    }
}

/// All utilization samples of one device applied, in order.
pub open spec fn spec_fold_samples(
    infos: Seq<PidGpuInfo>,
    ss: Seq<GpuUtilizationSample>,
) -> Seq<PidGpuInfo>
    decreases ss.len(),
{
    if ss.len() == 0 {
        infos
    } else {
        spec_apply_sample(spec_fold_samples(infos, ss.drop_last()), ss.last())
    }
}

/// One device's readings merged into the map: its compute processes first,
/// then its utilization samples.
pub open spec fn spec_device_step(infos: Seq<PidGpuInfo>, d: GpuDeviceSampleV) -> Seq<PidGpuInfo> {
    spec_fold_samples(
        spec_fold_computes(infos, d.device_idx, d.compute_processes),
        d.utilization_samples,
    )
}

/// All devices' readings merged, device by device.
pub open spec fn spec_gpu_info_map(devices: Seq<GpuDeviceSampleV>) -> Seq<PidGpuInfo>
    decreases devices.len(),
{
    if devices.len() == 0 {
        Seq::empty()
    } else {
        spec_device_step(spec_gpu_info_map(devices.drop_last()), devices.last())
    }
}

impl PidGpuInfo {
    /// Record a sampled utilization for this reading.
    pub fn set_sm_util(&mut self, sm_util: u32)
        ensures
            *final(self) == (PidGpuInfo {
                pid: old(self).pid,
                device_id: old(self).device_id,
                sm_util,
                gpu_memory: old(self).gpu_memory,
            }),
    {
        self.sm_util = sm_util;
    }
}

/// Merge every GPU device's per-process readings into one map from process
/// id to device index, utilization and used memory: each device's compute
/// processes are recorded first (a process reported by two devices keeps
/// the later reading), then its utilization samples fill in the utilization
/// of the processes already recorded.
pub fn get_pid_gpu_info_map(devices: Vec<GpuDeviceSample>) -> (r: Vec<PidGpuInfo>)
    ensures
        r@ == spec_gpu_info_map(devices_view(devices@)),
{
    let ghost dv = devices_view(devices@);
    let mut ds = devices;
    let ghost orig = ds@;
    let mut out: Vec<PidGpuInfo> = Vec::new();
    while ds.len() > 0
        invariant
            ds@.len() <= orig.len(),
            ds@ == orig.skip(orig.len() - ds@.len()),
            dv == devices_view(orig),
            dv.len() == orig.len(),
            out@ == spec_gpu_info_map(dv.take(orig.len() - ds@.len())),
        decreases ds@.len(),
    {
        let ghost k = orig.len() - ds@.len();
        let d = ds.remove(0);
        proof {
            assert(orig.skip(k as int)[0] == orig[k as int]);
            assert(orig.skip(k as int).remove(0) =~= orig.skip(k as int + 1));
            assert(d@ == dv[k as int]);
            assert(dv.take(k as int + 1).drop_last() =~= dv.take(k as int));
            assert(dv.take(k as int + 1).last() == dv[k as int]);
        }
        let ghost pre = spec_gpu_info_map(dv.take(k as int));
        let device_idx = d.device_idx;
        let mut ci: usize = 0;
        while ci < d.compute_processes.len()
            invariant
                ci <= d.compute_processes@.len(),
                out@ == spec_fold_computes(
                    pre,
                    device_idx,
                    d.compute_processes@.take(ci as int),
                ),
            decreases d.compute_processes@.len() - ci,
        {
            proof {
                assert(d.compute_processes@.take(ci + 1).drop_last() =~= d.compute_processes@.take(
                    ci as int,
                ));
                assert(d.compute_processes@.take(ci + 1).last() == d.compute_processes@[ci as int]);
            }
            let c = d.compute_processes[ci];
            let fresh = PidGpuInfo {
                pid: c.pid,
                device_id: device_idx,
                sm_util: 0,
                gpu_memory: c.used_gpu_memory,
            };
            let fo = find_gpu_index(&out, c.pid);
            match fo {
                Some(i) => {
                    proof {
                        lemma_find_gpu_char(out@, c.pid);
                    }
                    let _ = out.remove(i);
                    out.insert(i, fresh);
                },
                None => {
                    out.push(fresh);
                },
            }
            ci = ci + 1;
        }
        proof {
            assert(d.compute_processes@.take(d.compute_processes@.len() as int)
                =~= d.compute_processes@);
        }
        let ghost after_computes = spec_fold_computes(
            pre,
            device_idx,
            dv[k as int].compute_processes,
        );
        let mut si: usize = 0;
        while si < d.utilization_samples.len()
            invariant
                si <= d.utilization_samples@.len(),
                out@ == spec_fold_samples(after_computes, d.utilization_samples@.take(si as int)),
            decreases d.utilization_samples@.len() - si,
        {
            proof {
                assert(d.utilization_samples@.take(si + 1).drop_last()
                    =~= d.utilization_samples@.take(si as int));
                assert(d.utilization_samples@.take(si + 1).last()
                    == d.utilization_samples@[si as int]);
            }
            let s = d.utilization_samples[si];
            let fo = find_gpu_index(&out, s.pid);
            match fo {
                Some(i) => {
                    proof {
                        lemma_find_gpu_char(out@, s.pid);
                    }
                    out[i].set_sm_util(s.sm_util);
                    proof {
                        assert(out@ =~= spec_apply_sample(
                            spec_fold_samples(
                                after_computes,
                                d.utilization_samples@.take(si as int),
                            ),
                            d.utilization_samples@[si as int],
                        ));
                    }
                },
                None => {
                },
            }
            si = si + 1;
        }
        proof {
            assert(d.utilization_samples@.take(d.utilization_samples@.len() as int)
                =~= d.utilization_samples@);
        }
    }
    proof {
        assert(dv.take(orig.len() as int) =~= dv);
    }
    out
}

/// One process as the telemetry collaborator reads it from the process
/// table: identity, owner, command line, CPU usage already scaled to
/// thousandths of a core, and resident memory in bytes.
pub struct RawProcessInfo {
    pub pid: u32,
    pub uid: u32,
    pub commond: Vec<String>,
    /// CPU usage in thousandths of a core.
    pub cpu_usage: u64,
    /// Resident CPU memory in bytes.
    pub cpu_memory_bytes: u64,
}

/// Mathematical model of one raw process reading.
#[verifier::ext_equal]
pub struct RawProcessInfoV {
    pub pid: u32,
    pub uid: u32,
    pub commond: Seq<String>,
    pub cpu_usage: u64,
    pub cpu_memory_bytes: u64,
}

impl View for RawProcessInfo {
    type V = RawProcessInfoV;

    open spec fn view(&self) -> RawProcessInfoV {
        RawProcessInfoV {
            pid: self.pid,
            uid: self.uid,
            commond: self.commond@,
            cpu_usage: self.cpu_usage,
            cpu_memory_bytes: self.cpu_memory_bytes,
        }
    }
}

/// The models of a sequence of raw process readings.
pub open spec fn raws_view(v: Seq<RawProcessInfo>) -> Seq<RawProcessInfoV> {
    v.map_values(|p: RawProcessInfo| p@)
}

/// The merged GPU reading of a process, or an all-zero reading on device 0
/// when the GPU reports nothing for it.
pub open spec fn spec_gpu_of(gpu: Seq<PidGpuInfo>, pid: u32) -> PidGpuInfo {
    match spec_find_gpu(gpu, pid) {
        Some(i) => gpu[i],
        None => PidGpuInfo { pid, device_id: 0, sm_util: 0, gpu_memory: 0 },
    }
}

/// One process observation assembled from its raw reading and the GPU map:
/// memory converted from bytes to MB, GPU utilization from percent to
/// thousandths.
pub open spec fn spec_util_of(raw: RawProcessInfoV, gpu: Seq<PidGpuInfo>) -> UtilV {
    let g = spec_gpu_of(gpu, raw.pid);
    UtilV {
        pid: raw.pid,
        commond: raw.commond,
        cpu_usage: raw.cpu_usage,
        cpu_memory: raw.cpu_memory_bytes / 1_000_000,
        device_id: g.device_id,
        gpu_usage: (g.sm_util * 10) as u64,
        gpu_memory: g.gpu_memory / 1_000_000,
    }
}

/// The first snapshot slice of the given user id, if any.
pub open spec fn spec_find_snap(snaps: Seq<SnapV>, uid: u32) -> Option<int>
    decreases snaps.len(),
{
    if snaps.len() == 0 {
        None
    } else {
        match spec_find_snap(snaps.drop_last(), uid) {
            Some(i) => Some(i),
            None => if snaps.last().uid == uid {
                Some(snaps.len() - 1 as int)
            } else {
                None
            },
        }
    }
}

/// The first snapshot slice of a user id is in range and carries that id.
pub proof fn lemma_find_snap_char(snaps: Seq<SnapV>, uid: u32)
    ensures
        match spec_find_snap(snaps, uid) {
            None => forall|j: int| 0 <= j < snaps.len() ==> (#[trigger] snaps[j].uid) != uid,
            Some(i) => 0 <= i < snaps.len() && snaps[i].uid == uid,
        },
    decreases snaps.len(),
{
    if snaps.len() > 0 {
        lemma_find_snap_char(snaps.drop_last(), uid);
        assert(forall|j: int| 0 <= j < snaps.len() - 1 ==> snaps.drop_last()[j] == snaps[j]);
    }
}

/// The index of the first snapshot slice of the given user id, if any.
pub fn find_snap_index(snaps: &Vec<LuminarUserSnapshot>, uid: u32) -> (r: Option<usize>)
    ensures
        match r {
            Some(i) => spec_find_snap(snaps_view(snaps@), uid) == Some(i as int),
            None => spec_find_snap(snaps_view(snaps@), uid) is None,
        },
{
    let ghost sv = snaps_view(snaps@);
    let mut r: Option<usize> = None;
    let mut i: usize = 0;
    while i < snaps.len()
        invariant
            i <= snaps@.len(),
            sv == snaps_view(snaps@),
            sv.len() == snaps@.len(),
            match r {
                Some(j) => j < i && spec_find_snap(sv.take(i as int), uid) == Some(j as int),
                None => spec_find_snap(sv.take(i as int), uid) is None,
            },
        decreases snaps@.len() - i,
    {
        proof {
            assert(sv.take(i + 1).drop_last() =~= sv.take(i as int));
            assert(sv.take(i + 1).last() == sv[i as int]);
        }
        if r.is_none() && snaps[i].uid == uid {
            r = Some(i);
        }
        i = i + 1;
    }
    proof {
        assert(sv.take(snaps@.len() as int) =~= sv);
    }
    r
}

/// One observation grouped under its user: appended to the user's existing
/// slice, or opening a new slice for a user not seen yet.
pub open spec fn spec_group_step(snaps: Seq<SnapV>, uid: u32, u: UtilV) -> Seq<SnapV> {
    match spec_find_snap(snaps, uid) {
        Some(i) => snaps.update(i, SnapV { uid, processes: snaps[i].processes.push(u) }),
        None => snaps.push(SnapV { uid, processes: Seq::empty().push(u) }),
    }
}

/// All raw readings assembled and grouped by user, in order.
pub open spec fn spec_group_fold(
    snaps: Seq<SnapV>,
    raws: Seq<RawProcessInfoV>,
    gpu: Seq<PidGpuInfo>,
) -> Seq<SnapV>
    decreases raws.len(),
{
    if raws.len() == 0 {
        snaps
    } else {
        let prev = spec_group_fold(snaps, raws.drop_last(), gpu);
        spec_group_step(prev, raws.last().uid, spec_util_of(raws.last(), gpu))
    }
}

/// The whole per-user snapshot of one cycle, assembled from the raw process
/// table and the merged GPU map.
pub open spec fn spec_uid_process_info_map(
    raws: Seq<RawProcessInfoV>,
    gpu: Seq<PidGpuInfo>,
) -> Seq<SnapV> {
    spec_group_fold(Seq::empty(), raws, gpu)
}

impl LuminarUserSnapshot {
    /// Append one observation to this user's slice.
    pub fn push_process(&mut self, u: LuminarProcessUtil)
        ensures
            final(self).uid == old(self).uid,
            final(self)@.processes == old(self)@.processes.push(u@),
    {
        self.processes.push(u);
    }
}

/// Assemble one cycle's per-user snapshot: for each raw process reading, in
/// order, look its GPU usage up in the merged map (zero when absent),
/// convert memory to MB and GPU utilization to thousandths, and group the
/// resulting observations by owning user, users in order of first sighting.
pub fn get_uid_process_info_map(
    raw_processes: Vec<RawProcessInfo>,
    gpu_info: &Vec<PidGpuInfo>,
) -> (r: Vec<LuminarUserSnapshot>)
    ensures
        snaps_view(r@) == spec_uid_process_info_map(raws_view(raw_processes@), gpu_info@),
{
    let ghost rv = raws_view(raw_processes@);
    let mut raws = raw_processes;
    let ghost orig = raws@;
    let mut out: Vec<LuminarUserSnapshot> = Vec::new();
    while raws.len() > 0
        invariant
            raws@.len() <= orig.len(),
            raws@ == orig.skip(orig.len() - raws@.len()),
            rv == raws_view(orig),
            rv.len() == orig.len(),
            snaps_view(out@) == spec_group_fold(
                Seq::empty(),
                rv.take(orig.len() - raws@.len()),
                gpu_info@,
            ),
        decreases raws@.len(),
    {
        let ghost k = orig.len() - raws@.len();
        let ghost prev = spec_group_fold(Seq::empty(), rv.take(k as int), gpu_info@);
        let p = raws.remove(0);
        proof {
            assert(orig.skip(k as int)[0] == orig[k as int]);
            assert(orig.skip(k as int).remove(0) =~= orig.skip(k as int + 1));
            assert(p@ == rv[k as int]);
            assert(rv.take(k as int + 1).drop_last() =~= rv.take(k as int));
            assert(rv.take(k as int + 1).last() == rv[k as int]);
        }
        let g = match find_gpu_index(gpu_info, p.pid) {
            Some(i) => {
                proof {
                    lemma_find_gpu_char(gpu_info@, p.pid);
                }
                gpu_info[i]
            },
            None => PidGpuInfo { pid: p.pid, device_id: 0, sm_util: 0, gpu_memory: 0 },
        };
        proof {
            assert(g == spec_gpu_of(gpu_info@, rv[k as int].pid));
        }
        let uid = p.uid;
        let util = LuminarProcessUtil {
            pid: p.pid,
            commond: p.commond,
            cpu_usage: p.cpu_usage,
            cpu_memory: p.cpu_memory_bytes / 1_000_000,
            device_id: g.device_id,
            gpu_usage: (g.sm_util as u64) * 10,
            gpu_memory: g.gpu_memory / 1_000_000,
        };
        proof {
            assert(util@ == spec_util_of(rv[k as int], gpu_info@));
        }
        let fo = find_snap_index(&out, uid);
        match fo {
            Some(i) => {
                proof {
                    lemma_find_snap_char(snaps_view(out@), uid);
                }
                out[i].push_process(util);
                proof {
                    assert(snaps_view(out@) =~~= spec_group_step(
                        prev,
                        rv[k as int].uid,
                        spec_util_of(rv[k as int], gpu_info@),
                    ));
                }
            },
            None => {
                let mut processes: Vec<LuminarProcessUtil> = Vec::new();
                processes.push(util);
                out.push(LuminarUserSnapshot { uid, processes });
                proof {
                    assert(snaps_view(out@) =~~= spec_group_step(
                        prev,
                        rv[k as int].uid,
                        spec_util_of(rv[k as int], gpu_info@),
                    ));
                }
            },
        }
    }
    proof {
        assert(rv.take(orig.len() as int) =~= rv);
    }
    out
}

} // verus!
