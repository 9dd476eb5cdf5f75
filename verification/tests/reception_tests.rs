use luminar::reception::GpuComputeProcess;
use luminar::reception::GpuDeviceSample;
use luminar::reception::GpuUtilizationSample;
use luminar::reception::PidGpuInfo;
use luminar::reception::RawProcessInfo;
use luminar::reception::get_pid_gpu_info_map;
use luminar::reception::get_uid_process_info_map;

fn device(
    device_idx: u32,
    compute: Vec<(u32, u64)>,
    samples: Vec<(u32, u32)>,
) -> GpuDeviceSample {
    GpuDeviceSample {
        device_idx,
        compute_processes: compute
            .into_iter()
            .map(|(pid, used_gpu_memory)| GpuComputeProcess { pid, used_gpu_memory })
            .collect(),
        utilization_samples: samples
            .into_iter()
            .map(|(pid, sm_util)| GpuUtilizationSample { pid, sm_util })
            .collect(),
    }
}

fn raw(pid: u32, uid: u32, cpu_usage: u64, cpu_memory_bytes: u64) -> RawProcessInfo {
    RawProcessInfo { pid, uid, commond: vec![], cpu_usage, cpu_memory_bytes }
}

#[test]
fn gpu_map_merges_computes_and_samples() {
    let devices = vec![device(0, vec![(1, 5_000_000)], vec![(1, 50)])];
    let map = get_pid_gpu_info_map(devices);
    assert_eq!(map, vec![PidGpuInfo { pid: 1, device_id: 0, sm_util: 50, gpu_memory: 5_000_000 }]);
}

#[test]
fn gpu_map_sample_without_compute_process_is_dropped() {
    let devices = vec![device(0, vec![(1, 5_000_000)], vec![(2, 50)])];
    let map = get_pid_gpu_info_map(devices);
    assert_eq!(map, vec![PidGpuInfo { pid: 1, device_id: 0, sm_util: 0, gpu_memory: 5_000_000 }]);
}

#[test]
fn gpu_map_later_device_overwrites_a_shared_pid() {
    let devices = vec![
        device(0, vec![(1, 5_000_000)], vec![(1, 50)]),
        device(1, vec![(2, 2_000_000), (1, 7_000_000)], vec![(2, 30)]),
    ];
    let map = get_pid_gpu_info_map(devices);
    // The second device re-recorded pid 1 (utilization reset to zero, no
    // new sample for it) and sampled pid 2; order of first sighting kept.
    assert_eq!(
        map,
        vec![
            PidGpuInfo { pid: 1, device_id: 1, sm_util: 0, gpu_memory: 7_000_000 },
            PidGpuInfo { pid: 2, device_id: 1, sm_util: 30, gpu_memory: 2_000_000 },
        ]
    );
}

#[test]
fn snapshot_groups_processes_by_user_in_sighting_order() {
    let gpu = vec![PidGpuInfo { pid: 2, device_id: 1, sm_util: 30, gpu_memory: 2_000_000 }];
    let raws = vec![
        raw(1, 10, 250, 3_500_000),
        raw(2, 20, 100, 1_000_000),
        raw(3, 10, 50, 999_999),
    ];
    let snaps = get_uid_process_info_map(raws, &gpu);
    assert_eq!(snaps.len(), 2);
    assert_eq!(snaps[0].uid, 10);
    assert_eq!(snaps[0].processes.len(), 2);
    assert_eq!(snaps[0].processes[0].pid, 1);
    assert_eq!(snaps[0].processes[1].pid, 3);
    assert_eq!(snaps[1].uid, 20);
    assert_eq!(snaps[1].processes.len(), 1);
    assert_eq!(snaps[1].processes[0].pid, 2);
}

#[test]
fn snapshot_converts_units_and_joins_gpu_data() {
    let gpu = vec![PidGpuInfo { pid: 2, device_id: 1, sm_util: 30, gpu_memory: 2_000_000 }];
    let raws = vec![raw(1, 10, 250, 3_500_000), raw(2, 10, 100, 1_000_000)];
    let snaps = get_uid_process_info_map(raws, &gpu);
    let p1 = &snaps[0].processes[0];
    // 3.5 million bytes floor to 3 MB; no GPU reading: zeroes on device 0.
    assert_eq!(p1.cpu_usage, 250);
    assert_eq!(p1.cpu_memory, 3);
    assert_eq!(p1.device_id, 0);
    assert_eq!(p1.gpu_usage, 0);
    assert_eq!(p1.gpu_memory, 0);
    let p2 = &snaps[0].processes[1];
    // 30 percent become 300 thousandths; 2 million bytes become 2 MB.
    assert_eq!(p2.device_id, 1);
    assert_eq!(p2.gpu_usage, 300);
    assert_eq!(p2.gpu_memory, 2);
}

#[test]
fn empty_telemetry_yields_empty_results() {
    assert_eq!(get_pid_gpu_info_map(vec![]), vec![]);
    let snaps = get_uid_process_info_map(vec![], &vec![]);
    assert!(snaps.is_empty());
}
