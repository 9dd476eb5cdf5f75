use luminar::KillCommand;
use luminar::KillReason;
use luminar::LuminarProcessUtil;
use luminar::LuminarRule;
use luminar::LuminarRuleTracker;
use luminar::LuminarUser;
use luminar::LuminarUserTrackerBackup;
use luminar::cycle::best_match_index;

fn util(pid: u32, cpu_usage: u64, cpu_memory: u64, gpu_usage: u64, gpu_memory: u64) -> LuminarProcessUtil {
    LuminarProcessUtil {
        pid,
        commond: vec![],
        cpu_usage,
        cpu_memory,
        device_id: 0,
        gpu_usage,
        gpu_memory,
    }
}

fn rule(name: &str, priority: i32, cpu_min: u64, cpu_mem: u64, gpu_min: u64, gpu_mem: u64) -> LuminarRule {
    LuminarRule {
        name: name.to_string(),
        priority,
        max_cpu_core_time: cpu_min,
        max_cpu_memory: cpu_mem,
        max_gpu_device_time: gpu_min,
        max_gpu_memory: gpu_mem,
    }
}

fn tracker_of(r: LuminarRule) -> LuminarRuleTracker {
    LuminarRuleTracker {
        name: r.name.clone(),
        rule: r,
        cpu_core_time: 0,
        cpu_memory_time: 0,
        gpu_device_time: 0,
        gpu_memory_time: 0,
        tracked_pids: vec![],
    }
}

fn user_with(rules: Vec<LuminarRule>) -> LuminarUser {
    LuminarUser {
        luminar: true,
        uid: 1000,
        name: "alice".to_string(),
        process_trackers: vec![],
        rule_trackers: rules.into_iter().map(tracker_of).collect(),
    }
}

fn backup() -> LuminarUserTrackerBackup {
    LuminarUserTrackerBackup {
        uid: 1000,
        name: "alice".to_string(),
        cpu_core_time: 0,
        cpu_memory_time: 0,
        gpu_device_time: 0,
        gpu_memory_time: 0,
    }
}

#[test]
fn consumption_threshold_is_exactly_sixty_seconds() {
    // max_cpu_core_minutes = 1; core-time is in micro-core-seconds.
    let mut t = tracker_of(rule("r", 0, 1, 1000, 1000, 1000));
    t.cpu_core_time = 59_900_000; // 59.9 s
    assert!(!t.is_consumed());
    t.cpu_core_time = 60_000_000; // 60.0 s
    assert!(t.is_consumed());
}

#[test]
fn consumption_also_triggers_on_gpu_budget() {
    let mut t = tracker_of(rule("r", 0, 1000, 1000, 1, 1000));
    t.gpu_device_time = 59_999_999;
    assert!(!t.is_consumed());
    t.gpu_device_time = 60_000_000;
    assert!(t.is_consumed());
}

#[test]
fn priority_tie_break_prefers_higher_priority() {
    // Both rules match; the priority-5 rule wins over the priority minus 99
    // one whatever their order.
    let low_first = vec![
        tracker_of(rule("low", -99, 10, 1000, 10, 1000)),
        tracker_of(rule("high", 5, 10, 1000, 10, 1000)),
    ];
    let p = util(7, 100, 10, 0, 0);
    assert_eq!(best_match_index(&low_first, &p), Some(1));
    let high_first = vec![
        tracker_of(rule("high", 5, 10, 1000, 10, 1000)),
        tracker_of(rule("low", -99, 10, 1000, 10, 1000)),
    ];
    assert_eq!(best_match_index(&high_first, &p), Some(0));
}

#[test]
fn equal_priority_goes_to_the_earlier_rule() {
    let trackers = vec![
        tracker_of(rule("first", 3, 10, 1000, 10, 1000)),
        tracker_of(rule("second", 3, 10, 1000, 10, 1000)),
    ];
    assert_eq!(best_match_index(&trackers, &util(7, 0, 10, 0, 0)), Some(0));
}

#[test]
fn no_match_returns_none() {
    let trackers = vec![tracker_of(rule("r", 0, 10, 100, 10, 100))];
    assert_eq!(best_match_index(&trackers, &util(7, 0, 100, 0, 0)), None);
}

#[test]
fn attribution_is_exclusive_to_the_best_match() {
    let mut u = user_with(vec![
        rule("low", -99, 10, 1000, 10, 1000),
        rule("high", 5, 10, 1000, 10, 1000),
    ]);
    let mut b = backup();
    let kills = u.apply_cycle(&mut b, vec![util(7, 100, 10, 0, 0)], 1000, 0, true);
    assert!(kills.is_empty());
    assert_eq!(u.rule_trackers[0].tracked_pids, Vec::<u32>::new());
    assert_eq!(u.rule_trackers[1].tracked_pids, vec![7]);
}

#[test]
fn cycle_accumulates_the_four_deltas() {
    let mut u = user_with(vec![rule("r", 0, 1000, 1000, 1000, 1000)]);
    let mut b = backup();
    // usage 0.5 core, 100 MB, 0.25 device, 10 MB GPU over a 2 s interval.
    let kills = u.apply_cycle(&mut b, vec![util(7, 500, 100, 250, 10)], 2000, 5000, true);
    assert!(kills.is_empty());
    let rt = &u.rule_trackers[0];
    assert_eq!(rt.cpu_core_time, 1_000_000); // 1 core-second
    assert_eq!(rt.cpu_memory_time, 200_000); // 200 MB-seconds
    assert_eq!(rt.gpu_device_time, 500_000); // 0.5 device-seconds
    assert_eq!(rt.gpu_memory_time, 20_000); // 20 MB-seconds
    let pt = &u.process_trackers[0];
    assert_eq!(pt.pid, 7);
    assert_eq!(pt.start_time, 5000);
    assert_eq!(pt.running_time, 0);
    assert_eq!(pt.cpu_core_time, 1_000_000);
    assert_eq!(b.cpu_core_time, 1_000_000);
    assert_eq!(b.cpu_memory_time, 200_000);
    assert_eq!(b.gpu_device_time, 500_000);
    assert_eq!(b.gpu_memory_time, 20_000);
}

#[test]
fn accumulators_never_decrease_across_cycles() {
    let mut u = user_with(vec![rule("r", 0, 1000, 1000, 1000, 1000)]);
    let mut b = backup();
    let mut last_rt: u128 = 0;
    let mut last_pt: u128 = 0;
    let mut last_b: u128 = 0;
    for cycle in 0..5 {
        let usage = if cycle % 2 == 0 { 300 } else { 0 };
        u.apply_cycle(&mut b, vec![util(7, usage, 50, 0, 0)], 1000, cycle * 1000, true);
        assert!(u.rule_trackers[0].cpu_core_time >= last_rt);
        assert!(u.process_trackers[0].cpu_core_time >= last_pt);
        assert!(b.cpu_core_time >= last_b);
        last_rt = u.rule_trackers[0].cpu_core_time;
        last_pt = u.process_trackers[0].cpu_core_time;
        last_b = b.cpu_core_time;
    }
}

#[test]
fn tracked_pids_are_cleared_and_rebuilt_each_cycle() {
    let mut u = user_with(vec![rule("r", 0, 1000, 1000, 1000, 1000)]);
    let mut b = backup();
    u.apply_cycle(&mut b, vec![util(7, 100, 10, 0, 0)], 1000, 0, true);
    assert_eq!(u.rule_trackers[0].tracked_pids, vec![7]);
    // The process vanished: the stale attribution must not persist.
    u.apply_cycle(&mut b, vec![], 1000, 1000, true);
    assert_eq!(u.rule_trackers[0].tracked_pids, Vec::<u32>::new());
}

#[test]
fn out_of_bounds_process_is_killed_when_the_policy_says_so() {
    let mut u = user_with(vec![rule("r", 0, 10, 100, 10, 100)]);
    let mut b = backup();
    let kills = u.apply_cycle(&mut b, vec![util(7, 100, 200, 0, 0)], 1000, 0, true);
    assert_eq!(
        kills,
        vec![KillCommand { uid: 1000, pid: 7, reason: KillReason::OutOfRules }]
    );
    // Such a process is never tracked.
    assert!(u.process_trackers.is_empty());
    assert_eq!(b.cpu_core_time, 0);
}

#[test]
fn out_of_bounds_process_is_left_alone_when_the_policy_says_not() {
    let mut u = user_with(vec![rule("r", 0, 10, 100, 10, 100)]);
    let mut b = backup();
    let kills = u.apply_cycle(&mut b, vec![util(7, 100, 200, 0, 0)], 1000, 0, false);
    assert!(kills.is_empty());
    assert!(u.process_trackers.is_empty());
}

#[test]
fn consumed_rule_kills_every_attributed_process() {
    let mut u = user_with(vec![rule("r", 0, 1, 1000, 1000, 1000)]);
    let mut b = backup();
    // One cycle of two processes at full usage over 30 s reaches the one
    // core-minute budget: 2 x 30 s = 60 s.
    let kills = u.apply_cycle(
        &mut b,
        vec![util(7, 1000, 10, 0, 0), util(8, 1000, 10, 0, 0)],
        30_000,
        0,
        true,
    );
    assert_eq!(
        kills,
        vec![
            KillCommand { uid: 1000, pid: 7, reason: KillReason::RuleConsumed },
            KillCommand { uid: 1000, pid: 8, reason: KillReason::RuleConsumed },
        ]
    );
}

#[test]
fn running_time_tracks_elapsed_time_since_first_sighting() {
    let mut u = user_with(vec![rule("r", 0, 1000, 1000, 1000, 1000)]);
    let mut b = backup();
    u.apply_cycle(&mut b, vec![util(7, 100, 10, 0, 0)], 1000, 10_000, true);
    assert_eq!(u.process_trackers[0].start_time, 10_000);
    assert_eq!(u.process_trackers[0].running_time, 0);
    u.apply_cycle(&mut b, vec![util(7, 100, 10, 0, 0)], 1000, 13_500, true);
    assert_eq!(u.process_trackers[0].start_time, 10_000);
    assert_eq!(u.process_trackers[0].running_time, 3_500);
}

#[test]
fn latest_observation_is_kept_on_the_tracker() {
    let mut u = user_with(vec![rule("r", 0, 1000, 1000, 1000, 1000)]);
    let mut b = backup();
    u.apply_cycle(&mut b, vec![util(7, 100, 10, 0, 0)], 1000, 0, true);
    u.apply_cycle(&mut b, vec![util(7, 900, 42, 0, 0)], 1000, 1000, true);
    assert_eq!(u.process_trackers.len(), 1);
    assert_eq!(u.process_trackers[0].utility.cpu_usage, 900);
    assert_eq!(u.process_trackers[0].utility.cpu_memory, 42);
}

#[test]
fn backup_reset_zeroes_accumulators_and_keeps_identity() {
    let mut b = LuminarUserTrackerBackup {
        uid: 5,
        name: "bob".to_string(),
        cpu_core_time: 1,
        cpu_memory_time: 2,
        gpu_device_time: 3,
        gpu_memory_time: 4,
    };
    b.reset();
    assert_eq!(b.uid, 5);
    assert_eq!(b.name, "bob");
    assert_eq!(b.cpu_core_time, 0);
    assert_eq!(b.cpu_memory_time, 0);
    assert_eq!(b.gpu_device_time, 0);
    assert_eq!(b.gpu_memory_time, 0);
}
