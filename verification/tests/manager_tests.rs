use luminar::KillCommand;
use luminar::KillReason;
use luminar::LuminarProcessUtil;
use luminar::LuminarResManager;
use luminar::LuminarRule;
use luminar::LuminarRuleFilter;
use luminar::LuminarUserAccount;
use luminar::LuminarUserInfo;
use luminar::LuminarUserSnapshot;

fn util(pid: u32, cpu_usage: u64, cpu_memory: u64, gpu_usage: u64, gpu_memory: u64) -> LuminarProcessUtil {
    LuminarProcessUtil {
        pid,
        commond: vec![],
        cpu_usage,
        cpu_memory,
        device_id: 0,
        gpu_usage,
        gpu_memory,
    }
}

fn rule(name: &str, priority: i32, cpu_min: u64, cpu_mem: u64, gpu_min: u64, gpu_mem: u64) -> LuminarRule {
    LuminarRule {
        name: name.to_string(),
        priority,
        max_cpu_core_time: cpu_min,
        max_cpu_memory: cpu_mem,
        max_gpu_device_time: gpu_min,
        max_gpu_memory: gpu_mem,
    }
}

fn account(uid: u32, name: &str) -> LuminarUserAccount {
    LuminarUserAccount { uid, name: name.to_string() }
}

fn snap(uid: u32, processes: Vec<LuminarProcessUtil>) -> LuminarUserSnapshot {
    LuminarUserSnapshot { uid, processes }
}

#[test]
fn construction_builds_one_record_and_backup_per_account() {
    let m = LuminarResManager::new(
        "/tmp/ledger".to_string(),
        vec![account(1000, "alice"), account(1001, "bob")],
        vec![LuminarUserInfo { name: "alice".to_string(), rules: vec![rule("r", 1, 1, 100, 1, 100)] }],
        vec![],
        vec![],
        2000,
        true,
    );
    assert_eq!(m.user_process_tracker.len(), 2);
    assert_eq!(m.logging_system.user_tracker_backups.len(), 2);
    assert!(m.user_process_tracker[0].luminar);
    assert_eq!(m.user_process_tracker[0].uid, 1000);
    assert_eq!(m.user_process_tracker[0].name, "alice");
    assert_eq!(m.user_process_tracker[0].rule_trackers.len(), 1);
    assert!(!m.user_process_tracker[1].luminar);
    assert!(m.user_process_tracker[1].rule_trackers.is_empty());
    assert_eq!(m.logging_system.user_tracker_backups[1].uid, 1001);
    assert_eq!(m.logging_system.user_tracker_backups[1].name, "bob");
    assert_eq!(m.logging_system.user_tracker_backups[1].cpu_core_time, 0);
    assert_eq!(m.logging_system.log_dir, "/tmp/ledger");
    assert_eq!(m.refresh_interval, 2000);
}

#[test]
fn construction_appends_common_rules_after_user_rules() {
    let m = LuminarResManager::new(
        "/tmp/ledger".to_string(),
        vec![account(1000, "alice")],
        vec![LuminarUserInfo { name: "alice".to_string(), rules: vec![rule("mine", 7, 1, 100, 1, 100)] }],
        vec![],
        vec![rule("all", -99, 64, 16384, 64, 16384)],
        2000,
        true,
    );
    let trackers = &m.user_process_tracker[0].rule_trackers;
    assert_eq!(trackers.len(), 2);
    assert_eq!(trackers[0].name, "mine");
    assert_eq!(trackers[1].name, "all");
    assert_eq!(trackers[1].rule.priority, -99);
}

#[test]
fn construction_lets_a_later_rule_of_the_same_name_win() {
    let m = LuminarResManager::new(
        "/tmp/ledger".to_string(),
        vec![account(1000, "alice")],
        vec![LuminarUserInfo {
            name: "alice".to_string(),
            rules: vec![rule("quota", 1, 1, 100, 1, 100), rule("other", 2, 2, 200, 2, 200)],
        }],
        vec![],
        vec![rule("quota", 9, 64, 16384, 64, 16384)],
        2000,
        true,
    );
    let trackers = &m.user_process_tracker[0].rule_trackers;
    // The common "quota" rule replaced the user's in place; order is kept.
    assert_eq!(trackers.len(), 2);
    assert_eq!(trackers[0].name, "quota");
    assert_eq!(trackers[0].rule.priority, 9);
    assert_eq!(trackers[1].name, "other");
}

#[test]
fn configured_name_without_account_is_skipped() {
    let m = LuminarResManager::new(
        "/tmp/ledger".to_string(),
        vec![account(1000, "alice")],
        vec![LuminarUserInfo { name: "ghost".to_string(), rules: vec![rule("r", 1, 1, 100, 1, 100)] }],
        vec![],
        vec![],
        2000,
        true,
    );
    assert!(!m.user_process_tracker[0].luminar);
    assert!(m.user_process_tracker[0].rule_trackers.is_empty());
}

fn one_user_manager(rules: Vec<LuminarRule>, filters: Vec<LuminarRuleFilter>, kill_on_no_match: bool) -> LuminarResManager {
    LuminarResManager::new(
        "/tmp/ledger".to_string(),
        vec![account(1000, "alice"), account(1001, "bob")],
        vec![LuminarUserInfo { name: "alice".to_string(), rules }],
        filters,
        vec![],
        1000,
        kill_on_no_match,
    )
}

#[test]
fn snapshot_of_unknown_uid_is_skipped() {
    let mut m = one_user_manager(vec![rule("r", 1, 1000, 1000, 1000, 1000)], vec![], true);
    let kills = m.monitor_update(vec![snap(4242, vec![util(7, 1000, 10, 0, 0)])], 0);
    assert!(kills.is_empty());
    assert!(m.user_process_tracker[0].process_trackers.is_empty());
}

#[test]
fn unmanaged_user_is_never_enforced_against() {
    let mut m = one_user_manager(vec![rule("r", 1, 1000, 1000, 1000, 1000)], vec![], true);
    // Bob is not in the configuration: no rules, no kills, no accounting.
    let kills = m.monitor_update(vec![snap(1001, vec![util(7, 1000, 10, 0, 0)])], 0);
    assert!(kills.is_empty());
    assert!(m.user_process_tracker[1].process_trackers.is_empty());
    assert_eq!(m.logging_system.user_tracker_backups[1].cpu_core_time, 0);
}

#[test]
fn filtered_process_is_dropped_before_rule_matching() {
    // No rule can match, and the kill-on-no-match policy is on; yet the
    // process that exceeds a filter ceiling is dropped, not killed.
    let filters = vec![LuminarRuleFilter {
        name: "tiny".to_string(),
        max_cpu_usage: 100,
        max_cpu_memory: 512,
        max_gpu_usage: 100,
        max_gpu_memory: 512,
    }];
    let mut m = one_user_manager(vec![], filters, true);
    let kills = m.monitor_update(
        vec![snap(1000, vec![util(7, 200, 10, 0, 0), util(8, 50, 10, 0, 0)])],
        0,
    );
    // Process 7 (cpu_usage 0.2) was filtered out entirely; process 8
    // (cpu_usage 0.05) was retained, matched no rule, and was killed.
    assert_eq!(
        kills,
        vec![KillCommand { uid: 1000, pid: 8, reason: KillReason::OutOfRules }]
    );
}

#[test]
fn end_to_end_consumption_scenario() {
    // One managed user, one rule with a one-core-minute budget and a
    // 2048 MB memory ceiling, a one-second interval; the same process is
    // reported at full usage and 100 MB every cycle.  Each cycle adds one
    // core-second, so the rule is consumed exactly when the accumulated
    // time reaches 60 s: the 60th cycle's consumption check fires first,
    // and while the process keeps being reported the kill is reissued.
    let mut m = one_user_manager(vec![rule("quota", 1, 1, 2048, 1000, 2048)], vec![], true);
    let mut kills_per_cycle: Vec<usize> = Vec::new();
    for cycle in 0..61 {
        let kills = m.monitor_update(
            vec![snap(1000, vec![util(42, 1000, 100, 0, 0)])],
            cycle * 1000,
        );
        for k in &kills {
            assert_eq!(*k, KillCommand { uid: 1000, pid: 42, reason: KillReason::RuleConsumed });
        }
        kills_per_cycle.push(kills.len());
    }
    for cycle in 0..59 {
        assert_eq!(kills_per_cycle[cycle], 0);
    }
    assert_eq!(kills_per_cycle[59], 1); // the 60th cycle
    assert_eq!(kills_per_cycle[60], 1); // reissued while still reported
    assert_eq!(m.user_process_tracker[0].rule_trackers[0].cpu_core_time, 61_000_000);
    assert_eq!(
        m.logging_system.user_tracker_backups[0].cpu_memory_time,
        61 * 100 * 1000
    );
}

#[test]
fn usage_report_converts_to_whole_minutes() {
    let mut m = one_user_manager(vec![rule("r", 1, 1000, 1000, 1000, 1000)], vec![], true);
    // 90 s at full usage and 120 MB: 1.5 core-minutes, 180 MB-minutes.
    m.monitor_update(vec![snap(1000, vec![util(7, 1000, 120, 0, 0)])], 0);
    for cycle in 1..90 {
        m.monitor_update(vec![snap(1000, vec![util(7, 1000, 120, 0, 0)])], cycle * 1000);
    }
    let rows = m.usage_report();
    assert_eq!(rows.len(), 2);
    assert_eq!(rows[0].name, "alice");
    assert_eq!(rows[0].cpu_core_minutes, 1); // floor(1.5)
    assert_eq!(rows[0].cpu_memory_mb_minutes, 180);
    assert_eq!(rows[0].gpu_device_minutes, 0);
    assert_eq!(rows[1].name, "bob");
    assert_eq!(rows[1].cpu_core_minutes, 0);
}

#[test]
fn kills_of_several_users_come_in_snapshot_order() {
    let mut m = LuminarResManager::new(
        "/tmp/ledger".to_string(),
        vec![account(1000, "alice"), account(1001, "bob")],
        vec![
            LuminarUserInfo { name: "alice".to_string(), rules: vec![] },
            LuminarUserInfo { name: "bob".to_string(), rules: vec![] },
        ],
        vec![],
        vec![],
        1000,
        true,
    );
    let kills = m.monitor_update(
        vec![snap(1001, vec![util(8, 10, 10, 0, 0)]), snap(1000, vec![util(7, 10, 10, 0, 0)])],
        0,
    );
    assert_eq!(
        kills,
        vec![
            KillCommand { uid: 1001, pid: 8, reason: KillReason::OutOfRules },
            KillCommand { uid: 1000, pid: 7, reason: KillReason::OutOfRules },
        ]
    );
}
