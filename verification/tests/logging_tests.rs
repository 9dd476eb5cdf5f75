use luminar::LuminarLoggingSystem;
use luminar::LuminarUserTrackerBackup;

const DAY_MS: i64 = 86_400_000;

fn backup(uid: u32, name: &str, cpu: u128) -> LuminarUserTrackerBackup {
    LuminarUserTrackerBackup {
        uid,
        name: name.to_string(),
        cpu_core_time: cpu,
        cpu_memory_time: 2 * cpu,
        gpu_device_time: 3 * cpu,
        gpu_memory_time: 4 * cpu,
    }
}

fn system(next_log_time: i64) -> LuminarLoggingSystem {
    LuminarLoggingSystem {
        log_dir: "/tmp/ledger".to_string(),
        next_log_time,
        user_tracker_backups: vec![backup(1000, "alice", 10), backup(1001, "bob", 20)],
    }
}

#[test]
fn should_log_is_strictly_past_the_deadline() {
    let s = system(1000);
    assert!(!s.should_log(999));
    assert!(!s.should_log(1000));
    assert!(s.should_log(1001));
}

#[test]
fn no_flush_before_the_deadline_changes_nothing() {
    let mut s = system(1000);
    let flushed = s.log(1000);
    assert!(flushed.is_none());
    assert_eq!(s.next_log_time, 1000);
    assert_eq!(s.user_tracker_backups[0].cpu_core_time, 10);
    assert_eq!(s.user_tracker_backups[1].cpu_core_time, 20);
}

#[test]
fn flush_hands_out_totals_resets_backups_and_advances_a_day() {
    let mut s = system(1000);
    let flushed = s.log(2000).expect("a flush was due");
    assert_eq!(flushed.len(), 2);
    assert_eq!(flushed[0].uid, 1000);
    assert_eq!(flushed[0].name, "alice");
    assert_eq!(flushed[0].cpu_core_time, 10);
    assert_eq!(flushed[0].cpu_memory_time, 20);
    assert_eq!(flushed[0].gpu_device_time, 30);
    assert_eq!(flushed[0].gpu_memory_time, 40);
    assert_eq!(flushed[1].uid, 1001);
    assert_eq!(flushed[1].cpu_core_time, 20);
    assert_eq!(s.next_log_time, 1000 + DAY_MS);
    assert_eq!(s.log_dir, "/tmp/ledger");
    for b in &s.user_tracker_backups {
        assert_eq!(b.cpu_core_time, 0);
        assert_eq!(b.cpu_memory_time, 0);
        assert_eq!(b.gpu_device_time, 0);
        assert_eq!(b.gpu_memory_time, 0);
    }
    assert_eq!(s.user_tracker_backups[0].name, "alice");
    assert_eq!(s.user_tracker_backups[1].name, "bob");
}

#[test]
fn second_check_within_the_same_day_is_a_noop() {
    let mut s = system(1000);
    let first = s.log(2000);
    assert!(first.is_some());
    // Same sub-day interval: the deadline moved a whole day on, so the
    // second check flushes nothing and leaves the fresh backups unchanged.
    let second = s.log(2000);
    assert!(second.is_none());
    assert_eq!(s.next_log_time, 1000 + DAY_MS);
    let third = s.log(1000 + DAY_MS);
    assert!(third.is_none());
    // Only strictly past the new deadline does the next flush come.
    let fourth = s.log(1000 + DAY_MS + 1);
    assert!(fourth.is_some());
    assert_eq!(s.next_log_time, 1000 + 2 * DAY_MS);
}
