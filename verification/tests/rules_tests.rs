use luminar::LuminarGlobalConfig;
use luminar::LuminarProcessUtil;
use luminar::LuminarRule;
use luminar::LuminarRuleFilter;
use luminar::cfg::retained_by_all;
use luminar::cfg::rule_names_nonempty;
use luminar::cfg::rule_names_unique;

fn util(pid: u32, cpu_usage: u64, cpu_memory: u64, gpu_usage: u64, gpu_memory: u64) -> LuminarProcessUtil {
    LuminarProcessUtil {
        pid,
        commond: vec![],
        cpu_usage,
        cpu_memory,
        device_id: 0,
        gpu_usage,
        gpu_memory,
    }
}

fn rule(name: &str, priority: i32, cpu_min: u64, cpu_mem: u64, gpu_min: u64, gpu_mem: u64) -> LuminarRule {
    LuminarRule {
        name: name.to_string(),
        priority,
        max_cpu_core_time: cpu_min,
        max_cpu_memory: cpu_mem,
        max_gpu_device_time: gpu_min,
        max_gpu_memory: gpu_mem,
    }
}

#[test]
fn match_predicate_strictly_below_ceilings() {
    let r = rule("r", 0, 10, 1000, 10, 1000);
    assert!(r.match_process(&util(1, 0, 999, 0, 0)));
    assert!(!r.match_process(&util(1, 0, 1000, 0, 0)));
    assert!(!r.match_process(&util(1, 0, 999, 0, 1000)));
    assert!(r.match_process(&util(1, 0, 999, 0, 999)));
}

#[test]
fn filter_drops_exceeding_process_and_retains_small_one() {
    // A filter with a CPU-usage ceiling of 0.1 of a core (100 thousandths).
    let f = LuminarRuleFilter {
        name: "tiny".to_string(),
        max_cpu_usage: 100,
        max_cpu_memory: 512,
        max_gpu_usage: 100,
        max_gpu_memory: 512,
    };
    // cpu_usage 0.2 exceeds the ceiling: dropped.
    assert!(!f.retain(&util(1, 200, 10, 0, 0)));
    // cpu_usage 0.05, memory below the ceiling, GPU fields zero: retained.
    assert!(f.retain(&util(1, 50, 10, 0, 0)));
    let filters = vec![f];
    assert!(!retained_by_all(&filters, &util(1, 200, 10, 0, 0)));
    assert!(retained_by_all(&filters, &util(1, 50, 10, 0, 0)));
}

#[test]
fn filter_is_an_or_of_exceedances() {
    let f = LuminarRuleFilter {
        name: "f".to_string(),
        max_cpu_usage: 100,
        max_cpu_memory: 512,
        max_gpu_usage: 100,
        max_gpu_memory: 512,
    };
    assert!(!f.retain(&util(1, 0, 513, 0, 0)));
    assert!(!f.retain(&util(1, 0, 0, 101, 0)));
    assert!(!f.retain(&util(1, 0, 0, 0, 513)));
    assert!(f.retain(&util(1, 100, 512, 100, 512)));
}

#[test]
fn every_filter_must_retain() {
    let loose = LuminarRuleFilter {
        name: "loose".to_string(),
        max_cpu_usage: 1000,
        max_cpu_memory: 10000,
        max_gpu_usage: 1000,
        max_gpu_memory: 10000,
    };
    let strict = LuminarRuleFilter {
        name: "strict".to_string(),
        max_cpu_usage: 10,
        max_cpu_memory: 10000,
        max_gpu_usage: 1000,
        max_gpu_memory: 10000,
    };
    let filters = vec![loose, strict];
    assert!(!retained_by_all(&filters, &util(1, 50, 10, 0, 0)));
    assert!(retained_by_all(&filters, &util(1, 5, 10, 0, 0)));
}

#[test]
fn default_configuration_values() {
    let cfg = LuminarGlobalConfig::default();
    assert_eq!(cfg.port, 3114);
    assert_eq!(cfg.refresh_interval, 2000);
    assert_eq!(cfg.rule_filters.len(), 1);
    assert_eq!(cfg.rule_filters[0].name, "tiny_process");
    assert_eq!(cfg.rule_filters[0].max_cpu_usage, 100);
    assert_eq!(cfg.rule_filters[0].max_cpu_memory, 512);
    assert_eq!(cfg.rule_filters[0].max_gpu_usage, 100);
    assert_eq!(cfg.rule_filters[0].max_gpu_memory, 512);
    assert_eq!(cfg.common_rules.len(), 1);
    assert_eq!(cfg.common_rules[0].name, "all");
    assert_eq!(cfg.common_rules[0].priority, -99);
    assert_eq!(cfg.common_rules[0].max_cpu_core_time, 64);
    assert_eq!(cfg.common_rules[0].max_cpu_memory, 16384);
    assert_eq!(cfg.common_rules[0].max_gpu_device_time, 64);
    assert_eq!(cfg.common_rules[0].max_gpu_memory, 16384);
}

#[test]
fn rule_name_validation() {
    let good = vec![rule("a", 0, 1, 1, 1, 1), rule("b", 0, 1, 1, 1, 1)];
    assert!(rule_names_nonempty(&good));
    assert!(rule_names_unique(&good));
    let empty_name = vec![rule("", 0, 1, 1, 1, 1)];
    assert!(!rule_names_nonempty(&empty_name));
    let dup = vec![rule("a", 0, 1, 1, 1, 1), rule("a", 1, 2, 2, 2, 2)];
    assert!(!rule_names_unique(&dup));
}

#[test]
fn rule_duplicate_copies_every_field() {
    let r = rule("quota", -3, 7, 11, 13, 17);
    let c = r.duplicate();
    assert_eq!(c.name, "quota");
    assert_eq!(c.priority, -3);
    assert_eq!(c.max_cpu_core_time, 7);
    assert_eq!(c.max_cpu_memory, 11);
    assert_eq!(c.max_gpu_device_time, 13);
    assert_eq!(c.max_gpu_memory, 17);
}
