//! Configuration data model: quota rules, global rule filters, per-user rule
//! lists, and the global configuration record with its defaults.

use vstd::prelude::*;

use crate::tracker::LuminarProcessUtil;
use crate::tracker::UtilV;

verus! {

/// A named quota: instantaneous memory ceilings gate whether the rule matches
/// a process at all, and integrated time budgets (in minutes) gate
/// termination of the processes attributed to the rule.
pub struct LuminarRule {
    /// Unique within one user's rule set.
    pub name: String,
    /// Higher is preferred when several rules match a process.
    pub priority: i32,
    /// CPU time budget in core-minutes.
    pub max_cpu_core_time: u64,
    /// CPU memory ceiling in MB.
    pub max_cpu_memory: u64,
    /// GPU time budget in device-minutes.
    pub max_gpu_device_time: u64,
    /// GPU memory ceiling in MB.
    pub max_gpu_memory: u64,
}

impl LuminarRule {
    /// A rule matches a process exactly when the process sits strictly below
    /// both of the rule's memory ceilings.  Time budgets play no part here:
    /// they are enforced after attribution, not used for selection.
    pub open spec fn spec_match(self, p: UtilV) -> bool {
        p.cpu_memory < self.max_cpu_memory && p.gpu_memory < self.max_gpu_memory
    }

    pub fn match_process(&self, process_util: &LuminarProcessUtil) -> (r: bool)
        ensures
            r == self.spec_match(process_util@),
    {
        process_util.cpu_memory < self.max_cpu_memory
            && process_util.gpu_memory < self.max_gpu_memory
    }

    /// An explicit copy whose result is known to equal the original.
    pub fn duplicate(&self) -> (r: LuminarRule)
        ensures
            r == *self,
    {
        LuminarRule {
            name: self.name.clone(),
            priority: self.priority,
            max_cpu_core_time: self.max_cpu_core_time,
            max_cpu_memory: self.max_cpu_memory,
            max_gpu_device_time: self.max_gpu_device_time,
            max_gpu_memory: self.max_gpu_memory,
        }
    }
}

/// A global exemption predicate: a process that exceeds any threshold of any
/// configured filter is dropped from consideration entirely, before rule
/// matching.
pub struct LuminarRuleFilter {
    pub name: String,
    /// CPU usage ceiling in thousandths of a core.
    pub max_cpu_usage: u64,
    /// CPU memory ceiling in MB.
    pub max_cpu_memory: u64,
    /// GPU usage ceiling in thousandths of a device.
    pub max_gpu_usage: u64,
    /// GPU memory ceiling in MB.
    pub max_gpu_memory: u64,
}

impl LuminarRuleFilter {
    /// A filter retains a process exactly when the process exceeds none of
    /// the filter's four ceilings.
    pub open spec fn spec_retain(self, p: UtilV) -> bool {
        p.cpu_usage <= self.max_cpu_usage && p.cpu_memory <= self.max_cpu_memory
            && p.gpu_usage <= self.max_gpu_usage && p.gpu_memory <= self.max_gpu_memory
    }

    pub fn retain(&self, process_util: &LuminarProcessUtil) -> (r: bool)
        ensures
            r == self.spec_retain(process_util@),
    {
        process_util.cpu_usage <= self.max_cpu_usage
            && process_util.cpu_memory <= self.max_cpu_memory
            && process_util.gpu_usage <= self.max_gpu_usage
            && process_util.gpu_memory <= self.max_gpu_memory
    }

    /// An explicit copy whose result is known to equal the original.
    pub fn duplicate(&self) -> (r: LuminarRuleFilter)
        ensures
            r == *self,
    {
        LuminarRuleFilter {
            name: self.name.clone(),
            max_cpu_usage: self.max_cpu_usage,
            max_cpu_memory: self.max_cpu_memory,
            max_gpu_usage: self.max_gpu_usage,
            max_gpu_memory: self.max_gpu_memory,
        }
    }
}

/// A process is retained exactly when every configured filter retains it.
pub open spec fn spec_retained(filters: Seq<LuminarRuleFilter>, p: UtilV) -> bool {
    forall|i: int| 0 <= i < filters.len() ==> #[trigger] filters[i].spec_retain(p)
}

/// Whether every configured filter retains the process.
pub fn retained_by_all(filters: &Vec<LuminarRuleFilter>, process_util: &LuminarProcessUtil) -> (r:
    bool)
    ensures
        r == spec_retained(filters@, process_util@),
{
    let mut i: usize = 0;
    while i < filters.len()
        invariant
            i <= filters@.len(),
            forall|j: int| 0 <= j < i ==> #[trigger] filters@[j].spec_retain(process_util@),
        decreases filters@.len() - i,
    {
        if !filters[i].retain(process_util) {
            return false;
        }
        i = i + 1;
    }
    true
}

/// A managed user as configured: the user's name and the rules specific to
/// that user (the rules common to every managed user are appended at
/// construction time).
pub struct LuminarUserInfo {
    pub name: String,
    pub rules: Vec<LuminarRule>,
}

/// Mathematical model of a managed-user configuration entry.
#[verifier::ext_equal]
pub struct InfoV {
    pub name: String,
    pub rules: Seq<LuminarRule>,
}

impl View for LuminarUserInfo {
    type V = InfoV;

    open spec fn view(&self) -> InfoV {
        InfoV { name: self.name, rules: self.rules@ }
    }
}

/// The models of a sequence of managed-user configuration entries.
pub open spec fn infos_view(v: Seq<LuminarUserInfo>) -> Seq<InfoV> {
    v.map_values(|i: LuminarUserInfo| i@)
}

/// The machine-wide configuration handed to the library, already parsed and
/// validated by the configuration collaborator.
pub struct LuminarGlobalConfig {
    /// Local TCP port of the control server.
    pub port: u32,
    /// Accounting interval in milliseconds.
    pub refresh_interval: u64,
    /// Filters that exempt trivial processes from management.
    pub rule_filters: Vec<LuminarRuleFilter>,
    /// Rules appended to every managed user's rule list.
    pub common_rules: Vec<LuminarRule>,
}

impl LuminarGlobalConfig {
    /// The configuration written when no configuration file exists yet:
    /// port 3114, a two-second interval, one filter that exempts tiny
    /// processes, and one low-priority catch-all rule.
    pub fn default() -> (r: LuminarGlobalConfig)
        ensures
            r.port == 3114,
            r.refresh_interval == 2000,
            r.rule_filters@.len() == 1,
            r.rule_filters@[0].name@ == "tiny_process"@,
            r.rule_filters@[0].max_cpu_usage == 100,
            r.rule_filters@[0].max_cpu_memory == 512,
            r.rule_filters@[0].max_gpu_usage == 100,
            r.rule_filters@[0].max_gpu_memory == 512,
            r.common_rules@.len() == 1,
            r.common_rules@[0].name@ == "all"@,
            r.common_rules@[0].priority == -99,
            r.common_rules@[0].max_cpu_core_time == 64,
            r.common_rules@[0].max_cpu_memory == 16384,
            r.common_rules@[0].max_gpu_device_time == 64,
            r.common_rules@[0].max_gpu_memory == 16384,
    {
        let mut rule_filters: Vec<LuminarRuleFilter> = Vec::new();
        rule_filters.push(
            LuminarRuleFilter {
                name: "tiny_process".to_owned(),
                max_cpu_usage: 100,
                max_cpu_memory: 512,
                max_gpu_usage: 100,
                max_gpu_memory: 512,
            },
        );
        let mut common_rules: Vec<LuminarRule> = Vec::new();
        common_rules.push(
            LuminarRule {
                name: "all".to_owned(),
                priority: -99,
                max_cpu_core_time: 64,
                max_cpu_memory: 16384,
                max_gpu_device_time: 64,
                max_gpu_memory: 16384,
            },
        );
        LuminarGlobalConfig { port: 3114, refresh_interval: 2000, rule_filters, common_rules }
    }
}

/// Every rule carries a non-empty name.
pub open spec fn spec_rule_names_nonempty(rules: Seq<LuminarRule>) -> bool {
    forall|i: int| 0 <= i < rules.len() ==> #[trigger] rules[i].name@.len() > 0
}

/// No two rules share a name.
pub open spec fn spec_rule_names_unique(rules: Seq<LuminarRule>) -> bool {
    forall|i: int, j: int|
        0 <= i < j < rules.len() ==> #[trigger] rules[i].name@ != #[trigger] rules[j].name@
}

/// Whether every rule of the list carries a non-empty name.  The
/// configuration collaborator must establish this before construction.
pub fn rule_names_nonempty(rules: &Vec<LuminarRule>) -> (r: bool)
    ensures
        r == spec_rule_names_nonempty(rules@),
{
    let mut i: usize = 0;
    while i < rules.len()
        invariant
            i <= rules@.len(),
            forall|j: int| 0 <= j < i ==> #[trigger] rules@[j].name@.len() > 0,
        decreases rules@.len() - i,
    {
        if rules[i].name.as_str().is_empty() {
            return false;
        }
        i = i + 1;
    }
    true
}

/// Whether no two rules of the list share a name.  A collision would make a
/// later rule silently replace an earlier one at construction time, so a
/// strict deployment rejects such a configuration.
pub fn rule_names_unique(rules: &Vec<LuminarRule>) -> (r: bool)
    ensures
        r == spec_rule_names_unique(rules@),
{
    let mut i: usize = 0;
    while i < rules.len()
        invariant
            i <= rules@.len(),
            forall|a: int, b: int|
                0 <= a < b < rules@.len() && b < i ==> #[trigger] rules@[a].name@
                    != #[trigger] rules@[b].name@,
        decreases rules@.len() - i,
    {
        let mut j: usize = 0;
        while j < i
            invariant
                i < rules@.len(),
                j <= i,
                forall|a: int| 0 <= a < j ==> #[trigger] rules@[a].name@ != rules@[i as int].name@,
            decreases i - j,
        {
            if rules[j].name == rules[i].name {
                return false;
            }
            j = j + 1;
        }
        i = i + 1;
    }
    true
}

} // verus!
