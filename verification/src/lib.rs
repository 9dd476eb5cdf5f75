//! A per-machine, multi-tenant compute-resource governor.
//!
//! The library accumulates CPU and GPU consumption of every process that
//! belongs to a managed user, matches each process against a prioritized set
//! of per-user quota rules, and decides which processes must be terminated
//! once a matched rule's time budget is exhausted.  A rotating daily ledger
//! of per-user usage is kept alongside.
//!
//! All quantities are integers:
//! * usage fractions are in thousandths (`1000` = one full core or device),
//! * intervals and timestamps are in milliseconds,
//! * core-time accumulators are in micro-core-seconds
//!   (thousandths of usage times milliseconds),
//! * memory-time accumulators are in MB-milliseconds.
//!
//! Telemetry acquisition, configuration files, and the network control
//! socket are collaborators outside the library: they hand in plain values
//! (user accounts, per-cycle process snapshots, the current time) and carry
//! out the kill orders and log flushes that the library computes.

pub mod backend;
pub mod cfg;
pub mod command;
pub mod cycle;
pub mod logging;
pub mod protocol;
pub mod reception;
pub mod timesrc;
pub mod tracker;
pub mod units;

pub use backend::LuminarResManager;
pub use backend::LuminarUserAccount;
pub use backend::LuminarUserSnapshot;
pub use cfg::LuminarGlobalConfig;
pub use cfg::LuminarRule;
pub use cfg::LuminarRuleFilter;
pub use cfg::LuminarUserInfo;
pub use command::Command;
pub use command::LuminarArgs;
pub use cycle::KillCommand;
pub use cycle::KillReason;
pub use logging::LuminarLoggingSystem;
pub use tracker::LuminarProcessTacker;
pub use tracker::LuminarProcessUtil;
pub use tracker::LuminarRuleTracker;
pub use tracker::LuminarUser;
pub use tracker::LuminarUserTrackerBackup;
