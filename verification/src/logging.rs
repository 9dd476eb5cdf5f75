//! The rotating daily usage ledger: decides when a flush is due, hands the
//! flushed per-user totals out for persistence, resets the accumulators, and
//! advances the deadline by exactly one day.

use vstd::prelude::*;

use crate::tracker::BackupV;
use crate::tracker::LuminarUserTrackerBackup;
use crate::tracker::spec_reset;
use crate::units::MILLIS_PER_DAY;
use crate::units::sat_add_i64;
use crate::units::sat_add_time;

verus! {

/// The models of a sequence of logging-period backups.
pub open spec fn backups_view(v: Seq<LuminarUserTrackerBackup>) -> Seq<BackupV> {
    v.map_values(|b: LuminarUserTrackerBackup| b@)
}

/// Keeps one usage backup per known user and a deadline past which the
/// backups are flushed to the daily ledger.
pub struct LuminarLoggingSystem {
    /// Directory the ledger files are written under (by the persistence
    /// collaborator).
    pub log_dir: String,
    /// Timestamp in milliseconds past which the next flush is due.
    pub next_log_time: i64,
    /// One backup per known user, in the same order as the users of the
    /// resource manager.
    pub user_tracker_backups: Vec<LuminarUserTrackerBackup>,
}

/// Mathematical model of the logging system.
#[verifier::ext_equal]
pub struct LoggingV {
    pub log_dir: String,
    pub next_log_time: int,
    pub user_tracker_backups: Seq<BackupV>,
}

impl View for LuminarLoggingSystem {
    type V = LoggingV;

    open spec fn view(&self) -> LoggingV {
        LoggingV {
            log_dir: self.log_dir,
            next_log_time: self.next_log_time as int,
            user_tracker_backups: backups_view(self.user_tracker_backups@),
        }
    }
}

/// A flush is due exactly when the current time is strictly past the
/// deadline.
pub open spec fn spec_should_log(s: LoggingV, now: int) -> bool {
    now > s.next_log_time
}

impl LuminarLoggingSystem {
    /// Whether a flush is due at time `now`.
    pub fn should_log(&self, now: i64) -> (r: bool)
        ensures
            r == spec_should_log(self@, now as int),
    {
        now > self.next_log_time
    }

    /// The logging check.  When no flush is due this is a no-op and returns
    /// `None`.  When one is due, it returns the per-user totals of the
    /// closing period (for the persistence collaborator to write as one
    /// immutable ledger file), resets every backup to zero, and advances the
    /// deadline by exactly one day.
    pub fn log(&mut self, now: i64) -> (flushed: Option<Vec<LuminarUserTrackerBackup>>)
        ensures
            !spec_should_log(old(self)@, now as int) ==> {
                &&& flushed is None
                &&& *final(self) == *old(self)
            },
            spec_should_log(old(self)@, now as int) ==> {
                &&& flushed matches Some(v) && backups_view(v@) == old(
                    self,
                )@.user_tracker_backups
                &&& final(self)@.user_tracker_backups == old(
                    self,
                )@.user_tracker_backups.map_values(|b: BackupV| spec_reset(b))
                &&& final(self)@.next_log_time == sat_add_i64(
                    old(self)@.next_log_time,
                    MILLIS_PER_DAY as int,
                )
                &&& final(self)@.log_dir == old(self)@.log_dir
            },
    {
        if !self.should_log(now) {
            return None;
        }
        let ghost orig: Seq<LuminarUserTrackerBackup> = self.user_tracker_backups@;
        let mut flushed: Vec<LuminarUserTrackerBackup> = Vec::new();
        let mut fresh: Vec<LuminarUserTrackerBackup> = Vec::new();
        while self.user_tracker_backups.len() > 0
            invariant
                self.next_log_time == old(self).next_log_time,
                self.log_dir == old(self).log_dir,
                flushed@.len() + self.user_tracker_backups@.len() == orig.len(),
                flushed@ == orig.take(flushed@.len() as int),
                self.user_tracker_backups@ == orig.skip(flushed@.len() as int),
                fresh@.len() == flushed@.len(),
                forall|i: int|
                    0 <= i < fresh@.len() ==> #[trigger] fresh@[i]@ == spec_reset(orig[i]@),
            decreases self.user_tracker_backups@.len(),
        {
            let ghost k = flushed@.len() as int;
            let b = self.user_tracker_backups.remove(0);
            proof {
                assert(orig.skip(k).remove(0) =~= orig.skip(k + 1));
                assert(orig.skip(k)[0] == orig[k]);
            }
            fresh.push(
                LuminarUserTrackerBackup {
                    uid: b.uid,
                    name: b.name.clone(),
                    cpu_core_time: 0,
                    cpu_memory_time: 0,
                    gpu_device_time: 0,
                    gpu_memory_time: 0,
                },
            );
            flushed.push(b);
            proof {
                assert(flushed@ =~= orig.take(flushed@.len() as int));
            }
        }
        self.user_tracker_backups = fresh;
        self.next_log_time = sat_add_time(self.next_log_time, MILLIS_PER_DAY);
        proof {
            assert(flushed@ =~= orig);
            assert(backups_view(flushed@) =~= old(self)@.user_tracker_backups);
            assert(backups_view(self.user_tracker_backups@) =~= old(
                self,
            )@.user_tracker_backups.map_values(|b: BackupV| spec_reset(b)));
        }
        Some(flushed)
    }
}

/// Law: the logging check flushes at most once per sub-day interval.  After
/// a flush at time `now1`, any second check at a time `now2` that still lies
/// within one day of the old deadline finds no flush due (and the check's
/// contract then says it changes nothing).
pub proof fn lemma_log_flushes_once_per_day(pre: LoggingV, post: LoggingV, now1: int, now2: int)
    requires
        spec_should_log(pre, now1),
        post.next_log_time == sat_add_i64(pre.next_log_time, MILLIS_PER_DAY as int),
        now2 <= sat_add_i64(pre.next_log_time, MILLIS_PER_DAY as int),
    ensures
        !spec_should_log(post, now2),
{
}

} // verus!
