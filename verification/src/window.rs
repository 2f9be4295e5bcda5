//! The monitoring window: when a run starts and ends, and how often it
//! samples and backs up.
//!
//! Ticks are counted from zero. Tick `k` falls on the time
//! `start_ts + k * interval_sec`, and the run makes every tick that does not
//! fall after `end_ts`.

use vstd::prelude::*;

verus! {

/// Why a configuration is refused.
#[derive(Debug, Clone, Copy, PartialEq, Eq, Structural)]
pub enum ConfigError {
    /// The end time is not written as year-month-day-hour:minute:second.
    InvalidEndTime,
    /// The end time does not name one moment in the local time zone.
    AmbiguousEndTime,
    /// The end time is not after the start of the run.
    EndTimeNotInFuture,
    /// The sampling interval is not a positive number of seconds.
    InvalidInterval,
    /// The backup interval is not a positive number of seconds.
    InvalidBackupInterval,
}

/// The bounds and the periods of one run, in seconds since the epoch and in
/// seconds.
#[derive(Debug, Clone, Copy, PartialEq, Eq, Structural)]
pub struct MonitoringWindow {
    pub start_ts: u64,
    pub end_ts: u64,
    pub interval_sec: u64,
    pub backup_interval_sec: u64,
}

impl MonitoringWindow {
    /// Whether the window is well formed: it ends after it starts, and both
    /// periods are positive.
    pub open spec fn wf(&self) -> bool {
        &&& self.start_ts < self.end_ts
        &&& self.interval_sec > 0
        &&& self.backup_interval_sec > 0
    }

    /// The number of ticks of a run over this window.
    pub open spec fn ticks(&self) -> nat {
        ((self.end_ts - self.start_ts) / (self.interval_sec as int) + 1) as nat
    }

    /// The time of tick `k`.
    pub open spec fn tick_time(&self, k: nat) -> nat {
        self.start_ts as nat + k * self.interval_sec as nat
    }

    /// The number of ticks from one backup to the next: the least number of
    /// sampling intervals that make up a backup interval.
    pub open spec fn backup_stride(&self) -> nat {
        ((self.backup_interval_sec + self.interval_sec - 1) / (self.interval_sec as int)) as nat
    }

    /// Whether tick `k` writes a backup: every tick that is a multiple of the
    /// stride does, but for the first of the run.
    pub open spec fn backup_due(&self, k: nat) -> bool {
        k > 0 && k % self.backup_stride() == 0
    }

    /// The tick of the latest backup before tick `k`, or zero where there
    /// was none.
    pub open spec fn last_backup_tick(&self, k: nat) -> nat {
        if k == 0 {
            0
        } else {
            (((k - 1) / (self.backup_stride() as int)) * self.backup_stride()) as nat
        }
    }

    /// The window of a run that starts at `start_ts` and is to end at
    /// `end_ts`. It is refused where the end is not after the start, and
    /// where a period is zero.
    pub fn new(start_ts: u64, end_ts: i64, interval_sec: u64, backup_interval_sec: u64) -> (r:
        Result<MonitoringWindow, ConfigError>)
        ensures
            r == (if end_ts <= start_ts {
                Err::<MonitoringWindow, ConfigError>(ConfigError::EndTimeNotInFuture)
            } else if interval_sec == 0 {
                Err(ConfigError::InvalidInterval)
            } else if backup_interval_sec == 0 {
                Err(ConfigError::InvalidBackupInterval)
            } else {
                Ok(
                    (MonitoringWindow {
                        start_ts,
                        end_ts: end_ts as u64,
                        interval_sec,
                        backup_interval_sec,
                    }),
                )
            }),
            r is Ok ==> r.unwrap().wf(),
    {
        if end_ts < 0 || end_ts as u64 <= start_ts {
            Err(ConfigError::EndTimeNotInFuture)
        } else if interval_sec == 0 {
            Err(ConfigError::InvalidInterval)
        } else if backup_interval_sec == 0 {
            Err(ConfigError::InvalidBackupInterval)
        } else {
            Ok(MonitoringWindow { start_ts, end_ts: end_ts as u64, interval_sec, backup_interval_sec })
        }
    }

    /// The stride is positive, and it is the least number of sampling
    /// intervals that are no shorter than the backup interval.
    pub proof fn stride_is_least(&self, n: nat)
        requires
            self.wf(),
        ensures
            self.backup_stride() >= 1,
            n * self.interval_sec >= self.backup_interval_sec <==> n >= self.backup_stride(),
    {
        let i = self.interval_sec as int;
        let b = self.backup_interval_sec as int;
        let q = (b + i - 1) / i;
        let r = (b + i - 1) % i;
        assert(b + i - 1 == q * i + r && 0 <= r < i) by (nonlinear_arith)
            requires
                i > 0,
                q == (b + i - 1) / i,
                r == (b + i - 1) % i,
        ;
        assert(q >= 1) by (nonlinear_arith)
            requires
                b + i - 1 == q * i + r,
                0 <= r < i,
                b >= 1,
        ;
        if n >= q {
            assert(n * i >= b) by (nonlinear_arith)
                requires
                    n >= q,
                    b + i - 1 == q * i + r,
                    0 <= r < i,
            ;
        } else {
            assert(n * i < b) by (nonlinear_arith)
                requires
                    n <= q - 1,
                    n >= 0,
                    b + i - 1 == q * i + r,
                    0 <= r < i,
            ;
        }
    }

    /// The schedule of the backups. At tick `k` the time since the latest
    /// backup (or since the start, before the first) has reached the backup
    /// interval exactly where `k` is a positive multiple of the stride; and
    /// the latest backup before the next tick is then `k` itself, else the
    /// one before.
    pub proof fn backup_schedule(&self, k: nat)
        requires
            self.wf(),
        ensures
            self.last_backup_tick(k) <= k,
            (k - self.last_backup_tick(k)) * self.interval_sec >= self.backup_interval_sec
                <==> self.backup_due(k),
            self.last_backup_tick(k + 1) == (if self.backup_due(k) {
                k
            } else {
                self.last_backup_tick(k)
            }),
    {
        let q = self.backup_stride() as int;
        let n = k as int;
        self.stride_is_least(0);
        if n > 0 {
            let j = (n - 1) / q;
            let r = (n - 1) % q;
            assert(n - 1 == j * q + r && 0 <= r < q && j >= 0) by (nonlinear_arith)
                requires
                    q > 0,
                    n >= 1,
                    j == (n - 1) / q,
                    r == (n - 1) % q,
            ;
            assert(self.last_backup_tick(k) == j * q);
            self.stride_is_least((r + 1) as nat);
            assert(n - self.last_backup_tick(k) == r + 1);
            if r + 1 == q {
                assert(n == (j + 1) * q) by (nonlinear_arith)
                    requires
                        n - 1 == j * q + r,
                        r + 1 == q,
                ;
                assert(n % q == 0 && (n / q) * q == n) by (nonlinear_arith)
                    requires
                        n == (j + 1) * q,
                        q > 0,
                ;
            } else {
                assert(n == j * q + (r + 1));
                assert(n % q == r + 1 && n / q == j) by (nonlinear_arith)
                    requires
                        n == j * q + (r + 1),
                        0 < r + 1 < q,
                ;
            }
        } else {
            assert((0int / q) * q == 0) by (nonlinear_arith)
                requires
                    q > 0,
            ;
            assert(0int % q == 0) by (nonlinear_arith)
                requires
                    q > 0,
            ;
        }
    }
}

} // verus!
