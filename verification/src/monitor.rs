//! The monitoring loop, one tick at a time.
//!
//! The caller owns the clock and the outside world: it takes a snapshot,
//! hands it to `tick`, writes the backup that `tick` asks for, sleeps for as
//! long as `tick` says, and goes on while the monitor is running. `tick`
//! folds the snapshot into the totals, decides whether a backup is due, and
//! moves the cursor to the next tick or ends the run.

use crate::snapshot::{usages, LogEntry};
use crate::totals::{folded, UsageTotals};
use crate::window::MonitoringWindow;
use vstd::prelude::*;

verus! {

/// Whether a run goes on.
#[derive(Debug, Clone, Copy, PartialEq, Eq, Structural)]
pub enum Phase {
    Running,
    Done,
}

/// What the caller is to do after a tick.
#[derive(Debug, Clone, Copy)]
pub struct TickAction {
    /// The time to stamp a backup with, where one is to be written now.
    pub backup_at: Option<u64>,
    /// The seconds to sleep before the next tick.
    pub sleep_sec: u64,
}

/// The state of a run.
pub struct Monitor {
    pub window: MonitoringWindow,
    pub totals: UsageTotals,
    /// The time of the next tick while the run goes on, and of the last tick
    /// once it is done.
    pub cursor: u64,
    /// The time of the latest backup, or the start of the run before the
    /// first.
    pub last_backup: u64,
    pub phase: Phase,
}

impl Monitor {
    /// The number of ticks made so far.
    pub open spec fn ticks_done(&self) -> nat {
        let whole = (self.cursor - self.window.start_ts) / (self.window.interval_sec as int);
        match self.phase {
            Phase::Running => whole as nat,
            Phase::Done => (whole + 1) as nat,
        }
    }

    /// Whether the state is one that a run can reach.
    pub open spec fn wf(&self) -> bool {
        &&& self.window.wf()
        &&& self.totals.wf()
        &&& self.window.start_ts <= self.cursor <= self.window.end_ts
        &&& (self.cursor - self.window.start_ts) % (self.window.interval_sec as int) == 0
        &&& self.phase == Phase::Done ==> self.cursor + self.window.interval_sec
            > self.window.end_ts
        &&& self.last_backup == self.window.tick_time(
            self.window.last_backup_tick(self.ticks_done()),
        )
    }

    /// A run makes exactly the ticks of its window: it goes on while fewer
    /// have been made, and is done when all have.
    pub proof fn ticks_are_counted(&self)
        requires
            self.wf(),
        ensures
            self.phase == Phase::Running <==> self.ticks_done() < self.window.ticks(),
            self.phase == Phase::Done <==> self.ticks_done() == self.window.ticks(),
            self.phase == Phase::Running ==> self.cursor == self.window.tick_time(
                self.ticks_done(),
            ),
    {
        let i = self.window.interval_sec as int;
        let c = self.cursor - self.window.start_ts;
        let e = self.window.end_ts - self.window.start_ts;
        let k = c / i;
        assert(c == k * i && k >= 0) by (nonlinear_arith)
            requires
                i > 0,
                c >= 0,
                c % i == 0,
                k == c / i,
        ;
        assert(e / i >= k) by (nonlinear_arith)
            requires
                i > 0,
                e >= c,
                c == k * i,
        ;
        if self.phase == Phase::Done {
            assert(e / i == k) by (nonlinear_arith)
                requires
                    i > 0,
                    c <= e < c + i,
                    c == k * i,
            ;
        }
    }

    /// The state at the start of a run: no totals, the first tick due at the
    /// start of the window.
    pub fn new(window: MonitoringWindow) -> (monitor: Monitor)
        requires
            window.wf(),
        ensures
            monitor.wf(),
            monitor.window == window,
            monitor.totals@ == Map::<Seq<char>, nat>::empty(),
            monitor.cursor == window.start_ts,
            monitor.last_backup == window.start_ts,
            monitor.phase == Phase::Running,
            monitor.ticks_done() == 0,
    {
        proof {
            let i = window.interval_sec as int;
            assert(0int / i == 0 && 0int % i == 0 && 0 * i == 0) by (nonlinear_arith)
                requires
                    i > 0,
            ;
            assert(window.tick_time(0) == window.start_ts);
        }
        Monitor {
            window,
            totals: UsageTotals::new(),
            cursor: window.start_ts,
            last_backup: window.start_ts,
            phase: Phase::Running,
        }
    }

    /// Whether the run goes on.
    pub fn is_running(&self) -> (b: bool)
        ensures
            b == (self.phase == Phase::Running),
    {
        match self.phase {
            Phase::Running => true,
            Phase::Done => false,
        }
    }

    /// Makes one tick with the snapshot taken for it.
    ///
    /// The entries are folded into the totals with the sampling interval. A
    /// backup is asked for where the time since the latest one has reached
    /// the backup interval, which is at every tick that is a positive
    /// multiple of the backup stride; it is stamped with the time of this
    /// tick. The run goes on where the next tick does not fall after the end
    /// of the window, and is done otherwise.
    pub fn tick(&mut self, entries: &Vec<LogEntry>) -> (action: TickAction)
        requires
            old(self).wf(),
            old(self).phase == Phase::Running,
        ensures
            final(self).wf(),
            final(self).window == old(self).window,
            final(self).totals@ == folded(
                old(self).totals@,
                usages(entries@),
                old(self).window.interval_sec as nat,
            ),
            action.sleep_sec == old(self).window.interval_sec,
            action.backup_at == (if old(self).cursor - old(self).last_backup >= old(
                self,
            ).window.backup_interval_sec {
                Some(old(self).cursor)
            } else {
                None
            }),
            action.backup_at is Some <==> old(self).window.backup_due(old(self).ticks_done()),
            final(self).last_backup == (if action.backup_at is Some {
                old(self).cursor
            } else {
                old(self).last_backup
            }),
            final(self).ticks_done() == old(self).ticks_done() + 1,
            final(self).phase == (if old(self).cursor + old(self).window.interval_sec <= old(
                self,
            ).window.end_ts {
                Phase::Running
            } else {
                Phase::Done
            }),
            final(self).cursor == (if final(self).phase == Phase::Running {
                old(self).cursor + old(self).window.interval_sec
            } else {
                old(self).cursor as int
            }),
    {
        let ghost k = self.ticks_done();
        let ghost i = self.window.interval_sec as int;
        let ghost c = self.cursor - self.window.start_ts;
        proof {
            self.ticks_are_counted();
            self.window.backup_schedule(k);
            let l = self.window.last_backup_tick(k) as int;
            assert(l * i <= k * i && (k - l) * i == k * i - l * i) by (nonlinear_arith)
                requires
                    0 <= l <= k,
                    i > 0,
            ;
        }
        self.totals.fold(entries, self.window.interval_sec);
        let due: bool = self.cursor - self.last_backup >= self.window.backup_interval_sec;
        let backup_at: Option<u64> = if due {
            Some(self.cursor)
        } else {
            None
        };
        if due {
            self.last_backup = self.cursor;
        }
        if self.window.end_ts - self.cursor >= self.window.interval_sec {
            self.cursor = self.cursor + self.window.interval_sec;
            proof {
                assert((c + i) / i == k + 1 && (c + i) % i == 0) by (nonlinear_arith)
                    requires
                        i > 0,
                        c == k * i,
                ;
            }
        } else {
            self.phase = Phase::Done;
        }
        TickAction { backup_at, sleep_sec: self.window.interval_sec }
    }
}

} // verus!
