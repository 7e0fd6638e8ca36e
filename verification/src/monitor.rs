//! Status monitor.
//!
//! The monitor keeps a rolling window of completed-operation history —
//! bounded, oldest evicted on overflow — computes windowed performance
//! statistics from it, and publishes one complete system snapshot at a time.
//! Each published snapshot carries a timestamp no older than the previous
//! one, so no reader ever observes a snapshot older than one it already saw.

use vstd::prelude::*;

use crate::link::FpgaStatus;
use crate::memory::MemoryUsage;
use crate::scheduler::{spec_age, QueueStatus};
use crate::types::OperationStatus;

verus! {

/// Capacity of the rolling operation history.
pub const MAX_HISTORY_SIZE: usize = 1000;

/// Monitoring tick interval, in milliseconds.
pub const MONITORING_INTERVAL_MS: u64 = 1000;

/// Width of the statistics window, in milliseconds.
pub const STATS_WINDOW_MS: u64 = 60000;

/// One completed operation in the history window.
#[derive(Debug, Clone, Copy, PartialEq, Eq, Structural)]
pub struct OperationMetrics {
    /// Start timestamp of the operation, in milliseconds.
    pub timestamp: u64,
    /// Duration of the operation, in milliseconds.
    pub duration: u64,
    /// Terminal status.
    pub status: OperationStatus,
}

/// Windowed performance statistics, in plain integers.
#[derive(Debug, Clone, Copy, PartialEq, Eq, Structural)]
pub struct PerformanceStats {
    /// Operations per second over the window, scaled by 1000.
    pub ops_per_second_milli: u64,
    /// Mean latency over the window, in milliseconds.
    pub avg_latency_ms: u64,
    /// Peak memory use as a fraction of the pool, in per-mille.
    pub peak_memory_permille: u32,
    /// Hardware utilization, in per-mille.
    pub fpga_utilization: u32,
}

/// The published snapshot: hardware health, memory usage, one queue
/// projection per unit, windowed statistics, and the snapshot timestamp.
#[derive(Debug, Clone)]
pub struct SystemStatus {
    /// Hardware link status.
    pub fpga: FpgaStatus,
    /// Memory pool usage.
    pub memory: MemoryUsage,
    /// Queue projection of each unit.
    pub unit_queues: Vec<QueueStatus>,
    /// Windowed performance statistics.
    pub performance: PerformanceStats,
    /// Snapshot timestamp in milliseconds, non-decreasing across snapshots.
    pub timestamp: u64,
}

/// An entry started within the statistics window ending at `now`.
pub open spec fn in_window(m: OperationMetrics, now: u64) -> bool {
    spec_age(now, m.timestamp) < STATS_WINDOW_MS
}

/// Number of history entries inside the window.
pub open spec fn count_in_window(h: Seq<OperationMetrics>, now: u64) -> int
    decreases h.len(),
{
    if h.len() == 0 {
        0
    } else {
        count_in_window(h.drop_last(), now) + if in_window(h.last(), now) {
            1int
        } else {
            0int
        }
    }
}

/// Sum of the durations of the history entries inside the window.
pub open spec fn sum_durations_in_window(h: Seq<OperationMetrics>, now: u64) -> int
    decreases h.len(),
{
    if h.len() == 0 {
        0
    } else {
        sum_durations_in_window(h.drop_last(), now) + if in_window(h.last(), now) {
            h.last().duration as int
        } else {
            0int
        }
    }
}

/// The timestamp the next snapshot will carry: the clock reading, but never
/// older than the timestamp already published.
pub open spec fn spec_next_timestamp(prev: u64, now: u64) -> u64 {
    if now >= prev {
        now
    } else {
        prev
    }
}

/// Snapshot monotonicity law: every published snapshot carries a timestamp
/// at least as large as the one before it, so a reader never observes a
/// snapshot older than one it already saw — see `Monitor::tick`, whose
/// contract publishes exactly `spec_next_timestamp` of the previous
/// timestamp and the clock.
pub proof fn lemma_snapshot_monotonicity(prev: u64, now: u64)
    ensures
        spec_next_timestamp(prev, now) >= prev,
        spec_next_timestamp(prev, now) >= now,
{
}

/// The system monitor: rolling history plus the latest published snapshot.
pub struct Monitor {
    history: Vec<OperationMetrics>,
    snapshot: SystemStatus,
}

impl Monitor {
    /// The rolling history, oldest first.
    pub closed spec fn history(&self) -> Seq<OperationMetrics> {
        self.history@
    }

    /// The latest published snapshot.
    pub closed spec fn snapshot(&self) -> SystemStatus {
        self.snapshot
    }

    /// Well-formedness: the history never exceeds its capacity.
    pub open spec fn wf(&self) -> bool {
        self.history().len() <= MAX_HISTORY_SIZE
    }

    /// Create a new monitor with an empty history and a zeroed snapshot.
    pub fn new() -> (r: Monitor)
        ensures
            r.wf(),
            r.history() =~= Seq::<OperationMetrics>::empty(),
            r.snapshot().timestamp == 0,
            r.snapshot().unit_queues@ =~= Seq::<QueueStatus>::empty(),
    {
        Monitor {
            history: Vec::new(),
            snapshot: SystemStatus {
                fpga: FpgaStatus { ready: false, temperature: 0, utilization: 0 },
                memory: MemoryUsage {
                    total_size: 0,
                    used_size: 0,
                    block_size: 0,
                    total_blocks: 0,
                    used_blocks: 0,
                    locked_blocks: 0,
                },
                unit_queues: Vec::new(),
                performance: PerformanceStats {
                    ops_per_second_milli: 0,
                    avg_latency_ms: 0,
                    peak_memory_permille: 0,
                    fpga_utilization: 0,
                },
                timestamp: 0,
            },
        }
    }

    /// Record one completed operation: append it to the history, evicting
    /// the oldest entry when the window is full.  Recording never touches
    /// the published snapshot.
    pub fn record_operation(&mut self, start_time: u64, status: OperationStatus, now: u64)
        requires
            old(self).wf(),
        ensures
            final(self).wf(),
            final(self).snapshot() == old(self).snapshot(),
            final(self).history() =~= (if old(self).history().len() >= MAX_HISTORY_SIZE {
                old(self).history().drop_first()
            } else {
                old(self).history()
            }).push(
                OperationMetrics {
                    timestamp: start_time,
                    duration: spec_age(now, start_time),
                    status,
                },
            ),
    {
        let duration = if now >= start_time {
            now - start_time
        } else {
            0
        };
        if self.history.len() >= MAX_HISTORY_SIZE {
            self.history.remove(0);
        }
        self.history.push(OperationMetrics { timestamp: start_time, duration, status });
    }

    /// Compute the windowed performance statistics from the history and the
    /// current component readings.
    pub fn calculate_performance(&self, now: u64, memory: &MemoryUsage, fpga: &FpgaStatus) -> (r:
        PerformanceStats)
        requires
            self.wf(),
            memory.used_size <= memory.total_size,
        ensures
            r.ops_per_second_milli == count_in_window(self.history(), now) * 1000 / (
            STATS_WINDOW_MS / 1000) as int,
            count_in_window(self.history(), now) == 0 ==> r.avg_latency_ms == 0,
            count_in_window(self.history(), now) > 0 ==> r.avg_latency_ms
                == sum_durations_in_window(self.history(), now) / count_in_window(
                self.history(),
                now,
            ),
            memory.total_size == 0 ==> r.peak_memory_permille == 0,
            memory.total_size > 0 ==> r.peak_memory_permille == memory.used_size * 1000
                / memory.total_size as int,
            r.fpga_utilization == fpga.utilization,
    {
        let ghost h = self.history();
        let mut count: usize = 0;
        let mut total_duration: u128 = 0;
        let mut i: usize = 0;
        while i < self.history.len()
            invariant
                i <= h.len(),
                h == self.history(),
                h.len() <= MAX_HISTORY_SIZE,
                count == count_in_window(h.take(i as int), now),
                count <= i,
                total_duration == sum_durations_in_window(h.take(i as int), now),
                total_duration <= i * 0xffff_ffff_ffff_ffff,
            decreases h.len() - i,
        {
            proof {
                assert(h.take(i + 1).drop_last() =~= h.take(i as int));
                assert(h.take(i + 1).last() == h[i as int]);
                assert((i + 1) * 0xffff_ffff_ffff_ffff == i * 0xffff_ffff_ffff_ffff
                    + 0xffff_ffff_ffff_ffff) by (nonlinear_arith);
            }
            let m = self.history[i];
            let age = if now >= m.timestamp {
                now - m.timestamp
            } else {
                0
            };
            if age < STATS_WINDOW_MS {
                count = count + 1;
                total_duration = total_duration + m.duration as u128;
            }
            i = i + 1;
        }
        proof {
            assert(h.take(h.len() as int) =~= h);
        }
        let ops_per_second_milli = ((count as u64) * 1000) / (STATS_WINDOW_MS / 1000);
        let avg_latency_ms: u64 = if count == 0 {
            0
        } else {
            proof {
                lemma_window_sum_bound(h, now);
                assert(total_duration / (count as u128) <= 0xffff_ffff_ffff_ffff) by (
                nonlinear_arith)
                    requires
                        count > 0,
                        total_duration <= (count as u128) * 0xffff_ffff_ffff_ffff,
                ;
            }
            (total_duration / (count as u128)) as u64
        };
        let peak_memory_permille: u32 = if memory.total_size == 0 {
            0
        } else {
            proof {
                assert((memory.used_size as int) * 1000 / (memory.total_size as int) <= 1000) by (
                nonlinear_arith)
                    requires
                        memory.total_size > 0,
                        memory.used_size <= memory.total_size,
                ;
            }
            (((memory.used_size as u128) * 1000) / (memory.total_size as u128)) as u32
        };
        PerformanceStats {
            ops_per_second_milli,
            avg_latency_ms,
            peak_memory_permille,
            fpga_utilization: fpga.utilization,
        }
    }

    /// Publish a new snapshot from the current component readings,
    /// replacing the previous one wholesale.  The published timestamp is
    /// the clock reading, clamped to never run backwards; every later read
    /// therefore sees a timestamp at least as large as any earlier one.
    pub fn tick(
        &mut self,
        now: u64,
        fpga: FpgaStatus,
        memory: MemoryUsage,
        unit_queues: Vec<QueueStatus>,
    )
        requires
            old(self).wf(),
            memory.used_size <= memory.total_size,
        ensures
            final(self).wf(),
            final(self).history() == old(self).history(),
            final(self).snapshot().timestamp == spec_next_timestamp(
                old(self).snapshot().timestamp,
                now,
            ),
            final(self).snapshot().timestamp >= old(self).snapshot().timestamp,
            final(self).snapshot().fpga == fpga,
            final(self).snapshot().memory == memory,
            final(self).snapshot().unit_queues == unit_queues,
            final(self).snapshot().performance == old(self).spec_performance(now, memory, fpga),
    {
        let performance = self.calculate_performance(now, &memory, &fpga);
        let prev = self.snapshot.timestamp;
        let timestamp = if now >= prev {
            now
        } else {
            prev
        };
        proof {
            lemma_window_sum_bound(self.history(), now);
            let sp = self.spec_performance(now, memory, fpga);
            assert(performance.ops_per_second_milli == sp.ops_per_second_milli);
            assert(performance.avg_latency_ms == sp.avg_latency_ms);
            assert(performance.peak_memory_permille == sp.peak_memory_permille);
            assert(performance.fpga_utilization == sp.fpga_utilization);
            assert(performance == sp);
        }
        self.snapshot = SystemStatus { fpga, memory, unit_queues, performance, timestamp };
    }

    /// The statistics `calculate_performance` computes, as one value.
    pub open spec fn spec_performance(
        &self,
        now: u64,
        memory: MemoryUsage,
        fpga: FpgaStatus,
    ) -> PerformanceStats {
        PerformanceStats {
            ops_per_second_milli: (count_in_window(self.history(), now) * 1000 / (STATS_WINDOW_MS
                / 1000) as int) as u64,
            avg_latency_ms: if count_in_window(self.history(), now) == 0 {
                0u64
            } else {
                (sum_durations_in_window(self.history(), now) / count_in_window(
                    self.history(),
                    now,
                )) as u64
            },
            peak_memory_permille: if memory.total_size == 0 {
                0u32
            } else {
                (memory.used_size * 1000 / memory.total_size as int) as u32
            },
            fpga_utilization: fpga.utilization,
        }
    }

    /// The latest complete snapshot; readers always see the newest published
    /// value, never one under construction.
    pub fn current(&self) -> (r: &SystemStatus)
        ensures
            *r == self.snapshot(),
    {
        &self.snapshot
    }
}

/// The windowed duration sum is bounded by the window count times the
/// largest duration a record can carry.
proof fn lemma_window_sum_bound(h: Seq<OperationMetrics>, now: u64)
    ensures
        sum_durations_in_window(h, now) <= count_in_window(h, now) * 0xffff_ffff_ffff_ffff,
        count_in_window(h, now) >= 0,
    decreases h.len(),
{
    if h.len() > 0 {
        lemma_window_sum_bound(h.drop_last(), now);
        let c = count_in_window(h.drop_last(), now);
        if in_window(h.last(), now) {
            assert((c + 1) * 0xffff_ffff_ffff_ffff == c * 0xffff_ffff_ffff_ffff
                + 0xffff_ffff_ffff_ffff) by (nonlinear_arith);
        }
    }
}

} // verus!
