use nn_accel::link::FpgaStatus;
use nn_accel::memory::MemoryUsage;
use nn_accel::monitor::{Monitor, MAX_HISTORY_SIZE};
use nn_accel::types::OperationStatus;

fn usage(total: usize, used: usize) -> MemoryUsage {
    MemoryUsage {
        total_size: total,
        used_size: used,
        block_size: 16,
        total_blocks: total / 16,
        used_blocks: used / 16,
        locked_blocks: 0,
    }
}

fn link_status() -> FpgaStatus {
    FpgaStatus { ready: true, temperature: 41000, utilization: 250 }
}

#[test]
fn test_monitor_initialization() {
    let monitor = Monitor::new();
    assert_eq!(monitor.current().timestamp, 0);
    assert_eq!(monitor.current().performance.ops_per_second_milli, 0);
}

#[test]
fn test_operation_recording() {
    let mut monitor = Monitor::new();

    monitor.record_operation(900, OperationStatus::Success, 1000);
    monitor.record_operation(800, OperationStatus::Failed { code: 1 }, 1000);

    monitor.tick(1000, link_status(), usage(1024, 32), Vec::new());

    let status = monitor.current();
    assert!(status.performance.ops_per_second_milli > 0);
    assert!(status.performance.avg_latency_ms > 0);
}

#[test]
fn test_performance_statistics() {
    let mut monitor = Monitor::new();

    // Two operations inside the window: durations 100 and 200 ms.
    monitor.record_operation(9900, OperationStatus::Success, 10000);
    monitor.record_operation(9800, OperationStatus::Success, 10000);

    monitor.tick(100000, link_status(), usage(1024, 256), Vec::new());
    let perf = &monitor.current().performance;

    // Both entries started more than 60 s before this tick, so the window
    // is empty at this clock reading.
    assert_eq!(perf.ops_per_second_milli, 0);

    // Ticking right after the operations sees both in the window.
    monitor.tick(10000, link_status(), usage(1024, 256), Vec::new());
    let perf = &monitor.current().performance;
    assert_eq!(perf.ops_per_second_milli, 2 * 1000 / 60);
    assert_eq!(perf.avg_latency_ms, 150);
    assert_eq!(perf.peak_memory_permille, 250);
    assert_eq!(perf.fpga_utilization, 250);
}

#[test]
fn test_snapshot_monotonicity() {
    // No reader ever observes a snapshot older than one it already saw,
    // even when the supplied clock reading runs backwards.
    let mut monitor = Monitor::new();

    monitor.tick(5000, link_status(), usage(1024, 0), Vec::new());
    assert_eq!(monitor.current().timestamp, 5000);

    monitor.tick(3000, link_status(), usage(1024, 0), Vec::new());
    assert_eq!(monitor.current().timestamp, 5000);

    monitor.tick(6000, link_status(), usage(1024, 0), Vec::new());
    assert_eq!(monitor.current().timestamp, 6000);
}

#[test]
fn test_history_eviction() {
    let mut monitor = Monitor::new();
    for _ in 0..(MAX_HISTORY_SIZE + 5) {
        monitor.record_operation(1000, OperationStatus::Success, 1100);
    }
    monitor.tick(1100, link_status(), usage(1024, 0), Vec::new());
    // The rolling window is bounded: at most MAX_HISTORY_SIZE entries count.
    assert_eq!(
        monitor.current().performance.ops_per_second_milli,
        (MAX_HISTORY_SIZE as u64) * 1000 / 60
    );
}
