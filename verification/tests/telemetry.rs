use agent_cockpit::telemetry::{TaskMetricSnapshot, TaskStatus, TelemetryCollector};
use std::time::Duration;

fn task(task_id: u64, last_poll_duration_us: u64, status: TaskStatus) -> TaskMetricSnapshot {
    TaskMetricSnapshot {
        task_id,
        name: format!("task_{}", task_id),
        poll_count: 1,
        last_poll_duration_us,
        total_poll_time_us: last_poll_duration_us,
        idle_time_us: 0,
        status,
    }
}

fn ids(tasks: &[TaskMetricSnapshot]) -> Vec<u64> {
    tasks.iter().map(|t| t.task_id).collect()
}

#[test]
fn test_simulated_task_starvation_detection() {
    let mut collector = TelemetryCollector::new(100, 50);

    // 1. Healthy tasks with short polls
    collector.record_task(TaskMetricSnapshot {
        task_id: 1,
        name: "pushframe::event_drain".to_string(),
        poll_count: 42,
        last_poll_duration_us: 120,
        total_poll_time_us: 5000,
        idle_time_us: 45000,
        status: TaskStatus::Yielded,
    });

    collector.record_task(TaskMetricSnapshot {
        task_id: 2,
        name: "vta::agenda_scrape".to_string(),
        poll_count: 10,
        last_poll_duration_us: 850,
        total_poll_time_us: 8500,
        idle_time_us: 120000,
        status: TaskStatus::Yielded,
    });

    // 2. A starved task blocks the runtime for 75 ms
    let runtime = tokio::runtime::Builder::new_current_thread()
        .enable_time()
        .start_paused(true)
        .build()
        .expect("Runtime starts");
    runtime.block_on(tokio::time::advance(Duration::from_millis(75)));

    collector.record_task(TaskMetricSnapshot {
        task_id: 3,
        name: "pushframe::render_frame_block".to_string(),
        poll_count: 1,
        last_poll_duration_us: 75_000,
        total_poll_time_us: 75_000,
        idle_time_us: 0,
        status: TaskStatus::Starved,
    });

    let starved = collector.get_starved_tasks(None, 10);
    assert_eq!(starved.len(), 1, "Should flag exactly one starved task");

    let flagged = starved.get(0).expect("Must contain first flagged task");
    assert_eq!(flagged.task_id, 3);
    assert_eq!(flagged.name, "pushframe::render_frame_block");
    assert!(flagged.last_poll_duration_us >= 50_000);

    let health = collector.get_health_summary();
    assert_eq!(health.total_tracked_tasks, 3);
    assert_eq!(health.starved_tasks_count, 1);
    assert_eq!(health.max_poll_duration_us, 75_000);
}

#[test]
fn test_strict_circular_buffer_capacity_ceiling() {
    let max_capacity = 5;
    let mut collector = TelemetryCollector::new(max_capacity, 50);

    for i in 1..=10 {
        collector.record_task(TaskMetricSnapshot {
            task_id: i,
            name: format!("task_{}", i),
            poll_count: 1,
            last_poll_duration_us: 500,
            total_poll_time_us: 500,
            idle_time_us: 1000,
            status: TaskStatus::Running,
        });
    }

    assert_eq!(collector.buffer().len(), max_capacity);
    // The oldest elements (1..=5) should be evicted
    let first = collector.buffer().front().expect("Buffer has front element");
    assert_eq!(first.task_id, 6);
    let last = collector.buffer().back().expect("Buffer has back element");
    assert_eq!(last.task_id, 10);
}

#[test]
fn capacity_zero_stands_for_a_thousand() {
    let mut collector = TelemetryCollector::new(0, 50);
    for i in 0..1001 {
        collector.record_task(task(i, 1, TaskStatus::Running));
    }
    assert_eq!(collector.buffer().len(), 1000);
    assert_eq!(collector.buffer().front().expect("a task").task_id, 1);
}

#[test]
fn capacity_stops_at_the_ceiling() {
    let mut collector = TelemetryCollector::new(usize::MAX, 50);
    for i in 0..25_003 {
        collector.record_task(task(i, 1, TaskStatus::Running));
    }
    assert_eq!(collector.buffer().len(), 25_000);
    assert_eq!(collector.buffer().front().expect("a task").task_id, 3);
}

#[test]
fn default_collector_holds_five_thousand() {
    let mut collector = TelemetryCollector::default();
    for i in 0..5001 {
        collector.record_task(task(i, 49_999, TaskStatus::Running));
    }
    assert_eq!(collector.buffer().len(), 5000);
    assert_eq!(collector.get_health_summary().starved_tasks_count, 0);
    collector.record_task(task(9, 50_000, TaskStatus::Running));
    assert_eq!(collector.get_health_summary().starved_tasks_count, 1);
}

#[test]
fn recording_a_task_again_updates_it() {
    let mut collector = TelemetryCollector::new(10, 50);
    collector.record_task(task(5, 10, TaskStatus::Running));
    collector.record_task(task(6, 15, TaskStatus::Running));
    collector.record_task(task(5, 20, TaskStatus::Completed));
    assert_eq!(collector.get_health_summary().total_tracked_tasks, 2);
    assert_eq!(collector.buffer().iter().map(|t| t.task_id).collect::<Vec<_>>(), vec![6, 5]);
    let newest = collector.buffer().back().expect("a task");
    assert_eq!(newest.last_poll_duration_us, 20);
    assert_eq!(newest.status, TaskStatus::Completed);
}

#[test]
fn updating_a_full_ring_evicts_nothing() {
    let mut collector = TelemetryCollector::new(3, 50);
    for i in [1, 2, 3, 2] {
        collector.record_task(task(i, 1, TaskStatus::Running));
    }
    assert_eq!(collector.buffer().iter().map(|t| t.task_id).collect::<Vec<_>>(), vec![1, 3, 2]);
    collector.record_task(task(4, 1, TaskStatus::Running));
    assert_eq!(collector.buffer().iter().map(|t| t.task_id).collect::<Vec<_>>(), vec![3, 2, 4]);
}

fn named(task_id: u64, name: String) -> TaskMetricSnapshot {
    let mut snapshot = task(task_id, 1, TaskStatus::Running);
    snapshot.name = name;
    snapshot
}

fn used_bytes(collector: &TelemetryCollector) -> usize {
    let size = std::mem::size_of::<TaskMetricSnapshot>();
    collector.buffer().iter().map(|t| size + t.name.len()).sum()
}

#[test]
fn a_name_is_kept_as_long_as_memory_allows() {
    let size = std::mem::size_of::<TaskMetricSnapshot>();
    let mut collector = TelemetryCollector::new(10, 50);
    collector.record_task(named(1, "x".repeat(2_000_000)));
    assert_eq!(collector.buffer()[0].name, "x".repeat(2_000_000));
    collector.record_task(named(2, "y".repeat(2_000_000)));
    assert_eq!(collector.buffer().len(), 2);
    // The longest name that fits takes the whole room.
    let longest = 4_999_999 - size;
    collector.record_task(named(3, "z".repeat(longest)));
    assert_eq!(collector.buffer().len(), 1);
    assert_eq!(collector.buffer()[0].name.len(), longest);
    assert_eq!(used_bytes(&collector), 4_999_999);
}

#[test]
fn a_name_that_is_too_long_is_cut() {
    let size = std::mem::size_of::<TaskMetricSnapshot>();
    let room = 4_999_999 - size;
    let mut collector = TelemetryCollector::new(10, 50);
    collector.record_task(named(1, "x".repeat(6_000_000)));
    assert_eq!(collector.buffer().len(), 1);
    assert_eq!(collector.buffer()[0].name, "x".repeat(room));
    collector.record_task(named(2, "\u{1f980}".repeat(1_250_001)));
    assert_eq!(collector.buffer().len(), 1);
    assert_eq!(collector.buffer()[0].name, "\u{1f980}".repeat(room / 4));
    assert!(used_bytes(&collector) < 5_000_000);
    collector.record_task(named(3, format!("{}\u{1f980}", "y".repeat(room - 3))));
    assert_eq!(collector.buffer()[0].name, "y".repeat(room - 3));
    assert_eq!(collector.buffer()[0].task_id, 3);
}

#[test]
fn long_names_evict_the_oldest_tasks() {
    let size = std::mem::size_of::<TaskMetricSnapshot>();
    let mut collector = TelemetryCollector::new(5000, 50);
    for i in 0..5000 {
        collector.record_task(named(i, "n".repeat(5000 - size)));
        assert!(used_bytes(&collector) < 5_000_000);
    }
    assert_eq!(collector.buffer().len(), 999);
    assert_eq!(collector.buffer().front().expect("a task").task_id, 4001);
    assert_eq!(collector.buffer().back().expect("a task").task_id, 4999);
}

#[test]
fn a_full_ring_below_the_memory_ceiling_evicts_nothing_more() {
    let size = std::mem::size_of::<TaskMetricSnapshot>();
    let mut collector = TelemetryCollector::default();
    for i in 0..5001 {
        collector.record_task(named(i, "n".repeat(982 - size)));
    }
    assert_eq!(collector.buffer().len(), 5000);
    assert_eq!(collector.buffer().front().expect("a task").task_id, 1);
    assert_eq!(used_bytes(&collector), 4_910_000);
}

#[test]
fn the_order_of_recording_does_not_show_in_the_figures() {
    let figures = |order: [u64; 4]| {
        let mut collector = TelemetryCollector::new(4, 50);
        for i in order {
            let status = if i == 2 { TaskStatus::Starved } else { TaskStatus::Running };
            collector.record_task(task(i, i * 20_000, status));
        }
        let health = collector.get_health_summary();
        (
            health.total_tracked_tasks,
            health.starved_tasks_count,
            health.mean_poll_duration_us,
            health.max_poll_duration_us,
            health.estimated_memory_kb,
        )
    };
    let size = std::mem::size_of::<TaskMetricSnapshot>();
    assert_eq!(figures([1, 2, 3, 4]), (4, 3, 50_000, 80_000, 4 * size / 1024));
    assert_eq!(figures([4, 2, 1, 3]), figures([1, 2, 3, 4]));
    assert_eq!(figures([3, 4, 2, 1]), figures([1, 2, 3, 4]));
}

#[test]
fn threshold_saturates() {
    let mut collector = TelemetryCollector::new(10, u64::MAX);
    collector.record_task(task(1, u64::MAX - 1, TaskStatus::Running));
    collector.record_task(task(2, u64::MAX, TaskStatus::Running));
    assert_eq!(ids(&collector.get_starved_tasks(None, 10)), vec![2]);
}

#[test]
fn query_flags_by_duration_or_status_and_keeps_order() {
    let mut collector = TelemetryCollector::new(10, 50);
    collector.record_task(task(4, 50_000, TaskStatus::Completed));
    collector.record_task(task(2, 49_999, TaskStatus::Running));
    collector.record_task(task(3, 1, TaskStatus::Starved));
    collector.record_task(task(1, 60_000, TaskStatus::Yielded));
    assert_eq!(ids(&collector.get_starved_tasks(None, 10)), vec![4, 3, 1]);
    assert_eq!(ids(&collector.get_starved_tasks(Some(55_000), 10)), vec![3, 1]);
    assert_eq!(ids(&collector.get_starved_tasks(Some(0), 2)), vec![4, 2]);
}

#[test]
fn query_limit_has_a_default_and_a_cap() {
    let mut collector = TelemetryCollector::new(500, 50);
    for i in 0..300 {
        collector.record_task(task(i, 70_000, TaskStatus::Running));
    }
    assert_eq!(collector.get_starved_tasks(None, 0).len(), 20);
    assert_eq!(collector.get_starved_tasks(None, 1).len(), 1);
    assert_eq!(collector.get_starved_tasks(None, 100).len(), 100);
    assert_eq!(collector.get_starved_tasks(None, 101).len(), 100);
    assert_eq!(collector.get_health_summary().starved_tasks_count, 300);
}

#[test]
fn empty_collector_has_no_figures() {
    let health = TelemetryCollector::default().get_health_summary();
    assert_eq!(health.total_tracked_tasks, 0);
    assert_eq!(health.starved_tasks_count, 0);
    assert_eq!(health.mean_poll_duration_us, 0);
    assert_eq!(health.max_poll_duration_us, 0);
    assert_eq!(health.estimated_memory_kb, 0);
}

#[test]
fn health_figures_are_exact() {
    let mut collector = TelemetryCollector::new(2000, 50);
    for i in 0..1000 {
        collector.record_task(task(i, i, TaskStatus::Running));
    }
    let health = collector.get_health_summary();
    assert_eq!(health.total_tracked_tasks, 1000);
    assert_eq!(health.mean_poll_duration_us, 499);
    assert_eq!(health.max_poll_duration_us, 999);
    let size = std::mem::size_of::<TaskMetricSnapshot>();
    assert!(health.estimated_memory_kb < 5 * 1024);
    assert_eq!(health.estimated_memory_kb, 1000 * size / 1024);
}

#[test]
fn mean_of_the_longest_durations_does_not_overflow() {
    let mut collector = TelemetryCollector::new(10, 50);
    for i in 0..7 {
        collector.record_task(task(i, u64::MAX, TaskStatus::Running));
    }
    let health = collector.get_health_summary();
    assert_eq!(health.mean_poll_duration_us, u64::MAX);
    assert_eq!(health.max_poll_duration_us, u64::MAX);
}
