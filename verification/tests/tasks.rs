use agent_cockpit::cpu::CpuUsage;
use agent_cockpit::engine::{watches_lowercase, CockpitEngine, InspectAsyncTasksArgs};
use agent_cockpit::process::ProcessRecord;
use agent_cockpit::telemetry::TaskStatus;

fn process(pid: u32, name: &str, cpu: f32) -> ProcessRecord {
    ProcessRecord {
        pid,
        name: name.to_string(),
        exe_path: None,
        memory_bytes: 0,
        cpu_usage: CpuUsage { bits: cpu.to_bits() },
    }
}

fn query(
    process_name: Option<&str>,
    target_pid: Option<u32>,
    limit: Option<usize>,
) -> InspectAsyncTasksArgs {
    InspectAsyncTasksArgs {
        process_name: process_name.map(|n| n.to_string()),
        target_pid,
        min_poll_duration_ms: None,
        limit,
    }
}

#[test]
fn pegged_daemons_are_recorded_and_reported() {
    let mut engine = CockpitEngine::new();
    let table = vec![
        process(1, "PushFrame.exe", 99.75),
        process(2, "vta", 80.0),
        process(3, "aegis", 80.5),
        process(4, "cargo", 100.0),
    ];
    let tasks = engine.inspect_async_tasks(query(None, None, None), &table);
    assert_eq!(tasks.len(), 2);
    assert_eq!(tasks[0].task_id, 1);
    assert_eq!(tasks[0].name, "PushFrame.exe::worker_thread");
    assert_eq!(tasks[0].poll_count, 1);
    assert_eq!(tasks[0].last_poll_duration_us, 99_000);
    assert_eq!(tasks[0].total_poll_time_us, 990_000);
    assert_eq!(tasks[0].idle_time_us, 0);
    assert_eq!(tasks[0].status, TaskStatus::Starved);
    assert_eq!(tasks[1].task_id, 3);

    let health = engine.get_runtime_health();
    assert_eq!(health.total_tracked_tasks, 2);
    assert_eq!(health.starved_tasks_count, 2);
    assert_eq!(health.mean_poll_duration_us, 89_500);
    assert_eq!(health.max_poll_duration_us, 99_000);

    // What was recorded comes first the next time.
    let again = engine.inspect_async_tasks(query(None, None, None), &vec![process(9, "vta", 90.0)]);
    let ids: Vec<u64> = again.iter().map(|t| t.task_id).collect();
    assert_eq!(ids, vec![1, 3, 9]);
}

#[test]
fn name_and_id_narrow_the_selection() {
    let table = vec![process(1, "Worker", 95.0), process(2, "WORKER-2", 95.0), process(3, "vta", 95.0)];
    let ids = |args: InspectAsyncTasksArgs| -> Vec<u64> {
        CockpitEngine::new().inspect_async_tasks(args, &table).iter().map(|t| t.task_id).collect()
    };
    assert_eq!(ids(query(Some("wOrKeR"), None, None)), vec![1, 2]);
    assert_eq!(ids(query(Some("worker"), Some(2), None)), vec![2]);
    assert_eq!(ids(query(None, Some(2), None)), Vec::<u64>::new());
}

#[test]
fn limits_hold_for_the_report_and_not_for_the_record() {
    let table: Vec<ProcessRecord> = (0..60).map(|i| process(i, "vta", 95.0)).collect();
    let mut engine = CockpitEngine::new();
    assert_eq!(engine.inspect_async_tasks(query(None, None, Some(3)), &table).len(), 3);
    assert_eq!(engine.get_runtime_health().total_tracked_tasks, 60);
    assert_eq!(engine.inspect_async_tasks(query(None, None, None), &table).len(), 20);
    assert_eq!(engine.inspect_async_tasks(query(None, None, Some(1000)), &table).len(), 50);
    assert_eq!(engine.inspect_async_tasks(query(None, None, Some(0)), &table).len(), 0);
    assert_eq!(engine.get_runtime_health().total_tracked_tasks, 60);
    assert_eq!(CockpitEngine::new().inspect_async_tasks(query(None, None, Some(0)), &table).len(), 0);
    assert_eq!(CockpitEngine::new().inspect_async_tasks(query(None, None, Some(1000)), &table).len(), 50);
}

#[test]
fn record_is_bounded() {
    let table: Vec<ProcessRecord> = (0..5010).map(|i| process(i, "vta", 95.0)).collect();
    let mut engine = CockpitEngine::default();
    engine.inspect_async_tasks(query(None, None, None), &table);
    assert_eq!(engine.get_runtime_health().total_tracked_tasks, 5000);
    let first = engine.inspect_async_tasks(query(None, None, Some(1)), &Vec::new());
    assert_eq!(first[0].task_id, 10);
}

#[test]
fn threshold_is_in_milliseconds() {
    let mut engine = CockpitEngine::new();
    engine.inspect_async_tasks(query(None, None, None), &vec![process(1, "vta", 95.0)]);
    let mut args = query(None, None, None);
    args.min_poll_duration_ms = Some(u64::MAX);
    // A task that is marked as starved is reported at any threshold.
    assert_eq!(engine.inspect_async_tasks(args, &Vec::new()).len(), 1);
}

#[test]
fn filters_hold_for_the_record_too() {
    let mut engine = CockpitEngine::new();
    let table = vec![process(1, "vta", 95.0), process(2, "Aegis.exe", 90.0), process(3, "vta-2", 85.0)];
    assert_eq!(engine.inspect_async_tasks(query(None, None, None), &table).len(), 3);
    let mut ids = |args: InspectAsyncTasksArgs| -> Vec<u64> {
        engine.inspect_async_tasks(args, &Vec::new()).iter().map(|t| t.task_id).collect()
    };
    assert_eq!(ids(query(None, None, None)), vec![1, 2, 3]);
    assert_eq!(ids(query(Some("VTA"), None, None)), vec![1, 3]);
    assert_eq!(ids(query(Some("aEGIS"), None, None)), vec![2]);
    assert_eq!(ids(query(None, Some(3), None)), vec![3]);
    assert_eq!(ids(query(Some("vta"), Some(2), None)), Vec::<u64>::new());
    assert_eq!(ids(query(Some("cargo"), None, None)), Vec::<u64>::new());
    // The filters come before the limit.
    assert_eq!(ids(query(None, Some(3), Some(1))), vec![3]);
}

#[test]
fn names_are_those_of_processes() {
    let mut engine = CockpitEngine::new();
    let table = vec![process(1, "vta", 95.0), process(2, "worker", 95.0)];
    assert_eq!(engine.inspect_async_tasks(query(Some(""), None, None), &table).len(), 2);
    // Every recorded process is marked as a worker; the mark is no part of its name.
    let tasks = engine.inspect_async_tasks(query(Some("worker"), None, None), &Vec::new());
    assert_eq!(tasks.iter().map(|t| t.task_id).collect::<Vec<_>>(), vec![2]);
    let tasks = engine.inspect_async_tasks(query(Some("a::w"), None, None), &Vec::new());
    assert!(tasks.is_empty());
    // A name with the mark in it keeps that.
    let marked = vec![process(3, "x::worker_thread", 95.0)];
    let tasks = engine.inspect_async_tasks(query(Some("x::WORKER"), None, None), &marked);
    assert_eq!(tasks.len(), 1);
    let tasks = engine.inspect_async_tasks(query(Some("x::WORKER"), None, None), &Vec::new());
    assert_eq!(tasks.len(), 1);
}

#[test]
fn selected_processes_are_reported_whatever_their_name() {
    // A sigma at the end of a word has a lowercase form of its own.
    let name = "\u{391}\u{3a3}";
    let mut engine = CockpitEngine::new();
    let table = vec![process(1, name, 95.0)];
    let tasks = engine.inspect_async_tasks(query(Some(name), None, Some(50)), &table);
    assert_eq!(tasks.len(), 1);
    assert_eq!(tasks[0].task_id, 1);
    assert_eq!(engine.inspect_async_tasks(query(Some(name), None, None), &Vec::new()).len(), 1);
}

#[test]
fn given_threshold_holds_for_the_process_table() {
    let table = vec![process(1, "vta", 90.0), process(2, "vta", 300.0)];
    let ids = |ms: u64| -> Vec<u64> {
        let mut args = query(None, None, None);
        args.min_poll_duration_ms = Some(ms);
        CockpitEngine::new().inspect_async_tasks(args, &table).iter().map(|t| t.task_id).collect()
    };
    assert_eq!(ids(90), vec![1, 2]);
    assert_eq!(ids(91), vec![2]);
    assert_eq!(ids(300), vec![2]);
    assert_eq!(ids(301), Vec::<u64>::new());
    let mut engine = CockpitEngine::new();
    let mut args = query(None, None, None);
    args.min_poll_duration_ms = Some(400);
    assert!(engine.inspect_async_tasks(args, &table).is_empty());
    assert_eq!(engine.get_runtime_health().total_tracked_tasks, 2);
}

#[test]
fn pegged_process_stays_reported_after_it_has_gone() {
    let mut engine = CockpitEngine::new();
    let seen = engine
        .inspect_async_tasks(query(None, None, None), &vec![process(4242, "aegis.exe", 90.0)]);
    let again = engine.inspect_async_tasks(query(None, None, None), &Vec::new());
    for tasks in [seen, again] {
        assert_eq!(tasks.len(), 1);
        assert_eq!(tasks[0].task_id, 4242);
        assert_eq!(tasks[0].name, "aegis.exe::worker_thread");
        assert_eq!(tasks[0].poll_count, 1);
        assert_eq!(tasks[0].last_poll_duration_us, 90_000);
        assert_eq!(tasks[0].total_poll_time_us, 900_000);
        assert_eq!(tasks[0].idle_time_us, 0);
        assert_eq!(tasks[0].status, TaskStatus::Starved);
    }
}

#[test]
fn process_that_stays_pegged_is_on_record_once() {
    let mut engine = CockpitEngine::new();
    engine.inspect_async_tasks(query(None, None, None), &vec![process(7, "vta", 90.0)]);
    engine.inspect_async_tasks(query(None, None, None), &vec![process(7, "vta", 100.0)]);
    assert_eq!(engine.get_runtime_health().total_tracked_tasks, 1);
    let tasks = engine.inspect_async_tasks(query(None, None, None), &Vec::new());
    assert_eq!(tasks.len(), 1);
    assert_eq!(tasks[0].last_poll_duration_us, 100_000);
}

#[test]
fn names_beyond_ascii_are_matched_whatever_the_case() {
    let table = vec![process(1, "\u{dc}BER-VTA", 95.0)];
    let mut engine = CockpitEngine::new();
    let tasks = engine.inspect_async_tasks(query(Some("\u{fc}ber"), None, None), &table);
    assert_eq!(tasks.len(), 1);
    let tasks = engine.inspect_async_tasks(query(Some("\u{dc}ber"), None, None), &Vec::new());
    assert_eq!(tasks.len(), 1);
    assert_eq!(tasks[0].name, "\u{dc}BER-VTA::worker_thread");
}

#[test]
fn undecodable_arguments_stand_for_none() {
    let args = InspectAsyncTasksArgs::or_unfiltered(None);
    assert!(args.process_name.is_none() && args.target_pid.is_none());
    assert!(args.min_poll_duration_ms.is_none() && args.limit.is_none());
    let args = InspectAsyncTasksArgs::or_unfiltered(Some(query(Some("x"), Some(1), Some(2))));
    assert_eq!(args.limit, Some(2));
}

#[test]
fn daemons_are_watched_by_default() {
    assert!(watches_lowercase(None, "my-pushframe-2"));
    assert!(watches_lowercase(None, "vta"));
    assert!(watches_lowercase(None, "aegisd"));
    assert!(!watches_lowercase(None, "cargo"));
    assert!(watches_lowercase(Some("car"), "cargo"));
    assert!(!watches_lowercase(Some("vta"), "cargo"));
}

#[test]
fn load_compares_and_rounds_as_a_float_does() {
    let samples = [
        0.0f32, -0.0, 1.0, -1.0, 0.5, 0.999, 79.99999, 80.0, 80.00001, 80.5, 99.999, 100.0, 127.99,
        128.0, 1600.0, 8388607.5, 8388608.0, 16777216.0, 1.0e10, 9.0e18, 1.8446742e19, 1.8446744e19,
        3.4e38, 1.0e-40, 64.0, 63.999996, f32::MIN_POSITIVE, f32::MAX, f32::MIN, f32::INFINITY,
        f32::NEG_INFINITY, f32::NAN, -f32::NAN, -80.5, f32::EPSILON,
    ];
    for x in samples {
        let usage = CpuUsage { bits: x.to_bits() };
        assert_eq!(usage.is_pegged(), x > 80.0, "{}", x);
        assert_eq!(usage.whole_percent(), x as u64, "{}", x);
    }
    let mut bits: u32 = 0;
    while bits < 0xffff_0000 {
        let x = f32::from_bits(bits);
        let usage = CpuUsage { bits };
        assert_eq!(usage.is_pegged(), x > 80.0, "{}", x);
        assert_eq!(usage.whole_percent(), x as u64, "{}", x);
        bits += 9973;
    }
}
