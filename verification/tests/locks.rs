use agent_cockpit::cpu::CpuUsage;
use agent_cockpit::engine::{CockpitEngine, KillProcessLockArgs};
use agent_cockpit::error::CockpitError;
use agent_cockpit::locks::{admits_lowercase, InspectLocksArgs, ProcessLockInfo};
use agent_cockpit::process::ProcessRecord;

fn process(pid: u32, name: &str, exe_path: Option<&str>) -> ProcessRecord {
    ProcessRecord {
        pid,
        name: name.to_string(),
        exe_path: exe_path.map(|p| p.to_string()),
        memory_bytes: 20 * 1024 * 1024 - 1,
        cpu_usage: CpuUsage { bits: 0.67f32.to_bits() },
    }
}

fn filter(process_name: Option<&str>, path_filter: Option<&str>) -> InspectLocksArgs {
    InspectLocksArgs {
        process_name: process_name.map(|n| n.to_string()),
        path_filter: path_filter.map(|p| p.to_string()),
    }
}

fn pids(locks: &[ProcessLockInfo]) -> Vec<u32> {
    locks.iter().map(|l| l.pid).collect()
}

fn table() -> Vec<ProcessRecord> {
    vec![
        process(70, "Cargo.exe", Some("C:\\Users\\me\\.cargo\\bin\\cargo.exe")),
        process(10, "explorer.exe", Some("C:\\Windows\\explorer.exe")),
        process(50, "RUSTC", None),
        process(30, "worker", Some("C:\\Work\\Target\\Release\\worker.exe")),
        process(40, "worker", Some("C:\\work\\target\\debug\\worker.exe")),
        process(20, "helper", Some("D:\\antigravity_mcp_runs\\7\\helper.exe")),
        process(60, "antigravity_core_mcp", None),
        process(80, "agent_cockpit.exe", None),
        process(90, "idle", None),
        process(35, "unix", Some("/work/target/release/unix")),
    ]
}

#[test]
fn culprits_are_listed_by_default_in_order_of_their_ids() {
    let locks = CockpitEngine::new().inspect_locks(filter(None, None), &table());
    assert_eq!(pids(&locks), vec![20, 30, 40, 50, 60, 70, 80]);
}

#[test]
fn walk_order_does_not_show() {
    let engine = CockpitEngine::new();
    let forward = engine.inspect_locks(filter(None, Some("work")), &table());
    let mut backward_table = table();
    backward_table.reverse();
    let backward = engine.inspect_locks(filter(None, Some("work")), &backward_table);
    assert_eq!(pids(&forward), vec![30, 35, 40]);
    assert_eq!(pids(&backward), pids(&forward));
}

#[test]
fn equal_ids_keep_their_order() {
    let twice = vec![process(5, "b", None), process(4, "x", None), process(5, "a", None)];
    let locks = CockpitEngine::new().inspect_locks(filter(Some(""), None), &twice);
    let names: Vec<&str> = locks.iter().map(|l| l.name.as_str()).collect();
    assert_eq!(names, vec!["x", "b", "a"]);
}

#[test]
fn filters_ignore_case_and_narrow_each_other() {
    let engine = CockpitEngine::new();
    assert_eq!(pids(&engine.inspect_locks(filter(Some("CARGO"), None), &table())), vec![70]);
    assert_eq!(pids(&engine.inspect_locks(filter(Some("WorkeR"), None), &table())), vec![30, 40]);
    assert_eq!(
        pids(&engine.inspect_locks(filter(None, Some("TARGET\\RELEASE")), &table())),
        vec![30]
    );
    assert_eq!(
        pids(&engine.inspect_locks(filter(Some("worker"), Some("debug")), &table())),
        vec![40]
    );
    assert_eq!(pids(&engine.inspect_locks(filter(Some("ÄPFEL"), None), &[process(1, "äpfel", None)].into())), vec![1]);
}

#[test]
fn path_filter_rejects_a_process_without_a_path() {
    let locks = CockpitEngine::new().inspect_locks(filter(Some("rustc"), Some("")), &table());
    assert!(locks.is_empty());
}

#[test]
fn lines_carry_the_figures() {
    let locks = CockpitEngine::new().inspect_locks(filter(Some("cargo"), None), &table());
    let line = &locks[0];
    assert_eq!(line.name, "Cargo.exe");
    assert_eq!(line.exe_path.as_deref(), Some("C:\\Users\\me\\.cargo\\bin\\cargo.exe"));
    assert_eq!(line.memory_mb, 19);
    assert_eq!(f32::from_bits(line.cpu_usage.bits), 0.67);
}

#[test]
fn undecodable_arguments_stand_for_no_filter() {
    let args = InspectLocksArgs::or_unfiltered(None);
    assert!(args.process_name.is_none() && args.path_filter.is_none());
    let args = InspectLocksArgs::or_unfiltered(Some(filter(Some("x"), None)));
    assert_eq!(args.process_name.as_deref(), Some("x"));
}

#[test]
fn lowercase_texts_are_matched_as_they_are() {
    assert!(admits_lowercase(None, None, "cargo-watch", None));
    assert!(admits_lowercase(None, None, "x", Some("c:\\target\\debug\\x")));
    assert!(!admits_lowercase(None, None, "x", Some("c:/target/debug/x")));
    assert!(!admits_lowercase(None, None, "CARGO", None));
    assert!(admits_lowercase(Some("ar"), None, "cargo", None));
    assert!(!admits_lowercase(Some("AR"), None, "cargo", None));
    assert!(!admits_lowercase(None, Some("a"), "cargo", None));
    assert!(admits_lowercase(Some(""), Some("b"), "cargo", Some("abc")));
}

#[test]
fn termination_has_three_outcomes() {
    let engine = CockpitEngine::new();
    let processes = vec![process(12345, "target_worker.exe", None), process(7, "other", None)];
    let args = |pid: u32| KillProcessLockArgs { pid, force: Some(false) };

    assert_eq!(engine.plan_kill(&args(7), &processes).expect("a target").name, "other");
    assert!(matches!(
        engine.plan_kill(&args(8), &processes),
        Err(CockpitError::ProcessNotFound(8))
    ));

    let done = engine.kill_process(args(12345), &processes, true).expect("terminated");
    assert_eq!(done, "Successfully terminated process 'target_worker.exe' (PID 12345)");

    let refused = engine.kill_process(args(7), &processes, false).expect_err("refused");
    assert!(matches!(refused, CockpitError::KillFailed(7)));
    assert_eq!(refused.message(), "Failed to terminate process: PID 7");

    let missing = engine.kill_process(args(4294967295), &processes, true).expect_err("missing");
    assert!(matches!(missing, CockpitError::ProcessNotFound(4294967295)));
    assert_eq!(missing.message(), "Process not found: PID 4294967295");
}

#[test]
fn carried_errors_have_their_prefix() {
    assert_eq!(CockpitError::Io("broken pipe".to_string()).message(), "I/O error: broken pipe");
    assert_eq!(CockpitError::Json("eof".to_string()).message(), "JSON error: eof");
    assert_eq!(CockpitError::ProcessNotFound(0).message(), "Process not found: PID 0");
}
