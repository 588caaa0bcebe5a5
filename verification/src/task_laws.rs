//! What a task query is for: which processes and which recorded tasks it finds, and what a report
//! shows of them.

use crate::cpu::{lemma_pegged, lemma_whole, CpuUsage, PEGGED_PERCENT};
use crate::engine::{watches, worker_snapshot, InspectAsyncTasksArgs, TaskQuery};
use crate::process::{table, ProcessModel, ProcessRecord};
use crate::telemetry::{CollectorModel, SnapshotModel, TaskStatus};
use crate::text::lowercase;
use crate::text_laws::{law_search_finds_any_position, law_search_is_by_occurrence, occurs_in};
use vstd::arithmetic::power2::{lemma_pow2_pos, pow2};
use vstd::prelude::*;

verus! {

/// A process is watched with a filter exactly where the filter stands somewhere in its name, and
/// without one exactly where the name of a daemon does.
pub proof fn law_watched_by_occurrence(filter: Seq<char>, name: Seq<char>)
    ensures
        watches(Some(filter), name) <==> occurs_in(filter, name),
        watches(None, name) <==> occurs_in("pushframe"@, name) || occurs_in("vta"@, name)
            || occurs_in("aegis"@, name),
{
    law_search_is_by_occurrence(name, filter);
    law_search_is_by_occurrence(name, "pushframe"@);
    law_search_is_by_occurrence(name, "vta"@);
    law_search_is_by_occurrence(name, "aegis"@);
}

/// A name filter selects a process wherever in the name it stands: whatever is before it and
/// whatever is behind it.
pub proof fn law_name_filter_selects_at_any_position(
    query: TaskQuery,
    process: ProcessModel,
    filter: Seq<char>,
    before: Seq<char>,
    after: Seq<char>,
)
    requires
        query.process_name == Some(filter),
        query.target_pid is None || query.target_pid == Some(process.pid),
        lowercase(process.name) == before + lowercase(filter) + after,
    ensures
        query.selects(process),
{
    law_search_finds_any_position(before, lowercase(filter), after);
}

/// A query selects exactly the processes with the wanted id, if it wants one, whose name has the
/// filter in it or, without a filter, the name of a daemon, in whatever letter case.
pub proof fn law_selection(query: TaskQuery, process: ProcessModel)
    ensures
        query.selects(process) <==> {
            &&& match query.process_name {
                Some(filter) => occurs_in(lowercase(filter), lowercase(process.name)),
                None => {
                    ||| occurs_in("pushframe"@, lowercase(process.name))
                    ||| occurs_in("vta"@, lowercase(process.name))
                    ||| occurs_in("aegis"@, lowercase(process.name))
                },
            }
            &&& match query.target_pid {
                Some(pid) => process.pid == pid,
                None => true,
            }
        },
{
    match query.process_name {
        Some(filter) => {
            law_watched_by_occurrence(lowercase(filter), lowercase(process.name));
        },
        None => {
            law_watched_by_occurrence(Seq::empty(), lowercase(process.name));
        },
    }
}

/// Of a process, its name and its id alone decide whether a query selects it; of the query, its
/// filter and the wanted id.
pub proof fn law_selection_reads_name_and_id(
    query: TaskQuery,
    other_query: TaskQuery,
    process: ProcessModel,
    other: ProcessModel,
)
    requires
        query.process_name == other_query.process_name,
        query.target_pid == other_query.target_pid,
        process.name == other.name,
        process.pid == other.pid,
    ensures
        query.selects(process) == other_query.selects(other),
{
}

/// A load exceeds 80 percent exactly where its bit pattern is behind that of 80.0, and not behind
/// that of infinity: patterns of positive numbers are in the order of the numbers.
pub proof fn law_load_over_eighty(usage: CpuUsage)
    ensures
        usage.exceeds(PEGGED_PERCENT as nat) <==> 0x42a0_0000 < usage.bits <= 0x7f80_0000,
{
    if usage.bits < 0x7f80_0000 {
        lemma_pegged(usage);
    }
}

/// The whole percent of a load, by its bit pattern: below 1.0 none, then the significand shifted
/// to its place, and from 2^64 on the largest number; none for what is negative or no number.
pub proof fn law_whole_percent(usage: CpuUsage)
    ensures
        ({
            let bits = usage.bits as int;
            let significand = 0x80_0000 + bits % 0x80_0000;
            let exponent = bits / 0x80_0000;
            usage.whole() == if bits < 0x3f80_0000 {
                0
            } else if bits < 0x4b00_0000 {
                significand / (pow2((150 - exponent) as nat) as int)
            } else if bits < 0x5f80_0000 {
                significand * pow2((exponent - 150) as nat)
            } else if bits <= 0x7f80_0000 {
                0xffff_ffff_ffff_ffff
            } else {
                0
            }
        }),
{
    if usage.bits < 0x7f80_0000 {
        lemma_whole(usage);
    }
}

/// The snapshot of a process shows its id, its name with the mark of a worker, and its load in
/// whole percent: as milliseconds of the last poll, and ten times that in all.
pub proof fn law_worker_snapshot(process: ProcessModel)
    ensures
        ({
            let task = worker_snapshot(process);
            let percent = process.cpu_usage.whole();
            &&& task.task_id == process.pid
            &&& task.name == process.name + "::worker_thread"@
            &&& task.poll_count == 1
            &&& task.idle_time_us == 0
            &&& task.status == TaskStatus::Starved
            &&& task.last_poll_duration_us == if percent * 1000 <= u64::MAX {
                percent * 1000
            } else {
                u64::MAX as int
            }
            &&& task.total_poll_time_us == if percent * 10000 <= u64::MAX {
                percent * 10000
            } else {
                u64::MAX as int
            }
        }),
{
    lemma_whole_range(process.cpu_usage);
}

/// The whole percent of a load is no negative number.
proof fn lemma_whole_range(usage: CpuUsage)
    ensures
        0 <= usage.whole() <= u64::MAX,
{
    let scale = pow2((usage.exponent() - 1) as nat) as int;
    let significand = 0x80_0000 + usage.fraction();
    lemma_pow2_pos(149);
    lemma_pow2_pos((usage.exponent() - 1) as nat);
    assert(significand * scale >= 0) by (nonlinear_arith)
        requires
            significand >= 0,
            scale >= 0,
    ;
    let magnitude = usage.magnitude();
    let unit = pow2(149) as int;
    assert(magnitude / unit >= 0) by (nonlinear_arith)
        requires
            magnitude >= 0,
            unit > 0,
    ;
}

/// The pegged processes of a table are found process by process, in the order of the table: one
/// gives its snapshot if the query selects it and its load is over 80 percent, and else nothing.
pub proof fn law_pegged_by_process(
    query: TaskQuery,
    first: Seq<ProcessModel>,
    second: Seq<ProcessModel>,
    process: ProcessModel,
)
    ensures
        query.pegged(first + second) == query.pegged(first) + query.pegged(second),
        query.pegged(Seq::empty()).len() == 0,
        query.pegged(seq![process]) == if query.selects(process) && 0x42a0_0000
            < process.cpu_usage.bits <= 0x7f80_0000 {
            seq![worker_snapshot(process)]
        } else {
            Seq::empty()
        },
    decreases second.len(),
{
    let worker_of = |process: ProcessModel|
        if query.selects(process) && process.cpu_usage.exceeds(PEGGED_PERCENT as nat) {
            Some(worker_snapshot(process))
        } else {
            None
        };
    law_load_over_eighty(process.cpu_usage);
    let alone = seq![process];
    alone.lemma_filter_map_take_succ(worker_of, 0);
    assert(alone.take(1) == alone);
    assert(alone.take(0).filter_map(worker_of) == Seq::<SnapshotModel>::empty());
    if second.len() == 0 {
        assert(first + second == first);
        assert(query.pegged(first) + query.pegged(second) == query.pegged(first));
    } else {
        let rest = second.drop_last();
        let n = rest.len() as int;
        law_pegged_by_process(query, first, rest, process);
        second.lemma_filter_map_take_succ(worker_of, n);
        assert(second.take(n) == rest && second.take(n + 1) == second);
        let all = first + second;
        all.lemma_filter_map_take_succ(worker_of, first.len() + n);
        assert(all.take(first.len() + n) == first + rest);
        assert(all.take(first.len() + n + 1) == all);
        assert(all[first.len() + n] == second[n]);
    }
}

/// Whether a text ends with the mark of a worker.
pub open spec fn is_marked(name: Seq<char>) -> bool {
    exists|part: Seq<char>| name == #[trigger] (part + "::worker_thread"@)
}

/// A query is about a recorded task exactly where the task has the wanted id, if there is one, and
/// its filter, if there is one, stands in the name: in the part before the mark of a worker, and
/// in all of a name without that mark.
pub proof fn law_concern(query: TaskQuery, task: SnapshotModel, process_name: Seq<char>)
    requires
        task.name == process_name + "::worker_thread"@ || (task.name == process_name && !is_marked(
            task.name,
        )),
    ensures
        query.concerns(task) <==> {
            &&& match query.process_name {
                Some(filter) => occurs_in(lowercase(filter), lowercase(process_name)),
                None => true,
            }
            &&& match query.target_pid {
                Some(pid) => task.task_id == pid,
                None => true,
            }
        },
{
    let mark = "::worker_thread"@;
    if mark.len() <= task.name.len() {
        let cut = task.name.len() - mark.len();
        if task.name == process_name + mark {
            assert(task.name.skip(cut) == mark);
            assert(task.name.take(cut) == process_name);
        } else if task.name.skip(cut) == mark {
            assert(task.name == task.name.take(cut) + mark);
        }
    }
    if let Some(filter) = query.process_name {
        law_search_is_by_occurrence(lowercase(process_name), lowercase(filter));
    }
}

/// What a query finds on record is found task by task, oldest first: one that the query is about
/// is found if it was marked as starved, or if its last poll took at least as many milliseconds as
/// the query asks for; where that asks for none, more microseconds than the default.
pub proof fn law_on_record_by_task(
    query: TaskQuery,
    telemetry: CollectorModel,
    first: Seq<SnapshotModel>,
    second: Seq<SnapshotModel>,
    task: SnapshotModel,
)
    ensures
        query.on_record(CollectorModel { tasks: first + second, ..telemetry }) == query.on_record(
            CollectorModel { tasks: first, ..telemetry },
        ) + query.on_record(CollectorModel { tasks: second, ..telemetry }),
        query.on_record(CollectorModel { tasks: Seq::empty(), ..telemetry }).len() == 0,
        query.on_record(CollectorModel { tasks: seq![task], ..telemetry }) == if query.concerns(task)
            && (task.status == TaskStatus::Starved || match query.min_poll_duration_ms {
            Some(ms) => task.last_poll_duration_us >= ms * 1000 || task.last_poll_duration_us
                == u64::MAX,
            None => task.last_poll_duration_us > telemetry.threshold_us,
        }) {
            seq![task]
        } else {
            Seq::empty()
        },
{
    let pred = |task: SnapshotModel|
        query.concerns(task) && query.flags(task, telemetry.threshold_us);
    Seq::filter_distributes_over_add(first, second, pred);
    reveal(Seq::filter);
    assert(seq![task].drop_last() == Seq::<SnapshotModel>::empty());
    assert(Seq::<SnapshotModel>::empty().filter(pred) == Seq::<SnapshotModel>::empty());
    assert(Seq::<SnapshotModel>::empty().push(task) == seq![task]);
}

/// What a query finds in the process table is found process by process: a pegged one that it
/// selects is shown unless the query asks for longer polls than it has.
pub proof fn law_live_by_process(
    query: TaskQuery,
    first: Seq<ProcessModel>,
    second: Seq<ProcessModel>,
    process: ProcessModel,
)
    ensures
        query.live(first + second) == query.live(first) + query.live(second),
        query.live(Seq::empty()).len() == 0,
        query.live(seq![process]) == if query.selects(process) && 0x42a0_0000
            < process.cpu_usage.bits <= 0x7f80_0000 && match query.min_poll_duration_ms {
            Some(ms) => worker_snapshot(process).last_poll_duration_us >= ms * 1000
                || worker_snapshot(process).last_poll_duration_us == u64::MAX,
            None => true,
        } {
            seq![worker_snapshot(process)]
        } else {
            Seq::empty()
        },
{
    let pred = |task: SnapshotModel| query.reaches(task);
    law_pegged_by_process(query, first, second, process);
    Seq::filter_distributes_over_add(query.pegged(first), query.pegged(second), pred);
    reveal(Seq::filter);
    let task = worker_snapshot(process);
    assert(seq![task].drop_last() == Seq::<SnapshotModel>::empty());
    assert(Seq::<SnapshotModel>::empty().filter(pred) == Seq::<SnapshotModel>::empty());
    assert(Seq::<SnapshotModel>::empty().push(task) == seq![task]);
    assert(query.pegged(Seq::empty()) == Seq::<SnapshotModel>::empty());
}

/// A report has as many items as there are, up to the limit of the query but never over 50, and up
/// to 20 without a limit: first what is on record, then what the process table shows.
pub proof fn law_report_fills_the_limit(
    query: TaskQuery,
    telemetry: CollectorModel,
    processes: Seq<ProcessModel>,
    i: int,
)
    ensures
        ({
            let report = query.report(telemetry, processes);
            let recorded = query.on_record(telemetry);
            let live = query.live(processes);
            let found = recorded.len() + live.len();
            &&& query.limit is None ==> report.len() == if found < 20 {
                found
            } else {
                20
            }
            &&& query.limit matches Some(limit) ==> {
                &&& limit <= 50 && limit <= found ==> report.len() == limit
                &&& limit <= 50 && limit >= found ==> report.len() == found
                &&& limit >= 50 && found >= 50 ==> report.len() == 50
                &&& limit >= 50 && found <= 50 ==> report.len() == found
            }
            &&& 0 <= i < report.len() ==> report[i] == if i < recorded.len() {
                recorded[i]
            } else {
                live[i - recorded.len()]
            }
        }),
{
}

/// A limit cuts reports and nothing else: of two queries that differ in their limits alone, the
/// report of one is the beginning of that of the other, and both record the same.
pub proof fn law_limit_only_cuts(
    query: TaskQuery,
    limit: Option<usize>,
    telemetry: CollectorModel,
    processes: Seq<ProcessModel>,
)
    ensures
        ({
            let other = TaskQuery { limit, ..query };
            let a = query.report(telemetry, processes);
            let b = other.report(telemetry, processes);
            &&& a.len() <= b.len() ==> a == b.take(a.len() as int)
            &&& b.len() <= a.len() ==> b == a.take(b.len() as int)
            &&& query.pegged(processes) == other.pegged(processes)
        }),
{
    let other = TaskQuery { limit, ..query };
    let a = query.report(telemetry, processes);
    let b = other.report(telemetry, processes);
    lemma_same_findings(query, other, telemetry, processes);
    assert(a.len() <= b.len() ==> a =~= b.take(a.len() as int));
    assert(b.len() <= a.len() ==> b =~= a.take(b.len() as int));
}

/// Queries with the same filter, wanted id and threshold find the same.
proof fn lemma_same_findings(
    query: TaskQuery,
    other: TaskQuery,
    telemetry: CollectorModel,
    processes: Seq<ProcessModel>,
)
    requires
        query.process_name == other.process_name,
        query.target_pid == other.target_pid,
        query.min_poll_duration_ms == other.min_poll_duration_ms,
    ensures
        query.on_record(telemetry) == other.on_record(telemetry),
        query.pegged(processes) == other.pegged(processes),
        query.live(processes) == other.live(processes),
{
    let flagged = |task: SnapshotModel|
        query.concerns(task) && query.flags(task, telemetry.threshold_us);
    let other_flagged = |task: SnapshotModel|
        other.concerns(task) && other.flags(task, telemetry.threshold_us);
    assert(flagged =~= other_flagged);
    let worker_of = |process: ProcessModel|
        if query.selects(process) && process.cpu_usage.exceeds(PEGGED_PERCENT as nat) {
            Some(worker_snapshot(process))
        } else {
            None
        };
    let other_worker_of = |process: ProcessModel|
        if other.selects(process) && process.cpu_usage.exceeds(PEGGED_PERCENT as nat) {
            Some(worker_snapshot(process))
        } else {
            None
        };
    assert(worker_of =~= other_worker_of);
    let reached = |task: SnapshotModel| query.reaches(task);
    let other_reached = |task: SnapshotModel| other.reaches(task);
    assert(reached =~= other_reached);
}

/// What is recorded of a table depends on which processes a query selects, not on its threshold
/// or its limit.
pub proof fn law_recording_ignores_threshold_and_limit(
    query: TaskQuery,
    min_poll_duration_ms: Option<u64>,
    limit: Option<usize>,
    processes: Seq<ProcessModel>,
)
    ensures
        (TaskQuery { min_poll_duration_ms, limit, ..query }).pegged(processes) == query.pegged(
            processes,
        ),
{
    let other = TaskQuery { min_poll_duration_ms, limit, ..query };
    let worker_of = |process: ProcessModel|
        if query.selects(process) && process.cpu_usage.exceeds(PEGGED_PERCENT as nat) {
            Some(worker_snapshot(process))
        } else {
            None
        };
    let other_worker_of = |process: ProcessModel|
        if other.selects(process) && process.cpu_usage.exceeds(PEGGED_PERCENT as nat) {
            Some(worker_snapshot(process))
        } else {
            None
        };
    assert(worker_of =~= other_worker_of);
}

/// The models of a query and of a process table show every field as it was given.
pub proof fn law_queries_and_tables_show_their_fields(
    args: InspectAsyncTasksArgs,
    processes: Seq<ProcessRecord>,
    i: int,
)
    ensures
        args@.process_name == match args.process_name {
            Some(name) => Some(name@),
            None => None,
        },
        args@.target_pid == args.target_pid,
        args@.min_poll_duration_ms == args.min_poll_duration_ms,
        args@.limit == args.limit,
        table(processes).len() == processes.len(),
        0 <= i < processes.len() ==> {
            let process = table(processes)[i];
            &&& process.pid == processes[i].pid
            &&& process.name == processes[i].name@
            &&& process.exe_path == match processes[i].exe_path {
                Some(path) => Some(path@),
                None => None,
            }
            &&& process.memory_bytes == processes[i].memory_bytes
            &&& process.cpu_usage == processes[i].cpu_usage
        },
{
}

} // verus!
