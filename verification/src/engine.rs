//! The cockpit engine: lock inspection, process termination and task telemetry.

use crate::cpu::PEGGED_PERCENT;
use crate::error::{CockpitError, ErrorModel};
use crate::locks::{is_sort_by_pid, list_locks, lock_models, InspectLocksArgs, ProcessLockInfo};
use crate::process::{find_process, process_with_pid, table, ProcessModel, ProcessRecord};
use crate::telemetry::{
    capped_product, is_starved, oldest, saturating_product, snapshot_models, CollectorModel,
    RuntimeHealthSummary, SnapshotModel, TaskMetricSnapshot, TaskStatus, TelemetryCollector,
};
use crate::text::{
    as_slice, contains, decimal, has_substring, lowercase, lowercase_of, lowercase_option,
    push_decimal, to_lowercase,
};
use vstd::prelude::*;

verus! {

/// Which process to terminate. Termination is always forced, whatever `force` says.
#[derive(Debug)]
pub struct KillProcessLockArgs {
    pub pid: u32,
    pub force: Option<bool>,
}

/// Which tasks to report.
#[derive(Debug)]
pub struct InspectAsyncTasksArgs {
    pub process_name: Option<String>,
    pub target_pid: Option<u32>,
    pub min_poll_duration_ms: Option<u64>,
    pub limit: Option<usize>,
}

/// A task query, with its filter as a sequence of characters.
#[verifier::ext_equal]
pub struct TaskQuery {
    pub process_name: Option<Seq<char>>,
    pub target_pid: Option<u32>,
    pub min_poll_duration_ms: Option<u64>,
    pub limit: Option<usize>,
}

impl View for InspectAsyncTasksArgs {
    type V = TaskQuery;

    open spec fn view(&self) -> TaskQuery {
        TaskQuery {
            process_name: self.process_name.deep_view(),
            target_pid: self.target_pid,
            min_poll_duration_ms: self.min_poll_duration_ms,
            limit: self.limit,
        }
    }
}

impl InspectAsyncTasksArgs {
    /// The arguments of a call: those that could be decoded, or none at all.
    pub fn or_unfiltered(decoded: Option<InspectAsyncTasksArgs>) -> (args: InspectAsyncTasksArgs)
        ensures
            args@ == match decoded {
                Some(given) => given@,
                None => (TaskQuery {
                    process_name: None,
                    target_pid: None,
                    min_poll_duration_ms: None,
                    limit: None,
                }),
            },
    {
        match decoded {
            Some(given) => given,
            None => InspectAsyncTasksArgs {
                process_name: None,
                target_pid: None,
                min_poll_duration_ms: None,
                limit: None,
            },
        }
    }
}

/// Whether a process, by its lowercase name, is watched: it matches the lowercase filter or,
/// without a filter, is one of the workspace daemons.
pub open spec fn watches(filter: Option<Seq<char>>, name: Seq<char>) -> bool {
    match filter {
        Some(wanted) => has_substring(name, wanted),
        None => {
            ||| has_substring(name, "pushframe"@)
            ||| has_substring(name, "vta"@)
            ||| has_substring(name, "aegis"@)
        },
    }
}

/// The snapshot that stands for a process which keeps a core busy.
pub open spec fn worker_snapshot(process: ProcessModel) -> SnapshotModel {
    let percent = process.cpu_usage.whole() as u64;
    SnapshotModel {
        task_id: process.pid as u64,
        name: process.name + "::worker_thread"@,
        poll_count: 1,
        last_poll_duration_us: capped_product(percent, 1000),
        total_poll_time_us: capped_product(percent, 10000),
        idle_time_us: 0,
        status: TaskStatus::Starved,
    }
}

impl TaskQuery {
    /// The threshold in microseconds, where the query sets one.
    pub open spec fn threshold_us(self) -> Option<u64> {
        match self.min_poll_duration_ms {
            Some(ms) => Some(capped_product(ms, 1000)),
            None => None,
        }
    }

    /// The limit on the number of reported tasks: 20 unless the query sets one, and never over 50.
    pub open spec fn item_limit(self) -> usize {
        match self.limit {
            Some(limit) => if limit > 50 {
                50
            } else {
                limit
            },
            None => 20,
        }
    }

    /// Whether the query takes a process into account. Letter case does not matter.
    pub open spec fn selects(self, process: ProcessModel) -> bool {
        &&& watches(lowercase_option(self.process_name), lowercase(process.name))
        &&& self.target_pid matches Some(pid) ==> process.pid == pid
    }

    /// The snapshots of the selected processes that are pegged, in the order of the table.
    pub open spec fn pegged(self, processes: Seq<ProcessModel>) -> Seq<SnapshotModel> {
        processes.filter_map(
            |process: ProcessModel|
                if self.selects(process) && process.cpu_usage.exceeds(PEGGED_PERCENT as nat) {
                    Some(worker_snapshot(process))
                } else {
                    None
                },
        )
    }

    /// Whether a snapshot is of a task that the query is about. Letter case does not matter.
    pub open spec fn concerns(self, task: SnapshotModel) -> bool {
        concerns_task(lowercase_option(self.process_name), self.target_pid, task)
    }

    /// Whether a snapshot on record counts as starved: it was marked so, or its last poll reached
    /// the threshold of the query or, where that sets none, exceeded the default.
    pub open spec fn flags(self, task: SnapshotModel, default_us: u64) -> bool {
        match self.threshold_us() {
            Some(threshold) => is_starved(task, threshold),
            None => task.last_poll_duration_us > default_us || task.status == TaskStatus::Starved,
        }
    }

    /// Whether the snapshot of a pegged process is past the threshold, where the query sets one.
    pub open spec fn reaches(self, task: SnapshotModel) -> bool {
        self.threshold_us() matches Some(threshold) ==> task.last_poll_duration_us >= threshold
    }

    /// The starved tasks on record that the query is about, oldest first.
    pub open spec fn on_record(self, telemetry: CollectorModel) -> Seq<SnapshotModel> {
        telemetry.tasks.filter(
            |task: SnapshotModel| self.concerns(task) && self.flags(task, telemetry.threshold_us),
        )
    }

    /// The selected pegged processes that are past the threshold, in the order of the table.
    pub open spec fn live(self, processes: Seq<ProcessModel>) -> Seq<SnapshotModel> {
        self.pegged(processes).filter(|task: SnapshotModel| self.reaches(task))
    }

    /// What the query reports: the starved tasks on record and then the pegged processes, as many
    /// as the limit allows.
    pub open spec fn report(
        self,
        telemetry: CollectorModel,
        processes: Seq<ProcessModel>,
    ) -> Seq<SnapshotModel> {
        oldest(self.on_record(telemetry) + self.live(processes), self.item_limit() as nat)
    }
}

/// The name of the process that a task belongs to: its own name, without the mark of a worker.
pub open spec fn daemon_name(name: Seq<char>) -> Seq<char> {
    let mark = "::worker_thread"@;
    if mark.len() <= name.len() && name.skip(name.len() - mark.len()) == mark {
        name.take(name.len() - mark.len())
    } else {
        name
    }
}

/// Whether a snapshot is of a task with the wanted id, and the name of its process holds the
/// lowercase filter.
pub open spec fn concerns_task(
    filter: Option<Seq<char>>,
    target_pid: Option<u32>,
    task: SnapshotModel,
) -> bool {
    &&& filter matches Some(wanted) ==> has_substring(
        lowercase(daemon_name(task.name)),
        wanted,
    )
    &&& target_pid matches Some(pid) ==> task.task_id == pid
}

fn process_part(name: &str) -> (part: &str)
    ensures
        part@ == daemon_name(name@),
{
    let mark = "::worker_thread";
    let count: usize = name.unicode_len();
    let mark_count: usize = mark.unicode_len();
    if mark_count <= count {
        let start: usize = count - mark_count;
        let end = name.substring_char(start, count).to_owned();
        assert(end@ == name@.skip(name@.len() - mark@.len()));
        if end == mark.to_owned() {
            let part = name.substring_char(0, start);
            assert(part@ == name@.take(name@.len() - mark@.len()));
            return part;
        }
    }
    name
}

fn concerns(filter: &Option<String>, target_pid: Option<u32>, task: &TaskMetricSnapshot) -> (about:
    bool)
    ensures
        about == concerns_task(filter.deep_view(), target_pid, task@),
{
    let name_match = match filter {
        Some(wanted) => contains(
            to_lowercase(process_part(task.name.as_str())).as_str(),
            wanted.as_str(),
        ),
        None => true,
    };
    let pid_match = match target_pid {
        Some(pid) => task.task_id == pid as u64,
        None => true,
    };
    name_match && pid_match
}

/// One more item at the end of a sequence that is cut to a length.
proof fn lemma_oldest_push<A>(s: Seq<A>, n: nat, item: A)
    ensures
        s.len() < n ==> oldest(s.push(item), n) == oldest(s, n).push(item),
        s.len() >= n ==> oldest(s.push(item), n) == oldest(s, n),
{
    if s.len() >= n {
        assert(s.push(item).take(n as int) == s.take(n as int));
        assert(s.take(s.len() as int) == s);
    }
}

/// Whether a process is watched, given that every text is already in lowercase.
pub fn watches_lowercase(filter: Option<&str>, name: &str) -> (watched: bool)
    ensures
        watched == watches(filter.deep_view(), name@),
{
    match filter {
        Some(wanted) => contains(name, wanted),
        None => contains(name, "pushframe") || contains(name, "vta") || contains(name, "aegis"),
    }
}

fn snapshot_of(process: &ProcessRecord) -> (snapshot: TaskMetricSnapshot)
    ensures
        snapshot@ == worker_snapshot(process@),
{
    let percent: u64 = process.cpu_usage.whole_percent();
    let mut name = process.name.clone();
    name.append("::worker_thread");
    TaskMetricSnapshot {
        task_id: process.pid as u64,
        name,
        poll_count: 1,
        last_poll_duration_us: saturating_product(percent, 1000),
        total_poll_time_us: saturating_product(percent, 10000),
        idle_time_us: 0,
        status: TaskStatus::Starved,
    }
}

/// The text that reports a termination.
pub open spec fn termination_text(name: Seq<char>, pid: u32) -> Seq<char> {
    "Successfully terminated process '"@ + name + "' (PID "@ + decimal(pid as nat) + ")"@
}

/// What a termination request comes to, given the process table and whether the system accepted
/// the termination.
pub open spec fn kill_outcome(
    processes: Seq<ProcessModel>,
    pid: u32,
    killed: bool,
) -> Result<Seq<char>, ErrorModel> {
    match process_with_pid(processes, pid) {
        None => Err(ErrorModel::ProcessNotFound(pid)),
        Some(process) => if killed {
            Ok(termination_text(process.name, pid))
        } else {
            Err(ErrorModel::KillFailed(pid))
        },
    }
}

/// The view of an outcome.
pub open spec fn outcome_view(outcome: Result<String, CockpitError>) -> Result<
    Seq<char>,
    ErrorModel,
> {
    match outcome {
        Ok(text) => Ok(text@),
        Err(error) => Err(error@),
    }
}

/// The state of the cockpit between requests.
pub struct CockpitEngine {
    telemetry: TelemetryCollector,
}

impl View for CockpitEngine {
    type V = CollectorModel;

    closed spec fn view(&self) -> CollectorModel {
        self.telemetry@
    }
}

impl Default for CockpitEngine {
    fn default() -> (engine: Self)
        ensures
            engine.wf(),
            engine@.tasks == Seq::<SnapshotModel>::empty(),
    {
        Self::new()
    }
}

impl CockpitEngine {
    /// The invariant that every operation keeps: a ring of 5000 snapshots with a starvation
    /// threshold of 50 ms.
    pub open spec fn wf(&self) -> bool {
        &&& self@.valid()
        &&& self@.capacity == 5000
        &&& self@.threshold_us == 50_000
    }

    /// An engine without any recorded task.
    pub fn new() -> (engine: Self)
        ensures
            engine.wf(),
            engine@.tasks == Seq::<SnapshotModel>::empty(),
    {
        CockpitEngine { telemetry: TelemetryCollector::default() }
    }

    /// The processes that may hold locks, in ascending order of their ids. `processes` is the
    /// refreshed process table.
    pub fn inspect_locks(&self, args: InspectLocksArgs, processes: &Vec<ProcessRecord>) -> (locks:
        Vec<ProcessLockInfo>)
        ensures
            is_sort_by_pid(lock_models(locks@), args@.listed(table(processes@))),
    {
        list_locks(&args, processes)
    }

    /// The process to terminate, or the error where the table has none with that id.
    pub fn plan_kill<'a>(
        &self,
        args: &KillProcessLockArgs,
        processes: &'a Vec<ProcessRecord>,
    ) -> (target: Result<&'a ProcessRecord, CockpitError>)
        ensures
            match process_with_pid(table(processes@), args.pid) {
                Some(process) => target matches Ok(found) && found@ == process
                    && found.pid == args.pid,
                None => target matches Err(error) && error@ == ErrorModel::ProcessNotFound(
                    args.pid,
                ),
            },
    {
        proof {
            let pred = |process: ProcessModel| process.pid == args.pid;
            if table(processes@).filter(pred).len() > 0 {
                table(processes@).lemma_filter_pred(pred, 0);
            }
        }
        match find_process(processes, args.pid) {
            Some(process) => Ok(process),
            None => Err(CockpitError::ProcessNotFound(args.pid)),
        }
    }

    /// The outcome of a termination request. `processes` is the refreshed process table, and
    /// `killed` what the system answered for the planned target; it is not read where there is no
    /// target.
    pub fn kill_process(
        &self,
        args: KillProcessLockArgs,
        processes: &Vec<ProcessRecord>,
        killed: bool,
    ) -> (outcome: Result<String, CockpitError>)
        ensures
            outcome_view(outcome) == kill_outcome(table(processes@), args.pid, killed),
    {
        match self.plan_kill(&args, processes) {
            Ok(process) => {
                if killed {
                    let mut text = "Successfully terminated process '".to_owned();
                    text.append(process.name.as_str());
                    text.append("' (PID ");
                    push_decimal(&mut text, args.pid);
                    text.append(")");
                    Ok(text)
                } else {
                    Err(CockpitError::KillFailed(args.pid))
                }
            },
            Err(error) => Err(error),
        }
    }

    /// The starved tasks on record that a query is about, up to its limit. `filter` is the name
    /// filter of the query in lowercase.
    fn starved_on_record(
        &self,
        args: &InspectAsyncTasksArgs,
        filter: &Option<String>,
        limit: usize,
    ) -> (found: Vec<TaskMetricSnapshot>)
        requires
            filter.deep_view() == lowercase_option(args@.process_name),
        ensures
            snapshot_models(found@) == oldest(args@.on_record(self@), limit as nat),
    {
        let ghost query = args@;
        let ghost default_us = self@.threshold_us;
        let ghost pred = |task: SnapshotModel|
            query.concerns(task) && query.flags(task, default_us);
        let ghost tasks = self@.tasks;
        let buffer = self.telemetry.buffer();
        let default_threshold: u64 = self.telemetry.threshold_us();
        let threshold: Option<u64> = match args.min_poll_duration_ms {
            Some(ms) => Some(saturating_product(ms, 1000)),
            None => None,
        };
        let mut found: Vec<TaskMetricSnapshot> = Vec::new();
        let mut i: usize = 0;
        proof {
            reveal(Seq::filter);
            assert(tasks.take(0).filter(pred) == Seq::<SnapshotModel>::empty());
        }
        while i < buffer.len() && found.len() < limit
            invariant
                i <= buffer.len(),
                found.len() <= limit,
                query == args@,
                threshold == query.threshold_us(),
                default_threshold == default_us,
                filter.deep_view() == lowercase_option(query.process_name),
                tasks == snapshot_models(buffer@),
                pred == (|task: SnapshotModel|
                    query.concerns(task) && query.flags(task, default_us)),
                snapshot_models(found@) == tasks.take(i as int).filter(pred),
            decreases buffer.len() - i,
        {
            let task = &buffer[i];
            proof {
                reveal(Seq::filter);
                assert(tasks.take(i + 1).drop_last() == tasks.take(i as int));
                assert(tasks.take(i + 1).last() == task@);
            }
            let slow = match threshold {
                Some(t) => task.last_poll_duration_us >= t,
                None => task.last_poll_duration_us > default_threshold,
            };
            if concerns(filter, args.target_pid, task) && (slow || task.status
                == TaskStatus::Starved) {
                found.push(task.clone());
            }
            i += 1;
        }
        proof {
            let head = tasks.take(i as int);
            let tail = tasks.skip(i as int);
            assert(tasks == head + tail);
            Seq::filter_distributes_over_add(head, tail, pred);
            if i == buffer.len() {
                assert(head == tasks);
            }
            assert(snapshot_models(found@) == oldest(tasks.filter(pred), limit as nat));
            assert(args@.on_record(self@) == tasks.filter(pred));
        }
        found
    }

    /// The starved tasks that a query is about. The pegged processes that it selects are recorded,
    /// each of them, and reported as far as its threshold and its limit allow. `processes` is the
    /// refreshed process table.
    pub fn inspect_async_tasks(
        &mut self,
        args: InspectAsyncTasksArgs,
        processes: &Vec<ProcessRecord>,
    ) -> (tasks: Vec<TaskMetricSnapshot>)
        requires
            old(self).wf(),
        ensures
            final(self).wf(),
            final(self)@ == old(self)@.record_all(args@.pegged(table(processes@))),
            snapshot_models(tasks@) == args@.report(old(self)@, table(processes@)),
    {
        let ghost query = args@;
        let ghost all = table(processes@);
        let ghost start = self@;
        let ghost worker_of = |process: ProcessModel|
            if query.selects(process) && process.cpu_usage.exceeds(PEGGED_PERCENT as nat) {
                Some(worker_snapshot(process))
            } else {
                None
            };
        let ghost pred = |task: SnapshotModel| query.reaches(task);
        let limit: usize = match args.limit {
            Some(limit) => if limit > 50 {
                50
            } else {
                limit
            },
            None => 20,
        };
        let filter: Option<String> = lowercase_of(&args.process_name);
        let mut results = self.starved_on_record(&args, &filter, limit);
        let ghost recorded = query.on_record(start);
        let mut i: usize = 0;
        proof {
            reveal(Seq::filter);
            assert(all.take(0).filter_map(worker_of) == Seq::<SnapshotModel>::empty());
            assert(all.take(0).filter_map(worker_of).filter(pred) == Seq::<
                SnapshotModel,
            >::empty());
            assert(recorded + Seq::<SnapshotModel>::empty() == recorded);
        }
        while i < processes.len()
            invariant
                i <= processes.len(),
                query == args@,
                all == table(processes@),
                worker_of == (|process: ProcessModel|
                    if query.selects(process) && process.cpu_usage.exceeds(PEGGED_PERCENT as nat) {
                        Some(worker_snapshot(process))
                    } else {
                        None
                    }),
                pred == (|task: SnapshotModel| query.reaches(task)),
                filter.deep_view() == lowercase_option(query.process_name),
                self@ == start.record_all(all.take(i as int).filter_map(worker_of)),
                self.wf(),
                snapshot_models(results@) == oldest(
                    recorded + all.take(i as int).filter_map(worker_of).filter(pred),
                    limit as nat,
                ),
            decreases processes.len() - i,
        {
            let process = &processes[i];
            let ghost so_far = all.take(i as int).filter_map(worker_of);
            proof {
                all.lemma_filter_map_take_succ(worker_of, i as int);
            }
            let lower_name = to_lowercase(process.name.as_str());
            let matches_filter = watches_lowercase(as_slice(&filter), lower_name.as_str());
            let matches_pid = match args.target_pid {
                Some(pid) => process.pid == pid,
                None => true,
            };
            if matches_filter && matches_pid && process.cpu_usage.is_pegged() {
                let snapshot = snapshot_of(process);
                let ghost model = snapshot@;
                let ghost shown = recorded + so_far.filter(pred);
                proof {
                    assert(query.selects(all[i as int]));
                    assert(model == worker_snapshot(all[i as int]));
                    assert(all.take(i + 1).filter_map(worker_of) == so_far.push(model));
                    assert(so_far.push(model).drop_last() == so_far);
                    reveal(Seq::filter);
                    lemma_oldest_push(shown, limit as nat, model);
                    assert(recorded + so_far.filter(pred).push(model) == shown.push(model));
                }
                self.telemetry.record_task(snapshot.clone());
                let reaches = match args.min_poll_duration_ms {
                    Some(ms) => snapshot.last_poll_duration_us >= saturating_product(ms, 1000),
                    None => true,
                };
                let ghost before = snapshot_models(results@);
                assert(before.len() == results.len());
                if reaches && results.len() < limit {
                    results.push(snapshot);
                    assert(snapshot_models(results@) == before.push(model));
                }
            }
            i += 1;
        }
        assert(all.take(i as int) == all);
        results
    }

    /// The aggregate figures over the tasks on record.
    pub fn get_runtime_health(&self) -> (health: RuntimeHealthSummary)
        requires
            self.wf(),
        ensures
            self@.is_health(health),
    {
        self.telemetry.get_health_summary()
    }
}

} // verus!
