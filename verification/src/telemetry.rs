//! A bounded ring of task snapshots and the figures drawn from it.

use std::collections::VecDeque;
use vstd::layout::size_of;
use vstd::prelude::*;
use vstd::utf8::encode_utf8;

verus! {

/// What a task was doing when its snapshot was taken.
#[derive(Debug, Clone, Copy, PartialEq, Eq, Structural)]
pub enum TaskStatus {
    Running,
    Yielded,
    Starved,
    Completed,
}

/// The poll statistics of one asynchronous task.
#[derive(Debug)]
pub struct TaskMetricSnapshot {
    pub task_id: u64,
    pub name: String,
    pub poll_count: u64,
    pub last_poll_duration_us: u64,
    pub total_poll_time_us: u64,
    pub idle_time_us: u64,
    pub status: TaskStatus,
}

/// A snapshot, with its name as a sequence of characters.
#[verifier::ext_equal]
pub struct SnapshotModel {
    pub task_id: u64,
    pub name: Seq<char>,
    pub poll_count: u64,
    pub last_poll_duration_us: u64,
    pub total_poll_time_us: u64,
    pub idle_time_us: u64,
    pub status: TaskStatus,
}

impl View for TaskMetricSnapshot {
    type V = SnapshotModel;

    open spec fn view(&self) -> SnapshotModel {
        SnapshotModel {
            task_id: self.task_id,
            name: self.name@,
            poll_count: self.poll_count,
            last_poll_duration_us: self.last_poll_duration_us,
            total_poll_time_us: self.total_poll_time_us,
            idle_time_us: self.idle_time_us,
            status: self.status,
        }
    }
}

impl Clone for TaskMetricSnapshot {
    fn clone(&self) -> (copy: Self)
        ensures
            copy@ == self@,
    {
        TaskMetricSnapshot {
            task_id: self.task_id,
            name: self.name.clone(),
            poll_count: self.poll_count,
            last_poll_duration_us: self.last_poll_duration_us,
            total_poll_time_us: self.total_poll_time_us,
            idle_time_us: self.idle_time_us,
            status: self.status,
        }
    }
}

/// The models of a sequence of snapshots.
pub open spec fn snapshot_models(snapshots: Seq<TaskMetricSnapshot>) -> Seq<SnapshotModel> {
    snapshots.map_values(|snapshot: TaskMetricSnapshot| snapshot@)
}

/// Whether a task is reported as starved: its last poll took at least `threshold_us`, or it was
/// marked as starved when it was recorded.
pub open spec fn is_starved(task: SnapshotModel, threshold_us: u64) -> bool {
    task.last_poll_duration_us >= threshold_us || task.status == TaskStatus::Starved
}

/// The starved tasks among `tasks`, in order.
pub open spec fn starved_among(tasks: Seq<SnapshotModel>, threshold_us: u64) -> Seq<SnapshotModel> {
    tasks.filter(|task: SnapshotModel| is_starved(task, threshold_us))
}

/// The last `n` elements of `s`, or all of it where it is shorter.
pub open spec fn newest<A>(s: Seq<A>, n: nat) -> Seq<A> {
    if s.len() <= n {
        s
    } else {
        s.skip(s.len() - n)
    }
}

/// The first `n` elements of `s`, or all of it where it is shorter.
pub open spec fn oldest<A>(s: Seq<A>, n: nat) -> Seq<A> {
    if s.len() <= n {
        s
    } else {
        s.take(n as int)
    }
}

/// The last poll durations of `tasks`, added up.
pub open spec fn sum_poll_us(tasks: Seq<SnapshotModel>) -> nat
    decreases tasks.len(),
{
    if tasks.len() == 0 {
        0
    } else {
        sum_poll_us(tasks.drop_last()) + tasks.last().last_poll_duration_us as nat
    }
}

/// The longest last poll duration of `tasks`, or 0 where there is none.
pub open spec fn max_poll_us(tasks: Seq<SnapshotModel>) -> nat
    decreases tasks.len(),
{
    if tasks.len() == 0 {
        0
    } else {
        let rest = max_poll_us(tasks.drop_last());
        let last = tasks.last().last_poll_duration_us as nat;
        if last > rest {
            last
        } else {
            rest
        }
    }
}

/// The inline size of `count` snapshots in whole KiB.
pub open spec fn memory_kb(count: nat) -> nat {
    count * size_of::<TaskMetricSnapshot>() / 1024
}

/// `x * y`, or the largest `u64` where that is larger.
pub open spec fn capped_product(x: u64, y: u64) -> u64 {
    if x * y <= u64::MAX {
        (x * y) as u64
    } else {
        u64::MAX
    }
}

/// Multiplies, stopping at the largest `u64`.
pub(crate) fn saturating_product(x: u64, y: u64) -> (product: u64)
    ensures
        product == capped_product(x, y),
{
    match x.checked_mul(y) {
        Some(product) => product,
        None => u64::MAX,
    }
}

/// Aggregate figures over every task that a collector holds.
#[derive(Debug, Clone, Copy)]
pub struct RuntimeHealthSummary {
    pub total_tracked_tasks: usize,
    pub starved_tasks_count: usize,
    pub mean_poll_duration_us: u64,
    pub max_poll_duration_us: u64,
    pub estimated_memory_kb: usize,
}

/// What a collector holds: the recorded tasks from oldest to newest, and its two settings.
#[verifier::ext_equal]
pub struct CollectorModel {
    pub tasks: Seq<SnapshotModel>,
    pub capacity: nat,
    pub threshold_us: u64,
}

/// The number of snapshots that no collector exceeds.
pub const CAPACITY_CEILING: usize = 25_000;

/// The number of bytes below which the snapshots of a collector stay.
pub const MEMORY_CEILING: usize = 5_000_000;

/// The bytes that a name takes in memory.
pub open spec fn name_bytes(name: Seq<char>) -> nat {
    encode_utf8(name).len()
}

/// The bytes that a snapshot takes: inline, and for its name.
pub open spec fn charge(task: SnapshotModel) -> nat {
    size_of::<TaskMetricSnapshot>() + name_bytes(task.name)
}

/// The bytes that `tasks` take together.
pub open spec fn held_bytes(tasks: Seq<SnapshotModel>) -> nat
    decreases tasks.len(),
{
    if tasks.len() == 0 {
        0
    } else {
        held_bytes(tasks.drop_last()) + charge(tasks.last())
    }
}

/// `tasks` without the oldest, as many as have to go for the rest to stay below the memory
/// ceiling.
pub open spec fn below_ceiling(tasks: Seq<SnapshotModel>) -> Seq<SnapshotModel>
    decreases tasks.len(),
{
    if tasks.len() == 0 || held_bytes(tasks) < MEMORY_CEILING {
        tasks
    } else {
        below_ceiling(tasks.drop_first())
    }
}

/// The longest beginning of a name that takes no more than `room` bytes.
pub open spec fn fitting(name: Seq<char>, room: int) -> Seq<char>
    decreases name.len(),
{
    if name.len() == 0 || name_bytes(name) <= room {
        name
    } else {
        fitting(name.drop_last(), room)
    }
}

/// A snapshot as it is kept: as it is wherever it is below the memory ceiling by itself, and else
/// with as much of its name as that leaves room for.
pub open spec fn clipped(task: SnapshotModel) -> SnapshotModel {
    SnapshotModel {
        name: fitting(task.name, MEMORY_CEILING - 1 - size_of::<TaskMetricSnapshot>()),
        ..task
    }
}

/// Whether no two tasks have one id.
pub open spec fn distinct_ids(tasks: Seq<SnapshotModel>) -> bool {
    forall|i: int, j: int|
        0 <= i < j < tasks.len() ==> (#[trigger] tasks[i]).task_id != (#[trigger] tasks[j]).task_id
}

/// The tasks with other ids, in order.
pub open spec fn others(tasks: Seq<SnapshotModel>, task_id: u64) -> Seq<SnapshotModel> {
    tasks.filter(|task: SnapshotModel| task.task_id != task_id)
}

impl CollectorModel {
    /// The collector holds one snapshot for a task, and it is within its capacity and below the
    /// memory ceiling.
    pub open spec fn valid(self) -> bool {
        &&& 1 <= self.capacity <= CAPACITY_CEILING
        &&& self.tasks.len() <= self.capacity
        &&& distinct_ids(self.tasks)
        &&& held_bytes(self.tasks) < MEMORY_CEILING
    }

    /// What the collector would hold after `task` was recorded if memory were no concern: of the
    /// other tasks and `task`, the newest that fit into the capacity.
    pub open spec fn with_task(self, task: SnapshotModel) -> Seq<SnapshotModel> {
        newest(others(self.tasks, task.task_id).push(clipped(task)), self.capacity)
    }

    /// The collector after `task` was recorded or, where it held a snapshot of that task, updated.
    pub open spec fn record(self, task: SnapshotModel) -> CollectorModel {
        CollectorModel { tasks: below_ceiling(self.with_task(task)), ..self }
    }

    /// The collector after `tasks` were recorded one after the other.
    pub open spec fn record_all(self, tasks: Seq<SnapshotModel>) -> CollectorModel
        decreases tasks.len(),
    {
        if tasks.len() == 0 {
            self
        } else {
            self.record_all(tasks.drop_last()).record(tasks.last())
        }
    }

    /// The starved tasks that a query returns, oldest first: those over `min_duration_us` (or over
    /// the collector's own threshold), at most `return_cap(limit)` of them.
    pub open spec fn starved(self, min_duration_us: Option<u64>, limit: usize) -> Seq<
        SnapshotModel,
    > {
        let threshold = match min_duration_us {
            Some(t) => t,
            None => self.threshold_us,
        };
        oldest(starved_among(self.tasks, threshold), return_cap(limit))
    }

    /// The aggregate figures over the tasks that the collector holds.
    pub open spec fn is_health(self, health: RuntimeHealthSummary) -> bool {
        let total = self.tasks.len();
        &&& health.total_tracked_tasks == total
        &&& health.starved_tasks_count == starved_among(self.tasks, self.threshold_us).len()
        &&& health.mean_poll_duration_us == if total == 0 {
            0
        } else {
            sum_poll_us(self.tasks) / total
        }
        &&& health.max_poll_duration_us == max_poll_us(self.tasks)
        &&& health.estimated_memory_kb == memory_kb(total)
    }
}

/// The beginning of a name takes no more bytes than the name.
proof fn lemma_prefix_bytes(name: Seq<char>, k: int)
    requires
        0 <= k <= name.len(),
    ensures
        name_bytes(name.take(k)) <= name_bytes(name),
    decreases name.len(),
{
    if k > 0 {
        lemma_prefix_bytes(name.drop_first(), k - 1);
        assert(name.take(k).drop_first() == name.drop_first().take(k - 1));
    }
}

/// The longest beginning that fits is the one that fits while the next longer one does not.
proof fn lemma_fitting(name: Seq<char>, k: int, room: int)
    requires
        0 <= k <= name.len(),
        k == 0 || name_bytes(name.take(k)) <= room,
        k == name.len() || name_bytes(name.take(k + 1)) > room,
    ensures
        fitting(name, room) == name.take(k),
    decreases name.len(),
{
    if k == name.len() {
        assert(name.take(k) == name);
    } else {
        let rest = name.drop_last();
        lemma_prefix_bytes(name, k + 1);
        assert(rest.take(k) == name.take(k));
        if k < rest.len() {
            assert(rest.take(k + 1) == name.take(k + 1));
        }
        lemma_fitting(rest, k, room);
    }
}

/// What is kept of a snapshot is below the memory ceiling, where there is room for one at all.
pub(crate) proof fn lemma_clipped(task: SnapshotModel)
    ensures
        charge(task) < MEMORY_CEILING ==> clipped(task) == task,
        size_of::<TaskMetricSnapshot>() < MEMORY_CEILING ==> charge(clipped(task))
            < MEMORY_CEILING,
{
    let room = MEMORY_CEILING - 1 - size_of::<TaskMetricSnapshot>();
    if room >= 0 {
        lemma_fitting_fits(task.name, room);
    }
}

/// What fits of a name takes no more than the room.
proof fn lemma_fitting_fits(name: Seq<char>, room: int)
    requires
        room >= 0,
    ensures
        name_bytes(fitting(name, room)) <= room,
    decreases name.len(),
{
    if name.len() > 0 && name_bytes(name) > room {
        lemma_fitting_fits(name.drop_last(), room);
    }
}

/// What is left below the memory ceiling are the newest, as many as stay below it; the newest of
/// all is among them if it is below the ceiling by itself.
pub(crate) proof fn lemma_below_ceiling(tasks: Seq<SnapshotModel>)
    requires
        distinct_ids(tasks),
    ensures
        below_ceiling(tasks).len() <= tasks.len(),
        below_ceiling(tasks) == newest(tasks, below_ceiling(tasks).len()),
        distinct_ids(below_ceiling(tasks)),
        held_bytes(below_ceiling(tasks)) < MEMORY_CEILING,
        tasks.len() >= 1 && charge(tasks.last()) < MEMORY_CEILING ==> below_ceiling(tasks).len()
            >= 1 && below_ceiling(tasks).last() == tasks.last(),
    decreases tasks.len(),
{
    if tasks.len() > 0 && held_bytes(tasks) >= MEMORY_CEILING {
        let rest = tasks.drop_first();
        assert forall|i: int, j: int| 0 <= i < j < rest.len() implies (#[trigger] rest[i]).task_id
            != (#[trigger] rest[j]).task_id by {
            assert(rest[i] == tasks[i + 1] && rest[j] == tasks[j + 1]);
        }
        if tasks.len() == 1 {
            assert(held_bytes(tasks.drop_last()) == 0);
        }
        lemma_below_ceiling(rest);
        assert(below_ceiling(tasks) == newest(tasks, below_ceiling(tasks).len()));
    }
}

/// The inline bytes alone are no more than all of them.
pub(crate) proof fn lemma_inline_bytes(tasks: Seq<SnapshotModel>)
    ensures
        tasks.len() * size_of::<TaskMetricSnapshot>() <= held_bytes(tasks),
    decreases tasks.len(),
{
    let size = size_of::<TaskMetricSnapshot>();
    if tasks.len() == 0 {
        assert(0 * size == 0) by (nonlinear_arith);
    } else {
        let count = tasks.drop_last().len();
        lemma_inline_bytes(tasks.drop_last());
        assert((count + 1) * size == count * size + size) by (nonlinear_arith);
    }
}

/// The bytes of a concatenation.
pub(crate) proof fn lemma_held_concat(a: Seq<SnapshotModel>, b: Seq<SnapshotModel>)
    ensures
        held_bytes(a + b) == held_bytes(a) + held_bytes(b),
    decreases b.len(),
{
    if b.len() == 0 {
        assert(a + b == a);
    } else {
        assert((a + b).drop_last() == a + b.drop_last());
        lemma_held_concat(a, b.drop_last());
    }
}

/// The bytes without one of the tasks.
pub(crate) proof fn lemma_held_remove(tasks: Seq<SnapshotModel>, k: int)
    requires
        0 <= k < tasks.len(),
    ensures
        held_bytes(tasks.remove(k)) + charge(tasks[k]) == held_bytes(tasks),
{
    let head = tasks.take(k);
    let tail = tasks.skip(k + 1);
    assert(tasks.remove(k) == head + tail);
    assert(tasks == head.push(tasks[k]) + tail);
    lemma_held_concat(head, tail);
    lemma_held_concat(head.push(tasks[k]), tail);
    assert(head.push(tasks[k]).drop_last() == head);
}

/// Where no task has the id, all of them are others.
pub(crate) proof fn lemma_others_unknown(tasks: Seq<SnapshotModel>, task_id: u64)
    requires
        forall|i: int| 0 <= i < tasks.len() ==> (#[trigger] tasks[i]).task_id != task_id,
    ensures
        others(tasks, task_id) == tasks,
    decreases tasks.len(),
{
    reveal(Seq::filter);
    if tasks.len() > 0 {
        assert(tasks.last().task_id != task_id);
        let rest = tasks.drop_last();
        assert forall|i: int| 0 <= i < rest.len() implies (#[trigger] rest[i]).task_id
            != task_id by {
            assert(rest[i] == tasks[i]);
        }
        lemma_others_unknown(rest, task_id);
        assert(rest.push(tasks.last()) == tasks);
    }
}

/// Where one task has the id, the others are those without it.
pub(crate) proof fn lemma_others_known(tasks: Seq<SnapshotModel>, k: int)
    requires
        0 <= k < tasks.len(),
        distinct_ids(tasks),
    ensures
        others(tasks, tasks[k].task_id) == tasks.remove(k),
{
    let task_id = tasks[k].task_id;
    let pred = |task: SnapshotModel| task.task_id != task_id;
    let head = tasks.take(k);
    let tail = tasks.skip(k + 1);
    assert(tasks == head.push(tasks[k]) + tail);
    assert(tasks.remove(k) == head + tail);
    Seq::filter_distributes_over_add(head.push(tasks[k]), tail, pred);
    reveal(Seq::filter);
    assert(head.push(tasks[k]).drop_last() == head);
    assert forall|i: int| 0 <= i < head.len() implies (#[trigger] head[i]).task_id != task_id by {
        assert(head[i] == tasks[i]);
    }
    assert forall|i: int| 0 <= i < tail.len() implies (#[trigger] tail[i]).task_id != task_id by {
        assert(tail[i] == tasks[i + k + 1]);
    }
    lemma_others_unknown(head, task_id);
    lemma_others_unknown(tail, task_id);
}

/// The others have other ids, distinct ones, and are no more than before.
pub(crate) proof fn lemma_others_distinct(tasks: Seq<SnapshotModel>, task_id: u64)
    requires
        distinct_ids(tasks),
    ensures
        distinct_ids(others(tasks, task_id)),
        others(tasks, task_id).len() <= tasks.len(),
        forall|i: int|
            0 <= i < others(tasks, task_id).len() ==> (
            #[trigger] others(tasks, task_id)[i]).task_id != task_id,
{
    if exists|k: int| 0 <= k < tasks.len() && (#[trigger] tasks[k]).task_id == task_id {
        let k = choose|k: int| 0 <= k < tasks.len() && (#[trigger] tasks[k]).task_id == task_id;
        lemma_others_known(tasks, k);
        let rest = tasks.remove(k);
        assert forall|i: int| 0 <= i < rest.len() implies (#[trigger] rest[i]).task_id
            != task_id by {
            assert(rest[i] == if i < k {
                tasks[i]
            } else {
                tasks[i + 1]
            });
        }
        assert forall|i: int, j: int| 0 <= i < j < rest.len() implies (#[trigger] rest[i]).task_id
            != (#[trigger] rest[j]).task_id by {
            assert(rest[i] == if i < k {
                tasks[i]
            } else {
                tasks[i + 1]
            });
            assert(rest[j] == if j < k {
                tasks[j]
            } else {
                tasks[j + 1]
            });
        }
    } else {
        lemma_others_unknown(tasks, task_id);
    }
}

/// The number of tasks that a query with `limit` returns at most.
pub open spec fn return_cap(limit: usize) -> nat {
    if limit == 0 {
        20
    } else if limit > 100 {
        100
    } else {
        limit as nat
    }
}

/// The bytes that a snapshot takes.
fn bytes_of(task: &TaskMetricSnapshot) -> (bytes: u128)
    ensures
        bytes == charge(task@),
{
    std::mem::size_of::<TaskMetricSnapshot>() as u128 + task.name.as_str().as_bytes().len() as u128
}

/// A snapshot as it is kept.
fn clip(task: TaskMetricSnapshot) -> (kept: TaskMetricSnapshot)
    ensures
        kept@ == clipped(task@),
{
    if bytes_of(&task) < MEMORY_CEILING as u128 {
        return task;
    }
    let ghost name = task.name@;
    let ghost room = MEMORY_CEILING - 1 - size_of::<TaskMetricSnapshot>();
    let inline: u128 = std::mem::size_of::<TaskMetricSnapshot>() as u128;
    let text = task.name.as_str();
    let mut low: usize = 0;
    let mut high: usize = text.unicode_len();
    while low < high
        invariant
            text@ == name,
            inline == size_of::<TaskMetricSnapshot>(),
            inline <= usize::MAX,
            room == MEMORY_CEILING - 1 - inline,
            low <= high <= name.len(),
            low == 0 || name_bytes(name.take(low as int)) <= room,
            high == name.len() || name_bytes(name.take(high + 1)) > room,
        decreases high - low,
    {
        let mid: usize = high - (high - low) / 2;
        let beginning = text.substring_char(0, mid);
        assert(beginning@ == name.take(mid as int));
        if inline + (beginning.as_bytes().len() as u128) < MEMORY_CEILING as u128 {
            low = mid;
        } else {
            high = mid - 1;
        }
    }
    proof {
        lemma_fitting(name, low as int, room);
    }
    let beginning = text.substring_char(0, low).to_owned();
    assert(beginning@ == name.take(low as int));
    TaskMetricSnapshot { name: beginning, ..task }
}

/// A strictly bounded circular buffer of task snapshots.
pub struct TelemetryCollector {
    buffer: VecDeque<TaskMetricSnapshot>,
    max_capacity: usize,
    starvation_threshold_us: u64,
}

impl View for TelemetryCollector {
    type V = CollectorModel;

    closed spec fn view(&self) -> CollectorModel {
        CollectorModel {
            tasks: snapshot_models(self.buffer@),
            capacity: self.max_capacity as nat,
            threshold_us: self.starvation_threshold_us,
        }
    }
}

impl TelemetryCollector {
    /// The invariant that every operation keeps.
    pub open spec fn wf(&self) -> bool {
        self@.valid()
    }

    /// Creates an empty collector. A capacity of 0 stands for 1000, and one over the ceiling for
    /// the ceiling.
    pub fn new(max_capacity: usize, starvation_threshold_ms: u64) -> (collector: Self)
        ensures
            collector.wf(),
            collector@.tasks == Seq::<SnapshotModel>::empty(),
            collector@.capacity == if max_capacity == 0 {
                1000
            } else if max_capacity > CAPACITY_CEILING {
                CAPACITY_CEILING as int
            } else {
                max_capacity as int
            },
            collector@.threshold_us == capped_product(starvation_threshold_ms, 1000),
    {
        let capacity: usize = if max_capacity == 0 {
            1000
        } else if max_capacity > CAPACITY_CEILING {
            CAPACITY_CEILING
        } else {
            max_capacity
        };
        TelemetryCollector {
            buffer: VecDeque::with_capacity(capacity),
            max_capacity: capacity,
            starvation_threshold_us: saturating_product(starvation_threshold_ms, 1000),
        }
    }

    /// Records a snapshot, or updates the one that is held of its task; either way it becomes the
    /// newest. Where the buffer is full, the oldest one is dropped, and so are those that the
    /// memory ceiling leaves no room for.
    pub fn record_task(&mut self, snapshot: TaskMetricSnapshot)
        requires
            old(self).wf(),
        ensures
            final(self).wf(),
            final(self)@ == old(self)@.record(snapshot@),
            size_of::<TaskMetricSnapshot>() < MEMORY_CEILING ==> final(self)@.tasks.len() >= 1
                && final(self)@.tasks.last() == clipped(snapshot@),
            charge(snapshot@) < MEMORY_CEILING ==> final(self)@.tasks.len() >= 1
                && final(self)@.tasks.last() == snapshot@,
            held_bytes(old(self)@.with_task(snapshot@)) < MEMORY_CEILING ==> final(self)@.tasks
                == old(self)@.with_task(snapshot@),
    {
        let ghost start = self@;
        let ghost model = snapshot@;
        let snapshot = clip(snapshot);
        let mut held: u128 = self.forget(snapshot.task_id);
        let ghost rest = self@.tasks;
        proof {
            lemma_others_distinct(start.tasks, model.task_id);
            lemma_clipped(model);
        }
        if self.buffer.len() >= self.max_capacity {
            proof {
                lemma_held_remove(rest, 0);
            }
            if let Some(former) = self.buffer.pop_front() {
                held = held - bytes_of(&former);
            }
            assert(self@.tasks == rest.remove(0));
        }
        let ghost before = self@.tasks;
        held = held + bytes_of(&snapshot);
        self.buffer.push_back(snapshot);
        proof {
            assert(self@.tasks == before.push(clipped(model)));
            assert(self@.tasks.drop_last() == before);
            assert(self@.tasks == start.with_task(model));
            assert(distinct_ids(self@.tasks));
            lemma_below_ceiling(self@.tasks);
        }
        self.shed(held);
        assert(self@ == start.record(model));
    }

    /// Drops the snapshot of a task, where there is one, and adds up the bytes of the others.
    fn forget(&mut self, task_id: u64) -> (held: u128)
        requires
            old(self).wf(),
        ensures
            final(self)@ == (CollectorModel {
                tasks: others(old(self)@.tasks, task_id),
                ..old(self)@
            }),
            held == held_bytes(final(self)@.tasks),
            held < MEMORY_CEILING,
    {
        let ghost start = self@;
        let mut held: u128 = 0;
        let mut known: Option<usize> = None;
        let mut i: usize = 0;
        assert(start.tasks.take(0) == Seq::<SnapshotModel>::empty());
        while i < self.buffer.len()
            invariant
                self.wf(),
                self@ == start,
                i <= self.buffer.len(),
                held == held_bytes(start.tasks.take(i as int)),
                match known {
                    Some(k) => k < i && start.tasks[k as int].task_id == task_id,
                    None => forall|j: int|
                        0 <= j < i ==> (#[trigger] start.tasks[j]).task_id != task_id,
                },
            decreases self.buffer.len() - i,
        {
            let task = &self.buffer[i];
            proof {
                let tasks = start.tasks;
                assert(tasks[i as int] == task@);
                assert(tasks.take(i + 1).drop_last() == tasks.take(i as int));
                assert(tasks == tasks.take(i + 1) + tasks.skip(i + 1));
                lemma_held_concat(tasks.take(i + 1), tasks.skip(i + 1));
            }
            held = held + bytes_of(task);
            if task.task_id == task_id {
                known = Some(i);
            }
            i += 1;
        }
        assert(start.tasks.take(i as int) == start.tasks);
        match known {
            Some(k) => {
                proof {
                    lemma_others_known(start.tasks, k as int);
                    lemma_held_remove(start.tasks, k as int);
                }
                if let Some(former) = self.buffer.remove(k) {
                    held = held - bytes_of(&former);
                }
                assert(self@.tasks == start.tasks.remove(k as int));
            },
            None => {
                proof {
                    lemma_others_unknown(start.tasks, task_id);
                }
            },
        }
        held
    }

    /// Drops the oldest snapshots until the rest stay below the memory ceiling. `taken` is what all
    /// of them take together.
    fn shed(&mut self, taken: u128)
        requires
            taken == held_bytes(old(self)@.tasks),
        ensures
            final(self)@ == (CollectorModel {
                tasks: below_ceiling(old(self)@.tasks),
                ..old(self)@
            }),
    {
        let ghost start = self@;
        let mut held: u128 = taken;
        while self.buffer.len() > 0 && held >= MEMORY_CEILING as u128
            invariant
                self@.capacity == start.capacity,
                self@.threshold_us == start.threshold_us,
                self.buffer.len() == self@.tasks.len(),
                held == held_bytes(self@.tasks),
                below_ceiling(self@.tasks) == below_ceiling(start.tasks),
            decreases self.buffer.len(),
        {
            let ghost before = self@.tasks;
            proof {
                lemma_held_remove(before, 0);
            }
            if let Some(former) = self.buffer.pop_front() {
                held = held - bytes_of(&former);
            }
            assert(self@.tasks == before.drop_first());
            assert(before.remove(0) == before.drop_first());
        }
    }

    /// The starved tasks, oldest first, up to a cap. `limit` 0 stands for 20, and one over 100 for
    /// 100.
    pub fn get_starved_tasks(&self, min_duration_us: Option<u64>, limit: usize) -> (starved: Vec<
        TaskMetricSnapshot,
    >)
        ensures
            snapshot_models(starved@) == self@.starved(min_duration_us, limit),
    {
        let threshold: u64 = match min_duration_us {
            Some(t) => t,
            None => self.starvation_threshold_us,
        };
        let max_items: usize = if limit == 0 {
            20
        } else if limit > 100 {
            100
        } else {
            limit
        };
        let ghost tasks = self@.tasks;
        let ghost pred = |task: SnapshotModel| is_starved(task, threshold);
        let mut starved: Vec<TaskMetricSnapshot> = Vec::new();
        let mut i: usize = 0;
        proof {
            reveal(Seq::filter);
            assert(tasks.take(0).filter(pred) == Seq::<SnapshotModel>::empty());
        }
        while i < self.buffer.len() && starved.len() < max_items
            invariant
                tasks == self@.tasks,
                i <= self.buffer.len(),
                starved.len() <= max_items,
                pred == (|task: SnapshotModel| is_starved(task, threshold)),
                snapshot_models(starved@) == tasks.take(i as int).filter(pred),
            decreases self.buffer.len() - i,
        {
            let task = &self.buffer[i];
            proof {
                reveal(Seq::filter);
                assert(tasks.take(i + 1).drop_last() == tasks.take(i as int));
                assert(tasks.take(i + 1).last() == task@);
            }
            if task.last_poll_duration_us >= threshold || task.status == TaskStatus::Starved {
                starved.push(task.clone());
            }
            i += 1;
        }
        proof {
            let all = starved_among(tasks, threshold);
            let head = tasks.take(i as int);
            let tail = tasks.skip(i as int);
            assert(tasks == head + tail);
            Seq::filter_distributes_over_add(head, tail, pred);
            if i == self.buffer.len() {
                assert(head == tasks);
            }
            assert(snapshot_models(starved@) == oldest(all, max_items as nat));
        }
        starved
    }

    /// The aggregate figures over every task that the collector holds.
    pub fn get_health_summary(&self) -> (health: RuntimeHealthSummary)
        requires
            self.wf(),
        ensures
            self@.is_health(health),
    {
        let total: usize = self.buffer.len();
        let ghost tasks = self@.tasks;
        let ghost pred = |task: SnapshotModel| is_starved(task, self.starvation_threshold_us);
        let mut sum_poll: u128 = 0;
        let mut max_poll: u64 = 0;
        let mut starved_count: usize = 0;
        let mut i: usize = 0;
        proof {
            reveal(Seq::filter);
            assert(tasks.take(0).filter(pred).len() == 0);
        }
        while i < total
            invariant
                self.wf(),
                tasks == self@.tasks,
                total == self.buffer.len(),
                total == tasks.len(),
                i <= total <= CAPACITY_CEILING,
                pred == (|task: SnapshotModel| is_starved(task, self.starvation_threshold_us)),
                sum_poll == sum_poll_us(tasks.take(i as int)),
                sum_poll <= i * max_poll,
                max_poll == max_poll_us(tasks.take(i as int)),
                starved_count == tasks.take(i as int).filter(pred).len(),
                starved_count <= i,
            decreases total - i,
        {
            let task = &self.buffer[i];
            let duration: u64 = task.last_poll_duration_us;
            let ghost old_max = max_poll;
            proof {
                reveal(Seq::filter);
                assert(tasks.take(i + 1).drop_last() == tasks.take(i as int));
                assert(tasks.take(i + 1).last() == task@);
                assert(i * max_poll <= 25_000 * 0xffff_ffff_ffff_ffff) by (nonlinear_arith)
                    requires
                        i <= 25_000,
                        max_poll <= 0xffff_ffff_ffff_ffff,
                ;
            }
            sum_poll = sum_poll + duration as u128;
            if duration > max_poll {
                max_poll = duration;
            }
            if duration >= self.starvation_threshold_us || task.status == TaskStatus::Starved {
                starved_count = starved_count + 1;
            }
            proof {
                assert(i * old_max + duration <= (i + 1) * max_poll) by (nonlinear_arith)
                    requires
                        i >= 0,
                        old_max <= max_poll,
                        duration <= max_poll,
                ;
            }
            i += 1;
        }
        proof {
            assert(tasks.take(total as int) == tasks);
        }
        let mean: u64 = if total == 0 {
            0
        } else {
            proof {
                assert(sum_poll / (total as u128) <= max_poll) by (nonlinear_arith)
                    requires
                        sum_poll <= total * max_poll,
                        total > 0,
                ;
            }
            (sum_poll / total as u128) as u64
        };
        proof {
            lemma_inline_bytes(tasks);
        }
        let bytes: usize = total * std::mem::size_of::<TaskMetricSnapshot>();
        RuntimeHealthSummary {
            total_tracked_tasks: total,
            starved_tasks_count: starved_count,
            mean_poll_duration_us: mean,
            max_poll_duration_us: max_poll,
            estimated_memory_kb: bytes / 1024,
        }
    }

    /// The starvation threshold.
    pub(crate) fn threshold_us(&self) -> (threshold: u64)
        ensures
            threshold == self@.threshold_us,
    {
        self.starvation_threshold_us
    }

    /// The recorded snapshots, oldest first.
    pub fn buffer(&self) -> (buffer: &VecDeque<TaskMetricSnapshot>)
        ensures
            snapshot_models(buffer@) == self@.tasks,
    {
        &self.buffer
    }
}

impl Default for TelemetryCollector {
    /// A collector of 5000 snapshots with a starvation threshold of 50 ms.
    fn default() -> (collector: Self)
        ensures
            collector.wf(),
            collector@.tasks == Seq::<SnapshotModel>::empty(),
            collector@.capacity == 5000,
            collector@.threshold_us == 50_000,
    {
        TelemetryCollector::new(5000, 50)
    }
}

} // verus!
