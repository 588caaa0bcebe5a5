//! What the ring of snapshots is for: what a recording leaves in it, which tasks count as starved,
//! and what the health figures sum up.

use crate::telemetry::{
    below_ceiling, capped_product, clipped, distinct_ids, fitting, held_bytes, is_starved,
    lemma_below_ceiling, lemma_others_distinct, lemma_others_known, lemma_others_unknown,
    max_poll_us, newest, others, return_cap, snapshot_models, starved_among, sum_poll_us, CollectorModel,
    RuntimeHealthSummary, SnapshotModel, TaskMetricSnapshot, TaskStatus,
};
use vstd::layout::size_of;
use vstd::prelude::*;
use vstd::utf8::encode_utf8;

verus! {

/// A product is exact where it fits, and else the largest number.
pub proof fn law_capped_product(x: u64, y: u64)
    ensures
        x * y <= 0xffff_ffff_ffff_ffff ==> capped_product(x, y) == x * y,
        x * y > 0xffff_ffff_ffff_ffff ==> capped_product(x, y) == 0xffff_ffff_ffff_ffff,
{
}

/// A task counts as starved where it was marked so, or where its last poll took at least as long
/// as the threshold.
pub proof fn law_starvation(task: SnapshotModel, threshold_us: u64)
    ensures
        task.status == TaskStatus::Starved ==> is_starved(task, threshold_us),
        task.status != TaskStatus::Starved ==> (is_starved(task, threshold_us) <==> threshold_us
            <= task.last_poll_duration_us),
{
}

/// Of two tasks that are not marked as starved and whose last polls took as long as one another,
/// both count as starved or neither does, whatever else they show.
pub proof fn law_starvation_reads_the_last_poll(
    task: SnapshotModel,
    other: SnapshotModel,
    threshold_us: u64,
)
    requires
        task.status != TaskStatus::Starved,
        other.status != TaskStatus::Starved,
        task.last_poll_duration_us == other.last_poll_duration_us,
    ensures
        is_starved(task, threshold_us) == is_starved(other, threshold_us),
{
}

/// How a query takes in one more task, the newest: it is appended to what the query returns if it
/// was marked as starved or its last poll took at least the asked duration (the threshold of the
/// collector, where none is asked), unless the cap was reached. The cap is the limit, but 20 for
/// no limit and 100 for a higher one. From an empty ring nothing is returned.
pub proof fn law_query_by_task(
    telemetry: CollectorModel,
    task: SnapshotModel,
    min_duration_us: Option<u64>,
    limit: usize,
)
    ensures
        ({
            let before = telemetry.starved(min_duration_us, limit);
            let with_it = CollectorModel { tasks: telemetry.tasks.push(task), ..telemetry };
            let after = with_it.starved(min_duration_us, limit);
            let cap = if limit == 0 {
                20
            } else if limit > 100 {
                100
            } else {
                limit as int
            };
            let flagged = task.status == TaskStatus::Starved || match min_duration_us {
                Some(asked) => task.last_poll_duration_us >= asked,
                None => task.last_poll_duration_us >= telemetry.threshold_us,
            };
            after == if flagged && before.len() < cap {
                before.push(task)
            } else {
                before
            }
        }),
        (CollectorModel { tasks: Seq::empty(), ..telemetry }).starved(min_duration_us, limit).len()
            == 0,
{
    let threshold = match min_duration_us {
        Some(asked) => asked,
        None => telemetry.threshold_us,
    };
    let pred = |task: SnapshotModel| is_starved(task, threshold);
    let tasks = telemetry.tasks;
    reveal(Seq::filter);
    assert(tasks.push(task).drop_last() == tasks);
    let found = starved_among(tasks, threshold);
    assert(starved_among(tasks.push(task), threshold) == if pred(task) {
        found.push(task)
    } else {
        found
    });
    let cap = return_cap(limit);
    if found.len() >= cap {
        assert(found.push(task).take(cap as int) == found.take(cap as int));
        assert(found.take(found.len() as int) == found);
    }
}

/// A query returns an unmarked task, wherever its cap leaves room, exactly where the last poll of
/// the task took at least the asked duration; a marked task it returns at any.
pub proof fn law_query_returns_the_slow_and_the_marked(
    telemetry: CollectorModel,
    i: int,
    min_duration_us: Option<u64>,
    limit: usize,
)
    requires
        0 <= i < telemetry.tasks.len(),
        telemetry.starved(min_duration_us, limit).len() < limit <= 100,
    ensures
        ({
            let task = telemetry.tasks[i];
            telemetry.starved(min_duration_us, limit).contains(task) <==> (task.status
                == TaskStatus::Starved || match min_duration_us {
                Some(asked) => task.last_poll_duration_us >= asked,
                None => task.last_poll_duration_us >= telemetry.threshold_us,
            })
        }),
{
    let threshold = match min_duration_us {
        Some(asked) => asked,
        None => telemetry.threshold_us,
    };
    let pred = |task: SnapshotModel| is_starved(task, threshold);
    let tasks = telemetry.tasks;
    let found = tasks.filter(pred);
    assert(telemetry.starved(min_duration_us, limit) == found);
    if pred(tasks[i]) {
        tasks.lemma_filter_contains(pred, i);
    }
    if found.contains(tasks[i]) {
        tasks.lemma_filter_contains_rev(pred, tasks[i]);
    }
}

/// The last poll durations of tasks, added up from the oldest on.
pub open spec fn last_polls_together(tasks: Seq<SnapshotModel>) -> int {
    tasks.fold_left(0int, |sum: int, task: SnapshotModel| sum + task.last_poll_duration_us)
}

proof fn lemma_last_polls_together(tasks: Seq<SnapshotModel>)
    ensures
        last_polls_together(tasks) == sum_poll_us(tasks),
    decreases tasks.len(),
{
    if tasks.len() > 0 {
        lemma_last_polls_together(tasks.drop_last());
    }
}

/// The mean is that of the last polls of all tasks, rounded down.
pub proof fn law_mean_is_over_the_last_polls(
    telemetry: CollectorModel,
    health: RuntimeHealthSummary,
)
    requires
        telemetry.is_health(health),
        telemetry.tasks.len() > 0,
    ensures
        health.mean_poll_duration_us * telemetry.tasks.len() <= last_polls_together(
            telemetry.tasks,
        ) < (health.mean_poll_duration_us + 1) * telemetry.tasks.len(),
{
    lemma_last_polls_together(telemetry.tasks);
    let sum = sum_poll_us(telemetry.tasks) as int;
    let total = telemetry.tasks.len() as int;
    let mean = sum / total;
    assert(mean * total <= sum < (mean + 1) * total) by (nonlinear_arith)
        requires
            mean == sum / total,
            total > 0,
    ;
}

/// How the health figures take in one more task: it is counted; it is counted among the starved if
/// it was marked so or its last poll took at least the threshold; and it is the longest if its
/// last poll took longer than any before.
pub proof fn law_health_by_task(
    telemetry: CollectorModel,
    task: SnapshotModel,
    before: RuntimeHealthSummary,
    after: RuntimeHealthSummary,
)
    requires
        telemetry.is_health(before),
        (CollectorModel { tasks: telemetry.tasks.push(task), ..telemetry }).is_health(after),
    ensures
        after.total_tracked_tasks == before.total_tracked_tasks + 1,
        after.starved_tasks_count == before.starved_tasks_count + if task.status
            == TaskStatus::Starved || task.last_poll_duration_us >= telemetry.threshold_us {
            1int
        } else {
            0
        },
        after.max_poll_duration_us == if task.last_poll_duration_us > before.max_poll_duration_us {
            task.last_poll_duration_us
        } else {
            before.max_poll_duration_us
        },
        after.estimated_memory_kb == after.total_tracked_tasks * size_of::<TaskMetricSnapshot>()
            / 1024,
{
    reveal(Seq::filter);
    assert(telemetry.tasks.push(task).drop_last() == telemetry.tasks);
}

/// Of a task, the health figures read the mark and the last poll alone.
pub proof fn law_health_reads_the_last_poll(
    telemetry: CollectorModel,
    i: int,
    other: SnapshotModel,
    before: RuntimeHealthSummary,
    after: RuntimeHealthSummary,
)
    requires
        0 <= i < telemetry.tasks.len(),
        other.status == telemetry.tasks[i].status,
        other.last_poll_duration_us == telemetry.tasks[i].last_poll_duration_us,
        telemetry.is_health(before),
        (CollectorModel { tasks: telemetry.tasks.update(i, other), ..telemetry }).is_health(after),
    ensures
        before == after,
{
    lemma_same_figures(telemetry.tasks, telemetry.tasks.update(i, other), telemetry.threshold_us);
}

proof fn lemma_same_figures(a: Seq<SnapshotModel>, b: Seq<SnapshotModel>, threshold_us: u64)
    requires
        a.len() == b.len(),
        forall|i: int|
            0 <= i < a.len() ==> (#[trigger] a[i]).status == b[i].status
                && a[i].last_poll_duration_us == b[i].last_poll_duration_us,
    ensures
        sum_poll_us(a) == sum_poll_us(b),
        max_poll_us(a) == max_poll_us(b),
        starved_among(a, threshold_us).len() == starved_among(b, threshold_us).len(),
    decreases a.len(),
{
    reveal(Seq::filter);
    if a.len() > 0 {
        let x = a.drop_last();
        let y = b.drop_last();
        assert forall|i: int| 0 <= i < x.len() implies (#[trigger] x[i]).status == y[i].status
            && x[i].last_poll_duration_us == y[i].last_poll_duration_us by {
            assert(x[i] == a[i] && y[i] == b[i]);
        }
        lemma_same_figures(x, y, threshold_us);
        assert(a[a.len() - 1].status == b[a.len() - 1].status);
    }
}

/// The bytes of snapshots add up: each takes its inline size and the UTF-8 form of its name.
pub proof fn law_bytes_add_up(tasks: Seq<SnapshotModel>, task: SnapshotModel)
    ensures
        held_bytes(Seq::empty()) == 0,
        held_bytes(tasks.push(task)) == held_bytes(tasks) + size_of::<TaskMetricSnapshot>()
            + encode_utf8(task.name).len(),
{
    assert(tasks.push(task).drop_last() == tasks);
}

/// A name is cut only where it has to be, and no further: what is left begins the name, and one
/// character more would bring the snapshot to 5 MB by itself.
pub proof fn law_names_are_cut_no_further(task: SnapshotModel)
    ensures
        ({
            let kept = clipped(task);
            let n = kept.name.len() as int;
            &&& n <= task.name.len()
            &&& kept == SnapshotModel { name: task.name.take(n), ..task }
            &&& n < task.name.len() ==> size_of::<TaskMetricSnapshot>() + encode_utf8(
                task.name.take(n + 1),
            ).len() >= 5_000_000
            &&& n == 0 || size_of::<TaskMetricSnapshot>() + encode_utf8(kept.name).len()
                < 5_000_000
        }),
{
    lemma_longest_that_fits(task.name, 5_000_000 - 1 - size_of::<TaskMetricSnapshot>());
}

proof fn lemma_longest_that_fits(name: Seq<char>, room: int)
    ensures
        ({
            let n = fitting(name, room).len() as int;
            &&& n <= name.len()
            &&& fitting(name, room) == name.take(n)
            &&& n < name.len() ==> encode_utf8(name.take(n + 1)).len() > room
            &&& n == 0 || encode_utf8(name.take(n)).len() <= room
        }),
    decreases name.len(),
{
    if name.len() == 0 || encode_utf8(name).len() <= room {
        assert(name.take(name.len() as int) == name);
    } else {
        let rest = name.drop_last();
        lemma_longest_that_fits(rest, room);
        let n = fitting(rest, room).len() as int;
        assert(rest.take(n) == name.take(n));
        if n < rest.len() {
            assert(rest.take(n + 1) == name.take(n + 1));
        } else {
            assert(name.take(n + 1) == name);
        }
    }
}

/// What a recording does to the ring. The snapshot that was held of the task leaves, the new one
/// is put at the end, and then the oldest go, but only while there are more than the capacity or
/// they take 5 MB: with one fewer gone, one of the two would still be so.
pub proof fn law_recording_evicts_no_more_than_needed(
    telemetry: CollectorModel,
    task: SnapshotModel,
    former: Option<int>,
)
    requires
        telemetry.valid(),
        match former {
            Some(k) => 0 <= k < telemetry.tasks.len() && telemetry.tasks[k].task_id == task.task_id,
            None => forall|i: int|
                0 <= i < telemetry.tasks.len() ==> (#[trigger] telemetry.tasks[i]).task_id
                    != task.task_id,
        },
    ensures
        ({
            let rest = match former {
                Some(k) => telemetry.tasks.remove(k),
                None => telemetry.tasks,
            };
            let all = rest.push(clipped(task));
            let after = telemetry.record(task).tasks;
            let gone = all.len() - after.len();
            &&& 0 <= gone
            &&& after == all.skip(gone)
            &&& after.len() <= telemetry.capacity
            &&& held_bytes(after) < 5_000_000
            &&& gone > 0 ==> all.skip(gone - 1).len() > telemetry.capacity || held_bytes(
                all.skip(gone - 1),
            ) >= 5_000_000
            &&& telemetry.record(task).capacity == telemetry.capacity
            &&& telemetry.record(task).threshold_us == telemetry.threshold_us
        }),
{
    let rest = match former {
        Some(k) => telemetry.tasks.remove(k),
        None => telemetry.tasks,
    };
    assert(others(telemetry.tasks, task.task_id) == rest) by {
        match former {
            Some(k) => lemma_others_known(telemetry.tasks, k),
            None => lemma_others_unknown(telemetry.tasks, task.task_id),
        }
    }
    let all = rest.push(clipped(task));
    assert(distinct_ids(all)) by {
        lemma_others_distinct(telemetry.tasks, task.task_id);
    }
    lemma_least_gone(all, telemetry.capacity);
}

/// The oldest that go for the capacity and then for the memory ceiling are no more than needed.
proof fn lemma_least_gone(all: Seq<SnapshotModel>, capacity: nat)
    requires
        distinct_ids(all),
    ensures
        ({
            let after = below_ceiling(newest(all, capacity));
            let gone = all.len() - after.len();
            &&& 0 <= gone
            &&& after == all.skip(gone)
            &&& after.len() <= capacity
            &&& held_bytes(after) < 5_000_000
            &&& gone > 0 ==> all.skip(gone - 1).len() > capacity || held_bytes(all.skip(gone - 1))
                >= 5_000_000
        }),
{
    let kept = newest(all, capacity);
    let after = below_ceiling(kept);
    let off = all.len() - kept.len();
    assert(distinct_ids(kept)) by {
        assert forall|i: int, j: int| 0 <= i < j < kept.len() implies (#[trigger] kept[i]).task_id
            != (#[trigger] kept[j]).task_id by {
            assert(kept[i] == all[i + off] && kept[j] == all[j + off]);
        }
    }
    lemma_below_ceiling(kept);
    lemma_least_shed(kept);
    let gone = all.len() - after.len();
    assert(after == all.skip(gone));
    if kept.len() > after.len() {
        assert(kept.skip(kept.len() - after.len() - 1) == all.skip(gone - 1));
    }
}

proof fn lemma_least_shed(tasks: Seq<SnapshotModel>)
    ensures
        below_ceiling(tasks).len() <= tasks.len(),
        below_ceiling(tasks).len() < tasks.len() ==> held_bytes(
            tasks.skip(tasks.len() - below_ceiling(tasks).len() - 1),
        ) >= 5_000_000,
    decreases tasks.len(),
{
    if tasks.len() > 0 && held_bytes(tasks) >= 5_000_000 {
        let rest = tasks.drop_first();
        lemma_least_shed(rest);
        let left = below_ceiling(rest).len();
        if left < rest.len() {
            assert(rest.skip(rest.len() - left - 1) == tasks.skip(tasks.len() - left - 1));
        } else {
            assert(tasks.skip(0) == tasks);
        }
    }
}

/// Tasks are recorded one after the other.
pub proof fn law_recording_by_task(
    telemetry: CollectorModel,
    tasks: Seq<SnapshotModel>,
    task: SnapshotModel,
)
    ensures
        telemetry.record_all(Seq::empty()) == telemetry,
        telemetry.record_all(tasks.push(task)) == telemetry.record_all(tasks).record(task),
{
    assert(tasks.push(task).drop_last() == tasks);
}

/// The model of a snapshot shows every field as it was given, and models keep their order.
pub proof fn law_snapshots_show_their_fields(snapshots: Seq<TaskMetricSnapshot>, i: int)
    ensures
        snapshot_models(snapshots).len() == snapshots.len(),
        0 <= i < snapshots.len() ==> {
            let task = snapshot_models(snapshots)[i];
            &&& task.task_id == snapshots[i].task_id
            &&& task.name == snapshots[i].name@
            &&& task.poll_count == snapshots[i].poll_count
            &&& task.last_poll_duration_us == snapshots[i].last_poll_duration_us
            &&& task.total_poll_time_us == snapshots[i].total_poll_time_us
            &&& task.idle_time_us == snapshots[i].idle_time_us
            &&& task.status == snapshots[i].status
        },
{
}

} // verus!
