//! What holds of the collector whatever is recorded and asked.

use crate::cpu::{CpuUsage, PEGGED_PERCENT};
use crate::engine::{daemon_name, worker_snapshot, TaskQuery};
use crate::process::ProcessModel;
use crate::telemetry::{
    charge, clipped, distinct_ids, fitting, held_bytes, is_starved, lemma_below_ceiling,
    lemma_clipped, lemma_held_concat, lemma_held_remove, lemma_inline_bytes, lemma_others_distinct,
    lemma_others_known, lemma_others_unknown, max_poll_us, name_bytes, newest, oldest, others,
    return_cap, starved_among, sum_poll_us, CollectorModel, RuntimeHealthSummary, SnapshotModel,
    TaskMetricSnapshot, TaskStatus, CAPACITY_CEILING, MEMORY_CEILING,
};
use crate::text::{has_substring, lowercase};
use vstd::arithmetic::power2::{lemma_pow2_pos, pow2};
use vstd::layout::size_of;
use vstd::prelude::*;
use vstd::seq_lib::{
    lemma_multiset_commutative, to_multiset_contains, to_multiset_len, to_multiset_remove,
};
use vstd::utf8::is_ascii_chars;

verus! {

/// What holds of a collector after a recording.
proof fn lemma_record(telemetry: CollectorModel, task: SnapshotModel)
    requires
        telemetry.valid(),
    ensures
        telemetry.record(task).valid(),
        telemetry.record(task).tasks == newest(
            others(telemetry.tasks, task.task_id).push(clipped(task)),
            telemetry.record(task).tasks.len(),
        ),
        size_of::<TaskMetricSnapshot>() < MEMORY_CEILING ==> telemetry.record(task).tasks.len() >= 1
            && telemetry.record(task).tasks.last() == clipped(task),
{
    let rest = others(telemetry.tasks, task.task_id);
    lemma_others_distinct(telemetry.tasks, task.task_id);
    lemma_clipped(task);
    let all = rest.push(clipped(task));
    let kept = telemetry.with_task(task);
    assert(distinct_ids(all));
    assert forall|i: int, j: int| 0 <= i < j < kept.len() implies (#[trigger] kept[i]).task_id != (
    #[trigger] kept[j]).task_id by {
        let off = all.len() - kept.len();
        assert(kept[i] == all[i + off] && kept[j] == all[j + off]);
    }
    lemma_below_ceiling(kept);
    let left = telemetry.record(task).tasks.len();
    assert(newest(kept, left) == newest(all, left));
}

/// Whatever is recorded, the collector never holds more snapshots than its capacity, never two of
/// one task, and stays below the memory ceiling; its settings do not change.
pub proof fn law_recording_is_bounded(telemetry: CollectorModel, tasks: Seq<SnapshotModel>)
    requires
        telemetry.valid(),
    ensures
        telemetry.record_all(tasks).valid(),
        telemetry.record_all(tasks).tasks.len() <= telemetry.capacity <= CAPACITY_CEILING,
        distinct_ids(telemetry.record_all(tasks).tasks),
        held_bytes(telemetry.record_all(tasks).tasks) < MEMORY_CEILING,
        telemetry.record_all(tasks).capacity == telemetry.capacity,
        telemetry.record_all(tasks).threshold_us == telemetry.threshold_us,
    decreases tasks.len(),
{
    if tasks.len() > 0 {
        law_recording_is_bounded(telemetry, tasks.drop_last());
        lemma_record(telemetry.record_all(tasks.drop_last()), tasks.last());
    }
}

/// After a recording, the snapshot that was recorded is held, as it was given; it is the newest,
/// and no other one has its id. It is below the memory ceiling by itself.
pub proof fn law_record_updates(telemetry: CollectorModel, task: SnapshotModel)
    requires
        telemetry.valid(),
        charge(task) < MEMORY_CEILING,
    ensures
        ({
            let after = telemetry.record(task).tasks;
            &&& 1 <= after.len() <= telemetry.capacity
            &&& after.last() == task
            &&& forall|i: int|
                0 <= i < after.len() ==> ((#[trigger] after[i]).task_id == task.task_id <==> i
                    == after.len() - 1)
        }),
{
    lemma_record(telemetry, task);
    lemma_clipped(task);
    let after = telemetry.record(task).tasks;
    assert forall|i: int| 0 <= i < after.len() - 1 implies (#[trigger] after[i]).task_id
        != task.task_id by {
        assert(after[after.len() - 1].task_id == task.task_id);
    }
}

/// Of a snapshot that is not below the memory ceiling by itself, everything is kept but the end of
/// its name, as long as there is room for a snapshot at all.
pub proof fn law_long_names_are_cut(telemetry: CollectorModel, task: SnapshotModel)
    requires
        telemetry.valid(),
        size_of::<TaskMetricSnapshot>() < MEMORY_CEILING,
    ensures
        ({
            let after = telemetry.record(task).tasks;
            &&& after.len() >= 1
            &&& after.last() == clipped(task)
            &&& clipped(task).name.is_prefix_of(task.name)
            &&& SnapshotModel { name: task.name, ..clipped(task) } == task
        }),
{
    lemma_record(telemetry, task);
    lemma_fitting_is_prefix(task.name, MEMORY_CEILING - 1 - size_of::<TaskMetricSnapshot>());
}

/// What fits of a name is its beginning.
proof fn lemma_fitting_is_prefix(name: Seq<char>, room: int)
    ensures
        fitting(name, room).is_prefix_of(name),
    decreases name.len(),
{
    if name.len() > 0 && name_bytes(name) > room {
        lemma_fitting_is_prefix(name.drop_last(), room);
    }
}

/// Where tasks are below the memory ceiling together, each of them is by itself, and is kept as it
/// is.
proof fn lemma_kept_whole(tasks: Seq<SnapshotModel>, k: int)
    requires
        0 <= k < tasks.len(),
        held_bytes(tasks) < MEMORY_CEILING,
    ensures
        clipped(tasks[k]) == tasks[k],
{
    lemma_held_remove(tasks, k);
    lemma_clipped(tasks[k]);
}

/// An update leaves the other snapshots as they are and in order, wherever memory allows it.
pub proof fn law_update_keeps_the_others(telemetry: CollectorModel, task: SnapshotModel, k: int)
    requires
        telemetry.valid(),
        0 <= k < telemetry.tasks.len(),
        telemetry.tasks[k].task_id == task.task_id,
        held_bytes(telemetry.tasks.remove(k).push(task)) < MEMORY_CEILING,
    ensures
        telemetry.record(task).tasks == telemetry.tasks.remove(k).push(task),
{
    let kept = telemetry.tasks.remove(k).push(task);
    lemma_others_known(telemetry.tasks, k);
    lemma_kept_whole(kept, kept.len() - 1);
    assert(telemetry.with_task(task) == kept);
}

/// Whether memory is no concern while `tasks` are recorded: at every point, the newest that fit
/// into the capacity are below the memory ceiling.
pub open spec fn spares_memory(tasks: Seq<SnapshotModel>, capacity: nat) -> bool {
    forall|k: int|
        0 <= k <= tasks.len() ==> held_bytes(#[trigger] newest(tasks.take(k), capacity))
            < MEMORY_CEILING
}

/// Memory is no concern where a full ring of snapshots with the longest of the names is below the
/// memory ceiling. A character of a name takes at most four bytes.
pub proof fn law_short_names_spare_memory(tasks: Seq<SnapshotModel>, capacity: nat, length: nat)
    requires
        forall|i: int| 0 <= i < tasks.len() ==> (#[trigger] tasks[i]).name.len() <= length,
        capacity * (size_of::<TaskMetricSnapshot>() + 4 * length) < MEMORY_CEILING,
    ensures
        spares_memory(tasks, capacity),
{
    let each = size_of::<TaskMetricSnapshot>() + 4 * length;
    assert forall|k: int| 0 <= k <= tasks.len() implies held_bytes(
        #[trigger] newest(tasks.take(k), capacity),
    ) < MEMORY_CEILING by {
        let kept = newest(tasks.take(k), capacity);
        assert forall|i: int| 0 <= i < kept.len() implies (#[trigger] kept[i]).name.len()
            <= length by {
            assert(kept[i] == tasks[i + (k - kept.len())]);
        }
        lemma_held_bound(kept, length);
        let count = kept.len();
        assert(count * each <= capacity * each) by (nonlinear_arith)
            requires
                count <= capacity,
        ;
    }
}

/// A character takes at most four bytes.
proof fn lemma_name_bytes(name: Seq<char>)
    ensures
        name_bytes(name) <= 4 * name.len(),
    decreases name.len(),
{
    if name.len() > 0 {
        lemma_name_bytes(name.drop_first());
    }
}

/// The bytes of tasks with names up to a length.
proof fn lemma_held_bound(tasks: Seq<SnapshotModel>, length: nat)
    requires
        forall|i: int| 0 <= i < tasks.len() ==> (#[trigger] tasks[i]).name.len() <= length,
    ensures
        held_bytes(tasks) <= tasks.len() * (size_of::<TaskMetricSnapshot>() + 4 * length),
    decreases tasks.len(),
{
    let each = size_of::<TaskMetricSnapshot>() + 4 * length;
    if tasks.len() == 0 {
        assert(0 * each == 0) by (nonlinear_arith);
    } else {
        let rest = tasks.drop_last();
        assert forall|i: int| 0 <= i < rest.len() implies (#[trigger] rest[i]).name.len()
            <= length by {
            assert(rest[i] == tasks[i]);
        }
        lemma_held_bound(rest, length);
        lemma_name_bytes(tasks.last().name);
        let count = rest.len();
        assert(tasks[tasks.len() - 1].name.len() <= length);
        assert((count + 1) * each == count * each + each) by (nonlinear_arith);
    }
}

/// Memory is no concern where the tasks are below the memory ceiling all together.
proof fn lemma_spares_memory(tasks: Seq<SnapshotModel>, capacity: nat)
    requires
        held_bytes(tasks) < MEMORY_CEILING,
    ensures
        spares_memory(tasks, capacity),
{
    assert forall|k: int| 0 <= k <= tasks.len() implies held_bytes(
        #[trigger] newest(tasks.take(k), capacity),
    ) < MEMORY_CEILING by {
        let head = tasks.take(k);
        let kept = newest(head, capacity);
        let gone = head.take(head.len() - kept.len());
        assert(head == gone + kept);
        assert(tasks == head + tasks.skip(k));
        lemma_held_concat(gone, kept);
        lemma_held_concat(head, tasks.skip(k));
    }
}

/// One more task, where the collector holds the newest of those before it.
proof fn lemma_holds_one_more(
    telemetry: CollectorModel,
    tasks: Seq<SnapshotModel>,
    task: SnapshotModel,
)
    requires
        telemetry.valid(),
        telemetry.tasks == newest(tasks, telemetry.capacity),
        distinct_ids(tasks.push(task)),
        held_bytes(newest(tasks.push(task), telemetry.capacity)) < MEMORY_CEILING,
    ensures
        telemetry.record(task).tasks == newest(tasks.push(task), telemetry.capacity),
{
    let all = tasks.push(task);
    let held = telemetry.tasks;
    let off = tasks.len() - held.len();
    assert(all[all.len() - 1] == task);
    assert forall|i: int| 0 <= i < held.len() implies (#[trigger] held[i]).task_id
        != task.task_id by {
        assert(held[i] == all[i + off]);
    }
    lemma_others_unknown(held, task.task_id);
    let kept = newest(all, telemetry.capacity);
    lemma_kept_whole(kept, kept.len() - 1);
    assert(telemetry.with_task(task) == kept);
}

/// Of tasks with distinct ids, the collector holds the newest that fit into its capacity, in the
/// order in which they came, wherever memory is no concern.
pub proof fn law_holds_the_newest(telemetry: CollectorModel, tasks: Seq<SnapshotModel>)
    requires
        telemetry.valid(),
        distinct_ids(telemetry.tasks + tasks),
        spares_memory(telemetry.tasks + tasks, telemetry.capacity),
    ensures
        telemetry.record_all(tasks).tasks == newest(telemetry.tasks + tasks, telemetry.capacity),
    decreases tasks.len(),
{
    let all = telemetry.tasks + tasks;
    let capacity = telemetry.capacity;
    if tasks.len() == 0 {
        assert(all == telemetry.tasks);
    } else {
        let rest = tasks.drop_last();
        let shorter = telemetry.tasks + rest;
        assert(all == shorter.push(tasks.last()));
        assert forall|i: int, j: int| 0 <= i < j < shorter.len() implies (
        #[trigger] shorter[i]).task_id != (#[trigger] shorter[j]).task_id by {
            assert(shorter[i] == all[i] && shorter[j] == all[j]);
        }
        assert forall|k: int| 0 <= k <= shorter.len() implies held_bytes(
            #[trigger] newest(shorter.take(k), capacity),
        ) < MEMORY_CEILING by {
            assert(shorter.take(k) == all.take(k));
        }
        law_holds_the_newest(telemetry, rest);
        law_recording_is_bounded(telemetry, rest);
        assert(all.take(all.len() as int) == all);
        assert(held_bytes(newest(all.take(all.len() as int), capacity)) < MEMORY_CEILING);
        lemma_holds_one_more(telemetry.record_all(rest), shorter, tasks.last());
    }
}

/// A task that is not on record yet takes the place of the oldest one where the collector is full,
/// and of none where it is not, wherever memory allows it.
pub proof fn law_evicts_the_oldest(telemetry: CollectorModel, task: SnapshotModel)
    requires
        telemetry.valid(),
        distinct_ids(telemetry.tasks.push(task)),
        held_bytes(newest(telemetry.tasks.push(task), telemetry.capacity)) < MEMORY_CEILING,
    ensures
        telemetry.tasks.len() < telemetry.capacity ==> telemetry.record(task).tasks
            == telemetry.tasks.push(task),
        telemetry.tasks.len() == telemetry.capacity ==> telemetry.record(task).tasks
            == telemetry.tasks.drop_first().push(task),
{
    lemma_holds_one_more(telemetry, telemetry.tasks, task);
    if telemetry.tasks.len() == telemetry.capacity {
        assert(newest(telemetry.tasks.push(task), telemetry.capacity)
            == telemetry.tasks.drop_first().push(task));
    }
}

/// The snapshots of a collector, names and all, take less than 5 MB; the estimate in the health
/// figures is exact, and below that.
pub proof fn law_memory_ceiling(telemetry: CollectorModel, health: RuntimeHealthSummary)
    requires
        telemetry.valid(),
        telemetry.is_health(health),
    ensures
        held_bytes(telemetry.tasks) < 5_000_000,
        health.estimated_memory_kb == health.total_tracked_tasks * size_of::<TaskMetricSnapshot>()
            / 1024,
        health.estimated_memory_kb < 5 * 1024,
{
    lemma_inline_bytes(telemetry.tasks);
}

/// Every starved task is one of the tasks, and every task that is starved is among them.
proof fn lemma_starved_among(tasks: Seq<SnapshotModel>, threshold_us: u64)
    ensures
        starved_among(tasks, threshold_us).len() <= tasks.len(),
        forall|i: int|
            0 <= i < starved_among(tasks, threshold_us).len() ==> is_starved(
                #[trigger] starved_among(tasks, threshold_us)[i],
                threshold_us,
            ) && tasks.contains(starved_among(tasks, threshold_us)[i]),
        forall|i: int|
            0 <= i < tasks.len() && is_starved(tasks[i], threshold_us) ==> starved_among(
                tasks,
                threshold_us,
            ).contains(#[trigger] tasks[i]),
{
    let pred = |task: SnapshotModel| is_starved(task, threshold_us);
    broadcast use vstd::seq_lib::group_filter_ensures;

    let starved = starved_among(tasks, threshold_us);
    assert forall|i: int| 0 <= i < starved.len() implies is_starved(
        #[trigger] starved[i],
        threshold_us,
    ) && tasks.contains(starved[i]) by {
        assert(pred(tasks.filter(pred)[i]));
        assert(tasks.filter(pred).contains(starved[i]));
        tasks.lemma_filter_contains_rev(pred, starved[i]);
    }
    assert forall|i: int|
        0 <= i < tasks.len() && is_starved(tasks[i], threshold_us) implies starved.contains(
        #[trigger] tasks[i],
    ) by {
        assert(pred(tasks[i]));
        tasks.lemma_filter_contains(pred, i);
    }
}

/// A query returns starved tasks on record only, as many as there are up to its cap, and the cap
/// is at most 100. Where the cap does not bind, none is left out.
pub proof fn law_query_is_sound_and_complete(
    telemetry: CollectorModel,
    min_duration_us: Option<u64>,
    limit: usize,
)
    ensures
        ({
            let threshold = match min_duration_us {
                Some(t) => t,
                None => telemetry.threshold_us,
            };
            let count = starved_among(telemetry.tasks, threshold).len();
            let found = telemetry.starved(min_duration_us, limit);
            &&& found.len() == if count <= return_cap(limit) {
                count
            } else {
                return_cap(limit)
            }
            &&& 1 <= return_cap(limit) <= 100
            &&& limit > 0 ==> found.len() <= limit
            &&& forall|i: int|
                0 <= i < found.len() ==> is_starved(#[trigger] found[i], threshold)
                    && telemetry.tasks.contains(found[i])
            &&& count <= return_cap(limit) ==> forall|i: int|
                0 <= i < telemetry.tasks.len() && is_starved(telemetry.tasks[i], threshold)
                    ==> found.contains(#[trigger] telemetry.tasks[i])
        }),
{
    let threshold = match min_duration_us {
        Some(t) => t,
        None => telemetry.threshold_us,
    };
    lemma_starved_among(telemetry.tasks, threshold);
    let all = starved_among(telemetry.tasks, threshold);
    let found = telemetry.starved(min_duration_us, limit);
    assert forall|i: int| 0 <= i < found.len() implies is_starved(#[trigger] found[i], threshold)
        && telemetry.tasks.contains(found[i]) by {
        assert(found[i] == all[i]);
    }
}

/// The health figures and the queries agree: a query at the collector's own threshold returns as
/// many tasks as the summary counts as starved, up to the query's cap.
pub proof fn law_query_matches_health(
    telemetry: CollectorModel,
    health: RuntimeHealthSummary,
    limit: usize,
)
    requires
        telemetry.is_health(health),
    ensures
        telemetry.starved(None, limit).len() == if health.starved_tasks_count <= return_cap(limit) {
            health.starved_tasks_count as nat
        } else {
            return_cap(limit)
        },
{
}

/// Raising the threshold never turns up more starved tasks.
pub proof fn law_higher_threshold_finds_fewer(
    tasks: Seq<SnapshotModel>,
    lower_us: u64,
    higher_us: u64,
)
    requires
        lower_us <= higher_us,
    ensures
        starved_among(tasks, higher_us).len() <= starved_among(tasks, lower_us).len(),
        forall|i: int|
            0 <= i < starved_among(tasks, higher_us).len() ==> starved_among(
                tasks,
                lower_us,
            ).contains(#[trigger] starved_among(tasks, higher_us)[i]),
    decreases tasks.len(),
{
    reveal(Seq::filter);
    let high = starved_among(tasks, higher_us);
    let low = starved_among(tasks, lower_us);
    if tasks.len() > 0 {
        law_higher_threshold_finds_fewer(tasks.drop_last(), lower_us, higher_us);
    }
    lemma_starved_among(tasks, higher_us);
    lemma_starved_among(tasks, lower_us);
    assert forall|i: int| 0 <= i < high.len() implies low.contains(#[trigger] high[i]) by {
        let k = choose|k: int| 0 <= k < tasks.len() && tasks[k] == high[i];
        assert(is_starved(tasks[k], lower_us));
    }
}

/// The sum and the maximum of the poll durations.
proof fn lemma_poll_figures(tasks: Seq<SnapshotModel>)
    ensures
        sum_poll_us(tasks) <= tasks.len() * max_poll_us(tasks),
        forall|i: int|
            0 <= i < tasks.len() ==> (#[trigger] tasks[i]).last_poll_duration_us <= max_poll_us(
                tasks,
            ),
        tasks.len() > 0 ==> exists|i: int|
            0 <= i < tasks.len() && (#[trigger] tasks[i]).last_poll_duration_us == max_poll_us(
                tasks,
            ),
    decreases tasks.len(),
{
    if tasks.len() > 0 {
        let rest = tasks.drop_last();
        let last = tasks.last().last_poll_duration_us as nat;
        lemma_poll_figures(rest);
        let count = rest.len();
        let old_max = max_poll_us(rest);
        let new_max = max_poll_us(tasks);
        assert(count * old_max + last <= (count + 1) * new_max) by (nonlinear_arith)
            requires
                old_max <= new_max,
                last <= new_max,
        ;
        assert forall|i: int| 0 <= i < tasks.len() implies (
        #[trigger] tasks[i]).last_poll_duration_us <= new_max by {
            if i < rest.len() {
                assert(rest[i] == tasks[i]);
            }
        }
        if last > old_max || rest.len() == 0 {
            assert(tasks[tasks.len() - 1].last_poll_duration_us == new_max);
        } else {
            let k = choose|k: int|
                0 <= k < rest.len() && (#[trigger] rest[k]).last_poll_duration_us == old_max;
            assert(tasks[k].last_poll_duration_us == new_max);
        }
    }
}

/// The health figures are consistent: no more tasks are starved than tracked, no more are tracked
/// than fit, the maximum is that of some task and bounds every task and the mean.
pub proof fn law_health_is_consistent(telemetry: CollectorModel, health: RuntimeHealthSummary)
    requires
        telemetry.valid(),
        telemetry.is_health(health),
    ensures
        health.starved_tasks_count <= health.total_tracked_tasks <= telemetry.capacity,
        health.mean_poll_duration_us <= health.max_poll_duration_us,
        forall|i: int|
            0 <= i < telemetry.tasks.len() ==> (
            #[trigger] telemetry.tasks[i]).last_poll_duration_us <= health.max_poll_duration_us,
        telemetry.tasks.len() > 0 ==> exists|i: int|
            0 <= i < telemetry.tasks.len() && (
            #[trigger] telemetry.tasks[i]).last_poll_duration_us == health.max_poll_duration_us,
{
    lemma_starved_among(telemetry.tasks, telemetry.threshold_us);
    lemma_poll_figures(telemetry.tasks);
    let total = telemetry.tasks.len();
    let sum = sum_poll_us(telemetry.tasks);
    let max = max_poll_us(telemetry.tasks);
    if total > 0 {
        assert(sum / total <= max) by (nonlinear_arith)
            requires
                sum <= total * max,
                total > 0,
        ;
    }
}

/// Without a task on record, every health figure is 0.
pub proof fn law_empty_health(telemetry: CollectorModel, health: RuntimeHealthSummary)
    requires
        telemetry.tasks.len() == 0,
        telemetry.is_health(health),
    ensures
        health.total_tracked_tasks == 0,
        health.starved_tasks_count == 0,
        health.mean_poll_duration_us == 0,
        health.max_poll_duration_us == 0,
        health.estimated_memory_kb == 0,
{
    lemma_starved_among(telemetry.tasks, telemetry.threshold_us);
    assert(0 * size_of::<TaskMetricSnapshot>() == 0) by (nonlinear_arith);
}

/// The poll figures of a concatenation.
proof fn lemma_poll_concat(a: Seq<SnapshotModel>, b: Seq<SnapshotModel>)
    ensures
        sum_poll_us(a + b) == sum_poll_us(a) + sum_poll_us(b),
        max_poll_us(a + b) == if max_poll_us(a) > max_poll_us(b) {
            max_poll_us(a)
        } else {
            max_poll_us(b)
        },
    decreases b.len(),
{
    if b.len() == 0 {
        assert(a + b == a);
    } else {
        assert((a + b).drop_last() == a + b.drop_last());
        lemma_poll_concat(a, b.drop_last());
    }
}

/// The figures without one of the tasks.
proof fn lemma_figures_remove(tasks: Seq<SnapshotModel>, k: int, threshold_us: u64)
    requires
        0 <= k < tasks.len(),
    ensures
        ({
            let rest = tasks.remove(k);
            let poll = tasks[k].last_poll_duration_us as nat;
            &&& sum_poll_us(tasks) == sum_poll_us(rest) + poll
            &&& max_poll_us(tasks) == if max_poll_us(rest) > poll {
                max_poll_us(rest)
            } else {
                poll
            }
            &&& starved_among(tasks, threshold_us).len() == starved_among(rest, threshold_us).len()
                + if is_starved(tasks[k], threshold_us) {
                1int
            } else {
                0
            }
        }),
{
    let head = tasks.take(k);
    let tail = tasks.skip(k + 1);
    let more = head.push(tasks[k]);
    let pred = |task: SnapshotModel| is_starved(task, threshold_us);
    assert(tasks.remove(k) == head + tail);
    assert(tasks == more + tail);
    assert(more.drop_last() == head);
    lemma_poll_concat(head, tail);
    lemma_poll_concat(more, tail);
    Seq::filter_distributes_over_add(head, tail, pred);
    Seq::filter_distributes_over_add(more, tail, pred);
    reveal(Seq::filter);
}

/// Two orders of the same tasks have the same figures.
proof fn lemma_reordered(first: Seq<SnapshotModel>, second: Seq<SnapshotModel>, threshold_us: u64)
    requires
        first.to_multiset() == second.to_multiset(),
    ensures
        first.len() == second.len(),
        sum_poll_us(first) == sum_poll_us(second),
        max_poll_us(first) == max_poll_us(second),
        starved_among(first, threshold_us).len() == starved_among(second, threshold_us).len(),
        held_bytes(first) == held_bytes(second),
        distinct_ids(first) ==> distinct_ids(second),
    decreases first.len(),
{
    to_multiset_len(first);
    to_multiset_len(second);
    if first.len() == 0 {
        assert(first == second);
    } else {
        let end = first.len() - 1;
        let task = first[end];
        to_multiset_contains(first, task);
        to_multiset_contains(second, task);
        assert(first.contains(task));
        let k = choose|k: int| 0 <= k < second.len() && second[k] == task;
        let fewer = first.remove(end);
        let others = second.remove(k);
        to_multiset_remove(first, end);
        to_multiset_remove(second, k);
        lemma_reordered(fewer, others, threshold_us);
        lemma_figures_remove(first, end, threshold_us);
        lemma_figures_remove(second, k, threshold_us);
        lemma_held_remove(first, end);
        lemma_held_remove(second, k);
        if distinct_ids(first) {
            assert forall|i: int, j: int| 0 <= i < j < fewer.len() implies (
            #[trigger] fewer[i]).task_id != (#[trigger] fewer[j]).task_id by {
                assert(fewer[i] == first[i] && fewer[j] == first[j]);
            }
            assert forall|i: int| 0 <= i < others.len() implies (#[trigger] others[i]).task_id
                != task.task_id by {
                to_multiset_contains(others, others[i]);
                to_multiset_contains(fewer, others[i]);
                assert(others.contains(others[i]));
                let j = choose|j: int| 0 <= j < fewer.len() && fewer[j] == others[i];
                assert(fewer[j] == first[j]);
            }
            assert forall|i: int, j: int| 0 <= i < j < second.len() implies (
            #[trigger] second[i]).task_id != (#[trigger] second[j]).task_id by {
                let a = if i < k {
                    i
                } else {
                    i - 1
                };
                let b = if j < k {
                    j
                } else {
                    j - 1
                };
                if i != k {
                    assert(others[a] == second[i]);
                }
                if j != k {
                    assert(others[b] == second[j]);
                }
            }
        }
    }
}

/// The order in which tasks are recorded leaves the health figures alone: tasks with distinct ids
/// that the collector has room for give the same figures in any order.
pub proof fn law_recording_order_is_immaterial(
    telemetry: CollectorModel,
    first: Seq<SnapshotModel>,
    second: Seq<SnapshotModel>,
    first_health: RuntimeHealthSummary,
    second_health: RuntimeHealthSummary,
)
    requires
        telemetry.valid(),
        first.to_multiset() == second.to_multiset(),
        distinct_ids(telemetry.tasks + first),
        telemetry.tasks.len() + first.len() <= telemetry.capacity,
        held_bytes(telemetry.tasks + first) < MEMORY_CEILING,
        telemetry.record_all(first).is_health(first_health),
        telemetry.record_all(second).is_health(second_health),
    ensures
        first_health == second_health,
{
    let a = telemetry.tasks + first;
    let b = telemetry.tasks + second;
    lemma_multiset_commutative(telemetry.tasks, first);
    lemma_multiset_commutative(telemetry.tasks, second);
    lemma_reordered(a, b, telemetry.threshold_us);
    lemma_spares_memory(a, telemetry.capacity);
    lemma_spares_memory(b, telemetry.capacity);
    law_holds_the_newest(telemetry, first);
    law_holds_the_newest(telemetry, second);
    law_recording_is_bounded(telemetry, first);
    law_recording_is_bounded(telemetry, second);
}

/// A task report never has more than 50 items, nor more than its limit; without a limit, it has at
/// most 20.
pub proof fn law_report_is_bounded(
    query: TaskQuery,
    telemetry: CollectorModel,
    processes: Seq<ProcessModel>,
)
    ensures
        query.report(telemetry, processes).len() <= 50,
        query.limit matches Some(limit) ==> query.report(telemetry, processes).len() <= limit,
        query.limit is None ==> query.report(telemetry, processes).len() <= 20,
{
}

/// A report is what the record and the process table give, from its start: nothing is left out
/// before the limit is reached.
pub proof fn law_report_is_complete(
    query: TaskQuery,
    telemetry: CollectorModel,
    processes: Seq<ProcessModel>,
)
    ensures
        ({
            let all = query.on_record(telemetry) + query.live(processes);
            let report = query.report(telemetry, processes);
            &&& report.len() <= all.len()
            &&& report == all.take(report.len() as int)
            &&& report.len() < query.item_limit() ==> report == all
        }),
{
    let all = query.on_record(telemetry) + query.live(processes);
    let report = query.report(telemetry, processes);
    assert(all.take(all.len() as int) == all);
    assert(report == all.take(report.len() as int));
}

/// Where a reported snapshot comes from.
proof fn lemma_report_origin(
    query: TaskQuery,
    telemetry: CollectorModel,
    processes: Seq<ProcessModel>,
    i: int,
)
    requires
        0 <= i < query.report(telemetry, processes).len(),
    ensures
        ({
            let task = query.report(telemetry, processes)[i];
            &&& query.concerns(task)
            &&& {
                ||| query.flags(task, telemetry.threshold_us) && telemetry.tasks.contains(task)
                ||| query.reaches(task) && query.pegged(processes).contains(task)
            }
        }),
{
    let recorded = query.on_record(telemetry);
    let live = query.live(processes);
    let task = query.report(telemetry, processes)[i];
    assert(task == (recorded + live)[i]);
    if i < recorded.len() {
        let pred = |task: SnapshotModel|
            query.concerns(task) && query.flags(task, telemetry.threshold_us);
        telemetry.tasks.lemma_filter_pred(pred, i);
        assert(telemetry.tasks.filter(pred).contains(task));
        telemetry.tasks.lemma_filter_contains_rev(pred, task);
    } else {
        let pred = |task: SnapshotModel| query.reaches(task);
        let k = i - recorded.len();
        query.pegged(processes).lemma_filter_pred(pred, k);
        assert(query.pegged(processes).filter(pred).contains(task));
        query.pegged(processes).lemma_filter_contains_rev(pred, task);
        lemma_pegged_origin(query, processes, task);
    }
}

/// A report is about what the query asks for: with a process id, every snapshot in it has that
/// id; with a name filter, the process of every snapshot in it has a name that holds the filter,
/// whatever the letter case, and so has the snapshot itself if its name is ASCII.
pub proof fn law_report_is_about_the_query(
    query: TaskQuery,
    telemetry: CollectorModel,
    processes: Seq<ProcessModel>,
)
    ensures
        forall|i: int|
            0 <= i < query.report(telemetry, processes).len() ==> {
                let task = #[trigger] query.report(telemetry, processes)[i];
                &&& query.target_pid matches Some(pid) ==> task.task_id == pid
                &&& query.process_name matches Some(name) ==> {
                    &&& has_substring(lowercase(daemon_name(task.name)), lowercase(name))
                    &&& is_ascii_chars(task.name) ==> has_substring(
                        lowercase(task.name),
                        lowercase(name),
                    )
                }
            },
{
    assert forall|i: int| 0 <= i < query.report(telemetry, processes).len() implies {
        let task = #[trigger] query.report(telemetry, processes)[i];
        &&& query.target_pid matches Some(pid) ==> task.task_id == pid
        &&& query.process_name matches Some(name) ==> {
            &&& has_substring(lowercase(daemon_name(task.name)), lowercase(name))
            &&& is_ascii_chars(task.name) ==> has_substring(lowercase(task.name), lowercase(name))
        }
    } by {
        lemma_report_origin(query, telemetry, processes, i);
        let task = query.report(telemetry, processes)[i];
        if let Some(name) = query.process_name {
            if is_ascii_chars(task.name) {
                let needle = lowercase(name);
                let part = daemon_name(task.name);
                assert(is_ascii_chars(part));
                let low = lowercase(part);
                let at = choose|at: int|
                    0 <= at <= low.len() - needle.len() && #[trigger] low.subrange(
                        at,
                        at + needle.len(),
                    ) == needle;
                assert(lowercase(task.name).subrange(at, at + needle.len()) == low.subrange(
                    at,
                    at + needle.len(),
                ));
            }
        }
    }
}

/// The snapshot of a process belongs to that process: a query that selects the process is about
/// its snapshot.
pub proof fn law_selected_processes_are_concerned(query: TaskQuery, process: ProcessModel)
    requires
        query.selects(process),
    ensures
        daemon_name(worker_snapshot(process).name) == process.name,
        query.concerns(worker_snapshot(process)),
{
    let mark = "::worker_thread"@;
    let name = process.name + mark;
    assert(name.skip(name.len() - mark.len()) == mark);
    assert(name.take(name.len() - mark.len()) == process.name);
}

/// Without a threshold, what a report shows is marked as starved or took longer than the default.
pub proof fn law_default_threshold_is_exceeded(
    query: TaskQuery,
    telemetry: CollectorModel,
    processes: Seq<ProcessModel>,
)
    requires
        query.min_poll_duration_ms is None,
    ensures
        forall|i: int|
            0 <= i < query.report(telemetry, processes).len() ==> {
                let task = #[trigger] query.report(telemetry, processes)[i];
                task.status == TaskStatus::Starved || task.last_poll_duration_us
                    > telemetry.threshold_us
            },
{
    assert forall|i: int| 0 <= i < query.report(telemetry, processes).len() implies {
        let task = #[trigger] query.report(telemetry, processes)[i];
        task.status == TaskStatus::Starved || task.last_poll_duration_us > telemetry.threshold_us
    } by {
        lemma_report_origin(query, telemetry, processes, i);
        let task = query.report(telemetry, processes)[i];
        if query.pegged(processes).contains(task) {
            lemma_pegged_origin(query, processes, task);
        }
    }
}

/// With a threshold, what a report shows of the process table reaches it, and so does what it
/// shows of the record unless that was marked as starved.
pub proof fn law_given_threshold_is_reached(
    query: TaskQuery,
    telemetry: CollectorModel,
    processes: Seq<ProcessModel>,
    threshold_us: u64,
)
    requires
        query.threshold_us() == Some(threshold_us),
    ensures
        forall|i: int|
            0 <= i < query.live(processes).len() ==> (
            #[trigger] query.live(processes)[i]).last_poll_duration_us >= threshold_us,
        forall|i: int|
            0 <= i < query.on_record(telemetry).len() ==> is_starved(
                #[trigger] query.on_record(telemetry)[i],
                threshold_us,
            ),
{
    let reached = |task: SnapshotModel| query.reaches(task);
    assert forall|i: int| 0 <= i < query.live(processes).len() implies (
    #[trigger] query.live(processes)[i]).last_poll_duration_us >= threshold_us by {
        query.pegged(processes).lemma_filter_pred(reached, i);
    }
    let flagged = |task: SnapshotModel|
        query.concerns(task) && query.flags(task, telemetry.threshold_us);
    assert forall|i: int| 0 <= i < query.on_record(telemetry).len() implies is_starved(
        #[trigger] query.on_record(telemetry)[i],
        threshold_us,
    ) by {
        telemetry.tasks.lemma_filter_pred(flagged, i);
    }
}

/// The snapshot of a pegged process stands for a process of the table.
proof fn lemma_pegged_origin(query: TaskQuery, processes: Seq<ProcessModel>, task: SnapshotModel)
    requires
        query.pegged(processes).contains(task),
    ensures
        exists|process: ProcessModel| #[trigger]
            processes.contains(process) && query.selects(process) && process.cpu_usage.exceeds(
                PEGGED_PERCENT as nat,
            ) && task == worker_snapshot(process),
        query.concerns(task),
{
    let worker_of = |process: ProcessModel|
        if query.selects(process) && process.cpu_usage.exceeds(PEGGED_PERCENT as nat) {
            Some(worker_snapshot(process))
        } else {
            None
        };
    processes.lemma_filter_map_contains(worker_of, task);
    let process = choose|process: ProcessModel| #[trigger]
        processes.contains(process) && query.selects(process) && process.cpu_usage.exceeds(
            PEGGED_PERCENT as nat,
        ) && task == worker_snapshot(process);
    law_selected_processes_are_concerned(query, process);
}

/// A pegged process shows a load of at least 80 whole percent.
pub proof fn law_pegged_load(usage: CpuUsage)
    requires
        usage.exceeds(PEGGED_PERCENT as nat),
    ensures
        usage.whole() >= PEGGED_PERCENT,
{
    lemma_pow2_pos(149);
    let unit = pow2(149) as int;
    let magnitude = usage.magnitude();
    if !usage.is_infinite() {
        assert(magnitude / unit >= 80) by (nonlinear_arith)
            requires
                magnitude > 80 * unit,
                unit > 0,
        ;
    }
}

/// The snapshot of a process is starved whatever the threshold.
pub proof fn law_worker_is_starved(process: ProcessModel, threshold_us: u64)
    ensures
        is_starved(worker_snapshot(process), threshold_us),
{
}

/// A task inspection leaves the snapshots of the pegged processes on record, behind those that were
/// there, and the oldest make room, wherever memory is no concern; all of those of processes are
/// starved at any threshold. The process ids and those on record are distinct. Without a pegged
/// process, the record stays as it is.
pub proof fn law_inspection_is_remembered(
    query: TaskQuery,
    telemetry: CollectorModel,
    processes: Seq<ProcessModel>,
    threshold_us: u64,
)
    requires
        telemetry.valid(),
        distinct_ids(telemetry.tasks + query.pegged(processes)),
        spares_memory(telemetry.tasks + query.pegged(processes), telemetry.capacity),
    ensures
        ({
            let pegged = newest(query.pegged(processes), telemetry.capacity);
            let after = telemetry.record_all(query.pegged(processes));
            &&& after.tasks == newest(
                telemetry.tasks + query.pegged(processes),
                telemetry.capacity,
            )
            &&& query.pegged(processes).len() == 0 ==> after == telemetry
            &&& pegged.len() <= after.tasks.len()
            &&& newest(after.tasks, pegged.len()) == pegged
            &&& forall|i: int|
                0 <= i < pegged.len() ==> is_starved(#[trigger] pegged[i], threshold_us)
        }),
{
    let all = query.pegged(processes);
    let pegged = newest(all, telemetry.capacity);
    law_holds_the_newest(telemetry, all);
    assert(newest(telemetry.record_all(all).tasks, pegged.len()) == pegged);
    assert forall|i: int| 0 <= i < pegged.len() implies is_starved(
        #[trigger] pegged[i],
        threshold_us,
    ) by {
        assert(all.contains(pegged[i]));
        lemma_pegged_origin(query, processes, pegged[i]);
    }
}

/// Predicates that agree on the items of a sequence pick the same ones.
proof fn lemma_same_filter(
    tasks: Seq<SnapshotModel>,
    first: spec_fn(SnapshotModel) -> bool,
    second: spec_fn(SnapshotModel) -> bool,
)
    requires
        forall|i: int| 0 <= i < tasks.len() ==> first(#[trigger] tasks[i]) == second(tasks[i]),
    ensures
        tasks.filter(first) == tasks.filter(second),
    decreases tasks.len(),
{
    reveal(Seq::filter);
    if tasks.len() > 0 {
        let rest = tasks.drop_last();
        assert forall|i: int| 0 <= i < rest.len() implies first(#[trigger] rest[i]) == second(
            rest[i],
        ) by {
            assert(rest[i] == tasks[i]);
        }
        lemma_same_filter(rest, first, second);
        assert(first(tasks[tasks.len() - 1]) == second(tasks[tasks.len() - 1]));
    }
}

/// A process that was once seen pegged stays reported after it has gone: what a query without a
/// threshold reports on an empty record, it reports again when the table is empty.
pub proof fn law_pegged_process_stays_reported(
    query: TaskQuery,
    telemetry: CollectorModel,
    processes: Seq<ProcessModel>,
)
    requires
        telemetry.valid(),
        telemetry.tasks.len() == 0,
        query.min_poll_duration_ms is None,
        query.pegged(processes).len() <= telemetry.capacity,
        distinct_ids(query.pegged(processes)),
        held_bytes(query.pegged(processes)) < MEMORY_CEILING,
    ensures
        query.report(telemetry.record_all(query.pegged(processes)), Seq::empty()) == query.report(
            telemetry,
            processes,
        ),
{
    let pegged = query.pegged(processes);
    let after = telemetry.record_all(pegged);
    assert(telemetry.tasks + pegged == pegged);
    lemma_spares_memory(pegged, telemetry.capacity);
    law_holds_the_newest(telemetry, pegged);
    law_recording_is_bounded(telemetry, pegged);
    assert(after.tasks == pegged);
    let flagged = |task: SnapshotModel|
        query.concerns(task) && query.flags(task, after.threshold_us);
    let reached = |task: SnapshotModel| query.reaches(task);
    assert forall|i: int| 0 <= i < pegged.len() implies flagged(#[trigger] pegged[i]) == reached(
        pegged[i],
    ) by {
        assert(pegged.contains(pegged[i]));
        lemma_pegged_origin(query, processes, pegged[i]);
    }
    lemma_same_filter(pegged, flagged, reached);
    reveal(Seq::filter);
    assert(query.on_record(telemetry) == Seq::<SnapshotModel>::empty());
    assert(query.pegged(Seq::empty()) == Seq::<SnapshotModel>::empty());
    assert(query.live(Seq::empty()) == Seq::<SnapshotModel>::empty());
    assert(query.on_record(after) + query.live(Seq::empty()) == query.on_record(telemetry)
        + query.live(processes));
}

/// Without a threshold, what is reported of an empty record are the pegged processes that the query
/// selects, each of them and no other, wherever the limit has room for them.
pub proof fn law_pegged_processes_are_reported(
    query: TaskQuery,
    telemetry: CollectorModel,
    processes: Seq<ProcessModel>,
)
    requires
        telemetry.tasks.len() == 0,
        query.min_poll_duration_ms is None,
        query.pegged(processes).len() <= query.item_limit(),
    ensures
        query.report(telemetry, processes) == query.pegged(processes),
        forall|task: SnapshotModel| #[trigger]
            query.report(telemetry, processes).contains(task) <==> exists|process: ProcessModel|
                #[trigger]
                processes.contains(process) && query.selects(process) && process.cpu_usage.exceeds(
                    PEGGED_PERCENT as nat,
                ) && task == worker_snapshot(process),
{
    let pegged = query.pegged(processes);
    let reached = |task: SnapshotModel| query.reaches(task);
    let always = |task: SnapshotModel| true;
    reveal(Seq::filter);
    assert(query.on_record(telemetry) == Seq::<SnapshotModel>::empty());
    lemma_same_filter(pegged, reached, always);
    lemma_filter_all(pegged);
    assert(query.on_record(telemetry) + query.live(processes) == pegged);
    assert forall|task: SnapshotModel| #[trigger]
        query.report(telemetry, processes).contains(task) <==> exists|process: ProcessModel|
            #[trigger]
            processes.contains(process) && query.selects(process) && process.cpu_usage.exceeds(
                PEGGED_PERCENT as nat,
            ) && task == worker_snapshot(process) by {
        if pegged.contains(task) {
            lemma_pegged_origin(query, processes, task);
        }
        if exists|process: ProcessModel| #[trigger]
            processes.contains(process) && query.selects(process) && process.cpu_usage.exceeds(
                PEGGED_PERCENT as nat,
            ) && task == worker_snapshot(process) {
            let process = choose|process: ProcessModel| #[trigger]
                processes.contains(process) && query.selects(process) && process.cpu_usage.exceeds(
                    PEGGED_PERCENT as nat,
                ) && task == worker_snapshot(process);
            let i = choose|i: int| 0 <= i < processes.len() && processes[i] == process;
            lemma_pegged_includes(query, processes, i);
        }
    }
}

/// A selected pegged process has its snapshot among those of the pegged processes.
proof fn lemma_pegged_includes(query: TaskQuery, processes: Seq<ProcessModel>, i: int)
    requires
        0 <= i < processes.len(),
        query.selects(processes[i]),
        processes[i].cpu_usage.exceeds(PEGGED_PERCENT as nat),
    ensures
        query.pegged(processes).contains(worker_snapshot(processes[i])),
    decreases processes.len(),
{
    let worker_of = |process: ProcessModel|
        if query.selects(process) && process.cpu_usage.exceeds(PEGGED_PERCENT as nat) {
            Some(worker_snapshot(process))
        } else {
            None
        };
    let rest = processes.drop_last();
    let n = rest.len() as int;
    let before = query.pegged(rest);
    assert(processes.take(n) == rest);
    assert(processes.take(n + 1) == processes);
    processes.lemma_filter_map_take_succ(worker_of, n);
    if i == n {
        let snapshot = worker_snapshot(processes[n]);
        assert(query.pegged(processes) == before.push(snapshot));
        assert(before.push(snapshot)[before.len() as int] == snapshot);
    } else {
        lemma_pegged_includes(query, rest, i);
        let k = choose|k: int| 0 <= k < before.len() && before[k] == worker_snapshot(processes[i]);
        assert(query.pegged(processes)[k] == before[k]);
    }
}

/// Picking every item leaves all of them.
proof fn lemma_filter_all(tasks: Seq<SnapshotModel>)
    ensures
        tasks.filter(|task: SnapshotModel| true) == tasks,
    decreases tasks.len(),
{
    reveal(Seq::filter);
    if tasks.len() > 0 {
        lemma_filter_all(tasks.drop_last());
        assert(tasks.drop_last().push(tasks.last()) == tasks);
    }
}

/// Picking items one way and then another is to pick those that pass both.
proof fn lemma_filter_twice(
    tasks: Seq<SnapshotModel>,
    first: spec_fn(SnapshotModel) -> bool,
    second: spec_fn(SnapshotModel) -> bool,
)
    ensures
        tasks.filter(first).filter(second) == tasks.filter(
            |task: SnapshotModel| first(task) && second(task),
        ),
    decreases tasks.len(),
{
    reveal(Seq::filter);
    if tasks.len() > 0 {
        let rest = tasks.drop_last();
        lemma_filter_twice(rest, first, second);
        assert(rest.filter(first).push(tasks.last()).drop_last() == rest.filter(first));
    }
}

/// The pegged processes of a query for one id.
proof fn lemma_pegged_of_pid(query: TaskQuery, processes: Seq<ProcessModel>, pid: u32)
    requires
        query.target_pid == Some(pid),
    ensures
        query.pegged(processes) == (TaskQuery { target_pid: None, ..query }).pegged(
            processes,
        ).filter(|task: SnapshotModel| task.task_id == pid),
    decreases processes.len(),
{
    let wide = TaskQuery { target_pid: None, ..query };
    let has_pid = |task: SnapshotModel| task.task_id == pid;
    let narrow_of = |process: ProcessModel|
        if query.selects(process) && process.cpu_usage.exceeds(PEGGED_PERCENT as nat) {
            Some(worker_snapshot(process))
        } else {
            None
        };
    let wide_of = |process: ProcessModel|
        if wide.selects(process) && process.cpu_usage.exceeds(PEGGED_PERCENT as nat) {
            Some(worker_snapshot(process))
        } else {
            None
        };
    reveal(Seq::filter);
    if processes.len() == 0 {
        assert(query.pegged(processes) == Seq::<SnapshotModel>::empty());
        assert(wide.pegged(processes) == Seq::<SnapshotModel>::empty());
    } else {
        let rest = processes.drop_last();
        let n = rest.len() as int;
        lemma_pegged_of_pid(query, rest, pid);
        assert(processes.take(n) == rest);
        assert(processes.take(n + 1) == processes);
        processes.lemma_filter_map_take_succ(narrow_of, n);
        processes.lemma_filter_map_take_succ(wide_of, n);
        let snapshot = worker_snapshot(processes[n]);
        assert(wide.pegged(rest).push(snapshot).drop_last() == wide.pegged(rest));
        if wide.selects(processes[n]) && processes[n].cpu_usage.exceeds(PEGGED_PERCENT as nat) {
            assert(wide.pegged(processes) == wide.pegged(rest).push(snapshot));
            if processes[n].pid == pid {
                assert(query.pegged(processes) == query.pegged(rest).push(snapshot));
            } else {
                assert(query.pegged(processes) == query.pegged(rest));
            }
        } else {
            assert(wide.pegged(processes) == wide.pegged(rest));
            assert(query.pegged(processes) == query.pegged(rest));
        }
    }
}

/// A process id narrows a report, of the record and of the process table alike: to the snapshots
/// with that id, in their order, among those that the query finds without it.
pub proof fn law_target_pid_narrows(
    query: TaskQuery,
    telemetry: CollectorModel,
    processes: Seq<ProcessModel>,
    pid: u32,
)
    requires
        query.target_pid == Some(pid),
    ensures
        ({
            let wide = TaskQuery { target_pid: None, ..query };
            let has_pid = |task: SnapshotModel| task.task_id == pid;
            &&& query.on_record(telemetry) == wide.on_record(telemetry).filter(has_pid)
            &&& query.live(processes) == wide.live(processes).filter(has_pid)
            &&& query.report(telemetry, processes) == oldest(
                (wide.on_record(telemetry) + wide.live(processes)).filter(has_pid),
                query.item_limit() as nat,
            )
        }),
        forall|i: int|
            0 <= i < query.report(telemetry, processes).len() ==> (
            #[trigger] query.report(telemetry, processes)[i]).task_id == pid,
{
    let wide = TaskQuery { target_pid: None, ..query };
    let has_pid = |task: SnapshotModel| task.task_id == pid;
    let default_us = telemetry.threshold_us;
    let flagged = |task: SnapshotModel| query.concerns(task) && query.flags(task, default_us);
    let wide_flagged = |task: SnapshotModel| wide.concerns(task) && wide.flags(task, default_us);
    let both_flagged = |task: SnapshotModel| wide_flagged(task) && has_pid(task);
    lemma_filter_twice(telemetry.tasks, wide_flagged, has_pid);
    lemma_same_filter(telemetry.tasks, flagged, both_flagged);

    let reached = |task: SnapshotModel| query.reaches(task);
    let wide_reached = |task: SnapshotModel| wide.reaches(task);
    let one = |task: SnapshotModel| has_pid(task) && reached(task);
    let other = |task: SnapshotModel| wide_reached(task) && has_pid(task);
    lemma_pegged_of_pid(query, processes, pid);
    let pegged = wide.pegged(processes);
    lemma_filter_twice(pegged, has_pid, reached);
    lemma_filter_twice(pegged, wide_reached, has_pid);
    lemma_same_filter(pegged, one, other);

    Seq::filter_distributes_over_add(wide.on_record(telemetry), wide.live(processes), has_pid);
    law_report_is_about_the_query(query, telemetry, processes);
}

} // verus!
