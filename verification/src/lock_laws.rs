//! What holds of lock listings and termination requests whatever the process table shows.

use crate::engine::{kill_outcome, outcome_view, TaskQuery};
use crate::error::{CockpitError, ErrorModel};
use crate::locks::{
    admits_lowered, by_pid, is_sort_by_pid, lines_of, lock_info, lock_models, InspectLocksArgs,
    LockModel, LockQuery, ProcessLockInfo,
};
use crate::process::{process_with_pid, ProcessModel};
use crate::text::{decimal, lowercase};
use crate::text_laws::{law_search_is_by_occurrence, occurs_in};
use vstd::prelude::*;
use vstd::seq_lib::{to_multiset_build, to_multiset_len};

verus! {

/// The lines of an id, by whether the last line has that id.
proof fn lemma_last_line(lines: Seq<LockModel>)
    requires
        lines.len() > 0,
    ensures
        forall|pid: u32|
            pid == lines.last().pid ==> #[trigger] lines_of(lines, pid) == lines_of(
                lines.drop_last(),
                pid,
            ).push(lines.last()),
        forall|pid: u32|
            pid != lines.last().pid ==> #[trigger] lines_of(lines, pid) == lines_of(
                lines.drop_last(),
                pid,
            ),
{
    reveal(Seq::filter);
}

/// The lines of an id are lines with that id.
proof fn lemma_lines_of(lines: Seq<LockModel>, pid: u32)
    ensures
        forall|i: int|
            0 <= i < lines_of(lines, pid).len() ==> (#[trigger] lines_of(lines, pid)[i]).pid == pid
                && lines.contains(lines_of(lines, pid)[i]),
        forall|i: int|
            0 <= i < lines.len() && lines[i].pid == pid ==> lines_of(lines, pid).contains(
                #[trigger] lines[i],
            ),
{
    let pred = |line: LockModel| line.pid == pid;
    let found = lines_of(lines, pid);
    assert forall|i: int| 0 <= i < found.len() implies (#[trigger] found[i]).pid == pid
        && lines.contains(found[i]) by {
        lines.lemma_filter_pred(pred, i);
        assert(lines.filter(pred).contains(found[i]));
        lines.lemma_filter_contains_rev(pred, found[i]);
    }
    assert forall|i: int| 0 <= i < lines.len() && lines[i].pid == pid implies found.contains(
        #[trigger] lines[i],
    ) by {
        lines.lemma_filter_contains(pred, i);
    }
}

/// Two sorted listings with the same lines for each id end with the same line.
proof fn lemma_same_last(a: Seq<LockModel>, b: Seq<LockModel>)
    requires
        by_pid(a),
        by_pid(b),
        forall|pid: u32| #[trigger] lines_of(a, pid) == lines_of(b, pid),
        a.len() > 0,
    ensures
        b.len() > 0,
        a.last() == b.last(),
{
    let p = a.last().pid;
    lemma_last_line(a);
    assert(lines_of(a, p).last() == a.last());
    assert(lines_of(b, p).len() > 0);
    lemma_lines_of(b, p);
    assert(b.contains(lines_of(b, p)[0]));
    let q = b.last().pid;
    let k = choose|k: int| 0 <= k < b.len() && b[k] == lines_of(b, p)[0];
    assert(p <= q) by {
        if k < b.len() - 1 {
            assert(b[k].pid <= b[b.len() - 1].pid);
        }
    }
    lemma_last_line(b);
    assert(lines_of(b, q).len() > 0);
    assert(lines_of(a, q).len() > 0);
    lemma_lines_of(a, q);
    assert(a.contains(lines_of(a, q)[0]));
    let l = choose|l: int| 0 <= l < a.len() && a[l] == lines_of(a, q)[0];
    assert(q <= p) by {
        if l < a.len() - 1 {
            assert(a[l].pid <= a[a.len() - 1].pid);
        }
    }
    assert(lines_of(b, p).last() == b.last());
}

/// Two sorted listings with the same lines for each id are the same.
proof fn lemma_same_lines(a: Seq<LockModel>, b: Seq<LockModel>)
    requires
        by_pid(a),
        by_pid(b),
        forall|pid: u32| #[trigger] lines_of(a, pid) == lines_of(b, pid),
    ensures
        a == b,
    decreases a.len(),
{
    if a.len() > 0 {
        lemma_same_last(a, b);
        lemma_last_line(a);
        lemma_last_line(b);
        let x = a.drop_last();
        let y = b.drop_last();
        assert forall|pid: u32| #[trigger] lines_of(x, pid) == lines_of(y, pid) by {
            assert(lines_of(a, pid) == lines_of(b, pid));
            if pid == a.last().pid {
                assert(lines_of(x, pid) == lines_of(a, pid).drop_last());
                assert(lines_of(y, pid) == lines_of(b, pid).drop_last());
            }
        }
        lemma_same_lines(x, y);
        assert(a == x.push(a.last()));
        assert(b == y.push(b.last()));
    } else if b.len() > 0 {
        assert forall|pid: u32| #[trigger] lines_of(b, pid) == lines_of(a, pid) by {
            assert(lines_of(a, pid) == lines_of(b, pid));
        }
        lemma_same_last(b, a);
    }
}

/// The order of a listing is fixed: one process table and one query have one sorted listing.
pub proof fn law_listing_is_determined(
    first: Seq<LockModel>,
    second: Seq<LockModel>,
    lines: Seq<LockModel>,
)
    requires
        is_sort_by_pid(first, lines),
        is_sort_by_pid(second, lines),
    ensures
        first == second,
{
    assert forall|pid: u32| #[trigger] lines_of(first, pid) == lines_of(second, pid) by {
        assert(lines_of(second, pid) == lines_of(lines, pid));
    }
    lemma_same_lines(first, second);
}

/// Whether no two processes of a table have one id.
pub open spec fn distinct_pids(processes: Seq<ProcessModel>) -> bool {
    forall|i: int, j: int|
        0 <= i < j < processes.len() ==> (#[trigger] processes[i]).pid != (
        #[trigger] processes[j]).pid
}

/// A query lists a line exactly where the table has a process that it stands for.
proof fn lemma_listed_origin(query: LockQuery, processes: Seq<ProcessModel>, line: LockModel)
    ensures
        query.listed(processes).contains(line) <==> exists|i: int|
            0 <= i < processes.len() && query.admits(#[trigger] processes[i]) && lock_info(
                processes[i],
            ) == line,
{
    let line_of = |process: ProcessModel|
        if query.admits(process) {
            Some(lock_info(process))
        } else {
            None
        };
    let listed = query.listed(processes);
    if listed.contains(line) {
        processes.lemma_filter_map_contains(line_of, line);
        let process = choose|process: ProcessModel| #[trigger]
            processes.contains(process) && line_of(process) == Some(line);
        let i = choose|i: int| 0 <= i < processes.len() && processes[i] == process;
        assert(query.admits(processes[i]) && lock_info(processes[i]) == line);
    }
    if exists|i: int|
        0 <= i < processes.len() && query.admits(#[trigger] processes[i]) && lock_info(processes[i])
            == line {
        let i = choose|i: int|
            0 <= i < processes.len() && query.admits(#[trigger] processes[i]) && lock_info(
                processes[i],
            ) == line;
        lemma_filter_map_keeps(query, processes, i);
    }
}

/// An admitted process has its line in the listing.
proof fn lemma_filter_map_keeps(query: LockQuery, processes: Seq<ProcessModel>, i: int)
    requires
        0 <= i < processes.len(),
        query.admits(processes[i]),
    ensures
        query.listed(processes).contains(lock_info(processes[i])),
    decreases processes.len(),
{
    let rest = processes.drop_last();
    let listed = query.listed(processes);
    let line = lock_info(processes[i]);
    if i == processes.len() - 1 {
        assert(listed[listed.len() - 1] == line);
    } else {
        lemma_filter_map_keeps(query, rest, i);
        let before = query.listed(rest);
        let k = choose|k: int| 0 <= k < before.len() && before[k] == line;
        assert(listed[k] == line);
    }
}

/// With distinct ids, a table gives an id at most one line.
proof fn lemma_one_line(query: LockQuery, processes: Seq<ProcessModel>, pid: u32)
    requires
        distinct_pids(processes),
    ensures
        lines_of(query.listed(processes), pid).len() <= 1,
    decreases processes.len(),
{
    reveal(Seq::filter);
    if processes.len() > 0 {
        let rest = processes.drop_last();
        let last = processes.last();
        lemma_one_line(query, rest, pid);
        let before = query.listed(rest);
        let after = query.listed(processes);
        if query.admits(last) {
            assert(after == before.push(lock_info(last)));
            assert(after.drop_last() == before);
            if last.pid == pid && lines_of(before, pid).len() > 0 {
                lemma_lines_of(before, pid);
                let line = lines_of(before, pid)[0];
                lemma_listed_origin(query, rest, line);
                let i = choose|i: int|
                    0 <= i < rest.len() && query.admits(#[trigger] rest[i]) && lock_info(rest[i])
                        == line;
                assert(processes[i].pid != processes[processes.len() - 1].pid);
            }
        } else {
            assert(after == before);
        }
    }
}

/// The order in which the process table was walked does not show: two walks over the same
/// processes, whose ids are distinct, lead to the same listing.
pub proof fn law_walk_order_is_immaterial(
    query: LockQuery,
    walk: Seq<ProcessModel>,
    other_walk: Seq<ProcessModel>,
    listing: Seq<LockModel>,
    other_listing: Seq<LockModel>,
)
    requires
        distinct_pids(walk),
        distinct_pids(other_walk),
        forall|process: ProcessModel| #[trigger]
            walk.contains(process) <==> other_walk.contains(process),
        is_sort_by_pid(listing, query.listed(walk)),
        is_sort_by_pid(other_listing, query.listed(other_walk)),
    ensures
        listing == other_listing,
{
    let a = query.listed(walk);
    let b = query.listed(other_walk);
    assert forall|pid: u32| #[trigger] lines_of(listing, pid) == lines_of(other_listing, pid) by {
        assert(lines_of(other_listing, pid) == lines_of(b, pid));
        lemma_one_line(query, walk, pid);
        lemma_one_line(query, other_walk, pid);
        lemma_walk_step(query, walk, other_walk, pid);
        lemma_walk_step(query, other_walk, walk, pid);
        let x = lines_of(a, pid);
        let y = lines_of(b, pid);
        if x.len() > 0 {
            assert(y.contains(x[0]));
        }
        if y.len() > 0 {
            assert(x.contains(y[0]));
        }
        assert(x == y);
    }
    lemma_same_lines(listing, other_listing);
}

/// A line that one walk leads to, the other leads to as well.
proof fn lemma_walk_step(
    query: LockQuery,
    walk: Seq<ProcessModel>,
    other_walk: Seq<ProcessModel>,
    pid: u32,
)
    requires
        forall|process: ProcessModel| #[trigger]
            walk.contains(process) ==> other_walk.contains(process),
    ensures
        forall|i: int|
            0 <= i < lines_of(query.listed(walk), pid).len() ==> lines_of(
                query.listed(other_walk),
                pid,
            ).contains(#[trigger] lines_of(query.listed(walk), pid)[i]),
{
    let a = query.listed(walk);
    let b = query.listed(other_walk);
    lemma_lines_of(a, pid);
    lemma_lines_of(b, pid);
    assert forall|i: int| 0 <= i < lines_of(a, pid).len() implies lines_of(b, pid).contains(
        #[trigger] lines_of(a, pid)[i],
    ) by {
        let line = lines_of(a, pid)[i];
        lemma_listed_origin(query, walk, line);
        let k = choose|k: int|
            0 <= k < walk.len() && query.admits(#[trigger] walk[k]) && lock_info(walk[k]) == line;
        assert(walk.contains(walk[k]));
        let l = choose|l: int| 0 <= l < other_walk.len() && other_walk[l] == walk[k];
        assert(query.admits(other_walk[l]) && lock_info(other_walk[l]) == line);
        lemma_listed_origin(query, other_walk, line);
        let m = choose|m: int| 0 <= m < b.len() && b[m] == line;
        assert(b[m].pid == pid);
    }
}

/// A listing shows exactly the admitted processes: each line stands for an admitted process of
/// the table, and each admitted process has its line.
pub proof fn law_listing_is_sound_and_complete(
    query: LockQuery,
    processes: Seq<ProcessModel>,
    listing: Seq<LockModel>,
    line: LockModel,
)
    requires
        is_sort_by_pid(listing, query.listed(processes)),
    ensures
        listing.contains(line) <==> exists|i: int|
            0 <= i < processes.len() && query.admits(#[trigger] processes[i]) && lock_info(
                processes[i],
            ) == line,
{
    let lines = query.listed(processes);
    let pid = line.pid;
    assert(lines_of(listing, pid) == lines_of(lines, pid));
    lemma_lines_of(listing, pid);
    lemma_lines_of(lines, pid);
    lemma_listed_origin(query, processes, line);
    if listing.contains(line) {
        let k = choose|k: int| 0 <= k < listing.len() && listing[k] == line;
        assert(lines_of(lines, pid).contains(listing[k]));
        let l = choose|l: int|
            0 <= l < lines_of(lines, pid).len() && lines_of(lines, pid)[l] == line;
        assert(lines.contains(lines_of(lines, pid)[l]));
    }
    if lines.contains(line) {
        let k = choose|k: int| 0 <= k < lines.len() && lines[k] == line;
        assert(lines_of(listing, pid).contains(lines[k]));
        let l = choose|l: int|
            0 <= l < lines_of(listing, pid).len() && lines_of(listing, pid)[l] == line;
        assert(listing.contains(lines_of(listing, pid)[l]));
    }
}

/// Two filters together admit what each of them admits alone.
pub proof fn law_filters_intersect(name: Seq<char>, path: Seq<char>, process: ProcessModel)
    ensures
        (LockQuery { process_name: Some(name), path_filter: Some(path) }).admits(process) <==> (
        LockQuery { process_name: Some(name), path_filter: None }).admits(process) && (LockQuery {
            process_name: None,
            path_filter: Some(path),
        }).admits(process),
{
}

/// Whether two filters differ in letter case at most.
pub open spec fn same_but_for_case(a: Option<Seq<char>>, b: Option<Seq<char>>) -> bool {
    match (a, b) {
        (Some(x), Some(y)) => lowercase(x) == lowercase(y),
        (None, None) => true,
        _ => false,
    }
}

/// Letter case does not matter to a lock listing, neither in the filters nor in the process.
pub proof fn law_lock_filters_ignore_case(
    query: LockQuery,
    other_query: LockQuery,
    process: ProcessModel,
    other_process: ProcessModel,
)
    requires
        same_but_for_case(query.process_name, other_query.process_name),
        same_but_for_case(query.path_filter, other_query.path_filter),
        lowercase(process.name) == lowercase(other_process.name),
        same_but_for_case(process.exe_path, other_process.exe_path),
    ensures
        query.admits(process) == other_query.admits(other_process),
{
}

/// Letter case does not matter to the selection of watched processes.
pub proof fn law_task_filter_ignores_case(
    query: TaskQuery,
    other_query: TaskQuery,
    process: ProcessModel,
    other_process: ProcessModel,
)
    requires
        same_but_for_case(query.process_name, other_query.process_name),
        query.target_pid == other_query.target_pid,
        lowercase(process.name) == lowercase(other_process.name),
        process.pid == other_process.pid,
    ensures
        query.selects(process) == other_query.selects(other_process),
{
}

/// A termination request has a target exactly where the table names the process, and the target is
/// a process of the table with the requested id.
pub proof fn law_kill_has_one_target(processes: Seq<ProcessModel>, pid: u32)
    ensures
        process_with_pid(processes, pid) is Some <==> exists|i: int|
            0 <= i < processes.len() && (#[trigger] processes[i]).pid == pid,
        process_with_pid(processes, pid) matches Some(target) ==> target.pid == pid
            && processes.contains(target),
{
    let pred = |process: ProcessModel| process.pid == pid;
    let hits = processes.filter(pred);
    if hits.len() > 0 {
        processes.lemma_filter_pred(pred, 0);
        assert(hits.contains(hits[0]));
        processes.lemma_filter_contains_rev(pred, hits[0]);
        let i = choose|i: int| 0 <= i < processes.len() && processes[i] == hits[0];
        assert(processes[i].pid == pid);
    } else {
        assert forall|i: int| 0 <= i < processes.len() implies (#[trigger] processes[i]).pid
            != pid by {
            if processes[i].pid == pid {
                processes.lemma_filter_contains(pred, i);
            }
        }
    }
}

/// A process that the table does not name is never reported as terminated, whatever the system
/// says; one that it names is reported as terminated exactly where the system says so.
pub proof fn law_kill_reports_the_truth(processes: Seq<ProcessModel>, pid: u32, killed: bool)
    ensures
        kill_outcome(processes, pid, killed) is Ok <==> killed && exists|i: int|
            0 <= i < processes.len() && (#[trigger] processes[i]).pid == pid,
        kill_outcome(processes, pid, killed) == Err::<Seq<char>, ErrorModel>(
            ErrorModel::ProcessNotFound(pid),
        ) <==> forall|i: int|
            0 <= i < processes.len() ==> (#[trigger] processes[i]).pid != pid,
{
    law_kill_has_one_target(processes, pid);
}

/// With a name filter alone, a process is listed exactly where the filter stands somewhere in its
/// name, in whatever letter case; its path has no say.
pub proof fn law_name_filter_lists_by_name(filter: Seq<char>, process: ProcessModel)
    ensures
        (LockQuery { process_name: Some(filter), path_filter: None }).admits(
            process,
        ) <==> occurs_in(
            lowercase(filter),
            lowercase(process.name),
        ),
{
    law_search_is_by_occurrence(lowercase(process.name), lowercase(filter));
}

/// With a path filter alone, a process is listed exactly where it has a path and the filter stands
/// somewhere in it, in whatever letter case; its name has no say.
pub proof fn law_path_filter_lists_by_path(filter: Seq<char>, process: ProcessModel)
    ensures
        (LockQuery { process_name: None, path_filter: Some(filter) }).admits(
            process,
        ) <==> match process.exe_path {
            Some(path) => occurs_in(lowercase(filter), lowercase(path)),
            None => false,
        },
{
    if let Some(path) = process.exe_path {
        law_search_is_by_occurrence(lowercase(path), lowercase(filter));
    }
}

/// Without a filter, a process is listed exactly where its name has that of a build tool or of a
/// server in it, or its path that of a build directory or of shadow runs.
pub proof fn law_default_listing(process: ProcessModel)
    ensures
        (LockQuery { process_name: None, path_filter: None }).admits(process) <==> {
            let name = lowercase(process.name);
            ||| occurs_in("cargo"@, name)
            ||| occurs_in("rustc"@, name)
            ||| occurs_in("antigravity_core_mcp"@, name)
            ||| occurs_in("agent_cockpit"@, name)
            ||| process.exe_path matches Some(path) && {
                ||| occurs_in("target\\release"@, lowercase(path))
                ||| occurs_in("target\\debug"@, lowercase(path))
                ||| occurs_in("antigravity_mcp_runs"@, lowercase(path))
            }
        },
{
    let name = lowercase(process.name);
    law_search_is_by_occurrence(name, "cargo"@);
    law_search_is_by_occurrence(name, "rustc"@);
    law_search_is_by_occurrence(name, "antigravity_core_mcp"@);
    law_search_is_by_occurrence(name, "agent_cockpit"@);
    if let Some(path) = process.exe_path {
        law_search_is_by_occurrence(lowercase(path), "target\\release"@);
        law_search_is_by_occurrence(lowercase(path), "target\\debug"@);
        law_search_is_by_occurrence(lowercase(path), "antigravity_mcp_runs"@);
    }
}

/// The same of texts that are taken as they are: each filter is searched for in its own text.
pub proof fn law_filters_search_their_own_text(
    query: LockQuery,
    name: Seq<char>,
    exe: Option<Seq<char>>,
)
    ensures
        admits_lowered(query, name, exe) <==> match (query.process_name, query.path_filter) {
            (Some(wanted), None) => occurs_in(wanted, name),
            (None, Some(wanted)) => exe is Some && occurs_in(wanted, exe->Some_0),
            (Some(wanted), Some(wanted_path)) => occurs_in(wanted, name) && exe is Some
                && occurs_in(wanted_path, exe->Some_0),
            (None, None) => {
                ||| occurs_in("cargo"@, name)
                ||| occurs_in("rustc"@, name)
                ||| occurs_in("antigravity_core_mcp"@, name)
                ||| occurs_in("agent_cockpit"@, name)
                ||| exe matches Some(path) && {
                    ||| occurs_in("target\\release"@, path)
                    ||| occurs_in("target\\debug"@, path)
                    ||| occurs_in("antigravity_mcp_runs"@, path)
                }
            },
        },
{
    law_search_is_by_occurrence(name, "cargo"@);
    law_search_is_by_occurrence(name, "rustc"@);
    law_search_is_by_occurrence(name, "antigravity_core_mcp"@);
    law_search_is_by_occurrence(name, "agent_cockpit"@);
    if let Some(wanted) = query.process_name {
        law_search_is_by_occurrence(name, wanted);
    }
    if let Some(path) = exe {
        law_search_is_by_occurrence(path, "target\\release"@);
        law_search_is_by_occurrence(path, "target\\debug"@);
        law_search_is_by_occurrence(path, "antigravity_mcp_runs"@);
        if let Some(wanted) = query.path_filter {
            law_search_is_by_occurrence(path, wanted);
        }
    }
}

/// Of a process, a name filter alone reads the name alone: two processes of one name are both
/// listed or both not, whatever their paths, ids, memory and load.
pub proof fn law_name_filter_reads_the_name(
    filter: Seq<char>,
    process: ProcessModel,
    other: ProcessModel,
)
    requires
        process.name == other.name,
    ensures
        (LockQuery { process_name: Some(filter), path_filter: None }).admits(process) == (LockQuery {
            process_name: Some(filter),
            path_filter: None,
        }).admits(other),
{
}

/// Of a process, a path filter alone reads the path alone; and whatever the filters are, they read
/// no more than the name and the path.
pub proof fn law_filters_read_name_and_path(
    query: LockQuery,
    process: ProcessModel,
    other: ProcessModel,
)
    requires
        process.exe_path == other.exe_path,
        process.name == other.name || (query.process_name is None && query.path_filter is Some),
    ensures
        query.admits(process) == query.admits(other),
{
}

/// The line of a process shows its id, name, path and load, and its memory in whole MiB.
pub proof fn law_lines_show_the_process(process: ProcessModel)
    ensures
        ({
            let line = lock_info(process);
            &&& line.pid == process.pid
            &&& line.name == process.name
            &&& line.exe_path == process.exe_path
            &&& line.cpu_usage == process.cpu_usage
            &&& line.memory_mb * 1_048_576 <= process.memory_bytes < (line.memory_mb + 1)
                * 1_048_576
        }),
{
}

/// The lines of a table are found process by process, in the order of the table: an admitted
/// process gives its line, and another one nothing.
pub proof fn law_lines_by_process(
    query: LockQuery,
    processes: Seq<ProcessModel>,
    process: ProcessModel,
)
    ensures
        query.listed(Seq::empty()).len() == 0,
        query.listed(processes.push(process)) == if query.admits(process) {
            query.listed(processes).push(lock_info(process))
        } else {
            query.listed(processes)
        },
{
    let line_of = |process: ProcessModel|
        if query.admits(process) {
            Some(lock_info(process))
        } else {
            None
        };
    let all = processes.push(process);
    let n = processes.len() as int;
    all.lemma_filter_map_take_succ(line_of, n);
    assert(all.take(n) == processes);
    assert(all.take(n + 1) == all);
}

/// A listing has its lines in ascending order of their ids, those with one id in the order of the
/// table, and every line exactly as often as the table gives it.
pub proof fn law_listing_is_a_stable_sort(
    listing: Seq<LockModel>,
    lines: Seq<LockModel>,
    i: int,
    j: int,
    pid: u32,
)
    requires
        is_sort_by_pid(listing, lines),
    ensures
        0 <= i < j < listing.len() ==> listing[i].pid <= listing[j].pid,
        listing.filter(|line: LockModel| line.pid == pid) == lines.filter(
            |line: LockModel| line.pid == pid,
        ),
        listing.to_multiset() == lines.to_multiset(),
        listing.len() == lines.len(),
{
    assert(lines_of(listing, pid) == lines_of(lines, pid));
    assert forall|line: LockModel| #[trigger]
        listing.to_multiset().count(line) == lines.to_multiset().count(line) by {
        assert(lines_of(listing, line.pid) == lines_of(lines, line.pid));
        lemma_count_of_line(listing, line);
        lemma_count_of_line(lines, line);
    }
    assert(listing.to_multiset() =~= lines.to_multiset());
    to_multiset_len(listing);
    to_multiset_len(lines);
}

/// A line is among those of its id as often as among all.
proof fn lemma_count_of_line(lines: Seq<LockModel>, line: LockModel)
    ensures
        lines.to_multiset().count(line) == lines_of(lines, line.pid).to_multiset().count(line),
    decreases lines.len(),
{
    reveal(Seq::filter);
    if lines.len() == 0 {
        assert(lines == lines_of(lines, line.pid));
    } else {
        let rest = lines.drop_last();
        let last = lines.last();
        lemma_count_of_line(rest, line);
        assert(lines == rest.push(last));
        to_multiset_build(rest, last);
        to_multiset_build(lines_of(rest, line.pid), last);
    }
}

/// The target of a termination request is the first process with the requested id.
pub proof fn law_kill_targets_the_first(processes: Seq<ProcessModel>, i: int)
    requires
        0 <= i < processes.len(),
        forall|j: int| 0 <= j < i ==> (#[trigger] processes[j]).pid != processes[i].pid,
    ensures
        process_with_pid(processes, processes[i].pid) == Some(processes[i]),
    decreases processes.len(),
{
    let pid = processes[i].pid;
    let pred = |process: ProcessModel| process.pid == pid;
    let head = processes.take(i + 1);
    let tail = processes.skip(i + 1);
    assert(processes == head + tail);
    Seq::filter_distributes_over_add(head, tail, pred);
    reveal(Seq::filter);
    let before = processes.take(i);
    assert(head.drop_last() == before);
    if before.filter(pred).len() > 0 {
        before.lemma_filter_pred(pred, 0);
        assert(before.filter(pred).contains(before.filter(pred)[0]));
        before.lemma_filter_contains_rev(pred, before.filter(pred)[0]);
        let j = choose|j: int| 0 <= j < before.len() && before[j] == before.filter(pred)[0];
        assert(processes[j].pid == pid);
    }
}

/// What a termination request comes to: where the first process with the id was terminated, the
/// text names it and the id; where the system refused, the error has the id; and where no process
/// has the id, so has the error that says this.
pub proof fn law_kill_outcomes(processes: Seq<ProcessModel>, i: int, pid: u32)
    ensures
        (0 <= i < processes.len() && processes[i].pid == pid && forall|j: int|
            0 <= j < i ==> (#[trigger] processes[j]).pid != pid) ==> {
            &&& kill_outcome(processes, pid, true) == Ok::<Seq<char>, ErrorModel>(
                "Successfully terminated process '"@ + processes[i].name + "' (PID "@ + decimal(
                    pid as nat,
                ) + ")"@,
            )
            &&& kill_outcome(processes, pid, false) == Err::<Seq<char>, ErrorModel>(
                ErrorModel::KillFailed(pid),
            )
        },
        (forall|j: int| 0 <= j < processes.len() ==> (#[trigger] processes[j]).pid != pid) ==> {
            &&& kill_outcome(processes, pid, true) == Err::<Seq<char>, ErrorModel>(
                ErrorModel::ProcessNotFound(pid),
            )
            &&& kill_outcome(processes, pid, false) == Err::<Seq<char>, ErrorModel>(
                ErrorModel::ProcessNotFound(pid),
            )
        },
{
    if 0 <= i < processes.len() && processes[i].pid == pid && forall|j: int|
        0 <= j < i ==> (#[trigger] processes[j]).pid != pid {
        law_kill_targets_the_first(processes, i);
    }
    law_kill_has_one_target(processes, pid);
}

/// The models of a lock query, of listed lines and of an outcome show what was given.
pub proof fn law_listings_show_their_fields(
    args: InspectLocksArgs,
    lines: Seq<ProcessLockInfo>,
    i: int,
    outcome: Result<String, CockpitError>,
)
    ensures
        args@.process_name == match args.process_name {
            Some(name) => Some(name@),
            None => None,
        },
        args@.path_filter == match args.path_filter {
            Some(path) => Some(path@),
            None => None,
        },
        lock_models(lines).len() == lines.len(),
        0 <= i < lines.len() ==> {
            let line = lock_models(lines)[i];
            &&& line.pid == lines[i].pid
            &&& line.name == lines[i].name@
            &&& line.exe_path == match lines[i].exe_path {
                Some(path) => Some(path@),
                None => None,
            }
            &&& line.memory_mb == lines[i].memory_mb
            &&& line.cpu_usage == lines[i].cpu_usage
        },
        outcome matches Ok(text) ==> outcome_view(outcome) == Ok::<Seq<char>, ErrorModel>(text@),
        outcome matches Err(error) ==> outcome_view(outcome) == Err::<Seq<char>, ErrorModel>(error@),
{
}

} // verus!
