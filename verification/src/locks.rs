//! Finding the processes that hold locks on a workspace.

use crate::cpu::CpuUsage;
use crate::process::{table, ProcessModel, ProcessRecord};
use crate::text::{
    as_slice, contains, copy_of, has_substring, lowercase, lowercase_of, lowercase_option,
    to_lowercase,
};
use vstd::prelude::*;

verus! {

/// A process that may hold a lock.
#[derive(Debug)]
pub struct ProcessLockInfo {
    pub pid: u32,
    pub name: String,
    pub exe_path: Option<String>,
    pub memory_mb: u64,
    pub cpu_usage: CpuUsage,
}

/// A lock holder, with its texts as sequences of characters.
#[verifier::ext_equal]
pub struct LockModel {
    pub pid: u32,
    pub name: Seq<char>,
    pub exe_path: Option<Seq<char>>,
    pub memory_mb: u64,
    pub cpu_usage: CpuUsage,
}

impl View for ProcessLockInfo {
    type V = LockModel;

    open spec fn view(&self) -> LockModel {
        LockModel {
            pid: self.pid,
            name: self.name@,
            exe_path: self.exe_path.deep_view(),
            memory_mb: self.memory_mb,
            cpu_usage: self.cpu_usage,
        }
    }
}

/// Which processes to list. Without any filter, the usual workspace culprits are listed.
#[derive(Debug)]
pub struct InspectLocksArgs {
    pub process_name: Option<String>,
    pub path_filter: Option<String>,
}

/// A lock query, with its filters as sequences of characters.
#[verifier::ext_equal]
pub struct LockQuery {
    pub process_name: Option<Seq<char>>,
    pub path_filter: Option<Seq<char>>,
}

impl View for InspectLocksArgs {
    type V = LockQuery;

    open spec fn view(&self) -> LockQuery {
        LockQuery {
            process_name: self.process_name.deep_view(),
            path_filter: self.path_filter.deep_view(),
        }
    }
}

impl InspectLocksArgs {
    /// The arguments of a call: those that could be decoded, or no filter at all.
    pub fn or_unfiltered(decoded: Option<InspectLocksArgs>) -> (args: InspectLocksArgs)
        ensures
            args@ == match decoded {
                Some(given) => given@,
                None => (LockQuery { process_name: None, path_filter: None }),
            },
    {
        match decoded {
            Some(given) => given,
            None => InspectLocksArgs { process_name: None, path_filter: None },
        }
    }
}

/// Whether a process, by its lowercase name and path, is one that usually locks a workspace.
pub open spec fn usual_culprit(name: Seq<char>, exe: Option<Seq<char>>) -> bool {
    ||| has_substring(name, "cargo"@)
    ||| has_substring(name, "rustc"@)
    ||| has_substring(name, "antigravity_core_mcp"@)
    ||| has_substring(name, "agent_cockpit"@)
    ||| exe matches Some(path) && {
        ||| has_substring(path, "target\\release"@)
        ||| has_substring(path, "target\\debug"@)
        ||| has_substring(path, "antigravity_mcp_runs"@)
    }
}

/// Whether a query lists a process; every text is in lowercase.
pub open spec fn admits_lowered(
    query: LockQuery,
    name: Seq<char>,
    exe: Option<Seq<char>>,
) -> bool {
    if query.process_name is None && query.path_filter is None {
        usual_culprit(name, exe)
    } else {
        &&& query.process_name matches Some(wanted) ==> has_substring(name, wanted)
        &&& query.path_filter matches Some(wanted) ==> (exe matches Some(path) && has_substring(
            path,
            wanted,
        ))
    }
}

impl LockQuery {
    /// The query with its filters in lowercase.
    pub open spec fn lowered(self) -> LockQuery {
        LockQuery {
            process_name: lowercase_option(self.process_name),
            path_filter: lowercase_option(self.path_filter),
        }
    }

    /// Whether the query lists a process. Letter case does not matter.
    pub open spec fn admits(self, process: ProcessModel) -> bool {
        admits_lowered(
            self.lowered(),
            lowercase(process.name),
            lowercase_option(process.exe_path),
        )
    }

    /// The lines for the processes that the query lists, in the order of the process table.
    pub open spec fn listed(self, processes: Seq<ProcessModel>) -> Seq<LockModel> {
        processes.filter_map(
            |process: ProcessModel|
                if self.admits(process) {
                    Some(lock_info(process))
                } else {
                    None
                },
        )
    }
}

/// The line for one process.
pub open spec fn lock_info(process: ProcessModel) -> LockModel {
    LockModel {
        pid: process.pid,
        name: process.name,
        exe_path: process.exe_path,
        memory_mb: process.memory_bytes / 1024 / 1024,
        cpu_usage: process.cpu_usage,
    }
}

/// Whether the lines ascend by process id.
pub open spec fn by_pid(lines: Seq<LockModel>) -> bool {
    forall|i: int, j: int| 0 <= i < j < lines.len() ==> (#[trigger] lines[i]).pid <= (
    #[trigger] lines[j]).pid
}

/// The lines for one process id, in order.
pub open spec fn lines_of(lines: Seq<LockModel>, pid: u32) -> Seq<LockModel> {
    lines.filter(|line: LockModel| line.pid == pid)
}

/// Whether `sorted` is the stable sort of `lines` by process id: it ascends, and for each id it
/// has the same lines in the same order.
pub open spec fn is_sort_by_pid(sorted: Seq<LockModel>, lines: Seq<LockModel>) -> bool {
    &&& by_pid(sorted)
    &&& forall|pid: u32| #[trigger] lines_of(sorted, pid) == lines_of(lines, pid)
}

/// The models of a vector of lines.
pub open spec fn lock_models(lines: Seq<ProcessLockInfo>) -> Seq<LockModel> {
    lines.map_values(|line: ProcessLockInfo| line@)
}

/// Whether a query lists a process, given that every text is already in lowercase.
pub fn admits_lowercase(
    target_name: Option<&str>,
    target_path: Option<&str>,
    name: &str,
    exe: Option<&str>,
) -> (admitted: bool)
    ensures
        admitted == admits_lowered(
            LockQuery {
                process_name: target_name.deep_view(),
                path_filter: target_path.deep_view(),
            },
            name@,
            exe.deep_view(),
        ),
{
    if target_name.is_none() && target_path.is_none() {
        contains(name, "cargo") || contains(name, "rustc") || contains(name, "antigravity_core_mcp")
            || contains(name, "agent_cockpit") || match exe {
            Some(path) => contains(path, "target\\release") || contains(path, "target\\debug")
                || contains(path, "antigravity_mcp_runs"),
            None => false,
        }
    } else {
        let name_match = match target_name {
            Some(wanted) => contains(name, wanted),
            None => true,
        };
        let path_match = match (target_path, exe) {
            (Some(wanted), Some(path)) => contains(path, wanted),
            (Some(_), None) => false,
            (None, _) => true,
        };
        name_match && path_match
    }
}

/// Puts a line behind every line whose process id is not greater.
fn insert_by_pid(lines: &mut Vec<ProcessLockInfo>, line: ProcessLockInfo)
    requires
        by_pid(lock_models(old(lines)@)),
    ensures
        exists|at: int|
            {
                &&& 0 <= at <= old(lines)@.len()
                &&& lock_models(final(lines)@) == #[trigger] lock_models(old(lines)@).insert(
                    at,
                    line@,
                )
                &&& forall|i: int| 0 <= i < at ==> (#[trigger] lock_models(old(lines)@)[i]).pid
                    <= line.pid
                &&& forall|i: int|
                    at <= i < old(lines)@.len() ==> (#[trigger] lock_models(old(lines)@)[i]).pid
                        > line.pid
            },
{
    let mut at: usize = lines.len();
    while at > 0 && lines[at - 1].pid > line.pid
        invariant
            at <= lines.len(),
            lines@ == old(lines)@,
            forall|i: int| at <= i < lines.len() ==> (#[trigger] lines@[i]).pid > line.pid,
        decreases at,
    {
        at -= 1;
    }
    let ghost before = lock_models(lines@);
    proof {
        assert forall|i: int| 0 <= i < at implies (#[trigger] before[i]).pid <= line.pid by {
            assert(before[i].pid <= before[at - 1].pid);
        }
    }
    lines.insert(at, line);
    assert(lock_models(lines@) == before.insert(at as int, line@));
}

/// No line of an id is found where none has it.
proof fn lemma_no_lines_of(lines: Seq<LockModel>, pid: u32)
    requires
        forall|i: int| 0 <= i < lines.len() ==> (#[trigger] lines[i]).pid != pid,
    ensures
        lines_of(lines, pid).len() == 0,
    decreases lines.len(),
{
    reveal(Seq::filter);
    if lines.len() > 0 {
        assert(lines.last().pid != pid);
        assert forall|i: int| 0 <= i < lines.drop_last().len() implies (
        #[trigger] lines.drop_last()[i]).pid != pid by {
            assert(lines.drop_last()[i] == lines[i]);
        }
        lemma_no_lines_of(lines.drop_last(), pid);
    }
}

/// Inserting a line at its place keeps a sort of the lines so far a sort.
proof fn lemma_insert_sorts(
    sorted: Seq<LockModel>,
    lines: Seq<LockModel>,
    at: int,
    line: LockModel,
)
    requires
        is_sort_by_pid(sorted, lines),
        0 <= at <= sorted.len(),
        forall|i: int| 0 <= i < at ==> (#[trigger] sorted[i]).pid <= line.pid,
        forall|i: int| at <= i < sorted.len() ==> (#[trigger] sorted[i]).pid > line.pid,
    ensures
        is_sort_by_pid(sorted.insert(at, line), lines.push(line)),
{
    let after = sorted.insert(at, line);
    let head = sorted.subrange(0, at);
    let tail = sorted.subrange(at, sorted.len() as int);
    assert(sorted == head + tail);
    assert forall|pid: u32| #[trigger]
        lines_of(after, pid) == lines_of(lines.push(line), pid) by {
        let pred = |l: LockModel| l.pid == pid;
        reveal(Seq::filter);
        Seq::filter_distributes_over_add(head, tail, pred);
        Seq::filter_distributes_over_add(head.push(line), tail, pred);
        assert(head.push(line).drop_last() == head);
        assert(lines.push(line).drop_last() == lines);
        assert(lines_of(sorted, pid) == lines_of(lines, pid));
        if pid == line.pid {
            lemma_no_lines_of(tail, pid);
        }
        assert(lines_of(after, pid) == lines_of(lines.push(line), pid));
    }
}

/// The lock holders that a query lists, in ascending order of their process ids.
pub(crate) fn list_locks(args: &InspectLocksArgs, processes: &Vec<ProcessRecord>) -> (locks: Vec<
    ProcessLockInfo,
>)
    ensures
        is_sort_by_pid(lock_models(locks@), args@.listed(table(processes@))),
{
    let target_name = lowercase_of(&args.process_name);
    let target_path = lowercase_of(&args.path_filter);
    let ghost query = args@;
    let ghost all = table(processes@);
    let ghost line_of = |process: ProcessModel|
        if query.admits(process) {
            Some(lock_info(process))
        } else {
            None
        };
    let mut locks: Vec<ProcessLockInfo> = Vec::new();
    let mut i: usize = 0;
    proof {
        assert(all.take(0).filter_map(line_of) == Seq::<LockModel>::empty());
        assert(lock_models(locks@) == Seq::<LockModel>::empty());
    }
    while i < processes.len()
        invariant
            i <= processes.len(),
            query == args@,
            all == table(processes@),
            line_of == (|process: ProcessModel|
                if query.admits(process) {
                    Some(lock_info(process))
                } else {
                    None
                }),
            target_name.deep_view() == query.lowered().process_name,
            target_path.deep_view() == query.lowered().path_filter,
            is_sort_by_pid(lock_models(locks@), all.take(i as int).filter_map(line_of)),
        decreases processes.len() - i,
    {
        let process = &processes[i];
        let name = to_lowercase(process.name.as_str());
        let exe = lowercase_of(&process.exe_path);
        proof {
            all.lemma_filter_map_take_succ(line_of, i as int);
        }
        if admits_lowercase(
            as_slice(&target_name),
            as_slice(&target_path),
            name.as_str(),
            as_slice(&exe),
        ) {
            let line = ProcessLockInfo {
                pid: process.pid,
                name: process.name.clone(),
                exe_path: copy_of(&process.exe_path),
                memory_mb: process.memory_bytes / 1024 / 1024,
                cpu_usage: process.cpu_usage,
            };
            let ghost before = lock_models(locks@);
            let ghost model = line@;
            insert_by_pid(&mut locks, line);
            proof {
                let so_far = all.take(i as int).filter_map(line_of);
                assert(query.admits(all[i as int]));
                assert(model == lock_info(all[i as int]));
                let at = choose|at: int|
                    {
                        &&& 0 <= at <= before.len()
                        &&& lock_models(locks@) == #[trigger] before.insert(at, model)
                        &&& forall|i: int|
                            0 <= i < at ==> (#[trigger] before[i]).pid <= model.pid
                        &&& forall|i: int|
                            at <= i < before.len() ==> (#[trigger] before[i]).pid > model.pid
                    };
                lemma_insert_sorts(before, so_far, at, model);
                assert(all.take(i + 1).filter_map(line_of) == so_far.push(model));
            }
        }
        i += 1;
    }
    assert(all.take(i as int) == all);
    locks
}

} // verus!
