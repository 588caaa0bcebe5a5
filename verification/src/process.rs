//! What the cockpit knows of a running process.

use crate::cpu::CpuUsage;
use vstd::prelude::*;

verus! {

/// One process, as a refresh of the process table shows it.
#[derive(Debug)]
pub struct ProcessRecord {
    pub pid: u32,
    pub name: String,
    pub exe_path: Option<String>,
    pub memory_bytes: u64,
    pub cpu_usage: CpuUsage,
}

/// A process, with its texts as sequences of characters.
#[verifier::ext_equal]
pub struct ProcessModel {
    pub pid: u32,
    pub name: Seq<char>,
    pub exe_path: Option<Seq<char>>,
    pub memory_bytes: u64,
    pub cpu_usage: CpuUsage,
}

impl View for ProcessRecord {
    type V = ProcessModel;

    open spec fn view(&self) -> ProcessModel {
        ProcessModel {
            pid: self.pid,
            name: self.name@,
            exe_path: self.exe_path.deep_view(),
            memory_bytes: self.memory_bytes,
            cpu_usage: self.cpu_usage,
        }
    }
}

/// The process table, in the order in which it was walked.
pub open spec fn table(processes: Seq<ProcessRecord>) -> Seq<ProcessModel> {
    processes.map_values(|process: ProcessRecord| process@)
}

/// The process with the given id: the first one, should the table name it more than once.
pub open spec fn process_with_pid(processes: Seq<ProcessModel>, pid: u32) -> Option<ProcessModel> {
    let hits = processes.filter(|process: ProcessModel| process.pid == pid);
    if hits.len() == 0 {
        None
    } else {
        Some(hits.first())
    }
}

/// Looks up a process by its id.
pub(crate) fn find_process(processes: &Vec<ProcessRecord>, pid: u32) -> (found: Option<
    &ProcessRecord,
>)
    ensures
        found is Some <==> process_with_pid(table(processes@), pid) is Some,
        found matches Some(process) ==> process_with_pid(table(processes@), pid) == Some(process@),
{
    let ghost all = table(processes@);
    let ghost pred = |process: ProcessModel| process.pid == pid;
    let mut i: usize = 0;
    proof {
        reveal(Seq::filter);
        assert(all.take(0).filter(pred).len() == 0);
    }
    while i < processes.len()
        invariant
            i <= processes.len(),
            all == table(processes@),
            pred == (|process: ProcessModel| process.pid == pid),
            all.take(i as int).filter(pred).len() == 0,
        decreases processes.len() - i,
    {
        let process = &processes[i];
        proof {
            reveal(Seq::filter);
            assert(all.take(i + 1).drop_last() == all.take(i as int));
            assert(all.take(i + 1).last() == process@);
        }
        if process.pid == pid {
            proof {
                assert(all == all.take(i + 1) + all.skip(i + 1));
                Seq::filter_distributes_over_add(all.take(i + 1), all.skip(i + 1), pred);
            }
            return Some(process);
        }
        i += 1;
    }
    assert(all.take(i as int) == all);
    None
}

} // verus!
