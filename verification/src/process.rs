//! The QEMU processes that run on the machine.
use vstd::prelude::*;

verus! {

/// A running QEMU process: its number and, where it is known, the directory that it runs
/// in, as the bytes of its path in normal form.
#[derive(Debug)]
pub struct QemuProcess {
    pub pid: u32,
    pub cwd: Option<Vec<u8>>,
}

/// The process runs in the directory `dir`.
pub open spec fn runs_in(process: QemuProcess, dir: Seq<u8>) -> bool {
    match process.cwd {
        Some(cwd) => cwd@ == dir,
        None => false,
    }
}

/// The process number of the first process that runs in `dir`.
pub open spec fn pid_in(processes: Seq<QemuProcess>, dir: Seq<u8>) -> Option<u32>
    decreases processes.len(),
{
    if processes.len() == 0 {
        None
    } else if runs_in(processes[0], dir) {
        Some(processes[0].pid)
    } else {
        pid_in(processes.skip(1), dir)
    }
}

/// Whether two byte strings are the same.
pub fn same_bytes(a: &[u8], b: &[u8]) -> (res: bool)
    ensures
        res == (a@ == b@),
{
    if a.len() != b.len() {
        return false;
    }
    let mut i: usize = 0;
    while i < a.len()
        invariant
            i <= a@.len(),
            a@.len() == b@.len(),
            forall|j: int| 0 <= j < i ==> a@[j] == b@[j],
        decreases a@.len() - i,
    {
        if a[i] != b[i] {
            return false;
        }
        i = i + 1;
    }
    proof {
        assert(a@ =~= b@);
    }
    true
}

/// The number of the first process that runs in `dir`.
pub fn find_pid(processes: &Vec<QemuProcess>, dir: &[u8]) -> (res: Option<u32>)
    ensures
        res == pid_in(processes@, dir@),
{
    let mut i: usize = 0;
    proof {
        assert(processes@.skip(0) =~= processes@);
    }
    while i < processes.len()
        invariant
            i <= processes@.len(),
            pid_in(processes@, dir@) == pid_in(processes@.skip(i as int), dir@),
        decreases processes@.len() - i,
    {
        proof {
            assert(processes@.skip(i as int)[0] == processes@[i as int]);
            assert(processes@.skip(i as int).skip(1) =~= processes@.skip(i + 1));
        }
        if let Some(cwd) = &processes[i].cwd {
            if same_bytes(cwd, dir) {
                return Some(processes[i].pid);
            }
        }
        i = i + 1;
    }
    None
}

/// Whether a process with the number `pid` is among them.
pub fn has_pid(processes: &Vec<QemuProcess>, pid: u32) -> (res: bool)
    ensures
        res == exists|i: int| 0 <= i < processes@.len() && (#[trigger] processes@[i]).pid == pid,
{
    let mut i: usize = 0;
    while i < processes.len()
        invariant
            i <= processes@.len(),
            forall|j: int| 0 <= j < i ==> (#[trigger] processes@[j]).pid != pid,
        decreases processes@.len() - i,
    {
        if processes[i].pid == pid {
            return true;
        }
        i = i + 1;
    }
    false
}

/// A process is found exactly if one runs in the directory.
pub proof fn found_iff_running(processes: Seq<QemuProcess>, dir: Seq<u8>)
    ensures
        pid_in(processes, dir).is_some() <==> exists|i: int|
            0 <= i < processes.len() && runs_in(#[trigger] processes[i], dir),
    decreases processes.len(),
{
    if processes.len() > 0 {
        let rest = processes.skip(1);
        found_iff_running(rest, dir);
        if exists|i: int| 0 <= i < processes.len() && runs_in(#[trigger] processes[i], dir) {
            let i = choose|i: int| 0 <= i < processes.len() && runs_in(#[trigger] processes[i], dir);
            if i > 0 {
                assert(rest[i - 1] == processes[i]);
            }
        }
        if exists|i: int| 0 <= i < rest.len() && runs_in(#[trigger] rest[i], dir) {
            let i = choose|i: int| 0 <= i < rest.len() && runs_in(#[trigger] rest[i], dir);
            assert(processes[i + 1] == rest[i]);
        }
    }
}

} // verus!
