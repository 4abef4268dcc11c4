//! The control bar over a machine that was started elsewhere.
use crate::numbers::{decimal, decimal_text};
use crate::process::{find_pid, has_pid, pid_in, same_bytes, QemuProcess};
use crate::text::{beside, is_blank, trim, trimmed, wrap};
use vstd::prelude::*;

verus! {

/// The script that makes the window of a process the active one.
pub open spec fn focus_script_view(pid: u32) -> Seq<char> {
    "var ws = workspace.windowList(); for (var i = 0; i < ws.length; i++) { if (ws[i].pid === "@
        + decimal(pid as int) + ") { workspace.activeWindow = ws[i]; break; } }"@
}

/// The script that makes the window of a process the active one.
pub fn focus_script(pid: u32) -> (res: String)
    ensures
        res@ == focus_script_view(pid),
{
    wrap(
        "var ws = workspace.windowList(); for (var i = 0; i < ws.length; i++) { if (ws[i].pid === ",
        decimal_text(pid as u64).as_str(),
        ") { workspace.activeWindow = ws[i]; break; } }",
    )
}

/// The file that the script for a process is written to.
pub fn focus_script_path(pid: u32) -> (res: String)
    ensures
        res@ == "/tmp/.vm-curator-fs-"@ + decimal(pid as int) + ".js"@,
{
    wrap("/tmp/.vm-curator-fs-", decimal_text(pid as u64).as_str(), ".js")
}

/// The object of the script that was loaded, given what the loading printed; none if it
/// printed nothing.
pub fn script_object(printed: &str) -> (res: Option<String>)
    ensures
        res.is_some() <==> trim(printed@).len() > 0,
        res.is_some() ==> res.unwrap()@ == "/Scripting/Script"@ + trim(printed@),
{
    if is_blank(printed) {
        None
    } else {
        Some(beside("/Scripting/Script", trimmed(printed).as_str()))
    }
}

/// What happens to the bar.
#[derive(Clone, Copy, Debug, PartialEq, Eq, Structural)]
pub enum HoverEvent {
    Enter,
    Leave,
    /// The time after a leave has run out.
    Timeout,
}

/// Whether the bar is open, and whether it closes when the time has run out.
#[derive(Clone, Copy, Debug, PartialEq, Eq, Structural)]
pub struct Hover {
    pub open: bool,
    pub closing: bool,
}

impl Hover {
    /// The bar at first: closed.
    pub fn new() -> (res: Hover)
        ensures
            res == (Hover { open: false, closing: false }),
    {
        Hover { open: false, closing: false }
    }

    /// The bar after an event.
    pub open spec fn next(self, event: HoverEvent) -> Hover {
        match event {
            HoverEvent::Enter => Hover { open: true, closing: false },
            HoverEvent::Leave => Hover { open: self.open, closing: true },
            HoverEvent::Timeout => Hover {
                open: self.open && !self.closing,
                closing: self.closing,
            },
        }
    }

    /// Takes an event. Says whether the bar is to be opened or closed, if either.
    pub fn handle(&mut self, event: HoverEvent) -> (res: Option<bool>)
        ensures
            *final(self) == old(self).next(event),
            res == (match event {
                HoverEvent::Enter => Some(true),
                HoverEvent::Leave => None,
                HoverEvent::Timeout => if old(self).closing {
                    Some(false)
                } else {
                    None
                },
            }),
    {
        match event {
            HoverEvent::Enter => {
                self.closing = false;
                self.open = true;
                Some(true)
            },
            HoverEvent::Leave => {
                self.closing = true;
                None
            },
            HoverEvent::Timeout => {
                if self.closing {
                    self.open = false;
                    Some(false)
                } else {
                    None
                }
            },
        }
    }
}

/// The pointer opens the bar, and the bar closes once the pointer has left it and the time
/// has run out.
pub proof fn bar_opens_and_closes(bar: Hover)
    ensures
        bar.next(HoverEvent::Enter).open,
        !bar.next(HoverEvent::Leave).next(HoverEvent::Timeout).open,
{
}

/// A pointer that comes back before the time has run out keeps the bar open.
pub proof fn return_keeps_the_bar_open(bar: Hover)
    ensures
        bar.next(HoverEvent::Leave).next(HoverEvent::Enter).next(HoverEvent::Timeout).open,
{
}

/// Whether the bar of a process stays: while the process runs.
pub fn bar_stays(processes: &Vec<QemuProcess>, pid: u32) -> (res: bool)
    ensures
        res == exists|i: int| 0 <= i < processes@.len() && (#[trigger] processes@[i]).pid == pid,
{
    has_pid(processes, pid)
}

/// After how many further polls a machine that was launched here, and was not seen to run,
/// is no longer waited for.
pub const LAUNCH_POLLS: u32 = 5;

/// A machine that is launched here: its directory, and how many further polls wait for it
/// once its launch has succeeded.
#[derive(Debug)]
pub struct LaunchMark {
    pub dir: Vec<u8>,
    pub polls: Option<u32>,
}

/// What has been seen of running machines: the processes that have a window or a bar, and
/// the machines that are launched here and were not yet seen to run.
#[derive(Debug)]
pub struct Seen {
    pub pids: Vec<u32>,
    pub launching: Vec<LaunchMark>,
}

/// The directory of a mark, and the polls that wait for it.
pub open spec fn mark_view(mark: LaunchMark) -> (Seq<u8>, Option<u32>) {
    (mark.dir@, mark.polls)
}

/// The directories and polls of marks.
pub open spec fn marks_view(marks: Seq<LaunchMark>) -> Seq<(Seq<u8>, Option<u32>)> {
    Seq::new(marks.len(), |i: int| mark_view(marks[i]))
}

/// One of the marks is for the machine in `dir`.
pub open spec fn is_marked(marks: Seq<(Seq<u8>, Option<u32>)>, dir: Seq<u8>) -> bool {
    exists|i: int| 0 <= i < marks.len() && (#[trigger] marks[i]).0 == dir
}

/// The marks, with those for the machine in `dir` waiting for `LAUNCH_POLLS` further polls.
pub open spec fn waiting(marks: Seq<(Seq<u8>, Option<u32>)>, dir: Seq<u8>) -> Seq<
    (Seq<u8>, Option<u32>),
> {
    Seq::new(
        marks.len(),
        |i: int|
            if marks[i].0 == dir {
                (dir, Some(LAUNCH_POLLS))
            } else {
                marks[i]
            },
    )
}

/// The marks without those for the machine in `dir`.
pub open spec fn unmarked(marks: Seq<(Seq<u8>, Option<u32>)>, dir: Seq<u8>) -> Seq<
    (Seq<u8>, Option<u32>),
>
    decreases marks.len(),
{
    if marks.len() == 0 {
        Seq::empty()
    } else if marks.last().0 == dir {
        unmarked(marks.drop_last(), dir)
    } else {
        unmarked(marks.drop_last(), dir).push(marks.last())
    }
}

/// The marks after a poll: those that wait for polls wait for one less, and are gone when
/// none is left.
pub open spec fn polled_marks(marks: Seq<(Seq<u8>, Option<u32>)>) -> Seq<(Seq<u8>, Option<u32>)>
    decreases marks.len(),
{
    if marks.len() == 0 {
        Seq::empty()
    } else {
        let done = polled_marks(marks.drop_last());
        match marks.last().1 {
            Some(n) => if n == 0 {
                done
            } else {
                done.push((marks.last().0, Some((n - 1) as u32)))
            },
            None => done.push(marks.last()),
        }
    }
}

/// One of the processes has the number `pid`.
pub open spec fn runs(processes: Seq<QemuProcess>, pid: u32) -> bool {
    exists|i: int| 0 <= i < processes.len() && (#[trigger] processes[i]).pid == pid
}

/// The numbers that processes still have, in order.
pub open spec fn still_running(pids: Seq<u32>, processes: Seq<QemuProcess>) -> Seq<u32>
    decreases pids.len(),
{
    if pids.len() == 0 {
        Seq::empty()
    } else if runs(processes, pids.last()) {
        still_running(pids.drop_last(), processes).push(pids.last())
    } else {
        still_running(pids.drop_last(), processes)
    }
}

impl Seen {
    /// Nothing seen yet.
    pub fn new() -> (res: Seen)
        ensures
            res.pids@.len() == 0,
            res.launching@.len() == 0,
    {
        Seen { pids: Vec::new(), launching: Vec::new() }
    }

    /// A process is one that has been seen.
    pub open spec fn has_seen(self, pid: u32) -> bool {
        self.pids@.contains(pid)
    }

    /// The machine in `dir` is launched here, and was not yet seen to run.
    pub open spec fn launches(self, dir: Seq<u8>) -> bool {
        is_marked(marks_view(self.launching@), dir)
    }

    /// Notes that the machine in `dir` is launched here.
    pub fn launch(&mut self, dir: Vec<u8>)
        ensures
            final(self).pids == old(self).pids,
            marks_view(final(self).launching@) == marks_view(old(self).launching@).push(
                (dir@, None::<u32>),
            ),
            final(self).launches(dir@),
    {
        let ghost before = self.launching@;
        self.launching.push(LaunchMark { dir, polls: None });
        proof {
            let now = marks_view(self.launching@);
            assert(now =~= marks_view(before).push((dir@, None::<u32>)));
            assert(now[before.len() as int].0 == dir@);
        }
    }

    /// Notes that the launch of the machine in `dir` has succeeded: the machine is waited
    /// for during some further polls.
    pub fn launch_succeeded(&mut self, dir: &[u8])
        ensures
            final(self).pids == old(self).pids,
            marks_view(final(self).launching@) == waiting(marks_view(old(self).launching@), dir@),
    {
        let ghost all = marks_view(self.launching@);
        let total: usize = self.launching.len();
        let mut i: usize = 0;
        while i < total
            invariant
                i <= total,
                total == self.launching@.len(),
                total == all.len(),
                self.pids == old(self).pids,
                all == marks_view(old(self).launching@),
                forall|j: int|
                    0 <= j < i ==> mark_view(#[trigger] self.launching@[j]) == waiting(
                        all,
                        dir@,
                    )[j],
                forall|j: int|
                    i <= j < total ==> mark_view(#[trigger] self.launching@[j]) == all[j],
            decreases total - i,
        {
            proof {
                assert(mark_view(self.launching@[i as int]) == all[i as int]);
            }
            if same_bytes(&self.launching[i].dir, dir) {
                self.launching[i].polls = Some(LAUNCH_POLLS);
            }
            i = i + 1;
        }
        proof {
            assert(marks_view(self.launching@) =~= waiting(all, dir@));
        }
    }

    fn is_launching(&self, dir: &[u8]) -> (res: bool)
        ensures
            res == self.launches(dir@),
    {
        let ghost all = marks_view(self.launching@);
        let mut i: usize = 0;
        while i < self.launching.len()
            invariant
                i <= self.launching@.len(),
                all == marks_view(self.launching@),
                forall|j: int| 0 <= j < i ==> (#[trigger] all[j]).0 != dir@,
            decreases self.launching@.len() - i,
        {
            proof {
                assert(all[i as int].0 == self.launching@[i as int].dir@);
            }
            if same_bytes(&self.launching[i].dir, dir) {
                return true;
            }
            i = i + 1;
        }
        false
    }

    /// Notes that the machine in `dir` is no longer waited for: its launch failed, or it was
    /// seen to run.
    pub fn launch_ended(&mut self, dir: &[u8])
        ensures
            final(self).pids == old(self).pids,
            marks_view(final(self).launching@) == unmarked(marks_view(old(self).launching@), dir@),
            !final(self).launches(dir@),
    {
        let ghost all = marks_view(self.launching@);
        let ghost mut seen: int = 0;
        let mut i: usize = 0;
        proof {
            assert(marks_view(self.launching@).take(0) =~= unmarked(all.take(0), dir@));
            assert(marks_view(self.launching@).skip(0) =~= all.skip(0));
        }
        while i < self.launching.len()
            invariant
                i <= self.launching@.len(),
                0 <= seen <= all.len(),
                all == marks_view(old(self).launching@),
                self.pids == old(self).pids,
                marks_view(self.launching@).take(i as int) == unmarked(all.take(seen), dir@),
                marks_view(self.launching@).skip(i as int) == all.skip(seen),
                seen - i == all.len() - self.launching@.len(),
            decreases self.launching@.len() - i,
        {
            let ghost before = marks_view(self.launching@);
            proof {
                assert(before.skip(i as int)[0] == before[i as int]);
                assert(all.skip(seen)[0] == all[seen]);
                assert(all.take(seen + 1).drop_last() =~= all.take(seen));
                assert(before.skip(i as int).skip(1) =~= before.skip(i + 1));
                assert(all.skip(seen).skip(1) =~= all.skip(seen + 1));
            }
            if same_bytes(&self.launching[i].dir, dir) {
                self.launching.remove(i);
                proof {
                    let now = marks_view(self.launching@);
                    assert(now =~= before.remove(i as int));
                    assert(now.take(i as int) =~= before.take(i as int));
                    assert(now.skip(i as int) =~= before.skip(i + 1));
                }
            } else {
                proof {
                    assert(before.take(i + 1) =~= before.take(i as int).push(before[i as int]));
                }
                i = i + 1;
            }
            proof {
                seen = seen + 1;
            }
        }
        proof {
            let now = marks_view(self.launching@);
            assert(now.take(i as int) =~= now);
            assert(all.take(seen) =~= all);
            lemma_unmarked(all, dir@);
        }
    }

    /// Notes the end of a poll: machines whose launch has succeeded are waited for during
    /// one poll less.
    pub fn poll_ended(&mut self)
        ensures
            final(self).pids == old(self).pids,
            marks_view(final(self).launching@) == polled_marks(marks_view(old(self).launching@)),
    {
        let ghost all = marks_view(self.launching@);
        let ghost mut seen: int = 0;
        let mut i: usize = 0;
        proof {
            assert(marks_view(self.launching@).take(0) =~= polled_marks(all.take(0)));
            assert(marks_view(self.launching@).skip(0) =~= all.skip(0));
        }
        while i < self.launching.len()
            invariant
                i <= self.launching@.len(),
                0 <= seen <= all.len(),
                all == marks_view(old(self).launching@),
                self.pids == old(self).pids,
                marks_view(self.launching@).take(i as int) == polled_marks(all.take(seen)),
                marks_view(self.launching@).skip(i as int) == all.skip(seen),
                seen - i == all.len() - self.launching@.len(),
            decreases self.launching@.len() - i,
        {
            let ghost before = marks_view(self.launching@);
            proof {
                assert(before.skip(i as int)[0] == before[i as int]);
                assert(all.skip(seen)[0] == all[seen]);
                assert(all.take(seen + 1).drop_last() =~= all.take(seen));
                assert(before.skip(i as int).skip(1) =~= before.skip(i + 1));
                assert(all.skip(seen).skip(1) =~= all.skip(seen + 1));
            }
            let polls: Option<u32> = self.launching[i].polls;
            match polls {
                Some(n) => {
                    if n == 0 {
                        self.launching.remove(i);
                        proof {
                            let now = marks_view(self.launching@);
                            assert(now =~= before.remove(i as int));
                            assert(now.take(i as int) =~= before.take(i as int));
                            assert(now.skip(i as int) =~= before.skip(i + 1));
                        }
                    } else {
                        self.launching[i].polls = Some(n - 1);
                        proof {
                            let now = marks_view(self.launching@);
                            assert(now =~= before.update(
                                i as int,
                                (before[i as int].0, Some((n - 1) as u32)),
                            ));
                            assert(now.take(i + 1) =~= before.take(i as int).push(now[i as int]));
                            assert(now.skip(i + 1) =~= before.skip(i + 1));
                        }
                        i = i + 1;
                    }
                },
                None => {
                    proof {
                        assert(before.take(i + 1) =~= before.take(i as int).push(
                            before[i as int],
                        ));
                    }
                    i = i + 1;
                },
            }
            proof {
                seen = seen + 1;
            }
        }
        proof {
            let now = marks_view(self.launching@);
            assert(now.take(i as int) =~= now);
            assert(all.take(seen) =~= all);
        }
    }

    /// Forgets the processes that have ended, so that a number that comes again is a new
    /// process.
    pub fn forget_ended(&mut self, processes: &Vec<QemuProcess>)
        ensures
            final(self).launching == old(self).launching,
            final(self).pids@ == still_running(old(self).pids@, processes@),
    {
        let mut kept: Vec<u32> = Vec::new();
        let mut i: usize = 0;
        proof {
            assert(self.pids@.take(0) =~= Seq::<u32>::empty());
        }
        while i < self.pids.len()
            invariant
                i <= self.pids@.len(),
                *self == *old(self),
                kept@ == still_running(self.pids@.take(i as int), processes@),
            decreases self.pids@.len() - i,
        {
            let pid: u32 = self.pids[i];
            proof {
                assert(self.pids@.take(i + 1).drop_last() =~= self.pids@.take(i as int));
            }
            if has_pid(processes, pid) {
                kept.push(pid);
            }
            i = i + 1;
        }
        proof {
            assert(self.pids@.take(i as int) =~= self.pids@);
        }
        self.pids = kept;
    }

    fn saw(&self, pid: u32) -> (res: bool)
        ensures
            res == self.has_seen(pid),
    {
        let mut i: usize = 0;
        while i < self.pids.len()
            invariant
                i <= self.pids@.len(),
                forall|j: int| 0 <= j < i ==> self.pids@[j] != pid,
            decreases self.pids@.len() - i,
        {
            if self.pids[i] == pid {
                return true;
            }
            i = i + 1;
        }
        false
    }

    /// Looks for the process of the machine in `dir`, and notes it as seen. Gives the
    /// process if a bar is to be shown for it: it was not seen before, and the machine is
    /// not being launched here.
    pub fn detect(&mut self, processes: &Vec<QemuProcess>, dir: &[u8]) -> (res: Option<u32>)
        ensures
            final(self).launching == old(self).launching,
            res == bar_for(
                old(self).pids@,
                pid_in(processes@, dir@),
                old(self).launches(dir@),
            ),
            final(self).pids@ == seen_after(old(self).pids@, pid_in(processes@, dir@)),
    {
        match find_pid(processes, dir) {
            Some(pid) => {
                if self.saw(pid) {
                    None
                } else {
                    let here: bool = self.is_launching(dir);
                    self.pids.push(pid);
                    if here {
                        None
                    } else {
                        Some(pid)
                    }
                }
            },
            None => None,
        }
    }
}

/// The processes that have been seen after a process was detected.
pub open spec fn seen_after(seen: Seq<u32>, found: Option<u32>) -> Seq<u32> {
    match found {
        Some(pid) => if seen.contains(pid) {
            seen
        } else {
            seen.push(pid)
        },
        None => seen,
    }
}

/// The process that gets a bar.
pub open spec fn bar_for(seen: Seq<u32>, found: Option<u32>, launching: bool) -> Option<u32> {
    match found {
        Some(pid) => if seen.contains(pid) || launching {
            None
        } else {
            Some(pid)
        },
        None => None,
    }
}

/// A process gets a bar at most once, and a machine that is launched here gets none: its
/// process is seen from then on.
pub proof fn bar_appears_once(
    seen: Seq<u32>,
    found: Option<u32>,
    launching: bool,
    launching_later: bool,
)
    ensures
        bar_for(seen_after(seen, found), found, launching_later).is_none(),
        launching ==> bar_for(seen, found, launching).is_none(),
{
    if let Some(pid) = found {
        if !seen.contains(pid) {
            assert(seen.push(pid)[seen.len() as int] == pid);
        }
    }
}

/// No mark for the machine is left.
proof fn lemma_unmarked(marks: Seq<(Seq<u8>, Option<u32>)>, dir: Seq<u8>)
    ensures
        !is_marked(unmarked(marks, dir), dir),
    decreases marks.len(),
{
    if marks.len() > 0 {
        let front = unmarked(marks.drop_last(), dir);
        lemma_unmarked(marks.drop_last(), dir);
        let now = unmarked(marks, dir);
        if is_marked(now, dir) {
            let i = choose|i: int| 0 <= i < now.len() && (#[trigger] now[i]).0 == dir;
            if i < front.len() {
                assert(front[i] == now[i]);
            }
        }
    }
}

/// A number is kept exactly if it was seen and a process still has it.
pub proof fn running_numbers_stay_seen(pids: Seq<u32>, processes: Seq<QemuProcess>, pid: u32)
    ensures
        still_running(pids, processes).contains(pid) <==> pids.contains(pid) && runs(
            processes,
            pid,
        ),
    decreases pids.len(),
{
    if pids.len() > 0 {
        let front = pids.drop_last();
        running_numbers_stay_seen(front, processes, pid);
        let done = still_running(front, processes);
        let now = still_running(pids, processes);
        if front.contains(pid) {
            let i = choose|i: int| 0 <= i < front.len() && front[i] == pid;
            assert(pids[i] == pid);
        }
        if pids.contains(pid) {
            let i = choose|i: int| 0 <= i < pids.len() && pids[i] == pid;
            if i < front.len() {
                assert(front[i] == pid);
            } else {
                assert(pids.last() == pid);
            }
        }
        if done.contains(pid) {
            let i = choose|i: int| 0 <= i < done.len() && done[i] == pid;
            assert(now[i] == pid);
        }
        if now.contains(pid) {
            let i = choose|i: int| 0 <= i < now.len() && now[i] == pid;
            if i < done.len() {
                assert(done[i] == pid);
            }
        }
        if runs(processes, pids.last()) {
            assert(now[done.len() as int] == pids.last());
        }
        assert(pids[pids.len() - 1] == pids.last());
    }
}

/// A process whose number was used before by one that has ended gets its bar: the number was
/// forgotten when no process had it.
pub proof fn reused_number_gets_a_bar(pids: Seq<u32>, between: Seq<QemuProcess>, pid: u32)
    requires
        !runs(between, pid),
    ensures
        bar_for(still_running(pids, between), Some(pid), false) == Some(pid),
{
    running_numbers_stay_seen(pids, between, pid);
}

/// A process that runs on gets no second bar, though others are forgotten.
pub proof fn running_process_gets_no_second_bar(
    pids: Seq<u32>,
    processes: Seq<QemuProcess>,
    pid: u32,
    launching: bool,
)
    requires
        pids.contains(pid),
        runs(processes, pid),
    ensures
        bar_for(still_running(pids, processes), Some(pid), launching).is_none(),
{
    running_numbers_stay_seen(pids, processes, pid);
}

/// The marks after `n` polls.
pub open spec fn marks_after(marks: Seq<(Seq<u8>, Option<u32>)>, n: nat) -> Seq<
    (Seq<u8>, Option<u32>),
>
    decreases n,
{
    if n == 0 {
        marks
    } else {
        polled_marks(marks_after(marks, (n - 1) as nat))
    }
}

/// Every mark waits for at most `n` polls.
pub open spec fn waits_at_most(marks: Seq<(Seq<u8>, Option<u32>)>, n: int) -> bool {
    forall|i: int|
        0 <= i < marks.len() ==> (#[trigger] marks[i]).1.is_some() && marks[i].1.unwrap() <= n
}

/// A poll takes one off what the marks wait for.
proof fn lemma_poll_waits(marks: Seq<(Seq<u8>, Option<u32>)>, n: int)
    requires
        waits_at_most(marks, n),
    ensures
        waits_at_most(polled_marks(marks), n - 1),
    decreases marks.len(),
{
    if marks.len() > 0 {
        let front = marks.drop_last();
        assert forall|i: int| 0 <= i < front.len() implies (#[trigger] front[i]).1.is_some()
            && front[i].1.unwrap() <= n by {
            assert(front[i] == marks[i]);
        }
        lemma_poll_waits(front, n);
        let done = polled_marks(front);
        let now = polled_marks(marks);
        assert(marks[marks.len() - 1].1.is_some());
        assert forall|i: int| 0 <= i < now.len() implies (#[trigger] now[i]).1.is_some()
            && now[i].1.unwrap() <= n - 1 by {
            if i < done.len() {
                assert(now[i] == done[i]);
            }
        }
    }
}

/// A launch that succeeded holds back a bar for no more than the polls that wait for it:
/// after one poll more, no mark is left.
pub proof fn marks_run_out(marks: Seq<(Seq<u8>, Option<u32>)>, n: nat)
    requires
        waits_at_most(marks, n as int),
    ensures
        marks_after(marks, n + 1).len() == 0,
{
    lemma_marks_run(marks, n, n + 1);
    let left = marks_after(marks, n + 1);
    if left.len() > 0 {
        assert(left[0].1.unwrap() <= -1);
    }
}

proof fn lemma_marks_run(marks: Seq<(Seq<u8>, Option<u32>)>, n: nat, k: nat)
    requires
        waits_at_most(marks, n as int),
    ensures
        waits_at_most(marks_after(marks, k), n - k),
    decreases k,
{
    if k > 0 {
        lemma_marks_run(marks, n, (k - 1) as nat);
        lemma_poll_waits(marks_after(marks, (k - 1) as nat), n - k + 1);
    }
}

} // verus!
