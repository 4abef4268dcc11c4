//! The main window: the list of machines, the one that is selected, and what can be done
//! with it.
use crate::display_dialog::{apply_display, script_settings, spice_socket, with_display};
use crate::display_laws::{any_display_line, plain_backend, written_settings_read_back};
use crate::numbers::{decimal, decimal_text};
use crate::process::{find_pid, pid_in, QemuProcess};
use crate::task::{failure_notice, notice_view, passing, Notice};
use crate::text::{
    beside, contains, has_part, is_blank, is_space, lines, lowercase, lowered, lowered_matches,
    occurs_at, same_text, texts, trim, trimmed, wrap,
};
use vstd::prelude::*;
use vstd::string::StringExecFns;

verus! {

/// A machine of the library, as the window shows it.
#[derive(Debug)]
pub struct Machine {
    /// The name that is shown.
    pub name: String,
    pub id: String,
    /// The bytes of the machine's directory, in normal form.
    pub path: Vec<u8>,
    /// The machine's directory as it is shown.
    pub path_text: String,
    pub cpu_cores: u32,
    pub memory_mb: u32,
    pub enable_kvm: bool,
    /// The paths of the disks as they are shown.
    pub disks: Vec<String>,
    pub notes: Option<String>,
}

/// The machines, the process of each that runs, whether it is paused, and the machine
/// that is selected.
#[derive(Debug)]
pub struct Machines {
    pub vms: Vec<Machine>,
    pub pids: Vec<Option<u32>>,
    pub paused: Vec<bool>,
    pub selected: Option<usize>,
}

/// Which buttons can be pressed, and the labels of those whose label changes.
#[derive(Clone, Copy, Debug, PartialEq, Eq, Structural)]
pub struct Buttons {
    pub launch: bool,
    /// The launch button says that the machine runs.
    pub launch_running: bool,
    pub stop: bool,
    pub pause: bool,
    /// The pause button offers to resume.
    pub pause_resumes: bool,
    pub force_stop: bool,
    pub snapshots: bool,
    /// The buttons that need only a selected machine.
    pub others: bool,
}

/// The buttons when no machine is selected.
pub open spec fn no_buttons() -> Buttons {
    Buttons {
        launch: false,
        launch_running: false,
        stop: false,
        pause: false,
        pause_resumes: false,
        force_stop: false,
        snapshots: false,
        others: false,
    }
}

/// The buttons for a machine that runs or not, is paused or not, and has a disk or not.
pub open spec fn machine_buttons(running: bool, paused: bool, disk: bool) -> Buttons {
    Buttons {
        launch: !running,
        launch_running: running,
        stop: running,
        pause: running,
        pause_resumes: paused,
        force_stop: running,
        snapshots: disk,
        others: true,
    }
}

/// The line below a machine's name.
pub open spec fn subtitle(id: Seq<char>, pid: Option<u32>) -> Seq<char> {
    match pid {
        Some(p) => "Running  ·  PID "@ + decimal(p as int),
        None => id,
    }
}

/// A row whose subtitle changes.
#[derive(Debug)]
pub struct RowChange {
    pub row: usize,
    pub subtitle: String,
}

/// The processes of the first `n` machines.
pub open spec fn pids_found(
    vms: Seq<Machine>,
    processes: Seq<QemuProcess>,
    n: int,
) -> Seq<Option<u32>> {
    Seq::new(n as nat, |i: int| pid_in(processes, vms[i].path@))
}

/// The rows among the first `n` whose process is another than before, with their new
/// subtitles.
pub open spec fn row_changes(
    vms: Seq<Machine>,
    before: Seq<Option<u32>>,
    processes: Seq<QemuProcess>,
    n: int,
) -> Seq<(int, Seq<char>)>
    decreases n,
{
    if n <= 0 {
        Seq::empty()
    } else {
        let done = row_changes(vms, before, processes, n - 1);
        let now = pid_in(processes, vms[n - 1].path@);
        if now != before[n - 1] {
            done.push((n - 1, subtitle(vms[n - 1].id@, now)))
        } else {
            done
        }
    }
}

/// The rows and subtitles of changes.
pub open spec fn changes_view(changes: Seq<RowChange>) -> Seq<(int, Seq<char>)> {
    Seq::new(changes.len(), |i: int| (changes[i].row as int, changes[i].subtitle@))
}

/// The line below a machine's name.
pub fn subtitle_text(id: &str, pid: Option<u32>) -> (res: String)
    ensures
        res@ == subtitle(id@, pid),
{
    match pid {
        Some(p) => beside("Running  ·  PID ", decimal_text(p as u64).as_str()),
        None => id.to_string(),
    }
}

/// A row of the list: the name of a machine, and the line below it.
#[derive(Debug)]
pub struct ListRow {
    pub title: String,
    pub subtitle: String,
}

/// The titles and subtitles of rows.
pub open spec fn rows_view(rows: Seq<ListRow>) -> Seq<(Seq<char>, Seq<char>)> {
    Seq::new(rows.len(), |i: int| (rows[i].title@, rows[i].subtitle@))
}

/// What is shown in place of rows: a text if there are none, and nothing if there are any.
pub fn placeholder(rows: usize) -> (res: Option<&'static str>)
    ensures
        res.is_some() == (rows == 0),
        res matches Some(text) ==> text@ == "No VMs found.\nConfigure vm-curator first."@,
{
    if rows == 0 {
        Some("No VMs found.\nConfigure vm-curator first.")
    } else {
        None
    }
}

impl Machines {
    /// For each machine there is a process entry and a pause entry, only a machine that
    /// runs is paused, and the machine that is selected is one of them.
    pub open spec fn wf(self) -> bool {
        &&& self.pids@.len() == self.vms@.len()
        &&& self.paused@.len() == self.vms@.len()
        &&& forall|i: int| 0 <= i < self.vms@.len() && #[trigger] self.paused@[i]
            ==> self.pids@[i].is_some()
        &&& self.selected.is_some() ==> self.selected.unwrap() < self.vms@.len()
    }

    /// The buttons as the state asks for them.
    pub open spec fn buttons_view(self) -> Buttons {
        match self.selected {
            Some(i) => machine_buttons(
                self.pids@[i as int].is_some(),
                self.paused@[i as int],
                self.vms@[i as int].disks@.len() > 0,
            ),
            None => no_buttons(),
        }
    }

    /// The list of the machines that were found: none selected, and none known to run.
    pub fn new(vms: Vec<Machine>) -> (res: Machines)
        ensures
            res.wf(),
            res.vms@ == vms@,
            res.selected.is_none(),
            forall|i: int| 0 <= i < vms@.len() ==> (#[trigger] res.pids@[i]).is_none(),
            forall|i: int| 0 <= i < vms@.len() ==> !#[trigger] res.paused@[i],
    {
        let count: usize = vms.len();
        let mut pids: Vec<Option<u32>> = Vec::new();
        let mut paused: Vec<bool> = Vec::new();
        let mut i: usize = 0;
        while i < count
            invariant
                i <= count,
                pids@.len() == i,
                paused@.len() == i,
                forall|j: int| 0 <= j < i ==> (#[trigger] pids@[j]).is_none(),
                forall|j: int| 0 <= j < i ==> !#[trigger] paused@[j],
            decreases count - i,
        {
            pids.push(None);
            paused.push(false);
            i = i + 1;
        }
        Machines { vms, pids, paused, selected: None }
    }

    /// The list after the library was searched: the machines that were found, or none if it
    /// could not be searched.
    pub fn discovered(found: Option<Vec<Machine>>) -> (res: Machines)
        ensures
            res.wf(),
            res.vms@ == (match found {
                Some(vms) => vms@,
                None => Seq::empty(),
            }),
            res.selected.is_none(),
            forall|i: int| 0 <= i < res.vms@.len() ==> (#[trigger] res.pids@[i]).is_none(),
            forall|i: int| 0 <= i < res.vms@.len() ==> !#[trigger] res.paused@[i],
    {
        match found {
            Some(vms) => Machines::new(vms),
            None => Machines::new(Vec::new()),
        }
    }

    /// The rows of the list: one for each machine, in order, with its name and its id, or its
    /// process if it runs.
    pub fn rows(&self) -> (res: Vec<ListRow>)
        requires
            self.wf(),
        ensures
            rows_view(res@) == Seq::new(
                self.vms@.len(),
                |i: int| (self.vms@[i].name@, subtitle(self.vms@[i].id@, self.pids@[i])),
            ),
    {
        let mut out: Vec<ListRow> = Vec::new();
        let total: usize = self.vms.len();
        let ghost all = Seq::new(
            self.vms@.len(),
            |i: int| (self.vms@[i].name@, subtitle(self.vms@[i].id@, self.pids@[i])),
        );
        let mut i: usize = 0;
        while i < total
            invariant
                i <= total,
                total == self.vms@.len(),
                self.wf(),
                all == Seq::new(
                    self.vms@.len(),
                    |i: int| (self.vms@[i].name@, subtitle(self.vms@[i].id@, self.pids@[i])),
                ),
                rows_view(out@) == all.take(i as int),
            decreases total - i,
        {
            let ghost before = rows_view(out@);
            let title: String = self.vms[i].name.as_str().to_string();
            let below: String = subtitle_text(self.vms[i].id.as_str(), self.pids[i]);
            out.push(ListRow { title, subtitle: below });
            proof {
                assert(rows_view(out@) =~= before.push(all[i as int]));
                assert(all.take(i + 1) =~= all.take(i as int).push(all[i as int]));
            }
            i = i + 1;
        }
        proof {
            assert(all.take(i as int) =~= all);
        }
        out
    }

    /// Selects the machine of a row, or none. A row that holds no machine changes nothing.
    /// Says whether the selection was taken.
    pub fn select(&mut self, row: Option<usize>) -> (res: bool)
        requires
            old(self).wf(),
        ensures
            final(self).wf(),
            res == (row.is_none() || row.unwrap() < old(self).vms@.len()),
            final(self).selected == (if res {
                row
            } else {
                old(self).selected
            }),
            final(self).vms == old(self).vms,
            final(self).pids == old(self).pids,
            final(self).paused == old(self).paused,
    {
        match row {
            Some(i) => {
                if i < self.vms.len() {
                    self.selected = Some(i);
                    true
                } else {
                    false
                }
            },
            None => {
                self.selected = None;
                true
            },
        }
    }

    /// The buttons as they are to be.
    pub fn buttons(&self) -> (res: Buttons)
        requires
            self.wf(),
        ensures
            res == self.buttons_view(),
    {
        match self.selected {
            Some(i) => {
                let running: bool = self.pids[i].is_some();
                Buttons {
                    launch: !running,
                    launch_running: running,
                    stop: running,
                    pause: running,
                    pause_resumes: self.paused[i],
                    force_stop: running,
                    snapshots: self.vms[i].disks.len() > 0,
                    others: true,
                }
            },
            None => Buttons {
                launch: false,
                launch_running: false,
                stop: false,
                pause: false,
                pause_resumes: false,
                force_stop: false,
                snapshots: false,
                others: false,
            },
        }
    }

    /// The process of the selected machine, if it runs: the one that Stop and Force Stop
    /// act on.
    pub fn stop_target(&self) -> (res: Option<u32>)
        requires
            self.wf(),
        ensures
            res == (match self.selected {
                Some(i) => self.pids@[i as int],
                None => None,
            }),
    {
        match self.selected {
            Some(i) => self.pids[i],
            None => None,
        }
    }

    /// The selected machine, and whether it is to be resumed rather than paused.
    pub fn pause_target(&self) -> (res: Option<(usize, bool)>)
        requires
            self.wf(),
        ensures
            res == (match self.selected {
                Some(i) => Some((i, self.paused@[i as int])),
                None => None,
            }),
    {
        match self.selected {
            Some(i) => Some((i, self.paused[i])),
            None => None,
        }
    }

    /// Gives a machine other notes. A machine that is no longer listed is passed over.
    pub fn set_notes(&mut self, index: usize, notes: Option<String>)
        requires
            old(self).wf(),
        ensures
            final(self).wf(),
            final(self).pids == old(self).pids,
            final(self).paused == old(self).paused,
            final(self).selected == old(self).selected,
            index >= old(self).vms@.len() ==> final(self).vms@ == old(self).vms@,
            index < old(self).vms@.len() ==> final(self).vms@ == old(self).vms@.update(
                index as int,
                (Machine { notes, ..old(self).vms@[index as int] }),
            ),
    {
        if index < self.vms.len() {
            self.vms[index].notes = notes;
        }
    }

    /// Takes the processes that run: each machine gets the first process that runs in its
    /// directory. Gives the rows whose process is another than before, and says whether
    /// that of the selected machine is. A machine that does not run is not paused.
    pub fn poll(&mut self, processes: &Vec<QemuProcess>) -> (res: (Vec<RowChange>, bool))
        requires
            old(self).wf(),
        ensures
            final(self).wf(),
            final(self).vms == old(self).vms,
            final(self).selected == old(self).selected,
            final(self).pids@ == pids_found(
                old(self).vms@,
                processes@,
                old(self).vms@.len() as int,
            ),
            forall|i: int| 0 <= i < old(self).vms@.len() ==> #[trigger] final(self).paused@[i] == (
            old(self).paused@[i] && final(self).pids@[i].is_some()),
            changes_view(res.0@) == row_changes(
                old(self).vms@,
                old(self).pids@,
                processes@,
                old(self).vms@.len() as int,
            ),
            res.1 == (match old(self).selected {
                Some(i) => final(self).pids@[i as int] != old(self).pids@[i as int],
                None => false,
            }),
    {
        let total: usize = self.vms.len();
        let mut changes: Vec<RowChange> = Vec::new();
        let mut selected_changed: bool = false;
        let mut i: usize = 0;
        let ghost before = self.pids@;
        let ghost was_paused = self.paused@;
        let ghost vms = self.vms@;
        while i < total
            invariant
                i <= total,
                total == vms.len(),
                vms == self.vms@,
                self.vms == old(self).vms,
                self.selected == old(self).selected,
                old(self).wf(),
                before == old(self).pids@,
                was_paused == old(self).paused@,
                self.pids@.len() == total,
                self.paused@.len() == total,
                forall|j: int| 0 <= j < i ==> #[trigger] self.pids@[j] == pid_in(
                    processes@,
                    vms[j].path@,
                ),
                forall|j: int| i <= j < total ==> #[trigger] self.pids@[j] == before[j],
                forall|j: int| 0 <= j < i ==> #[trigger] self.paused@[j] == (was_paused[j]
                    && self.pids@[j].is_some()),
                forall|j: int| i <= j < total ==> #[trigger] self.paused@[j] == was_paused[j],
                changes_view(changes@) == row_changes(vms, before, processes@, i as int),
                selected_changed == (match self.selected {
                    Some(k) => k < i && self.pids@[k as int] != before[k as int],
                    None => false,
                }),
            decreases total - i,
        {
            let now: Option<u32> = find_pid(processes, &self.vms[i].path);
            let same: bool = match (now, self.pids[i]) {
                (Some(a), Some(b)) => a == b,
                (None, None) => true,
                _ => false,
            };
            let ghost shown = changes@;
            if !same {
                let text: String = subtitle_text(self.vms[i].id.as_str(), now);
                changes.push(RowChange { row: i, subtitle: text });
                if let Some(k) = self.selected {
                    if k == i {
                        selected_changed = true;
                    }
                }
                self.pids.set(i, now);
            }
            if now.is_none() {
                self.paused.set(i, false);
            }
            proof {
                if !same {
                    assert(changes_view(changes@) =~= changes_view(shown).push(
                        (i as int, subtitle(vms[i as int].id@, now)),
                    ));
                }
            }
            i = i + 1;
        }
        proof {
            assert(self.pids@ =~= pids_found(vms, processes@, total as int));
        }
        (changes, selected_changed)
    }

    /// Notes whether a machine is paused. One that does not run never is.
    pub fn set_paused(&mut self, index: usize, paused: bool)
        requires
            old(self).wf(),
            index < old(self).vms@.len(),
        ensures
            final(self).wf(),
            final(self).vms == old(self).vms,
            final(self).pids == old(self).pids,
            final(self).selected == old(self).selected,
            final(self).paused@ == old(self).paused@.update(
                index as int,
                paused && old(self).pids@[index as int].is_some(),
            ),
    {
        let value: bool = paused && self.pids[index].is_some();
        self.paused.set(index, value);
    }
}

/// What a yes-or-no value is shown as.
pub open spec fn truth(b: bool) -> Seq<char> {
    if b {
        "true"@
    } else {
        "false"@
    }
}

/// The lines that name the first `n` disks.
pub open spec fn disk_lines(disks: Seq<Seq<char>>, n: int) -> Seq<char>
    decreases n,
{
    if n <= 0 {
        Seq::empty()
    } else {
        disk_lines(disks, n - 1) + "\nDisk: "@ + disks[n - 1]
    }
}

/// The details of a machine: its name, what it is given of the processor and the memory,
/// whether it uses KVM, its directory, and its disks.
pub open spec fn detail_view(vm: Machine) -> Seq<char> {
    "<b>"@ + vm.name@ + "</b>\n\nCores: "@ + decimal(vm.cpu_cores as int) + "   RAM: "@ + decimal(
        vm.memory_mb as int,
    ) + " MB   KVM: "@ + truth(vm.enable_kvm) + "\nPath: "@ + vm.path_text@ + disk_lines(
        texts(vm.disks@),
        vm.disks@.len() as int,
    )
}

/// The details of a machine, as markup.
pub fn detail_text(vm: &Machine) -> (res: String)
    ensures
        res@ == detail_view(*vm),
{
    let mut out: String = "<b>".to_string();
    out.append(vm.name.as_str());
    out.append("</b>\n\nCores: ");
    out.append(decimal_text(vm.cpu_cores as u64).as_str());
    out.append("   RAM: ");
    out.append(decimal_text(vm.memory_mb as u64).as_str());
    out.append(" MB   KVM: ");
    out.append(if vm.enable_kvm { "true" } else { "false" });
    out.append("\nPath: ");
    out.append(vm.path_text.as_str());
    let ghost head = out@;
    let total: usize = vm.disks.len();
    let mut i: usize = 0;
    proof {
        assert(head =~= head + disk_lines(texts(vm.disks@), 0));
    }
    while i < total
        invariant
            i <= total,
            total == vm.disks@.len(),
            out@ == head + disk_lines(texts(vm.disks@), i as int),
        decreases total - i,
    {
        proof {
            assert(texts(vm.disks@)[i as int] == vm.disks@[i as int]@);
        }
        let ghost before = disk_lines(texts(vm.disks@), i as int);
        out.append("\nDisk: ");
        out.append(vm.disks[i].as_str());
        proof {
            assert(out@ =~= head + (before + "\nDisk: "@ + vm.disks@[i as int]@));
        }
        i = i + 1;
    }
    out
}

/// Notes as they are shown; `escaped` are the notes with the characters of markup escaped.
pub fn notes_markup(escaped: &str) -> (res: String)
    ensures
        res@ == "<i>"@ + escaped@ + "</i>"@,
{
    wrap("<i>", escaped, "</i>")
}

/// What the launch button says of a machine that runs or not.
pub fn launch_label(running: bool) -> (res: &'static str)
    ensures
        res@ == (if running {
            "Running"@
        } else {
            "Launch VM"@
        }),
{
    if running {
        "Running"
    } else {
        "Launch VM"
    }
}

/// Whether a launch script serves SPICE; one that cannot be read does not.
pub fn serves_spice(script: Option<&str>) -> (res: bool)
    ensures
        res == (script.is_some() && has_part(script.unwrap()@, "spice.sock"@)),
{
    match script {
        Some(text) => contains(text, "spice.sock"),
        None => false,
    }
}

/// The script by which a machine is launched so that its display opens in a window of this
/// program, whatever it is booted from: its own script, with the display on the session bus.
/// There is none for a machine that serves SPICE, whose viewer is another program, nor where
/// the script cannot be read.
pub fn embedded_script(script: Option<&str>) -> (res: Option<String>)
    ensures
        res.is_some() <==> script.is_some() && !has_part(script.unwrap()@, "spice.sock"@),
        res matches Some(text) ==> text@ == with_display(script.unwrap()@, "dbus"@, false, false),
{
    match script {
        Some(text) => if contains(text, "spice.sock") {
            None
        } else {
            Some(apply_display(text, "dbus", false, false))
        },
        None => None,
    }
}

/// A script that names a display on a line of its own, and does not serve SPICE, is launched
/// with its display on the session bus.
pub proof fn embedded_script_names_the_bus(script: Seq<char>)
    requires
        !has_part(script, "spice.sock"@),
        any_display_line(lines(script)),
    ensures
        script_settings(with_display(script, "dbus"@, false, false)) == ("dbus"@, false, false),
{
    let short = "spice.sock"@;
    let sp = spice_socket();
    reveal_strlit("dbus");
    reveal_strlit("spice");
    reveal_strlit("spice.sock");
    reveal_strlit("-spice unix,addr=$VM_DIR/spice.sock");
    assert("dbus"@.len() == 4 && "spice"@.len() == 5);
    let b = "dbus"@;
    assert(b.len() == 4 && b[0] == 'd' && b[1] == 'b' && b[2] == 'u' && b[3] == 's');
    assert(plain_backend(b)) by {
        assert forall|i: int| 0 <= i < b.len() implies {
            let c = #[trigger] b[i];
            &&& !is_space(c)
            &&& c != '\\'
            &&& c != ','
            &&& c != '='
            &&& c == '-' ==> i + 1 < b.len() && b[i + 1] != 'd' && b[i + 1] != 's'
        } by {
            assert(i == 0 || i == 1 || i == 2 || i == 3);
        }
    }
    if has_part(script, sp) {
        let i = choose|i: int| occurs_at(script, sp, i);
        assert(sp.subrange(25, 35) =~= short);
        assert(script.subrange(i + 25, i + 35) =~= script.subrange(i, i + 35).subrange(25, 35));
        assert(occurs_at(script, short, i + 25));
    }
    written_settings_read_back(script, b, false, false);
}

/// The address under which a viewer reaches a SPICE socket.
pub fn spice_address(socket: &str) -> (res: String)
    ensures
        res@ == "spice+unix://"@ + socket@,
{
    beside("spice+unix://", socket)
}

/// How a launch stands.
#[derive(Debug)]
pub enum Launch {
    /// The machine was started, or was not, for a reason if one is known.
    Finished { name: String, success: bool, error: Option<String> },
    Pending,
    /// The launch ended without saying how.
    Lost,
}

/// What to do about a launch.
#[derive(Debug)]
pub struct LaunchStep {
    /// Ask again later.
    pub again: bool,
    /// The machine was started.
    pub started: bool,
    /// Let the launch button offer a launch again.
    pub restore: bool,
    /// Open the viewer for the SPICE socket.
    pub viewer: bool,
    /// Open the window that shows the machine.
    pub display: bool,
    pub notice: Option<Notice>,
}

/// What is told of a launch that has finished.
pub open spec fn launch_notice(
    name: Seq<char>,
    success: bool,
    error: Option<Seq<char>>,
    spice: bool,
) -> (Seq<char>, bool) {
    if !success {
        (
            "Failed to launch "@ + name + ": "@ + match error {
                Some(e) => e,
                None => "unknown error"@,
            },
            true,
        )
    } else if spice {
        (name + " launched — opening SPICE viewer…"@, false)
    } else {
        (name + " launched"@, false)
    }
}

/// What to do about a launch of a machine that serves SPICE or not, and is shown in
/// a window of its own or not.
pub fn after_launch(launch: Launch, spice: bool, embedded: bool) -> (res: LaunchStep)
    ensures
        res.again <==> launch is Pending,
        res.started <==> launch is Finished && launch->success,
        res.restore <==> launch is Lost || (launch is Finished && !launch->success),
        res.viewer <==> launch is Finished && launch->success && spice,
        res.display <==> launch is Finished && launch->success && !spice && embedded,
        notice_view(res.notice) == (match launch {
            Launch::Finished { name, success, error } => Some(
                launch_notice(
                    name@,
                    success,
                    match error {
                        Some(e) => Some(e@),
                        None => None,
                    },
                    spice,
                ),
            ),
            _ => None,
        }),
{
    match launch {
        Launch::Finished { name, success, error } => {
            if success {
                let notice = if spice {
                    passing(beside(name.as_str(), " launched — opening SPICE viewer…").as_str())
                } else {
                    passing(beside(name.as_str(), " launched").as_str())
                };
                LaunchStep {
                    again: false,
                    started: true,
                    restore: false,
                    viewer: spice,
                    display: !spice && embedded,
                    notice: Some(notice),
                }
            } else {
                let head: String = wrap("Failed to launch ", name.as_str(), ": ");
                let notice = match error {
                    Some(e) => failure_notice(head.as_str(), e.as_str()),
                    None => failure_notice(head.as_str(), "unknown error"),
                };
                LaunchStep {
                    again: false,
                    started: false,
                    restore: true,
                    viewer: false,
                    display: false,
                    notice: Some(notice),
                }
            }
        },
        Launch::Pending => LaunchStep {
            again: true,
            started: false,
            restore: false,
            viewer: false,
            display: false,
            notice: None,
        },
        Launch::Lost => LaunchStep {
            again: false,
            started: false,
            restore: true,
            viewer: false,
            display: false,
            notice: None,
        },
    }
}

/// Whether a machine is to be deleted for good, by the answer to the question; none if it
/// is not to be deleted at all.
pub fn delete_choice(response: &str) -> (res: Option<bool>)
    ensures
        res == (if response@ == "archive"@ {
            Some(false)
        } else if response@ == "delete"@ {
            Some(true)
        } else {
            None
        }),
{
    if same_text(response, "archive") {
        Some(false)
    } else if same_text(response, "delete") {
        Some(true)
    } else {
        None
    }
}

/// The name that a machine gets, by the answer to the question and the text entered: none
/// if it keeps its name.
pub fn new_name(response: &str, entered: &str) -> (res: Option<String>)
    ensures
        res.is_some() <==> response@ == "rename"@ && trim(entered@).len() > 0,
        res.is_some() ==> res.unwrap()@ == trim(entered@),
{
    if !same_text(response, "rename") || is_blank(entered) {
        None
    } else {
        Some(trimmed(entered))
    }
}

/// The question before a machine is deleted.
pub fn delete_question(vm_name: &str) -> (res: String)
    ensures
        res@ == "What do you want to do with \""@ + vm_name@ + "\"?"@,
{
    wrap("What do you want to do with \"", vm_name, "\"?")
}

/// The question before a machine is reset.
pub fn reset_question(vm_name: &str) -> (res: String)
    ensures
        res@ == "Reset \""@ + vm_name@ + "\" to its initial disk state? This cannot be undone."@,
{
    wrap("Reset \"", vm_name, "\" to its initial disk state? This cannot be undone.")
}

/// Whether a row stays when the list is searched. An empty search, and a row without
/// a title, always do; else the title has to hold what is searched for, in lower case.
pub fn row_matches(query: &str, title: Option<&str>) -> (res: bool)
    ensures
        res == (trim(query@).len() == 0 || title.is_none() || has_part(
            lowercase(title.unwrap()@),
            lowercase(trim(query@)),
        )),
{
    if is_blank(query) {
        return true;
    }
    match title {
        Some(text) => {
            let wanted: String = lowered(trimmed(query).as_str());
            lowered_matches(lowered(text).as_str(), wanted.as_str())
        },
        None => true,
    }
}

/// The place of a button in a grid of two columns.
#[derive(Clone, Copy, Debug, PartialEq, Eq, Structural)]
pub struct Cell {
    pub column: i32,
    pub row: i32,
    pub span: i32,
}

/// The places of `count` buttons in row `row`: a button that stands alone spans both
/// columns.
pub open spec fn row_cells(row: int, count: int) -> Seq<Cell> {
    Seq::new(
        count as nat,
        |c: int|
            Cell {
                column: c as i32,
                row: row as i32,
                span: if count == 1 {
                    2
                } else {
                    1
                },
            },
    )
}

/// The places of the buttons of all rows, in order.
pub open spec fn grid_view(counts: Seq<usize>) -> Seq<Cell>
    decreases counts.len(),
{
    if counts.len() == 0 {
        Seq::empty()
    } else {
        grid_view(counts.drop_last()) + row_cells(counts.len() - 1, counts.last() as int)
    }
}

/// The places of buttons, given how many stand in each row.
pub fn btn_section(counts: &[usize]) -> (res: Vec<Cell>)
    requires
        counts@.len() <= i32::MAX,
        forall|i: int| 0 <= i < counts@.len() ==> #[trigger] counts@[i] <= i32::MAX,
    ensures
        res@ == grid_view(counts@),
{
    let mut out: Vec<Cell> = Vec::new();
    let mut r: usize = 0;
    proof {
        assert(counts@.take(0) =~= Seq::<usize>::empty());
    }
    while r < counts.len()
        invariant
            r <= counts@.len() <= i32::MAX,
            forall|i: int| 0 <= i < counts@.len() ==> #[trigger] counts@[i] <= i32::MAX,
            out@ == grid_view(counts@.take(r as int)),
        decreases counts@.len() - r,
    {
        let count: usize = counts[r];
        let span: i32 = if count == 1 {
            2
        } else {
            1
        };
        let ghost before = out@;
        let mut c: usize = 0;
        proof {
            assert(before + row_cells(r as int, count as int).take(0) =~= before);
        }
        while c < count
            invariant
                c <= count <= i32::MAX,
                r < counts@.len() <= i32::MAX,
                span == (if count == 1 {
                    2i32
                } else {
                    1i32
                }),
                out@ == before + row_cells(r as int, count as int).take(c as int),
            decreases count - c,
        {
            let ghost cells = row_cells(r as int, count as int);
            out.push(Cell { column: c as i32, row: r as i32, span });
            proof {
                assert(cells.take(c + 1) =~= cells.take(c as int).push(cells[c as int]));
                assert(out@ =~= before + cells.take(c + 1));
            }
            c = c + 1;
        }
        proof {
            let cells = row_cells(r as int, count as int);
            assert(cells.take(count as int) =~= cells);
            assert(counts@.take(r + 1).drop_last() =~= counts@.take(r as int));
        }
        r = r + 1;
    }
    proof {
        assert(counts@.take(r as int) =~= counts@);
    }
    out
}

/// Subtitles with changes made to them, in order.
pub open spec fn with_changes(
    shown: Seq<Seq<char>>,
    changes: Seq<(int, Seq<char>)>,
) -> Seq<Seq<char>>
    decreases changes.len(),
{
    if changes.len() == 0 {
        shown
    } else {
        with_changes(shown, changes.drop_last()).update(changes.last().0, changes.last().1)
    }
}

/// The changes of the first rows, made to subtitles that were right.
proof fn lemma_changes(
    vms: Seq<Machine>,
    before: Seq<Option<u32>>,
    processes: Seq<QemuProcess>,
    shown: Seq<Seq<char>>,
    n: int,
)
    requires
        0 <= n <= vms.len(),
        shown.len() == vms.len(),
        before.len() == vms.len(),
        forall|i: int|
            0 <= i < vms.len() ==> #[trigger] shown[i] == subtitle(vms[i].id@, before[i]),
    ensures
        ({
            let after = with_changes(shown, row_changes(vms, before, processes, n));
            &&& after.len() == vms.len()
            &&& forall|i: int|
                0 <= i < vms.len() ==> #[trigger] after[i] == (if i < n {
                    subtitle(vms[i].id@, pid_in(processes, vms[i].path@))
                } else {
                    shown[i]
                })
        }),
    decreases n,
{
    if n > 0 {
        lemma_changes(vms, before, processes, shown, n - 1);
        let done = row_changes(vms, before, processes, n - 1);
        let now = pid_in(processes, vms[n - 1].path@);
        if now != before[n - 1] {
            let item = (n - 1, subtitle(vms[n - 1].id@, now));
            assert(done.push(item).drop_last() =~= done);
        }
    }
}

/// Subtitles that were right before a poll are right after it: a row whose machine runs
/// shows its process, and any other row the machine's id.
pub proof fn poll_keeps_subtitles_right(
    vms: Seq<Machine>,
    before: Seq<Option<u32>>,
    processes: Seq<QemuProcess>,
    shown: Seq<Seq<char>>,
)
    requires
        shown.len() == vms.len(),
        before.len() == vms.len(),
        forall|i: int|
            0 <= i < vms.len() ==> #[trigger] shown[i] == subtitle(vms[i].id@, before[i]),
    ensures
        ({
            let now = pids_found(vms, processes, vms.len() as int);
            let after = with_changes(shown, row_changes(vms, before, processes, vms.len() as int));
            &&& after.len() == vms.len()
            &&& forall|i: int|
                0 <= i < vms.len() ==> #[trigger] after[i] == subtitle(vms[i].id@, now[i])
        }),
{
    lemma_changes(vms, before, processes, shown, vms.len() as int);
}

/// A poll that finds the same processes as the one before changes no row.
pub proof fn poll_again_changes_nothing(vms: Seq<Machine>, processes: Seq<QemuProcess>, n: int)
    requires
        0 <= n <= vms.len(),
    ensures
        row_changes(
            vms,
            pids_found(vms, processes, vms.len() as int),
            processes,
            n,
        ).len() == 0,
    decreases n,
{
    if n > 0 {
        poll_again_changes_nothing(vms, processes, n - 1);
    }
}

/// A list that was just made has a row for each machine, in order, with its name and its id,
/// and nothing selected.
pub proof fn new_list_shows_names_and_ids(list: Machines, i: int)
    requires
        list.wf(),
        forall|j: int| 0 <= j < list.vms@.len() ==> (#[trigger] list.pids@[j]).is_none(),
        0 <= i < list.vms@.len(),
    ensures
        (list.vms@[i].name@, subtitle(list.vms@[i].id@, list.pids@[i])) == (
            list.vms@[i].name@,
            list.vms@[i].id@,
        ),
{
}

/// A machine that is selected can be launched exactly if it cannot be stopped, and only
/// one that can be stopped can be paused.
pub proof fn launch_and_stop_exclude_each_other(running: bool, paused: bool, disk: bool)
    ensures
        machine_buttons(running, paused, disk).launch != machine_buttons(
            running,
            paused,
            disk,
        ).stop,
        machine_buttons(running, paused, disk).pause == machine_buttons(
            running,
            paused,
            disk,
        ).stop,
{
}

/// What comes of the wish to launch a machine.
#[derive(Clone, Copy, Debug, PartialEq, Eq, Structural)]
pub enum LaunchGate {
    /// The machine is launched.
    Start,
    /// The user is asked first.
    Ask,
    /// The machine is not launched.
    Drop,
}

/// What comes of the wish to launch a machine, where `confirm` is the setting that asks
/// before a launch, and `answer` is the answer to the question, once it was asked.
pub open spec fn gate_view(confirm: bool, answer: Option<Seq<char>>) -> LaunchGate {
    match answer {
        Some(text) => if text == "launch"@ {
            LaunchGate::Start
        } else {
            LaunchGate::Drop
        },
        None => if confirm {
            LaunchGate::Ask
        } else {
            LaunchGate::Start
        },
    }
}

/// What comes of the wish to launch a machine.
pub fn launch_gate(confirm: bool, answer: Option<&str>) -> (res: LaunchGate)
    ensures
        res == gate_view(
            confirm,
            match answer {
                Some(text) => Some(text@),
                None => None,
            },
        ),
{
    match answer {
        Some(text) => if same_text(text, "launch") {
            LaunchGate::Start
        } else {
            LaunchGate::Drop
        },
        None => if confirm {
            LaunchGate::Ask
        } else {
            LaunchGate::Start
        },
    }
}

/// With the setting that asks before a launch, a machine is launched only on the answer that
/// says so; without it, it is launched at once.
pub proof fn launches_are_confirmed(answer: Option<Seq<char>>)
    ensures
        gate_view(true, answer) == LaunchGate::Start <==> answer == Some("launch"@),
        gate_view(true, None) == LaunchGate::Ask,
        gate_view(false, None) == LaunchGate::Start,
{
}

/// The question before a machine is launched.
pub fn launch_question(vm_name: &str) -> (res: String)
    ensures
        res@ == "Launch \""@ + vm_name@ + "\"?"@,
{
    wrap("Launch \"", vm_name, "\"?")
}

/// Whether the answer to the question says to reset the machine.
pub fn reset_confirmed(response: &str) -> (res: bool)
    ensures
        res == (response@ == "reset"@),
{
    same_text(response, "reset")
}

} // verus!
