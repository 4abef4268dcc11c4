//! What the operations of the main window do.
use crate::display_dialog::apply_display;
use crate::numbers::decimal;
use crate::process::{find_pid, pid_in, QemuProcess};
use crate::text::{has_part, lowercase, texts, trim, trimmed};
use crate::text_laws::{all_space, nothing_is_left_of_white_space, part_stands_between};
use crate::window::{
    after_launch, btn_section, changes_view, delete_choice, delete_question, detail_text,
    disk_lines, embedded_script, launch_gate, launch_label, launch_question, new_name, notes_markup,
    placeholder, reset_confirmed, reset_question, row_cells, row_changes, row_matches, rows_view,
    serves_spice, spice_address, subtitle, subtitle_text, Buttons, Cell, Launch, LaunchGate,
    LaunchStep, ListRow, Machine, Machines, RowChange,
};
use vstd::prelude::*;

verus! {

/// For the selected machine, Stop and Force Stop can be pressed, and so can Pause, exactly if
/// a process of it is known, paused or not. The launch button says that the machine runs exactly
/// then, and can be pressed exactly else. The pause button offers to resume exactly if the
/// machine is paused, and snapshots need a disk.
pub proof fn buttons_follow_the_process(list: Machines, i: usize, res: Buttons)
    requires
        list.selected == Some(i),
        i < list.vms@.len(),
        call_ensures(Machines::buttons, (&list,), res),
    ensures
        res.force_stop <==> list.pids@[i as int] is Some,
        res.stop <==> list.pids@[i as int] is Some,
        res.pause <==> list.pids@[i as int] is Some,
        res.launch_running <==> list.pids@[i as int] is Some,
        res.launch <==> list.pids@[i as int] is None,
        res.pause_resumes <==> list.paused@[i as int],
        res.snapshots <==> list.vms@[i as int].disks@.len() > 0,
        res.others,
{
}

/// Without a selected machine no button can be pressed, and none says that a machine runs or
/// can be resumed.
pub proof fn no_selection_has_no_buttons(list: Machines, res: Buttons)
    requires
        list.selected is None,
        call_ensures(Machines::buttons, (&list,), res),
    ensures
        !res.launch && !res.launch_running && !res.stop && !res.pause && !res.pause_resumes
            && !res.force_stop && !res.snapshots && !res.others,
{
}

/// What Stop and Force Stop act on is there exactly if they can be pressed, and a click on the
/// pause button resumes exactly if the button says so.
pub proof fn buttons_have_targets(
    list: Machines,
    res: Buttons,
    stop: Option<u32>,
    pause: Option<(usize, bool)>,
)
    requires
        list.wf(),
        call_ensures(Machines::buttons, (&list,), res),
        call_ensures(Machines::stop_target, (&list,), stop),
        call_ensures(Machines::pause_target, (&list,), pause),
    ensures
        res.stop <==> stop is Some,
        res.force_stop <==> stop is Some,
        pause matches Some(target) ==> Some(target.0) == list.selected && target.1
            == res.pause_resumes,
        pause is None <==> list.selected is None,
{
}

/// The line below a name tells the process of a machine that runs, and else the machine's id.
pub proof fn subtitle_tells_the_process(id: &str, pid: Option<u32>, res: String)
    requires
        call_ensures(subtitle_text, (id, pid), res),
    ensures
        pid matches Some(p) ==> res@ == "Running  ·  PID "@ + decimal(p as int),
        pid is None ==> res@ == id@,
{
}

/// The list has a row for each machine, in order: its name, and below it its process or its id.
pub proof fn rows_show_the_machines(list: Machines, res: Vec<ListRow>, i: int)
    requires
        call_ensures(Machines::rows, (&list,), res),
        0 <= i < list.vms@.len(),
    ensures
        res@.len() == list.vms@.len(),
        res@[i].title@ == list.vms@[i].name@,
        res@[i].subtitle@ == (match list.pids@[i] {
            Some(p) => "Running  ·  PID "@ + decimal(p as int),
            None => list.vms@[i].id@,
        }),
{
    let shown = rows_view(res@);
    assert(shown.len() == list.vms@.len());
    assert(shown[i].0 == res@[i].title@);
    assert(shown[i].1 == res@[i].subtitle@);
}

/// A poll gives each machine the process that is found in its directory, and leaves it paused
/// exactly if it was paused and has a process. Nothing else changes.
pub proof fn poll_takes_the_processes(
    list: &mut Machines,
    processes: &Vec<QemuProcess>,
    res: (Vec<RowChange>, bool),
    i: int,
    path: &[u8],
    found: Option<u32>,
)
    requires
        call_ensures(Machines::poll, (list, processes), res),
        0 <= i < old(list).vms@.len(),
        path@ == old(list).vms@[i].path@,
        call_ensures(find_pid, (processes, path), found),
    ensures
        final(list).pids@.len() == old(list).vms@.len(),
        final(list).pids@[i] == found,
        final(list).paused@[i] == (old(list).paused@[i] && found is Some),
        final(list).vms == old(list).vms,
        final(list).selected == old(list).selected,
{
}

/// The changes of the first `n` rows: those of rows whose process is another, each once, in
/// order.
proof fn lemma_row_changes(
    vms: Seq<Machine>,
    before: Seq<Option<u32>>,
    processes: Seq<QemuProcess>,
    n: int,
)
    requires
        0 <= n,
    ensures
        ({
            let cs = row_changes(vms, before, processes, n);
            &&& forall|k: int|
                0 <= k < cs.len() ==> {
                    let r = (#[trigger] cs[k]).0;
                    &&& 0 <= r < n
                    &&& pid_in(processes, vms[r].path@) != before[r]
                    &&& cs[k].1 == subtitle(vms[r].id@, pid_in(processes, vms[r].path@))
                }
            &&& forall|j: int, k: int|
                0 <= j < k < cs.len() ==> (#[trigger] cs[j]).0 < (#[trigger] cs[k]).0
            &&& forall|r: int|
                0 <= r < n && pid_in(processes, #[trigger] vms[r].path@) != before[r]
                    ==> exists|k: int| 0 <= k < cs.len() && (#[trigger] cs[k]).0 == r
        }),
    decreases n,
{
    if n > 0 {
        lemma_row_changes(vms, before, processes, n - 1);
        let done = row_changes(vms, before, processes, n - 1);
        let cs = row_changes(vms, before, processes, n);
        assert forall|r: int|
            0 <= r < n && pid_in(processes, #[trigger] vms[r].path@) != before[r] implies exists|
            k: int,
        | 0 <= k < cs.len() && (#[trigger] cs[k]).0 == r by {
            if r < n - 1 {
                let k = choose|k: int| 0 <= k < done.len() && (#[trigger] done[k]).0 == r;
                assert(cs[k] == done[k]);
            } else {
                assert(cs[done.len() as int].0 == r);
            }
        }
    }
}

/// A poll tells of exactly the rows whose process is another than before, each once and in the
/// order of the list, with the line that is now right; and it says whether the process of the
/// selected machine is another.
pub proof fn poll_tells_what_changed(
    list: &mut Machines,
    processes: &Vec<QemuProcess>,
    res: (Vec<RowChange>, bool),
)
    requires
        call_ensures(Machines::poll, (list, processes), res),
    ensures
        forall|k: int|
            0 <= k < res.0@.len() ==> {
                let r = (#[trigger] res.0@[k]).row as int;
                &&& r < old(list).vms@.len()
                &&& final(list).pids@[r] != old(list).pids@[r]
                &&& res.0@[k].subtitle@ == (match final(list).pids@[r] {
                    Some(p) => "Running  ·  PID "@ + decimal(p as int),
                    None => old(list).vms@[r].id@,
                })
            },
        forall|j: int, k: int|
            0 <= j < k < res.0@.len() ==> (#[trigger] res.0@[j]).row < (#[trigger] res.0@[k]).row,
        forall|r: int|
            0 <= r < old(list).vms@.len() && #[trigger] final(list).pids@[r] != old(list).pids@[r]
                ==> exists|k: int| 0 <= k < res.0@.len() && (#[trigger] res.0@[k]).row == r,
        old(list).selected matches Some(s) ==> res.1 == (final(list).pids@[s as int] != old(
            list,
        ).pids@[s as int]),
        old(list).selected is None ==> !res.1,
{
    let vms = old(list).vms@;
    let n = vms.len() as int;
    let cs = row_changes(vms, old(list).pids@, processes@, n);
    lemma_row_changes(vms, old(list).pids@, processes@, n);
    assert(cs.len() == res.0@.len());
    assert forall|k: int| 0 <= k < res.0@.len() implies {
        let r = (#[trigger] res.0@[k]).row as int;
        &&& r < old(list).vms@.len()
        &&& final(list).pids@[r] != old(list).pids@[r]
        &&& res.0@[k].subtitle@ == (match final(list).pids@[r] {
            Some(p) => "Running  ·  PID "@ + decimal(p as int),
            None => old(list).vms@[r].id@,
        })
    } by {
        assert(changes_view(res.0@)[k] == cs[k]);
        assert(cs[k].0 == res.0@[k].row);
    }
    assert forall|j: int, k: int| 0 <= j < k < res.0@.len() implies (#[trigger] res.0@[j]).row < (
    #[trigger] res.0@[k]).row by {
        assert(changes_view(res.0@)[j] == cs[j]);
        assert(changes_view(res.0@)[k] == cs[k]);
        assert(cs[j].0 < cs[k].0);
    }
    let before = old(list).pids@;
    assert forall|r: int|
        0 <= r < vms.len() && #[trigger] final(list).pids@[r] != before[r] implies exists|
        k: int,
    | 0 <= k < res.0@.len() && (#[trigger] res.0@[k]).row == r by {
        assert(pid_in(processes@, vms[r].path@) != old(list).pids@[r]);
        let k = choose|k: int| 0 <= k < cs.len() && (#[trigger] cs[k]).0 == r;
        assert(changes_view(res.0@)[k] == cs[k]);
        assert(res.0@[k].row == r);
    }
}

/// The details of a machine without disks: its name, cores, memory, KVM and directory.
pub proof fn details_tell_the_machine(vm: Machine, res: String)
    requires
        vm.disks@.len() == 0,
        call_ensures(detail_text, (&vm,), res),
    ensures
        res@ == "<b>"@ + vm.name@ + "</b>\n\nCores: "@ + decimal(vm.cpu_cores as int)
            + "   RAM: "@ + decimal(vm.memory_mb as int) + " MB   KVM: "@ + (if vm.enable_kvm {
            "true"@
        } else {
            "false"@
        }) + "\nPath: "@ + vm.path_text@,
{
    let head = "<b>"@ + vm.name@ + "</b>\n\nCores: "@ + decimal(vm.cpu_cores as int)
        + "   RAM: "@ + decimal(vm.memory_mb as int) + " MB   KVM: "@ + (if vm.enable_kvm {
        "true"@
    } else {
        "false"@
    }) + "\nPath: "@ + vm.path_text@;
    assert(disk_lines(texts(vm.disks@), 0) =~= Seq::<char>::empty());
    assert(res@ =~= head + Seq::<char>::empty());
    assert(res@ =~= head);
}

proof fn lemma_disk_lines(few: Seq<Seq<char>>, more: Seq<Seq<char>>, n: int)
    requires
        n <= few.len(),
        n <= more.len(),
        forall|i: int| 0 <= i < n ==> #[trigger] few[i] == more[i],
    ensures
        disk_lines(few, n) == disk_lines(more, n),
    decreases n,
{
    if n > 0 {
        lemma_disk_lines(few, more, n - 1);
        assert(few[n - 1] == more[n - 1]);
    }
}

/// One disk more is one line more at the end of the details.
pub proof fn details_name_the_disks(
    few: Machine,
    more: Machine,
    disk: Seq<char>,
    of_few: String,
    of_more: String,
)
    requires
        more.name@ == few.name@,
        more.cpu_cores == few.cpu_cores,
        more.memory_mb == few.memory_mb,
        more.enable_kvm == few.enable_kvm,
        more.path_text@ == few.path_text@,
        more.disks@.len() == few.disks@.len() + 1,
        forall|i: int|
            0 <= i < few.disks@.len() ==> (#[trigger] more.disks@[i])@ == few.disks@[i]@,
        more.disks@[few.disks@.len() as int]@ == disk,
        call_ensures(detail_text, (&few,), of_few),
        call_ensures(detail_text, (&more,), of_more),
    ensures
        of_more@ == of_few@ + "\nDisk: "@ + disk,
{
    let n = few.disks@.len() as int;
    let a = texts(few.disks@);
    let b = texts(more.disks@);
    assert forall|i: int| 0 <= i < n implies #[trigger] a[i] == b[i] by {
        assert(more.disks@[i]@ == few.disks@[i]@);
    }
    lemma_disk_lines(a, b, n);
    assert(b[n] == disk);
    assert(disk_lines(b, n + 1) == disk_lines(b, n) + "\nDisk: "@ + disk);
    assert(of_more@ =~= of_few@ + "\nDisk: "@ + disk);
}

/// What is told of a launch: one that failed is told with its reason, and the notice stays; one
/// that succeeded is told with the machine's name. Nothing else is told.
pub proof fn launches_are_told(launch: Launch, spice: bool, embedded: bool, res: LaunchStep)
    requires
        call_ensures(after_launch, (launch, spice, embedded), res),
    ensures
        res.notice is Some <==> launch is Finished,
        launch matches Launch::Finished { name, success, error } ==> {
            &&& res.notice matches Some(notice)
            &&& notice.stays <==> !success
            &&& !success ==> notice.text@ == "Failed to launch "@ + name@ + ": "@ + (
            match error {
                Some(reason) => reason@,
                None => "unknown error"@,
            })
            &&& success && spice ==> notice.text@ == name@
                + " launched — opening SPICE viewer…"@
            &&& success && !spice ==> notice.text@ == name@ + " launched"@
        },
        res.again <==> launch is Pending,
        res.viewer <==> res.started && spice,
        res.display <==> res.started && !spice && embedded,
        res.restore <==> !res.again && !res.started,
{
}

/// A machine is asked for before it is launched exactly with the setting for it and before
/// there is an answer; it is launched on the answer that says so, and without an answer where it
/// is not asked for; and it is dropped on any other answer.
pub proof fn launch_waits_for_the_answer(confirm: bool, answer: Option<&str>, res: LaunchGate)
    requires
        call_ensures(launch_gate, (confirm, answer), res),
    ensures
        res == LaunchGate::Ask <==> confirm && answer is None,
        res == LaunchGate::Start <==> (answer is None && !confirm) || (answer matches Some(text)
            && text@ == "launch"@),
        res == LaunchGate::Drop <==> (answer matches Some(text) && text@ != "launch"@),
{
}

/// A machine that does not serve SPICE is launched by its script with the display `dbus`,
/// without 3D acceleration and full screen.
pub proof fn embedded_script_has_the_bus(
    script: &str,
    bus: &str,
    shown: String,
    res: Option<String>,
)
    requires
        bus@ == "dbus"@,
        call_ensures(apply_display, (script, bus, false, false), shown),
        call_ensures(embedded_script, (Some(script),), res),
    ensures
        res is Some <==> !has_part(script@, "spice.sock"@),
        res matches Some(text) ==> text@ == shown@,
{
}

/// One row of buttons more: its buttons come behind the others, in a row of their own, from the
/// first column on, and one that stands alone spans two columns.
pub proof fn buttons_stand_in_rows(
    few: &[usize],
    more: &[usize],
    count: usize,
    of_few: Vec<Cell>,
    of_more: Vec<Cell>,
    c: int,
)
    requires
        few@.len() < i32::MAX,
        count <= i32::MAX,
        more@ == few@.push(count),
        call_ensures(btn_section, (few,), of_few),
        call_ensures(btn_section, (more,), of_more),
        0 <= c < count,
    ensures
        few@.len() == 0 ==> of_few@.len() == 0,
        of_more@.len() == of_few@.len() + count,
        of_more@.take(of_few@.len() as int) == of_few@,
        of_more@[of_few@.len() + c].column == c,
        of_more@[of_few@.len() + c].row == few@.len(),
        of_more@[of_few@.len() + c].span == (if count == 1 {
            2i32
        } else {
            1i32
        }),
{
    let cells = row_cells(few@.len() as int, count as int);
    assert(more@.drop_last() =~= few@);
    assert(more@.last() == count);
    assert(of_more@ == of_few@ + cells);
    assert(of_more@.take(of_few@.len() as int) =~= of_few@);
    assert(of_more@[of_few@.len() + c] == cells[c]);
}

/// The machine of the row that was selected last is the one that is stopped and paused; a row
/// without a machine changes nothing, and no row selects none.
pub proof fn selected_row_is_the_target(
    list: &mut Machines,
    row: Option<usize>,
    now: Machines,
    taken: bool,
    stop: Option<u32>,
    pause: Option<(usize, bool)>,
)
    requires
        call_ensures(Machines::select, (list, row), taken),
        now == *final(list),
        call_ensures(Machines::stop_target, (&now,), stop),
        call_ensures(Machines::pause_target, (&now,), pause),
    ensures
        row is None ==> taken && stop is None && pause is None,
        row matches Some(i) ==> (taken <==> i < old(list).vms@.len()),
        taken ==> (row matches Some(i) ==> stop == old(list).pids@[i as int] && pause == Some(
            (i, old(list).paused@[i as int]),
        )),
        !taken ==> final(list).selected == old(list).selected,
        final(list).vms == old(list).vms,
        final(list).pids == old(list).pids,
        final(list).paused == old(list).paused,
{
}

/// A list that was just made has the machines that were found, none of them selected, running
/// or paused.
pub proof fn new_list_has_what_was_found(found: Option<Vec<Machine>>, res: Machines, i: int)
    requires
        call_ensures(Machines::discovered, (found,), res),
    ensures
        found matches Some(vms) ==> res.vms@ == vms@,
        found is None ==> res.vms@.len() == 0,
        res.selected is None,
        0 <= i < res.vms@.len() ==> res.pids@[i] is None && !res.paused@[i],
        res.pids@.len() == res.vms@.len(),
        res.paused@.len() == res.vms@.len(),
{
}

/// Pausing a machine that runs is what the pause button then undoes; a machine that does not
/// run cannot be paused, and no other machine changes.
pub proof fn pausing_changes_one_machine(
    list: &mut Machines,
    index: usize,
    paused: bool,
    now: Machines,
    buttons: Buttons,
    j: int,
)
    requires
        old(list).wf(),
        index < old(list).vms@.len(),
        call_ensures(Machines::set_paused, (list, index, paused), ()),
        now == *final(list),
        call_ensures(Machines::buttons, (&now,), buttons),
        0 <= j < old(list).vms@.len(),
    ensures
        old(list).selected == Some(index) ==> buttons.pause_resumes == (paused && old(
            list,
        ).pids@[index as int] is Some),
        j != index ==> final(list).paused@[j] == old(list).paused@[j],
        final(list).vms == old(list).vms,
        final(list).pids == old(list).pids,
        final(list).selected == old(list).selected,
{
}

/// Notes are those of one machine: nothing else of it changes, and no other machine.
pub proof fn notes_change_one_machine(
    list: &mut Machines,
    index: usize,
    notes: Option<String>,
    j: int,
)
    requires
        call_ensures(Machines::set_notes, (list, index, notes), ()),
        0 <= j < old(list).vms@.len(),
    ensures
        final(list).vms@.len() == old(list).vms@.len(),
        j != index ==> final(list).vms@[j] == old(list).vms@[j],
        j == index ==> {
            let (now, before) = (final(list).vms@[j], old(list).vms@[j]);
            &&& now.notes == notes
            &&& now.name == before.name
            &&& now.id == before.id
            &&& now.path == before.path
            &&& now.path_text == before.path_text
            &&& now.cpu_cores == before.cpu_cores
            &&& now.memory_mb == before.memory_mb
            &&& now.enable_kvm == before.enable_kvm
            &&& now.disks == before.disks
        },
        final(list).pids == old(list).pids,
        final(list).paused == old(list).paused,
        final(list).selected == old(list).selected,
{
}

/// A poll that finds the processes of the poll before tells of no row.
pub proof fn second_poll_tells_nothing(
    list: &mut Machines,
    again: &mut Machines,
    processes: &Vec<QemuProcess>,
    first: (Vec<RowChange>, bool),
    second: (Vec<RowChange>, bool),
)
    requires
        call_ensures(Machines::poll, (list, processes), first),
        *old(again) == *final(list),
        call_ensures(Machines::poll, (again, processes), second),
    ensures
        second.0@.len() == 0,
        !second.1,
        final(again).pids@ == final(list).pids@,
{
    poll_tells_what_changed(again, processes, second);
    assert(final(again).pids@ =~= final(list).pids@);
    if second.0@.len() > 0 {
        let r = second.0@[0].row as int;
        assert(final(again).pids@[r] != old(again).pids@[r]);
    }
}

/// A machine gets the name that was entered, without the white space around it, exactly on the
/// answer `rename` and if that is not all white space.
pub proof fn new_name_is_what_was_entered(
    response: &str,
    entered: &str,
    between: String,
    res: Option<String>,
)
    requires
        call_ensures(trimmed, (entered,), between),
        call_ensures(new_name, (response, entered), res),
    ensures
        res is Some <==> response@ == "rename"@ && !all_space(entered@),
        res matches Some(name) ==> name@ == between@,
{
    nothing_is_left_of_white_space(entered@);
}

/// A machine is deleted for good only on the answer `delete`, is put aside on `archive`, and
/// stays on any other.
pub proof fn deletion_needs_its_answer(response: &str, res: Option<bool>)
    requires
        call_ensures(delete_choice, (response,), res),
    ensures
        res == Some(true) <==> response@ == "delete"@,
        res == Some(false) <==> response@ == "archive"@,
{
    reveal_strlit("delete");
    reveal_strlit("archive");
    assert("delete"@.len() == 6 && "archive"@.len() == 7);
}

/// A row stays exactly if the search is all white space, the row has no title, or the title in
/// lower case is made of something, the search in lower case without the white space around it,
/// and something.
pub proof fn rows_that_match_stay(query: &str, title: &str, res: bool, untitled: bool)
    requires
        call_ensures(row_matches, (query, Some(title)), res),
        call_ensures(row_matches, (query, None::<&str>), untitled),
    ensures
        untitled,
        all_space(query@) ==> res,
        !all_space(query@) ==> (res <==> exists|x: Seq<char>, y: Seq<char>|
            #[trigger] (x + lowercase(trim(query@)) + y) == lowercase(title@)),
{
    nothing_is_left_of_white_space(query@);
    part_stands_between(lowercase(title@), lowercase(trim(query@)));
}

/// A machine whose script names the socket anywhere serves SPICE, and is then not launched into
/// a window of this program; every other script that can be read is.
pub proof fn spice_machines_are_not_embedded(
    script: Option<&str>,
    spice: bool,
    embedded: Option<String>,
)
    requires
        call_ensures(serves_spice, (script,), spice),
        call_ensures(embedded_script, (script,), embedded),
    ensures
        script matches Some(text) ==> (spice <==> exists|x: Seq<char>, y: Seq<char>|
            #[trigger] (x + "spice.sock"@ + y) == text@),
        script is None ==> !spice && embedded is None,
        script is Some ==> (embedded is Some <==> !spice),
{
    if let Some(text) = script {
        part_stands_between(text@, "spice.sock"@);
    }
}

/// The texts of the main window name the machine, and its labels the state.
pub proof fn window_texts_name_the_machine(
    name: &str,
    running: bool,
    label: &'static str,
    launch: String,
    reset: String,
    delete: String,
    notes: String,
    socket: String,
)
    requires
        call_ensures(launch_label, (running,), label),
        call_ensures(launch_question, (name,), launch),
        call_ensures(reset_question, (name,), reset),
        call_ensures(delete_question, (name,), delete),
        call_ensures(notes_markup, (name,), notes),
        call_ensures(spice_address, (name,), socket),
    ensures
        running ==> label@ == "Running"@,
        !running ==> label@ == "Launch VM"@,
        launch@ == "Launch \""@ + name@ + "\"?"@,
        reset@ == "Reset \""@ + name@ + "\" to its initial disk state? This cannot be undone."@,
        delete@ == "What do you want to do with \""@ + name@ + "\"?"@,
        notes@ == "<i>"@ + name@ + "</i>"@,
        socket@ == "spice+unix://"@ + name@,
{
}

/// There is a text in place of rows exactly if there are none, and a reset needs its answer.
pub proof fn empty_list_has_a_text(
    rows: usize,
    res: Option<&'static str>,
    response: &str,
    confirmed: bool,
)
    requires
        call_ensures(placeholder, (rows,), res),
        call_ensures(reset_confirmed, (response,), confirmed),
    ensures
        res is Some <==> rows == 0,
        res matches Some(text) ==> text@ == "No VMs found.\nConfigure vm-curator first."@,
        confirmed <==> response@ == "reset"@,
{
}

} // verus!
