//! What the operations of the dialogs do.
use crate::boot_dialog::{image_label, BootDialog, BootMode};
use crate::config_editor::{CloseStep, Editor};
use crate::display_dialog::{backend_at, backend_position, is_spice};
use crate::folders_dialog;
use crate::folders_dialog::{
    folder_view, folders_of, folders_view, make_folder_row, shared_folder, tag_folders,
    SharedFolder,
};
use crate::logger::{enabled, filter_of, line_for, Filter, Level};
use crate::network_dialog;
use crate::network_dialog::{
    bridge_visible, can_add, forward_of, forwards_of, make_pf_row, port_valid, request_of,
    tag_forwards, Network, NetworkBackend, NetworkForm, NetworkRequest, PortForward, PortProtocol,
};
use crate::notes_dialog::notes_of;
use crate::numbers::{decimal, decimal_text, parse_u16, parse_u32};
use crate::settings;
use crate::settings::{
    display_index, display_name, invalid_text, is_marked, settings_of, Settings, SettingsForm,
};
use crate::snapshot;
use crate::snapshot::{create_polled, new_snapshot_name, CreateStep, Snapshot, Snapshots};
use crate::tagged::{removing_takes_one, removing_undoes_adding, without, Tagged};
use crate::task::{report, told, Notice, Progress, Step};
use crate::text::{position, trimmed};
use crate::text_laws::{
    all_space, beginning_stands_first, nothing_is_left_of_white_space, trim_takes_off_white_space,
};
use vstd::prelude::*;

verus! {

/// The fields of the network dialog show the network of the machine, each in its own place.
pub proof fn network_fields_show_the_network(net: Network, res: NetworkForm)
    requires
        call_ensures(network_dialog::form_of, (Some(&net),), res),
    ensures
        res.backend == 0 <==> net.backend is User,
        res.backend == 1 <==> net.backend is Passt,
        res.backend == 2 <==> net.backend is Bridge,
        res.backend == 3 <==> net.backend is Disabled,
        net.backend matches NetworkBackend::Bridge(name) ==> res.bridge@ == name@,
        !(net.backend is Bridge) ==> res.bridge@ == "br0"@,
        net.mac_address matches Some(mac) ==> res.mac@ == mac@,
        net.mac_address is None ==> res.mac@.len() == 0,
        res.model == 1 <==> net.model@ == "e1000"@,
        res.model == 2 <==> net.model@ == "rtl8139"@,
        res.model <= 2,
{
    reveal_strlit("");
    reveal_strlit("e1000");
    reveal_strlit("rtl8139");
    assert("e1000"@.len() == 5 && "rtl8139"@.len() == 7);
}

/// Without a network of its own a machine has the first backend and the first model, no MAC
/// address, and the bridge `br0`.
pub proof fn no_network_shows_the_first_choices(res: NetworkForm)
    requires
        call_ensures(network_dialog::form_of, (None::<&Network>,), res),
    ensures
        res.backend == 0,
        res.model == 0,
        res.bridge@ == "br0"@,
        res.mac@.len() == 0,
{
    reveal_strlit("");
}

/// What is written names the backend and the model at their positions; the bridge as entered,
/// exactly if the bridge is the backend and is named; and the MAC address as entered, exactly
/// if there is one.
pub proof fn network_is_written_as_entered(form: NetworkForm, res: NetworkRequest)
    requires
        call_ensures(request_of, (&form,), res),
    ensures
        res.backend@ == (match form.backend {
            1 => "passt"@,
            2 => "bridge"@,
            3 => "none"@,
            _ => "user"@,
        }),
        res.model@ == (match form.model {
            1 => "e1000"@,
            2 => "rtl8139"@,
            _ => "virtio-net-pci"@,
        }),
        res.bridge is Some <==> form.backend == 2 && form.bridge@.len() > 0,
        res.bridge matches Some(name) ==> name@ == form.bridge@,
        res.mac is Some <==> form.mac@.len() > 0,
        res.mac matches Some(mac) ==> mac@ == form.mac@,
{
    assert(network_dialog::text_in(res.bridge) is Some <==> res.bridge is Some);
    assert(network_dialog::text_in(res.mac) is Some <==> res.mac is Some);
}

/// The field for the bridge is shown exactly if the bridge can be written.
pub proof fn bridge_is_asked_for_where_it_is_written(
    form: NetworkForm,
    shown: bool,
    res: NetworkRequest,
)
    requires
        form.bridge@.len() > 0,
        call_ensures(bridge_visible, (form.backend,), shown),
        call_ensures(request_of, (&form,), res),
    ensures
        shown <==> res.bridge is Some,
{
    network_is_written_as_entered(form, res);
}

/// A text names a port exactly if it is a number of 16 bits and not 0, and a forward can be
/// added exactly if both texts name one.
pub proof fn ports_are_numbers_but_not_0(
    host: &str,
    guest: &str,
    from: Option<u16>,
    to: Option<u16>,
    host_ok: bool,
    guest_ok: bool,
    res: bool,
)
    requires
        call_ensures(parse_u16, (host,), from),
        call_ensures(parse_u16, (guest,), to),
        call_ensures(port_valid, (host,), host_ok),
        call_ensures(port_valid, (guest,), guest_ok),
        call_ensures(can_add, (host, guest), res),
    ensures
        host_ok <==> (from matches Some(n) && n != 0),
        res <==> host_ok && guest_ok,
        res <==> (from matches Some(n) && n != 0) && (to matches Some(m) && m != 0),
{
}

/// A forward is added exactly on the answer `add` and with two numbers: it leads from the
/// first to the second, over the protocol at the position.
pub proof fn forward_leads_from_host_to_guest(
    response: &str,
    host: &str,
    guest: &str,
    protocol: u32,
    from: Option<u16>,
    to: Option<u16>,
    res: Option<PortForward>,
)
    requires
        call_ensures(parse_u16, (host,), from),
        call_ensures(parse_u16, (guest,), to),
        call_ensures(forward_of, (response, host, guest, protocol), res),
    ensures
        res is Some <==> response@ == "add"@ && from is Some && to is Some,
        res matches Some(forward) ==> {
            &&& Some(forward.host_port) == from
            &&& Some(forward.guest_port) == to
            &&& forward.protocol == PortProtocol::Tcp <==> protocol == 0
        },
{
}

/// The row of a forward names its protocol, the port of the host and the port of the guest.
pub proof fn forward_row_names_both_ports(
    forward: PortForward,
    from: String,
    to: String,
    res: String,
)
    requires
        call_ensures(decimal_text, (forward.host_port as u64,), from),
        call_ensures(decimal_text, (forward.guest_port as u64,), to),
        call_ensures(make_pf_row, (&forward,), res),
    ensures
        res@ == (match forward.protocol {
            PortProtocol::Tcp => "TCP"@,
            PortProtocol::Udp => "UDP"@,
        }) + " "@ + from@ + "→"@ + to@,
{
}

/// The forwards that are saved from an unchanged list are those that it was made of, in order.
pub proof fn forwards_come_back(
    forwards: &Vec<PortForward>,
    list: Tagged<PortForward>,
    res: Vec<PortForward>,
)
    requires
        call_ensures(tag_forwards, (forwards,), list),
        call_ensures(forwards_of, (&list,), res),
    ensures
        res@ == forwards@,
        list.items@.len() == forwards@.len(),
{
    assert(list.values().len() == list.items@.len());
}

/// The folder for a path has the path, and the name at its end, or `share`, as its tag; its row
/// shows both, the path first.
pub proof fn folder_has_path_and_tag(
    path: &str,
    file_name: Option<&str>,
    folder: SharedFolder,
    row: (String, String),
)
    requires
        call_ensures(shared_folder, (path, file_name), folder),
        call_ensures(make_folder_row, (&folder,), row),
    ensures
        folder.host_path@ == path@,
        file_name matches Some(name) ==> folder.mount_tag@ == name@,
        file_name is None ==> folder.mount_tag@ == "share"@,
        row.0@ == path@,
        row.1@ == folder.mount_tag@,
{
}

/// The folders that are saved from an unchanged list are those that it was made of, in order,
/// each with its own path and its own tag.
pub proof fn folders_come_back(
    folders: &Vec<SharedFolder>,
    list: Tagged<SharedFolder>,
    res: Vec<SharedFolder>,
    i: int,
)
    requires
        call_ensures(tag_folders, (folders,), list),
        call_ensures(folders_of, (&list,), res),
        0 <= i < folders@.len(),
    ensures
        res@.len() == folders@.len(),
        res@[i].host_path@ == folders@[i].host_path@,
        res@[i].mount_tag@ == folders@[i].mount_tag@,
{
    assert(folders_view(res@).len() == res@.len());
    assert(folders_view(folders@).len() == folders@.len());
    assert(folders_view(res@)[i] == folder_view(res@[i]));
    assert(folders_view(folders@)[i] == folder_view(folders@[i]));
}

/// What is put into a list comes behind the rest under a number of its own; taking that number
/// out gives the list back.
pub proof fn taking_out_undoes_putting_in<T>(
    list: &mut Tagged<T>,
    again: &mut Tagged<T>,
    value: T,
    id: u32,
)
    requires
        old(list).wf(),
        call_ensures(Tagged::<T>::push, (list, value), id),
        *old(again) == *final(list),
        call_ensures(Tagged::<T>::remove, (again, id), ()),
    ensures
        final(list).items@.len() == old(list).items@.len() + 1,
        final(list).items@.last() == (id, value),
        final(again).items@ == old(list).items@,
        forall|i: int| 0 <= i < old(list).items@.len() ==> (#[trigger] old(list).items@[i]).0 != id,
        final(list).next_id > id,
{
    removing_undoes_adding(old(list).items@, old(list).next_id, value);
}

/// Taking out a number takes out the item that has it, and no other; where none has it, nothing
/// is taken out.
pub proof fn taking_out_takes_one<T>(list: &mut Tagged<T>, id: u32, k: int)
    requires
        old(list).wf(),
        call_ensures(Tagged::<T>::remove, (list, id), ()),
    ensures
        0 <= k < old(list).items@.len() && old(list).items@[k].0 == id ==> final(list).items@
            == old(list).items@.remove(k),
        (forall|i: int|
            0 <= i < old(list).items@.len() ==> (#[trigger] old(list).items@[i]).0 != id)
            ==> final(list).items@ == old(list).items@,
        final(list).next_id == old(list).next_id,
{
    let items = old(list).items@;
    if 0 <= k < items.len() && items[k].0 == id {
        removing_takes_one(items, old(list).next_id as int, k);
    }
    if forall|i: int| 0 <= i < items.len() ==> (#[trigger] items[i]).0 != id {
        lemma_none_taken(items, id);
    }
}

proof fn lemma_none_taken<T>(items: Seq<(u32, T)>, id: u32)
    requires
        forall|i: int| 0 <= i < items.len() ==> (#[trigger] items[i]).0 != id,
    ensures
        without(items, id) == items,
    decreases items.len(),
{
    if items.len() > 0 {
        let front = items.drop_last();
        assert forall|i: int| 0 <= i < front.len() implies (#[trigger] front[i]).0 != id by {
            assert(front[i] == items[i]);
        }
        lemma_none_taken(front, id);
        assert(items[items.len() - 1].0 != id);
        assert(items =~= front.push(items.last()));
    }
}

/// The fields of the settings show the settings, each in its own place.
pub proof fn setting_fields_show_the_settings(
    s: Settings,
    res: SettingsForm,
    shown: &str,
    at: u32,
)
    requires
        call_ensures(settings::form_of, (&s,), res),
        shown@ == s.display@,
        call_ensures(display_index, (shown,), at),
    ensures
        res.memory@ == decimal(s.memory_mb as int),
        res.cores@ == decimal(s.cpu_cores as int),
        res.disk@ == decimal(s.disk_size_gb as int),
        res.display == at,
        res.kvm == s.enable_kvm,
        res.confirm == s.confirm_before_launch,
        res.passthrough == 1 <==> s.multi_gpu,
        res.passthrough == 2 <==> s.single_gpu && !s.multi_gpu,
        res.passthrough == 0 <==> !s.single_gpu && !s.multi_gpu,
{
}

/// The settings that are saved are what the fields hold, each in its own place; they are saved
/// exactly if all three texts are numbers.
pub proof fn settings_are_saved_as_entered(
    form: SettingsForm,
    memory: &str,
    cores: &str,
    disk: &str,
    memory_mb: Option<u32>,
    cpu_cores: Option<u32>,
    disk_size_gb: Option<u32>,
    shown: &'static str,
    res: Option<Settings>,
)
    requires
        memory@ == form.memory@,
        cores@ == form.cores@,
        disk@ == form.disk@,
        call_ensures(parse_u32, (memory,), memory_mb),
        call_ensures(parse_u32, (cores,), cpu_cores),
        call_ensures(parse_u32, (disk,), disk_size_gb),
        call_ensures(display_name, (form.display,), shown),
        call_ensures(settings_of, (&form,), res),
    ensures
        res is Some <==> memory_mb is Some && cpu_cores is Some && disk_size_gb is Some,
        res matches Some(s) ==> {
            &&& Some(s.memory_mb) == memory_mb
            &&& Some(s.cpu_cores) == cpu_cores
            &&& Some(s.disk_size_gb) == disk_size_gb
            &&& s.display@ == shown@
            &&& s.enable_kvm == form.kvm
            &&& s.confirm_before_launch == form.confirm
            &&& s.multi_gpu <==> form.passthrough == 1
            &&& s.single_gpu <==> form.passthrough == 2
        },
{
}

/// The displays of the settings stand at their positions, and any other stands with `none`.
pub proof fn setting_displays_have_positions(
    name: &str,
    at: u32,
    index: u32,
    shown: &'static str,
)
    requires
        call_ensures(display_index, (name,), at),
        call_ensures(display_name, (index,), shown),
    ensures
        at == 0 <==> name@ == "gtk"@,
        at == 1 <==> name@ == "sdl"@,
        at == 2 <==> name@ == "spice-app"@,
        at == 3 <==> name@ == "vnc"@,
        at <= 4,
        shown@ == (match index {
            0 => "gtk"@,
            1 => "sdl"@,
            2 => "spice-app"@,
            3 => "vnc"@,
            _ => "none"@,
        }),
{
    reveal_strlit("gtk");
    reveal_strlit("sdl");
    reveal_strlit("spice-app");
    reveal_strlit("vnc");
    assert("gtk"@[0] == 'g' && "sdl"@[0] == 's' && "sdl"@.len() == 3 && "vnc"@[0] == 'v');
    assert("spice-app"@.len() == 9 && "gtk"@.len() == 3 && "vnc"@.len() == 3);
}

/// A field for a number is marked exactly if it holds something that is no number.
pub proof fn fields_without_a_number_are_marked(text: &str, number: Option<u32>, res: bool)
    requires
        call_ensures(parse_u32, (text,), number),
        call_ensures(is_marked, (text,), res),
    ensures
        res <==> text@.len() > 0 && number is None,
{
}

/// The backends of the display dialog: the one at the position of a name is that name, the
/// position of the one at a position is that position, and SPICE is the last of the six.
pub proof fn backend_positions_are_those_of_names(
    name: &str,
    at: u32,
    shown: &'static str,
    index: u32,
    there: &'static str,
    back: u32,
    spice: bool,
)
    requires
        call_ensures(backend_position, (name,), at),
        call_ensures(backend_at, (at,), shown),
        call_ensures(backend_at, (index,), there),
        call_ensures(backend_position, (there,), back),
        call_ensures(is_spice, (index,), spice),
    ensures
        name@ == "gtk"@ || name@ == "sdl"@ || name@ == "spice-app"@ || name@ == "vnc"@ || name@
            == "none"@ || name@ == "spice"@ ==> shown@ == name@,
        there@ == (match index {
            1 => "sdl"@,
            2 => "spice-app"@,
            3 => "vnc"@,
            4 => "none"@,
            5 => "spice"@,
            _ => "gtk"@,
        }),
        index < 6 ==> back == index,
        spice <==> there@ == "spice"@,
{
    reveal_with_fuel(position, 7);
    reveal_strlit("gtk");
    reveal_strlit("sdl");
    reveal_strlit("spice-app");
    reveal_strlit("vnc");
    reveal_strlit("none");
    reveal_strlit("spice");
    assert("gtk"@[0] == 'g' && "sdl"@[0] == 's' && "vnc"@[0] == 'v' && "none"@[0] == 'n');
    assert("spice-app"@.len() == 9 && "sdl"@.len() == 3 && "gtk"@.len() == 3 && "spice"@.len()
        == 5 && "none"@.len() == 4);
}

/// Notes are what stands between the white space around them; there are none exactly if there
/// is only white space.
pub proof fn notes_are_what_stands_between(text: &str, res: Option<String>)
    requires
        call_ensures(notes_of, (text,), res),
    ensures
        res is None <==> all_space(text@),
        res matches Some(notes) ==> {
            &&& exists|a: Seq<char>, b: Seq<char>|
                #[trigger] (a + notes@ + b) == text@ && all_space(a) && all_space(b)
            &&& notes@.len() > 0
            &&& !all_space(notes@.take(1))
            &&& !all_space(notes@.skip(notes@.len() - 1))
        },
{
    nothing_is_left_of_white_space(text@);
    let (a, b) = trim_takes_off_white_space(text@);
    if let Some(notes) = res {
        assert(a + notes@ + b == text@);
        assert(notes@.take(1)[0] == notes@[0]);
        assert(notes@.skip(notes@.len() - 1)[0] == notes@.last());
    }
}

/// A snapshot has a name exactly if what was entered is not all white space: what stands
/// between the white space around it.
pub proof fn snapshot_name_is_what_was_entered(
    entered: &str,
    between: String,
    res: Option<String>,
)
    requires
        call_ensures(trimmed, (entered,), between),
        call_ensures(new_snapshot_name, (entered,), res),
    ensures
        res is None <==> all_space(entered@),
        res matches Some(name) ==> name@ == between@,
{
    nothing_is_left_of_white_space(entered@);
}

/// What is restored or deleted is the snapshot of the row that was selected last, and nothing
/// where that row has none.
pub proof fn selected_snapshot_is_the_target(
    list: &mut Snapshots,
    row: Option<usize>,
    now: Snapshots,
    chosen: bool,
    target: Option<String>,
)
    requires
        call_ensures(Snapshots::select, (list, row), chosen),
        now == *final(list),
        call_ensures(Snapshots::target, (&now,), target),
    ensures
        chosen <==> target is Some,
        chosen <==> (row matches Some(i) && i < old(list).all@.len()),
        target matches Some(name) ==> name@ == old(list).all@[row.unwrap() as int].name@,
        final(list).all == old(list).all,
{
}

/// After the list was read again nothing is selected, and it holds what was read.
pub proof fn reading_again_selects_nothing(
    list: &mut Snapshots,
    read: Option<Vec<Snapshot>>,
    now: Snapshots,
    target: Option<String>,
)
    requires
        call_ensures(Snapshots::refreshed, (list, read), ()),
        now == *final(list),
        call_ensures(Snapshots::target, (&now,), target),
    ensures
        target is None,
        read matches Some(all) ==> final(list).all@ == all@,
        read is None ==> final(list).all@ == old(list).all@,
{
}

/// The line below a snapshot's name tells its date, and then its size.
pub proof fn snapshot_line_tells_date_and_size(s: Snapshot, res: String)
    requires
        call_ensures(snapshot::subtitle, (&s,), res),
    ensures
        res@ == s.date@ + "  ·  "@ + s.size@,
{
}

/// The entry for a name can be used again once the creation is over, and is emptied exactly if
/// it succeeded; how it ended is told.
pub proof fn creation_frees_the_entry(progress: Progress, res: CreateStep)
    requires
        call_ensures(create_polled, (progress,), res),
    ensures
        res.unlock <==> !res.step.again,
        res.step.again <==> progress is Pending,
        res.clear <==> progress is Done,
        res.step.done <==> progress is Done,
        progress is Done ==> {
            &&& res.step.notice matches Some(notice)
            &&& notice.text@ == "Snapshot created."@
            &&& !notice.stays
        },
        progress matches Progress::Failed(reason) ==> {
            &&& res.step.notice matches Some(notice)
            &&& notice.text@ == "Create failed: "@ + reason@
            &&& notice.stays
        },
        progress is Pending || progress is Lost ==> res.step.notice is None,
{
}

/// How a restoration and a deletion end is told.
pub proof fn restoration_and_deletion_are_told(progress: Progress, restored: Step, deleted: Step)
    requires
        call_ensures(snapshot::restore_polled, (progress,), restored),
        call_ensures(snapshot::delete_polled, (progress,), deleted),
    ensures
        restored.again <==> progress is Pending,
        deleted.again <==> progress is Pending,
        restored.done <==> progress is Done,
        deleted.done <==> progress is Done,
        progress is Done ==> {
            &&& restored.notice matches Some(notice)
            &&& notice.text@ == "Snapshot restored."@
            &&& !notice.stays
        },
        progress is Done ==> {
            &&& deleted.notice matches Some(notice)
            &&& notice.text@ == "Snapshot deleted."@
            &&& !notice.stays
        },
        progress matches Progress::Failed(reason) ==> {
            &&& restored.notice matches Some(notice)
            &&& notice.text@ == "Restore failed: "@ + reason@
            &&& notice.stays
        },
        progress matches Progress::Failed(reason) ==> {
            &&& deleted.notice matches Some(notice)
            &&& notice.text@ == "Delete failed: "@ + reason@
            &&& notice.stays
        },
        progress is Pending || progress is Lost ==> restored.notice is None && deleted.notice
            is None,
{
}

/// Work is asked after exactly while it goes on. Its success is told as given, and goes away by
/// itself; its failure is told with the reason, and stays; nothing else is told.
pub proof fn ends_of_work_are_told(
    progress: Progress,
    success: Option<&str>,
    failure: &str,
    res: Step,
)
    requires
        call_ensures(report, (progress, success, failure), res),
    ensures
        res.again <==> progress is Pending,
        res.done <==> progress is Done,
        res.notice is Some <==> progress is Failed || (progress is Done && success is Some),
        progress is Done ==> (success matches Some(text) ==> {
            &&& res.notice matches Some(notice)
            &&& notice.text@ == text@
            &&& !notice.stays
        }),
        progress matches Progress::Failed(reason) ==> {
            &&& res.notice matches Some(notice)
            &&& notice.text@ == failure@ + reason@
            &&& notice.stays
        },
{
}

/// The end of an action is told: success as given, failure with its reason, and only the
/// failure stays.
pub proof fn ends_of_actions_are_told(
    outcome: Result<(), String>,
    success: &str,
    failure: &str,
    res: Notice,
)
    requires
        call_ensures(told, (outcome, success, failure), res),
    ensures
        res.stays <==> outcome is Err,
        outcome is Ok ==> res.text@ == success@,
        outcome matches Err(reason) ==> res.text@ == failure@ + reason@,
{
}

/// The launch boots in the way that is marked. From an image it boots only once one was chosen,
/// and the button can be pressed then.
pub proof fn launch_boots_as_marked(
    dialog: &mut BootDialog,
    mode: BootMode,
    now: BootDialog,
    res: Option<BootMode>,
)
    requires
        call_ensures(BootDialog::mark, (dialog, mode), ()),
        now == *final(dialog),
        call_ensures(BootDialog::launch_mode, (&now,), res),
    ensures
        mode != BootMode::Cdrom ==> res == Some(mode),
        mode == BootMode::Cdrom && old(dialog).has_image ==> res == Some(mode),
        mode == BootMode::Cdrom && !old(dialog).has_image ==> res is None,
        final(dialog).has_image == old(dialog).has_image,
        mode == old(dialog).mode ==> final(dialog).launch == old(dialog).launch,
        mode != old(dialog).mode && mode == BootMode::Cdrom ==> !final(dialog).launch,
        mode != BootMode::Cdrom && old(dialog).mode == BootMode::Cdrom ==> final(dialog).launch,
{
}

/// Once an image was chosen the launch can be pressed, and boots in the way that is marked.
pub proof fn chosen_image_frees_the_launch(
    dialog: &mut BootDialog,
    now: BootDialog,
    res: Option<BootMode>,
)
    requires
        call_ensures(BootDialog::image_chosen, (dialog,), ()),
        now == *final(dialog),
        call_ensures(BootDialog::launch_mode, (&now,), res),
    ensures
        final(dialog).launch,
        res == Some(old(dialog).mode),
{
}

/// Changes are asked for before the editor closes, until they are saved or given up.
pub proof fn changes_are_asked_for(
    edited: &mut Editor,
    saved: &mut Editor,
    answered: &mut Editor,
    progress: Progress,
    response: &str,
    after_change: Editor,
    after_save: Editor,
    after_answer: Editor,
    close_changed: CloseStep,
    close_saved: CloseStep,
    close_answered: CloseStep,
    step: Step,
    closes: bool,
)
    requires
        call_ensures(Editor::changed, (edited,), ()),
        after_change == *final(edited),
        call_ensures(Editor::close_attempt, (&after_change,), close_changed),
        *old(saved) == after_change,
        call_ensures(Editor::save_polled, (saved, progress), step),
        after_save == *final(saved),
        call_ensures(Editor::close_attempt, (&after_save,), close_saved),
        *old(answered) == after_change,
        call_ensures(Editor::answered, (answered, response), closes),
        after_answer == *final(answered),
        call_ensures(Editor::close_attempt, (&after_answer,), close_answered),
    ensures
        close_changed == CloseStep::Ask,
        close_saved == CloseStep::Close <==> progress is Done,
        close_saved == CloseStep::Ask <==> !(progress is Done),
        closes <==> response@ == "discard"@,
        close_answered == CloseStep::Close <==> closes,
        step.again <==> progress is Pending,
        step.done <==> progress is Done,
        step.notice is Some <==> progress is Failed,
        progress matches Progress::Failed(reason) ==> {
            &&& step.notice matches Some(notice)
            &&& notice.text@ == "Save failed: "@ + reason@
            &&& notice.stays
        },
{
}

/// A filter lets through the level of its own name and every graver one, and nothing else.
pub proof fn filters_are_named_after_levels(level: Level, filter: Filter, res: bool)
    requires
        call_ensures(enabled, (level, filter), res),
    ensures
        res <==> match filter {
            Filter::Off => false,
            Filter::Error => level is Error,
            Filter::Warn => level is Error || level is Warn,
            Filter::Info => level is Error || level is Warn || level is Info,
            Filter::Debug => !(level is Trace),
            Filter::Trace => true,
        },
{
}

/// A message gets a line exactly if the filter lets it through and it does not come from the
/// toolkit; the line names level, source and message, in that order.
pub proof fn lines_are_for_messages_let_through(
    filter: Filter,
    level: Level,
    target: &str,
    message: &str,
    through: bool,
    res: Option<String>,
)
    requires
        call_ensures(enabled, (level, filter), through),
        call_ensures(line_for, (filter, level, target, message), res),
    ensures
        res is Some <==> through && !(exists|y: Seq<char>|
            #[trigger] ("gtk4"@ + y) == target@) && !(exists|y: Seq<char>|
            #[trigger] ("glib"@ + y) == target@) && !(exists|y: Seq<char>|
            #[trigger] ("gio"@ + y) == target@),
        res matches Some(line) ==> line@ == "["@ + (match level {
            Level::Error => "ERROR"@,
            Level::Warn => "WARN "@,
            Level::Info => "INFO "@,
            Level::Debug => "DEBUG"@,
            Level::Trace => "TRACE"@,
        }) + " "@ + target@ + "] "@ + message@ + "\n"@,
{
    beginning_stands_first(target@, "gtk4"@);
    beginning_stands_first(target@, "glib"@);
    beginning_stands_first(target@, "gio"@);
}

/// A filter is the one that the setting names, in large or small letters; without one, and for
/// any other text, it is that for information.
pub proof fn filter_is_the_one_named(text: &str, res: Filter, unset: Filter)
    requires
        call_ensures(filter_of, (Some(text),), res),
        call_ensures(filter_of, (None::<&str>,), unset),
    ensures
        unset == Filter::Info,
        text@ == "off"@ || text@ == "OFF"@ ==> res == Filter::Off,
        text@ == "error"@ || text@ == "ERROR"@ ==> res == Filter::Error,
        text@ == "warn"@ || text@ == "WARN"@ ==> res == Filter::Warn,
        text@ == "info"@ || text@ == "INFO"@ ==> res == Filter::Info,
        text@ == "debug"@ || text@ == "DEBUG"@ ==> res == Filter::Debug,
        text@ == "trace"@ || text@ == "TRACE"@ ==> res == Filter::Trace,
        text@.len() != 3 && text@.len() != 4 && text@.len() != 5 ==> res == Filter::Info,
{
    reveal_strlit("off");
    reveal_strlit("OFF");
    reveal_strlit("error");
    reveal_strlit("ERROR");
    reveal_strlit("warn");
    reveal_strlit("WARN");
    reveal_strlit("info");
    reveal_strlit("INFO");
    reveal_strlit("debug");
    reveal_strlit("DEBUG");
    reveal_strlit("trace");
    reveal_strlit("TRACE");
    let t = text@;
    if t.len() >= 2 {
        assert(t[0] == t[0] && t[1] == t[1]);
    }
    assert("error"@[0] == 'e' && "debug"@[0] == 'd' && "trace"@[0] == 't');
    assert("ERROR"@[0] == 'E' && "DEBUG"@[0] == 'D' && "TRACE"@[0] == 'T');
    assert("warn"@[0] == 'w' && "info"@[0] == 'i' && "WARN"@[0] == 'W' && "INFO"@[0] == 'I');
}

/// The boot dialog at first boots from the disk, and can be launched at once. The row for the
/// image is shown exactly where the image is marked.
pub proof fn boot_begins_with_the_disk(
    dialog: BootDialog,
    mode: Option<BootMode>,
    any: BootDialog,
    shown: bool,
)
    requires
        call_ensures(BootDialog::new, (), dialog),
        call_ensures(BootDialog::launch_mode, (&dialog,), mode),
        call_ensures(BootDialog::shows_image, (&any,), shown),
    ensures
        mode == Some(BootMode::Normal),
        dialog.launch,
        !dialog.has_image,
        shown <==> any.mode == BootMode::Cdrom,
{
}

/// An image is shown by its name; one without a name is shown as nothing.
pub proof fn image_is_shown_by_its_name(name: &str, named: String, unnamed: String)
    requires
        call_ensures(image_label, (Some(name),), named),
        call_ensures(image_label, (None::<&str>,), unnamed),
    ensures
        named@ == name@,
        unnamed@.len() == 0,
{
    reveal_strlit("");
}

/// An editor that was just opened closes without asking.
pub proof fn new_editor_closes(editor: Editor, close: CloseStep)
    requires
        call_ensures(Editor::new, (), editor),
        call_ensures(Editor::close_attempt, (&editor,), close),
    ensures
        close == CloseStep::Close,
{
}

/// At first there are no snapshots, and none is selected; and a list for numbered items is
/// empty.
pub proof fn lists_begin_empty<T>(list: Snapshots, target: Option<String>, tagged: Tagged<T>)
    requires
        call_ensures(Snapshots::new, (), list),
        call_ensures(Snapshots::target, (&list,), target),
        call_ensures(Tagged::<T>::new, (), tagged),
    ensures
        list.all@.len() == 0,
        target is None,
        tagged.items@.len() == 0,
        tagged.next_id == 0,
{
}

/// The questions about a snapshot name it, and only its own answer confirms each.
pub proof fn snapshot_questions_are_confirmed(
    name: &str,
    response: &str,
    restore: String,
    delete: String,
    restores: bool,
    deletes: bool,
)
    requires
        call_ensures(snapshot::restore_question, (name,), restore),
        call_ensures(snapshot::delete_question, (name,), delete),
        call_ensures(snapshot::restore_confirmed, (response,), restores),
        call_ensures(snapshot::delete_confirmed, (response,), deletes),
    ensures
        restore@ == "Restore \""@ + name@
            + "\"? All changes since this snapshot was taken will be lost."@,
        delete@ == "Delete \""@ + name@ + "\"? This cannot be undone."@,
        restores <==> response@ == "restore"@,
        deletes <==> response@ == "delete"@,
        !(restores && deletes),
{
    reveal_strlit("restore");
    reveal_strlit("delete");
    assert("restore"@.len() == 7 && "delete"@.len() == 6);
}

/// A list has a text in its place exactly if it is empty.
pub proof fn empty_lists_have_texts(
    count: usize,
    snapshots: Option<&'static str>,
    folders: Option<&'static str>,
    invalid: &'static str,
)
    requires
        call_ensures(snapshot::empty_text, (count,), snapshots),
        call_ensures(folders_dialog::empty_text, (count,), folders),
        call_ensures(invalid_text, (), invalid),
    ensures
        snapshots is Some <==> count == 0,
        folders is Some <==> count == 0,
        snapshots matches Some(text) ==> text@ == "No snapshots yet"@,
        folders matches Some(text) ==> text@ == "No shared folders"@,
        invalid@ == "Memory, CPU cores, and disk size must be positive whole numbers."@,
{
}

} // verus!
