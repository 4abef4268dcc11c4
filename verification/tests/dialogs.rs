use vm_curator_gtk::boot_dialog::{image_label, BootDialog, BootMode};
use vm_curator_gtk::config_editor::{CloseStep, Editor};
use vm_curator_gtk::folders_dialog::{
    empty_text as folders_empty, folders_of, make_folder_row, shared_folder, tag_folders, SharedFolder,
};
use vm_curator_gtk::logger::{enabled, filter_of, line_for, Filter, Level};
use vm_curator_gtk::multi_gpu::{
    apply_label, empty_text as gpu_empty, gpu_subtitle, passed_devices, shows_problems, status_rows, Choice,
};
use vm_curator_gtk::network_dialog::{
    bridge_visible, can_add, form_of as network_form, forward_of, forwards_of, make_pf_row,
    port_valid, request_of, tag_forwards, Network, NetworkBackend, NetworkForm, PortForward,
    PortProtocol,
};
use vm_curator_gtk::notes_dialog::notes_of;
use vm_curator_gtk::pci_dialog::{
    empty_text, group_note, group_title, parse_saved, parse_saved_address, populate_pci_list,
    PciDevice,
};
use vm_curator_gtk::settings::{
    display_index, display_name, form_of, invalid_text, is_marked, settings_of, Settings,
    SettingsForm,
};
use vm_curator_gtk::single_gpu::{
    generate_label, gpu_address, gpu_title, make_status_row, status_css, status_icon,
    ScriptButtons, Support,
};
use vm_curator_gtk::snapshot::{
    create_polled, delete_confirmed, delete_polled, empty_text as snapshot_empty, delete_question, new_snapshot_name,
    restore_confirmed, restore_polled, restore_question, subtitle as snapshot_subtitle, Snapshot, Snapshots,
};
use vm_curator_gtk::task::Progress;
use vm_curator_gtk::usb_dialog::{
    empty_text as usb_empty, entries, initial_checks, is_checked, nothing_selected, selected, subtitle as usb_subtitle, title as usb_title,
    udev_notice, UdevInstall, UsbDevice, UsbPassthrough, UsbVersion,
};

fn pci(address: &str, group: Option<u32>, boot: bool, driver: Option<&str>) -> PciDevice {
    PciDevice {
        address: address.to_string(),
        name: "card".to_string(),
        driver: driver.map(|d| d.to_string()),
        iommu_group: group,
        is_boot_vga: boot,
    }
}

#[test]
fn saved_addresses_are_read() {
    assert_eq!(
        parse_saved_address("-device vfio-pci,host=0000:01:00.0"),
        Some("0000:01:00.0")
    );
    assert_eq!(
        parse_saved_address("-device vfio-pci,host=0000:01:00.0,multifunction=on"),
        Some("0000:01:00.0")
    );
    assert_eq!(parse_saved_address("host=a\u{2003}b"), Some("a"));
    assert_eq!(parse_saved_address("ä host="), Some(""));
    assert_eq!(parse_saved_address("host=x host=y"), Some("x"));
    assert_eq!(parse_saved_address("-device e1000"), None);
    let args = vec!["host=a".to_string(), "none".to_string(), "host=b,".to_string()];
    assert_eq!(parse_saved(&args), vec!["a".to_string(), "b".to_string()]);
}

#[test]
fn pci_devices_are_listed_by_group() {
    let devices = vec![
        pci("c", Some(7), false, None),
        pci("boot", Some(7), true, None),
        pci("a", Some(2), false, Some("vfio-pci")),
        pci("none", None, false, None),
        pci("d", Some(7), false, Some("nvidia")),
        pci("b", Some(3), false, None),
    ];
    let saved = vec!["d".to_string(), "boot".to_string()];
    let list = populate_pci_list(&devices, &vec![None; 6], &saved);
    assert_eq!(list.companions, vec![None; 4]);
    assert_eq!(list.order, vec![2, 5, 0, 4]);
    assert_eq!(list.groups, vec![2, 3, 7, 7]);
    assert_eq!(list.checked, vec![false, false, false, true]);
    assert_eq!(list.selected(), vec![4]);
    assert!(list.starts_group(0) && list.starts_group(1) && list.starts_group(2));
    assert!(!list.starts_group(3));
    assert!(!list.shares_group(0) && list.shares_group(2) && list.shares_group(3));
    assert_eq!(devices[2].subtitle(), "a · vfio-pci (vfio-pci ✓)");
    assert_eq!(devices[4].subtitle(), "d · nvidia");
    assert_eq!(devices[5].subtitle(), "b · no driver");
}

#[test]
fn checking_a_device_checks_its_group() {
    let devices =
        vec![pci("a", Some(1), false, None), pci("b", Some(1), false, None), pci("c", Some(2), false, None)];
    let mut list = populate_pci_list(&devices, &vec![None; 3], &Vec::new());
    list.toggle(1, true);
    assert_eq!(list.checked, vec![true, true, false]);
    list.toggle(0, false);
    assert_eq!(list.checked, vec![false, true, false]);
    list.toggle(2, true);
    assert_eq!(list.selected(), vec![1, 2]);
    assert!(populate_pci_list(&Vec::new(), &Vec::new(), &Vec::new()).order.is_empty());
}

#[test]
fn checking_a_gpu_checks_its_audio_device() {
    // The card is device 3 in group 9; its audio device is device 1 in group 4, which it
    // shares with device 0. Device 4 goes with a device that cannot be passed through.
    let devices = vec![
        pci("bridge", Some(4), false, None),
        pci("audio", Some(4), false, None),
        pci("nic", Some(6), false, None),
        pci("gpu", Some(9), false, None),
        pci("other", Some(11), false, None),
        pci("boot", Some(12), true, None),
    ];
    let companions = vec![None, None, None, Some(1), Some(5), Some(2)];
    let mut list = populate_pci_list(&devices, &companions, &Vec::new());
    assert_eq!(list.order, vec![0, 1, 2, 3, 4]);
    assert_eq!(list.companions, vec![None, None, None, Some(1), None]);
    list.toggle(3, true);
    assert_eq!(list.checked, vec![true, true, false, true, false]);
    assert_eq!(list.selected(), vec![0, 1, 3]);
    list.toggle(3, false);
    assert_eq!(list.checked, vec![true, true, false, false, false]);
    list.toggle(4, true);
    assert_eq!(list.checked, vec![true, true, false, false, true]);
    let mut alone = populate_pci_list(&devices, &companions, &Vec::new());
    alone.toggle(1, true);
    assert_eq!(alone.checked, vec![true, true, false, false, false]);
}

#[test]
fn a_card_that_is_brought_along_brings_its_audio_device() {
    // The card and the controller share group 1; the card's audio device is in group 2 with
    // a second card, whose audio device is in group 3.
    let devices = vec![
        pci("card", Some(1), false, None),
        pci("controller", Some(1), false, None),
        pci("audio", Some(2), false, None),
        pci("card2", Some(2), false, None),
        pci("audio2", Some(3), false, None),
        pci("nic", Some(4), false, None),
    ];
    let companions = vec![Some(2), None, None, Some(4), None, None];
    let mut list = populate_pci_list(&devices, &companions, &Vec::new());
    list.toggle(1, true);
    assert_eq!(list.checked, vec![true, true, true, true, true, false]);
    let mut last = populate_pci_list(&devices, &companions, &Vec::new());
    last.toggle(4, true);
    assert_eq!(last.checked, vec![false, false, false, false, true, false]);
    last.toggle(2, true);
    assert_eq!(last.checked, vec![false, false, true, true, true, false]);
}

#[test]
fn empty_lists_have_a_text() {
    assert_eq!(usb_empty(0), Some("No USB devices found"));
    assert_eq!(usb_empty(1), None);
    assert_eq!(nothing_selected(0), Some("Select at least one device first."));
    assert_eq!(nothing_selected(2), None);
    assert_eq!(snapshot_empty(0), Some("No snapshots yet"));
    assert_eq!(snapshot_empty(1), None);
    assert_eq!(folders_empty(0), Some("No shared folders"));
    assert_eq!(folders_empty(1), None);
    assert_eq!(
        gpu_empty(0),
        Some((
            "No passthrough-capable GPUs found",
            "A secondary GPU (non-boot VGA) with an IOMMU group is required"
        ))
    );
    assert_eq!(gpu_empty(1), None);
}

#[test]
fn texts_of_the_pci_dialog() {
    assert_eq!(group_title(14), "IOMMU Group 14");
    assert_eq!(group_note(true), Some("All devices in this group must be passed together"));
    assert_eq!(group_note(false), None);
    assert_eq!(
        empty_text(0),
        Some("No passthrough-capable PCI devices found.\nEnsure IOMMU is enabled in firmware and kernel (intel_iommu=on / amd_iommu=on).")
    );
    assert_eq!(empty_text(1), None);
}

fn usb(vendor_id: u16, product_id: u16) -> UsbDevice {
    UsbDevice {
        vendor_id,
        product_id,
        vendor_name: "Acme".to_string(),
        product_name: "Mouse".to_string(),
        usb_version: UsbVersion::Usb2,
    }
}

#[test]
fn usb_choice_comes_back() {
    let devices = vec![usb(0x46d, 0xc077), usb(0x1d6b, 2), usb(0x46d, 1)];
    let checked = vec![true, false, true];
    let saved: Vec<UsbPassthrough> = entries(&devices, &checked);
    assert_eq!(saved.len(), 2);
    assert_eq!((saved[0].vendor_id, saved[0].product_id), (0x46d, 0xc077));
    assert_eq!(saved[1].usb_version, UsbVersion::Usb2);
    assert_eq!(initial_checks(&saved, &devices), checked);
    assert!(is_checked(&saved, &devices[0]));
    assert!(!is_checked(&saved, &devices[1]));
    assert_eq!(selected(&checked), vec![0, 2]);
    assert!(selected(&vec![false]).is_empty());
    assert_eq!(usb_title(&devices[0]), "Acme Mouse");
    assert_eq!(usb_subtitle(&devices[0]), "Usb2  ·  046d:c077");
}

#[test]
fn udev_results_are_told() {
    let notice = udev_notice(UdevInstall::Success);
    assert_eq!((notice.text.as_str(), notice.stays), ("udev rules installed.", false));
    let notice = udev_notice(UdevInstall::NeedsReboot);
    assert_eq!(
        (notice.text.as_str(), notice.stays),
        ("Rules installed — reboot required to apply.", true)
    );
    let notice = udev_notice(UdevInstall::PermissionDenied);
    assert_eq!(
        (notice.text.as_str(), notice.stays),
        ("Permission denied — run with sudo or install polkit.", true)
    );
    let notice = udev_notice(UdevInstall::Error("x".to_string()));
    assert_eq!((notice.text.as_str(), notice.stays), ("udev install failed: x", true));
}

#[test]
fn single_gpu_prerequisites() {
    let support = Support { iommu_enabled: true, vfio_available: false, has_boot_vga: true };
    assert!(!support.is_supported());
    let rows = support.prerequisites();
    assert_eq!(rows.len(), 3);
    assert_eq!((rows[0].title.as_str(), rows[0].subtitle.as_str()), ("IOMMU", "Enabled in kernel"));
    assert_eq!((rows[0].icon, rows[0].css), ("✓", "success"));
    assert_eq!(rows[1].title, "VFIO Modules");
    assert_eq!(rows[1].subtitle, "Run: sudo modprobe vfio-pci");
    assert_eq!((rows[1].icon, rows[1].css), ("✗", "error"));
    assert_eq!(rows[2].subtitle, "Boot VGA device found");
    let bare = Support { iommu_enabled: false, vfio_available: true, has_boot_vga: false };
    let rows = bare.prerequisites();
    assert_eq!(rows[0].subtitle, "Add intel_iommu=on or amd_iommu=on to kernel parameters");
    assert_eq!(rows[1].subtitle, "vfio-pci loaded");
    assert_eq!(rows[2].subtitle, "No boot VGA device detected");
    assert_eq!((status_icon(true), status_css(false)), ("✓", "error"));
    assert_eq!(make_status_row("t", true, "s").subtitle, "s");
    assert_eq!(gpu_title("AMD", "RX"), "AMD RX");
    assert_eq!(gpu_address("01:00.0"), "PCI 01:00.0");
}

#[test]
fn single_gpu_scripts() {
    let full = Support { iommu_enabled: true, vfio_available: true, has_boot_vga: true };
    let none = Support { iommu_enabled: false, vfio_available: true, has_boot_vga: true };
    let mut buttons = ScriptButtons::new();
    buttons.checked(&none, true);
    assert_eq!(buttons, ScriptButtons::new());
    buttons.checked(&full, false);
    assert!(buttons.generate && !buttons.delete);
    buttons.generate_started();
    assert!(!buttons.generate && buttons.generating);
    assert!(buttons.generate_polled(Progress::Pending).again);
    assert!(!buttons.generate);
    let step = buttons.generate_polled(Progress::Failed("x".to_string()));
    assert_eq!(step.notice.unwrap().text, "Failed: x");
    assert!(buttons.generate && !buttons.generating && !buttons.delete);
    let step = buttons.generate_polled(Progress::Done);
    assert_eq!(step.notice.unwrap().text, "Scripts generated successfully.");
    assert!(buttons.generate && buttons.delete);
    let step = buttons.delete_polled(Progress::Failed("y".to_string()));
    assert_eq!(step.notice.unwrap().text, "Delete failed: y");
    assert!(buttons.delete);
    let step = buttons.delete_polled(Progress::Done);
    assert_eq!(step.notice.unwrap().text, "Scripts deleted.");
    assert!(!buttons.delete && buttons.generate);
    assert_eq!(generate_label(true), "Generating…");
    assert_eq!(generate_label(false), "Generate Scripts");
}

#[test]
fn multi_gpu_choice() {
    let rows = status_rows(true, false, Some("/usr/bin/looking-glass-client"));
    assert_eq!(rows[0].subtitle, "Enabled");
    assert_eq!(rows[1].subtitle, "Run: sudo modprobe vfio-pci");
    assert_eq!(rows[2].subtitle, "/usr/bin/looking-glass-client");
    assert!(rows[2].ok);
    let rows = status_rows(false, true, None);
    assert_eq!(rows[0].subtitle, "Not enabled — add intel_iommu=on or amd_iommu=on");
    assert_eq!(rows[1].subtitle, "Modules loaded");
    assert_eq!(rows[2].subtitle, "Not found — install looking-glass-client");
    assert!(!rows[2].ok);

    let mut choice = Choice::new();
    assert_eq!(choice.start(), None);
    choice.toggled(1, true);
    choice.toggled(0, false);
    assert_eq!(choice, Choice { gpu: Some(1), apply: true, applying: false });
    assert_eq!(choice.start(), Some(1));
    assert_eq!(choice, Choice { gpu: Some(1), apply: false, applying: true });
    assert!(choice.polled(Progress::Pending).again);
    assert!(!choice.apply);
    assert_eq!(choice.polled(Progress::Done).notice.unwrap().text, "PCI passthrough saved.");
    assert!(choice.apply && !choice.applying);
    choice.start();
    let step = choice.polled(Progress::Failed("z".to_string()));
    assert_eq!(step.notice.unwrap().text, "Failed: z");
    assert!(choice.apply);

    assert_eq!(gpu_subtitle("01:00.0", None, None), "PCI 01:00.0");
    assert_eq!(
        gpu_subtitle("01:00.0", Some(14), Some("01:00.1")),
        "PCI 01:00.0 · IOMMU group 14 + audio 01:00.1"
    );
    assert_eq!(passed_devices("g", Some("a")), vec!["g", "a"]);
    assert_eq!(passed_devices("g", None), vec!["g"]);
    assert_eq!((apply_label(true), apply_label(false)), ("Applying…", "Apply"));
    assert!(shows_problems(0, 1) && shows_problems(1, 0) && !shows_problems(0, 0));
}

fn bridge(name: &str) -> Network {
    Network {
        backend: NetworkBackend::Bridge(name.to_string()),
        model: "e1000".to_string(),
        mac_address: Some("52:54:00:00:00:01".to_string()),
    }
}

#[test]
fn an_unchanged_network_stays() {
    let form = network_form(Some(&bridge("br7")));
    assert_eq!((form.backend, form.bridge.as_str(), form.model), (2, "br7", 1));
    let request = request_of(&form);
    assert_eq!((request.model.as_str(), request.backend.as_str()), ("e1000", "bridge"));
    assert_eq!(request.bridge.as_deref(), Some("br7"));
    assert_eq!(request.mac.as_deref(), Some("52:54:00:00:00:01"));
    for (i, (backend, name)) in [
        (NetworkBackend::User, "user"),
        (NetworkBackend::Passt, "passt"),
        (NetworkBackend::Bridge("b".to_string()), "bridge"),
        (NetworkBackend::Disabled, "none"),
    ]
    .into_iter()
    .enumerate()
    {
        let net = Network { backend, model: "rtl8139".to_string(), mac_address: None };
        let form = network_form(Some(&net));
        assert_eq!(form.backend, i as u32);
        assert_eq!(bridge_visible(form.backend), i == 2);
        let request = request_of(&form);
        assert_eq!(request.backend, name);
        assert_eq!(request.model, "rtl8139");
        assert_eq!(request.mac, None);
    }
}

#[test]
fn no_network_gets_the_defaults() {
    let form = network_form(None);
    assert_eq!((form.backend, form.bridge.as_str(), form.mac.as_str(), form.model), (0, "br0", "", 0));
    let request = request_of(&form);
    assert_eq!((request.model.as_str(), request.backend.as_str()), ("virtio-net-pci", "user"));
    assert!(request.bridge.is_none() && request.mac.is_none());
    let empty =
        NetworkForm { backend: 2, bridge: "".to_string(), mac: " ".to_string(), model: 9 };
    let request = request_of(&empty);
    assert_eq!((request.bridge, request.mac.as_deref()), (None, Some(" ")));
    assert_eq!(request.model, "virtio-net-pci");
}

#[test]
fn ports_are_checked() {
    assert!(port_valid("1") && port_valid("65535") && port_valid("+22"));
    assert!(!port_valid("0") && !port_valid("65536") && !port_valid("") && !port_valid("x"));
    assert!(can_add("22", "80") && !can_add("22", "0") && !can_add("", "80"));
    let fwd = forward_of("add", "2222", "22", 0).unwrap();
    assert_eq!(
        fwd,
        PortForward { protocol: PortProtocol::Tcp, host_port: 2222, guest_port: 22 }
    );
    assert_eq!(make_pf_row(&fwd), "TCP 2222→22");
    let udp = forward_of("add", "53", "5353", 1).unwrap();
    assert_eq!(make_pf_row(&udp), "UDP 53→5353");
    assert_eq!(forward_of("cancel", "53", "53", 1), None);
    assert_eq!(forward_of("add", "x", "53", 1), None);
    assert_eq!(forward_of("add", "53", "70000", 1), None);
}

#[test]
fn forwards_are_removed_by_number() {
    let a = PortForward { protocol: PortProtocol::Tcp, host_port: 1, guest_port: 1 };
    let b = PortForward { protocol: PortProtocol::Udp, host_port: 2, guest_port: 2 };
    let mut list = tag_forwards(&vec![a, b]);
    assert_eq!(list.next_id, 2);
    let id = list.push(a);
    assert_eq!(id, 2);
    list.remove(id);
    assert_eq!(forwards_of(&list), vec![a, b]);
    list.remove(0);
    assert_eq!(forwards_of(&list), vec![b]);
    assert_eq!(list.push(a), 3);
    list.remove(17);
    assert_eq!(forwards_of(&list), vec![b, a]);
}

#[test]
fn folders_get_tags() {
    let folder = shared_folder("/home/me/data", Some("data"));
    assert_eq!(make_folder_row(&folder), ("/home/me/data".to_string(), "data".to_string()));
    let root = shared_folder("/", None);
    assert_eq!(root.mount_tag, "share");
    let mut list = tag_folders(&vec![folder, root]);
    list.remove(0);
    list.push(SharedFolder { host_path: "/x".to_string(), mount_tag: "x".to_string() });
    let saved = folders_of(&list);
    assert_eq!(saved.len(), 2);
    assert_eq!((saved[0].host_path.as_str(), saved[0].mount_tag.as_str()), ("/", "share"));
    assert_eq!((saved[1].host_path.as_str(), saved[1].mount_tag.as_str()), ("/x", "x"));
}

#[test]
fn unchanged_settings_stay() {
    for (i, display) in ["gtk", "sdl", "spice-app", "vnc", "none"].iter().enumerate() {
        assert_eq!(display_index(display), i as u32);
        assert_eq!(display_name(i as u32), *display);
        let settings = Settings {
            memory_mb: 4096,
            cpu_cores: 4,
            disk_size_gb: 64,
            display: display.to_string(),
            enable_kvm: true,
            confirm_before_launch: false,
            multi_gpu: i == 1,
            single_gpu: i == 2,
        };
        let form = form_of(&settings);
        assert_eq!(form.memory, "4096");
        assert_eq!(form.passthrough, if i == 1 { 1 } else if i == 2 { 2 } else { 0 });
        let back = settings_of(&form).unwrap();
        assert_eq!((back.memory_mb, back.cpu_cores, back.disk_size_gb), (4096, 4, 64));
        assert_eq!(back.display, *display);
        assert!(back.enable_kvm && !back.confirm_before_launch);
        assert_eq!((back.multi_gpu, back.single_gpu), (i == 1, i == 2));
    }
    assert_eq!(display_index("curses"), 4);
    assert_eq!(display_name(9), "none");
}

#[test]
fn wrong_numbers_are_not_saved() {
    for bad in 0..3 {
        let text = |i: usize| if i == bad { "4 GB".to_string() } else { "4".to_string() };
        let form = SettingsForm {
            memory: text(0),
            cores: text(1),
            disk: text(2),
            display: 0,
            kvm: false,
            confirm: true,
            passthrough: 0,
        };
        assert!(settings_of(&form).is_none());
    }
    assert!(!is_marked("") && !is_marked("12") && is_marked("12a") && is_marked("-1"));
    assert_eq!(
        invalid_text(),
        "Memory, CPU cores, and disk size must be positive whole numbers."
    );
}

#[test]
fn a_launch_from_an_image_needs_one() {
    let mut dialog = BootDialog::new();
    assert!(dialog.launch && !dialog.shows_image());
    assert_eq!(dialog.launch_mode(), Some(BootMode::Normal));
    dialog.mark(BootMode::Cdrom);
    assert!(!dialog.launch && dialog.shows_image());
    assert_eq!(dialog.launch_mode(), None);
    dialog.image_chosen();
    assert!(dialog.launch);
    assert_eq!(dialog.launch_mode(), Some(BootMode::Cdrom));
    dialog.mark(BootMode::Install);
    assert!(dialog.launch);
    assert_eq!(dialog.launch_mode(), Some(BootMode::Install));
    dialog.mark(BootMode::Cdrom);
    assert!(!dialog.launch);
    assert_eq!(image_label(Some("a.iso")), "a.iso");
    assert_eq!(image_label(None), "");
}

#[test]
fn notes_are_trimmed() {
    assert_eq!(notes_of(" \n\t"), None);
    assert_eq!(notes_of("  a\nb \n"), Some("a\nb".to_string()));
    assert_eq!(notes_of(&notes_of("  a\nb \n").unwrap()), Some("a\nb".to_string()));
}

#[test]
fn changes_are_not_lost_without_asking() {
    let mut editor = Editor::new();
    assert_eq!(editor.close_attempt(), CloseStep::Close);
    editor.changed();
    assert_eq!(editor.close_attempt(), CloseStep::Ask);
    assert!(!editor.answered("cancel"));
    assert!(editor.dirty);
    let step = editor.save_polled(Progress::Failed("x".to_string()));
    assert_eq!(step.notice.unwrap().text, "Save failed: x");
    assert!(editor.dirty);
    assert!(editor.save_polled(Progress::Done).done);
    assert!(!editor.dirty);
    editor.changed();
    assert!(editor.answered("discard"));
    assert!(!editor.dirty);
}

fn snapshot(name: &str) -> Snapshot {
    Snapshot { name: name.to_string(), size: "1.2G".to_string(), date: "2024-01-01".to_string() }
}

#[test]
fn snapshots_are_selected() {
    let mut all = Snapshots::new();
    assert!(!all.select(Some(0)));
    all.refreshed(Some(vec![snapshot("one"), snapshot("two")]));
    assert!(all.select(Some(1)));
    assert_eq!(all.target(), Some("two".to_string()));
    assert!(!all.select(Some(2)));
    assert_eq!(all.target(), None);
    all.select(Some(0));
    all.refreshed(None);
    assert_eq!((all.selected, all.all.len()), (None, 2));
    assert!(!all.select(None));
    assert_eq!(snapshot_subtitle(&snapshot("one")), "2024-01-01  ·  1.2G");
}

#[test]
fn snapshot_work_is_reported() {
    assert_eq!(new_snapshot_name(" a "), Some("a".to_string()));
    assert_eq!(new_snapshot_name("  "), None);
    let created = create_polled(Progress::Done);
    assert!(created.unlock && created.clear && created.step.done);
    assert_eq!(created.step.notice.unwrap().text, "Snapshot created.");
    let failed = create_polled(Progress::Failed("x".to_string()));
    assert!(failed.unlock && !failed.clear);
    assert_eq!(failed.step.notice.unwrap().text, "Create failed: x");
    let pending = create_polled(Progress::Pending);
    assert!(!pending.unlock && !pending.clear && pending.step.again);
    let lost = create_polled(Progress::Lost);
    assert!(lost.unlock && !lost.clear && lost.step.notice.is_none());
    assert_eq!(restore_polled(Progress::Done).notice.unwrap().text, "Snapshot restored.");
    let step = restore_polled(Progress::Failed("x".to_string()));
    assert_eq!(step.notice.unwrap().text, "Restore failed: x");
    assert_eq!(delete_polled(Progress::Done).notice.unwrap().text, "Snapshot deleted.");
    let step = delete_polled(Progress::Failed("x".to_string()));
    assert_eq!(step.notice.unwrap().text, "Delete failed: x");
    assert_eq!(
        restore_question("a"),
        "Restore \"a\"? All changes since this snapshot was taken will be lost."
    );
    assert_eq!(delete_question("a"), "Delete \"a\"? This cannot be undone.");
    assert!(restore_confirmed("restore") && !restore_confirmed("cancel"));
    assert!(delete_confirmed("delete") && !delete_confirmed("cancel"));
}

#[test]
fn log_filters() {
    for text in ["off", "OFF", "Error", "wARN", "info", "DEBUG", "trace", "", "warning", "2", " info"] {
        let expected = match text.parse::<log::LevelFilter>() {
            Ok(f) => f.to_string(),
            Err(_) => "INFO".to_string(),
        };
        let found = match filter_of(Some(text)) {
            Filter::Off => "OFF",
            Filter::Error => "ERROR",
            Filter::Warn => "WARN",
            Filter::Info => "INFO",
            Filter::Debug => "DEBUG",
            Filter::Trace => "TRACE",
        };
        assert_eq!(found, expected, "{text:?}");
    }
    assert_eq!(filter_of(Some("wArN")), Filter::Warn);
    assert_eq!(filter_of(None), Filter::Info);
    assert!(enabled(Level::Warn, Filter::Warn));
    assert!(enabled(Level::Error, Filter::Warn));
    assert!(!enabled(Level::Info, Filter::Warn));
    assert!(!enabled(Level::Error, Filter::Off));
    assert!(enabled(Level::Trace, Filter::Trace));
}

#[test]
fn log_lines() {
    assert_eq!(
        line_for(Filter::Info, Level::Warn, "vm_curator_gtk", "x"),
        Some(format!("[{:<5} {}] {}\n", "WARN", "vm_curator_gtk", "x"))
    );
    assert_eq!(
        line_for(Filter::Trace, Level::Error, "a", "b"),
        Some("[ERROR a] b\n".to_string())
    );
    assert_eq!(line_for(Filter::Info, Level::Debug, "a", "b"), None);
    for noisy in ["gtk4::x", "glib", "gio"] {
        assert_eq!(line_for(Filter::Trace, Level::Error, noisy, "b"), None);
    }
}
