use vm_curator_gtk::create_wizard::{
    default_fields, display_at, display_position, first_step_lacks, missing_text, net_backend_at,
    net_model_at, net_model_position, new_machine, os_matches, os_name, profile_fields, summary,
    install_image, CreateClick, Creation, Media, Missing, Profile, LAST,
};
use vm_curator_gtk::import_wizard::{
    disk_action, missing_text as import_missing_text, name_fits, place, subtitle, warnings_text,
    DiskAction, Found, ImportClick, ImportSource, ImportableVm, Importing,
    Missing as ImportMissing, Place,
};
use vm_curator_gtk::settings::Settings;
use vm_curator_gtk::task::Progress;
use vm_curator_gtk::wizard::{Click, NextLabel, Wizard};

#[test]
fn steps_lead_on_and_back() {
    let mut wizard = Wizard::new(LAST);
    assert_eq!(wizard.step_text(), "Step 1 of 5");
    wizard.go_back();
    assert_eq!(wizard, Wizard::new(LAST));
    assert_eq!(wizard.click(false), Click::Refuse);
    assert_eq!(wizard, Wizard::new(LAST));
    assert_eq!(wizard.click(true), Click::Show);
    assert_eq!((wizard.step, wizard.back, wizard.label), (1, true, NextLabel::Next));
    wizard.go_back();
    assert_eq!(wizard, Wizard::new(LAST));
    while wizard.step < wizard.last {
        assert_eq!(wizard.click(true), Click::Show);
    }
    assert_eq!(wizard.label, NextLabel::Finish);
    assert_eq!(wizard.step_text(), "Step 5 of 5");
    assert_eq!(wizard.click(false), Click::Refuse);
    assert_eq!(wizard.click(true), Click::Finish);
    assert_eq!((wizard.next, wizard.label), (false, NextLabel::Working));
    assert!(wizard.polled(Progress::Pending, "No: ").again);
    assert_eq!((wizard.next, wizard.label), (false, NextLabel::Working));
    let step = wizard.polled(Progress::Failed("x".to_string()), "No: ");
    assert_eq!(step.notice.unwrap().text, "No: x");
    assert_eq!((wizard.next, wizard.label), (true, NextLabel::Finish));
    assert_eq!(wizard.click(true), Click::Finish);
    assert!(wizard.polled(Progress::Done, "No: ").done);
    wizard.go_back();
    assert_eq!((wizard.step, wizard.label), (3, NextLabel::Next));
    assert_eq!(Wizard::new(vm_curator_gtk::import_wizard::LAST).step_text(), "Step 1 of 3");
}

#[test]
fn a_machine_is_created_after_the_summary() {
    let mut creation = Creation::new();
    assert_eq!(creation.next(" "), CreateClick::Lacks(Missing::Name));
    assert_eq!(creation.next("arch"), CreateClick::Lacks(Missing::Os));
    assert_eq!(creation.wizard.step, 0);
    creation.select_os("arch-linux".to_string());
    assert_eq!(creation.next(""), CreateClick::Lacks(Missing::Name));
    assert_eq!(creation.next(" arch "), CreateClick::Show);
    assert_eq!(creation.name, " arch ");
    assert_eq!(creation.next("ignored"), CreateClick::Show);
    assert_eq!(creation.name, " arch ");
    creation.go_back();
    assert_eq!(creation.next(""), CreateClick::Show);
    assert_eq!(creation.next(""), CreateClick::Show);
    assert_eq!(creation.next(""), CreateClick::Summary);
    assert_eq!(creation.next(""), CreateClick::Create);
    let step = creation.polled(Progress::Failed("disk full".to_string()));
    assert_eq!(step.notice.unwrap().text, "Creation failed: disk full");
    assert!(!step.done && creation.wizard.next);
    assert_eq!(creation.next(""), CreateClick::Create);
    let step = creation.polled(Progress::Done);
    assert!(step.done && !step.again && step.notice.is_none());
}

#[test]
fn a_machine_is_imported_from_the_last_step() {
    let mut importing = Importing::new();
    assert_eq!(importing.next(None, "x"), ImportClick::Lacks(ImportMissing::Directory));
    assert_eq!(importing.next(Some(Place::Quickemu), ""), ImportClick::Search(Place::Quickemu));
    assert_eq!(importing.next(None, "x"), ImportClick::Lacks(ImportMissing::Machine));
    importing.found.searched(vec![found("a", ImportSource::Libvirt)]);
    importing.found.select(Some(0));
    assert_eq!(importing.next(None, ""), ImportClick::Configure);
    assert_eq!(importing.next(None, " "), ImportClick::Lacks(ImportMissing::Name));
    importing.go_back();
    assert_eq!(importing.next(None, ""), ImportClick::Configure);
    assert_eq!(importing.next(None, "b"), ImportClick::Import);
    let step = importing.polled(Progress::Failed("x".to_string()));
    assert_eq!(step.notice.unwrap().text, "Import failed: x");
    assert!(importing.wizard.next);
    assert_eq!(import_missing_text(ImportMissing::Directory), "Choose a directory to scan first.");
    assert_eq!(import_missing_text(ImportMissing::Machine), "Select a VM to continue.");
    assert_eq!(import_missing_text(ImportMissing::Name), "Enter a VM name.");
}

#[test]
fn machines_are_installed_from_one_image() {
    assert_eq!(install_image(Media::Nothing, Some("a"), Some("b")), None);
    assert_eq!(install_image(Media::Configured, Some("a"), Some("b")), Some("a"));
    assert_eq!(install_image(Media::Custom, Some("a"), Some("b")), Some("b"));
    assert_eq!(install_image(Media::Custom, Some("a"), None), None);
}

#[test]
fn lists_have_positions() {
    for (i, name) in ["gtk", "sdl", "spice-app", "vnc", "none"].iter().enumerate() {
        assert_eq!(display_position(name), i as u32);
        assert_eq!(display_at(i as u32), *name);
    }
    for (i, name) in ["virtio-net-pci", "e1000", "rtl8139", "none"].iter().enumerate() {
        assert_eq!(net_model_position(name), i as u32);
        assert_eq!(net_model_at(i as u32), *name);
    }
    for (i, name) in ["user", "passt", "bridge", "none"].iter().enumerate() {
        assert_eq!(net_backend_at(i as u32), *name);
    }
    assert_eq!((display_position("x"), net_model_position("x")), (0, 0));
    assert_eq!((display_at(5), net_model_at(4), net_backend_at(4)), ("gtk", "virtio-net-pci", "user"));
}

#[test]
fn systems_are_searched() {
    assert!(os_matches("", Some("Windows 11")));
    assert!(os_matches(" WIN ", Some("Windows 11")));
    assert!(!os_matches("arch", Some("Windows 11")));
    assert!(os_matches("arch", None));
    assert!(os_matches("İ", Some("xİy")));
}

#[test]
fn the_first_step_needs_a_name_and_a_system() {
    assert_eq!(first_step_lacks("  ", true), Some(Missing::Name));
    assert_eq!(first_step_lacks("", false), Some(Missing::Name));
    assert_eq!(first_step_lacks("a", false), Some(Missing::Os));
    assert_eq!(first_step_lacks("a", true), None);
    assert_eq!(missing_text(Missing::Name), "Enter a VM name to continue.");
    assert_eq!(missing_text(Missing::Os), "Select an OS to continue.");
}

fn profile() -> Profile {
    Profile {
        memory_mb: 8192,
        cpu_cores: 6,
        disk_size_gb: 100,
        enable_kvm: true,
        uefi: true,
        tpm: false,
        display: "spice-app".to_string(),
        network_model: "e1000".to_string(),
    }
}

#[test]
fn a_profile_is_asked_for() {
    let fields = profile_fields(&profile(), 1);
    assert_eq!((fields.memory.as_str(), fields.display, fields.net_model), ("8192", 2, 1));
    let machine = new_machine(&fields, 1, 2, 3);
    assert_eq!((machine.memory_mb, machine.cpu_cores, machine.disk_size_gb), (8192, 6, 100));
    assert_eq!((machine.enable_kvm, machine.uefi, machine.tpm), (true, true, false));
    assert_eq!(
        (machine.display.as_str(), machine.network_model.as_str(), machine.network_backend.as_str()),
        ("spice-app", "e1000", "passt")
    );
}

fn settings(display: &str) -> Settings {
    Settings {
        memory_mb: 4096,
        cpu_cores: 3,
        disk_size_gb: 48,
        display: display.to_string(),
        enable_kvm: false,
        confirm_before_launch: true,
        multi_gpu: false,
        single_gpu: false,
    }
}

#[test]
fn new_machines_begin_with_the_settings() {
    let fields = default_fields(&settings("vnc"));
    let texts = (fields.memory.as_str(), fields.cores.as_str(), fields.disk.as_str());
    assert_eq!(texts, ("4096", "3", "48"));
    assert_eq!((fields.kvm, fields.uefi, fields.tpm), (false, false, false));
    assert_eq!((fields.display, fields.net_model, fields.net_backend), (3, 0, 0));
    let machine = new_machine(&fields, 1, 1, 1);
    assert_eq!((machine.memory_mb, machine.cpu_cores, machine.disk_size_gb), (4096, 3, 48));
    assert_eq!(machine.display, "vnc");
    assert_eq!(default_fields(&settings("curses")).display, 0);
}

#[test]
fn wrong_numbers_fall_back() {
    let mut fields = default_fields(&settings("gtk"));
    fields.memory = "2 GB".to_string();
    fields.disk = "".to_string();
    let machine = new_machine(&fields, 1024, 9, 16);
    assert_eq!((machine.memory_mb, machine.cpu_cores, machine.disk_size_gb), (1024, 3, 16));
}

#[test]
fn the_summary_shows_the_fields() {
    let fields = profile_fields(&profile(), 2);
    assert_eq!(
        summary("win", os_name(Some("windows-11"), Some("Windows 11")), &fields),
        "Name:      win\nOS:        Windows 11\nMemory:    8192 MB\nCPU:       6 cores\nDisk:      100 GB\nKVM:       on\nUEFI:      on\nTPM:       off\nDisplay:   spice-app\nNetwork:   bridge / e1000\n"
    );
    assert_eq!(os_name(Some("windows-11"), None), "windows-11");
    assert_eq!(os_name(None, None), "None");
}

fn found(name: &str, source: ImportSource) -> ImportableVm {
    ImportableVm {
        name: name.to_string(),
        source,
        config_path: format!("/etc/{name}.xml"),
        import_notes: Vec::new(),
    }
}

#[test]
fn machines_are_looked_for_in_one_place() {
    assert_eq!(place(true, false, false, false), Some(Place::Libvirt));
    assert_eq!(place(false, true, false, false), Some(Place::Quickemu));
    assert_eq!(place(false, false, true, true), Some(Place::Directory));
    assert_eq!(place(false, false, true, false), None);
}

#[test]
fn machines_that_were_found_are_kept() {
    let mut all = Found::new();
    let notice = all.searched(Vec::new()).unwrap();
    assert_eq!((notice.text.as_str(), notice.stays), ("No VMs found in the selected location.", true));
    assert!(all.searched(vec![found("a", ImportSource::Libvirt)]).is_none());
    assert!(all.searched(vec![found("b", ImportSource::Quickemu)]).is_none());
    assert_eq!(all.vms.len(), 2);
    assert!(all.target().is_none());
    all.select(Some(1));
    all.select(Some(2));
    all.select(None);
    assert_eq!(all.target().unwrap().name, "b");
    assert_eq!(subtitle(&all.vms[0]), "libvirt · /etc/a.xml");
    assert_eq!(subtitle(&all.vms[1]), "quickemu · /etc/b.xml");
}

#[test]
fn notes_become_warnings() {
    assert_eq!(warnings_text(&Vec::new()), "");
    assert_eq!(warnings_text(&vec!["one".to_string()]), "⚠ Warnings:\n• one");
    assert_eq!(
        warnings_text(&vec!["one".to_string(), "two".to_string()]),
        "⚠ Warnings:\n• one\n• two"
    );
    assert!(name_fits(" a "));
    assert!(!name_fits(" \t"));
}

#[test]
fn disks_are_linked_copied_or_moved() {
    assert_eq!(disk_action(0), DiskAction::Symlink);
    assert_eq!(disk_action(1), DiskAction::Copied);
    assert_eq!(disk_action(2), DiskAction::Moved);
    assert_eq!(disk_action(3), DiskAction::Symlink);
}
