use vm_curator_gtk::overlay::{
    bar_stays, focus_script, focus_script_path, script_object, Hover, HoverEvent, Seen,
    LAUNCH_POLLS,
};
use vm_curator_gtk::process::QemuProcess;
use vm_curator_gtk::task::{report, told, Progress};
use vm_curator_gtk::window::{
    after_launch, btn_section, delete_choice, delete_question, detail_text, embedded_script,
    launch_gate, launch_label, launch_question, new_name, notes_markup, placeholder,
    reset_confirmed, reset_question, row_matches, serves_spice, spice_address, subtitle_text, Buttons, Cell, Launch, LaunchGate, Machine,
    Machines,
};

fn machine(name: &str, disks: &[&str]) -> Machine {
    Machine {
        name: name.to_string(),
        id: format!("{name}-id"),
        path: format!("/vms/{name}").into_bytes(),
        path_text: format!("/vms/{name}"),
        cpu_cores: 4,
        memory_mb: 2048,
        enable_kvm: true,
        disks: disks.iter().map(|d| d.to_string()).collect(),
        notes: None,
    }
}

fn process(pid: u32, dir: &str) -> QemuProcess {
    QemuProcess { pid, cwd: Some(dir.as_bytes().to_vec()) }
}

const NONE: Buttons = Buttons {
    launch: false,
    launch_running: false,
    stop: false,
    pause: false,
    pause_resumes: false,
    force_stop: false,
    snapshots: false,
    others: false,
};

#[test]
fn a_new_list_selects_nothing() {
    let list = Machines::new(vec![machine("a", &[]), machine("b", &["/vms/b/b.qcow2"])]);
    assert_eq!(list.selected, None);
    assert_eq!(list.pids, vec![None, None]);
    assert_eq!(list.paused, vec![false, false]);
    assert_eq!(list.buttons(), NONE);
    assert_eq!(list.stop_target(), None);
    assert_eq!(list.pause_target(), None);
}

#[test]
fn selecting_enables_the_buttons() {
    let mut list = Machines::new(vec![machine("a", &[]), machine("b", &["/vms/b/b.qcow2"])]);
    assert!(list.select(Some(0)));
    assert_eq!(list.buttons(), Buttons { launch: true, others: true, ..NONE });
    assert!(list.select(Some(1)));
    assert_eq!(list.buttons(), Buttons { launch: true, others: true, snapshots: true, ..NONE });
    assert!(!list.select(Some(2)));
    assert_eq!(list.selected, Some(1));
    assert!(list.select(None));
    assert_eq!(list.buttons(), NONE);
}

#[test]
fn a_poll_finds_what_runs() {
    let mut list = Machines::new(vec![machine("a", &[]), machine("b", &[])]);
    list.select(Some(1));
    let (changes, selected) = list.poll(&vec![process(77, "/vms/b"), process(78, "/vms/b")]);
    assert_eq!(changes.len(), 1);
    assert_eq!(changes[0].row, 1);
    assert_eq!(changes[0].subtitle, "Running  ·  PID 77");
    assert!(selected);
    assert_eq!(list.pids, vec![None, Some(77)]);
    assert_eq!(list.stop_target(), Some(77));
    list.set_paused(1, true);
    list.set_paused(0, true);
    assert_eq!(list.paused, vec![false, true]);
    assert_eq!(list.pause_target(), Some((1, true)));
    assert_eq!(
        list.buttons(),
        Buttons {
            launch_running: true,
            stop: true,
            pause: true,
            pause_resumes: true,
            force_stop: true,
            others: true,
            ..NONE
        }
    );
    let (changes, selected) = list.poll(&vec![process(77, "/vms/b")]);
    assert!(changes.is_empty());
    assert!(!selected);
    assert_eq!(list.paused, vec![false, true]);
    let (changes, selected) = list.poll(&vec![process(9, "/vms/a")]);
    assert_eq!(changes.len(), 2);
    assert_eq!(changes[0].subtitle, "Running  ·  PID 9");
    assert_eq!(changes[1].subtitle, "b-id");
    assert!(selected);
    assert_eq!(list.paused, vec![false, false]);
}

#[test]
fn subtitles_and_labels() {
    assert_eq!(subtitle_text("x", None), "x");
    assert_eq!(subtitle_text("x", Some(u32::MAX)), "Running  ·  PID 4294967295");
    assert_eq!(launch_label(true), "Running");
    assert_eq!(launch_label(false), "Launch VM");
}

#[test]
fn notes_are_set_on_listed_machines() {
    let mut list = Machines::new(vec![machine("a", &[])]);
    list.set_notes(0, Some("x".to_string()));
    assert_eq!(list.vms[0].notes.as_deref(), Some("x"));
    list.set_notes(1, Some("y".to_string()));
    assert_eq!(list.vms[0].notes.as_deref(), Some("x"));
    list.set_notes(0, None);
    assert_eq!(list.vms[0].notes, None);
    assert_eq!(notes_markup("a &amp; b"), "<i>a &amp; b</i>");
}

#[test]
fn details_name_the_disks() {
    assert_eq!(
        detail_text(&machine("a", &["/vms/a/1.qcow2", "/vms/a/2.raw"])),
        "<b>a</b>\n\nCores: 4   RAM: 2048 MB   KVM: true\nPath: /vms/a\nDisk: /vms/a/1.qcow2\nDisk: /vms/a/2.raw"
    );
    let mut plain = machine("b", &[]);
    plain.enable_kvm = false;
    assert_eq!(
        detail_text(&plain),
        "<b>b</b>\n\nCores: 4   RAM: 2048 MB   KVM: false\nPath: /vms/b"
    );
}

#[test]
fn spice_is_found_in_the_script() {
    assert!(serves_spice(Some("-spice unix,addr=$VM_DIR/spice.sock")));
    assert!(!serves_spice(Some("-display gtk")));
    assert!(!serves_spice(None));
    assert_eq!(spice_address("/vms/a/spice.sock"), "spice+unix:///vms/a/spice.sock");
}

#[test]
fn the_display_goes_to_the_session_bus() {
    let script = "qemu \\\n  -display gtk,gl=on \\\n  -m 1\n";
    assert_eq!(
        embedded_script(Some(script)).unwrap(),
        "qemu \\\n  -display dbus \\\n  -m 1\n"
    );
    assert_eq!(embedded_script(Some("-spice unix,addr=$VM_DIR/spice.sock")), None);
    assert_eq!(embedded_script(None), None);
}

#[test]
fn the_list_has_a_row_for_each_machine() {
    let mut list = Machines::discovered(Some(vec![machine("b", &[]), machine("a", &[])]));
    let rows = list.rows();
    assert_eq!(rows.len(), 2);
    assert_eq!((rows[0].title.as_str(), rows[0].subtitle.as_str()), ("b", "b-id"));
    assert_eq!((rows[1].title.as_str(), rows[1].subtitle.as_str()), ("a", "a-id"));
    assert_eq!(placeholder(rows.len()), None);
    assert_eq!(list.selected, None);
    list.poll(&vec![process(7, "/vms/a")]);
    assert_eq!(list.rows()[1].subtitle, "Running  ·  PID 7");
    let none = Machines::discovered(None);
    assert!(none.vms.is_empty() && none.rows().is_empty());
    assert_eq!(placeholder(0), Some("No VMs found.\nConfigure vm-curator first."));
}

fn finished(success: bool, error: Option<&str>) -> Launch {
    Launch::Finished { name: "a".to_string(), success, error: error.map(|e| e.to_string()) }
}

#[test]
fn launches_are_reported() {
    let step = after_launch(finished(true, None), false, true);
    assert!(step.started && !step.again && !step.restore && !step.viewer && step.display);
    let notice = step.notice.unwrap();
    assert_eq!((notice.text.as_str(), notice.stays), ("a launched", false));

    let step = after_launch(finished(true, None), true, false);
    assert!(!step.again && !step.restore && step.viewer && !step.display);
    assert_eq!(step.notice.unwrap().text, "a launched — opening SPICE viewer…");

    let step = after_launch(finished(false, Some("no kvm")), true, true);
    assert!(!step.started && !step.again && step.restore && !step.viewer && !step.display);
    let notice = step.notice.unwrap();
    assert_eq!((notice.text.as_str(), notice.stays), ("Failed to launch a: no kvm", true));

    let step = after_launch(finished(false, None), false, false);
    assert_eq!(step.notice.unwrap().text, "Failed to launch a: unknown error");

    let step = after_launch(Launch::Pending, true, true);
    assert!(step.again && !step.started && !step.restore && !step.viewer && !step.display && step.notice.is_none());
    let step = after_launch(Launch::Lost, true, true);
    assert!(!step.again && step.restore && !step.viewer && !step.display && step.notice.is_none());
}

#[test]
fn answers_to_questions() {
    assert_eq!(delete_choice("archive"), Some(false));
    assert_eq!(delete_choice("delete"), Some(true));
    assert_eq!(delete_choice("cancel"), None);
    assert_eq!(new_name("rename", "  b c "), Some("b c".to_string()));
    assert_eq!(new_name("rename", " \t"), None);
    assert_eq!(new_name("cancel", "b"), None);
    assert_eq!(delete_question("a"), "What do you want to do with \"a\"?");
    assert_eq!(
        reset_question("a"),
        "Reset \"a\" to its initial disk state? This cannot be undone."
    );
}

#[test]
fn the_search_ignores_case() {
    assert!(row_matches("", Some("Arch")));
    assert!(row_matches("  ", Some("Arch")));
    assert!(row_matches(" aRc ", Some("MyARCH")));
    assert!(row_matches("ÄRG", Some("ärger")));
    assert!(!row_matches("debian", Some("Arch")));
    assert!(row_matches("debian", None));
}

#[test]
fn a_single_button_spans_both_columns() {
    assert_eq!(
        btn_section(&[2, 1]),
        vec![
            Cell { column: 0, row: 0, span: 1 },
            Cell { column: 1, row: 0, span: 1 },
            Cell { column: 0, row: 1, span: 2 },
        ]
    );
    assert!(btn_section(&[]).is_empty());
    assert!(btn_section(&[0]).is_empty());
}

#[test]
fn work_is_reported() {
    let step = report(Progress::Done, Some("VM deleted."), "Delete failed: ");
    assert!(step.done && !step.again);
    let notice = step.notice.unwrap();
    assert_eq!((notice.text.as_str(), notice.stays), ("VM deleted.", false));
    let step = report(Progress::Done, None, "Save failed: ");
    assert!(step.done && step.notice.is_none());
    let step = report(Progress::Failed("disk full".to_string()), None, "Save failed: ");
    assert!(!step.done && !step.again);
    let notice = step.notice.unwrap();
    assert_eq!((notice.text.as_str(), notice.stays), ("Save failed: disk full", true));
    let step = report(Progress::Pending, Some("x"), "y");
    assert!(step.again && !step.done && step.notice.is_none());
    let step = report(Progress::Lost, Some("x"), "y");
    assert!(!step.again && !step.done && step.notice.is_none());
    let notice = told(Ok(()), "Shutdown signal sent.", "Stop failed: ");
    assert_eq!((notice.text.as_str(), notice.stays), ("Shutdown signal sent.", false));
    let notice = told(Err("gone".to_string()), "Shutdown signal sent.", "Stop failed: ");
    assert_eq!((notice.text.as_str(), notice.stays), ("Stop failed: gone", true));
}

#[test]
fn the_bar_opens_and_closes() {
    let mut bar = Hover::new();
    assert_eq!(bar.handle(HoverEvent::Enter), Some(true));
    assert_eq!(bar.handle(HoverEvent::Leave), None);
    assert_eq!(bar.handle(HoverEvent::Timeout), Some(false));
    assert!(!bar.open);
    bar.handle(HoverEvent::Enter);
    bar.handle(HoverEvent::Leave);
    bar.handle(HoverEvent::Enter);
    assert_eq!(bar.handle(HoverEvent::Timeout), None);
    assert!(bar.open);
    let all = vec![process(3, "/vms/a")];
    assert!(bar_stays(&all, 3));
    assert!(!bar_stays(&all, 4));
}

#[test]
fn a_bar_appears_once_and_only_for_foreign_machines() {
    let mut seen = Seen::new();
    let all = vec![process(3, "/vms/a"), process(4, "/vms/b")];
    seen.launch(b"/vms/b".to_vec());
    assert_eq!(seen.detect(&all, b"/vms/a"), Some(3));
    assert_eq!(seen.detect(&all, b"/vms/a"), None);
    assert_eq!(seen.detect(&all, b"/vms/b"), None);
    seen.launch_ended(b"/vms/b");
    assert_eq!(seen.detect(&all, b"/vms/b"), None);
    assert_eq!(seen.detect(&all, b"/vms/c"), None);
    assert_eq!(seen.detect(&vec![process(5, "/vms/b")], b"/vms/b"), Some(5));
    assert_eq!(seen.pids, vec![3, 4, 5]);
    assert!(seen.launching.is_empty());
}

#[test]
fn a_number_that_comes_again_is_a_new_process() {
    let mut seen = Seen::new();
    let all = vec![process(3, "/vms/a"), process(4, "/vms/b")];
    assert_eq!(seen.detect(&all, b"/vms/a"), Some(3));
    assert_eq!(seen.detect(&all, b"/vms/b"), Some(4));
    seen.forget_ended(&vec![process(4, "/vms/b")]);
    assert_eq!(seen.pids, vec![4]);
    assert_eq!(seen.detect(&all, b"/vms/b"), None);
    assert_eq!(seen.detect(&all, b"/vms/a"), Some(3));
}

#[test]
fn a_launch_is_waited_for_during_some_polls() {
    let mut seen = Seen::new();
    seen.launch(b"/vms/a".to_vec());
    seen.launch(b"/vms/b".to_vec());
    seen.launch_succeeded(b"/vms/a");
    let mut poll = 0;
    while poll < LAUNCH_POLLS {
        seen.poll_ended();
        poll += 1;
    }
    assert_eq!(seen.launching.len(), 2);
    assert_eq!(seen.launching[0].polls, Some(0));
    seen.poll_ended();
    assert_eq!(seen.launching.len(), 1);
    assert_eq!(seen.launching[0].dir, b"/vms/b".to_vec());
    assert_eq!(seen.launching[0].polls, None);
    let all = vec![process(3, "/vms/a"), process(4, "/vms/b")];
    assert_eq!(seen.detect(&all, b"/vms/a"), Some(3));
    assert_eq!(seen.detect(&all, b"/vms/b"), None);
}

#[test]
fn the_focus_script_names_the_process() {
    assert_eq!(
        focus_script(42),
        "var ws = workspace.windowList(); for (var i = 0; i < ws.length; i++) { if (ws[i].pid === 42) { workspace.activeWindow = ws[i]; break; } }"
    );
    assert_eq!(focus_script_path(42), "/tmp/.vm-curator-fs-42.js");
    assert_eq!(script_object(" 7\n"), Some("/Scripting/Script7".to_string()));
    assert_eq!(script_object("\n"), None);
}

#[test]
fn launches_are_confirmed_if_asked_for() {
    assert_eq!(launch_gate(false, None), LaunchGate::Start);
    assert_eq!(launch_gate(true, None), LaunchGate::Ask);
    assert_eq!(launch_gate(true, Some("launch")), LaunchGate::Start);
    assert_eq!(launch_gate(true, Some("cancel")), LaunchGate::Drop);
    assert_eq!(launch_question("arch"), "Launch \"arch\"?");
    assert!(reset_confirmed("reset") && !reset_confirmed("cancel"));
}
