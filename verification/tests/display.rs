use vm_curator_gtk::display_dialog::{
    apply_display, apply_spice, backend_at, backend_position, is_spice, parse_display,
    remove_spice_add_display,
};

const SCRIPT: &str = "#!/bin/bash\nVM_DIR=/vms/a\nqemu-system-x86_64 \\\n    -m 2048 \\\n    -display gtk,gl=on \\\n    -cpu host\n";

fn settings(b: &str, gl: bool, full: bool) -> (String, bool, bool) {
    (b.to_string(), gl, full)
}

#[test]
fn settings_are_read_from_the_first_display_line() {
    assert_eq!(parse_display(SCRIPT), settings("gtk", true, false));
    assert_eq!(parse_display("-display sdl,full-screen=on"), settings("sdl", false, true));
    assert_eq!(
        parse_display("  -display vnc,gl=on,full-screen=on \\\n-display none"),
        settings("vnc", true, true)
    );
    assert_eq!(parse_display("-display none\\"), settings("none", false, false));
}

#[test]
fn a_script_without_a_display_reads_as_gtk() {
    assert_eq!(parse_display(""), settings("gtk", false, false));
    assert_eq!(parse_display("qemu -display sdl"), settings("gtk", false, false));
    assert_eq!(parse_display("-display ,gl=on"), settings("gtk", false, false));
    assert_eq!(parse_display("-display \n-display sdl"), settings("sdl", false, false));
}

#[test]
fn a_script_with_the_socket_reads_as_spice() {
    let s = "-display gtk\n-spice unix,addr=$VM_DIR/spice.sock,disable-ticketing \\\n";
    assert_eq!(parse_display(s), settings("spice", false, false));
}

#[test]
fn written_settings_read_back() {
    for b in ["gtk", "sdl", "spice-app", "vnc", "none"] {
        for gl in [false, true] {
            for full in [false, true] {
                let s = apply_display(SCRIPT, b, gl, full);
                assert_eq!(parse_display(&s), settings(b, gl, full));
            }
        }
    }
}

#[test]
fn the_value_is_replaced_in_place() {
    assert_eq!(
        apply_display(SCRIPT, "sdl", false, true),
        SCRIPT.replace("-display gtk,gl=on", "-display sdl,full-screen=on")
    );
    assert_eq!(apply_display("a -display x -display y\\z", "gtk", true, true),
        "a -display gtk,gl=on,full-screen=on -display gtk,gl=on,full-screen=on\\z");
    assert_eq!(apply_display("-display ", "gtk", false, false), "-display gtk");
    assert_eq!(apply_display("no display here\r\n", "gtk", false, false), "no display here\r\n");
}

#[test]
fn the_last_write_stands() {
    let once = apply_display(SCRIPT, "vnc", false, false);
    let twice = apply_display(&apply_display(SCRIPT, "gtk", true, true), "vnc", false, false);
    assert_eq!(once, twice);
    assert_eq!(apply_display(&once, "vnc", false, false), once);
}

#[test]
fn spice_takes_the_place_of_the_display() {
    let s = apply_display(SCRIPT, "spice", true, true);
    assert_eq!(s, "#!/bin/bash\nVM_DIR=/vms/a\nqemu-system-x86_64 \\\n    -m 2048 \\\n        -spice unix,addr=$VM_DIR/spice.sock,disable-ticketing \\\n        -device virtio-serial \\\n        -chardev spicevmc,id=vdagent,name=vdagent \\\n        -device virtserialport,chardev=vdagent,name=com.redhat.spice.0 \\\n    -cpu host\n");
    assert_eq!(parse_display(&s), settings("spice", false, false));
    assert_eq!(apply_spice(&s), s);
    assert_eq!(apply_spice("-display gtk"), "        -spice unix,addr=$VM_DIR/spice.sock,disable-ticketing \\\n        -device virtio-serial \\\n        -chardev spicevmc,id=vdagent,name=vdagent \\\n        -device virtserialport,chardev=vdagent,name=com.redhat.spice.0 \\");
}

#[test]
fn spice_goes_and_a_display_comes_back() {
    let s = apply_spice(SCRIPT);
    for b in ["gtk", "sdl", "spice-app", "vnc", "none"] {
        let back = apply_display(&s, b, true, false);
        assert_eq!(parse_display(&back), settings(b, true, false));
        assert!(!back.contains("spice.sock"));
    }
    assert_eq!(
        apply_display(&s, "sdl", true, true),
        SCRIPT.replace("    -display gtk,gl=on", "        -display sdl,gl=on,full-screen=on")
    );
    assert_eq!(remove_spice_add_display(&s, "sdl", true, true), apply_display(&s, "sdl", true, true));
}

#[test]
fn a_script_without_spice_lines_stays() {
    assert_eq!(remove_spice_add_display("a\nb", "gtk", false, false), "a\nb");
    assert_eq!(remove_spice_add_display("a\n-spice x\nb\n-device virtio-serial-pci\n", "gtk", false, false),
        "a\n        -display gtk \\\nb\n");
}

#[test]
fn backends_have_positions() {
    let all = ["gtk", "sdl", "spice-app", "vnc", "none", "spice"];
    for (i, b) in all.iter().enumerate() {
        assert_eq!(backend_position(b), i as u32);
        assert_eq!(backend_at(i as u32), *b);
        assert_eq!(is_spice(i as u32), *b == "spice");
    }
    assert_eq!(backend_position("curses"), 0);
    assert_eq!(backend_at(6), "gtk");
    assert!(!is_spice(6));
}

#[test]
fn other_lines_stay() {
    let written = apply_display(SCRIPT, "vnc", true, true);
    for (before, after) in SCRIPT.lines().zip(written.lines()) {
        assert_eq!(before == after, !before.contains("-display "));
    }
    assert_eq!(SCRIPT.lines().count(), written.lines().count());
}

#[test]
fn the_text_of_spice_and_back() {
    // The first line that names a display or serves SPICE holds the new display, and the
    // others of these are gone.
    let script = "a\n-device virtio-serial\n-display gtk\nb\n-display sdl\nc";
    assert_eq!(
        apply_display(&apply_spice(script), "vnc", false, false),
        "a\n        -display vnc \\\nb\nc"
    );
    // Carriage returns before line feeds are taken off, twice.
    assert_eq!(
        apply_display(&apply_spice("a\r\r\n-display gtk\r\nb\r"), "vnc", false, false),
        "a\n        -display vnc \\\nb\r"
    );
}

#[test]
fn spice_twice_is_once() {
    for script in ["", "\n", "a\nb\n", "a\n\n", "a\r\nb", "x\r", SCRIPT, "-display gtk\r\r\n"] {
        let once = apply_spice(script);
        assert_eq!(apply_spice(&once), once, "{script:?}");
    }
    assert_eq!(apply_spice("a\nb"), "a\nb");
    assert_ne!(apply_spice(&apply_spice("a\r\r\r\n")), apply_spice("a\r\r\r\n"));
}
