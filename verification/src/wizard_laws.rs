//! What the operations of the wizards do.
use crate::create_wizard;
use crate::create_wizard::{
    default_fields, display_at, display_position, displays, first_step_lacks, install_image,
    net_backends, net_model_at, net_model_position, net_models, new_machine, os_matches, os_name,
    profile_fields, summary, CreateClick, Creation, Fields, Media, Missing, NewMachine, Profile,
};
use crate::import_wizard;
use crate::import_wizard::{
    disk_action, name_fits, place, warnings_text, DiskAction, Found, ImportClick, ImportSource,
    ImportableVm, Importing, Place,
};
use crate::numbers::{decimal, parse_u32};
use crate::settings::Settings;
use crate::task::{Notice, Progress, Step};
use crate::text::{lines, lowercase, name_at, position, texts, trim};
use crate::text_laws::{
    all_space, join_puts_separators_between, lines_end_at_line_feeds,
    nothing_is_left_of_white_space, part_stands_between,
};
use crate::wizard::{Click, NextLabel, Wizard};
use vstd::prelude::*;

verus! {

/// The summary agrees with the machine that the same fields ask for: KVM, UEFI and TPM are on
/// exactly if the machine has them, and display, network backend and network adapter are those
/// of the machine. The name, the operating system and the three numbers are told as entered.
pub proof fn summary_tells_the_machine(
    name: &str,
    os: &str,
    fields: Fields,
    memory: u32,
    cores: u32,
    disk: u32,
    machine: NewMachine,
    res: String,
)
    requires
        call_ensures(new_machine, (&fields, memory, cores, disk), machine),
        call_ensures(summary, (name, os, &fields), res),
    ensures
        res@ == "Name:      "@ + name@ + "\nOS:        "@ + os@ + "\nMemory:    "@ + fields.memory@
            + " MB\nCPU:       "@ + fields.cores@ + " cores\nDisk:      "@ + fields.disk@
            + " GB\nKVM:       "@ + (if machine.enable_kvm {
            "on"@
        } else {
            "off"@
        }) + "\nUEFI:      "@ + (if machine.uefi {
            "on"@
        } else {
            "off"@
        }) + "\nTPM:       "@ + (if machine.tpm {
            "on"@
        } else {
            "off"@
        }) + "\nDisplay:   "@ + machine.display@ + "\nNetwork:   "@ + machine.network_backend@
            + " / "@ + machine.network_model@ + "\n"@,
{
}

/// The text without line feeds.
spec fn one_line(s: Seq<char>) -> bool {
    !s.contains('\n')
}

proof fn lemma_one_line(a: Seq<char>, b: Seq<char>)
    requires
        one_line(a),
        one_line(b),
    ensures
        one_line(a + b),
{
    if (a + b).contains('\n') {
        let i = choose|i: int| 0 <= i < (a + b).len() && (a + b)[i] == '\n';
        if i < a.len() {
            assert(a[i] == '\n');
        } else {
            assert(b[i - a.len()] == '\n');
        }
    }
}

/// What a switch is shown as.
spec fn shown_switch(b: bool) -> Seq<char> {
    if b {
        "on"@
    } else {
        "off"@
    }
}

proof fn lemma_switch(b: bool)
    ensures
        one_line(shown_switch(b)),
        shown_switch(b).len() > 0,
        shown_switch(b).last() != '\r',
{
    reveal_strlit("on");
    reveal_strlit("off");
}

proof fn lemma_names(f: Fields)
    ensures
        one_line(name_at(displays(), f.display)),
        name_at(displays(), f.display).len() > 0,
        name_at(displays(), f.display).last() != '\r',
        one_line(name_at(net_models(), f.net_model)),
        name_at(net_models(), f.net_model).len() > 0,
        name_at(net_models(), f.net_model).last() != '\r',
        one_line(name_at(net_backends(), f.net_backend)),
{
    reveal_strlit("gtk");
    reveal_strlit("sdl");
    reveal_strlit("spice-app");
    reveal_strlit("vnc");
    reveal_strlit("none");
    reveal_strlit("virtio-net-pci");
    reveal_strlit("e1000");
    reveal_strlit("rtl8139");
    reveal_strlit("user");
    reveal_strlit("passt");
    reveal_strlit("bridge");
}

/// A line that does not end in a carriage return, and the lines behind it.
proof fn lemma_line(head: Seq<char>, text: Seq<char>, tail: Seq<char>, rest: Seq<char>)
    requires
        one_line(head),
        one_line(text),
        one_line(tail),
        tail.len() > 0 ==> tail.last() != '\r',
        tail.len() == 0 ==> text.len() > 0 && text.last() != '\r',
    ensures
        lines((head + text + tail) + seq!['\n'] + rest) == seq![head + text + tail] + lines(rest),
{
    lemma_one_line(head, text);
    lemma_one_line(head + text, tail);
    if tail.len() > 0 {
        assert((head + text + tail).last() == tail.last());
    } else {
        assert((head + text + tail).last() == text.last());
    }
    lines_end_at_line_feeds(head + text + tail, rest);
}

/// A line that begins in the middle of a literal, moved to what stands before it.
proof fn lemma_next_line(
    before: Seq<char>,
    tail: Seq<char>,
    joint: Seq<char>,
    head: Seq<char>,
    text: Seq<char>,
    next_tail: Seq<char>,
    rest: Seq<char>,
)
    requires
        joint == tail + seq!['\n'] + head,
    ensures
        before + tail + seq!['\n'] + ((head + text + next_tail) + seq!['\n'] + rest) == (before
            + joint + text) + next_tail + seq!['\n'] + rest,
{
    assert(before + tail + seq!['\n'] + ((head + text + next_tail) + seq!['\n'] + rest) =~= (before
        + joint + text) + next_tail + seq!['\n'] + rest);
}

/// What is shown of the network, one text behind the other.
proof fn lemma_three(a: Seq<char>, x: Seq<char>, y: Seq<char>, z: Seq<char>)
    ensures
        a + (x + y + z) == a + x + y + z,
{
    assert(a + (x + y + z) =~= a + x + y + z);
}

proof fn lemma_nothing(a: Seq<char>)
    ensures
        a + Seq::<char>::empty() == a,
{
    assert(a + Seq::<char>::empty() =~= a);
}

/// The literals of the summary, taken apart at their line feeds.
proof fn lemma_literals()
    ensures
        ({
            let nl = seq!['\n'];
            let none = Seq::<char>::empty();
            &&& "\nOS:        "@ == none + nl + "OS:        "@
            &&& "\nMemory:    "@ == none + nl + "Memory:    "@
            &&& " MB\nCPU:       "@ == " MB"@ + nl + "CPU:       "@
            &&& " cores\nDisk:      "@ == " cores"@ + nl + "Disk:      "@
            &&& " GB\nKVM:       "@ == " GB"@ + nl + "KVM:       "@
            &&& "\nUEFI:      "@ == none + nl + "UEFI:      "@
            &&& "\nTPM:       "@ == none + nl + "TPM:       "@
            &&& "\nDisplay:   "@ == none + nl + "Display:   "@
            &&& "\nNetwork:   "@ == none + nl + "Network:   "@
            &&& "\n"@ == nl
        }),
{
    let nl = seq!['\n'];
    let none = Seq::<char>::empty();
    assert("\nOS:        "@ =~= none + nl + "OS:        "@) by {
        reveal_strlit("\nOS:        ");
        reveal_strlit("OS:        ");
    }
    assert("\nMemory:    "@ =~= none + nl + "Memory:    "@) by {
        reveal_strlit("\nMemory:    ");
        reveal_strlit("Memory:    ");
    }
    assert(" MB\nCPU:       "@ =~= " MB"@ + nl + "CPU:       "@) by {
        reveal_strlit(" MB\nCPU:       ");
        reveal_strlit(" MB");
        reveal_strlit("CPU:       ");
    }
    assert(" cores\nDisk:      "@ =~= " cores"@ + nl + "Disk:      "@) by {
        reveal_strlit(" cores\nDisk:      ");
        reveal_strlit(" cores");
        reveal_strlit("Disk:      ");
    }
    assert(" GB\nKVM:       "@ =~= " GB"@ + nl + "KVM:       "@) by {
        reveal_strlit(" GB\nKVM:       ");
        reveal_strlit(" GB");
        reveal_strlit("KVM:       ");
    }
    assert("\nUEFI:      "@ =~= none + nl + "UEFI:      "@) by {
        reveal_strlit("\nUEFI:      ");
        reveal_strlit("UEFI:      ");
    }
    assert("\nTPM:       "@ =~= none + nl + "TPM:       "@) by {
        reveal_strlit("\nTPM:       ");
        reveal_strlit("TPM:       ");
    }
    assert("\nDisplay:   "@ =~= none + nl + "Display:   "@) by {
        reveal_strlit("\nDisplay:   ");
        reveal_strlit("Display:   ");
    }
    assert("\nNetwork:   "@ =~= none + nl + "Network:   "@) by {
        reveal_strlit("\nNetwork:   ");
        reveal_strlit("Network:   ");
    }
    assert("\n"@ =~= nl) by {
        reveal_strlit("\n");
    }
}

/// No heading of the summary holds a line feed.
proof fn lemma_headings()
    ensures
        one_line("Name:      "@) && one_line("OS:        "@) && one_line("Memory:    "@),
        one_line("CPU:       "@) && one_line("Disk:      "@) && one_line("KVM:       "@),
        one_line("UEFI:      "@) && one_line("TPM:       "@) && one_line("Display:   "@),
        one_line("Network:   "@) && one_line(" / "@),
        one_line(" MB"@) && " MB"@.len() > 0 && " MB"@.last() != '\r',
        one_line(" cores"@) && " cores"@.len() > 0 && " cores"@.last() != '\r',
        one_line(" GB"@) && " GB"@.len() > 0 && " GB"@.last() != '\r',
{
    reveal_strlit("Name:      ");
    reveal_strlit("OS:        ");
    reveal_strlit("Memory:    ");
    reveal_strlit("CPU:       ");
    reveal_strlit("Disk:      ");
    reveal_strlit("KVM:       ");
    reveal_strlit("UEFI:      ");
    reveal_strlit("TPM:       ");
    reveal_strlit("Display:   ");
    reveal_strlit("Network:   ");
    reveal_strlit(" / ");
    reveal_strlit(" MB");
    reveal_strlit(" cores");
    reveal_strlit(" GB");
}

/// The two texts are the same.
spec fn same(a: Seq<char>, b: Seq<char>) -> bool {
    a == b
}

/// A summary as it stands line by line.
struct SummaryParts {
    name: Seq<char>,
    os: Seq<char>,
    memory: Seq<char>,
    cores: Seq<char>,
    disk: Seq<char>,
    kvm: Seq<char>,
    uefi: Seq<char>,
    tpm: Seq<char>,
    display: Seq<char>,
    network: Seq<char>,
}

impl SummaryParts {
    /// The lines from the Network line on, each with its line feed.
    spec fn from_network(self) -> Seq<char> {
        ("Network:   "@ + self.network + Seq::<char>::empty()) + seq!['\n'] + Seq::<char>::empty()
    }

    spec fn from_display(self) -> Seq<char> {
        ("Display:   "@ + self.display + Seq::<char>::empty()) + seq!['\n'] + self.from_network()
    }

    spec fn from_tpm(self) -> Seq<char> {
        ("TPM:       "@ + self.tpm + Seq::<char>::empty()) + seq!['\n'] + self.from_display()
    }

    spec fn from_uefi(self) -> Seq<char> {
        ("UEFI:      "@ + self.uefi + Seq::<char>::empty()) + seq!['\n'] + self.from_tpm()
    }

    spec fn from_kvm(self) -> Seq<char> {
        ("KVM:       "@ + self.kvm + Seq::<char>::empty()) + seq!['\n'] + self.from_uefi()
    }

    spec fn from_disk(self) -> Seq<char> {
        ("Disk:      "@ + self.disk + " GB"@) + seq!['\n'] + self.from_kvm()
    }

    spec fn from_cores(self) -> Seq<char> {
        ("CPU:       "@ + self.cores + " cores"@) + seq!['\n'] + self.from_disk()
    }

    spec fn from_memory(self) -> Seq<char> {
        ("Memory:    "@ + self.memory + " MB"@) + seq!['\n'] + self.from_cores()
    }

    spec fn from_os(self) -> Seq<char> {
        ("OS:        "@ + self.os + Seq::<char>::empty()) + seq!['\n'] + self.from_memory()
    }

    spec fn from_name(self) -> Seq<char> {
        ("Name:      "@ + self.name + Seq::<char>::empty()) + seq!['\n'] + self.from_os()
    }

    /// The summary as one text.
    spec fn text(self) -> Seq<char> {
        "Name:      "@ + self.name + "\nOS:        "@ + self.os + "\nMemory:    "@ + self.memory
            + " MB\nCPU:       "@ + self.cores + " cores\nDisk:      "@ + self.disk
            + " GB\nKVM:       "@ + self.kvm + "\nUEFI:      "@ + self.uefi + "\nTPM:       "@
            + self.tpm + "\nDisplay:   "@ + self.display + "\nNetwork:   "@ + self.network + "\n"@
    }

    /// Each part stays on its line.
    spec fn clean(self) -> bool {
        &&& one_line(self.name) && self.name.len() > 0 && self.name.last() != '\r'
        &&& one_line(self.os) && self.os.len() > 0 && self.os.last() != '\r'
        &&& one_line(self.memory)
        &&& one_line(self.cores)
        &&& one_line(self.disk)
        &&& one_line(self.kvm) && self.kvm.len() > 0 && self.kvm.last() != '\r'
        &&& one_line(self.uefi) && self.uefi.len() > 0 && self.uefi.last() != '\r'
        &&& one_line(self.tpm) && self.tpm.len() > 0 && self.tpm.last() != '\r'
        &&& one_line(self.display) && self.display.len() > 0 && self.display.last() != '\r'
        &&& one_line(self.network) && self.network.len() > 0 && self.network.last() != '\r'
    }
}

/// The text is that of the lines.
proof fn lemma_summary_text(p: SummaryParts)
    ensures
        same(p.text(), p.from_name()),
{
    let none = Seq::<char>::empty();
    let t1 = "Name:      "@ + p.name;
    let t2 = t1 + "\nOS:        "@ + p.os;
    let t3 = t2 + "\nMemory:    "@ + p.memory;
    let t4 = t3 + " MB\nCPU:       "@ + p.cores;
    let t5 = t4 + " cores\nDisk:      "@ + p.disk;
    let t6 = t5 + " GB\nKVM:       "@ + p.kvm;
    let t7 = t6 + "\nUEFI:      "@ + p.uefi;
    let t8 = t7 + "\nTPM:       "@ + p.tpm;
    let t9 = t8 + "\nDisplay:   "@ + p.display;
    let t10 = t9 + "\nNetwork:   "@ + p.network;
    lemma_literals();
    lemma_next_line(t1, none, "\nOS:        "@, "OS:        "@, p.os, none, p.from_memory());
    lemma_next_line(
        t2,
        none,
        "\nMemory:    "@,
        "Memory:    "@,
        p.memory,
        " MB"@,
        p.from_cores(),
    );
    lemma_next_line(
        t3,
        " MB"@,
        " MB\nCPU:       "@,
        "CPU:       "@,
        p.cores,
        " cores"@,
        p.from_disk(),
    );
    lemma_next_line(
        t4,
        " cores"@,
        " cores\nDisk:      "@,
        "Disk:      "@,
        p.disk,
        " GB"@,
        p.from_kvm(),
    );
    lemma_next_line(t5, " GB"@, " GB\nKVM:       "@, "KVM:       "@, p.kvm, none, p.from_uefi());
    lemma_next_line(t6, none, "\nUEFI:      "@, "UEFI:      "@, p.uefi, none, p.from_tpm());
    lemma_next_line(t7, none, "\nTPM:       "@, "TPM:       "@, p.tpm, none, p.from_display());
    lemma_next_line(
        t8,
        none,
        "\nDisplay:   "@,
        "Display:   "@,
        p.display,
        none,
        p.from_network(),
    );
    lemma_next_line(t9, none, "\nNetwork:   "@, "Network:   "@, p.network, none, none);
    lemma_nothing(t10);
    lemma_nothing(t10 + seq!['\n']);
}

/// The lines of the text.
proof fn lemma_summary_lines(p: SummaryParts)
    requires
        p.clean(),
    ensures
        lines(p.from_name()) == seq![
            "Name:      "@ + p.name,
            "OS:        "@ + p.os,
            "Memory:    "@ + p.memory + " MB"@,
            "CPU:       "@ + p.cores + " cores"@,
            "Disk:      "@ + p.disk + " GB"@,
            "KVM:       "@ + p.kvm,
            "UEFI:      "@ + p.uefi,
            "TPM:       "@ + p.tpm,
            "Display:   "@ + p.display,
            "Network:   "@ + p.network,
        ],
{
    let none = Seq::<char>::empty();
    lemma_headings();
    lemma_line("Network:   "@, p.network, none, none);
    lemma_line("Display:   "@, p.display, none, p.from_network());
    lemma_line("TPM:       "@, p.tpm, none, p.from_display());
    lemma_line("UEFI:      "@, p.uefi, none, p.from_tpm());
    lemma_line("KVM:       "@, p.kvm, none, p.from_uefi());
    lemma_line("Disk:      "@, p.disk, " GB"@, p.from_kvm());
    lemma_line("CPU:       "@, p.cores, " cores"@, p.from_disk());
    lemma_line("Memory:    "@, p.memory, " MB"@, p.from_cores());
    lemma_line("OS:        "@, p.os, none, p.from_memory());
    lemma_line("Name:      "@, p.name, none, p.from_os());
    lines_end_at_line_feeds(none, none);
    assert(lines(none) =~= Seq::empty());
    lemma_nothing("Name:      "@ + p.name);
    lemma_nothing("OS:        "@ + p.os);
    lemma_nothing("KVM:       "@ + p.kvm);
    lemma_nothing("UEFI:      "@ + p.uefi);
    lemma_nothing("TPM:       "@ + p.tpm);
    lemma_nothing("Display:   "@ + p.display);
    lemma_nothing("Network:   "@ + p.network);
}

/// The lines of the summary, where what was entered holds no line feed and name and operating
/// system do not end in a carriage return: each thing has a line of its own, and each of the
/// last five says what the machine to be created has.
pub proof fn summary_lines_tell_the_machine(
    name: &str,
    os: &str,
    fields: Fields,
    memory: u32,
    cores: u32,
    disk: u32,
    machine: NewMachine,
    res: String,
)
    requires
        !name@.contains('\n') && name@.len() > 0 && name@.last() != '\r',
        !os@.contains('\n') && os@.len() > 0 && os@.last() != '\r',
        !fields.memory@.contains('\n'),
        !fields.cores@.contains('\n'),
        !fields.disk@.contains('\n'),
        call_ensures(new_machine, (&fields, memory, cores, disk), machine),
        call_ensures(summary, (name, os, &fields), res),
    ensures
        lines(res@) == seq![
            "Name:      "@ + name@,
            "OS:        "@ + os@,
            "Memory:    "@ + fields.memory@ + " MB"@,
            "CPU:       "@ + fields.cores@ + " cores"@,
            "Disk:      "@ + fields.disk@ + " GB"@,
            "KVM:       "@ + (if machine.enable_kvm {
                "on"@
            } else {
                "off"@
            }),
            "UEFI:      "@ + (if machine.uefi {
                "on"@
            } else {
                "off"@
            }),
            "TPM:       "@ + (if machine.tpm {
                "on"@
            } else {
                "off"@
            }),
            "Display:   "@ + machine.display@,
            "Network:   "@ + machine.network_backend@ + " / "@ + machine.network_model@,
        ],
{
    let backend = name_at(net_backends(), fields.net_backend);
    let model = name_at(net_models(), fields.net_model);
    let p = SummaryParts {
        name: name@,
        os: os@,
        memory: fields.memory@,
        cores: fields.cores@,
        disk: fields.disk@,
        kvm: shown_switch(fields.kvm),
        uefi: shown_switch(fields.uefi),
        tpm: shown_switch(fields.tpm),
        display: name_at(displays(), fields.display),
        network: backend + " / "@ + model,
    };
    assert(p.clean()) by {
        lemma_headings();
        lemma_switch(fields.kvm);
        lemma_switch(fields.uefi);
        lemma_switch(fields.tpm);
        lemma_names(fields);
        lemma_one_line(backend, " / "@);
        lemma_one_line(backend + " / "@, model);
        assert(p.network.last() == model.last());
    }
    lemma_summary_text(p);
    lemma_summary_lines(p);
    lemma_three("Network:   "@, backend, " / "@, model);
    assert(same(res@, p.text())) by {
        let before = "Name:      "@ + name@ + "\nOS:        "@ + os@ + "\nMemory:    "@
            + fields.memory@ + " MB\nCPU:       "@ + fields.cores@ + " cores\nDisk:      "@
            + fields.disk@ + " GB\nKVM:       "@ + p.kvm + "\nUEFI:      "@ + p.uefi
            + "\nTPM:       "@ + p.tpm + "\nDisplay:   "@ + p.display + "\nNetwork:   "@;
        lemma_three(before, backend, " / "@, model);
    }
}

/// The machine that is created has the switches as they are set, and each number that can be
/// read from its text; the one that cannot is what stands for it.
pub proof fn machine_is_what_the_fields_say(
    fields: Fields,
    memory: u32,
    cores: u32,
    disk: u32,
    res: NewMachine,
    text: &str,
    number: Option<u32>,
)
    requires
        call_ensures(new_machine, (&fields, memory, cores, disk), res),
        call_ensures(parse_u32, (text,), number),
    ensures
        res.enable_kvm == fields.kvm,
        res.uefi == fields.uefi,
        res.tpm == fields.tpm,
        text@ == fields.memory@ ==> res.memory_mb == (match number {
            Some(n) => n,
            None => memory,
        }),
        text@ == fields.cores@ ==> res.cpu_cores == (match number {
            Some(n) => n,
            None => cores,
        }),
        text@ == fields.disk@ ==> res.disk_size_gb == (match number {
            Some(n) => n,
            None => disk,
        }),
{
}

/// The lists of the machine that is created are those of the positions.
pub proof fn machine_is_what_the_lists_say(
    fields: Fields,
    memory: u32,
    cores: u32,
    disk: u32,
    res: NewMachine,
)
    requires
        call_ensures(new_machine, (&fields, memory, cores, disk), res),
    ensures
        res.display@ == (match fields.display {
            1 => "sdl"@,
            2 => "spice-app"@,
            3 => "vnc"@,
            4 => "none"@,
            _ => "gtk"@,
        }),
        res.network_model@ == (match fields.net_model {
            1 => "e1000"@,
            2 => "rtl8139"@,
            3 => "none"@,
            _ => "virtio-net-pci"@,
        }),
        res.network_backend@ == (match fields.net_backend {
            1 => "passt"@,
            2 => "bridge"@,
            3 => "none"@,
            _ => "user"@,
        }),
{
}

/// The name at the position of a name in the list is that name, and the position of the name
/// at a position is that position.
pub proof fn display_positions_are_those_of_names(
    name: &str,
    at: u32,
    shown: &'static str,
    index: u32,
    there: &'static str,
    back: u32,
)
    requires
        call_ensures(display_position, (name,), at),
        call_ensures(display_at, (at,), shown),
        index < 5,
        call_ensures(display_at, (index,), there),
        call_ensures(display_position, (there,), back),
    ensures
        name@ == "gtk"@ || name@ == "sdl"@ || name@ == "spice-app"@ || name@ == "vnc"@ || name@
            == "none"@ ==> shown@ == name@,
        back == index,
{
    reveal_with_fuel(position, 6);
    reveal_strlit("gtk");
    reveal_strlit("sdl");
    reveal_strlit("spice-app");
    reveal_strlit("vnc");
    reveal_strlit("none");
    assert("gtk"@[0] == 'g' && "sdl"@[0] == 's' && "vnc"@[0] == 'v' && "none"@[0] == 'n');
    assert("spice-app"@.len() == 9 && "sdl"@.len() == 3 && "gtk"@.len() == 3);
}

/// The same of the network adapters.
pub proof fn adapter_positions_are_those_of_names(
    name: &str,
    at: u32,
    shown: &'static str,
    index: u32,
    there: &'static str,
    back: u32,
)
    requires
        call_ensures(net_model_position, (name,), at),
        call_ensures(net_model_at, (at,), shown),
        index < 4,
        call_ensures(net_model_at, (index,), there),
        call_ensures(net_model_position, (there,), back),
    ensures
        name@ == "virtio-net-pci"@ || name@ == "e1000"@ || name@ == "rtl8139"@ || name@ == "none"@
            ==> shown@ == name@,
        back == index,
{
    reveal_with_fuel(position, 5);
    reveal_strlit("virtio-net-pci");
    reveal_strlit("e1000");
    reveal_strlit("rtl8139");
    reveal_strlit("none");
    assert("virtio-net-pci"@[0] == 'v' && "e1000"@[0] == 'e' && "rtl8139"@[0] == 'r'
        && "none"@[0] == 'n');
}

/// The fields at first are those of the settings, each in its own place.
pub proof fn first_fields_are_the_settings(
    settings: Settings,
    res: Fields,
    shown: &str,
    at: u32,
)
    requires
        call_ensures(default_fields, (&settings,), res),
        shown@ == settings.display@,
        call_ensures(display_position, (shown,), at),
    ensures
        res.memory@ == decimal(settings.memory_mb as int),
        res.cores@ == decimal(settings.cpu_cores as int),
        res.disk@ == decimal(settings.disk_size_gb as int),
        res.kvm == settings.enable_kvm,
        !res.uefi,
        !res.tpm,
        res.display == at,
        res.net_model == 0,
        res.net_backend == 0,
{
}

/// The fields after a choice are those of the profile, each in its own place, and the network
/// backend stays.
pub proof fn chosen_fields_are_the_profile(
    profile: Profile,
    net_backend: u32,
    res: Fields,
    shown: &str,
    at: u32,
    adapter: &str,
    adapter_at: u32,
)
    requires
        call_ensures(profile_fields, (&profile, net_backend), res),
        shown@ == profile.display@,
        call_ensures(display_position, (shown,), at),
        adapter@ == profile.network_model@,
        call_ensures(net_model_position, (adapter,), adapter_at),
    ensures
        res.memory@ == decimal(profile.memory_mb as int),
        res.cores@ == decimal(profile.cpu_cores as int),
        res.disk@ == decimal(profile.disk_size_gb as int),
        res.kvm == profile.enable_kvm,
        res.uefi == profile.uefi,
        res.tpm == profile.tpm,
        res.display == at,
        res.net_model == adapter_at,
        res.net_backend == net_backend,
{
}

/// The first step lacks a name where the name is all white space, and else an operating system
/// where none is selected.
pub proof fn first_step_needs_name_and_system(name: &str, os_selected: bool, res: Option<Missing>)
    requires
        call_ensures(first_step_lacks, (name, os_selected), res),
    ensures
        res == Some(Missing::Name) <==> all_space(name@),
        res == Some(Missing::Os) <==> !all_space(name@) && !os_selected,
        res is None <==> !all_space(name@) && os_selected,
{
    nothing_is_left_of_white_space(name@);
}

/// A click that is refused changes nothing, one that shows leads one step on, and one on the
/// last step does what the wizard is for and cannot be repeated meanwhile.
pub proof fn clicks_lead_on(w: &mut Wizard, ready: bool, res: Click)
    requires
        old(w).step <= old(w).last,
        call_ensures(Wizard::click, (w, ready), res),
    ensures
        res == Click::Refuse <==> !ready,
        res == Click::Show <==> ready && old(w).step < old(w).last,
        res == Click::Finish <==> ready && old(w).step == old(w).last,
        res == Click::Refuse ==> *final(w) == *old(w),
        res == Click::Show ==> {
            &&& final(w).step == old(w).step + 1
            &&& final(w).back
            &&& final(w).next == old(w).next
            &&& final(w).label == (if final(w).step == final(w).last {
                NextLabel::Finish
            } else {
                old(w).label
            })
        },
        res == Click::Finish ==> {
            &&& final(w).step == old(w).step
            &&& final(w).back == old(w).back
            &&& !final(w).next
            &&& final(w).label == NextLabel::Working
        },
        final(w).last == old(w).last,
{
}

/// Going back leads one step back, and from the first step nowhere.
pub proof fn back_leads_back(w: &mut Wizard)
    requires
        call_ensures(Wizard::go_back, (w,), ()),
    ensures
        old(w).step == 0 ==> *final(w) == *old(w),
        old(w).step > 0 ==> {
            &&& final(w).step == old(w).step - 1
            &&& final(w).back == (final(w).step > 0)
            &&& final(w).label == NextLabel::Next
            &&& final(w).next == old(w).next
            &&& final(w).last == old(w).last
        },
{
}

/// Only news of a failure changes the wizard: it can be tried again. The failure is told with
/// its reason; nothing else is told.
pub proof fn failures_can_be_repeated(
    w: &mut Wizard,
    progress: Progress,
    failure: &str,
    res: Step,
)
    requires
        call_ensures(Wizard::polled, (w, progress, failure), res),
    ensures
        final(w).step == old(w).step,
        final(w).last == old(w).last,
        final(w).back == old(w).back,
        progress is Failed ==> final(w).next && final(w).label == NextLabel::Finish,
        !(progress is Failed) ==> final(w).next == old(w).next && final(w).label == old(w).label,
        res.again <==> progress is Pending,
        res.done <==> progress is Done,
        res.notice is Some <==> progress is Failed,
        progress matches Progress::Failed(reason) ==> {
            &&& res.notice matches Some(notice)
            &&& notice.text@ == failure@ + reason@
            &&& notice.stays
        },
{
}

/// The wizard for a new machine begins on the first of five steps, with nothing chosen.
pub proof fn creation_begins_at_the_first_step(res: Creation)
    requires
        call_ensures(Creation::new, (), res),
    ensures
        res.wizard.step == 0,
        res.wizard.last == 4,
        !res.wizard.back,
        res.wizard.next,
        res.wizard.label == NextLabel::Next,
        res.name@.len() == 0,
        res.os is None,
{
    reveal_strlit("");
}

/// A click on the first step is refused without a name, and else without an operating system,
/// and then changes nothing; with both it takes the name and shows the second step.
pub proof fn first_step_takes_the_name(c: &mut Creation, entered: &str, res: CreateClick)
    requires
        old(c).wizard.step == 0,
        old(c).wizard.last == 4,
        call_ensures(Creation::next, (c, entered), res),
    ensures
        res == CreateClick::Lacks(Missing::Name) <==> all_space(entered@),
        res == CreateClick::Lacks(Missing::Os) <==> !all_space(entered@) && old(c).os is None,
        res == CreateClick::Show <==> !all_space(entered@) && old(c).os is Some,
        res == CreateClick::Show ==> final(c).name@ == entered@ && final(c).wizard.step == 1,
        res != CreateClick::Show ==> final(c).name@ == old(c).name@ && final(c).wizard == old(
            c,
        ).wizard,
        old(c).os matches Some(id) ==> final(c).os matches Some(kept) && kept@ == id@,
        old(c).os is None ==> final(c).os is None,
{
    nothing_is_left_of_white_space(entered@);
    assert(final(c).view().name == final(c).name@);
    assert(old(c).view().name == old(c).name@);
}

/// A click on a later step always leads on, and changes neither name nor operating system: the
/// second and third step to the next one, the fourth to the summary, and the last one creates
/// the machine.
pub proof fn later_steps_lead_to_creation(c: &mut Creation, entered: &str, res: CreateClick)
    requires
        0 < old(c).wizard.step <= 4,
        old(c).wizard.last == 4,
        call_ensures(Creation::next, (c, entered), res),
    ensures
        res == CreateClick::Show <==> old(c).wizard.step < 3,
        res == CreateClick::Summary <==> old(c).wizard.step == 3,
        res == CreateClick::Create <==> old(c).wizard.step == 4,
        final(c).wizard.step == (if old(c).wizard.step < 4 {
            old(c).wizard.step + 1
        } else {
            4
        }),
        final(c).name@ == old(c).name@,
        old(c).os matches Some(id) ==> final(c).os matches Some(kept) && kept@ == id@,
        old(c).os is None ==> final(c).os is None,
{
    assert(final(c).view().name == final(c).name@);
    assert(old(c).view().name == old(c).name@);
}

/// Selecting an operating system changes nothing else.
pub proof fn selection_changes_the_system(c: &mut Creation, id: String)
    requires
        call_ensures(Creation::select_os, (c, id), ()),
    ensures
        final(c).os matches Some(now) && now@ == id@,
        final(c).name@ == old(c).name@,
        final(c).wizard == old(c).wizard,
{
    assert(final(c).view().name == final(c).name@);
    assert(old(c).view().name == old(c).name@);
}

/// Going back, and news of the creation, do to the wizard what they do to any wizard, and
/// change neither name nor operating system.
pub proof fn back_and_news_keep_the_choices(
    c: &mut Creation,
    d: &mut Creation,
    w: &mut Wizard,
    v: &mut Wizard,
    progress: Progress,
    failure: &str,
    res: Step,
    step: Step,
)
    requires
        call_ensures(Creation::go_back, (c,), ()),
        *old(w) == old(c).wizard,
        call_ensures(Wizard::go_back, (w,), ()),
        call_ensures(Creation::polled, (d, progress), res),
        *old(v) == old(d).wizard,
        failure@ == "Creation failed: "@,
        call_ensures(Wizard::polled, (v, progress, failure), step),
    ensures
        final(c).wizard == *final(w),
        final(c).name@ == old(c).name@,
        final(c).os is Some <==> old(c).os is Some,
        final(d).wizard == *final(v),
        final(d).name@ == old(d).name@,
        final(d).os is Some <==> old(d).os is Some,
        res.again == step.again,
        res.done == step.done,
        res.notice is Some <==> progress is Failed,
        progress matches Progress::Failed(reason) ==> {
            &&& res.notice matches Some(notice)
            &&& notice.text@ == "Creation failed: "@ + reason@
            &&& notice.stays
        },
{
    assert(final(c).view().name == final(c).name@);
    assert(old(c).view().name == old(c).name@);
    assert(final(d).view().name == final(d).name@);
    assert(old(d).view().name == old(d).name@);
    assert(final(c).view().os is Some <==> final(c).os is Some);
    assert(final(d).view().os is Some <==> final(d).os is Some);
}

/// What each step of the import does: the first looks in the place that is given, the second
/// goes on with the machine that is selected, and the last imports it under a name; what is
/// missing is told, and then nothing changes.
pub proof fn import_goes_step_by_step(
    importing: &mut Importing,
    place: Option<Place>,
    name: &str,
    res: ImportClick,
)
    requires
        old(importing).wizard.step <= 2,
        old(importing).wizard.last == 2,
        call_ensures(Importing::next, (importing, place, name), res),
    ensures
        old(importing).wizard.step == 0 ==> res == (match place {
            Some(p) => ImportClick::Search(p),
            None => ImportClick::Lacks(import_wizard::Missing::Directory),
        }),
        old(importing).wizard.step == 1 ==> res == (if old(importing).found.selected is Some {
            ImportClick::Configure
        } else {
            ImportClick::Lacks(import_wizard::Missing::Machine)
        }),
        old(importing).wizard.step == 2 ==> res == (if all_space(name@) {
            ImportClick::Lacks(import_wizard::Missing::Name)
        } else {
            ImportClick::Import
        }),
        res is Lacks ==> final(importing).wizard == old(importing).wizard,
        res is Search || res is Configure ==> final(importing).wizard.step == old(
            importing,
        ).wizard.step + 1 && final(importing).wizard.back,
        res is Import ==> final(importing).wizard.step == 2 && !final(importing).wizard.next,
        final(importing).found == old(importing).found,
{
    nothing_is_left_of_white_space(name@);
}

/// The wizard for an import begins on the first of three steps, with nothing found.
pub proof fn import_begins_at_the_first_step(res: Importing)
    requires
        call_ensures(Importing::new, (), res),
    ensures
        res.wizard.step == 0,
        res.wizard.last == 2,
        res.found.vms@.len() == 0,
        res.found.selected is None,
{
}

/// Going back, and news of the import, do to the wizard what they do to any wizard, and leave
/// what was found.
pub proof fn back_and_news_keep_what_was_found(
    a: &mut Importing,
    b: &mut Importing,
    w: &mut Wizard,
    v: &mut Wizard,
    progress: Progress,
    failure: &str,
    res: Step,
    step: Step,
)
    requires
        call_ensures(Importing::go_back, (a,), ()),
        *old(w) == old(a).wizard,
        call_ensures(Wizard::go_back, (w,), ()),
        call_ensures(Importing::polled, (b, progress), res),
        *old(v) == old(b).wizard,
        failure@ == "Import failed: "@,
        call_ensures(Wizard::polled, (v, progress, failure), step),
    ensures
        final(a).wizard == *final(w),
        final(a).found == old(a).found,
        final(b).wizard == *final(v),
        final(b).found == old(b).found,
        res.again == step.again,
        res.done == step.done,
        res.notice is Some <==> progress is Failed,
        progress matches Progress::Failed(reason) ==> {
            &&& res.notice matches Some(notice)
            &&& notice.text@ == "Import failed: "@ + reason@
            &&& notice.stays
        },
{
}

/// The warnings list every note on a line of its own, in order: the first under a heading, and
/// each further one below.
pub proof fn warnings_list_the_notes(
    few: &Vec<String>,
    more: &Vec<String>,
    note: String,
    of_few: String,
    of_more: String,
)
    requires
        more@ == few@.push(note),
        call_ensures(warnings_text, (few,), of_few),
        call_ensures(warnings_text, (more,), of_more),
    ensures
        few@.len() == 0 ==> of_few@.len() == 0,
        few@.len() == 0 ==> of_more@ == "⚠ Warnings:\n• "@ + note@,
        few@.len() > 0 ==> of_more@ == of_few@ + "\n• "@ + note@,
{
    reveal_strlit("");
    let sep = "\n• "@;
    assert(texts(more@) =~= texts(few@).push(note@));
    join_puts_separators_between(texts(few@), note@, sep);
    if few@.len() == 0 {
        assert(texts(more@) =~= seq![note@]);
    } else {
        assert(of_more@ =~= of_few@ + sep + note@);
    }
}

/// The place to look in is that of the choice that is marked; where a directory is to be
/// searched, one has to be chosen.
pub proof fn place_is_the_choice_that_is_marked(
    libvirt: bool,
    quickemu: bool,
    directory: bool,
    has_directory: bool,
    res: Option<Place>,
)
    requires
        call_ensures(place, (libvirt, quickemu, directory, has_directory), res),
    ensures
        res is None <==> directory && !has_directory,
        libvirt && !directory ==> res == Some(Place::Libvirt),
        quickemu && !libvirt && !directory ==> res == Some(Place::Quickemu),
        !libvirt && !quickemu && has_directory ==> res == Some(Place::Directory),
{
}

/// A search adds what it found behind what was found before, and a search that found nothing is
/// told of; the selection stays.
pub proof fn searches_add_what_they_find(
    found: &mut Found,
    vms: Vec<ImportableVm>,
    res: Option<Notice>,
    i: int,
)
    requires
        call_ensures(Found::searched, (found, vms), res),
    ensures
        final(found).vms@.len() == old(found).vms@.len() + vms@.len(),
        0 <= i < old(found).vms@.len() ==> final(found).vms@[i] == old(found).vms@[i],
        0 <= i < vms@.len() ==> final(found).vms@[old(found).vms@.len() + i] == vms@[i],
        res is Some <==> vms@.len() == 0,
        res matches Some(notice) ==> notice.stays && notice.text@
            == "No VMs found in the selected location."@,
        final(found).selected == old(found).selected,
{
}

/// What is imported is the machine of the row that was selected last; a row without a machine
/// changes nothing.
pub proof fn selected_find_is_the_target(
    found: &mut Found,
    row: Option<usize>,
    now: Found,
    target: Option<&ImportableVm>,
)
    requires
        call_ensures(Found::select, (found, row), ()),
        now == *final(found),
        call_ensures(Found::target, (&now,), target),
    ensures
        row matches Some(i) ==> (i < old(found).vms@.len() ==> target == Some(
            &old(found).vms@[i as int],
        )),
        row matches Some(i) ==> (i >= old(found).vms@.len() ==> final(found).selected == old(
            found,
        ).selected),
        row is None ==> final(found).selected == old(found).selected,
        final(found).vms == old(found).vms,
{
}

/// The line below a machine that was found tells where it comes from, and its configuration.
pub proof fn find_line_tells_the_source(vm: ImportableVm, res: String)
    requires
        call_ensures(import_wizard::subtitle, (&vm,), res),
    ensures
        vm.source == ImportSource::Libvirt ==> res@ == "libvirt"@ + " · "@ + vm.config_path@,
        vm.source == ImportSource::Quickemu ==> res@ == "quickemu"@ + " · "@ + vm.config_path@,
{
}

/// Disks are copied or moved only where that was chosen.
pub proof fn disks_are_linked_unless_chosen(index: u32, res: DiskAction)
    requires
        call_ensures(disk_action, (index,), res),
    ensures
        res == DiskAction::Copied <==> index == 1,
        res == DiskAction::Moved <==> index == 2,
        res == DiskAction::Symlink <==> index != 1 && index != 2,
{
}

/// The name of a machine fits exactly if it is not all white space.
pub proof fn names_are_not_blank(name: &str, res: bool)
    requires
        call_ensures(name_fits, (name,), res),
    ensures
        res <==> !all_space(name@),
{
    nothing_is_left_of_white_space(name@);
}

/// The operating system is shown by the name of its profile, or else by its id, and as `None`
/// where none is selected.
pub proof fn system_is_shown_by_its_name(
    id: &str,
    name: &str,
    profiled: &str,
    unprofiled: &str,
    unselected: &str,
)
    requires
        call_ensures(os_name, (Some(id), Some(name)), profiled),
        call_ensures(os_name, (Some(id), None::<&str>), unprofiled),
        call_ensures(os_name, (None::<&str>, Some(name)), unselected),
    ensures
        profiled@ == name@,
        unprofiled@ == id@,
        unselected@ == "None"@,
{
}

/// A system stays in the list exactly if nothing is searched for, the row is for none, or its
/// name in lower case is made of something, the search in lower case without the white space
/// around it, and something.
pub proof fn systems_that_match_stay(query: &str, name: &str, res: bool, unnamed: bool)
    requires
        call_ensures(os_matches, (query, Some(name)), res),
        call_ensures(os_matches, (query, None::<&str>), unnamed),
    ensures
        unnamed,
        lowercase(trim(query@)).len() == 0 ==> res,
        lowercase(trim(query@)).len() > 0 ==> (res <==> exists|x: Seq<char>, y: Seq<char>|
            #[trigger] (x + lowercase(trim(query@)) + y) == lowercase(name@)),
{
    part_stands_between(lowercase(name@), lowercase(trim(query@)));
}

/// The image that is installed from is the one that the choice names, and no other.
pub proof fn image_is_the_one_chosen<T>(
    configured: Option<T>,
    custom: Option<T>,
    nothing: Option<T>,
    from_settings: Option<T>,
    own: Option<T>,
)
    requires
        call_ensures(install_image::<T>, (Media::Nothing, configured, custom), nothing),
        call_ensures(install_image::<T>, (Media::Configured, configured, custom), from_settings),
        call_ensures(install_image::<T>, (Media::Custom, configured, custom), own),
    ensures
        nothing is None,
        from_settings == configured,
        own == custom,
{
}

/// The step is shown as its number, counted from 1, of the number of all steps.
pub proof fn steps_are_counted_from_1(w: Wizard, res: String)
    requires
        call_ensures(Wizard::step_text, (&w,), res),
    ensures
        res@ == "Step "@ + decimal(w.step + 1) + " of "@ + decimal(w.last + 1),
{
}

/// What is missing is told: each thing with its own text.
pub proof fn what_is_missing_is_told(
    missing: Missing,
    text: &'static str,
    lacking: import_wizard::Missing,
    import_text: &'static str,
)
    requires
        call_ensures(create_wizard::missing_text, (missing,), text),
        call_ensures(import_wizard::missing_text, (lacking,), import_text),
    ensures
        missing == Missing::Name ==> text@ == "Enter a VM name to continue."@,
        missing == Missing::Os ==> text@ == "Select an OS to continue."@,
        lacking is Directory ==> import_text@ == "Choose a directory to scan first."@,
        lacking is Machine ==> import_text@ == "Select a VM to continue."@,
        lacking is Name ==> import_text@ == "Enter a VM name."@,
{
}

} // verus!
