//! The settings that hold for all machines.
use crate::numbers::{decimal, decimal_text, number_reads_back, parse_u32, parsed};
use crate::text::same_text;
use vstd::prelude::*;

verus! {

/// The settings that the dialog shows.
#[derive(Debug)]
pub struct Settings {
    pub memory_mb: u32,
    pub cpu_cores: u32,
    pub disk_size_gb: u32,
    pub display: String,
    pub enable_kvm: bool,
    pub confirm_before_launch: bool,
    pub multi_gpu: bool,
    pub single_gpu: bool,
}

/// The fields of the dialog: three texts for numbers, the positions of the display and of
/// the passthrough mode in their lists, and two switches.
#[derive(Debug)]
pub struct SettingsForm {
    pub memory: String,
    pub cores: String,
    pub disk: String,
    pub display: u32,
    pub kvm: bool,
    pub confirm: bool,
    pub passthrough: u32,
}

/// The position of a display in the list; that of `none` for one that is not in it.
pub open spec fn display_index_view(display: Seq<char>) -> u32 {
    if display == "gtk"@ {
        0
    } else if display == "sdl"@ {
        1
    } else if display == "spice-app"@ {
        2
    } else if display == "vnc"@ {
        3
    } else {
        4
    }
}

/// The display at a position.
pub open spec fn display_name_view(index: u32) -> Seq<char> {
    if index == 0 {
        "gtk"@
    } else if index == 1 {
        "sdl"@
    } else if index == 2 {
        "spice-app"@
    } else if index == 3 {
        "vnc"@
    } else {
        "none"@
    }
}

/// The position of the passthrough mode: none, with several cards, or with one card.
pub open spec fn mode_index(multi_gpu: bool, single_gpu: bool) -> u32 {
    if multi_gpu {
        1
    } else if single_gpu {
        2
    } else {
        0
    }
}

/// The position of a display in the list.
pub fn display_index(display: &str) -> (res: u32)
    ensures
        res == display_index_view(display@),
{
    if same_text(display, "gtk") {
        0
    } else if same_text(display, "sdl") {
        1
    } else if same_text(display, "spice-app") {
        2
    } else if same_text(display, "vnc") {
        3
    } else {
        4
    }
}

/// The display at a position.
pub fn display_name(index: u32) -> (res: &'static str)
    ensures
        res@ == display_name_view(index),
{
    match index {
        0 => "gtk",
        1 => "sdl",
        2 => "spice-app",
        3 => "vnc",
        _ => "none",
    }
}

/// The contents of the fields.
pub open spec fn form_fields(form: SettingsForm) -> (
    Seq<char>,
    Seq<char>,
    Seq<char>,
    u32,
    bool,
    bool,
    u32,
) {
    (form.memory@, form.cores@, form.disk@, form.display, form.kvm, form.confirm, form.passthrough)
}

/// The fields for settings.
pub open spec fn fields_of(s: Settings) -> (Seq<char>, Seq<char>, Seq<char>, u32, bool, bool, u32) {
    (
        decimal(s.memory_mb as int),
        decimal(s.cpu_cores as int),
        decimal(s.disk_size_gb as int),
        display_index_view(s.display@),
        s.enable_kvm,
        s.confirm_before_launch,
        mode_index(s.multi_gpu, s.single_gpu),
    )
}

/// The fields as the dialog shows them at first.
pub fn form_of(settings: &Settings) -> (res: SettingsForm)
    ensures
        form_fields(res) == fields_of(*settings),
{
    SettingsForm {
        memory: decimal_text(settings.memory_mb as u64),
        cores: decimal_text(settings.cpu_cores as u64),
        disk: decimal_text(settings.disk_size_gb as u64),
        display: display_index(settings.display.as_str()),
        kvm: settings.enable_kvm,
        confirm: settings.confirm_before_launch,
        passthrough: if settings.multi_gpu {
            1
        } else if settings.single_gpu {
            2
        } else {
            0
        },
    }
}

/// Whether a field for a number is marked as wrong while it is typed in: it is neither
/// empty nor a number.
pub fn is_marked(text: &str) -> (res: bool)
    ensures
        res == (text@.len() > 0 && parsed(text@, u32::MAX as int).is_none()),
{
    proof {
        reveal_strlit("");
        if text@.len() == 0 {
            assert(text@ =~= ""@);
        }
    }
    !same_text(text, "") && parse_u32(text).is_none()
}

/// A number of 32 bits that a text holds.
pub open spec fn field_number(text: Seq<char>) -> Option<int> {
    parsed(text, u32::MAX as int)
}

/// The settings that fields stand for: memory, cores, disk, display, the two switches, and
/// the two passthrough modes. There are none if one of the numbers is not a number.
pub open spec fn settings_view(
    fields: (Seq<char>, Seq<char>, Seq<char>, u32, bool, bool, u32),
) -> Option<(int, int, int, Seq<char>, bool, bool, bool, bool)> {
    if field_number(fields.0).is_some() && field_number(fields.1).is_some() && field_number(
        fields.2,
    ).is_some() {
        Some(
            (
                field_number(fields.0).unwrap(),
                field_number(fields.1).unwrap(),
                field_number(fields.2).unwrap(),
                display_name_view(fields.3),
                fields.4,
                fields.5,
                fields.6 == 1,
                fields.6 == 2,
            ),
        )
    } else {
        None
    }
}

/// The contents of settings.
pub open spec fn settings_fields(s: Settings) -> (
    int,
    int,
    int,
    Seq<char>,
    bool,
    bool,
    bool,
    bool,
) {
    (
        s.memory_mb as int,
        s.cpu_cores as int,
        s.disk_size_gb as int,
        s.display@,
        s.enable_kvm,
        s.confirm_before_launch,
        s.multi_gpu,
        s.single_gpu,
    )
}

/// What is said where a number is wrong.
pub fn invalid_text() -> (res: &'static str)
    ensures
        res@ == "Memory, CPU cores, and disk size must be positive whole numbers."@,
{
    "Memory, CPU cores, and disk size must be positive whole numbers."
}

/// The settings that the fields stand for; none if a number is wrong.
pub fn settings_of(form: &SettingsForm) -> (res: Option<Settings>)
    ensures
        res.is_some() == settings_view(form_fields(*form)).is_some(),
        res.is_some() ==> settings_fields(res.unwrap()) == settings_view(
            form_fields(*form),
        ).unwrap(),
{
    match (
        parse_u32(form.memory.as_str()),
        parse_u32(form.cores.as_str()),
        parse_u32(form.disk.as_str()),
    ) {
        (Some(memory_mb), Some(cpu_cores), Some(disk_size_gb)) => Some(
            Settings {
                memory_mb,
                cpu_cores,
                disk_size_gb,
                display: display_name(form.display).to_string(),
                enable_kvm: form.kvm,
                confirm_before_launch: form.confirm,
                multi_gpu: form.passthrough == 1,
                single_gpu: form.passthrough == 2,
            },
        ),
        _ => None,
    }
}

/// The display is one of the list.
pub open spec fn listed_display(display: Seq<char>) -> bool {
    display == "gtk"@ || display == "sdl"@ || display == "spice-app"@ || display == "vnc"@
        || display == "none"@
}

/// The names in the list of displays are different.
proof fn lemma_displays()
    ensures
        forall|i: u32| i <= 4 ==> #[trigger] display_index_view(display_name_view(i)) == i,
{
    reveal_strlit("gtk");
    reveal_strlit("sdl");
    reveal_strlit("spice-app");
    reveal_strlit("vnc");
    reveal_strlit("none");
    assert("gtk"@[0] == 'g' && "sdl"@[0] == 's' && "spice-app"@[1] == 'p' && "sdl"@[1] == 'd');
    assert("vnc"@[0] == 'v' && "none"@[0] == 'n' && "spice-app"@[0] == 's');
}

/// Saving the dialog as it was opened keeps the settings, if the display is one of the list
/// and at most one passthrough mode is on.
pub proof fn unchanged_dialog_keeps_the_settings(s: Settings)
    requires
        listed_display(s.display@),
        !(s.multi_gpu && s.single_gpu),
    ensures
        settings_view(fields_of(s)) == Some(settings_fields(s)),
{
    number_reads_back(s.memory_mb as int, u32::MAX as int);
    number_reads_back(s.cpu_cores as int, u32::MAX as int);
    number_reads_back(s.disk_size_gb as int, u32::MAX as int);
    lemma_displays();
    assert(display_index_view(display_name_view(0)) == 0);
    assert(display_index_view(display_name_view(1)) == 1);
    assert(display_index_view(display_name_view(2)) == 2);
    assert(display_index_view(display_name_view(3)) == 3);
    assert(display_index_view(display_name_view(4)) == 4);
}

/// Whatever is saved has at most one passthrough mode on, and a display of the list.
pub proof fn saved_settings_are_listed(
    fields: (Seq<char>, Seq<char>, Seq<char>, u32, bool, bool, u32),
)
    requires
        settings_view(fields).is_some(),
    ensures
        listed_display(settings_view(fields).unwrap().3),
        !(settings_view(fields).unwrap().6 && settings_view(fields).unwrap().7),
{
}

} // verus!
