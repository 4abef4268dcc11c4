//! The wizard that creates a machine.
use crate::numbers::{decimal, decimal_text, number_reads_back, parse_u32, parsed};
use crate::settings::Settings;
use crate::task::{notice_view, step_view, Progress, Step};
use crate::text::{
    has_part, is_blank, lemma_position, lowercase, lowered, lowered_matches, name_at, position,
    same_text, trim, trimmed,
};
use crate::wizard::{Click, NextLabel, Wizard};
use vstd::prelude::*;
use vstd::string::StringExecFns;

verus! {

/// The last of the five steps, counted from 0.
pub const LAST: usize = 4;

/// The displays, in the order of their list.
pub open spec fn displays() -> Seq<Seq<char>> {
    seq!["gtk"@, "sdl"@, "spice-app"@, "vnc"@, "none"@]
}

/// The network adapters, in the order of their list.
pub open spec fn net_models() -> Seq<Seq<char>> {
    seq!["virtio-net-pci"@, "e1000"@, "rtl8139"@, "none"@]
}

/// The network backends, in the order of their list.
pub open spec fn net_backends() -> Seq<Seq<char>> {
    seq!["user"@, "passt"@, "bridge"@, "none"@]
}

/// The position of a display in the list; 0 for one that is not in it.
pub fn display_position(name: &str) -> (res: u32)
    ensures
        res == position(displays(), name@, 0),
{
    reveal_with_fuel(position, 6);
    if same_text(name, "gtk") {
        0
    } else if same_text(name, "sdl") {
        1
    } else if same_text(name, "spice-app") {
        2
    } else if same_text(name, "vnc") {
        3
    } else if same_text(name, "none") {
        4
    } else {
        0
    }
}

/// The position of a network adapter in the list; 0 for one that is not in it.
pub fn net_model_position(name: &str) -> (res: u32)
    ensures
        res == position(net_models(), name@, 0),
{
    reveal_with_fuel(position, 5);
    if same_text(name, "virtio-net-pci") {
        0
    } else if same_text(name, "e1000") {
        1
    } else if same_text(name, "rtl8139") {
        2
    } else if same_text(name, "none") {
        3
    } else {
        0
    }
}

/// The display at a position of the list; the first one beyond its end.
pub fn display_at(index: u32) -> (res: &'static str)
    ensures
        res@ == name_at(displays(), index),
{
    match index {
        1 => "sdl",
        2 => "spice-app",
        3 => "vnc",
        4 => "none",
        _ => "gtk",
    }
}

/// The network adapter at a position of the list; the first one beyond its end.
pub fn net_model_at(index: u32) -> (res: &'static str)
    ensures
        res@ == name_at(net_models(), index),
{
    match index {
        1 => "e1000",
        2 => "rtl8139",
        3 => "none",
        _ => "virtio-net-pci",
    }
}

/// The network backend at a position of the list; the first one beyond its end.
pub fn net_backend_at(index: u32) -> (res: &'static str)
    ensures
        res@ == name_at(net_backends(), index),
{
    match index {
        1 => "passt",
        2 => "bridge",
        3 => "none",
        _ => "user",
    }
}

/// Whether an operating system stays when the list is searched: the search is empty, the
/// row is for none, or its name holds what is searched for, in lower case.
pub fn os_matches(query: &str, name: Option<&str>) -> (res: bool)
    ensures
        res == (lowercase(trim(query@)).len() == 0 || name.is_none() || has_part(
            lowercase(name.unwrap()@),
            lowercase(trim(query@)),
        )),
{
    let wanted: String = lowered(trimmed(query).as_str());
    proof {
        reveal_strlit("");
        if wanted@.len() == 0 {
            assert(wanted@ =~= ""@);
        }
    }
    if same_text(wanted.as_str(), "") {
        return true;
    }
    match name {
        Some(text) => lowered_matches(lowered(text).as_str(), wanted.as_str()),
        None => true,
    }
}

/// What keeps the first step from being left.
#[derive(Clone, Copy, Debug, PartialEq, Eq, Structural)]
pub enum Missing {
    Name,
    Os,
}

/// What the first step lacks.
pub open spec fn lacks(name: Seq<char>, os_selected: bool) -> Option<Missing> {
    if trim(name).len() == 0 {
        Some(Missing::Name)
    } else if !os_selected {
        Some(Missing::Os)
    } else {
        None
    }
}

/// What keeps the first step from being left: a name, or else an operating system.
pub fn first_step_lacks(name: &str, os_selected: bool) -> (res: Option<Missing>)
    ensures
        res == lacks(name@, os_selected),
{
    if is_blank(name) {
        Some(Missing::Name)
    } else if !os_selected {
        Some(Missing::Os)
    } else {
        None
    }
}

/// What is said of what is missing.
pub fn missing_text(missing: Missing) -> (res: &'static str)
    ensures
        res@ == (match missing {
            Missing::Name => "Enter a VM name to continue."@,
            Missing::Os => "Select an OS to continue."@,
        }),
{
    match missing {
        Missing::Name => "Enter a VM name to continue.",
        Missing::Os => "Select an OS to continue.",
    }
}

/// What the profile of an operating system suggests.
#[derive(Debug)]
pub struct Profile {
    pub memory_mb: u32,
    pub cpu_cores: u32,
    pub disk_size_gb: u32,
    pub enable_kvm: bool,
    pub uefi: bool,
    pub tpm: bool,
    pub display: String,
    pub network_model: String,
}

/// The fields of the wizard: three texts for numbers, three switches, and the positions in
/// the lists of displays, network adapters and network backends.
#[derive(Debug)]
pub struct Fields {
    pub memory: String,
    pub cores: String,
    pub disk: String,
    pub kvm: bool,
    pub uefi: bool,
    pub tpm: bool,
    pub display: u32,
    pub net_model: u32,
    pub net_backend: u32,
}

/// The contents of the fields.
pub open spec fn fields_view(f: Fields) -> (
    (Seq<char>, Seq<char>, Seq<char>),
    (bool, bool, bool),
    (u32, u32, u32),
) {
    ((f.memory@, f.cores@, f.disk@), (f.kvm, f.uefi, f.tpm), (f.display, f.net_model, f.net_backend))
}

/// The fields at first: what the settings give new machines. Firmware and network are the
/// plain ones.
pub fn default_fields(settings: &Settings) -> (res: Fields)
    ensures
        fields_view(res) == (
            (
                decimal(settings.memory_mb as int),
                decimal(settings.cpu_cores as int),
                decimal(settings.disk_size_gb as int),
            ),
            (settings.enable_kvm, false, false),
            (position(displays(), settings.display@, 0) as u32, 0u32, 0u32),
        ),
{
    Fields {
        memory: decimal_text(settings.memory_mb as u64),
        cores: decimal_text(settings.cpu_cores as u64),
        disk: decimal_text(settings.disk_size_gb as u64),
        kvm: settings.enable_kvm,
        uefi: false,
        tpm: false,
        display: display_position(settings.display.as_str()),
        net_model: 0,
        net_backend: 0,
    }
}

/// The fields after an operating system was selected: those of its profile. The network
/// backend stays as it was.
pub fn profile_fields(profile: &Profile, net_backend: u32) -> (res: Fields)
    ensures
        fields_view(res) == (
            (
                decimal(profile.memory_mb as int),
                decimal(profile.cpu_cores as int),
                decimal(profile.disk_size_gb as int),
            ),
            (profile.enable_kvm, profile.uefi, profile.tpm),
            (
                position(displays(), profile.display@, 0) as u32,
                position(net_models(), profile.network_model@, 0) as u32,
                net_backend,
            ),
        ),
{
    Fields {
        memory: decimal_text(profile.memory_mb as u64),
        cores: decimal_text(profile.cpu_cores as u64),
        disk: decimal_text(profile.disk_size_gb as u64),
        kvm: profile.enable_kvm,
        uefi: profile.uefi,
        tpm: profile.tpm,
        display: display_position(profile.display.as_str()),
        net_model: net_model_position(profile.network_model.as_str()),
        net_backend,
    }
}

/// The number that a text holds, or another one.
pub open spec fn number_or(text: Seq<char>, other: u32) -> int {
    match parsed(text, u32::MAX as int) {
        Some(n) => n,
        None => other as int,
    }
}

fn read_or(text: &str, other: u32) -> (res: u32)
    ensures
        res == number_or(text@, other),
{
    match parse_u32(text) {
        Some(n) => n,
        None => other,
    }
}

/// The machine that is to be created, as far as the fields tell.
#[derive(Debug)]
pub struct NewMachine {
    pub memory_mb: u32,
    pub cpu_cores: u32,
    pub disk_size_gb: u32,
    pub enable_kvm: bool,
    pub uefi: bool,
    pub tpm: bool,
    pub display: String,
    pub network_model: String,
    pub network_backend: String,
}

/// The contents of a new machine.
pub open spec fn machine_view(m: NewMachine) -> (
    (int, int, int),
    (bool, bool, bool),
    (Seq<char>, Seq<char>, Seq<char>),
) {
    (
        (m.memory_mb as int, m.cpu_cores as int, m.disk_size_gb as int),
        (m.enable_kvm, m.uefi, m.tpm),
        (m.display@, m.network_model@, m.network_backend@),
    )
}

/// The machine that fields ask for. A text that is no number leaves the number that the
/// profile suggests.
pub open spec fn asked_machine(
    f: (
        (Seq<char>, Seq<char>, Seq<char>),
        (bool, bool, bool),
        (u32, u32, u32),
    ),
    memory: u32,
    cores: u32,
    disk: u32,
) -> ((int, int, int), (bool, bool, bool), (Seq<char>, Seq<char>, Seq<char>)) {
    (
        (number_or(f.0.0, memory), number_or(f.0.1, cores), number_or(f.0.2, disk)),
        f.1,
        (
            name_at(displays(), f.2.0),
            name_at(net_models(), f.2.1),
            name_at(net_backends(), f.2.2),
        ),
    )
}

/// The machine that the fields ask for; `memory`, `cores` and `disk` stand for numbers that
/// cannot be read.
pub fn new_machine(fields: &Fields, memory: u32, cores: u32, disk: u32) -> (res: NewMachine)
    ensures
        machine_view(res) == asked_machine(fields_view(*fields), memory, cores, disk),
{
    NewMachine {
        memory_mb: read_or(fields.memory.as_str(), memory),
        cpu_cores: read_or(fields.cores.as_str(), cores),
        disk_size_gb: read_or(fields.disk.as_str(), disk),
        enable_kvm: fields.kvm,
        uefi: fields.uefi,
        tpm: fields.tpm,
        display: display_at(fields.display).to_string(),
        network_model: net_model_at(fields.net_model).to_string(),
        network_backend: net_backend_at(fields.net_backend).to_string(),
    }
}

/// What a switch is shown as.
pub open spec fn on_off(b: bool) -> Seq<char> {
    if b {
        "on"@
    } else {
        "off"@
    }
}

fn switch_text(b: bool) -> (res: &'static str)
    ensures
        res@ == on_off(b),
{
    if b {
        "on"
    } else {
        "off"
    }
}

/// The name of the operating system, as it is shown: that of its profile, or else its id,
/// or `None` if none was selected.
pub fn os_name<'a>(selected: Option<&'a str>, profile_name: Option<&'a str>) -> (res: &'a str)
    ensures
        res@ == (match selected {
            Some(id) => match profile_name {
                Some(name) => name@,
                None => id@,
            },
            None => "None"@,
        }),
{
    match selected {
        Some(id) => match profile_name {
            Some(name) => name,
            None => id,
        },
        None => "None",
    }
}

/// The summary of what is to be created.
pub open spec fn summary_view(
    name: Seq<char>,
    os: Seq<char>,
    f: (
        (Seq<char>, Seq<char>, Seq<char>),
        (bool, bool, bool),
        (u32, u32, u32),
    ),
) -> Seq<char> {
    "Name:      "@ + name + "\nOS:        "@ + os + "\nMemory:    "@ + f.0.0 + " MB\nCPU:       "@
        + f.0.1 + " cores\nDisk:      "@ + f.0.2 + " GB\nKVM:       "@ + on_off(f.1.0)
        + "\nUEFI:      "@ + on_off(f.1.1) + "\nTPM:       "@ + on_off(f.1.2) + "\nDisplay:   "@
        + name_at(displays(), f.2.0) + "\nNetwork:   "@ + name_at(net_backends(), f.2.2) + " / "@
        + name_at(net_models(), f.2.1) + "\n"@
}

/// The summary of what is to be created.
pub fn summary(name: &str, os: &str, fields: &Fields) -> (res: String)
    ensures
        res@ == summary_view(name@, os@, fields_view(*fields)),
{
    let mut out: String = "Name:      ".to_string();
    out.append(name);
    out.append("\nOS:        ");
    out.append(os);
    out.append("\nMemory:    ");
    out.append(fields.memory.as_str());
    out.append(" MB\nCPU:       ");
    out.append(fields.cores.as_str());
    out.append(" cores\nDisk:      ");
    out.append(fields.disk.as_str());
    out.append(" GB\nKVM:       ");
    out.append(switch_text(fields.kvm));
    out.append("\nUEFI:      ");
    out.append(switch_text(fields.uefi));
    out.append("\nTPM:       ");
    out.append(switch_text(fields.tpm));
    out.append("\nDisplay:   ");
    out.append(display_at(fields.display));
    out.append("\nNetwork:   ");
    out.append(net_backend_at(fields.net_backend));
    out.append(" / ");
    out.append(net_model_at(fields.net_model));
    out.append("\n");
    out
}

/// Creating a machine with the fields as a profile sets them gives it what the profile
/// suggests, if the profile's display and network adapter are in the lists. The fallback
/// numbers then do not matter.
pub proof fn profile_fields_ask_for_the_profile(
    profile: Profile,
    net_backend: u32,
    memory: u32,
    cores: u32,
    disk: u32,
)
    requires
        displays().contains(profile.display@),
        net_models().contains(profile.network_model@),
    ensures
        asked_machine(
            (
                (
                    decimal(profile.memory_mb as int),
                    decimal(profile.cpu_cores as int),
                    decimal(profile.disk_size_gb as int),
                ),
                (profile.enable_kvm, profile.uefi, profile.tpm),
                (
                    position(displays(), profile.display@, 0) as u32,
                    position(net_models(), profile.network_model@, 0) as u32,
                    net_backend,
                ),
            ),
            memory,
            cores,
            disk,
        ) == (
            (profile.memory_mb as int, profile.cpu_cores as int, profile.disk_size_gb as int),
            (profile.enable_kvm, profile.uefi, profile.tpm),
            (profile.display@, profile.network_model@, name_at(net_backends(), net_backend)),
        ),
{
    number_reads_back(profile.memory_mb as int, u32::MAX as int);
    number_reads_back(profile.cpu_cores as int, u32::MAX as int);
    number_reads_back(profile.disk_size_gb as int, u32::MAX as int);
    lemma_position(displays(), profile.display@, 0);
    lemma_position(net_models(), profile.network_model@, 0);
}

/// Creating a machine with the fields as the settings set them gives it what the settings
/// name, if their display is in the list.
pub proof fn default_fields_ask_for_the_settings(
    settings: Settings,
    memory: u32,
    cores: u32,
    disk: u32,
)
    requires
        displays().contains(settings.display@),
    ensures
        asked_machine(
            (
                (
                    decimal(settings.memory_mb as int),
                    decimal(settings.cpu_cores as int),
                    decimal(settings.disk_size_gb as int),
                ),
                (settings.enable_kvm, false, false),
                (position(displays(), settings.display@, 0) as u32, 0u32, 0u32),
            ),
            memory,
            cores,
            disk,
        ) == (
            (settings.memory_mb as int, settings.cpu_cores as int, settings.disk_size_gb as int),
            (settings.enable_kvm, false, false),
            (settings.display@, "virtio-net-pci"@, "user"@),
        ),
{
    number_reads_back(settings.memory_mb as int, u32::MAX as int);
    number_reads_back(settings.cpu_cores as int, u32::MAX as int);
    number_reads_back(settings.disk_size_gb as int, u32::MAX as int);
    lemma_position(displays(), settings.display@, 0);
}

/// What a new machine is installed from.
#[derive(Clone, Copy, Debug, PartialEq, Eq, Structural)]
pub enum Media {
    /// Nothing.
    Nothing,
    /// The image that the settings name.
    Configured,
    /// An image that was chosen for this machine.
    Custom,
}

/// The image that a new machine is installed from: the one that the choice names, if there
/// is one.
pub fn install_image<T>(media: Media, configured: Option<T>, custom: Option<T>) -> (res: Option<T>)
    ensures
        res == (match media {
            Media::Nothing => None,
            Media::Configured => configured,
            Media::Custom => custom,
        }),
{
    match media {
        Media::Nothing => None,
        Media::Configured => configured,
        Media::Custom => custom,
    }
}

/// What a click on the button that leads on does.
#[derive(Clone, Copy, Debug, PartialEq, Eq, Structural)]
pub enum CreateClick {
    /// Nothing: something is missing on the first step.
    Lacks(Missing),
    /// It shows the next step.
    Show,
    /// It shows the last step, with the summary.
    Summary,
    /// It creates the machine.
    Create,
}

/// The wizard, with the name and the operating system of the machine.
#[verifier::ext_equal]
pub struct CreationView {
    pub wizard: Wizard,
    pub name: Seq<char>,
    pub os: Option<Seq<char>>,
}

/// What can happen to the wizard.
pub enum Act {
    /// An operating system is selected.
    SelectOs(Seq<char>),
    Back,
    /// The button that leads on, with the name that is entered.
    Next(Seq<char>),
    /// News of the creation.
    News(Progress),
}

impl CreationView {
    /// The wizard at first: no name, and no operating system.
    pub open spec fn first() -> CreationView {
        CreationView {
            wizard: Wizard { step: 0, last: LAST, back: false, next: true, label: NextLabel::Next },
            name: ""@,
            os: None,
        }
    }

    /// The first step is behind only with a name and an operating system.
    pub open spec fn wf(self) -> bool {
        &&& self.wizard.wf()
        &&& self.wizard.last == LAST
        &&& self.wizard.step > 0 ==> trim(self.name).len() > 0 && self.os.is_some()
    }

    /// The wizard after a click on the button that leads on, with `entered` in the field
    /// for the name. The first step is left with a name and an operating system only, and
    /// the name is taken there.
    pub open spec fn next(self, entered: Seq<char>) -> (CreationView, CreateClick) {
        let missing = lacks(entered, self.os.is_some());
        let ready = self.wizard.step > 0 || missing.is_none();
        let (wizard, click) = self.wizard.clicked(ready);
        (
            CreationView {
                wizard,
                name: if self.wizard.step == 0 && ready {
                    entered
                } else {
                    self.name
                },
                os: self.os,
            },
            match click {
                Click::Refuse => CreateClick::Lacks(missing.unwrap()),
                Click::Show => if wizard.step == LAST {
                    CreateClick::Summary
                } else {
                    CreateClick::Show
                },
                Click::Finish => CreateClick::Create,
            },
        )
    }

    /// The wizard after something happened.
    pub open spec fn act(self, a: Act) -> CreationView {
        match a {
            Act::SelectOs(id) => CreationView { os: Some(id), ..self },
            Act::Back => CreationView { wizard: self.wizard.before(), ..self },
            Act::Next(entered) => self.next(entered).0,
            Act::News(progress) => CreationView { wizard: self.wizard.ended(progress), ..self },
        }
    }
}

/// The wizard that creates a machine, with the name and the operating system of the machine.
#[derive(Debug)]
pub struct Creation {
    pub wizard: Wizard,
    pub name: String,
    pub os: Option<String>,
}

impl Creation {
    pub open spec fn view(self) -> CreationView {
        CreationView {
            wizard: self.wizard,
            name: self.name@,
            os: match self.os {
                Some(id) => Some(id@),
                None => None,
            },
        }
    }

    /// The wizard at first.
    pub fn new() -> (res: Creation)
        ensures
            res.view() == CreationView::first(),
            res.view().wf(),
    {
        Creation { wizard: Wizard::new(LAST), name: "".to_string(), os: None }
    }

    /// An operating system was selected.
    pub fn select_os(&mut self, id: String)
        requires
            old(self).view().wf(),
        ensures
            final(self).view().wf(),
            final(self).view() == old(self).view().act(Act::SelectOs(id@)),
    {
        self.os = Some(id);
    }

    /// Goes back one step.
    pub fn go_back(&mut self)
        requires
            old(self).view().wf(),
        ensures
            final(self).view().wf(),
            final(self).view() == old(self).view().act(Act::Back),
    {
        self.wizard.go_back();
    }

    /// Takes a click on the button that leads on, with `entered` in the field for the name.
    pub fn next(&mut self, entered: &str) -> (res: CreateClick)
        requires
            old(self).view().wf(),
        ensures
            final(self).view().wf(),
            (final(self).view(), res) == old(self).view().next(entered@),
    {
        let at_first: bool = self.wizard.step == 0;
        let missing: Option<Missing> = first_step_lacks(entered, self.os.is_some());
        let ready: bool = !at_first || missing.is_none();
        let click: Click = self.wizard.click(ready);
        if at_first && ready {
            self.name = entered.to_string();
        }
        match click {
            Click::Refuse => CreateClick::Lacks(missing.unwrap()),
            Click::Show => if self.wizard.step == LAST {
                CreateClick::Summary
            } else {
                CreateClick::Show
            },
            Click::Finish => CreateClick::Create,
        }
    }

    /// Asks how the creation stands. Once it is done the wizard closes.
    pub fn polled(&mut self, progress: Progress) -> (res: Step)
        requires
            old(self).view().wf(),
        ensures
            final(self).view().wf(),
            final(self).view() == old(self).view().act(Act::News(progress)),
            (res.again, res.done, notice_view(res.notice)) == step_view(
                progress,
                None,
                "Creation failed: "@,
            ),
    {
        self.wizard.polled(progress, "Creation failed: ")
    }
}

/// The wizard after all of it happened, in order.
pub open spec fn after_acts(acts: Seq<Act>) -> CreationView
    decreases acts.len(),
{
    if acts.len() == 0 {
        CreationView::first()
    } else {
        after_acts(acts.drop_last()).act(acts.last())
    }
}

/// Act number `k` is a click that showed the summary.
pub open spec fn summary_shown(acts: Seq<Act>, k: int) -> bool {
    &&& 0 <= k < acts.len()
    &&& acts[k] matches Act::Next(entered) && after_acts(acts.take(k)).next(entered).1
        == CreateClick::Summary
}

/// Whatever happens, the step is one of the five, and the first one is left only with a name
/// that is not blank and with an operating system.
pub proof fn first_step_is_left_complete(acts: Seq<Act>)
    ensures
        after_acts(acts).wf(),
    decreases acts.len(),
{
    if acts.len() > 0 {
        first_step_is_left_complete(acts.drop_last());
    }
}

/// The last step is reached by a click that showed the summary.
proof fn lemma_summary(acts: Seq<Act>)
    requires
        after_acts(acts).wizard.step == LAST,
    ensures
        exists|k: int| #[trigger] summary_shown(acts, k),
    decreases acts.len(),
{
    let front = acts.drop_last();
    let n = acts.len() - 1;
    first_step_is_left_complete(front);
    if after_acts(front).wizard.step == LAST {
        lemma_summary(front);
        let k = choose|k: int| #[trigger] summary_shown(front, k);
        assert(front.take(k) =~= acts.take(k));
        assert(summary_shown(acts, k));
    } else {
        assert(acts.take(n) =~= front);
        assert(summary_shown(acts, n));
    }
}

/// Whatever happened before, a machine is created only by a click on the last step, with
/// a name that is not blank and with an operating system, and after the summary was shown.
pub proof fn creation_comes_after_the_summary(acts: Seq<Act>, entered: Seq<char>)
    requires
        after_acts(acts).next(entered).1 == CreateClick::Create,
    ensures
        after_acts(acts).wizard.step == LAST,
        trim(after_acts(acts).name).len() > 0,
        after_acts(acts).os.is_some(),
        exists|k: int| #[trigger] summary_shown(acts, k),
{
    first_step_is_left_complete(acts);
    lemma_summary(acts);
}

/// A creation that failed leaves the wizard on its step, with the button that tries again;
/// one that is done closes it, and is told once.
pub proof fn failed_creation_can_be_tried_again(c: CreationView, progress: Progress)
    requires
        c.wf(),
    ensures
        progress is Failed ==> {
            let after = c.act(Act::News(progress));
            &&& after.wizard.next
            &&& after.wizard.label == NextLabel::Finish
            &&& after.wizard.step == c.wizard.step
            &&& after.name == c.name
            &&& after.os == c.os
        },
        step_view(progress, None, "Creation failed: "@).1 <==> progress is Done,
        step_view(progress, None, "Creation failed: "@).1 ==> !step_view(
            progress,
            None,
            "Creation failed: "@,
        ).0,
{
}

} // verus!
