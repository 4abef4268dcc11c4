//! The wizard that imports a machine.
use crate::task::{notice_view, step_view, Notice, Progress, Step};
use crate::text::{beside, is_blank, join, joined_texts, texts, trim, wrap};
use crate::wizard::{Click, NextLabel, Wizard};
use vstd::prelude::*;

verus! {

/// The last of the three steps, counted from 0.
pub const LAST: usize = 2;

/// Where machines are looked for.
#[derive(Clone, Copy, Debug, PartialEq, Eq, Structural)]
pub enum Place {
    Libvirt,
    Quickemu,
    Directory,
}

/// Where machines are looked for, by the choices that are marked; none if a directory is
/// to be searched and none has been chosen.
pub fn place(libvirt: bool, quickemu: bool, directory: bool, has_directory: bool) -> (res: Option<
    Place,
>)
    ensures
        res == (if directory && !has_directory {
            None
        } else if libvirt {
            Some(Place::Libvirt)
        } else if quickemu {
            Some(Place::Quickemu)
        } else {
            Some(Place::Directory)
        }),
{
    if directory && !has_directory {
        None
    } else if libvirt {
        Some(Place::Libvirt)
    } else if quickemu {
        Some(Place::Quickemu)
    } else {
        Some(Place::Directory)
    }
}

/// What a machine that was found comes from.
#[derive(Clone, Copy, Debug, PartialEq, Eq, Structural)]
pub enum ImportSource {
    Libvirt,
    Quickemu,
}

/// A machine that was found.
#[derive(Debug)]
pub struct ImportableVm {
    pub name: String,
    pub source: ImportSource,
    /// The path of its configuration, as it is shown.
    pub config_path: String,
    /// What is to be known before it is imported.
    pub import_notes: Vec<String>,
}

/// The line below the name of a machine that was found.
pub fn subtitle(vm: &ImportableVm) -> (res: String)
    ensures
        res@ == (if vm.source == ImportSource::Libvirt {
            "libvirt"@
        } else {
            "quickemu"@
        }) + " · "@ + vm.config_path@,
{
    let name: &str = match vm.source {
        ImportSource::Libvirt => "libvirt",
        ImportSource::Quickemu => "quickemu",
    };
    wrap(name, " · ", vm.config_path.as_str())
}

/// The machines that were found, and the one that is selected.
#[derive(Debug)]
pub struct Found {
    pub vms: Vec<ImportableVm>,
    pub selected: Option<usize>,
}

impl Found {
    /// The machine that is selected is one of them.
    pub open spec fn wf(self) -> bool {
        self.selected.is_some() ==> self.selected.unwrap() < self.vms@.len()
    }

    /// Nothing found yet.
    pub fn new() -> (res: Found)
        ensures
            res.wf(),
            res.vms@.len() == 0,
            res.selected.is_none(),
    {
        Found { vms: Vec::new(), selected: None }
    }

    /// Adds the machines that a search found to those that were found before. A search
    /// that found none is told of.
    pub fn searched(&mut self, vms: Vec<ImportableVm>) -> (res: Option<Notice>)
        requires
            old(self).wf(),
            old(self).vms@.len() + vms@.len() <= usize::MAX,
        ensures
            final(self).wf(),
            final(self).selected == old(self).selected,
            final(self).vms@ == old(self).vms@ + vms@,
            res.is_some() <==> vms@.len() == 0,
            res.is_some() ==> res.unwrap().text@ == "No VMs found in the selected location."@
                && res.unwrap().stays,
    {
        if vms.len() == 0 {
            proof {
                assert(self.vms@ + vms@ =~= self.vms@);
            }
            Some(
                Notice {
                    text: "No VMs found in the selected location.".to_string(),
                    stays: true,
                },
            )
        } else {
            let mut more: Vec<ImportableVm> = vms;
            self.vms.append(&mut more);
            None
        }
    }

    /// Selects the machine of a row. A row without a machine, and no row, leave the
    /// selection as it is.
    pub fn select(&mut self, row: Option<usize>)
        requires
            old(self).wf(),
        ensures
            final(self).wf(),
            final(self).vms == old(self).vms,
            final(self).selected == (if row.is_some() && row.unwrap() < old(self).vms@.len() {
                row
            } else {
                old(self).selected
            }),
    {
        if let Some(i) = row {
            if i < self.vms.len() {
                self.selected = Some(i);
            }
        }
    }

    /// The machine that is selected.
    pub fn target(&self) -> (res: Option<&ImportableVm>)
        requires
            self.wf(),
        ensures
            res.is_some() == self.selected.is_some(),
            res.is_some() ==> *res.unwrap() == self.vms@[self.selected.unwrap() as int],
    {
        match self.selected {
            Some(i) => Some(&self.vms[i]),
            None => None,
        }
    }
}

/// What is shown of notes: a list, or nothing if there are none.
pub open spec fn warnings_view(notes: Seq<Seq<char>>) -> Seq<char> {
    if notes.len() == 0 {
        ""@
    } else {
        "⚠ Warnings:\n• "@ + join(notes, "\n• "@)
    }
}

/// What is shown of the notes on a machine.
pub fn warnings_text(notes: &Vec<String>) -> (res: String)
    ensures
        res@ == warnings_view(texts(notes@)),
{
    if notes.len() == 0 {
        "".to_string()
    } else {
        beside("⚠ Warnings:\n• ", joined_texts(notes, "\n• ").as_str())
    }
}

/// Whether a name can be given to the machine: it is not blank.
pub fn name_fits(name: &str) -> (res: bool)
    ensures
        res == (trim(name@).len() > 0),
{
    !is_blank(name)
}

/// What happens to the disks of a machine that is imported.
#[derive(Clone, Copy, Debug, PartialEq, Eq, Structural)]
pub enum DiskAction {
    Symlink,
    Copied,
    Moved,
}

/// What happens to the disks, by the position in the list: a link, unless a copy or a move
/// was chosen.
pub fn disk_action(index: u32) -> (res: DiskAction)
    ensures
        res == DiskAction::Copied <==> index == 1,
        res == DiskAction::Moved <==> index == 2,
{
    match index {
        1 => DiskAction::Copied,
        2 => DiskAction::Moved,
        _ => DiskAction::Symlink,
    }
}

/// What keeps a step from being left.
#[derive(Clone, Copy, Debug, PartialEq, Eq, Structural)]
pub enum Missing {
    Directory,
    Machine,
    Name,
}

/// What is said of what is missing.
pub fn missing_text(missing: Missing) -> (res: &'static str)
    ensures
        res@ == (match missing {
            Missing::Directory => "Choose a directory to scan first."@,
            Missing::Machine => "Select a VM to continue."@,
            Missing::Name => "Enter a VM name."@,
        }),
{
    match missing {
        Missing::Directory => "Choose a directory to scan first.",
        Missing::Machine => "Select a VM to continue.",
        Missing::Name => "Enter a VM name.",
    }
}

/// What a click on the button that leads on does.
#[derive(Clone, Copy, Debug, PartialEq, Eq, Structural)]
pub enum ImportClick {
    /// Nothing: something is missing.
    Lacks(Missing),
    /// It shows the second step, and looks for machines there.
    Search(Place),
    /// It shows the last step, for the machine that is selected.
    Configure,
    /// It imports the machine that is selected.
    Import,
}

/// What step number `step` lacks, where `place` is the place to look in, `selected` says
/// whether a machine is selected, and `name` is the name that is entered.
pub open spec fn lacks(
    step: int,
    place: Option<Place>,
    selected: bool,
    name: Seq<char>,
) -> Option<Missing> {
    if step == 0 {
        if place.is_none() {
            Some(Missing::Directory)
        } else {
            None
        }
    } else if step == 1 {
        if !selected {
            Some(Missing::Machine)
        } else {
            None
        }
    } else if trim(name).len() == 0 {
        Some(Missing::Name)
    } else {
        None
    }
}

/// The wizard, with the machines that were found.
#[derive(Debug)]
pub struct Importing {
    pub wizard: Wizard,
    pub found: Found,
}

impl Importing {
    /// The last step is reached only with a machine selected.
    pub open spec fn wf(self) -> bool {
        &&& self.wizard.wf()
        &&& self.wizard.last == LAST
        &&& self.found.wf()
        &&& self.wizard.step == LAST ==> self.found.selected.is_some()
    }

    /// The wizard after a click on the button that leads on, and what the click does.
    pub open spec fn next_view(self, place: Option<Place>, name: Seq<char>) -> (
        Wizard,
        ImportClick,
    ) {
        let missing = lacks(
            self.wizard.step as int,
            place,
            self.found.selected.is_some(),
            name,
        );
        let (wizard, click) = self.wizard.clicked(missing.is_none());
        (
            wizard,
            match click {
                Click::Refuse => ImportClick::Lacks(missing.unwrap()),
                Click::Show => if self.wizard.step == 0 {
                    ImportClick::Search(place.unwrap())
                } else {
                    ImportClick::Configure
                },
                Click::Finish => ImportClick::Import,
            },
        )
    }

    /// The wizard at first.
    pub fn new() -> (res: Importing)
        ensures
            res.wf(),
            res.wizard == (Wizard {
                step: 0,
                last: LAST,
                back: false,
                next: true,
                label: NextLabel::Next,
            }),
            res.found.vms@.len() == 0,
            res.found.selected.is_none(),
    {
        Importing { wizard: Wizard::new(LAST), found: Found::new() }
    }

    /// Goes back one step.
    pub fn go_back(&mut self)
        requires
            old(self).wf(),
        ensures
            final(self).wf(),
            final(self).wizard == old(self).wizard.before(),
            final(self).found == old(self).found,
    {
        self.wizard.go_back();
    }

    /// Takes a click on the button that leads on, where `place` is the place to look in, if
    /// there is one, and `name` is the name that is entered.
    pub fn next(&mut self, place: Option<Place>, name: &str) -> (res: ImportClick)
        requires
            old(self).wf(),
        ensures
            final(self).wf(),
            final(self).found == old(self).found,
            (final(self).wizard, res) == old(self).next_view(place, name@),
    {
        let step: usize = self.wizard.step;
        let missing: Option<Missing> = if step == 0 {
            if place.is_none() {
                Some(Missing::Directory)
            } else {
                None
            }
        } else if step == 1 {
            if self.found.selected.is_none() {
                Some(Missing::Machine)
            } else {
                None
            }
        } else if !name_fits(name) {
            Some(Missing::Name)
        } else {
            None
        };
        match self.wizard.click(missing.is_none()) {
            Click::Refuse => ImportClick::Lacks(missing.unwrap()),
            Click::Show => if step == 0 {
                ImportClick::Search(place.unwrap())
            } else {
                ImportClick::Configure
            },
            Click::Finish => ImportClick::Import,
        }
    }

    /// Asks how the import stands. Once it is done the wizard closes.
    pub fn polled(&mut self, progress: Progress) -> (res: Step)
        requires
            old(self).wf(),
        ensures
            final(self).wf(),
            final(self).wizard == old(self).wizard.ended(progress),
            final(self).found == old(self).found,
            (res.again, res.done, notice_view(res.notice)) == step_view(
                progress,
                None,
                "Import failed: "@,
            ),
    {
        self.wizard.polled(progress, "Import failed: ")
    }
}

/// A machine is imported only by a click on the last step, with a machine that was found
/// and selected, and with a name that is not blank.
pub proof fn import_comes_only_at_the_end(
    importing: Importing,
    place: Option<Place>,
    name: Seq<char>,
)
    requires
        importing.wf(),
    ensures
        importing.next_view(place, name).1 == ImportClick::Import <==> importing.wizard.step == LAST
            && trim(name).len() > 0,
        importing.next_view(place, name).1 == ImportClick::Import
            ==> importing.found.selected.is_some() && importing.found.selected.unwrap()
            < importing.found.vms@.len(),
{
}

} // verus!
