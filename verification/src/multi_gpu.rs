//! Passing a second graphics card of the host through to a machine.
use crate::numbers::{decimal, decimal_text};
use crate::single_gpu::{make_status_row, row_view, sign_fits, StatusRow};
use crate::task::{notice_view, report, step_view, Progress, Step};
use vstd::prelude::*;
use vstd::string::StringExecFns;

verus! {

/// A row that says whether something is as it should be.
pub fn badge_row(title: &str, ok: bool, subtitle: &str) -> (res: StatusRow)
    ensures
        row_view(res) == (title@, subtitle@, ok),
        sign_fits(res),
{
    make_status_row(title, ok, subtitle)
}

/// The rows for the state of the host: IOMMU, VFIO, and the Looking Glass client with its
/// path, if it was found.
pub fn status_rows(iommu_enabled: bool, vfio_loaded: bool, client: Option<&str>) -> (res: Vec<
    StatusRow,
>)
    ensures
        res@.len() == 3,
        row_view(res@[0]) == (
            "IOMMU"@,
            if iommu_enabled {
                "Enabled"@
            } else {
                "Not enabled — add intel_iommu=on or amd_iommu=on"@
            },
            iommu_enabled,
        ),
        row_view(res@[1]) == (
            "VFIO"@,
            if vfio_loaded {
                "Modules loaded"@
            } else {
                "Run: sudo modprobe vfio-pci"@
            },
            vfio_loaded,
        ),
        row_view(res@[2]) == (
            "Looking Glass Client"@,
            match client {
                Some(path) => path@,
                None => "Not found — install looking-glass-client"@,
            },
            client.is_some(),
        ),
        forall|i: int| 0 <= i < 3 ==> sign_fits(#[trigger] res@[i]),
{
    let mut rows: Vec<StatusRow> = Vec::new();
    rows.push(
        badge_row(
            "IOMMU",
            iommu_enabled,
            if iommu_enabled {
                "Enabled"
            } else {
                "Not enabled — add intel_iommu=on or amd_iommu=on"
            },
        ),
    );
    rows.push(
        badge_row(
            "VFIO",
            vfio_loaded,
            if vfio_loaded {
                "Modules loaded"
            } else {
                "Run: sudo modprobe vfio-pci"
            },
        ),
    );
    rows.push(
        badge_row(
            "Looking Glass Client",
            client.is_some(),
            match client {
                Some(path) => path,
                None => "Not found — install looking-glass-client",
            },
        ),
    );
    rows
}

/// The line below a card's name: its address, its IOMMU group if it has one, and the audio
/// device that goes with it if there is one.
pub open spec fn gpu_subtitle_view(
    address: Seq<char>,
    iommu_group: Option<u32>,
    audio: Option<Seq<char>>,
) -> Seq<char> {
    let base = "PCI "@ + address;
    let grouped = match iommu_group {
        Some(g) => base + " · IOMMU group "@ + decimal(g as int),
        None => base,
    };
    match audio {
        Some(a) => grouped + " + audio "@ + a,
        None => grouped,
    }
}

/// The line below a card's name.
pub fn gpu_subtitle(address: &str, iommu_group: Option<u32>, audio: Option<&str>) -> (res: String)
    ensures
        res@ == gpu_subtitle_view(
            address@,
            iommu_group,
            match audio {
                Some(a) => Some(a@),
                None => None,
            },
        ),
{
    let mut out: String = "PCI ".to_string();
    out.append(address);
    if let Some(g) = iommu_group {
        out.append(" · IOMMU group ");
        out.append(decimal_text(g as u64).as_str());
    }
    if let Some(a) = audio {
        out.append(" + audio ");
        out.append(a);
    }
    out
}

/// The card that is chosen, and the button that applies the choice: whether it can be
/// pressed, and whether the choice is being applied.
#[derive(Clone, Copy, Debug, PartialEq, Eq, Structural)]
pub struct Choice {
    pub gpu: Option<usize>,
    pub apply: bool,
    pub applying: bool,
}

impl Choice {
    /// No card chosen yet, and nothing to apply.
    pub fn new() -> (res: Choice)
        ensures
            res == (Choice { gpu: None, apply: false, applying: false }),
    {
        Choice { gpu: None, apply: false, applying: false }
    }

    /// The mark of a card was set or taken off. A card whose mark is set is the one that
    /// is chosen.
    pub fn toggled(&mut self, gpu: usize, active: bool)
        ensures
            *final(self) == (if active {
                Choice { gpu: Some(gpu), apply: true, applying: old(self).applying }
            } else {
                *old(self)
            }),
    {
        if active {
            self.gpu = Some(gpu);
            self.apply = true;
        }
    }

    /// Begins to apply the choice. Gives the card, if one is chosen.
    pub fn start(&mut self) -> (res: Option<usize>)
        ensures
            res == old(self).gpu,
            *final(self) == (if old(self).gpu.is_some() {
                Choice { gpu: old(self).gpu, apply: false, applying: true }
            } else {
                *old(self)
            }),
    {
        if self.gpu.is_some() {
            self.apply = false;
            self.applying = true;
        }
        self.gpu
    }

    /// The choice after asking how its application stands.
    pub open spec fn after(self, progress: Progress) -> Choice {
        match progress {
            Progress::Done => Choice { gpu: self.gpu, apply: true, applying: false },
            Progress::Failed(_) => Choice { gpu: self.gpu, apply: true, applying: false },
            _ => self,
        }
    }

    /// Asks how the application of the choice stands.
    pub fn polled(&mut self, progress: Progress) -> (res: Step)
        ensures
            *final(self) == old(self).after(progress),
            (res.again, res.done, notice_view(res.notice)) == step_view(
                progress,
                Some("PCI passthrough saved."@),
                "Failed: "@,
            ),
    {
        match &progress {
            Progress::Done => {
                self.apply = true;
                self.applying = false;
            },
            Progress::Failed(_) => {
                self.apply = true;
                self.applying = false;
            },
            _ => {},
        }
        report(progress, Some("PCI passthrough saved."), "Failed: ")
    }

    /// There is a card to apply whenever the button can be pressed.
    pub open spec fn settled(self) -> bool {
        self.apply ==> self.gpu.is_some()
    }
}

/// The devices that are passed through: the card, and the audio device that goes with it if
/// there is one.
pub fn passed_devices<T>(gpu: T, audio: Option<T>) -> (res: Vec<T>)
    ensures
        res@ == (match audio {
            Some(a) => seq![gpu, a],
            None => seq![gpu],
        }),
{
    let mut out: Vec<T> = Vec::new();
    out.push(gpu);
    if let Some(a) = audio {
        out.push(a);
    }
    out
}

/// What the button that applies the choice says.
pub fn apply_label(applying: bool) -> (res: &'static str)
    ensures
        res@ == (if applying {
            "Applying…"@
        } else {
            "Apply"@
        }),
{
    if applying {
        "Applying…"
    } else {
        "Apply"
    }
}

/// Whether the rows for errors and warnings are shown: if there are any.
pub fn shows_problems(errors: usize, warnings: usize) -> (res: bool)
    ensures
        res == (errors + warnings > 0),
{
    errors > 0 || warnings > 0
}

/// A choice that has been applied, or could not be, can be applied again.
pub proof fn choice_can_be_applied_again(choice: Choice, progress: Progress)
    requires
        choice.gpu.is_some(),
        progress is Done || progress is Failed,
    ensures
        choice.after(progress).apply,
        choice.after(progress).settled(),
        choice.after(progress).gpu == choice.gpu,
{
}

/// What is shown in place of cards: a title and a line below it if there are none, and
/// nothing if there are any.
pub fn empty_text(gpus: usize) -> (res: Option<(&'static str, &'static str)>)
    ensures
        res.is_some() == (gpus == 0),
        res matches Some(texts) ==> texts.0@ == "No passthrough-capable GPUs found"@ && texts.1@
            == "A secondary GPU (non-boot VGA) with an IOMMU group is required"@,
{
    if gpus == 0 {
        Some(
            (
                "No passthrough-capable GPUs found",
                "A secondary GPU (non-boot VGA) with an IOMMU group is required",
            ),
        )
    } else {
        None
    }
}

} // verus!
