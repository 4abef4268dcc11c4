//! Passing the only graphics card of the host through to a machine.
use crate::task::{notice_view, report, step_view, Progress, Step};
use crate::text::{beside, wrap};
use vstd::prelude::*;

verus! {

/// The sign for something that is as it should be, or is not.
pub fn status_icon(ok: bool) -> (res: &'static str)
    ensures
        res@ == (if ok {
            "✓"@
        } else {
            "✗"@
        }),
{
    if ok {
        "✓"
    } else {
        "✗"
    }
}

/// The style class of that sign.
pub fn status_css(ok: bool) -> (res: &'static str)
    ensures
        res@ == (if ok {
            "success"@
        } else {
            "error"@
        }),
{
    if ok {
        "success"
    } else {
        "error"
    }
}

/// A row that says whether something is as it should be.
#[derive(Debug)]
pub struct StatusRow {
    pub title: String,
    pub subtitle: String,
    pub ok: bool,
    pub icon: &'static str,
    pub css: &'static str,
}

/// The title and the subtitle of a row, and whether its sign is the good one.
pub open spec fn row_view(row: StatusRow) -> (Seq<char>, Seq<char>, bool) {
    (row.title@, row.subtitle@, row.ok)
}

/// The sign of a row is that of its state.
pub open spec fn sign_fits(row: StatusRow) -> bool {
    if row.ok {
        row.icon@ == "✓"@ && row.css@ == "success"@
    } else {
        row.icon@ == "✗"@ && row.css@ == "error"@
    }
}

/// A row that says whether something is as it should be.
pub fn make_status_row(title: &str, ok: bool, subtitle: &str) -> (res: StatusRow)
    ensures
        row_view(res) == (title@, subtitle@, ok),
        sign_fits(res),
{
    StatusRow {
        title: title.to_string(),
        subtitle: subtitle.to_string(),
        ok,
        icon: status_icon(ok),
        css: status_css(ok),
    }
}

/// What the host offers for passing its only graphics card through.
#[derive(Clone, Copy, Debug, PartialEq, Eq, Structural)]
pub struct Support {
    pub iommu_enabled: bool,
    pub vfio_available: bool,
    /// The card on which the host boots was found.
    pub has_boot_vga: bool,
}

impl Support {
    /// The card can be passed through.
    pub open spec fn supported(self) -> bool {
        self.iommu_enabled && self.vfio_available && self.has_boot_vga
    }

    /// Whether the card can be passed through: all the host has to offer is there.
    pub fn is_supported(&self) -> (res: bool)
        ensures
            res == self.supported(),
    {
        self.iommu_enabled && self.vfio_available && self.has_boot_vga
    }

    /// The rows for what the host has to offer: IOMMU, VFIO and the card.
    pub fn prerequisites(&self) -> (res: Vec<StatusRow>)
        ensures
            res@.len() == 3,
            row_view(res@[0]) == (
                "IOMMU"@,
                if self.iommu_enabled {
                    "Enabled in kernel"@
                } else {
                    "Add intel_iommu=on or amd_iommu=on to kernel parameters"@
                },
                self.iommu_enabled,
            ),
            row_view(res@[1]) == (
                "VFIO Modules"@,
                if self.vfio_available {
                    "vfio-pci loaded"@
                } else {
                    "Run: sudo modprobe vfio-pci"@
                },
                self.vfio_available,
            ),
            row_view(res@[2]) == (
                "Boot GPU"@,
                if self.has_boot_vga {
                    "Boot VGA device found"@
                } else {
                    "No boot VGA device detected"@
                },
                self.has_boot_vga,
            ),
            forall|i: int| 0 <= i < 3 ==> sign_fits(#[trigger] res@[i]),
            self.supported() <==> forall|i: int| 0 <= i < 3 ==> (#[trigger] res@[i]).ok,
    {
        let mut rows: Vec<StatusRow> = Vec::new();
        rows.push(
            make_status_row(
                "IOMMU",
                self.iommu_enabled,
                if self.iommu_enabled {
                    "Enabled in kernel"
                } else {
                    "Add intel_iommu=on or amd_iommu=on to kernel parameters"
                },
            ),
        );
        rows.push(
            make_status_row(
                "VFIO Modules",
                self.vfio_available,
                if self.vfio_available {
                    "vfio-pci loaded"
                } else {
                    "Run: sudo modprobe vfio-pci"
                },
            ),
        );
        rows.push(
            make_status_row(
                "Boot GPU",
                self.has_boot_vga,
                if self.has_boot_vga {
                    "Boot VGA device found"
                } else {
                    "No boot VGA device detected"
                },
            ),
        );
        proof {
            assert(rows@[0].ok == self.iommu_enabled);
            assert(rows@[1].ok == self.vfio_available);
            assert(rows@[2].ok == self.has_boot_vga);
        }
        rows
    }
}

/// The name of a card: that of its vendor, and its own.
pub fn gpu_title(vendor: &str, device: &str) -> (res: String)
    ensures
        res@ == vendor@ + " "@ + device@,
{
    wrap(vendor, " ", device)
}

/// The address of a card, as it is shown.
pub fn gpu_address(address: &str) -> (res: String)
    ensures
        res@ == "PCI "@ + address@,
{
    beside("PCI ", address)
}

/// The buttons for the scripts of a machine: whether scripts can be generated, whether
/// that is going on, and whether scripts can be deleted.
#[derive(Clone, Copy, Debug, PartialEq, Eq, Structural)]
pub struct ScriptButtons {
    pub generate: bool,
    pub generating: bool,
    pub delete: bool,
}

impl ScriptButtons {
    /// The buttons before the host has been checked: none can be pressed.
    pub fn new() -> (res: ScriptButtons)
        ensures
            res == (ScriptButtons { generate: false, generating: false, delete: false }),
    {
        ScriptButtons { generate: false, generating: false, delete: false }
    }

    /// The host has been checked. Only if the card can be passed through are there scripts
    /// to generate, or to delete if there are any.
    pub fn checked(&mut self, support: &Support, have_scripts: bool)
        ensures
            *final(self) == (if support.supported() {
                ScriptButtons {
                    generate: true,
                    generating: old(self).generating,
                    delete: have_scripts,
                }
            } else {
                *old(self)
            }),
    {
        if support.is_supported() {
            self.generate = true;
            self.delete = have_scripts;
        }
    }

    /// Scripts are being generated: the button waits.
    pub fn generate_started(&mut self)
        ensures
            *final(self) == (ScriptButtons {
                generate: false,
                generating: true,
                delete: old(self).delete,
            }),
    {
        self.generate = false;
        self.generating = true;
    }

    /// The buttons after asking how the generation stands.
    pub open spec fn after_generate(self, progress: Progress) -> ScriptButtons {
        match progress {
            Progress::Done => ScriptButtons { generate: true, generating: false, delete: true },
            Progress::Failed(_) => ScriptButtons {
                generate: true,
                generating: false,
                delete: self.delete,
            },
            _ => self,
        }
    }

    /// Asks how the generation of the scripts stands.
    pub fn generate_polled(&mut self, progress: Progress) -> (res: Step)
        ensures
            *final(self) == old(self).after_generate(progress),
            (res.again, res.done, notice_view(res.notice)) == step_view(
                progress,
                Some("Scripts generated successfully."@),
                "Failed: "@,
            ),
    {
        match &progress {
            Progress::Done => {
                self.generate = true;
                self.generating = false;
                self.delete = true;
            },
            Progress::Failed(_) => {
                self.generate = true;
                self.generating = false;
            },
            _ => {},
        }
        report(progress, Some("Scripts generated successfully."), "Failed: ")
    }

    /// The buttons after asking how the deletion stands.
    pub open spec fn after_delete(self, progress: Progress) -> ScriptButtons {
        match progress {
            Progress::Done => ScriptButtons {
                generate: self.generate,
                generating: self.generating,
                delete: false,
            },
            _ => self,
        }
    }

    /// Asks how the deletion of the scripts stands.
    pub fn delete_polled(&mut self, progress: Progress) -> (res: Step)
        ensures
            *final(self) == old(self).after_delete(progress),
            (res.again, res.done, notice_view(res.notice)) == step_view(
                progress,
                Some("Scripts deleted."@),
                "Delete failed: "@,
            ),
    {
        match &progress {
            Progress::Done => {
                self.delete = false;
            },
            _ => {},
        }
        report(progress, Some("Scripts deleted."), "Delete failed: ")
    }
}

/// What the button that generates scripts says.
pub fn generate_label(generating: bool) -> (res: &'static str)
    ensures
        res@ == (if generating {
            "Generating…"@
        } else {
            "Generate Scripts"@
        }),
{
    if generating {
        "Generating…"
    } else {
        "Generate Scripts"
    }
}

/// Scripts can be deleted after they were generated, and not after they were deleted.
pub proof fn scripts_are_deleted_once(buttons: ScriptButtons)
    ensures
        buttons.after_generate(Progress::Done).delete,
        !buttons.after_delete(Progress::Done).delete,
        buttons.after_delete(Progress::Done).generate == buttons.generate,
{
}

} // verus!
