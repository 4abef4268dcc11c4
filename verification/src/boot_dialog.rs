//! How a machine is booted.
use vstd::prelude::*;

verus! {

/// The ways to boot: from the disk, from the install media, or from an image that was
/// chosen.
#[derive(Clone, Copy, Debug, PartialEq, Eq, Structural)]
pub enum BootMode {
    Normal,
    Install,
    Cdrom,
}

/// The dialog: which choice is marked, whether an image has been chosen, and whether the
/// launch button can be pressed.
#[derive(Clone, Copy, Debug, PartialEq, Eq, Structural)]
pub struct BootDialog {
    pub mode: BootMode,
    pub has_image: bool,
    pub launch: bool,
}

impl BootDialog {
    /// An image is there whenever the launch from an image can be pressed.
    pub open spec fn wf(self) -> bool {
        self.launch && self.mode == BootMode::Cdrom ==> self.has_image
    }

    /// The dialog at first: a normal boot.
    pub fn new() -> (res: BootDialog)
        ensures
            res.wf(),
            res == (BootDialog { mode: BootMode::Normal, has_image: false, launch: true }),
    {
        BootDialog { mode: BootMode::Normal, has_image: false, launch: true }
    }

    /// Whether the row for the image is shown.
    pub fn shows_image(&self) -> (res: bool)
        ensures
            res == (self.mode == BootMode::Cdrom),
    {
        self.mode == BootMode::Cdrom
    }

    /// Marks a choice. Going to the image holds the launch back until an image is chosen;
    /// leaving it makes the launch possible.
    pub fn mark(&mut self, mode: BootMode)
        requires
            old(self).wf(),
        ensures
            final(self).wf(),
            final(self).mode == mode,
            final(self).has_image == old(self).has_image,
            final(self).launch == (if mode == old(self).mode {
                old(self).launch
            } else if mode == BootMode::Cdrom {
                false
            } else if old(self).mode == BootMode::Cdrom {
                true
            } else {
                old(self).launch
            }),
    {
        if mode != self.mode {
            if mode == BootMode::Cdrom {
                self.launch = false;
            } else if self.mode == BootMode::Cdrom {
                self.launch = true;
            }
            self.mode = mode;
        }
    }

    /// An image was chosen: the launch is possible.
    pub fn image_chosen(&mut self)
        ensures
            final(self).wf(),
            *final(self) == (BootDialog { mode: old(self).mode, has_image: true, launch: true }),
    {
        self.has_image = true;
        self.launch = true;
    }

    /// The way to boot when the launch is pressed: none where an image is wanted and none
    /// has been chosen.
    pub open spec fn launch_view(self) -> Option<BootMode> {
        if self.mode == BootMode::Cdrom && !self.has_image {
            None
        } else {
            Some(self.mode)
        }
    }

    /// The way to boot when the launch is pressed.
    pub fn launch_mode(&self) -> (res: Option<BootMode>)
        ensures
            res == self.launch_view(),
    {
        if self.mode == BootMode::Cdrom && !self.has_image {
            None
        } else {
            Some(self.mode)
        }
    }
}

/// The name of the image, as it is shown; nothing for a path without a name at its end.
pub fn image_label(file_name: Option<&str>) -> (res: String)
    ensures
        res@ == (match file_name {
            Some(name) => name@,
            None => ""@,
        }),
{
    match file_name {
        Some(name) => name.to_string(),
        None => "".to_string(),
    }
}

/// A launch button that can be pressed launches.
pub proof fn launch_button_launches(dialog: BootDialog)
    requires
        dialog.wf(),
        dialog.launch,
    ensures
        dialog.launch_view() == Some(dialog.mode),
{
}

} // verus!
