//! The editor for a launch script.
use crate::task::{notice_view, report, step_view, Progress, Step};
use crate::text::same_text;
use vstd::prelude::*;

verus! {

/// What to do when the editor is to be closed.
#[derive(Clone, Copy, Debug, PartialEq, Eq, Structural)]
pub enum CloseStep {
    Close,
    /// Ask whether the changes are to be lost.
    Ask,
}

/// The editor: whether the text has been changed since it was opened or saved.
#[derive(Clone, Copy, Debug, PartialEq, Eq, Structural)]
pub struct Editor {
    pub dirty: bool,
}

impl Editor {
    /// An editor whose text has just been opened.
    pub fn new() -> (res: Editor)
        ensures
            !res.dirty,
    {
        Editor { dirty: false }
    }

    /// The text was changed.
    pub fn changed(&mut self)
        ensures
            final(self).dirty,
    {
        self.dirty = true;
    }

    /// What to do when the editor is to be closed: changes are not lost without asking.
    pub fn close_attempt(&self) -> (res: CloseStep)
        ensures
            res == CloseStep::Ask <==> self.dirty,
    {
        if self.dirty {
            CloseStep::Ask
        } else {
            CloseStep::Close
        }
    }

    /// Takes the answer to the question, and says whether the editor closes.
    pub fn answered(&mut self, response: &str) -> (res: bool)
        ensures
            res == (response@ == "discard"@),
            final(self).dirty == (old(self).dirty && !res),
    {
        if same_text(response, "discard") {
            self.dirty = false;
            true
        } else {
            false
        }
    }

    /// Asks how the saving stands. Once it is done there are no changes left, and the
    /// editor closes.
    pub fn save_polled(&mut self, progress: Progress) -> (res: Step)
        ensures
            (res.again, res.done, notice_view(res.notice)) == step_view(
                progress,
                None,
                "Save failed: "@,
            ),
            final(self).dirty == (old(self).dirty && !(progress is Done)),
    {
        match &progress {
            Progress::Done => {
                self.dirty = false;
            },
            _ => {},
        }
        report(progress, None, "Save failed: ")
    }
}

} // verus!
