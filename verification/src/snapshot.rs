//! The snapshots of a machine's disk.
use crate::task::{notice_view, report, step_view, Progress, Step};
use crate::text::{is_blank, same_text, trim, trimmed, wrap};
use vstd::prelude::*;

verus! {

/// A snapshot of a disk.
#[derive(Debug)]
pub struct Snapshot {
    pub name: String,
    pub size: String,
    pub date: String,
}

/// The line below a snapshot's name: its date and its size.
pub fn subtitle(snapshot: &Snapshot) -> (res: String)
    ensures
        res@ == snapshot.date@ + "  ·  "@ + snapshot.size@,
{
    wrap(snapshot.date.as_str(), "  ·  ", snapshot.size.as_str())
}

/// The snapshots, and the one that is selected.
#[derive(Debug)]
pub struct Snapshots {
    pub all: Vec<Snapshot>,
    pub selected: Option<usize>,
}

impl Snapshots {
    /// The snapshot that is selected is one of them.
    pub open spec fn wf(self) -> bool {
        self.selected.is_some() ==> self.selected.unwrap() < self.all@.len()
    }

    /// No snapshots known.
    pub fn new() -> (res: Snapshots)
        ensures
            res.wf(),
            res.all@.len() == 0,
            res.selected.is_none(),
    {
        Snapshots { all: Vec::new(), selected: None }
    }

    /// The list was read again, or could not be. Nothing is selected then, and snapshots
    /// that were read take the place of those that were known.
    pub fn refreshed(&mut self, read: Option<Vec<Snapshot>>)
        ensures
            final(self).wf(),
            final(self).selected.is_none(),
            final(self).all@ == (match read {
                Some(all) => all@,
                None => old(self).all@,
            }),
    {
        self.selected = None;
        if let Some(all) = read {
            self.all = all;
        }
    }

    /// Selects a row, or none. A row without a snapshot selects none. Says whether
    /// a snapshot is selected, which can then be restored or deleted.
    pub fn select(&mut self, row: Option<usize>) -> (res: bool)
        ensures
            final(self).wf(),
            final(self).all == old(self).all,
            final(self).selected == (match row {
                Some(i) => if i < old(self).all@.len() {
                    Some(i)
                } else {
                    None
                },
                None => None,
            }),
            res == final(self).selected.is_some(),
    {
        self.selected = match row {
            Some(i) => if i < self.all.len() {
                Some(i)
            } else {
                None
            },
            None => None,
        };
        self.selected.is_some()
    }

    /// The name of the snapshot that is selected: the one to restore or delete.
    pub fn target(&self) -> (res: Option<String>)
        requires
            self.wf(),
        ensures
            res.is_some() == self.selected.is_some(),
            res.is_some() ==> res.unwrap()@ == self.all@[self.selected.unwrap() as int].name@,
    {
        match self.selected {
            Some(i) => Some(self.all[i].name.as_str().to_string()),
            None => None,
        }
    }
}

/// The name of the snapshot to create; none if no name was entered.
pub fn new_snapshot_name(entered: &str) -> (res: Option<String>)
    ensures
        res.is_some() <==> trim(entered@).len() > 0,
        res.is_some() ==> res.unwrap()@ == trim(entered@),
{
    if is_blank(entered) {
        None
    } else {
        Some(trimmed(entered))
    }
}

/// What to do about a creation: the step, whether the entry and its button can be used
/// again, and whether the entry is emptied.
#[derive(Debug)]
pub struct CreateStep {
    pub step: Step,
    pub unlock: bool,
    pub clear: bool,
}

/// What to do about a creation. The entry can be used again as soon as the creation is
/// over, however it ended; it is emptied if the snapshot was created.
pub fn create_polled(progress: Progress) -> (res: CreateStep)
    ensures
        (res.step.again, res.step.done, notice_view(res.step.notice)) == step_view(
            progress,
            Some("Snapshot created."@),
            "Create failed: "@,
        ),
        res.unlock == !(progress is Pending),
        res.clear == (progress is Done),
{
    let unlock: bool = match &progress {
        Progress::Pending => false,
        _ => true,
    };
    let step = report(progress, Some("Snapshot created."), "Create failed: ");
    let clear: bool = step.done;
    CreateStep { step, unlock, clear }
}

/// What to do about a restoration.
pub fn restore_polled(progress: Progress) -> (res: Step)
    ensures
        (res.again, res.done, notice_view(res.notice)) == step_view(
            progress,
            Some("Snapshot restored."@),
            "Restore failed: "@,
        ),
{
    report(progress, Some("Snapshot restored."), "Restore failed: ")
}

/// What to do about a deletion.
pub fn delete_polled(progress: Progress) -> (res: Step)
    ensures
        (res.again, res.done, notice_view(res.notice)) == step_view(
            progress,
            Some("Snapshot deleted."@),
            "Delete failed: "@,
        ),
{
    report(progress, Some("Snapshot deleted."), "Delete failed: ")
}

/// The question before a snapshot is restored.
pub fn restore_question(name: &str) -> (res: String)
    ensures
        res@ == "Restore \""@ + name@
            + "\"? All changes since this snapshot was taken will be lost."@,
{
    wrap("Restore \"", name, "\"? All changes since this snapshot was taken will be lost.")
}

/// The question before a snapshot is deleted.
pub fn delete_question(name: &str) -> (res: String)
    ensures
        res@ == "Delete \""@ + name@ + "\"? This cannot be undone."@,
{
    wrap("Delete \"", name, "\"? This cannot be undone.")
}

/// Whether the answer to the question says to restore the snapshot.
pub fn restore_confirmed(response: &str) -> (res: bool)
    ensures
        res == (response@ == "restore"@),
{
    same_text(response, "restore")
}

/// Whether the answer to the question says to delete the snapshot.
pub fn delete_confirmed(response: &str) -> (res: bool)
    ensures
        res == (response@ == "delete"@),
{
    same_text(response, "delete")
}

/// What is shown in place of snapshots: a text if there are none, and nothing if there are
/// any.
pub fn empty_text(snapshots: usize) -> (res: Option<&'static str>)
    ensures
        res.is_some() == (snapshots == 0),
        res matches Some(text) ==> text@ == "No snapshots yet"@,
{
    if snapshots == 0 {
        Some("No snapshots yet")
    } else {
        None
    }
}

} // verus!
