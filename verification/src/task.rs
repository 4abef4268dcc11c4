//! Work that runs in the background, and what its end makes the user see.
use crate::text::beside;
use vstd::prelude::*;

verus! {

/// A short message to the user. One that stays is there until it is dismissed; any other
/// goes away by itself.
#[derive(Debug)]
pub struct Notice {
    pub text: String,
    pub stays: bool,
}

/// The text of a notice, and whether it stays.
pub open spec fn notice_view(notice: Option<Notice>) -> Option<(Seq<char>, bool)> {
    match notice {
        Some(n) => Some((n.text@, n.stays)),
        None => None,
    }
}

/// How work in the background stands.
#[derive(Debug)]
pub enum Progress {
    /// It has succeeded.
    Done,
    /// It has failed, for a reason.
    Failed(String),
    /// It is still going on.
    Pending,
    /// It ended without saying how.
    Lost,
}

/// What to do about work in the background.
#[derive(Debug)]
pub struct Step {
    /// Ask again later.
    pub again: bool,
    /// The work has succeeded, and what depends on it can be done.
    pub done: bool,
    /// What to tell the user.
    pub notice: Option<Notice>,
}

/// What to do about work that stands as `progress`. Success is told as `success`, if that
/// is given. A failure is told as `failure` with the reason behind it, and stays. Work
/// that was lost is not told of.
pub open spec fn step_view(progress: Progress, success: Option<Seq<char>>, failure: Seq<char>) -> (
    bool,
    bool,
    Option<(Seq<char>, bool)>,
) {
    match progress {
        Progress::Done => (
            false,
            true,
            match success {
                Some(text) => Some((text, false)),
                None => None,
            },
        ),
        Progress::Failed(reason) => (false, false, Some((failure + reason@, true))),
        Progress::Pending => (true, false, None),
        Progress::Lost => (false, false, None),
    }
}

/// A notice that goes away by itself.
pub fn passing(text: &str) -> (res: Notice)
    ensures
        res.text@ == text@,
        !res.stays,
{
    Notice { text: text.to_string(), stays: false }
}

/// The notice of a failure: it stays.
pub fn failure_notice(failure: &str, reason: &str) -> (res: Notice)
    ensures
        res.text@ == failure@ + reason@,
        res.stays,
{
    Notice { text: beside(failure, reason), stays: true }
}

/// What to do about work that stands as `progress`.
pub fn report(progress: Progress, success: Option<&str>, failure: &str) -> (res: Step)
    ensures
        (res.again, res.done, notice_view(res.notice)) == step_view(
            progress,
            match success {
                Some(text) => Some(text@),
                None => None,
            },
            failure@,
        ),
{
    match progress {
        Progress::Done => match success {
            Some(text) => Step { again: false, done: true, notice: Some(passing(text)) },
            None => Step { again: false, done: true, notice: None },
        },
        Progress::Failed(reason) => {
            let notice = failure_notice(failure, reason.as_str());
            Step { again: false, done: false, notice: Some(notice) }
        },
        Progress::Pending => Step { again: true, done: false, notice: None },
        Progress::Lost => Step { again: false, done: false, notice: None },
    }
}

/// What the end of an action on a process is told as: the whole of `success`, or `failure`
/// with the reason behind it.
pub fn told(outcome: Result<(), String>, success: &str, failure: &str) -> (res: Notice)
    ensures
        notice_view(Some(res)) == (match outcome {
            Ok(_) => Some((success@, false)),
            Err(reason) => Some((failure@ + reason@, true)),
        }),
{
    match outcome {
        Ok(_) => passing(success),
        Err(reason) => failure_notice(failure, reason.as_str()),
    }
}

/// Work is asked after exactly while it goes on; once it is not, nothing follows but its
/// success.
pub proof fn work_ends_once(progress: Progress, success: Option<Seq<char>>, failure: Seq<char>)
    ensures
        step_view(progress, success, failure).0 <==> progress is Pending,
        step_view(progress, success, failure).1 <==> progress is Done,
        progress is Failed <==> step_view(progress, success, failure).2.is_some()
            && step_view(progress, success, failure).2.unwrap().1,
{
}

} // verus!
