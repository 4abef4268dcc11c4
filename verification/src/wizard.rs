//! The steps of a wizard, and its buttons.
use crate::numbers::{decimal, decimal_text};
use crate::task::{notice_view, report, step_view, Progress, Step};
use vstd::prelude::*;
use vstd::string::StringExecFns;

verus! {

/// What the button that leads on says.
#[derive(Clone, Copy, Debug, PartialEq, Eq, Structural)]
pub enum NextLabel {
    /// That it leads to the next step.
    Next,
    /// That it does what the wizard is for.
    Finish,
    /// That this is being done.
    Working,
}

/// What a click on the button that leads on does.
#[derive(Clone, Copy, Debug, PartialEq, Eq, Structural)]
pub enum Click {
    /// Nothing: the step is not ready to be left.
    Refuse,
    /// It shows the next step.
    Show,
    /// It does what the wizard is for.
    Finish,
}

/// A wizard: the step that is shown, counted from 0, the last step, whether the buttons
/// that lead back and on can be pressed, and what the latter says.
#[derive(Clone, Copy, Debug, PartialEq, Eq, Structural)]
pub struct Wizard {
    pub step: usize,
    pub last: usize,
    pub back: bool,
    pub next: bool,
    pub label: NextLabel,
}

impl Wizard {
    /// The step is one of the wizard's, and there is a way back from all but the first.
    pub open spec fn wf(self) -> bool {
        self.step <= self.last && self.back == (self.step > 0) && self.last < usize::MAX
    }

    /// The wizard at its first step.
    pub fn new(last: usize) -> (res: Wizard)
        requires
            last < usize::MAX,
        ensures
            res.wf(),
            res == (Wizard { step: 0, last, back: false, next: true, label: NextLabel::Next }),
    {
        Wizard { step: 0, last, back: false, next: true, label: NextLabel::Next }
    }

    /// The wizard one step before.
    pub open spec fn before(self) -> Wizard {
        if self.step == 0 {
            self
        } else {
            Wizard {
                step: (self.step - 1) as usize,
                back: self.step > 1,
                label: NextLabel::Next,
                ..self
            }
        }
    }

    /// Goes back one step; from the first step there is no way back.
    pub fn go_back(&mut self)
        requires
            old(self).wf(),
        ensures
            final(self).wf(),
            *final(self) == old(self).before(),
    {
        if self.step > 0 {
            self.step = self.step - 1;
            self.back = self.step > 0;
            self.label = NextLabel::Next;
        }
    }

    /// The wizard one step on. The last step is the one that does what the wizard is for.
    pub open spec fn after(self) -> Wizard {
        Wizard {
            step: (self.step + 1) as usize,
            back: true,
            label: if self.step + 1 == self.last {
                NextLabel::Finish
            } else {
                self.label
            },
            ..self
        }
    }

    /// What a click on the button that leads on does, when the step is ready to be left or
    /// not: nothing, or the next step, or, on the last step, what the wizard is for.
    pub open spec fn clicked(self, ready: bool) -> (Wizard, Click) {
        if !ready {
            (self, Click::Refuse)
        } else if self.step < self.last {
            (self.after(), Click::Show)
        } else {
            (Wizard { next: false, label: NextLabel::Working, ..self }, Click::Finish)
        }
    }

    /// Takes a click on the button that leads on.
    pub fn click(&mut self, ready: bool) -> (res: Click)
        requires
            old(self).wf(),
        ensures
            final(self).wf(),
            (*final(self), res) == old(self).clicked(ready),
    {
        if !ready {
            Click::Refuse
        } else if self.step < self.last {
            self.step = self.step + 1;
            self.back = true;
            if self.step == self.last {
                self.label = NextLabel::Finish;
            }
            Click::Show
        } else {
            self.next = false;
            self.label = NextLabel::Working;
            Click::Finish
        }
    }

    /// The wizard after asking how what it is for stands: where it could not be done, it
    /// can be tried again.
    pub open spec fn ended(self, progress: Progress) -> Wizard {
        if progress is Failed {
            Wizard { next: true, label: NextLabel::Finish, ..self }
        } else {
            self
        }
    }

    /// Asks how what the wizard is for stands. Once it is done the wizard closes.
    pub fn polled(&mut self, progress: Progress, failure: &str) -> (res: Step)
        requires
            old(self).wf(),
        ensures
            final(self).wf(),
            *final(self) == old(self).ended(progress),
            (res.again, res.done, notice_view(res.notice)) == step_view(progress, None, failure@),
    {
        match &progress {
            Progress::Failed(_) => {
                self.next = true;
                self.label = NextLabel::Finish;
            },
            _ => {},
        }
        report(progress, None, failure)
    }

    /// The step and the number of steps, as they are shown.
    pub fn step_text(&self) -> (res: String)
        requires
            self.wf(),
        ensures
            res@ == "Step "@ + decimal(self.step + 1) + " of "@ + decimal(self.last + 1),
    {
        let mut out: String = "Step ".to_string();
        out.append(decimal_text((self.step + 1) as u64).as_str());
        out.append(" of ");
        out.append(decimal_text((self.last + 1) as u64).as_str());
        out
    }
}

/// Going back undoes going on.
pub proof fn back_undoes_next(w: Wizard)
    requires
        w.wf(),
        w.step < w.last,
        w.label == NextLabel::Next,
    ensures
        w.after().before() == w,
{
}

/// The last step, and no other, is the one whose button says that it does what the wizard
/// is for.
pub proof fn finish_is_offered_at_the_end(w: Wizard)
    requires
        w.wf(),
        w.step < w.last,
        w.label == NextLabel::Next,
    ensures
        w.after().label == NextLabel::Finish <==> w.after().step == w.after().last,
        w.after().before().after() == w.after(),
{
}

/// What the wizard is for is done by a click on the last step, when that is ready, and by
/// no other.
pub proof fn finish_comes_only_at_the_end(w: Wizard, ready: bool)
    requires
        w.wf(),
    ensures
        w.clicked(ready).1 == Click::Finish <==> ready && w.step == w.last,
{
}

/// Where what the wizard is for could not be done, the last step stays, and a click on it
/// tries again.
pub proof fn failure_can_be_tried_again(w: Wizard, progress: Progress, ready: bool)
    requires
        w.wf(),
        progress is Failed,
    ensures
        w.ended(progress).step == w.step,
        w.ended(progress).next,
        w.ended(progress).label == NextLabel::Finish,
        w.ended(progress).clicked(ready).1 == w.clicked(ready).1,
{
}

/// What can happen to a wizard.
pub enum Press {
    Back,
    /// The button that leads on, with whether the step is ready to be left.
    Next(bool),
    /// News of what the wizard is for.
    News(Progress),
}

/// The wizard after it happened.
pub open spec fn press(w: Wizard, p: Press) -> Wizard {
    match p {
        Press::Back => w.before(),
        Press::Next(ready) => w.clicked(ready).0,
        Press::News(progress) => w.ended(progress),
    }
}

/// The wizard after all of it happened, in order.
pub open spec fn pressed(w: Wizard, ps: Seq<Press>) -> Wizard
    decreases ps.len(),
{
    if ps.len() == 0 {
        w
    } else {
        press(pressed(w, ps.drop_last()), ps.last())
    }
}

/// Whatever happens, the step is one of the wizard's.
pub proof fn steps_stay_in_range(w: Wizard, ps: Seq<Press>)
    requires
        w.wf(),
    ensures
        pressed(w, ps).wf(),
        pressed(w, ps).last == w.last,
    decreases ps.len(),
{
    if ps.len() > 0 {
        steps_stay_in_range(w, ps.drop_last());
    }
}

/// Press number `k` is a click on step number `step`, and shows the step behind it.
pub open spec fn shows_after(w: Wizard, ps: Seq<Press>, k: int, step: int) -> bool {
    &&& 0 <= k < ps.len()
    &&& ps[k] == Press::Next(true)
    &&& pressed(w, ps.take(k)).step == step
    &&& step < w.last
}

/// A step that lies ahead is reached by a click on the step before it, when that was ready.
pub proof fn steps_are_left_when_ready(w: Wizard, ps: Seq<Press>, step: int)
    requires
        w.wf(),
        w.step <= step < pressed(w, ps).step,
    ensures
        exists|k: int| #[trigger] shows_after(w, ps, k, step),
    decreases ps.len(),
{
    let front = ps.drop_last();
    let n = ps.len() - 1;
    steps_stay_in_range(w, front);
    if pressed(w, front).step > step {
        steps_are_left_when_ready(w, front, step);
        let k = choose|k: int| #[trigger] shows_after(w, front, k, step);
        assert(front.take(k) =~= ps.take(k));
        assert(shows_after(w, ps, k, step));
    } else {
        assert(ps.take(n) =~= front);
        assert(shows_after(w, ps, n, step));
    }
}

/// Before what the wizard is for is done, its last step was shown.
pub proof fn last_step_is_shown_first(w: Wizard, ps: Seq<Press>, ready: bool)
    requires
        w.wf(),
        w.step < w.last,
        pressed(w, ps).clicked(ready).1 == Click::Finish,
    ensures
        exists|k: int| #[trigger] shows_after(w, ps, k, w.last - 1),
{
    steps_stay_in_range(w, ps);
    steps_are_left_when_ready(w, ps, w.last - 1);
}

} // verus!
