//! Projects: branches of edits on top of the master history, each with its
//! own committed steps, its own ongoing step, and undo and redo.
use crate::history::{copy_step, copy_steps, step_view, PlanHistory};
use crate::gesture::Gesture;
use crate::identity::GestureID;
use crate::plan::{
    find_in_steps, fold_onto, fold_steps, lemma_fold_lookup, plan_views, Plan, PlanView,
};
use vstd::prelude::*;

verus! {

/// A revision number one step on. A number that has reached the largest value
/// stays there.
pub open spec fn bump(revision: u64) -> u64 {
    if revision < u64::MAX {
        (revision + 1) as u64
    } else {
        revision
    }
}

/// Computes `bump`.
fn bumped(revision: u64) -> (r: u64)
    ensures
        r == bump(revision),
{
    if revision < u64::MAX {
        revision + 1
    } else {
        revision
    }
}

/// A branch of edits. Its committed steps are kept with a pointer: the steps
/// before the pointer count, those from the pointer on were undone and can be
/// redone until something new is committed.
pub struct Project {
    undoable: Vec<Plan>,
    redoable: Vec<Plan>,
    ongoing: Option<Plan>,
    history_revision: u64,
    ongoing_revision: u64,
}

/// What an observer knows of a project: the revisions it has seen last.
#[derive(Clone, Copy, PartialEq, Eq, Structural, Debug)]
pub struct KnownProjectState {
    pub history_revision: u64,
    pub ongoing_revision: u64,
}

/// What a project is, as a mathematical value.
pub struct ProjectView {
    /// All committed steps, those that were undone too.
    pub committed: Seq<PlanView>,
    /// How many of the committed steps count.
    pub undo_pointer: nat,
    pub ongoing: Option<PlanView>,
    /// Goes up whenever the committed steps or the pointer change.
    pub history_revision: u64,
    /// Goes up whenever the ongoing step is set or committed.
    pub ongoing_revision: u64,
}

/// What an observer is sent about a project.
pub enum ProjectUpdate {
    /// The observer is up to date.
    Unchanged,
    /// Only the ongoing step differs from what the observer has: the step,
    /// and what the observer knows once it has taken it.
    ChangedOngoing(Option<Plan>, KnownProjectState),
    /// The whole project, to take the place of what the observer has.
    ChangedCompletely(Project),
    /// The project is no more.
    Removed,
}

/// `ProjectUpdate` as a mathematical value.
pub enum ProjectUpdateView {
    Unchanged,
    ChangedOngoing(Option<PlanView>, KnownProjectState),
    ChangedCompletely(ProjectView),
    Removed,
}

impl ProjectView {
    /// The pointer lies within the committed steps.
    pub open spec fn wf(self) -> bool {
        self.undo_pointer <= self.committed.len()
    }

    /// The committed steps that count.
    pub open spec fn applied(self) -> Seq<PlanView> {
        self.committed.take(self.undo_pointer as int)
    }

    /// The state of the project on top of `base`: the committed steps that
    /// count laid over `base` in order, then the ongoing step.
    pub open spec fn resolved_on(self, base: PlanView) -> PlanView {
        let committed = fold_steps(base, self.applied());
        match self.ongoing {
            Some(step) => committed.union_prefer_right(step),
            None => committed,
        }
    }

    /// The project after `step` was made its ongoing step.
    pub open spec fn set_ongoing(self, step: PlanView) -> ProjectView {
        ProjectView {
            ongoing: Some(step),
            ongoing_revision: bump(self.ongoing_revision),
            ..self
        }
    }

    /// The project after its ongoing step was committed: the steps that were
    /// undone are dropped, the ongoing step becomes the last committed step,
    /// and there is no ongoing step any more. Without an ongoing step nothing
    /// changes.
    pub open spec fn commit(self) -> ProjectView {
        match self.ongoing {
            Some(step) => ProjectView {
                committed: self.applied().push(step),
                undo_pointer: self.undo_pointer + 1,
                ongoing: None,
                history_revision: bump(self.history_revision),
                ongoing_revision: bump(self.ongoing_revision),
            },
            None => self,
        }
    }

    /// The project after one step back. At the first step nothing changes.
    pub open spec fn undo(self) -> ProjectView {
        if self.undo_pointer > 0 {
            ProjectView {
                undo_pointer: (self.undo_pointer - 1) as nat,
                history_revision: bump(self.history_revision),
                ..self
            }
        } else {
            self
        }
    }

    /// The project after one step forward again. Behind the last step nothing
    /// changes.
    pub open spec fn redo(self) -> ProjectView {
        if self.undo_pointer < self.committed.len() {
            ProjectView {
                undo_pointer: self.undo_pointer + 1,
                history_revision: bump(self.history_revision),
                ..self
            }
        } else {
            self
        }
    }

    /// What an observer knows once it has this project.
    pub open spec fn known_state(self) -> KnownProjectState {
        KnownProjectState {
            history_revision: self.history_revision,
            ongoing_revision: self.ongoing_revision,
        }
    }

    /// What an observer who knows `known` is sent. A revision that has
    /// reached the largest value no longer tells states apart and is never
    /// taken as known.
    pub open spec fn update_for(self, known: KnownProjectState) -> ProjectUpdateView {
        if known.history_revision == self.history_revision && self.history_revision < u64::MAX {
            if known.ongoing_revision == self.ongoing_revision && self.ongoing_revision
                < u64::MAX {
                ProjectUpdateView::Unchanged
            } else {
                ProjectUpdateView::ChangedOngoing(self.ongoing, self.known_state())
            }
        } else {
            ProjectUpdateView::ChangedCompletely(self)
        }
    }
}

impl View for Project {
    type V = ProjectView;

    closed spec fn view(&self) -> ProjectView {
        let undoable = plan_views(self.undoable@);
        let redoable = plan_views(self.redoable@);
        ProjectView {
            committed: Seq::new(
                undoable.len() + redoable.len(),
                |i: int|
                    if i < undoable.len() {
                        undoable[i]
                    } else {
                        redoable[undoable.len() + redoable.len() - 1 - i]
                    },
            ),
            undo_pointer: undoable.len(),
            ongoing: step_view(self.ongoing),
            history_revision: self.history_revision,
            ongoing_revision: self.ongoing_revision,
        }
    }
}

impl View for ProjectUpdate {
    type V = ProjectUpdateView;

    open spec fn view(&self) -> ProjectUpdateView {
        match self {
            ProjectUpdate::Unchanged => ProjectUpdateView::Unchanged,
            ProjectUpdate::ChangedOngoing(step, known) => ProjectUpdateView::ChangedOngoing(
                step_view(*step),
                *known,
            ),
            ProjectUpdate::ChangedCompletely(project) => ProjectUpdateView::ChangedCompletely(
                project@,
            ),
            ProjectUpdate::Removed => ProjectUpdateView::Removed,
        }
    }
}

impl Clone for Project {
    fn clone(&self) -> (r: Self)
        ensures
            r@ == self@,
    {
        let r = Project {
            undoable: copy_steps(&self.undoable),
            redoable: copy_steps(&self.redoable),
            ongoing: copy_step(&self.ongoing),
            history_revision: self.history_revision,
            ongoing_revision: self.ongoing_revision,
        };
        assert(r@.committed =~= self@.committed);
        r
    }
}

impl Project {
    /// The pointer of a project always lies within its committed steps.
    pub proof fn lemma_wf(&self)
        ensures
            self@.wf(),
    {
    }

    proof fn lemma_applied(&self)
        ensures
            self@.applied() == plan_views(self.undoable@),
    {
        assert(self@.applied() =~= plan_views(self.undoable@));
    }

    /// A project without steps.
    pub fn new() -> (r: Project)
        ensures
            r@ == (ProjectView {
                committed: Seq::empty(),
                undo_pointer: 0,
                ongoing: None,
                history_revision: 0,
                ongoing_revision: 0,
            }),
    {
        let r = Project {
            undoable: Vec::new(),
            redoable: Vec::new(),
            ongoing: None,
            history_revision: 0,
            ongoing_revision: 0,
        };
        assert(r@.committed =~= Seq::empty());
        r
    }

    /// A project whose ongoing step is `plan`.
    pub fn from_plan(plan: Plan) -> (r: Project)
        ensures
            r@ == (ProjectView {
                committed: Seq::empty(),
                undo_pointer: 0,
                ongoing: Some(plan@),
                history_revision: 0,
                ongoing_revision: 0,
            }),
    {
        let r = Project {
            undoable: Vec::new(),
            redoable: Vec::new(),
            ongoing: Some(plan),
            history_revision: 0,
            ongoing_revision: 0,
        };
        assert(r@.committed =~= Seq::empty());
        r
    }

    /// How many committed steps were undone and can be redone.
    pub fn redo_count(&self) -> (r: usize)
        ensures
            r == self@.committed.len() - self@.undo_pointer,
    {
        self.redoable.len()
    }

    /// How many of the committed steps count.
    pub fn undo_pointer(&self) -> (r: usize)
        ensures
            r == self@.undo_pointer,
            self@.wf(),
    {
        self.undoable.len()
    }

    /// The committed steps that count, oldest first.
    pub fn current_history(&self) -> (r: &Vec<Plan>)
        ensures
            plan_views(r@) == self@.applied(),
    {
        proof {
            self.lemma_applied();
        }
        &self.undoable
    }

    /// The ongoing step, if there is one.
    pub fn ongoing(&self) -> (r: &Option<Plan>)
        ensures
            step_view(*r) == self@.ongoing,
    {
        &self.ongoing
    }

    /// Makes `step` the ongoing step, in place of the one before.
    pub fn set_ongoing_step(&mut self, step: Plan)
        ensures
            final(self)@ == old(self)@.set_ongoing(step@),
    {
        self.ongoing = Some(step);
        self.ongoing_revision = bumped(self.ongoing_revision);
    }

    /// Commits the ongoing step, if there is one.
    pub fn start_new_step(&mut self)
        ensures
            final(self)@ == old(self)@.commit(),
    {
        let mut ongoing: Option<Plan> = None;
        std::mem::swap(&mut self.ongoing, &mut ongoing);
        match ongoing {
            Some(step) => {
                self.undoable.push(step);
                self.redoable = Vec::new();
                self.history_revision = bumped(self.history_revision);
                self.ongoing_revision = bumped(self.ongoing_revision);
                assert(self@.committed =~= old(self)@.commit().committed);
            },
            None => {},
        }
    }

    /// Goes one committed step back, if there is one to go back to.
    pub fn undo(&mut self)
        ensures
            final(self)@ == old(self)@.undo(),
    {
        match self.undoable.pop() {
            Some(step) => {
                self.redoable.push(step);
                self.history_revision = bumped(self.history_revision);
                assert(self@.committed =~= old(self)@.committed);
            },
            None => {},
        }
    }

    /// Goes one committed step forward again, if one was undone.
    pub fn redo(&mut self)
        ensures
            final(self)@ == old(self)@.redo(),
    {
        match self.redoable.pop() {
            Some(step) => {
                self.undoable.push(step);
                self.history_revision = bumped(self.history_revision);
                assert(self@.committed =~= old(self)@.committed);
            },
            None => {},
        }
    }

    /// The state of the project on top of the current state of `master`.
    pub fn apply_to_with_ongoing(&self, master: &PlanHistory) -> (r: Plan)
        ensures
            r@ == self@.resolved_on(master@.resolved()),
    {
        let mut plan = master.resolve();
        fold_onto(&mut plan, &self.undoable);
        match &self.ongoing {
            Some(step) => {
                plan.absorb(step);
            },
            None => {},
        }
        proof {
            self.lemma_applied();
        }
        plan
    }

    /// The gesture under `id` as it stands in the state of the project on top
    /// of the current state of `master`, if it is there: looked up in the
    /// ongoing step first, then in the committed steps that count, from the
    /// last to the first, then in the master.
    pub fn find<'a>(&'a self, master: &'a PlanHistory, id: GestureID) -> (r: Option<&'a Gesture>)
        ensures
            match r {
                Some(gesture) => self@.resolved_on(master@.resolved()).contains_key(id) && gesture@
                    == self@.resolved_on(master@.resolved())[id],
                None => !self@.resolved_on(master@.resolved()).contains_key(id),
            },
    {
        proof {
            self.lemma_applied();
            lemma_fold_lookup(master@.resolved(), self@.applied(), id);
        }
        let ongoing = match &self.ongoing {
            Some(step) => step.get(id),
            None => None,
        };
        match ongoing {
            Some(gesture) => Some(gesture),
            None => match find_in_steps(&self.undoable, id) {
                Some(gesture) => Some(gesture),
                None => master.find(id),
            },
        }
    }

    /// What an observer knows once it has this project.
    pub fn known_state(&self) -> (r: KnownProjectState)
        ensures
            r == self@.known_state(),
    {
        KnownProjectState {
            history_revision: self.history_revision,
            ongoing_revision: self.ongoing_revision,
        }
    }

    /// What an observer who knows `known` has to be sent: nothing where it is
    /// up to date, the ongoing step where only that differs, the whole
    /// project otherwise.
    pub fn update_for(&self, known: &KnownProjectState) -> (r: ProjectUpdate)
        ensures
            r@ == self@.update_for(*known),
    {
        if known.history_revision == self.history_revision && self.history_revision < u64::MAX {
            if known.ongoing_revision == self.ongoing_revision && self.ongoing_revision
                < u64::MAX {
                ProjectUpdate::Unchanged
            } else {
                ProjectUpdate::ChangedOngoing(copy_step(&self.ongoing), self.known_state())
            }
        } else {
            ProjectUpdate::ChangedCompletely(self.clone())
        }
    }
}

} // verus!
