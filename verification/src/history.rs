//! The master history: the steps committed so far, the step that is being
//! worked on, and a version by which an observer can tell whether it is up to
//! date.
use crate::gesture::Gesture;
use crate::identity::GestureID;
use crate::plan::{
    find_in_steps, fold_onto, fold_steps, lemma_fold_lookup, plan_views, Plan, PlanView,
};
use vstd::prelude::*;

verus! {

/// The view of a step that may be there or not.
pub open spec fn step_view(step: Option<Plan>) -> Option<PlanView> {
    match step {
        Some(plan) => Some(plan@),
        None => None,
    }
}

/// A copy of a step that may be there or not.
pub fn copy_step(step: &Option<Plan>) -> (r: Option<Plan>)
    ensures
        step_view(r) == step_view(*step),
{
    match step {
        Some(plan) => Some(plan.clone()),
        None => None,
    }
}

/// A copy of a sequence of steps.
pub fn copy_steps(steps: &Vec<Plan>) -> (r: Vec<Plan>)
    ensures
        plan_views(r@) == plan_views(steps@),
{
    let mut out: Vec<Plan> = Vec::new();
    let mut i: usize = 0;
    while i < steps.len()
        invariant
            i <= steps@.len(),
            out@.len() == i,
            plan_views(out@) == plan_views(steps@).take(i as int),
        decreases steps@.len() - i,
    {
        let ghost before = out@;
        out.push(steps[i].clone());
        assert forall|j: int| 0 <= j < i + 1 implies plan_views(out@)[j] == plan_views(
            steps@,
        ).take(i + 1)[j] by {
            if j < i {
                assert(plan_views(before)[j] == plan_views(steps@).take(i as int)[j]);
            }
        }
        assert(plan_views(out@) =~= plan_views(steps@).take(i + 1));
        i += 1;
    }
    assert(plan_views(steps@).take(steps@.len() as int) =~= plan_views(steps@));
    out
}

/// A timeline of plans: committed steps in order, at most one ongoing step,
/// and a version that counts the changes made to the two.
pub struct PlanHistory {
    steps: Vec<Plan>,
    ongoing: Option<Plan>,
    version: u64,
}

/// What a history is, as a mathematical value.
pub struct PlanHistoryView {
    pub steps: Seq<PlanView>,
    pub ongoing: Option<PlanView>,
    pub version: nat,
}

/// What an observer knows of a history: the version it has seen last, or
/// nothing.
#[derive(Clone, Copy, PartialEq, Eq, Structural, Debug)]
pub struct KnownHistoryState {
    pub version: Option<u64>,
}

/// What an observer is sent about a history.
pub enum PlanHistoryUpdate {
    /// The observer is up to date.
    Unchanged,
    /// The whole history, to take the place of what the observer has.
    ChangedCompletely(PlanHistory),
}

impl PlanHistoryView {
    /// The state that the committed steps give: laid over nothing, in order.
    pub open spec fn committed(self) -> PlanView {
        fold_steps(Map::empty(), self.steps)
    }

    /// The current state: the committed steps in order, then the ongoing
    /// step. For each gesture the last of them that holds it decides.
    pub open spec fn resolved(self) -> PlanView {
        match self.ongoing {
            Some(step) => self.committed().union_prefer_right(step),
            None => self.committed(),
        }
    }

    /// The history after `step` was made its ongoing step. Where `step` is
    /// the ongoing step already, nothing changes.
    pub open spec fn set_ongoing(self, step: PlanView) -> PlanHistoryView {
        if self.ongoing == Some(step) {
            self
        } else {
            PlanHistoryView { steps: self.steps, ongoing: Some(step), version: self.version + 1 }
        }
    }

    /// The history after its ongoing step was committed. Without an ongoing
    /// step nothing changes.
    pub open spec fn commit(self) -> PlanHistoryView {
        match self.ongoing {
            Some(step) => PlanHistoryView {
                steps: self.steps.push(step),
                ongoing: None,
                version: self.version + 1,
            },
            None => self,
        }
    }

    /// Whether an observer that knows `known` has this very version.
    pub open spec fn is_known(self, known: KnownHistoryState) -> bool {
        known.version == Some(self.version as u64)
    }
}

impl View for PlanHistory {
    type V = PlanHistoryView;

    closed spec fn view(&self) -> PlanHistoryView {
        PlanHistoryView {
            steps: plan_views(self.steps@),
            ongoing: step_view(self.ongoing),
            version: self.version as nat,
        }
    }
}

impl Clone for PlanHistory {
    fn clone(&self) -> (r: Self)
        ensures
            r@ == self@,
    {
        PlanHistory {
            steps: copy_steps(&self.steps),
            ongoing: copy_step(&self.ongoing),
            version: self.version,
        }
    }
}

impl PlanHistory {
    /// A history without steps, at version 0.
    pub fn new() -> (r: PlanHistory)
        ensures
            r@ == (PlanHistoryView { steps: Seq::empty(), ongoing: None, version: 0 }),
    {
        let r = PlanHistory { steps: Vec::new(), ongoing: None, version: 0 };
        assert(r@.steps =~= Seq::empty());
        r
    }

    /// The version: it goes up by one with every change of the committed
    /// steps or of the ongoing step, and with nothing else.
    pub fn version(&self) -> (r: u64)
        ensures
            r == self@.version,
    {
        self.version
    }

    /// The number of committed steps.
    pub fn step_count(&self) -> (r: usize)
        ensures
            r == self@.steps.len(),
    {
        self.steps.len()
    }

    /// The committed step at `index`.
    pub fn step(&self, index: usize) -> (r: &Plan)
        requires
            index < self@.steps.len(),
        ensures
            r@ == self@.steps[index as int],
    {
        &self.steps[index]
    }

    /// The ongoing step, if there is one.
    pub fn ongoing(&self) -> (r: &Option<Plan>)
        ensures
            step_view(*r) == self@.ongoing,
    {
        &self.ongoing
    }

    /// Makes `step` the ongoing step, in place of the one before.
    pub fn set_ongoing_step(&mut self, step: Plan)
        requires
            old(self)@.version < u64::MAX,
        ensures
            final(self)@ == old(self)@.set_ongoing(step@),
    {
        let same = match &self.ongoing {
            Some(current) => current.same_as(&step),
            None => false,
        };
        if !same {
            self.ongoing = Some(step);
            self.version = self.version + 1;
        }
    }

    /// Commits the ongoing step: it becomes the last committed step, and
    /// there is no ongoing step any more.
    pub fn commit(&mut self)
        requires
            old(self)@.version < u64::MAX,
        ensures
            final(self)@ == old(self)@.commit(),
    {
        let mut ongoing: Option<Plan> = None;
        std::mem::swap(&mut self.ongoing, &mut ongoing);
        match ongoing {
            Some(step) => {
                self.steps.push(step);
                self.version = self.version + 1;
                assert(self@.steps =~= old(self)@.steps.push(step@));
            },
            None => {},
        }
    }

    /// The current state of the history.
    pub fn resolve(&self) -> (r: Plan)
        ensures
            r@ == self@.resolved(),
    {
        let mut plan = Plan::new();
        fold_onto(&mut plan, &self.steps);
        match &self.ongoing {
            Some(step) => {
                plan.absorb(step);
            },
            None => {},
        }
        plan
    }

    /// The gesture under `id` as it stands in the current state, if it is
    /// there: looked up in the ongoing step first, then in the committed
    /// steps from the last to the first.
    pub fn find(&self, id: GestureID) -> (r: Option<&Gesture>)
        ensures
            match r {
                Some(gesture) => self@.resolved().contains_key(id) && gesture@
                    == self@.resolved()[id],
                None => !self@.resolved().contains_key(id),
            },
    {
        proof {
            lemma_fold_lookup(Map::empty(), self@.steps, id);
        }
        let ongoing = match &self.ongoing {
            Some(step) => step.get(id),
            None => None,
        };
        match ongoing {
            Some(gesture) => Some(gesture),
            None => find_in_steps(&self.steps, id),
        }
    }

    /// What an observer knows once it has this history.
    pub fn known_state(&self) -> (r: KnownHistoryState)
        ensures
            self@.is_known(r),
    {
        KnownHistoryState { version: Some(self.version) }
    }

    /// What an observer who knows `known` has to be sent: nothing where it
    /// has this very version, the whole history otherwise.
    pub fn update_for(&self, known: &KnownHistoryState) -> (r: PlanHistoryUpdate)
        ensures
            match r {
                PlanHistoryUpdate::Unchanged => self@.is_known(*known),
                PlanHistoryUpdate::ChangedCompletely(history) => !self@.is_known(*known)
                    && history@ == self@,
            },
    {
        let up_to_date = match known.version {
            Some(version) => version == self.version,
            None => false,
        };
        if up_to_date {
            PlanHistoryUpdate::Unchanged
        } else {
            PlanHistoryUpdate::ChangedCompletely(self.clone())
        }
    }
}

} // verus!
