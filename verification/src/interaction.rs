//! The plan manager: the editing operations, the previews kept for each
//! observer, and what an observer is sent when it asks for news.
use crate::geometry::Point;
use crate::gesture::{Gesture, GestureIntent, GestureView};
use crate::history::{step_view, KnownHistoryState, PlanHistory, PlanHistoryUpdate, PlanHistoryView};
use crate::identity::{is_random_uuid, GestureID, MachineID, ProjectID};
use crate::plan::{Plan, PlanView};
use crate::project::{KnownProjectState, Project, ProjectUpdate, ProjectUpdateView, ProjectView};
use crate::result::{
    actions_between, update_between, Action, ActionGroups, AreaError, KnownPlanResultState,
    PlanResult, PlanResultUpdate, PlanResultUpdateView, PrototypeID,
};
use crate::table::IdMap;
use vstd::prelude::*;

verus! {

/// One control point of one gesture: the gesture and the index of the point.
#[derive(Copy, Clone, PartialEq, Eq, Structural)]
pub struct ControlPointRef(pub GestureID, pub usize);

/// What is kept for one observer: the project it looks at, whether it is in
/// the middle of drawing a gesture, and the preview of that project as far as
/// it has been worked out. The preview is a cache: it is emptied by every edit
/// of the project and filled again when it is next asked for.
pub struct PlanManagerUIState {
    pub current_project: ProjectID,
    gesture_ongoing: bool,
    current_preview: Option<Plan>,
    current_result_preview: Option<PlanResult>,
    current_action_preview: Option<ActionGroups>,
}

/// `PlanManagerUIState` as a mathematical value.
pub struct PlanManagerUIStateView {
    pub current_project: ProjectID,
    pub gesture_ongoing: bool,
    pub current_preview: Option<PlanView>,
    pub current_result_preview: Option<Seq<PrototypeID>>,
    pub current_action_preview: Option<Seq<Seq<Action>>>,
}

/// The coordinator: the master history with its result, the projects, and
/// what is kept for each observer.
pub struct PlanManager {
    master_plan: PlanHistory,
    master_result: PlanResult,
    projects: IdMap<ProjectID, Project>,
    ui_state: IdMap<MachineID, PlanManagerUIState>,
}

/// `PlanManager` as a mathematical value.
pub struct PlanManagerView {
    pub master_plan: PlanHistoryView,
    pub master_result: Seq<PrototypeID>,
    pub projects: Map<ProjectID, ProjectView>,
    pub ui_state: Map<MachineID, PlanManagerUIStateView>,
}

/// How asking for a preview ended.
#[derive(Debug)]
pub enum PreviewStatus {
    /// The observer or the project is not known.
    Unavailable,
    /// The preview was there already.
    Cached,
    /// The preview was worked out and has a result.
    Calculated,
    /// The plan could not be worked out. The preview holds the plan and no
    /// result.
    Failed(AreaError),
}

/// What an observer is sent about the preview of a project.
pub struct ProjectPreviewUpdate {
    pub project_id: ProjectID,
    pub plan: Plan,
    pub result_update: PlanResultUpdate,
    pub actions: ActionGroups,
}

/// `ProjectPreviewUpdate` as a mathematical value.
pub struct ProjectPreviewUpdateView {
    pub project_id: ProjectID,
    pub plan: PlanView,
    pub result_update: PlanResultUpdateView,
    pub actions: Seq<Seq<Action>>,
}

impl View for ProjectPreviewUpdate {
    type V = ProjectPreviewUpdateView;

    open spec fn view(&self) -> ProjectPreviewUpdateView {
        ProjectPreviewUpdateView {
            project_id: self.project_id,
            plan: self.plan@,
            result_update: self.result_update@,
            actions: self.actions@,
        }
    }
}

/// The prototypes of an outcome that is a result, and nothing for an error.
pub open spec fn result_view(outcome: Result<PlanResult, AreaError>) -> Option<Seq<PrototypeID>> {
    match outcome {
        Ok(result) => Some(result@),
        Err(_) => None,
    }
}

/// How asking for a preview ends on the outcome of working the plan out.
pub open spec fn status_of(outcome: Result<PlanResult, AreaError>) -> PreviewStatus {
    match outcome {
        Ok(_) => PreviewStatus::Calculated,
        Err(error) => PreviewStatus::Failed(error),
    }
}

/// What asking for a preview of `project` for the observer `machine` does,
/// with `calculate_result` to work a plan out: `before` and `after` are the
/// manager before and after it, `status` is how it ended.
///
/// Where the observer or the project is not known, and where the preview is
/// there already, nothing changes. Else the current plan of the project is
/// handed to `calculate_result`, and the preview is filled with the plan and
/// with what came back.
pub open spec fn preview_ensured<F: Fn(&Plan) -> Result<PlanResult, AreaError>>(
    before: PlanManagerView,
    after: PlanManagerView,
    machine: MachineID,
    project: ProjectID,
    calculate_result: F,
    status: PreviewStatus,
) -> bool {
    if !before.knows(machine, project) {
        status is Unavailable && after == before
    } else if before.has_preview(machine, project) {
        status is Cached && after == before
    } else {
        exists|plan: Plan, outcome: Result<PlanResult, AreaError>|
            {
                &&& plan@ == before.current_plan(project)
                &&& call_ensures(calculate_result, (&plan,), outcome)
                &&& after == before.fill_preview(machine, plan@, result_view(outcome))
                &&& status == status_of(outcome)
            }
    }
}

impl PlanManagerUIStateView {
    /// What is kept for an observer that has just turned to `project`.
    pub open spec fn fresh(project: ProjectID) -> PlanManagerUIStateView {
        PlanManagerUIStateView {
            current_project: project,
            gesture_ongoing: false,
            current_preview: None,
            current_result_preview: None,
            current_action_preview: None,
        }
    }

    /// The same with an empty preview.
    pub open spec fn cleared(self) -> PlanManagerUIStateView {
        PlanManagerUIStateView {
            current_preview: None,
            current_result_preview: None,
            current_action_preview: None,
            ..self
        }
    }

    /// The same, with an empty preview where the observer looks at `project`.
    pub open spec fn cleared_if_on(self, project: ProjectID) -> PlanManagerUIStateView {
        if self.current_project == project {
            self.cleared()
        } else {
            self
        }
    }

    /// The same with the preview filled: the plan, and the result with the
    /// actions that lead to it from `master_result` where there is a result.
    pub open spec fn filled(
        self,
        plan: PlanView,
        result: Option<Seq<PrototypeID>>,
        master_result: Seq<PrototypeID>,
    ) -> PlanManagerUIStateView {
        PlanManagerUIStateView {
            current_preview: Some(plan),
            current_result_preview: result,
            current_action_preview: match result {
                Some(prototypes) => Some(actions_between(master_result, prototypes)),
                None => None,
            },
            ..self
        }
    }
}

impl View for PlanManagerUIState {
    type V = PlanManagerUIStateView;

    closed spec fn view(&self) -> PlanManagerUIStateView {
        PlanManagerUIStateView {
            current_project: self.current_project,
            gesture_ongoing: self.gesture_ongoing,
            current_preview: step_view(self.current_preview),
            current_result_preview: match self.current_result_preview {
                Some(result) => Some(result@),
                None => None,
            },
            current_action_preview: match self.current_action_preview {
                Some(actions) => Some(actions@),
                None => None,
            },
        }
    }
}

impl PlanManagerUIState {
    /// What is kept for an observer that has just turned to `project`.
    pub fn new(project: ProjectID) -> (r: PlanManagerUIState)
        ensures
            r@ == PlanManagerUIStateView::fresh(project),
    {
        PlanManagerUIState {
            current_project: project,
            gesture_ongoing: false,
            current_preview: None,
            current_result_preview: None,
            current_action_preview: None,
        }
    }

    /// The project that the observer looks at.
    pub fn current_project(&self) -> (r: ProjectID)
        ensures
            r == self@.current_project,
    {
        self.current_project
    }

    /// Whether the observer is in the middle of drawing a gesture.
    pub fn gesture_ongoing(&self) -> (r: bool)
        ensures
            r == self@.gesture_ongoing,
    {
        self.gesture_ongoing
    }

    /// The plan of the preview, if the preview is filled.
    pub fn current_preview(&self) -> (r: &Option<Plan>)
        ensures
            step_view(*r) == self@.current_preview,
    {
        &self.current_preview
    }

    /// The result of the preview, if it could be worked out.
    pub fn current_result_preview(&self) -> (r: &Option<PlanResult>)
        ensures
            match *r {
                Some(result) => self@.current_result_preview == Some(result@),
                None => self@.current_result_preview.is_none(),
            },
    {
        &self.current_result_preview
    }

    /// The actions that lead from the master's result to that of the preview.
    pub fn current_action_preview(&self) -> (r: &Option<ActionGroups>)
        ensures
            match *r {
                Some(actions) => self@.current_action_preview == Some(actions@),
                None => self@.current_action_preview.is_none(),
            },
    {
        &self.current_action_preview
    }
}

impl PlanManagerView {
    /// Every project has its pointer within its committed steps.
    pub open spec fn wf(self) -> bool {
        forall|project: ProjectID| #[trigger]
            self.projects.contains_key(project) ==> self.projects[project].wf()
    }

    /// The state of `project` on top of the master's current state.
    pub open spec fn current_plan(self, project: ProjectID) -> PlanView {
        self.projects[project].resolved_on(self.master_plan.resolved())
    }

    /// The gesture as it stands in the current state of the project, if the
    /// project is there and holds the gesture.
    pub open spec fn current_version_of(self, gesture: GestureID, project: ProjectID) -> Option<
        GestureView,
    > {
        if self.projects.contains_key(project) && self.current_plan(project).contains_key(gesture) {
            Some(self.current_plan(project)[gesture])
        } else {
            None
        }
    }

    /// The manager after the previews of all observers that look at `project`
    /// were emptied.
    pub open spec fn clear_previews(self, project: ProjectID) -> PlanManagerView {
        PlanManagerView {
            ui_state: self.ui_state.map_values(
                |state: PlanManagerUIStateView| state.cleared_if_on(project),
            ),
            ..self
        }
    }

    /// The manager after `project` was taken in under the identity `id`.
    pub open spec fn add_project(self, id: ProjectID, project: ProjectView) -> PlanManagerView {
        (PlanManagerView { projects: self.projects.insert(id, project), ..self }).clear_previews(id)
    }

    /// The manager after the project under the identity `id` was removed.
    pub open spec fn remove_project(self, id: ProjectID) -> PlanManagerView {
        (PlanManagerView { projects: self.projects.remove(id), ..self }).clear_previews(id)
    }

    /// The manager after the observer turned to `project`: what was kept for
    /// it is replaced by a fresh state.
    pub open spec fn switch_to(self, machine: MachineID, project: ProjectID) -> PlanManagerView {
        PlanManagerView {
            ui_state: self.ui_state.insert(machine, PlanManagerUIStateView::fresh(project)),
            ..self
        }
    }

    /// The manager after `step` was made the ongoing step of `project`, and
    /// committed where `commit` says so. The previews of the project are
    /// emptied.
    pub open spec fn install(self, project: ProjectID, step: PlanView, commit: bool)
        -> PlanManagerView
        recommends
            self.projects.contains_key(project),
    {
        let with_step = self.projects[project].set_ongoing(step);
        let after = if commit {
            with_step.commit()
        } else {
            with_step
        };
        (PlanManagerView { projects: self.projects.insert(project, after), ..self }).clear_previews(
            project,
        )
    }

    /// The manager after a change to one gesture of a project: where the
    /// project holds the gesture, what `change` makes of it becomes the
    /// ongoing step; else nothing happens.
    pub open spec fn edit(
        self,
        project: ProjectID,
        gesture: GestureID,
        change: spec_fn(GestureView) -> Option<GestureView>,
        commit: bool,
    ) -> PlanManagerView {
        match self.current_version_of(gesture, project) {
            Some(current) => match change(current) {
                Some(changed) => self.install(
                    project,
                    Map::<GestureID, GestureView>::empty().insert(gesture, changed),
                    commit,
                ),
                None => self,
            },
            None => self,
        }
    }

    /// The manager after a new gesture of one point was started in `project`
    /// by the observer `machine`: the gesture is committed at once, and the
    /// observer is marked as drawing. Nothing happens where the project or
    /// the observer is not known.
    pub open spec fn start_new_gesture(
        self,
        project: ProjectID,
        machine: MachineID,
        new_gesture: GestureID,
        intent: GestureIntent,
        start: Point,
    ) -> PlanManagerView {
        if self.projects.contains_key(project) && self.ui_state.contains_key(machine) {
            let installed = self.install(
                project,
                Map::<GestureID, GestureView>::empty().insert(
                    new_gesture,
                    GestureView { points: seq![start], intent },
                ),
                true,
            );
            PlanManagerView {
                ui_state: installed.ui_state.insert(
                    machine,
                    PlanManagerUIStateView { gesture_ongoing: true, ..installed.ui_state[machine] },
                ),
                ..installed
            }
        } else {
            self
        }
    }

    /// The manager after the observer stopped drawing.
    pub open spec fn finish_gesture(self, machine: MachineID) -> PlanManagerView {
        if self.ui_state.contains_key(machine) {
            PlanManagerView {
                ui_state: self.ui_state.insert(
                    machine,
                    PlanManagerUIStateView { gesture_ongoing: false, ..self.ui_state[machine] },
                ),
                ..self
            }
        } else {
            self
        }
    }

    /// The manager after a point was added to a gesture, at its end or at its
    /// start.
    pub open spec fn add_control_point(
        self,
        project: ProjectID,
        gesture: GestureID,
        point: Point,
        add_to_end: bool,
        commit: bool,
    ) -> PlanManagerView {
        self.edit(
            project,
            gesture,
            |current: GestureView| Some(current.add_point(point, add_to_end)),
            commit,
        )
    }

    /// The manager after a point was inserted into a gesture where it
    /// projects onto the gesture's path.
    pub open spec fn insert_control_point(
        self,
        project: ProjectID,
        gesture: GestureID,
        point: Point,
        commit: bool,
    ) -> PlanManagerView {
        self.edit(
            project,
            gesture,
            |current: GestureView| Some(current.insert_point(current.insertion_index(point), point)),
            commit,
        )
    }

    /// The manager after the point at `index` of a gesture was moved. Where
    /// the gesture has no such point nothing happens.
    pub open spec fn move_control_point(
        self,
        project: ProjectID,
        gesture: GestureID,
        index: u32,
        position: Point,
        finished: bool,
    ) -> PlanManagerView {
        self.edit(
            project,
            gesture,
            |current: GestureView|
                if index < current.points.len() {
                    Some(current.move_point(index as int, position))
                } else {
                    None
                },
            finished,
        )
    }

    /// The manager after a gesture got another intent.
    pub open spec fn set_intent(
        self,
        project: ProjectID,
        gesture: GestureID,
        intent: GestureIntent,
        finished: bool,
    ) -> PlanManagerView {
        self.edit(project, gesture, |current: GestureView| Some(current.with_intent(intent)), finished)
    }

    /// Whether `split_at` cuts the gesture as it stands in the project.
    pub open spec fn splits(self, project: ProjectID, gesture: GestureID, split_at: Point) -> bool {
        match self.current_version_of(gesture, project) {
            Some(current) => current.split_position(split_at).is_some(),
            None => false,
        }
    }

    /// The manager after a gesture was cut in two at `split_at`: the first
    /// half stays under the gesture's identity, the second half goes under
    /// `new_gesture`, and both make one ongoing step. Where the gesture is
    /// not there, or the cut does not fall on its path, nothing happens.
    pub open spec fn split_gesture(
        self,
        project: ProjectID,
        gesture: GestureID,
        split_at: Point,
        new_gesture: GestureID,
        commit: bool,
    ) -> PlanManagerView {
        match self.current_version_of(gesture, project) {
            Some(current) => match current.split_position(split_at) {
                Some(position) => self.install(
                    project,
                    Map::<GestureID, GestureView>::empty().insert(
                        gesture,
                        current.first_half(position.index as int, position.point_before),
                    ).insert(
                        new_gesture,
                        current.second_half(position.index as int, position.point_after),
                    ),
                    commit,
                ),
                None => self,
            },
            None => self,
        }
    }

    /// Whether the observer and the project are both known.
    pub open spec fn knows(self, machine: MachineID, project: ProjectID) -> bool {
        self.ui_state.contains_key(machine) && self.projects.contains_key(project)
    }

    /// Whether a preview of `project` is kept for the observer: the observer
    /// looks at the project and its preview holds a plan.
    pub open spec fn has_preview(self, machine: MachineID, project: ProjectID) -> bool {
        &&& self.knows(machine, project)
        &&& self.ui_state[machine].current_project == project
        &&& self.ui_state[machine].current_preview.is_some()
    }

    /// Whether a preview of `project` has to be worked out for the observer.
    pub open spec fn needs_preview(self, machine: MachineID, project: ProjectID) -> bool {
        self.knows(machine, project) && !self.has_preview(machine, project)
    }

    /// The manager after the observer's preview was filled with `plan` and
    /// with what working it out gave: a result, from which the actions
    /// follow, or none.
    pub open spec fn fill_preview(
        self,
        machine: MachineID,
        plan: PlanView,
        result: Option<Seq<PrototypeID>>,
    ) -> PlanManagerView {
        if self.ui_state.contains_key(machine) {
            PlanManagerView {
                ui_state: self.ui_state.insert(
                    machine,
                    self.ui_state[machine].filled(plan, result, self.master_result),
                ),
                ..self
            }
        } else {
            self
        }
    }

    /// The manager after the observer was made to look at `project`: where
    /// it is known and looks at another project, it is switched.
    pub open spec fn focus_on(self, machine: MachineID, project: ProjectID) -> PlanManagerView {
        if self.ui_state.contains_key(machine) && self.ui_state[machine].current_project
            != project {
            self.switch_to(machine, project)
        } else {
            self
        }
    }

    /// What the observer is sent about the preview that is kept for it: the
    /// plan, the result relative to the prototypes `known` to it, and the
    /// actions. Nothing where the preview holds no result.
    pub open spec fn preview_update(
        self,
        machine: MachineID,
        project: ProjectID,
        known: Seq<PrototypeID>,
    ) -> Option<ProjectPreviewUpdateView> {
        if self.ui_state.contains_key(machine) {
            let state = self.ui_state[machine];
            match (state.current_preview, state.current_result_preview, state.current_action_preview) {
                (Some(plan), Some(result), Some(actions)) => Some(
                    ProjectPreviewUpdateView {
                        project_id: project,
                        plan,
                        result_update: update_between(result, known),
                        actions,
                    },
                ),
                _ => None,
            }
        } else {
            None
        }
    }

    /// What an observer is sent about the projects, given what it knows of
    /// each: for a project that is there, what it is missing, or the whole
    /// project where it knows nothing of it; for a project that it knows and
    /// that is no longer there, that it was removed.
    pub open spec fn project_updates(self, known: Map<ProjectID, KnownProjectState>) -> Map<
        ProjectID,
        ProjectUpdateView,
    > {
        Map::new(
            |id: ProjectID| self.projects.contains_key(id) || known.contains_key(id),
            |id: ProjectID|
                if self.projects.contains_key(id) {
                    if known.contains_key(id) {
                        self.projects[id].update_for(known[id])
                    } else {
                        ProjectUpdateView::ChangedCompletely(self.projects[id])
                    }
                } else {
                    ProjectUpdateView::Removed
                },
        )
    }

    /// The manager after one step back in `project`.
    pub open spec fn undo(self, project: ProjectID) -> PlanManagerView {
        if self.projects.contains_key(project) {
            (PlanManagerView {
                projects: self.projects.insert(project, self.projects[project].undo()),
                ..self
            }).clear_previews(project)
        } else {
            self
        }
    }

    /// The manager after one step forward again in `project`.
    pub open spec fn redo(self, project: ProjectID) -> PlanManagerView {
        if self.projects.contains_key(project) {
            (PlanManagerView {
                projects: self.projects.insert(project, self.projects[project].redo()),
                ..self
            }).clear_previews(project)
        } else {
            self
        }
    }
}

impl View for PlanManager {
    type V = PlanManagerView;

    closed spec fn view(&self) -> PlanManagerView {
        PlanManagerView {
            master_plan: self.master_plan@,
            master_result: self.master_result@,
            projects: self.projects@.map_values(|project: Project| project@),
            ui_state: self.ui_state@.map_values(|state: PlanManagerUIState| state@),
        }
    }
}

impl PlanManager {
    /// A manager of the given master history and its result, without
    /// projects and without observers.
    pub fn new(master_plan: PlanHistory, master_result: PlanResult) -> (r: PlanManager)
        ensures
            r@ == (PlanManagerView {
                master_plan: master_plan@,
                master_result: master_result@,
                projects: Map::empty(),
                ui_state: Map::empty(),
            }),
    {
        let r = PlanManager {
            master_plan,
            master_result,
            projects: IdMap::new(),
            ui_state: IdMap::new(),
        };
        assert(r@.projects =~= Map::empty());
        assert(r@.ui_state =~= Map::empty());
        r
    }

    /// Every project of a manager has its pointer within its committed steps.
    pub proof fn lemma_wf(&self)
        ensures
            self@.wf(),
    {
        assert forall|project: ProjectID| #[trigger]
            self@.projects.contains_key(project) implies self@.projects[project].wf() by {
            self.projects@[project].lemma_wf();
        }
    }

    /// The master history.
    pub fn master_plan(&self) -> (r: &PlanHistory)
        ensures
            r@ == self@.master_plan,
    {
        &self.master_plan
    }

    /// The result of the master history.
    pub fn master_result(&self) -> (r: &PlanResult)
        ensures
            r@ == self@.master_result,
    {
        &self.master_result
    }

    /// The project under `project_id`, if there is one.
    pub fn project(&self, project_id: ProjectID) -> (r: Option<&Project>)
        ensures
            match r {
                Some(project) => self@.projects.contains_key(project_id) && project@
                    == self@.projects[project_id],
                None => !self@.projects.contains_key(project_id),
            },
    {
        self.projects.get(project_id)
    }

    /// What is kept for the observer `machine_id`, if it is known.
    pub fn ui_state(&self, machine_id: MachineID) -> (r: Option<&PlanManagerUIState>)
        ensures
            match r {
                Some(state) => self@.ui_state.contains_key(machine_id) && state@
                    == self@.ui_state[machine_id],
                None => !self@.ui_state.contains_key(machine_id),
            },
    {
        self.ui_state.get(machine_id)
    }

    /// The preview that is kept for the observer: the plan, the result and
    /// the actions, each as far as it is there.
    pub fn preview_of(&self, machine_id: MachineID) -> (r: (
        Option<&Plan>,
        Option<&PlanResult>,
        Option<&ActionGroups>,
    ))
        ensures
            match r.0 {
                Some(plan) => self@.ui_state.contains_key(machine_id)
                    && self@.ui_state[machine_id].current_preview == Some(plan@),
                None => !self@.ui_state.contains_key(machine_id)
                    || self@.ui_state[machine_id].current_preview.is_none(),
            },
            match r.1 {
                Some(result) => self@.ui_state.contains_key(machine_id)
                    && self@.ui_state[machine_id].current_result_preview == Some(result@),
                None => !self@.ui_state.contains_key(machine_id)
                    || self@.ui_state[machine_id].current_result_preview.is_none(),
            },
            match r.2 {
                Some(actions) => self@.ui_state.contains_key(machine_id)
                    && self@.ui_state[machine_id].current_action_preview == Some(actions@),
                None => !self@.ui_state.contains_key(machine_id)
                    || self@.ui_state[machine_id].current_action_preview.is_none(),
            },
    {
        match self.ui_state.get(machine_id) {
            Some(state) => (
                state.current_preview.as_ref(),
                state.current_result_preview.as_ref(),
                state.current_action_preview.as_ref(),
            ),
            None => (None, None, None),
        }
    }

    /// Takes `project` in under `project_id`, in place of a project that was
    /// there under that identity. The previews of that project are emptied.
    pub fn add_project(&mut self, project_id: ProjectID, project: Project)
        ensures
            final(self)@ == old(self)@.add_project(project_id, project@),
    {
        self.projects.insert(project_id, project);
        assert(self@.projects =~= old(self)@.projects.insert(project_id, project@));
        self.clear_previews(project_id);
    }

    /// Removes the project under `project_id` and hands it back, if there is
    /// one. The previews of that project are emptied.
    pub fn remove_project(&mut self, project_id: ProjectID) -> (r: Option<Project>)
        ensures
            final(self)@ == old(self)@.remove_project(project_id),
            match r {
                Some(project) => old(self)@.projects.contains_key(project_id) && project@ == old(
                    self,
                )@.projects[project_id],
                None => !old(self)@.projects.contains_key(project_id),
            },
    {
        let r = self.projects.remove(project_id);
        assert(self@.projects =~= old(self)@.projects.remove(project_id));
        self.clear_previews(project_id);
        r
    }

    /// The observer turns to `project_id`: what was kept for it is replaced
    /// by a fresh state with an empty preview.
    pub fn switch_to(&mut self, machine: MachineID, project_id: ProjectID)
        ensures
            final(self)@ == old(self)@.switch_to(machine, project_id),
    {
        self.ui_state.insert(machine, PlanManagerUIState::new(project_id));
        assert(self@.ui_state =~= old(self)@.switch_to(machine, project_id).ui_state);
    }

    /// Empties the previews of all observers that look at `project_id`.
    pub fn clear_previews(&mut self, project_id: ProjectID)
        ensures
            final(self)@ == old(self)@.clear_previews(project_id),
    {
        let n = self.ui_state.len();
        let ghost before = self.ui_state@;
        let ghost keys = self.ui_state.keys();
        let mut i: usize = 0;
        while i < n
            invariant
                i <= n,
                n == keys.len(),
                keys == self.ui_state.keys(),
                keys.no_duplicates(),
                self.master_plan == old(self).master_plan,
                self.master_result == old(self).master_result,
                self.projects == old(self).projects,
                before == old(self).ui_state@,
                forall|k: MachineID| before.contains_key(k) <==> keys.contains(k),
                forall|k: MachineID| self.ui_state@.contains_key(k) <==> keys.contains(k),
                forall|j: int|
                    0 <= j < i ==> (#[trigger] self.ui_state@[keys[j]])@ == before[keys[j]]@.cleared_if_on(
                        project_id,
                    ),
                forall|j: int| i <= j < n ==> #[trigger] self.ui_state@[keys[j]] == before[keys[j]],
            decreases n - i,
        {
            let state = self.ui_state.value_at(i);
            let current_project = state.current_project;
            let gesture_ongoing = state.gesture_ongoing;
            if current_project == project_id {
                let ghost previous = self.ui_state@;
                self.ui_state.set_value_at(
                    i,
                    PlanManagerUIState {
                        current_project,
                        gesture_ongoing,
                        current_preview: None,
                        current_result_preview: None,
                        current_action_preview: None,
                    },
                );
                assert forall|k: MachineID| self.ui_state@.contains_key(k) <==> keys.contains(
                    k,
                ) by {
                    assert(keys.contains(keys[i as int]));
                }
                assert forall|j: int| 0 <= j < i implies (#[trigger] self.ui_state@[keys[j]])@
                    == before[keys[j]]@.cleared_if_on(project_id) by {
                    assert(previous[keys[j]]@ == before[keys[j]]@.cleared_if_on(project_id));
                }
                assert forall|j: int| i + 1 <= j < n implies #[trigger] self.ui_state@[keys[j]]
                    == before[keys[j]] by {
                    assert(previous[keys[j]] == before[keys[j]]);
                }
            }
            i += 1;
        }
        proof {
            let target = old(self)@.clear_previews(project_id).ui_state;
            assert forall|k: MachineID| #[trigger] self@.ui_state.contains_key(k) implies self@.ui_state[k]
                == target[k] by {
                assert(self.ui_state@.contains_key(k));
                assert(keys.contains(k));
                let j = choose|j: int| 0 <= j < keys.len() && keys[j] == k;
                assert(self.ui_state@[keys[j]]@ == before[keys[j]]@.cleared_if_on(project_id));
            }
            assert forall|k: MachineID| self@.ui_state.contains_key(k) <==> target.contains_key(
                k,
            ) by {
                assert(self.ui_state@.contains_key(k) <==> keys.contains(k));
                assert(before.contains_key(k) <==> keys.contains(k));
            }
            assert(self@.ui_state =~= target);
        }
    }

    /// The gesture as it stands in the current state of the project: in the
    /// master's current state with the project's committed steps and its
    /// ongoing step on top.
    pub fn get_current_version_of(&self, gesture_id: GestureID, project_id: ProjectID) -> (r:
        Option<Gesture>)
        ensures
            match r {
                Some(gesture) => self@.current_version_of(gesture_id, project_id) == Some(gesture@),
                None => self@.current_version_of(gesture_id, project_id).is_none(),
            },
    {
        match self.projects.get(project_id) {
            Some(project) => match project.find(&self.master_plan, gesture_id) {
                Some(gesture) => Some(gesture.clone()),
                None => None,
            },
            None => None,
        }
    }

    /// Makes `step` the ongoing step of the project, commits it where
    /// `commit` says so, and empties the previews of the project.
    fn install_step(&mut self, project_id: ProjectID, step: Plan, commit: bool)
        requires
            old(self)@.projects.contains_key(project_id),
        ensures
            final(self)@ == old(self)@.install(project_id, step@, commit),
    {
        match self.projects.remove(project_id) {
            Some(project) => {
                let mut project = project;
                project.set_ongoing_step(step);
                if commit {
                    project.start_new_step();
                }
                self.projects.insert(project_id, project);
                assert(self@.projects =~= old(self)@.projects.insert(project_id, project@));
            },
            None => {},
        }
        self.clear_previews(project_id);
    }

    /// Starts a gesture of one point in the project and commits it at once,
    /// so that it is part of the history while its next point is dragged. The
    /// observer is marked as drawing. Nothing happens where the project or the
    /// observer is not known.
    pub fn start_new_gesture(
        &mut self,
        project_id: ProjectID,
        machine_id: MachineID,
        new_gesture_id: GestureID,
        intent: &GestureIntent,
        start: Point,
    )
        ensures
            final(self)@ == old(self)@.start_new_gesture(
                project_id,
                machine_id,
                new_gesture_id,
                *intent,
                start,
            ),
    {
        if !self.projects.contains_key(project_id) || !self.ui_state.contains_key(machine_id) {
            return ;
        }
        let new_gesture = Gesture::starting_at(start, *intent);
        let new_step = Plan::from_gesture(new_gesture_id, new_gesture);
        assert(old(self)@.ui_state.contains_key(machine_id));
        self.install_step(project_id, new_step, true);
        let ghost installed = self@;
        assert(installed.ui_state.contains_key(machine_id));
        assert(self.ui_state@.contains_key(machine_id));
        match self.ui_state.remove(machine_id) {
            Some(state) => {
                let mut state = state;
                assert(state@ == installed.ui_state[machine_id]);
                state.gesture_ongoing = true;
                self.ui_state.insert(machine_id, state);
                assert(self@.ui_state =~= installed.ui_state.insert(
                    machine_id,
                    PlanManagerUIStateView { gesture_ongoing: true, ..installed.ui_state[machine_id] },
                ));
            },
            None => {},
        }
    }

    /// The observer stops drawing. The plans are not touched.
    pub fn finish_gesture(&mut self, machine_id: MachineID)
        ensures
            final(self)@ == old(self)@.finish_gesture(machine_id),
    {
        match self.ui_state.remove(machine_id) {
            Some(state) => {
                let mut state = state;
                state.gesture_ongoing = false;
                self.ui_state.insert(machine_id, state);
                assert(self@.ui_state =~= old(self)@.finish_gesture(machine_id).ui_state);
            },
            None => {
                assert(self@.ui_state =~= old(self)@.ui_state);
            },
        }
    }

    /// Adds a point to a gesture, behind its last point or before its first,
    /// as the ongoing step of the project.
    pub fn add_control_point(
        &mut self,
        project_id: ProjectID,
        gesture_id: GestureID,
        new_point: Point,
        add_to_end: bool,
        commit: bool,
    )
        ensures
            final(self)@ == old(self)@.add_control_point(
                project_id,
                gesture_id,
                new_point,
                add_to_end,
                commit,
            ),
    {
        match self.get_current_version_of(gesture_id, project_id) {
            Some(current_gesture) => {
                let changed_gesture = current_gesture.with_point_added(new_point, add_to_end);
                let new_step = Plan::from_gesture(gesture_id, changed_gesture);
                self.install_step(project_id, new_step, commit);
            },
            None => {},
        }
    }

    /// Inserts a point into a gesture where it projects onto the gesture's
    /// path: before the first point that lies at least as far along the path
    /// as the projection, and at the end where there is no such point, no
    /// projection or no path.
    pub fn insert_control_point(
        &mut self,
        project_id: ProjectID,
        gesture_id: GestureID,
        new_point: Point,
        commit: bool,
    )
        ensures
            final(self)@ == old(self)@.insert_control_point(
                project_id,
                gesture_id,
                new_point,
                commit,
            ),
    {
        match self.get_current_version_of(gesture_id, project_id) {
            Some(current_gesture) => {
                let new_point_idx = current_gesture.insertion_index(new_point);
                let changed_gesture = current_gesture.with_point_inserted(new_point_idx, new_point);
                let new_step = Plan::from_gesture(gesture_id, changed_gesture);
                self.install_step(project_id, new_step, commit);
            },
            None => {},
        }
    }

    /// Moves the point at `point_index` of a gesture. Meant to be called over
    /// and over while the point is dragged, and once more with
    /// `is_move_finished` when it is let go. Where the gesture has no point
    /// at that index nothing happens.
    pub fn move_control_point(
        &mut self,
        project_id: ProjectID,
        gesture_id: GestureID,
        point_index: u32,
        new_position: Point,
        is_move_finished: bool,
    )
        ensures
            final(self)@ == old(self)@.move_control_point(
                project_id,
                gesture_id,
                point_index,
                new_position,
                is_move_finished,
            ),
    {
        match self.get_current_version_of(gesture_id, project_id) {
            Some(current_gesture) => {
                if (point_index as usize) < current_gesture.points().len() {
                    let new_gesture = current_gesture.with_point_moved(
                        point_index as usize,
                        new_position,
                    );
                    let current_change = Plan::from_gesture(gesture_id, new_gesture);
                    self.install_step(project_id, current_change, is_move_finished);
                }
            },
            None => {},
        }
    }

    /// Gives a gesture another intent and leaves its points alone.
    pub fn set_intent(
        &mut self,
        project_id: ProjectID,
        gesture_id: GestureID,
        new_intent: &GestureIntent,
        is_move_finished: bool,
    )
        ensures
            final(self)@ == old(self)@.set_intent(
                project_id,
                gesture_id,
                *new_intent,
                is_move_finished,
            ),
    {
        match self.get_current_version_of(gesture_id, project_id) {
            Some(current_gesture) => {
                let new_gesture = current_gesture.with_intent(*new_intent);
                let current_change = Plan::from_gesture(gesture_id, new_gesture);
                self.install_step(project_id, current_change, is_move_finished);
            },
            None => {},
        }
    }

    /// Cuts a gesture in two at `split_at`, with `new_gesture_id` for the
    /// second half. Says whether the gesture was cut.
    pub fn split_gesture_as(
        &mut self,
        project_id: ProjectID,
        gesture_id: GestureID,
        split_at: Point,
        new_gesture_id: GestureID,
        commit: bool,
    ) -> (r: bool)
        ensures
            final(self)@ == old(self)@.split_gesture(
                project_id,
                gesture_id,
                split_at,
                new_gesture_id,
                commit,
            ),
            r == old(self)@.splits(project_id, gesture_id, split_at),
    {
        match self.get_current_version_of(gesture_id, project_id) {
            Some(current_gesture) => {
                match current_gesture.split_position(split_at) {
                    Some(position) => {
                        let (first_half, second_half) = current_gesture.split_halves(position);
                        let mut new_step = Plan::from_gesture(gesture_id, first_half);
                        new_step.insert(new_gesture_id, second_half);
                        self.install_step(project_id, new_step, commit);
                        true
                    },
                    None => false,
                }
            },
            None => false,
        }
    }

    /// Cuts a gesture in two at the point of its path onto which `split_at`
    /// projects. The first half ends five before the cut and keeps the
    /// gesture's identity; the second half starts five behind the cut and
    /// gets a freshly drawn identity, which is handed back. Where the gesture
    /// is not there, or the cut does not fall on its path, nothing happens.
    pub fn split_gesture(
        &mut self,
        project_id: ProjectID,
        gesture_id: GestureID,
        split_at: Point,
        commit: bool,
    ) -> (r: Option<GestureID>)
        ensures
            match r {
                Some(new_gesture_id) => is_random_uuid(new_gesture_id.0) && old(self)@.splits(
                    project_id,
                    gesture_id,
                    split_at,
                ) && final(self)@ == old(self)@.split_gesture(
                    project_id,
                    gesture_id,
                    split_at,
                    new_gesture_id,
                    commit,
                ),
                None => !old(self)@.splits(project_id, gesture_id, split_at) && final(self)@
                    == old(self)@,
            },
    {
        let new_gesture_id = GestureID::new();
        if self.split_gesture_as(project_id, gesture_id, split_at, new_gesture_id, commit) {
            Some(new_gesture_id)
        } else {
            None
        }
    }

    /// The plan that has to be worked out to give the observer a preview of
    /// the project: the project's current plan, where the observer and the
    /// project are known and no preview of that project is kept for the
    /// observer.
    pub fn preview_to_calculate(&self, machine_id: MachineID, project_id: ProjectID) -> (r: Option<
        Plan,
    >)
        ensures
            match r {
                Some(plan) => self@.needs_preview(machine_id, project_id) && plan@
                    == self@.current_plan(project_id),
                None => !self@.needs_preview(machine_id, project_id),
            },
    {
        match (self.ui_state.get(machine_id), self.projects.get(project_id)) {
            (Some(state), Some(project)) => {
                if state.current_project == project_id && state.current_preview.is_some() {
                    None
                } else {
                    Some(project.apply_to_with_ongoing(&self.master_plan))
                }
            },
            _ => None,
        }
    }

    /// Fills the observer's preview with `plan` and with the outcome of
    /// working it out. A result is kept together with the actions that lead
    /// to it from the master's result; after an error the preview holds the
    /// plan alone, so that the plan is not worked out again before the next
    /// edit. Nothing happens where the observer is not known.
    pub fn fill_preview(
        &mut self,
        machine_id: MachineID,
        plan: Plan,
        outcome: Result<PlanResult, AreaError>,
    ) -> (r: PreviewStatus)
        ensures
            final(self)@ == old(self)@.fill_preview(machine_id, plan@, result_view(outcome)),
            r == if old(self)@.ui_state.contains_key(machine_id) {
                status_of(outcome)
            } else {
                PreviewStatus::Unavailable
            },
    {
        match self.ui_state.remove(machine_id) {
            Some(state) => {
                let mut state = state;
                let ghost before = state@;
                state.current_preview = Some(plan);
                let status = match outcome {
                    Ok(preview_plan_result) => {
                        let actions = self.master_result.actions_to(&preview_plan_result);
                        state.current_result_preview = Some(preview_plan_result);
                        state.current_action_preview = Some(actions);
                        PreviewStatus::Calculated
                    },
                    Err(error) => {
                        state.current_result_preview = None;
                        state.current_action_preview = None;
                        PreviewStatus::Failed(error)
                    },
                };
                assert(state@ == before.filled(plan@, result_view(outcome), self.master_result@));
                self.ui_state.insert(machine_id, state);
                assert(self@.ui_state =~= old(self)@.fill_preview(
                    machine_id,
                    plan@,
                    result_view(outcome),
                ).ui_state);
                status
            },
            None => {
                assert(self@.ui_state =~= old(self)@.ui_state);
                PreviewStatus::Unavailable
            },
        }
    }

    /// Makes sure that a preview of the project is kept for the observer.
    /// Where there is none, or the observer looked at another project last,
    /// the project's current plan is worked out with `calculate_result` and
    /// the preview is filled with what came back.
    pub fn try_ensure_preview<F: Fn(&Plan) -> Result<PlanResult, AreaError>>(
        &mut self,
        machine_id: MachineID,
        project_id: ProjectID,
        calculate_result: F,
    ) -> (r: PreviewStatus)
        requires
            forall|plan: &Plan| call_requires(calculate_result, (plan,)),
        ensures
            preview_ensured(old(self)@, final(self)@, machine_id, project_id, calculate_result, r),
    {
        match self.preview_to_calculate(machine_id, project_id) {
            Some(preview_plan) => {
                let outcome = calculate_result(&preview_plan);
                let ghost witness = outcome;
                let ghost handed = preview_plan;
                let status = self.fill_preview(machine_id, preview_plan, outcome);
                assert(call_ensures(calculate_result, (&handed,), witness));
                status
            },
            None => {
                if self.ui_state.contains_key(machine_id) && self.projects.contains_key(
                    project_id,
                ) {
                    PreviewStatus::Cached
                } else {
                    PreviewStatus::Unavailable
                }
            },
        }
    }

    /// What the observer is sent about the preview of the project, given the
    /// prototypes it knows. Where the observer looks at another project it is
    /// switched first, then the preview is made sure of. Where the preview
    /// then holds a result, the plan, the news about the result and the
    /// actions are handed back; where the plan could not be worked out,
    /// nothing is. How making sure of the preview ended is handed back too.
    pub fn get_project_preview_update<F: Fn(&Plan) -> Result<PlanResult, AreaError>>(
        &mut self,
        machine_id: MachineID,
        project_id: ProjectID,
        known_result: &KnownPlanResultState,
        calculate_result: F,
    ) -> (r: (PreviewStatus, Option<ProjectPreviewUpdate>))
        requires
            forall|plan: &Plan| call_requires(calculate_result, (plan,)),
        ensures
            preview_ensured(
                old(self)@.focus_on(machine_id, project_id),
                final(self)@,
                machine_id,
                project_id,
                calculate_result,
                r.0,
            ),
            match r.1 {
                Some(update) => final(self)@.preview_update(machine_id, project_id, known_result@)
                    == Some(update@),
                None => final(self)@.preview_update(machine_id, project_id, known_result@).is_none(),
            },
    {
        let needs_switch = match self.ui_state.get(machine_id) {
            Some(ui_state) => ui_state.current_project != project_id,
            None => false,
        };
        if needs_switch {
            self.switch_to(machine_id, project_id);
        }
        let status = self.try_ensure_preview(machine_id, project_id, calculate_result);
        let update = match self.ui_state.get(machine_id) {
            Some(state) => {
                match (
                    &state.current_preview,
                    &state.current_result_preview,
                    &state.current_action_preview,
                ) {
                    (Some(plan), Some(result), Some(actions)) => Some(
                        ProjectPreviewUpdate {
                            project_id,
                            plan: plan.clone(),
                            result_update: result.update_for(known_result),
                            actions: actions.clone(),
                        },
                    ),
                    _ => None,
                }
            },
            None => None,
        };
        (status, update)
    }

    /// What an observer is sent about the master history and about the
    /// projects, given what it knows of them.
    pub fn get_all_plans(
        &self,
        known_master: &KnownHistoryState,
        known_projects: &IdMap<ProjectID, KnownProjectState>,
    ) -> (r: (PlanHistoryUpdate, IdMap<ProjectID, ProjectUpdate>))
        ensures
            match r.0 {
                PlanHistoryUpdate::Unchanged => self@.master_plan.is_known(*known_master),
                PlanHistoryUpdate::ChangedCompletely(history) => !self@.master_plan.is_known(
                    *known_master,
                ) && history@ == self@.master_plan,
            },
            r.1@.map_values(|update: ProjectUpdate| update@) == self@.project_updates(
                known_projects@,
            ),
    {
        let master_update = self.master_plan.update_for(known_master);
        let ghost target = self@.project_updates(known_projects@);
        let mut project_updates: IdMap<ProjectID, ProjectUpdate> = IdMap::new();
        let n = self.projects.len();
        let ghost keys = self.projects.keys();
        let mut i: usize = 0;
        while i < n
            invariant
                i <= n,
                n == keys.len(),
                keys == self.projects.keys(),
                self.projects.listed(),
                target == self@.project_updates(known_projects@),
                forall|id: ProjectID|
                    project_updates@.contains_key(id) <==> keys.take(i as int).contains(id),
                forall|id: ProjectID| #[trigger]
                    project_updates@.contains_key(id) ==> project_updates@[id]@ == target[id],
            decreases n - i,
        {
            let id = self.projects.key_at(i);
            let project = self.projects.value_at(i);
            let update = match known_projects.get(id) {
                Some(known_state) => project.update_for(known_state),
                None => ProjectUpdate::ChangedCompletely(project.clone()),
            };
            assert(self@.projects.contains_key(id));
            assert(update@ == target[id]);
            project_updates.insert(id, update);
            proof {
                assert(keys.take(i + 1) == keys.take(i as int).push(id));
                assert forall|other: ProjectID|
                    project_updates@.contains_key(other) <==> keys.take(i + 1).contains(other) by {
                    vstd::seq_lib::lemma_seq_contains_after_push(keys.take(i as int), id, other);
                }
            }
            i += 1;
        }
        assert(keys.take(n as int) == keys);
        let m = known_projects.len();
        let ghost known_keys = known_projects.keys();
        let mut k: usize = 0;
        while k < m
            invariant
                k <= m,
                m == known_keys.len(),
                known_keys == known_projects.keys(),
                known_projects.listed(),
                self.projects.listed(),
                target == self@.project_updates(known_projects@),
                forall|id: ProjectID|
                    project_updates@.contains_key(id) <==> self.projects@.contains_key(id)
                        || known_keys.take(k as int).contains(id),
                forall|id: ProjectID| #[trigger]
                    project_updates@.contains_key(id) ==> project_updates@[id]@ == target[id],
            decreases m - k,
        {
            let unmatched_id = known_projects.key_at(k);
            proof {
                assert(known_keys.take(k + 1) == known_keys.take(k as int).push(unmatched_id));
                assert forall|other: ProjectID|
                    known_keys.take(k + 1).contains(other) <==> known_keys.take(k as int).contains(
                        other,
                    ) || other == unmatched_id by {
                    vstd::seq_lib::lemma_seq_contains_after_push(
                        known_keys.take(k as int),
                        unmatched_id,
                        other,
                    );
                }
            }
            if !self.projects.contains_key(unmatched_id) {
                assert(!self@.projects.contains_key(unmatched_id));
                project_updates.insert(unmatched_id, ProjectUpdate::Removed);
            }
            k += 1;
        }
        proof {
            assert(known_keys.take(m as int) == known_keys);
            let updates = project_updates@.map_values(|update: ProjectUpdate| update@);
            assert forall|id: ProjectID| updates.contains_key(id) <==> target.contains_key(id) by {
                assert(self@.projects.contains_key(id) <==> self.projects@.contains_key(id));
            }
            assert(updates =~= target);
        }
        (master_update, project_updates)
    }

    /// Goes one committed step back in the project.
    pub fn undo(&mut self, project_id: ProjectID)
        ensures
            final(self)@ == old(self)@.undo(project_id),
    {
        match self.projects.remove(project_id) {
            Some(project) => {
                let mut project = project;
                project.undo();
                self.projects.insert(project_id, project);
                assert(self@.projects =~= old(self)@.projects.insert(project_id, project@));
                self.clear_previews(project_id);
            },
            None => {
                assert(self@.projects =~= old(self)@.projects);
            },
        }
    }

    /// Goes one committed step forward again in the project.
    pub fn redo(&mut self, project_id: ProjectID)
        ensures
            final(self)@ == old(self)@.redo(project_id),
    {
        match self.projects.remove(project_id) {
            Some(project) => {
                let mut project = project;
                project.redo();
                self.projects.insert(project_id, project);
                assert(self@.projects =~= old(self)@.projects.insert(project_id, project@));
                self.clear_previews(project_id);
            },
            None => {
                assert(self@.projects =~= old(self)@.projects);
            },
        }
    }
}

} // verus!
