//! What holds of the editing operations whatever they are called with,
//! stated over the mathematical values of the data and proved.
use crate::geometry::{lemma_first_reaching_is, Distance, Point};
use crate::gesture::{GestureIntent, GestureView};
use crate::history::PlanHistoryView;
use crate::identity::{GestureID, MachineID, ProjectID};
use crate::interaction::{preview_ensured, PlanManagerView, PreviewStatus};
use crate::plan::{fold_steps, Plan, PlanView};
use crate::project::{KnownProjectState, ProjectView};
use crate::result::{AreaError, PlanResult};
use vstd::prelude::*;

verus! {

/// One edit of the control points of a gesture.
pub enum PointEdit {
    Add { gesture: GestureID, point: Point, add_to_end: bool },
    Insert { gesture: GestureID, point: Point },
    Move { gesture: GestureID, index: u32, position: Point },
}

/// The manager after one edit of the control points of a gesture.
pub open spec fn apply_edit(
    manager: PlanManagerView,
    project: ProjectID,
    edit: PointEdit,
    commit: bool,
) -> PlanManagerView {
    match edit {
        PointEdit::Add { gesture, point, add_to_end } => manager.add_control_point(
            project,
            gesture,
            point,
            add_to_end,
            commit,
        ),
        PointEdit::Insert { gesture, point } => manager.insert_control_point(
            project,
            gesture,
            point,
            commit,
        ),
        PointEdit::Move { gesture, index, position } => manager.move_control_point(
            project,
            gesture,
            index,
            position,
            commit,
        ),
    }
}

/// The manager after the edits were made one after the other, none of them
/// committed.
pub open spec fn apply_edits(manager: PlanManagerView, project: ProjectID, edits: Seq<PointEdit>)
    -> PlanManagerView
    decreases edits.len(),
{
    if edits.len() == 0 {
        manager
    } else {
        apply_edit(apply_edits(manager, project, edits.drop_last()), project, edits.last(), false)
    }
}

/// Whether the edit changes anything: the project holds the gesture, and a
/// point that is to be moved is there.
pub open spec fn takes_effect(manager: PlanManagerView, project: ProjectID, edit: PointEdit) -> bool {
    match edit {
        PointEdit::Add { gesture, .. } => manager.current_version_of(gesture, project).is_some(),
        PointEdit::Insert { gesture, .. } => manager.current_version_of(gesture, project).is_some(),
        PointEdit::Move { gesture, index, .. } => match manager.current_version_of(
            gesture,
            project,
        ) {
            Some(current) => index < current.points.len(),
            None => false,
        },
    }
}

/// The current state of a history depends on its committed steps and on its
/// ongoing step alone, so resolving it again gives the same plan as long as
/// neither changes. And the resolved state is settled: a history that holds
/// it as its only step resolves to it, and laying it over itself changes
/// nothing.
pub proof fn lemma_resolving_is_idempotent(history: PlanHistoryView, again: PlanHistoryView)
    requires
        again.steps == history.steps,
        again.ongoing == history.ongoing,
    ensures
        again.resolved() == history.resolved(),
        (PlanHistoryView { steps: seq![history.resolved()], ongoing: None, version: 0 }).resolved()
            == history.resolved(),
        history.resolved().union_prefer_right(history.resolved()) == history.resolved(),
{
    let resolved = history.resolved();
    let single = seq![resolved];
    assert(single.drop_last() =~= Seq::<PlanView>::empty());
    assert(fold_steps(Map::empty(), single.drop_last()) == Map::<
        GestureID,
        GestureView,
    >::empty());
    assert(Map::<GestureID, GestureView>::empty().union_prefer_right(resolved) =~= resolved);
    assert(resolved.union_prefer_right(resolved) =~= resolved);
}

/// Every edit of a gesture that has a point leaves a gesture that has a
/// point, and so do both halves of a cut.
pub proof fn lemma_edits_keep_a_point(
    gesture: GestureView,
    point: Point,
    other: Point,
    index: int,
    add_to_end: bool,
    intent: GestureIntent,
)
    requires
        gesture.wf(),
        0 <= index <= gesture.points.len(),
    ensures
        gesture.add_point(point, add_to_end).wf(),
        gesture.add_point(point, add_to_end).points.len() == gesture.points.len() + 1,
        gesture.insert_point(index, point).wf(),
        gesture.insert_point(index, point).points.len() == gesture.points.len() + 1,
        index < gesture.points.len() ==> gesture.move_point(index, point).wf()
            && gesture.move_point(index, point).points.len() == gesture.points.len(),
        gesture.with_intent(intent).wf(),
        gesture.first_half(index, point).wf(),
        gesture.second_half(index, other).wf(),
        gesture.first_half(index, point).points.len() + gesture.second_half(
            index,
            other,
        ).points.len() == gesture.points.len() + 2,
        gesture.first_half(index, point).points.last() == point,
        gesture.second_half(index, other).points.first() == other,
{
}

/// The version of a history goes up by one with every change of its
/// committed steps or of its ongoing step, and stays as it is where neither
/// changes.
pub proof fn lemma_version_tells_changes(history: PlanHistoryView, step: PlanView)
    ensures
        history.set_ongoing(step).version == history.version <==> history.set_ongoing(step).steps
            == history.steps && history.set_ongoing(step).ongoing == history.ongoing,
        history.set_ongoing(step).version == history.version || history.set_ongoing(step).version
            == history.version + 1,
        history.commit().version == history.version <==> history.commit().steps == history.steps
            && history.commit().ongoing == history.ongoing,
        history.commit().version == history.version || history.commit().version == history.version
            + 1,
{
    if history.ongoing.is_some() {
        assert(history.steps.push(history.ongoing->0).len() != history.steps.len());
    }
}

/// An observer that has taken a project as it is gets no news of it. Once
/// the ongoing step is set anew it gets news, and once the committed steps
/// or the pointer change it gets the whole project. This holds as long as
/// the revisions have not reached their largest value; from then on the
/// whole project is sent every time.
pub proof fn lemma_project_news(project: ProjectView, step: PlanView)
    requires
        project.wf(),
    ensures
        project.history_revision < u64::MAX && project.ongoing_revision < u64::MAX
            ==> project.update_for(project.known_state()) is Unchanged,
        project.history_revision == u64::MAX ==> project.update_for(
            project.known_state(),
        ) is ChangedCompletely,
        project.history_revision < u64::MAX ==> project.set_ongoing(step).update_for(
            project.known_state(),
        ) is ChangedOngoing,
        project.ongoing.is_some() ==> project.commit().update_for(
            project.known_state(),
        ) is ChangedCompletely,
        project.undo_pointer > 0 ==> project.undo().update_for(
            project.known_state(),
        ) is ChangedCompletely,
        project.undo_pointer < project.committed.len() ==> project.redo().update_for(
            project.known_state(),
        ) is ChangedCompletely,
        project.undo_pointer == 0 ==> project.undo() == project,
        project.undo_pointer == project.committed.len() ==> project.redo() == project,
        project.ongoing.is_none() ==> project.commit() == project,
{
}

/// Edits that are not committed leave the committed steps of the project and
/// its pointer as they were, however many they are.
pub proof fn lemma_uncommitted_edits_keep_the_steps(
    manager: PlanManagerView,
    project: ProjectID,
    edits: Seq<PointEdit>,
)
    requires
        manager.projects.contains_key(project),
    ensures
        apply_edits(manager, project, edits).projects.contains_key(project),
        apply_edits(manager, project, edits).projects[project].committed
            == manager.projects[project].committed,
        apply_edits(manager, project, edits).projects[project].undo_pointer
            == manager.projects[project].undo_pointer,
    decreases edits.len(),
{
    if edits.len() > 0 {
        lemma_uncommitted_edits_keep_the_steps(manager, project, edits.drop_last());
    }
}

/// After any number of uncommitted edits of control points and one committed
/// edit that takes effect, the committed steps of the project that count are
/// exactly one more than before. Where no step had been undone, the project
/// has exactly one committed step more.
pub proof fn lemma_one_commit_adds_one_step(
    manager: PlanManagerView,
    project: ProjectID,
    edits: Seq<PointEdit>,
    last: PointEdit,
)
    requires
        manager.wf(),
        manager.projects.contains_key(project),
        takes_effect(apply_edits(manager, project, edits), project, last),
    ensures
        ({
            let before = manager.projects[project];
            let after = apply_edit(apply_edits(manager, project, edits), project, last, true);
            &&& after.projects.contains_key(project)
            &&& after.projects[project].wf()
            &&& after.projects[project].undo_pointer == before.undo_pointer + 1
            &&& after.projects[project].committed.len() == before.undo_pointer + 1
            &&& before.undo_pointer == before.committed.len() ==> after.projects[project].committed
                == before.committed.push(after.projects[project].committed.last())
        }),
{
    lemma_uncommitted_edits_keep_the_steps(manager, project, edits);
    let before = manager.projects[project];
    let after = apply_edit(apply_edits(manager, project, edits), project, last, true);
    if before.undo_pointer == before.committed.len() {
        assert(before.committed.take(before.undo_pointer as int) == before.committed);
        assert(after.projects[project].committed =~= before.committed.push(
            after.projects[project].committed.last(),
        ));
    }
}

/// Undo and then redo, with nothing committed in between, gives back the
/// state that the project had: its steps, its pointer and its ongoing step,
/// and so its resolved state on any base. This holds where the undo takes
/// effect, and where there is nothing to undo and nothing to redo.
pub proof fn lemma_undo_then_redo(project: ProjectView, base: PlanView)
    requires
        project.wf(),
        project.undo_pointer > 0 || project.undo_pointer == project.committed.len(),
    ensures
        project.undo().redo().committed == project.committed,
        project.undo().redo().undo_pointer == project.undo_pointer,
        project.undo().redo().ongoing == project.ongoing,
        project.undo().redo().resolved_on(base) == project.resolved_on(base),
{
}

/// The same for the manager: after undo and redo in a project, the current
/// plan of the project is what it was.
pub proof fn lemma_undo_then_redo_in_manager(manager: PlanManagerView, project: ProjectID)
    requires
        manager.wf(),
        manager.projects.contains_key(project),
        manager.projects[project].undo_pointer > 0 || manager.projects[project].undo_pointer
            == manager.projects[project].committed.len(),
    ensures
        manager.undo(project).redo(project).current_plan(project) == manager.current_plan(project),
{
    lemma_undo_then_redo(manager.projects[project], manager.master_plan.resolved());
}

/// Moving a point that a gesture does not have changes nothing at all: not
/// the ongoing step, not the committed steps, not a preview.
pub proof fn lemma_move_out_of_range_changes_nothing(
    manager: PlanManagerView,
    project: ProjectID,
    gesture: GestureID,
    index: u32,
    position: Point,
    finished: bool,
)
    requires
        match manager.current_version_of(gesture, project) {
            Some(current) => index >= current.points.len(),
            None => true,
        },
    ensures
        manager.move_control_point(project, gesture, index, position, finished) == manager,
{
}

/// A point whose projection lies behind the path's points up to `i` and not
/// behind point `i + 1` is inserted at index `i + 1`.
pub proof fn lemma_insert_between(
    gesture: GestureView,
    distances: Seq<Distance>,
    along: Distance,
    point: Point,
    i: int,
)
    requires
        0 <= i,
        i + 1 < distances.len(),
        distances.len() <= gesture.points.len(),
        forall|j: int| 0 <= j <= i ==> !(#[trigger] distances[j]).reaches(along),
        distances[i + 1].reaches(along),
    ensures
        gesture.insertion_index_from(Some(distances), Some(along)) == i + 1,
        gesture.insert_point(i + 1, point).points[i + 1] == point,
        gesture.insert_point(i + 1, point).points.len() == gesture.points.len() + 1,
        forall|j: int| 0 <= j <= i ==> gesture.insert_point(i + 1, point).points[j] == gesture.points[j],
        forall|j: int|
            i + 1 <= j < gesture.points.len() ==> gesture.insert_point(i + 1, point).points[j + 1]
                == gesture.points[j],
{
    lemma_first_reaching_is(distances, along, i + 1);
}

/// Making a step the ongoing step of a project empties the preview of every
/// observer that looks at the project, so that the preview is worked out
/// anew when it is next asked for. All edits of gestures go this way.
pub proof fn lemma_install_empties_previews(
    manager: PlanManagerView,
    project: ProjectID,
    step: PlanView,
    commit: bool,
    machine: MachineID,
)
    requires
        manager.knows(machine, project),
        manager.ui_state[machine].current_project == project,
    ensures
        manager.install(project, step, commit).needs_preview(machine, project),
{
}

/// Taking a project in and removing one empty the previews of the observers
/// that look at it, too.
pub proof fn lemma_project_changes_empty_previews(
    manager: PlanManagerView,
    project: ProjectID,
    taken_in: ProjectView,
    machine: MachineID,
)
    requires
        manager.ui_state.contains_key(machine),
        manager.ui_state[machine].current_project == project,
    ensures
        manager.add_project(project, taken_in).needs_preview(machine, project),
        manager.remove_project(project).ui_state[machine].current_preview.is_none(),
        manager.remove_project(project).ui_state[machine].current_result_preview.is_none(),
        manager.remove_project(project).ui_state[machine].current_action_preview.is_none(),
        !manager.remove_project(project).has_preview(machine, project),
{
}

/// After an edit of a gesture that takes effect, every observer that looks
/// at the project is without a preview of it.
pub proof fn lemma_edit_empties_previews(
    manager: PlanManagerView,
    project: ProjectID,
    gesture: GestureID,
    change: spec_fn(GestureView) -> Option<GestureView>,
    commit: bool,
    machine: MachineID,
)
    requires
        manager.knows(machine, project),
        manager.ui_state[machine].current_project == project,
        manager.edit(project, gesture, change, commit) != manager,
    ensures
        manager.edit(project, gesture, change, commit).needs_preview(machine, project),
{
}

/// The same for each editing operation by its name: after one that changed
/// the manager, and after every undo and redo in a project that is there,
/// each observer that looks at the project is without a preview of it.
pub proof fn lemma_operations_empty_previews(
    manager: PlanManagerView,
    project: ProjectID,
    gesture: GestureID,
    new_gesture: GestureID,
    point: Point,
    index: u32,
    intent: GestureIntent,
    flag: bool,
    commit: bool,
    by_machine: MachineID,
    machine: MachineID,
)
    requires
        manager.knows(machine, project),
        manager.ui_state[machine].current_project == project,
    ensures
        ({
            let after = manager.start_new_gesture(project, by_machine, new_gesture, intent, point);
            after != manager ==> after.needs_preview(machine, project)
        }),
        ({
            let after = manager.add_control_point(project, gesture, point, flag, commit);
            after != manager ==> after.needs_preview(machine, project)
        }),
        ({
            let after = manager.insert_control_point(project, gesture, point, commit);
            after != manager ==> after.needs_preview(machine, project)
        }),
        ({
            let after = manager.move_control_point(project, gesture, index, point, commit);
            after != manager ==> after.needs_preview(machine, project)
        }),
        ({
            let after = manager.split_gesture(project, gesture, point, new_gesture, commit);
            after != manager ==> after.needs_preview(machine, project)
        }),
        ({
            let after = manager.set_intent(project, gesture, intent, commit);
            after != manager ==> after.needs_preview(machine, project)
        }),
        manager.undo(project).needs_preview(machine, project),
        manager.redo(project).needs_preview(machine, project),
{
}

/// Where a preview has to be worked out, asking for it works the current plan
/// of the project out and keeps that plan, whatever comes of working it out:
/// the preview is there afterwards, with a result exactly where working the
/// plan out gave one.
pub proof fn lemma_needed_preview_is_worked_out<F: Fn(&Plan) -> Result<PlanResult, AreaError>>(
    before: PlanManagerView,
    after: PlanManagerView,
    machine: MachineID,
    project: ProjectID,
    calculate_result: F,
    status: PreviewStatus,
)
    requires
        before.needs_preview(machine, project),
        preview_ensured(before, after, machine, project, calculate_result, status),
    ensures
        status is Calculated || status is Failed,
        after.ui_state.contains_key(machine),
        after.ui_state[machine].current_preview == Some(before.current_plan(project)),
        after.ui_state[machine].current_result_preview.is_some() <==> status is Calculated,
        after.ui_state[machine].current_action_preview.is_some() <==> status is Calculated,
        after.ui_state[machine].current_project == before.ui_state[machine].current_project,
        after.projects == before.projects,
        after.master_plan == before.master_plan,
{
}

/// A reference to what is not there changes nothing: an edit of a gesture
/// that the project does not hold, and any operation on a project that is
/// not known, leaves the manager as it is.
pub proof fn lemma_stale_references_change_nothing(
    manager: PlanManagerView,
    project: ProjectID,
    gesture: GestureID,
    new_gesture: GestureID,
    point: Point,
    index: u32,
    intent: GestureIntent,
    flag: bool,
    commit: bool,
    machine: MachineID,
)
    requires
        manager.current_version_of(gesture, project).is_none(),
    ensures
        manager.add_control_point(project, gesture, point, flag, commit) == manager,
        manager.insert_control_point(project, gesture, point, commit) == manager,
        manager.move_control_point(project, gesture, index, point, commit) == manager,
        manager.set_intent(project, gesture, intent, commit) == manager,
        manager.split_gesture(project, gesture, point, new_gesture, commit) == manager,
        !manager.projects.contains_key(project) ==> manager.undo(project) == manager,
        !manager.projects.contains_key(project) ==> manager.redo(project) == manager,
        !manager.projects.contains_key(project) ==> manager.start_new_gesture(
            project,
            machine,
            new_gesture,
            intent,
            point,
        ) == manager,
        !manager.ui_state.contains_key(machine) ==> manager.start_new_gesture(
            project,
            machine,
            new_gesture,
            intent,
            point,
        ) == manager,
        !manager.ui_state.contains_key(machine) ==> manager.finish_gesture(machine) == manager,
{
}

/// The step that an edit makes holds exactly the gestures that the edit
/// touched: the one gesture that was edited, or the two halves of a gesture
/// that was cut. Uncommitted it is the ongoing step of the project; committed
/// it is the last of the steps that count.
pub proof fn lemma_step_holds_what_was_touched(
    manager: PlanManagerView,
    project: ProjectID,
    step: PlanView,
)
    requires
        manager.wf(),
        manager.projects.contains_key(project),
    ensures
        manager.install(project, step, false).projects[project].ongoing == Some(step),
        manager.install(project, step, false).projects[project].committed
            == manager.projects[project].committed,
        manager.install(project, step, true).projects[project].ongoing.is_none(),
        manager.install(project, step, true).projects[project].applied().last() == step,
        forall|gesture: GestureID, changed: GestureView| #![auto]
            Map::<GestureID, GestureView>::empty().insert(gesture, changed).dom() == set![gesture],
        forall|gesture: GestureID, other: GestureID, first: GestureView, second: GestureView|
            #![auto]
            Map::<GestureID, GestureView>::empty().insert(gesture, first).insert(
                other,
                second,
            ).dom() == set![gesture, other],
{
    let committed = manager.install(project, step, true).projects[project];
    assert(committed.applied() =~= manager.projects[project].applied().push(step));
    assert forall|gesture: GestureID, changed: GestureView| #![auto]
        Map::<GestureID, GestureView>::empty().insert(gesture, changed).dom() == set![gesture] by {
        assert(Map::<GestureID, GestureView>::empty().insert(gesture, changed).dom()
            =~= set![gesture]);
    }
    assert forall|gesture: GestureID, other: GestureID, first: GestureView, second: GestureView|
        #![auto]
        Map::<GestureID, GestureView>::empty().insert(gesture, first).insert(other, second).dom()
            == set![gesture, other] by {
        assert(Map::<GestureID, GestureView>::empty().insert(gesture, first).insert(
            other,
            second,
        ).dom() =~= set![gesture, other]);
    }
}

/// Once a step is committed nothing can be redone: what was undone before is
/// dropped.
pub proof fn lemma_commit_ends_redo(project: ProjectView)
    requires
        project.wf(),
        project.ongoing.is_some(),
    ensures
        project.commit().wf(),
        project.commit().undo_pointer == project.commit().committed.len(),
        project.commit().redo() == project.commit(),
        project.commit().applied() == project.applied().push(project.ongoing->0),
{
    assert(project.commit().applied() =~= project.applied().push(project.ongoing->0));
}

/// An observer is told that a project was removed exactly where it knows a
/// project that is no longer there, and of no other project.
pub proof fn lemma_removed_exactly_where_gone(
    manager: PlanManagerView,
    known: Map<ProjectID, KnownProjectState>,
    project: ProjectID,
)
    ensures
        (manager.project_updates(known).contains_key(project) && manager.project_updates(
            known,
        )[project] is Removed) <==> (known.contains_key(project)
            && !manager.projects.contains_key(project)),
{
}

} // verus!
