use cb_planning::geometry::Point;
use cb_planning::gesture::{BuildingIntent, Gesture, GestureIntent};
use cb_planning::history::PlanHistory;
use cb_planning::identity::{GestureID, ProjectID};
use cb_planning::plan::Plan;
use cb_planning::project::{KnownProjectState, Project, ProjectUpdate};

fn step_p(id: u128, x: f32) -> Plan {
    let point = Point { x: x.to_bits(), y: 0f32.to_bits() };
    let intent = GestureIntent::Building(BuildingIntent { style: 0 });
    Plan::from_gesture(GestureID(id), Gesture::starting_at(point, intent))
}

fn committed(steps: Vec<Plan>) -> Project {
    let mut project = Project::new();
    for step in steps {
        project.set_ongoing_step(step);
        project.start_new_step();
    }
    project
}

#[test]
fn new_project_has_nothing() {
    let project = Project::new();
    assert_eq!(project.undo_pointer(), 0);
    assert_eq!(project.redo_count(), 0);
    assert!(project.ongoing().is_none());
    assert_eq!(project.current_history().len(), 0);
    assert_eq!(
        project.known_state(),
        KnownProjectState { history_revision: 0, ongoing_revision: 0 }
    );
}

#[test]
fn from_plan_makes_the_plan_the_ongoing_step() {
    let project = Project::from_plan(step_p(1, 1.0));
    assert!(project.ongoing().as_ref().unwrap().same_as(&step_p(1, 1.0)));
    assert_eq!(project.undo_pointer(), 0);
}

#[test]
fn set_ongoing_step_replaces_the_ongoing_step() {
    let mut project = Project::new();
    project.set_ongoing_step(step_p(1, 1.0));
    project.set_ongoing_step(step_p(1, 2.0));
    assert!(project.ongoing().as_ref().unwrap().same_as(&step_p(1, 2.0)));
    assert_eq!(project.undo_pointer(), 0);
    assert_eq!(
        project.known_state(),
        KnownProjectState { history_revision: 0, ongoing_revision: 2 }
    );
}

#[test]
fn start_new_step_commits_the_ongoing_step() {
    let mut project = Project::new();
    project.set_ongoing_step(step_p(1, 1.0));
    project.start_new_step();
    assert_eq!(project.undo_pointer(), 1);
    assert!(project.ongoing().is_none());
    assert!(project.current_history()[0].same_as(&step_p(1, 1.0)));
    assert_eq!(
        project.known_state(),
        KnownProjectState { history_revision: 1, ongoing_revision: 2 }
    );
}

#[test]
fn start_new_step_without_an_ongoing_step_changes_nothing() {
    let mut project = committed(vec![step_p(1, 1.0)]);
    let before = project.known_state();
    project.start_new_step();
    assert_eq!(project.undo_pointer(), 1);
    assert_eq!(project.known_state(), before);
}

#[test]
fn undo_and_redo_move_the_pointer_within_the_steps() {
    let mut project = committed(vec![step_p(1, 1.0), step_p(2, 2.0)]);
    assert_eq!((project.undo_pointer(), project.redo_count()), (2, 0));
    project.redo();
    assert_eq!((project.undo_pointer(), project.redo_count()), (2, 0));
    project.undo();
    assert_eq!((project.undo_pointer(), project.redo_count()), (1, 1));
    project.undo();
    assert_eq!((project.undo_pointer(), project.redo_count()), (0, 2));
    project.undo();
    assert_eq!((project.undo_pointer(), project.redo_count()), (0, 2));
    project.redo();
    assert_eq!((project.undo_pointer(), project.redo_count()), (1, 1));
    assert!(project.current_history()[0].same_as(&step_p(1, 1.0)));
    project.redo();
    assert_eq!((project.undo_pointer(), project.redo_count()), (2, 0));
    assert!(project.current_history()[1].same_as(&step_p(2, 2.0)));
}

#[test]
fn undo_then_redo_restores_the_resolved_state() {
    let master = PlanHistory::new();
    let mut project = committed(vec![step_p(1, 1.0), step_p(2, 2.0), step_p(1, 3.0)]);
    project.set_ongoing_step(step_p(3, 9.0));
    let before = project.apply_to_with_ongoing(&master);
    project.undo();
    assert!(!project.apply_to_with_ongoing(&master).same_as(&before));
    project.redo();
    assert!(project.apply_to_with_ongoing(&master).same_as(&before));
    assert_eq!(project.undo_pointer(), 3);
}

#[test]
fn a_commit_after_undo_drops_what_was_undone() {
    let mut project = committed(vec![step_p(1, 1.0), step_p(2, 2.0), step_p(3, 3.0)]);
    project.undo();
    project.undo();
    assert_eq!((project.undo_pointer(), project.redo_count()), (1, 2));
    project.set_ongoing_step(step_p(4, 4.0));
    project.start_new_step();
    assert_eq!((project.undo_pointer(), project.redo_count()), (2, 0));
    project.redo();
    assert_eq!((project.undo_pointer(), project.redo_count()), (2, 0));
    assert!(project.current_history()[0].same_as(&step_p(1, 1.0)));
    assert!(project.current_history()[1].same_as(&step_p(4, 4.0)));
}

#[test]
fn apply_to_with_ongoing_lays_the_project_over_the_master() {
    let mut master = PlanHistory::new();
    master.set_ongoing_step(step_p(1, 1.0));
    master.commit();
    master.set_ongoing_step(step_p(2, 2.0));
    let mut project = committed(vec![step_p(2, 20.0), step_p(3, 30.0)]);
    project.set_ongoing_step(step_p(3, 31.0));
    let resolved = project.apply_to_with_ongoing(&master);
    assert_eq!(resolved.len(), 3);
    assert!(resolved.get(GestureID(1)).unwrap().same_as(step_p(1, 1.0).gesture_at(0)));
    assert!(resolved.get(GestureID(2)).unwrap().same_as(step_p(2, 20.0).gesture_at(0)));
    assert!(resolved.get(GestureID(3)).unwrap().same_as(step_p(3, 31.0).gesture_at(0)));
    // steps that were undone do not count
    project.undo();
    let resolved = project.apply_to_with_ongoing(&master);
    assert!(resolved.get(GestureID(3)).unwrap().same_as(step_p(3, 31.0).gesture_at(0)));
    project.undo();
    let resolved = project.apply_to_with_ongoing(&master);
    assert!(resolved.get(GestureID(2)).unwrap().same_as(step_p(2, 2.0).gesture_at(0)));
    // a change of the master shows in the project
    master.set_ongoing_step(step_p(1, 5.0));
    let resolved = project.apply_to_with_ongoing(&master);
    assert!(resolved.get(GestureID(1)).unwrap().same_as(step_p(1, 5.0).gesture_at(0)));
    assert!(!resolved.contains(GestureID(2)));
}

#[test]
fn update_for_sends_what_is_missing() {
    let mut project = committed(vec![step_p(1, 1.0)]);
    let known = project.known_state();
    assert!(matches!(project.update_for(&known), ProjectUpdate::Unchanged));
    project.set_ongoing_step(step_p(1, 2.0));
    match project.update_for(&known) {
        ProjectUpdate::ChangedOngoing(ongoing, now_known) => {
            assert!(ongoing.unwrap().same_as(&step_p(1, 2.0)));
            assert_eq!(now_known, project.known_state());
            assert!(matches!(project.update_for(&now_known), ProjectUpdate::Unchanged));
        }
        _ => panic!("only the ongoing step changed"),
    }
    project.start_new_step();
    match project.update_for(&known) {
        ProjectUpdate::ChangedCompletely(sent) => {
            assert_eq!(sent.undo_pointer(), 2);
            assert_eq!(sent.known_state(), project.known_state());
            assert!(sent.current_history()[1].same_as(&step_p(1, 2.0)));
        }
        _ => panic!("the committed steps changed"),
    }
    let known = project.known_state();
    project.undo();
    assert!(matches!(project.update_for(&known), ProjectUpdate::ChangedCompletely(_)));
    let known = project.known_state();
    project.redo();
    assert!(matches!(project.update_for(&known), ProjectUpdate::ChangedCompletely(_)));
}

#[test]
fn undo_at_the_first_step_is_no_news() {
    let mut project = Project::new();
    let known = project.known_state();
    project.undo();
    project.redo();
    assert!(matches!(project.update_for(&known), ProjectUpdate::Unchanged));
}

#[test]
fn fresh_project_identities_differ() {
    let id = ProjectID::new();
    assert_ne!(id, ProjectID::new());
    assert_eq!(id.0 & 0xF000_C000_0000_0000_0000, 0x4000_8000_0000_0000_0000);
}

#[test]
fn find_agrees_with_the_resolved_state() {
    let mut master = PlanHistory::new();
    master.set_ongoing_step(step_p(1, 1.0));
    master.commit();
    master.set_ongoing_step(step_p(2, 2.0));
    let mut project = committed(vec![step_p(2, 20.0), step_p(3, 30.0), step_p(2, 21.0)]);
    project.set_ongoing_step(step_p(3, 31.0));
    for _ in 0..4 {
        let resolved = project.apply_to_with_ongoing(&master);
        for id in 0..5u128 {
            match (project.find(&master, GestureID(id)), resolved.get(GestureID(id))) {
                (Some(found), Some(expected)) => assert!(found.same_as(expected)),
                (None, None) => {}
                _ => panic!("gesture {}", id),
            }
        }
        project.undo();
    }
    assert!(project.find(&master, GestureID(2)).unwrap().same_as(step_p(2, 2.0).gesture_at(0)));
    assert!(project.find(&master, GestureID(3)).unwrap().same_as(step_p(3, 31.0).gesture_at(0)));
    assert!(project.find(&master, GestureID(4)).is_none());
}
