use cb_planning::geometry::Point;
use cb_planning::gesture::{BuildingIntent, Gesture, GestureIntent};
use cb_planning::history::{KnownHistoryState, PlanHistory, PlanHistoryUpdate};
use cb_planning::identity::GestureID;
use cb_planning::plan::Plan;

fn step_h(id: u128, x: f32) -> Plan {
    let point = Point { x: x.to_bits(), y: 0f32.to_bits() };
    let intent = GestureIntent::Building(BuildingIntent { style: 0 });
    Plan::from_gesture(GestureID(id), Gesture::starting_at(point, intent))
}

#[test]
fn new_history_is_empty_at_version_zero() {
    let history = PlanHistory::new();
    assert_eq!(history.version(), 0);
    assert_eq!(history.step_count(), 0);
    assert!(history.ongoing().is_none());
    assert_eq!(history.resolve().len(), 0);
}

#[test]
fn set_ongoing_step_counts_a_change() {
    let mut history = PlanHistory::new();
    history.set_ongoing_step(step_h(1, 1.0));
    assert_eq!(history.version(), 1);
    assert!(history.ongoing().as_ref().unwrap().same_as(&step_h(1, 1.0)));
    assert_eq!(history.step_count(), 0);
    history.set_ongoing_step(step_h(1, 2.0));
    assert_eq!(history.version(), 2);
    assert!(history.ongoing().as_ref().unwrap().same_as(&step_h(1, 2.0)));
}

#[test]
fn setting_the_same_ongoing_step_is_no_change() {
    let mut history = PlanHistory::new();
    history.set_ongoing_step(step_h(1, 1.0));
    history.set_ongoing_step(step_h(1, 1.0));
    assert_eq!(history.version(), 1);
}

#[test]
fn commit_moves_the_ongoing_step_to_the_steps() {
    let mut history = PlanHistory::new();
    history.set_ongoing_step(step_h(1, 1.0));
    history.commit();
    assert_eq!(history.version(), 2);
    assert_eq!(history.step_count(), 1);
    assert!(history.step(0).same_as(&step_h(1, 1.0)));
    assert!(history.ongoing().is_none());
}

#[test]
fn commit_without_an_ongoing_step_is_no_change() {
    let mut history = PlanHistory::new();
    history.commit();
    assert_eq!(history.version(), 0);
    assert_eq!(history.step_count(), 0);
    history.set_ongoing_step(step_h(1, 1.0));
    history.commit();
    history.commit();
    assert_eq!(history.version(), 2);
    assert_eq!(history.step_count(), 1);
}

#[test]
fn resolve_lets_the_last_write_win() {
    let mut history = PlanHistory::new();
    history.set_ongoing_step(step_h(1, 1.0));
    history.commit();
    history.set_ongoing_step(step_h(2, 2.0));
    history.commit();
    history.set_ongoing_step(step_h(1, 3.0));
    history.commit();
    history.set_ongoing_step(step_h(2, 4.0));
    let resolved = history.resolve();
    assert_eq!(resolved.len(), 2);
    assert!(resolved.same_as(&step_h(1, 3.0).merged_with(&step_h(2, 4.0))));
}

#[test]
fn resolving_twice_gives_the_same_plan() {
    let mut history = PlanHistory::new();
    history.set_ongoing_step(step_h(1, 1.0));
    history.commit();
    history.set_ongoing_step(step_h(2, 2.0));
    let first = history.resolve();
    let second = history.resolve();
    assert!(first.same_as(&second));
    assert_eq!(history.version(), 3);
    // a history of the resolved state alone resolves to it
    let mut settled = PlanHistory::new();
    settled.set_ongoing_step(first.clone());
    settled.commit();
    assert!(settled.resolve().same_as(&first));
}

#[test]
fn update_for_compares_versions() {
    let mut history = PlanHistory::new();
    history.set_ongoing_step(step_h(1, 1.0));
    let known = history.known_state();
    assert_eq!(known, KnownHistoryState { version: Some(1) });
    assert!(matches!(history.update_for(&known), PlanHistoryUpdate::Unchanged));
    history.commit();
    match history.update_for(&known) {
        PlanHistoryUpdate::ChangedCompletely(sent) => {
            assert_eq!(sent.version(), 2);
            assert_eq!(sent.step_count(), 1);
            assert!(sent.resolve().same_as(&history.resolve()));
        }
        PlanHistoryUpdate::Unchanged => panic!("the observer is behind"),
    }
    let nothing = KnownHistoryState { version: None };
    assert!(matches!(history.update_for(&nothing), PlanHistoryUpdate::ChangedCompletely(_)));
    assert!(matches!(
        PlanHistory::new().update_for(&nothing),
        PlanHistoryUpdate::ChangedCompletely(_)
    ));
    let ahead = KnownHistoryState { version: Some(9) };
    assert!(matches!(history.update_for(&ahead), PlanHistoryUpdate::ChangedCompletely(_)));
}

#[test]
fn find_looks_in_the_ongoing_step_first() {
    let mut history = PlanHistory::new();
    assert!(history.find(GestureID(1)).is_none());
    history.set_ongoing_step(step_h(1, 1.0));
    history.commit();
    history.set_ongoing_step(step_h(2, 2.0));
    history.commit();
    history.set_ongoing_step(step_h(1, 3.0));
    history.commit();
    assert!(history.find(GestureID(1)).unwrap().same_as(step_h(1, 3.0).gesture_at(0)));
    assert!(history.find(GestureID(2)).unwrap().same_as(step_h(2, 2.0).gesture_at(0)));
    history.set_ongoing_step(step_h(2, 4.0));
    assert!(history.find(GestureID(2)).unwrap().same_as(step_h(2, 4.0).gesture_at(0)));
    assert!(history.find(GestureID(1)).unwrap().same_as(step_h(1, 3.0).gesture_at(0)));
    assert!(history.find(GestureID(3)).is_none());
    let resolved = history.resolve();
    for id in [GestureID(1), GestureID(2)] {
        assert!(history.find(id).unwrap().same_as(resolved.get(id).unwrap()));
    }
}
