use cb_planning::geometry::Point;
use cb_planning::gesture::{BuildingIntent, Gesture, GestureIntent};
use cb_planning::identity::GestureID;
use cb_planning::plan::{find_in_steps, fold_onto, Plan};

fn pt_p(x: f32, y: f32) -> Point {
    Point { x: x.to_bits(), y: y.to_bits() }
}

fn building(style: u8) -> GestureIntent {
    GestureIntent::Building(BuildingIntent { style })
}

fn gesture_at(x: f32, style: u8) -> Gesture {
    Gesture::starting_at(pt_p(x, 0.0), building(style))
}

#[test]
fn new_plan_is_empty() {
    let plan = Plan::new();
    assert_eq!(plan.len(), 0);
    assert!(plan.get(GestureID(1)).is_none());
    assert!(!plan.contains(GestureID(1)));
}

#[test]
fn from_gesture_holds_one_gesture() {
    let plan = Plan::from_gesture(GestureID(7), gesture_at(1.0, 0));
    assert_eq!(plan.len(), 1);
    assert!(plan.contains(GestureID(7)));
    assert!(plan.get(GestureID(7)).unwrap().same_as(&gesture_at(1.0, 0)));
    assert!(plan.get(GestureID(8)).is_none());
    assert_eq!(plan.id_at(0), GestureID(7));
    assert!(plan.gesture_at(0).same_as(&gesture_at(1.0, 0)));
}

#[test]
fn from_gestures_lets_the_later_gesture_stay() {
    let plan = Plan::from_gestures(&vec![
        (GestureID(1), gesture_at(1.0, 0)),
        (GestureID(2), gesture_at(2.0, 0)),
        (GestureID(1), gesture_at(3.0, 0)),
    ]);
    assert_eq!(plan.len(), 2);
    assert!(plan.get(GestureID(1)).unwrap().same_as(&gesture_at(3.0, 0)));
    assert!(plan.get(GestureID(2)).unwrap().same_as(&gesture_at(2.0, 0)));
    assert_eq!(Plan::from_gestures(&Vec::new()).len(), 0);
}

#[test]
fn insert_replaces_under_the_same_identity() {
    let mut plan = Plan::new();
    plan.insert(GestureID(1), gesture_at(1.0, 0));
    plan.insert(GestureID(2), gesture_at(2.0, 0));
    plan.insert(GestureID(1), gesture_at(9.0, 1));
    assert_eq!(plan.len(), 2);
    assert!(plan.get(GestureID(1)).unwrap().same_as(&gesture_at(9.0, 1)));
}

#[test]
fn absorb_prefers_the_plan_laid_over() {
    let mut base = Plan::from_gestures(&vec![
        (GestureID(1), gesture_at(1.0, 0)),
        (GestureID(2), gesture_at(2.0, 0)),
    ]);
    let over = Plan::from_gestures(&vec![
        (GestureID(2), gesture_at(20.0, 0)),
        (GestureID(3), gesture_at(30.0, 0)),
    ]);
    let merged = base.merged_with(&over);
    base.absorb(&over);
    assert!(base.same_as(&merged));
    assert_eq!(base.len(), 3);
    assert!(base.get(GestureID(1)).unwrap().same_as(&gesture_at(1.0, 0)));
    assert!(base.get(GestureID(2)).unwrap().same_as(&gesture_at(20.0, 0)));
    assert!(base.get(GestureID(3)).unwrap().same_as(&gesture_at(30.0, 0)));
    // the plan that was laid over is as it was
    assert_eq!(over.len(), 2);
}

#[test]
fn same_as_ignores_the_order_of_entries() {
    let a = Plan::from_gestures(&vec![
        (GestureID(1), gesture_at(1.0, 0)),
        (GestureID(2), gesture_at(2.0, 0)),
    ]);
    let b = Plan::from_gestures(&vec![
        (GestureID(2), gesture_at(2.0, 0)),
        (GestureID(1), gesture_at(1.0, 0)),
    ]);
    assert!(a.same_as(&b));
    assert!(a.same_as(&a.clone()));
    let c = Plan::from_gesture(GestureID(1), gesture_at(1.0, 0));
    assert!(!a.same_as(&c));
    assert!(!c.same_as(&a));
    let d = Plan::from_gestures(&vec![
        (GestureID(1), gesture_at(1.0, 0)),
        (GestureID(2), gesture_at(2.0, 1)),
    ]);
    assert!(!a.same_as(&d));
    assert!(Plan::new().same_as(&Plan::new()));
}

#[test]
fn fold_onto_lets_the_last_step_decide() {
    let mut base = Plan::from_gesture(GestureID(1), gesture_at(1.0, 0));
    let steps = vec![
        Plan::from_gesture(GestureID(1), gesture_at(2.0, 0)),
        Plan::from_gesture(GestureID(2), gesture_at(5.0, 0)),
        Plan::from_gesture(GestureID(1), gesture_at(3.0, 0)),
    ];
    fold_onto(&mut base, &steps);
    assert_eq!(base.len(), 2);
    assert!(base.get(GestureID(1)).unwrap().same_as(&gesture_at(3.0, 0)));
    assert!(base.get(GestureID(2)).unwrap().same_as(&gesture_at(5.0, 0)));
    let mut untouched = Plan::from_gesture(GestureID(1), gesture_at(1.0, 0));
    fold_onto(&mut untouched, &Vec::new());
    assert!(untouched.same_as(&Plan::from_gesture(GestureID(1), gesture_at(1.0, 0))));
}

#[test]
fn find_in_steps_takes_the_last_step_that_holds_the_gesture() {
    let steps = vec![
        Plan::from_gesture(GestureID(1), gesture_at(2.0, 0)),
        Plan::from_gesture(GestureID(2), gesture_at(5.0, 0)),
        Plan::from_gesture(GestureID(1), gesture_at(3.0, 0)),
    ];
    assert!(find_in_steps(&steps, GestureID(1)).unwrap().same_as(&gesture_at(3.0, 0)));
    assert!(find_in_steps(&steps, GestureID(2)).unwrap().same_as(&gesture_at(5.0, 0)));
    assert!(find_in_steps(&steps, GestureID(3)).is_none());
    assert!(find_in_steps(&Vec::new(), GestureID(1)).is_none());
}
