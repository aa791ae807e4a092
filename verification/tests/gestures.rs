use cb_planning::geometry::{Distance, Point};
use cb_planning::gesture::{
    insertion_index_from, split_index_from, BuildingIntent, Gesture, GestureIntent, LandUse,
    RoadIntent, SplitPosition, ZoneIntent,
};
use cb_planning::identity::GestureID;

fn pt(x: f32, y: f32) -> Point {
    Point { x: x.to_bits(), y: y.to_bits() }
}

fn dist(value: f32) -> Distance {
    Distance(value.to_bits())
}

fn road() -> GestureIntent {
    GestureIntent::Road(RoadIntent { n_lanes_forward: 2, n_lanes_backward: 1 })
}

fn line() -> Gesture {
    Gesture::new(vec![pt(0.0, 0.0), pt(10.0, 0.0), pt(20.0, 0.0)], road())
}

#[test]
fn starting_at_makes_a_gesture_of_one_point() {
    let gesture = Gesture::starting_at(pt(3.0, 4.0), road());
    assert_eq!(gesture.points(), &vec![pt(3.0, 4.0)]);
    assert_eq!(gesture.intent(), road());
}

#[test]
fn new_keeps_points_and_intent() {
    let gesture = line();
    assert_eq!(gesture.points(), &vec![pt(0.0, 0.0), pt(10.0, 0.0), pt(20.0, 0.0)]);
    assert_eq!(gesture.intent(), road());
}

#[test]
fn with_point_added_appends_or_prepends() {
    let gesture = line();
    let appended = gesture.with_point_added(pt(30.0, 0.0), true);
    assert_eq!(
        appended.points(),
        &vec![pt(0.0, 0.0), pt(10.0, 0.0), pt(20.0, 0.0), pt(30.0, 0.0)]
    );
    let prepended = gesture.with_point_added(pt(-10.0, 0.0), false);
    assert_eq!(
        prepended.points(),
        &vec![pt(-10.0, 0.0), pt(0.0, 0.0), pt(10.0, 0.0), pt(20.0, 0.0)]
    );
    assert_eq!(appended.intent(), road());
    assert_eq!(prepended.intent(), road());
    // the gesture that was edited is as it was
    assert_eq!(gesture.points().len(), 3);
}

#[test]
fn with_point_inserted_shifts_the_rest() {
    let gesture = line();
    let inserted = gesture.with_point_inserted(1, pt(5.0, 0.0));
    assert_eq!(
        inserted.points(),
        &vec![pt(0.0, 0.0), pt(5.0, 0.0), pt(10.0, 0.0), pt(20.0, 0.0)]
    );
    let at_end = gesture.with_point_inserted(3, pt(30.0, 0.0));
    assert_eq!(at_end.points()[3], pt(30.0, 0.0));
    let at_start = gesture.with_point_inserted(0, pt(-1.0, 0.0));
    assert_eq!(at_start.points()[0], pt(-1.0, 0.0));
    assert_eq!(at_start.points()[1], pt(0.0, 0.0));
}

#[test]
fn with_point_moved_replaces_one_point() {
    let gesture = line();
    let moved = gesture.with_point_moved(1, pt(10.0, 5.0));
    assert_eq!(moved.points(), &vec![pt(0.0, 0.0), pt(10.0, 5.0), pt(20.0, 0.0)]);
}

#[test]
fn with_intent_keeps_the_points() {
    let gesture = line();
    let zone = GestureIntent::Zone(ZoneIntent::LandUse(LandUse::Residential));
    let changed = gesture.with_intent(zone);
    assert_eq!(changed.intent(), zone);
    assert_eq!(changed.points(), gesture.points());
}

#[test]
fn split_halves_cut_at_the_index() {
    let gesture = line();
    let position =
        SplitPosition { index: 1, point_before: pt(5.0, 0.0), point_after: pt(15.0, 0.0) };
    let (first, second) = gesture.split_halves(position);
    assert_eq!(first.points(), &vec![pt(0.0, 0.0), pt(5.0, 0.0)]);
    assert_eq!(second.points(), &vec![pt(15.0, 0.0), pt(10.0, 0.0), pt(20.0, 0.0)]);
    assert_eq!(first.intent(), road());
    assert_eq!(second.intent(), road());
}

#[test]
fn split_halves_at_the_edges() {
    let gesture = line();
    let at_start =
        SplitPosition { index: 0, point_before: pt(-1.0, 0.0), point_after: pt(1.0, 0.0) };
    let (first, second) = gesture.split_halves(at_start);
    assert_eq!(first.points(), &vec![pt(-1.0, 0.0)]);
    assert_eq!(second.points().len(), 4);
    let at_end =
        SplitPosition { index: 3, point_before: pt(19.0, 0.0), point_after: pt(21.0, 0.0) };
    let (first, second) = gesture.split_halves(at_end);
    assert_eq!(first.points().len(), 4);
    assert_eq!(second.points(), &vec![pt(21.0, 0.0)]);
}

#[test]
fn same_as_compares_points_and_intent() {
    let gesture = line();
    assert!(gesture.same_as(&line()));
    assert!(gesture.same_as(&gesture.clone()));
    assert!(!gesture.same_as(&gesture.with_point_moved(2, pt(20.0, 1.0))));
    assert!(!gesture.same_as(&gesture.with_point_added(pt(30.0, 0.0), true)));
    let other = GestureIntent::Building(BuildingIntent { style: 3 });
    assert!(!gesture.same_as(&gesture.with_intent(other)));
}

#[test]
fn a_point_between_two_points_is_inserted_between_them() {
    let gesture = line();
    // projects onto the second segment, between the points 1 and 2
    let new_point = pt(15.0, 0.5);
    let index = gesture.insertion_index(new_point);
    assert_eq!(index, 2);
    let inserted = gesture.with_point_inserted(index, new_point);
    assert_eq!(inserted.points()[2], new_point);
    assert_eq!(inserted.points()[1], pt(10.0, 0.0));
    assert_eq!(inserted.points()[3], pt(20.0, 0.0));
}

#[test]
fn insertion_index_on_a_bent_path() {
    let gesture = Gesture::new(vec![pt(0.0, 0.0), pt(10.0, 0.0), pt(10.0, 10.0)], road());
    assert_eq!(gesture.insertion_index(pt(11.0, 5.0)), 2);
    assert_eq!(gesture.insertion_index(pt(5.0, -1.0)), 1);
}

#[test]
fn insertion_index_from_takes_the_first_that_reaches() {
    let distances = Some(vec![dist(0.0), dist(10.0), dist(20.0)]);
    assert_eq!(insertion_index_from(3, &distances, Some(dist(12.5))), 2);
    assert_eq!(insertion_index_from(3, &distances, Some(dist(10.0))), 1);
    assert_eq!(insertion_index_from(3, &distances, Some(dist(0.0))), 0);
    assert_eq!(insertion_index_from(3, &distances, Some(dist(-0.0))), 0);
    assert_eq!(insertion_index_from(3, &distances, Some(dist(25.0))), 3);
    assert_eq!(insertion_index_from(3, &distances, None), 3);
    assert_eq!(insertion_index_from(3, &None, Some(dist(5.0))), 3);
    assert_eq!(insertion_index_from(1, &None, None), 1);
}

#[test]
fn split_index_from_needs_path_projection_and_reach() {
    let distances = Some(vec![dist(0.0), dist(10.0), dist(20.0)]);
    assert_eq!(split_index_from(&distances, Some(dist(12.5))), Some(2));
    assert_eq!(split_index_from(&distances, Some(dist(10.0))), Some(1));
    assert_eq!(split_index_from(&distances, Some(dist(25.0))), None);
    assert_eq!(split_index_from(&distances, None), None);
    assert_eq!(split_index_from(&None, Some(dist(5.0))), None);
}

#[test]
fn split_position_between_points() {
    let gesture = line();
    let position = gesture.split_position(pt(12.0, 1.0)).unwrap();
    assert_eq!(position.index, 2);
    assert_eq!(position.point_before, pt(7.0, 0.0));
    assert_eq!(position.point_after, pt(17.0, 0.0));
}

#[test]
fn split_position_near_the_ends_of_the_path() {
    let gesture = line();
    let position = gesture.split_position(pt(2.0, 0.0)).unwrap();
    assert_eq!(position.index, 1);
    // five before the projection lies before the start, on the line of the first segment
    assert_eq!(position.point_before, pt(-3.0, 0.0));
    assert_eq!(position.point_after, pt(7.0, 0.0));
    let position = gesture.split_position(pt(18.0, 0.0)).unwrap();
    assert_eq!(position.index, 2);
    assert_eq!(position.point_before, pt(13.0, 0.0));
    // five behind the projection lies behind the end: the end of the path it is
    assert_eq!(position.point_after, pt(20.0, 0.0));
}

#[test]
fn no_split_position_without_a_path() {
    let single = Gesture::starting_at(pt(0.0, 0.0), road());
    assert!(single.split_position(pt(0.0, 0.0)).is_none());
    let twice = Gesture::new(vec![pt(1.0, 1.0), pt(1.0, 1.0)], road());
    assert!(twice.split_position(pt(1.0, 1.0)).is_none());
    assert_eq!(twice.insertion_index(pt(1.0, 1.0)), 2);
}

#[test]
fn fresh_identities_differ() {
    let a = GestureID::new();
    let b = GestureID::new();
    assert_ne!(a, b);
}

#[test]
fn fresh_identities_are_of_version_four() {
    for _ in 0..64 {
        let id = GestureID::new();
        assert_eq!((id.0 >> 76) & 0xF, 4);
        assert_eq!((id.0 >> 62) & 0x3, 2);
        assert_eq!(id.0 & 0xF000_C000_0000_0000_0000, 0x4000_8000_0000_0000_0000);
    }
}

#[test]
fn insertion_index_where_the_path_drops_points() {
    // the second point lies too close to the first to be a point of the path
    let gesture =
        Gesture::new(vec![pt(0.0, 0.0), pt(0.0, 0.0001), pt(10.0, 0.0), pt(20.0, 0.0)], road());
    // the path has the lengths 0, 10, 20: index 2 is the first that reaches 15
    assert_eq!(gesture.insertion_index(pt(15.0, 0.0)), 2);
    assert_eq!(gesture.insertion_index(pt(5.0, 0.0)), 1);
    let position = gesture.split_position(pt(15.0, 0.0)).unwrap();
    assert_eq!(position.index, 2);
    assert_eq!(position.point_before, pt(10.0, 0.0));
    assert_eq!(position.point_after, pt(20.0, 0.0));
    let (first, second) = gesture.split_halves(position);
    assert_eq!(first.points().len(), 3);
    assert_eq!(second.points().len(), 3);
}

#[test]
fn indices_stay_within_the_gesture() {
    let coordinates = [0.0f32, 0.0005, 1.0, -3.5, 10.0, 10.0, 250.0, f32::MAX, f32::NAN, -0.0];
    let mut points = Vec::new();
    for (i, x) in coordinates.iter().enumerate() {
        points.push(pt(*x, coordinates[(i * 3 + 1) % coordinates.len()]));
        let gesture = Gesture::new(points.clone(), road());
        for probe in points.iter().chain([pt(0.5, 0.5), pt(f32::INFINITY, 0.0)].iter()) {
            let index = gesture.insertion_index(*probe);
            assert!(index <= points.len());
            assert_eq!(gesture.with_point_inserted(index, *probe).points()[index], *probe);
            if let Some(position) = gesture.split_position(*probe) {
                assert!(position.index < points.len());
                let (first, second) = gesture.split_halves(position);
                assert_eq!(first.points().len(), position.index + 1);
                assert_eq!(second.points().len(), points.len() - position.index + 1);
            }
        }
    }
}
